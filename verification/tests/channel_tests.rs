use system_bridge::BridgeError;
use system_bridge::SystemBridge;
use system_bridge::SystemReceiverPlugin;
use system_bridge::drain_system_channel;

#[test]
fn bridge_delivers_in_fifo_order() {
    let bridge = SystemBridge::new();
    let config = SystemReceiverPlugin::new(32);
    bridge.enqueue_system(1).unwrap();
    bridge.enqueue_system(2).unwrap();
    bridge.enqueue_system(3).unwrap();
    assert_eq!(bridge.drain_cycle_ops(&config), vec![1, 2, 3]);
    assert!(bridge.drain_cycle_ops(&config).is_empty());
}

#[test]
fn bridge_respects_the_per_cycle_cap() {
    let bridge = SystemBridge::new();
    let config = SystemReceiverPlugin::new(2);
    for op in 10..15 {
        bridge.enqueue_system(op).unwrap();
    }
    assert_eq!(bridge.drain_cycle_ops(&config), vec![10, 11]);
    assert_eq!(bridge.drain_cycle_ops(&config), vec![12, 13]);
    assert_eq!(bridge.drain_cycle_ops(&config), vec![14]);
    assert!(bridge.drain_cycle_ops(&config).is_empty());
}

#[test]
fn default_config_caps_at_thirty_two() {
    let bridge = SystemBridge::new();
    let config = SystemReceiverPlugin::default();
    assert_eq!(config.max_systems_per_frame, 32);
    for op in 0..40 {
        bridge.enqueue_system(op).unwrap();
    }
    let first: Vec<u64> = (0..32).collect();
    let second: Vec<u64> = (32..40).collect();
    assert_eq!(bridge.drain_cycle_ops(&config), first);
    assert_eq!(bridge.drain_cycle_ops(&config), second);
}

#[test]
fn drain_system_channel_discards_everything() {
    let bridge = SystemBridge::new();
    let config = SystemReceiverPlugin::new(32);
    bridge.enqueue_system(1).unwrap();
    bridge.enqueue_system(2).unwrap();
    drain_system_channel(&bridge);
    assert!(bridge.drain_cycle_ops(&config).is_empty());
}

#[test]
fn enqueue_into_a_closed_queue_is_the_invariant_violation() {
    // The process-wide queue is never closed in normal operation; build a
    // bridge around a deliberately closed queue to observe the error.
    let (tx, rx_to_drop) = async_channel::unbounded::<u64>();
    drop(rx_to_drop);
    let (_tx_keep, rx) = async_channel::unbounded::<u64>();
    let bridge = SystemBridge { tx, rx };
    assert_eq!(
        bridge.enqueue_system(1),
        Err(BridgeError::ChannelInvariantViolation)
    );
}
