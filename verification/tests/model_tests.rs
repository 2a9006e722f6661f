use system_bridge::BridgeModel;
use system_bridge::Request;
use system_bridge::Systems;

#[test]
fn submit_many_executes_in_submitted_order() {
    let mut m = BridgeModel::new(32);
    let group = vec![
        Systems::One(1),
        Systems::Many(vec![2, 3]),
        Systems::Empty,
        Systems::One(4),
    ];
    m.submit_many(group);
    assert_eq!(m.queue.len(), 4);
    let popped = m.drain_cycle();
    assert_eq!(m.executed, vec![1, 2, 3, 4]);
    assert_eq!(popped.len(), 4);
    assert!(popped.iter().all(|r| r.awaiting));
}

#[test]
fn cap_of_one_takes_three_cycles() {
    let mut m = BridgeModel::new(1);
    m.submit(10);
    m.submit(20);
    m.submit(30);
    let first = m.drain_cycle();
    assert_eq!(first, vec![Request { op: 10, awaiting: true }]);
    assert_eq!(m.executed, vec![10]);
    assert_eq!(m.queue.len(), 2);
    m.drain_cycle();
    assert_eq!(m.executed, vec![10, 20]);
    assert_eq!(m.queue.len(), 1);
    m.drain_cycle();
    assert_eq!(m.executed, vec![10, 20, 30]);
    assert_eq!(m.queue.len(), 0);
    let extra = m.drain_cycle();
    assert!(extra.is_empty());
    assert_eq!(m.executed, vec![10, 20, 30]);
}

#[test]
fn remainder_persists_in_original_order() {
    let mut m = BridgeModel::new(2);
    m.submit_ops(&vec![1, 2, 3, 4, 5]);
    m.drain_cycle();
    assert_eq!(m.executed, vec![1, 2]);
    let remaining: Vec<u64> = m.queue.iter().map(|r| r.op).collect();
    assert_eq!(remaining, vec![3, 4, 5]);
}

#[test]
fn drain_all_then_cycle_executes_nothing() {
    let mut m = BridgeModel::new(32);
    m.submit(7);
    m.submit(8);
    m.drain_all();
    let popped = m.drain_cycle();
    assert!(popped.is_empty());
    assert!(m.executed.is_empty());
    assert!(m.queue.is_empty());
}

#[test]
fn cancelled_waiter_still_executes_exactly_once() {
    let mut m = BridgeModel::new(32);
    m.submit(5);
    m.submit(6);
    m.cancel_waiter(0);
    let popped = m.drain_cycle();
    assert_eq!(m.executed, vec![5, 6]);
    assert_eq!(popped[0], Request { op: 5, awaiting: false });
    assert_eq!(popped[1], Request { op: 6, awaiting: true });
    let again = m.drain_cycle();
    assert!(again.is_empty());
    assert_eq!(m.executed, vec![5, 6]);
}

#[test]
fn operation_executes_exactly_once_over_many_cycles() {
    let mut m = BridgeModel::new(4);
    m.submit(42);
    for _ in 0..5 {
        m.drain_cycle();
    }
    assert_eq!(m.executed, vec![42]);
}

#[test]
fn chained_continuations_run_after_both_parents() {
    // Submit A and B as one two-element group; A's continuation spawns C and
    // B's spawns D, A's resolving first. Owner-thread order: A, B, C, D.
    let a = 1u64;
    let b = 2u64;
    let c = 3u64;
    let d = 4u64;
    let mut m = BridgeModel::new(32);
    m.submit_many(vec![Systems::One(a), Systems::One(b)]);
    m.drain_cycle();
    assert_eq!(m.executed, vec![a, b]);
    // A's continuation resolves and re-submits C, then B's re-submits D.
    match system_bridge::next_chain_step(Some(Ok(Systems::One(c)))) {
        system_bridge::ChainStep::SubmitMore(ops) => m.submit_ops(&ops),
        _ => panic!("continuation with follow-up must ask for a submission"),
    }
    match system_bridge::next_chain_step(Some(Ok(Systems::One(d)))) {
        system_bridge::ChainStep::SubmitMore(ops) => m.submit_ops(&ops),
        _ => panic!("continuation with follow-up must ask for a submission"),
    }
    m.drain_cycle();
    assert_eq!(m.executed, vec![a, b, c, d]);
}
