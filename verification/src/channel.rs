//! The process-wide request channel: the concurrent FIFO transport behind
//! the bridge, carried by an outside multi-producer multi-consumer queue.
//!
//! The queue carries plain operation handles; the host keys the executable
//! callables by handle. Producers enqueue from any thread; only the owner
//! thread pops. The queue is unbounded and never closed in normal operation.

use vstd::prelude::*;
use crate::chain::BridgeError;
use crate::plugin::SystemReceiverPlugin;

verus! {

#[verifier::external_type_specification]
#[verifier::external_body]
#[verifier::reject_recursive_types(T)]
pub struct ExSender<T>(async_channel::Sender<T>);

#[verifier::external_type_specification]
#[verifier::external_body]
#[verifier::reject_recursive_types(T)]
pub struct ExReceiver<T>(async_channel::Receiver<T>);

/// Relies on async_channel::unbounded: creates one open, empty, unbounded
/// multi-producer multi-consumer FIFO queue and returns its two endpoints.
#[verifier::external_body]
fn new_unbounded_channel() -> (async_channel::Sender<u64>, async_channel::Receiver<u64>) {
    async_channel::unbounded()
}

/// Relies on async_channel::Sender::try_send: on an unbounded channel it
/// enqueues the message at the back and returns true, unless the channel is
/// closed; it never blocks and never panics.
#[verifier::external_body]
fn send_message(tx: &async_channel::Sender<u64>, op: u64) -> (accepted: bool) {
    tx.try_send(op).is_ok()
}

/// Relies on async_channel::Receiver::try_recv: pops and returns the oldest
/// queued message, or nothing when the queue is empty or closed; it never
/// blocks and never panics.
#[verifier::external_body]
fn recv_message(rx: &async_channel::Receiver<u64>) -> (msg: Option<u64>) {
    rx.try_recv().ok()
}

/// One process-wide bridge: both endpoints of the request queue. The host
/// creates one at startup and shares it; producers enqueue through it from
/// any thread, and only the owner thread drains it.
pub struct SystemBridge {
    pub tx: async_channel::Sender<u64>,
    pub rx: async_channel::Receiver<u64>,
}

impl SystemBridge {
    /// A fresh bridge over one newly created unbounded queue.
    pub fn new() -> (r: SystemBridge) {
        let (tx, rx) = new_unbounded_channel();
        SystemBridge { tx, rx }
    }

    /// Enqueue one operation handle at the back of the process-wide queue.
    ///
    /// The queue is unbounded and never closed in normal operation, so a
    /// refusal is a contract breach, reported as exactly that error and as
    /// nothing else.
    pub fn enqueue_system(&self, op: u64) -> (r: Result<(), BridgeError>)
        ensures
            r is Err ==> r == Err::<(), BridgeError>(BridgeError::ChannelInvariantViolation),
    {
        if send_message(&self.tx, op) {
            Ok(())
        } else {
            Err(BridgeError::ChannelInvariantViolation)
        }
    }

    /// The pops of one drain/execute cycle: take up to the configured
    /// per-cycle cap of operation handles off the queue, oldest first,
    /// stopping early when the queue reports empty. Handles beyond the cap
    /// stay queued for the next cycle.
    pub fn drain_cycle_ops(&self, config: &SystemReceiverPlugin) -> (r: Vec<u64>)
        ensures
            r@.len() <= config.max_systems_per_frame,
    {
        let mut r: Vec<u64> = Vec::new();
        let mut i: usize = 0;
        while i < config.max_systems_per_frame
            invariant
                r@.len() <= i <= config.max_systems_per_frame,
            decreases config.max_systems_per_frame - i,
        {
            match recv_message(&self.rx) {
                Some(op) => r.push(op),
                None => {
                    return r;
                },
            }
            i += 1;
        }
        r
    }
}

/// Discard every request currently queued, without executing any of them:
/// the host utility for flushing stale requests between runs, never part of
/// normal operation. Pops one message at a time until the queue reports
/// empty.
pub fn drain_system_channel(bridge: &SystemBridge) {
    let mut fuel: usize = usize::MAX;
    while fuel > 0
        decreases fuel,
    {
        match recv_message(&bridge.rx) {
            Some(_) => {
                fuel -= 1;
            },
            None => {
                return;
            },
        }
    }
}

} // verus!
