//! A scheduling bridge between asynchronous tasks and a single owner thread.
//!
//! Asynchronous code submits synchronous operations to a process-wide FIFO
//! queue; the thread that owns the shared mutable state drains the queue in
//! bounded batches, runs each operation exactly once with exclusive access,
//! and hands an optional continuation back to the submitter.
//!
//! Operations are identified by plain handles (`u64`); the host that owns the
//! executable callables keys them by these handles. The scheduling rules
//! themselves — submission order, the per-cycle cap, exactly-once execution,
//! silent cancellation — live here and are stated as contracts.

pub mod chain;
pub mod channel;
pub mod model;
pub mod plugin;
pub mod systems;

pub use chain::BridgeError;
pub use chain::ChainStep;
pub use chain::combine_results;
pub use chain::next_chain_step;
pub use channel::SystemBridge;
pub use channel::drain_system_channel;
pub use model::BridgeModel;
pub use model::BridgeState;
pub use model::Request;
pub use plugin::DEFAULT_MAX_SYSTEMS_PER_FRAME;
pub use plugin::SystemReceiverPlugin;
pub use systems::Systems;
pub use systems::flatten_systems;
