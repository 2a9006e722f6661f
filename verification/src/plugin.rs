//! The owner-thread configuration: how many requests one cycle may run.

use vstd::prelude::*;

verus! {

/// The default per-cycle cap on drained requests.
pub const DEFAULT_MAX_SYSTEMS_PER_FRAME: usize = 32;

/// Configuration for the owner thread's drain/execute step: the cap on how
/// many queued requests one cycle (one frame of the host loop) may run.
///
/// The host installs this once at startup and invokes the drain step exactly
/// once per cycle from the single thread that owns the world.
#[derive(Clone, Copy, PartialEq, Eq, Structural, Debug)]
pub struct SystemReceiverPlugin {
    pub max_systems_per_frame: usize,
}

impl SystemReceiverPlugin {
    /// A valid configuration caps each cycle at a positive count.
    pub open spec fn wf(self) -> bool {
        self.max_systems_per_frame >= 1
    }

    /// A configuration with the given positive per-cycle cap.
    pub fn new(max_systems_per_frame: usize) -> (r: SystemReceiverPlugin)
        requires
            max_systems_per_frame >= 1,
        ensures
            r.max_systems_per_frame == max_systems_per_frame,
            r.wf(),
    {
        SystemReceiverPlugin { max_systems_per_frame }
    }
}

impl Default for SystemReceiverPlugin {
    /// The default configuration runs at most 32 requests per cycle.
    fn default() -> (r: Self)
        ensures
            r.max_systems_per_frame == DEFAULT_MAX_SYSTEMS_PER_FRAME,
            r.wf(),
    {
        SystemReceiverPlugin { max_systems_per_frame: DEFAULT_MAX_SYSTEMS_PER_FRAME }
    }
}

} // verus!
