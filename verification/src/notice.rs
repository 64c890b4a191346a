//! What a tick reports to whoever presents the lake.

use vstd::prelude::*;

verus! {

/// An event of one tick. Each is reported once and needs no answer.
#[derive(Clone, Copy, Debug, PartialEq, Eq, Structural)]
pub enum Notice {
    /// A duckling found its true parent and now follows it.
    Reunited { duckling: u64, parent: u64 },
    /// The agent `from` was being followed by `duckling`, which has now left
    /// it for its true parent.
    HandedOver { from: u64, duckling: u64 },
    /// A duck started to paddle forward.
    ThrustBegan { duck: u64 },
    /// A duck stopped paddling forward.
    ThrustEnded { duck: u64 },
}

} // verus!
