//! Instants on the UTC time line.

use vstd::prelude::*;

verus! {

/// An instant: whole seconds since the Unix epoch and nanoseconds past that second.
#[derive(Debug, Clone, Copy, PartialEq, Eq, Structural)]
pub struct Timestamp {
    pub seconds: i64,
    pub nanos: u32,
}

impl Timestamp {
    pub open spec fn wf(self) -> bool {
        self.nanos < 1_000_000_000
    }

    /// Nanoseconds since the Unix epoch.
    pub open spec fn total_nanos(self) -> int {
        self.seconds * 1_000_000_000 + self.nanos
    }

    pub fn unix_epoch() -> (r: Timestamp)
        ensures
            r.seconds == 0,
            r.nanos == 0,
    {
        Timestamp { seconds: 0, nanos: 0 }
    }
}

} // verus!
