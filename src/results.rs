//! The record returned by a successful conversion.

use vstd::prelude::*;

verus! {

/// An elapsed time: whole seconds and the nanoseconds past them.
#[derive(Debug, Clone, Copy, PartialEq, Eq, Structural)]
pub struct Elapsed {
    pub secs: u64,
    pub nanos: u32,
}

/// The elapsed time of no work.
pub open spec fn zero_elapsed() -> Elapsed {
    Elapsed { secs: 0, nanos: 0 }
}

impl Elapsed {
    /// Whether the nanoseconds stay below one second.
    pub open spec fn wf(&self) -> bool {
        self.nanos < 1_000_000_000
    }

    /// The whole seconds of this elapsed time.
    pub fn as_secs(&self) -> (r: u64)
        ensures
            r == self.secs,
    {
        self.secs
    }
}

/// The outcome of a successful conversion.
#[derive(Debug, Clone, Copy, PartialEq, Eq, Structural)]
pub struct DispatcherResult {
    pub duration: Elapsed,
}

impl DispatcherResult {
    /// The result of a conversion that took no time.
    pub fn new() -> (r: DispatcherResult)
        ensures
            r.duration == zero_elapsed(),
            r.duration.wf(),
    {
        DispatcherResult { duration: Elapsed { secs: 0, nanos: 0 } }
    }
}

} // verus!
