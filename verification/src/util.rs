//! Small utilities: spans of time and results that are set aside.

use vstd::prelude::*;

verus! {

/// Lets a result be dropped on purpose.
pub trait IgnoreResult {
    /// Sets the result aside; nothing is done with it.
    fn ignore(&self) {
        let _ = self;
    }
}

impl<T, E> IgnoreResult for Result<T, E> {

}

/// A span of time, in nanoseconds.
#[derive(Debug, Clone, Copy, PartialEq, Eq, Structural)]
pub struct TimeSpan {
    pub nanos: u128,
}

impl TimeSpan {
    /// The span of `millis` milliseconds.
    pub fn from_millis(millis: u64) -> (r: TimeSpan)
        ensures
            r.nanos == millis * 1_000_000,
    {
        TimeSpan { nanos: (millis as u128) * 1_000_000 }
    }

    /// The span of `nanos` nanoseconds.
    pub fn from_nanos(nanos: u128) -> (r: TimeSpan)
        ensures
            r.nanos == nanos,
    {
        TimeSpan { nanos }
    }
}

} // verus!
