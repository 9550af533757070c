//! Spans of time, counted in whole nanoseconds.

use vstd::prelude::*;

verus! {

/// Nanoseconds in one millisecond.
pub const NANOS_PER_MILLI: u128 = 1_000_000;

/// Nanoseconds in one second.
pub const NANOS_PER_SEC: u128 = 1_000_000_000;

/// A span of time, or a reading of a monotonic clock as the span since the
/// clock's origin.
#[derive(Clone, Copy, Debug, PartialEq, Eq, Structural)]
pub struct TimeSpan {
    pub nanos: u128,
}

impl TimeSpan {
    /// The span of `nanos` nanoseconds.
    pub fn from_nanos(nanos: u128) -> (span: TimeSpan)
        ensures
            span.nanos == nanos,
    {
        TimeSpan { nanos }
    }

    /// The span of `millis` milliseconds.
    pub fn from_millis(millis: u64) -> (span: TimeSpan)
        ensures
            span.nanos == millis * NANOS_PER_MILLI,
    {
        let millis_wide: u128 = millis as u128;
        TimeSpan { nanos: millis_wide * NANOS_PER_MILLI }
    }

    /// The span of `secs` seconds.
    pub fn from_secs(secs: u64) -> (span: TimeSpan)
        ensures
            span.nanos == secs * NANOS_PER_SEC,
    {
        let secs_wide: u128 = secs as u128;
        TimeSpan { nanos: secs_wide * NANOS_PER_SEC }
    }

    /// The number of nanoseconds in the span.
    pub fn as_nanos(self) -> (nanos: u128)
        ensures
            nanos == self.nanos,
    {
        self.nanos
    }

    /// The span from `earlier` to `self`, or the empty span when `earlier`
    /// is the later of the two.
    pub fn saturating_since(self, earlier: TimeSpan) -> (span: TimeSpan)
        ensures
            span.nanos == if self.nanos >= earlier.nanos {
                self.nanos - earlier.nanos
            } else {
                0
            },
    {
        if self.nanos >= earlier.nanos {
            TimeSpan { nanos: self.nanos - earlier.nanos }
        } else {
            TimeSpan { nanos: 0 }
        }
    }
}

} // verus!
