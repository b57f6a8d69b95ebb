//! Time as the decoder sees it: readings of a monotonic clock and the spans
//! between them, both counted in whole nanoseconds.

use vstd::prelude::*;

verus! {

/// A span of time in nanoseconds.
#[derive(Debug, Clone, Copy, PartialEq, Eq, Hash, Structural)]
pub struct Duration {
    pub nanos: u128,
}

/// A reading of a monotonic clock, in nanoseconds since the clock's origin.
#[derive(Debug, Clone, Copy, PartialEq, Eq, Hash, Structural)]
pub struct Timestamp {
    pub nanos: u128,
}

/// The time that passed from `earlier` to `later`; zero when `earlier` is
/// not in the past of `later`.
pub open spec fn elapsed(earlier: Timestamp, later: Timestamp) -> Duration {
    Duration {
        nanos: if later.nanos >= earlier.nanos {
            (later.nanos - earlier.nanos) as u128
        } else {
            0
        },
    }
}

impl Duration {
    /// A span of so many nanoseconds.
    pub fn from_nanos(nanos: u128) -> (d: Duration)
        ensures
            d.nanos == nanos,
    {
        Duration { nanos }
    }

    /// A span of so many milliseconds.
    pub fn from_millis(millis: u64) -> (d: Duration)
        ensures
            d.nanos == millis * 1_000_000,
    {
        Duration { nanos: (millis as u128) * 1_000_000 }
    }

    /// The span in nanoseconds.
    pub fn as_nanos(&self) -> (nanos: u128)
        ensures
            nanos == self.nanos,
    {
        self.nanos
    }
}

impl Timestamp {
    /// The time so many nanoseconds after the clock's origin.
    pub fn from_nanos(nanos: u128) -> (t: Timestamp)
        ensures
            t.nanos == nanos,
    {
        Timestamp { nanos }
    }

    /// The time so many milliseconds after the clock's origin.
    pub fn from_millis(millis: u64) -> (t: Timestamp)
        ensures
            t.nanos == millis * 1_000_000,
    {
        Timestamp { nanos: (millis as u128) * 1_000_000 }
    }

    /// The nanoseconds since the clock's origin.
    pub fn as_nanos(&self) -> (nanos: u128)
        ensures
            nanos == self.nanos,
    {
        self.nanos
    }

    /// The time that passed since `earlier`. A clock that never runs
    /// backwards makes `earlier` no later than `self`; should it be later all
    /// the same, the span is zero.
    pub fn duration_since(&self, earlier: Timestamp) -> (d: Duration)
        ensures
            d == elapsed(earlier, *self),
    {
        if self.nanos >= earlier.nanos {
            Duration { nanos: self.nanos - earlier.nanos }
        } else {
            Duration { nanos: 0 }
        }
    }
}

} // verus!
