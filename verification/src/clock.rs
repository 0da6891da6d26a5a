//! Time as plain numbers, counted in nanoseconds.

use vstd::prelude::*;

verus! {

/// Nanoseconds in a second.
pub const NANOS_PER_SEC: u128 = 1_000_000_000;

/// Nanoseconds in a millisecond.
pub const NANOS_PER_MILLI: u128 = 1_000_000;

/// A span of time.
#[derive(Debug, Clone, Copy, PartialEq, Eq, Structural)]
pub struct Duration {
    pub nanos: u128,
}

/// A reading of the process's monotonic clock, as the time since some fixed start.
#[derive(Debug, Clone, Copy, PartialEq, Eq, Structural)]
pub struct Instant {
    pub nanos: u128,
}

impl Duration {
    pub fn from_secs(secs: u64) -> (r: Duration)
        ensures
            r.nanos == secs * NANOS_PER_SEC,
    {
        Duration { nanos: secs as u128 * NANOS_PER_SEC }
    }

    pub fn from_millis(millis: u64) -> (r: Duration)
        ensures
            r.nanos == millis * NANOS_PER_MILLI,
    {
        Duration { nanos: millis as u128 * NANOS_PER_MILLI }
    }

    /// The whole milliseconds in this span.
    pub fn as_millis(self) -> (r: u128)
        ensures
            r == self.nanos / NANOS_PER_MILLI,
    {
        self.nanos / NANOS_PER_MILLI
    }
}

impl Instant {
    /// The nanoseconds from `earlier` to this reading; none if `earlier` is the later one.
    pub open spec fn since(self, earlier: Instant) -> int {
        if self.nanos >= earlier.nanos {
            self.nanos - earlier.nanos
        } else {
            0
        }
    }

    /// The time from `earlier` to this reading; none if `earlier` is the later one.
    pub fn duration_since(self, earlier: Instant) -> (r: Duration)
        ensures
            r.nanos == self.since(earlier),
    {
        if self.nanos >= earlier.nanos {
            Duration { nanos: self.nanos - earlier.nanos }
        } else {
            Duration { nanos: 0 }
        }
    }
}

/// The time between two readings is what the one is ahead of the other, and never negative.
pub proof fn law_time_is_the_difference(now: Instant, earlier: Instant, span: u128)
    ensures
        now.nanos >= earlier.nanos ==> earlier.nanos + now.since(earlier) == now.nanos,
        now.nanos < earlier.nanos ==> now.since(earlier) == 0,
        now.since(earlier) >= span <==> now.nanos >= earlier.nanos + span || span == 0,
        NANOS_PER_SEC == 1_000_000_000,
        NANOS_PER_MILLI == 1_000_000,
{
}

}
