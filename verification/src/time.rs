//! Lengths of time.

use vstd::prelude::*;

verus! {

/// A length of time in nanoseconds.
#[derive(Clone, Copy, Debug, PartialEq, Eq, PartialOrd, Ord, Structural)]
pub struct Duration {
    pub nanoseconds: u128,
}

impl Duration {
    pub fn from_secs(seconds: u64) -> (r: Self)
        ensures
            r.nanoseconds == seconds * 1_000_000_000,
    {
        Duration { nanoseconds: seconds as u128 * 1_000_000_000 }
    }

    pub fn from_millis(milliseconds: u64) -> (r: Self)
        ensures
            r.nanoseconds == milliseconds * 1_000_000,
    {
        Duration { nanoseconds: milliseconds as u128 * 1_000_000 }
    }

    pub fn is_zero(&self) -> (r: bool)
        ensures
            r == (self.nanoseconds == 0),
    {
        self.nanoseconds == 0
    }

    /// Positive and at most `seconds` long.
    pub open spec fn within(self, seconds: u64) -> bool {
        0 < self.nanoseconds <= seconds * 1_000_000_000
    }

    pub fn is_within(&self, seconds: u64) -> (r: bool)
        ensures
            r == self.within(seconds),
    {
        self.nanoseconds > 0 && self.nanoseconds <= seconds as u128 * 1_000_000_000
    }

    /// The whole milliseconds.
    pub fn as_millis(&self) -> (r: u128)
        ensures
            r == self.nanoseconds / 1_000_000,
    {
        self.nanoseconds / 1_000_000
    }
}

/// A duration is within a number of seconds exactly where it is not zero and no longer.
pub proof fn law_durations_are_counted_in_nanoseconds(duration: Duration, seconds: u64)
    ensures
        duration.within(seconds) <==> duration.nanoseconds >= 1 && duration.nanoseconds <= seconds
            * 1_000 * 1_000 * 1_000,
{
}

} // verus!
