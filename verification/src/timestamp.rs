//! Points in time, as the pair by which they are ordered.

use vstd::prelude::*;

verus! {

/// The mathematical value of a [`Timestamp`]: whole seconds since the Unix
/// epoch and the nanoseconds into that second.
pub struct Instant {
    /// Whole seconds since the Unix epoch.
    pub secs: int,
    /// Nanoseconds into that second.
    pub nanos: int,
}

impl Instant {
    /// `self` is not later than `other`. Instants are ordered by seconds
    /// first and by nanoseconds within the same second.
    pub open spec fn le(self, other: Instant) -> bool {
        self.secs < other.secs || (self.secs == other.secs && self.nanos <= other.nanos)
    }

    /// The instant `seconds` seconds before `self`.
    pub open spec fn seconds_before(self, seconds: int) -> Instant {
        Instant { secs: self.secs - seconds, nanos: self.nanos }
    }
}

/// A UTC point in time: seconds since 1970-01-01T00:00:00Z and the
/// nanoseconds since the last second boundary. During a leap second the
/// nanosecond part runs past 999,999,999 instead of the second advancing.
#[derive(Debug, Clone, Copy, PartialEq, Eq, Structural)]
pub struct Timestamp {
    /// Whole seconds since the Unix epoch.
    pub secs: i64,
    /// Nanoseconds since the last second boundary.
    pub nanos: u32,
}

impl View for Timestamp {
    type V = Instant;

    open spec fn view(&self) -> Instant {
        Instant { secs: self.secs as int, nanos: self.nanos as int }
    }
}

impl Timestamp {
    /// Whether `self` is at or after `bound`.
    pub fn at_or_after(&self, bound: &Timestamp) -> (b: bool)
        ensures
            b == bound@.le(self@),
    {
        self.secs > bound.secs || (self.secs == bound.secs && self.nanos >= bound.nanos)
    }

    /// Whether `self` is at or before `bound`.
    pub fn at_or_before(&self, bound: &Timestamp) -> (b: bool)
        ensures
            b == self@.le(bound@),
    {
        self.secs < bound.secs || (self.secs == bound.secs && self.nanos <= bound.nanos)
    }

    /// Whether `self` is at or after the instant `seconds` seconds before
    /// `now`. The offset may be negative, and no offset overflows.
    pub fn at_or_after_ago(&self, now: &Timestamp, seconds: i64) -> (b: bool)
        ensures
            b == now@.seconds_before(seconds as int).le(self@),
    {
        let bound: i128 = now.secs as i128 - seconds as i128;
        let secs: i128 = self.secs as i128;
        secs > bound || (secs == bound && self.nanos >= now.nanos)
    }

    /// Whether `self` is at or before the instant `seconds` seconds before
    /// `now`. The offset may be negative, and no offset overflows.
    pub fn at_or_before_ago(&self, now: &Timestamp, seconds: i64) -> (b: bool)
        ensures
            b == self@.le(now@.seconds_before(seconds as int)),
    {
        let bound: i128 = now.secs as i128 - seconds as i128;
        let secs: i128 = self.secs as i128;
        secs < bound || (secs == bound && self.nanos <= now.nanos)
    }
}

/// Reads the system clock through `chrono::Utc::now` and keeps the two
/// numbers by which chrono orders the result: `timestamp()` and
/// `timestamp_subsec_nanos()`. The clock never reports a leap second, so the
/// nanosecond part is below one second; nothing else is claimed of the
/// value, and two calls may differ. chrono panics if the system clock is set
/// before 1970.
#[verifier::external_body]
pub(crate) fn current_time() -> (t: Timestamp)
    ensures
        t.nanos < 1_000_000_000,
{
    let now = chrono::Utc::now();
    Timestamp { secs: now.timestamp(), nanos: now.timestamp_subsec_nanos() }
}

} // verus!
