//! Points in time, as the scheduler compares and stores them.

use vstd::prelude::*;

verus! {

/// The first second of the year 1, in seconds since the Unix epoch.
pub const CALENDAR_MIN_SECS: i64 = -62_135_596_800;

/// The last second of the year 9999, in seconds since the Unix epoch.
pub const CALENDAR_MAX_SECS: i64 = 253_402_300_799;

/// A point on the absolute time line: whole seconds since the Unix epoch and
/// the nanoseconds past that second.
///
/// Instants are ordered by their seconds first and their nanoseconds second.
/// A leap second is held as the second before it with a thousand million
/// nanoseconds or more, and keeps its place in that order.
#[derive(Clone, Copy, Debug, PartialEq, Eq, Structural)]
pub struct Instant {
    pub secs: i64,
    pub nanos: u32,
}

impl Instant {
    /// `self` lies strictly before `other`.
    pub open spec fn spec_lt(self, other: Instant) -> bool {
        self.secs < other.secs || (self.secs == other.secs && self.nanos < other.nanos)
    }

    /// `self` lies at or before `other`.
    pub open spec fn spec_le(self, other: Instant) -> bool {
        self.secs < other.secs || (self.secs == other.secs && self.nanos <= other.nanos)
    }

    /// `self` falls in the years 1 to 9999, the range in which the calendar
    /// and the local time zone can be asked about it.
    pub open spec fn in_calendar_range(self) -> bool {
        CALENDAR_MIN_SECS <= self.secs <= CALENDAR_MAX_SECS
    }

    /// `self` is a time that the calendar knows: it falls in the calendar
    /// range, and its nanoseconds stay below a thousand million, or below two
    /// thousand million in the last second of a minute, where they stand for
    /// a leap second.
    pub open spec fn is_calendar_time(self) -> bool {
        &&& self.in_calendar_range()
        &&& self.nanos < 2_000_000_000
        &&& (self.nanos < 1_000_000_000 || self.secs as int % 60 == 59)
    }

    pub fn new(secs: i64, nanos: u32) -> (t: Instant)
        ensures
            t == (Instant { secs, nanos }),
    {
        Instant { secs, nanos }
    }

    /// Whether `self` lies strictly before `other`.
    pub fn is_before(&self, other: &Instant) -> (b: bool)
        ensures
            b == self.spec_lt(*other),
    {
        self.secs < other.secs || (self.secs == other.secs && self.nanos < other.nanos)
    }

    /// Whether `self` lies at or after `other`.
    pub fn is_at_or_after(&self, other: &Instant) -> (b: bool)
        ensures
            b == other.spec_le(*self),
    {
        other.secs < self.secs || (other.secs == self.secs && other.nanos <= self.nanos)
    }

    /// Whether `self` falls in the years 1 to 9999.
    pub fn is_in_calendar_range(&self) -> (b: bool)
        ensures
            b == self.in_calendar_range(),
    {
        CALENDAR_MIN_SECS <= self.secs && self.secs <= CALENDAR_MAX_SECS
    }
}

} // verus!
