//! Calendar dates and wall-clock timestamps as plain values.

use vstd::prelude::*;

verus! {

/// A calendar date.
#[derive(Debug, Clone, Copy, PartialEq, Eq, Structural)]
pub struct Date {
    pub year: i32,
    pub month: u32,
    pub day: u32,
}

/// A date with the time of day: seconds since midnight and nanoseconds
/// within the second.
#[derive(Debug, Clone, Copy, PartialEq, Eq, Structural)]
pub struct Timestamp {
    pub date: Date,
    pub seconds: u32,
    pub nanos: u32,
}

impl Date {
    /// `self` is an earlier day than `other`: year, month and day compared
    /// in that order.
    pub open spec fn earlier_than(self, other: Date) -> bool {
        self.year < other.year || (self.year == other.year && (self.month < other.month || (
        self.month == other.month && self.day < other.day)))
    }

    /// Month within 1..=12 and day within 1..=31.
    pub open spec fn in_range(self) -> bool {
        1 <= self.month <= 12 && 1 <= self.day <= 31
    }

    /// Whether `self` is an earlier day than `other`.
    pub fn is_before(&self, other: &Date) -> (b: bool)
        ensures
            b == self.earlier_than(*other),
    {
        self.year < other.year || (self.year == other.year && (self.month < other.month || (
        self.month == other.month && self.day < other.day)))
    }
}

impl Timestamp {
    /// `self` is an earlier instant than `other`: date, seconds and
    /// nanoseconds compared in that order.
    pub open spec fn earlier_than(self, other: Timestamp) -> bool {
        self.date.earlier_than(other.date) || (self.date == other.date && (self.seconds
            < other.seconds || (self.seconds == other.seconds && self.nanos < other.nanos)))
    }

    /// A date in range, a second of the day, and nanoseconds that leave room
    /// for one leap second.
    pub open spec fn in_range(self) -> bool {
        self.date.in_range() && self.seconds < 86_400 && self.nanos < 2_000_000_000
    }

    /// Whether `self` is an earlier instant than `other`.
    pub fn is_before(&self, other: &Timestamp) -> (b: bool)
        ensures
            b == self.earlier_than(*other),
    {
        self.date.is_before(&other.date) || (self.date == other.date && (self.seconds
            < other.seconds || (self.seconds == other.seconds && self.nanos < other.nanos)))
    }
}

/// Reads the local wall clock with `chrono::Local::now` and takes the naive
/// local date and time apart with chrono's field getters. Trusted: the month
/// is within 1..=12, the day within 1..=31, the seconds since midnight below
/// 86400 and the nanoseconds below two thousand million, as chrono documents
/// for those getters. Nothing is claimed about which instant comes back: two
/// readings need not be in order. The call takes no input and fails only
/// where the system clock stands before 1970 or beyond what chrono can hold.
#[verifier::external_body]
pub(crate) fn read_clock() -> (t: Timestamp)
    ensures
        t.in_range(),
{
    let t = chrono::Local::now().naive_local();
    Timestamp {
        date: Date {
            year: chrono::Datelike::year(&t),
            month: chrono::Datelike::month(&t),
            day: chrono::Datelike::day(&t),
        },
        seconds: chrono::Timelike::num_seconds_from_midnight(&t),
        nanos: chrono::Timelike::nanosecond(&t),
    }
}

impl Timestamp {
    /// The current local date and time.
    pub fn now() -> (t: Timestamp)
        ensures
            t.in_range(),
    {
        read_clock()
    }
}

} // verus!
