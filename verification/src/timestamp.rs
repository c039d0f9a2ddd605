//! Calendar timestamps with second precision, ordered chronologically.

use vstd::prelude::*;

verus! {

/// A calendar timestamp with second precision.  It carries the six
/// fields that a storage listing reports and that a snapshot name
/// embeds; well-formedness bounds each field (`wf`).
#[derive(Clone, Copy, PartialEq, Eq, Structural, Debug)]
pub struct Timestamp {
    pub year: u32,
    pub month: u32,
    pub day: u32,
    pub hour: u32,
    pub minute: u32,
    pub second: u32,
}

impl Timestamp {
    /// Field bounds of a representable timestamp: a four-digit year and
    /// calendar-plausible remaining fields.
    pub open spec fn wf(self) -> bool {
        &&& self.year <= 9999
        &&& 1 <= self.month <= 12
        &&& 1 <= self.day <= 31
        &&& self.hour <= 23
        &&& self.minute <= 59
        &&& self.second <= 59
    }

    /// Chronological order, as the lexicographic order of the field tuple.
    pub open spec fn le(self, other: Self) -> bool {
        if self.year != other.year {
            self.year < other.year
        } else if self.month != other.month {
            self.month < other.month
        } else if self.day != other.day {
            self.day < other.day
        } else if self.hour != other.hour {
            self.hour < other.hour
        } else if self.minute != other.minute {
            self.minute < other.minute
        } else {
            self.second <= other.second
        }
    }

    /// Strict chronological order.
    pub open spec fn lt(self, other: Self) -> bool {
        self.le(other) && self != other
    }

    /// Packs the six fields a clock reports into a timestamp.  Succeeds
    /// exactly when the year fits the four-digit range a snapshot name
    /// can carry, and carries every field through unchanged.
    pub fn from_fields(year: i64, month: u32, day: u32, hour: u32, minute: u32, second: u32) -> (r:
        Option<Timestamp>)
        ensures
            r is Some <==> 0 <= year <= 9999,
            r matches Some(t) ==> t.year == year && t.month == month && t.day == day && t.hour
                == hour && t.minute == minute && t.second == second,
    {
        if 0 <= year && year <= 9999 {
            Some(Timestamp { year: year as u32, month, day, hour, minute, second })
        } else {
            None
        }
    }

    /// Decides `self.wf()`.
    pub fn check_wf(&self) -> (r: bool)
        ensures
            r == self.wf(),
    {
        self.year <= 9999 && 1 <= self.month && self.month <= 12 && 1 <= self.day && self.day
            <= 31 && self.hour <= 23 && self.minute <= 59 && self.second <= 59
    }

    /// Decides `self.le(other)`.
    pub fn is_le(&self, other: &Self) -> (r: bool)
        ensures
            r == self.le(*other),
    {
        if self.year != other.year {
            self.year < other.year
        } else if self.month != other.month {
            self.month < other.month
        } else if self.day != other.day {
            self.day < other.day
        } else if self.hour != other.hour {
            self.hour < other.hour
        } else if self.minute != other.minute {
            self.minute < other.minute
        } else {
            self.second <= other.second
        }
    }
}

} // verus!
