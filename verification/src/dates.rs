//! Calendar dates and calendar months as plain values.
//!
//! The store keys consumption records by calendar month and stamps
//! accounts, lost items and messages with calendar dates.

use vstd::prelude::*;

verus! {

/// A calendar date as plain year / month / day fields.
#[derive(Clone, Copy, PartialEq, Eq, Structural, Debug)]
pub struct Date {
    pub year: i32,
    pub month: u32,
    pub day: u32,
}

/// A calendar month, the key of the consumption ledger.
#[derive(Clone, Copy, PartialEq, Eq, Structural, Debug)]
pub struct YearMonth {
    pub year: i32,
    pub month: u32,
}

impl Date {
    /// The month and day lie in calendar range.
    pub open spec fn wf(self) -> bool {
        1 <= self.month <= 12 && 1 <= self.day <= 31
    }

    /// The calendar month this date falls in.
    pub open spec fn spec_month_of(self) -> YearMonth {
        YearMonth { year: self.year, month: self.month }
    }

    /// Extracts the calendar month of this date.
    pub fn month_of(self) -> (r: YearMonth)
        ensures
            r == self.spec_month_of(),
    {
        YearMonth { year: self.year, month: self.month }
    }

}

impl YearMonth {
    /// The month lies in calendar range.
    pub open spec fn wf(self) -> bool {
        1 <= self.month <= 12
    }

    /// Chronological order on months: lexicographic on (year, month).
    pub open spec fn spec_le(self, other: YearMonth) -> bool {
        self.year < other.year || (self.year == other.year && self.month <= other.month)
    }

    /// Compares two months chronologically.
    pub fn le(self, other: YearMonth) -> (r: bool)
        ensures
            r == self.spec_le(other),
    {
        self.year < other.year || (self.year == other.year && self.month <= other.month)
    }
}

/// A date falls in the given month or later; used to count the
/// accounts joined since the first day of the current month.
pub open spec fn date_in_month_or_later(d: Date, m: YearMonth) -> bool {
    m.spec_le(d.spec_month_of())
}

/// Decides whether a date falls in the given month or later.
pub fn date_in_month_or_later_exec(d: Date, m: YearMonth) -> (r: bool)
    ensures
        r == date_in_month_or_later(d, m),
{
    m.le(d.month_of())
}

} // verus!
