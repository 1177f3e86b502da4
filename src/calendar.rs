use vstd::prelude::*;

use chrono::{Datelike, Local};

verus! {

/// A calendar date of the local time zone.
#[derive(Debug, Clone, Copy, PartialEq, Eq, Structural)]
pub struct CalendarDate {
    pub year: i32,
    pub month: u32,
    pub day: u32,
}

impl CalendarDate {
    /// `self` comes strictly before `other` in the calendar (the order of
    /// their `YYYY-MM-DD` forms).
    pub open spec fn before(self, other: CalendarDate) -> bool {
        ||| self.year < other.year
        ||| self.year == other.year && self.month < other.month
        ||| self.year == other.year && self.month == other.month && self.day < other.day
    }

    /// Whether `self` comes strictly before `other`.
    pub fn is_before(&self, other: &CalendarDate) -> (r: bool)
        ensures
            r == self.before(*other),
    {
        self.year < other.year || (self.year == other.year && self.month < other.month) || (self.year
            == other.year && self.month == other.month && self.day < other.day)
    }
}

/// Relies on chrono's `Local::now` and `DateTime::date_naive`: today's date
/// in the local time zone, with a month in 1..=12 and a day in 1..=31.
#[verifier::external_body]
pub(crate) fn local_today() -> (d: CalendarDate)
    ensures
        1 <= d.month <= 12,
        1 <= d.day <= 31,
{
    let today = Local::now().date_naive();
    CalendarDate { year: today.year(), month: today.month(), day: today.day() }
}

/// Relies on chrono's `Local::now` and `NaiveDateTime::and_utc().timestamp()`:
/// the local wall-clock time in seconds since the epoch.
#[verifier::external_body]
pub(crate) fn local_now() -> (t: i64) {
    Local::now().naive_local().and_utc().timestamp()
}

} // verus!
