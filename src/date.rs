//! Calendar dates as plain year, month and day values.
use vstd::prelude::*;
use vstd::string::StringExecFns;

use crate::text::{digits, pad_left, push_zero_padded};

verus! {

/// Earliest year a date may have.
pub const MIN_YEAR: i32 = -9999;

/// Latest year a date may have.
pub const MAX_YEAR: i32 = 9999;

pub open spec fn is_leap_year(year: int) -> bool {
    (year % 4 == 0 && year % 100 != 0) || year % 400 == 0
}

pub open spec fn days_in_month(year: int, month: int) -> int {
    if month == 2 {
        if is_leap_year(year) { 29 } else { 28 }
    } else if month == 4 || month == 6 || month == 9 || month == 11 {
        30
    } else {
        31
    }
}

/// A day of the proleptic Gregorian calendar, in the supported year range.
pub open spec fn is_calendar_date(year: int, month: int, day: int) -> bool {
    &&& MIN_YEAR <= year <= MAX_YEAR
    &&& 1 <= month <= 12
    &&& 1 <= day <= days_in_month(year, month)
}

/// Relies on time::Date::from_calendar_date (with the month converted by
/// time::Month's `TryFrom<u8>`): it succeeds exactly on the days of the
/// calendar in the years -9999 through 9999.
#[verifier::external_body]
fn calendar_date_exists(year: i32, month: u8, day: u8) -> (r: bool)
    ensures
        r == is_calendar_date(year as int, month as int, day as int),
{
    match time::Month::try_from(month) {
        Ok(m) => time::Date::from_calendar_date(year, m, day).is_ok(),
        Err(_) => false,
    }
}

/// A calendar date without a time of day.
#[derive(Clone, Copy, Debug, PartialEq, Eq, Structural)]
pub struct Date {
    pub year: i32,
    /// 1 for January through 12 for December.
    pub month: u8,
    /// Day of the month, from 1.
    pub day: u8,
}

impl Date {
    pub open spec fn wf(self) -> bool {
        is_calendar_date(self.year as int, self.month as int, self.day as int)
    }

    /// `self` comes strictly before `other`.
    pub open spec fn spec_before(self, other: Date) -> bool {
        ||| self.year < other.year
        ||| self.year == other.year && self.month < other.month
        ||| self.year == other.year && self.month == other.month && self.day < other.day
    }

    /// The date with these components, if it is a day of the calendar.
    pub fn from_calendar_date(year: i32, month: u8, day: u8) -> (r: Option<Date>)
        ensures
            r is Some <==> is_calendar_date(year as int, month as int, day as int),
            r matches Some(d) ==> d.year == year && d.month == month && d.day == day,
    {
        if calendar_date_exists(year, month, day) {
            Some(Date { year, month, day })
        } else {
            None
        }
    }

    /// The date as `YYYY-MM-DD`, with a leading `-` before a negative year.
    pub open spec fn spec_iso(self) -> Seq<char> {
        let sign = if self.year < 0 { "-"@ } else { ""@ };
        let year = if self.year < 0 { -self.year } else { self.year as int };
        sign + pad_left(digits(year as nat), 4, '0') + "-"@
            + pad_left(digits(self.month as nat), 2, '0') + "-"@
            + pad_left(digits(self.day as nat), 2, '0')
    }

    /// The date as `YYYY-MM-DD`, the form in which it is displayed.
    pub fn iso_string(&self) -> (r: String)
        ensures
            r@ == self.spec_iso(),
    {
        proof {
            reveal_strlit("-");
            reveal_strlit("");
        }
        let mut r = String::new();
        if self.year < 0 {
            r.append("-");
        }
        let year: u32 = if self.year < 0 { (-(self.year as i64)) as u32 } else { self.year as u32 };
        push_zero_padded(&mut r, year, 4);
        r.append("-");
        push_zero_padded(&mut r, self.month as u32, 2);
        r.append("-");
        push_zero_padded(&mut r, self.day as u32, 2);
        assert(r@ =~= self.spec_iso());
        r
    }

    pub fn year(&self) -> (r: i32)
        ensures
            r == self.year,
    {
        self.year
    }

    /// Whether `self` comes strictly before `other`.
    pub fn is_before(&self, other: &Date) -> (r: bool)
        ensures
            r == self.spec_before(*other),
    {
        if self.year != other.year {
            self.year < other.year
        } else if self.month != other.month {
            self.month < other.month
        } else {
            self.day < other.day
        }
    }
}

} // verus!
