use vstd::prelude::*;

use crate::text::{decimal, padded_decimal_text, zero_padded};

verus! {

/// A day of the Gregorian calendar.
#[derive(Clone, Copy, Debug, PartialEq, Eq, Structural)]
pub struct CalendarDate {
    pub year: u64,
    pub month: u64,
    pub day: u64,
}

pub open spec fn is_leap_year(y: int) -> bool {
    (y % 4 == 0 && y % 100 != 0) || y % 400 == 0
}

pub open spec fn year_length(y: int) -> int {
    if is_leap_year(y) {
        366
    } else {
        365
    }
}

/// The number of days of month `m` (1 to 12) of year `y`.
pub open spec fn month_length(y: int, m: int) -> int {
    if m == 2 {
        if is_leap_year(y) {
            29
        } else {
            28
        }
    } else if m == 4 || m == 6 || m == 9 || m == 11 {
        30
    } else {
        31
    }
}

/// The number of days from 1970-01-01 to the first day of year `y`.
pub open spec fn days_before_year(y: int) -> int
    decreases y - 1970,
{
    if y <= 1970 {
        0
    } else {
        days_before_year(y - 1) + year_length(y - 1)
    }
}

/// The number of days of year `y` before the first day of month `m`.
pub open spec fn days_before_month(y: int, m: int) -> int
    decreases m,
{
    if m <= 1 {
        0
    } else {
        days_before_month(y, m - 1) + month_length(y, m - 1)
    }
}

/// The text `YYYY-MM-DD` of a date.
pub open spec fn date_text(d: CalendarDate) -> Seq<char> {
    zero_padded(decimal(d.year as nat), 4) + "-"@ + zero_padded(decimal(d.month as nat), 2) + "-"@
        + zero_padded(decimal(d.day as nat), 2)
}

proof fn lemma_months_fill_year(y: int)
    ensures
        days_before_month(y, 13) == year_length(y),
{
    reveal_with_fuel(days_before_month, 13);
}

fn is_leap(y: u64) -> (r: bool)
    ensures
        r == is_leap_year(y as int),
{
    (y % 4 == 0 && y % 100 != 0) || y % 400 == 0
}

fn days_in_year(y: u64) -> (r: u64)
    ensures
        r == year_length(y as int),
{
    if is_leap(y) {
        366
    } else {
        365
    }
}

fn days_in_month(y: u64, m: u64) -> (r: u64)
    ensures
        r == month_length(y as int, m as int),
{
    if m == 2 {
        if is_leap(y) {
            29
        } else {
            28
        }
    } else if m == 4 || m == 6 || m == 9 || m == 11 {
        30
    } else {
        31
    }
}

impl CalendarDate {
    /// Whether the date is a real day, on or after 1970-01-01.
    pub open spec fn is_valid(&self) -> bool {
        &&& self.year >= 1970
        &&& 1 <= self.month <= 12
        &&& 1 <= self.day <= month_length(self.year as int, self.month as int)
    }

    /// The number of days from 1970-01-01 to this date.
    pub open spec fn day_number(&self) -> int {
        days_before_year(self.year as int) + days_before_month(self.year as int, self.month as int)
            + self.day - 1
    }

    /// The UTC date at `secs` seconds after 1970-01-01T00:00:00Z.
    pub fn from_unix_seconds(secs: u64) -> (r: CalendarDate)
        ensures
            r.is_valid(),
            r.day_number() == secs as int / 86400,
    {
        let days = secs / 86400;
        let mut rem = days;
        let mut year: u64 = 1970;
        while rem >= days_in_year(year)
            invariant
                1970 <= year,
                year - 1970 <= days - rem,
                days <= u64::MAX / 86400,
                days_before_year(year as int) + rem == days,
            decreases rem,
        {
            rem = rem - days_in_year(year);
            year = year + 1;
        }
        let mut month: u64 = 1;
        proof {
            lemma_months_fill_year(year as int);
        }
        while rem >= days_in_month(year, month)
            invariant
                1 <= month <= 12,
                rem < year_length(year as int) - days_before_month(year as int, month as int),
                days_before_month(year as int, 13) == year_length(year as int),
                days_before_year(year as int) + days_before_month(year as int, month as int) + rem
                    == days,
            decreases 12 - month,
        {
            rem = rem - days_in_month(year, month);
            month = month + 1;
        }
        CalendarDate { year, month, day: rem + 1 }
    }

    /// The date as `YYYY-MM-DD`.
    pub fn text(&self) -> (r: String)
        ensures
            r@ == date_text(*self),
    {
        let mut r = padded_decimal_text(self.year, 4);
        r.append("-");
        r.append(padded_decimal_text(self.month, 2).as_str());
        r.append("-");
        r.append(padded_decimal_text(self.day, 2).as_str());
        proof {
            reveal_strlit("-");
        }
        r
    }
}

} // verus!
