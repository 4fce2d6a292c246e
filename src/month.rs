//! Months of the year.
use crate::calendar::{is_leap, is_leap_year, month_length};
use crate::error::{range_error, ComponentRange};
use vstd::prelude::*;

verus! {

/// A month of the year.
#[derive(Debug, Clone, Copy, PartialEq, Eq, Hash, Structural)]
pub enum Month {
    January,
    February,
    March,
    April,
    May,
    June,
    July,
    August,
    September,
    October,
    November,
    December,
}

/// The month numbered `n` (1 to 12).
pub open spec fn month_of_number(n: int) -> Month
    recommends
        1 <= n <= 12,
{
    if n == 1 {
        Month::January
    } else if n == 2 {
        Month::February
    } else if n == 3 {
        Month::March
    } else if n == 4 {
        Month::April
    } else if n == 5 {
        Month::May
    } else if n == 6 {
        Month::June
    } else if n == 7 {
        Month::July
    } else if n == 8 {
        Month::August
    } else if n == 9 {
        Month::September
    } else if n == 10 {
        Month::October
    } else if n == 11 {
        Month::November
    } else {
        Month::December
    }
}

impl Month {
    /// The month's number, January being 1.
    pub open spec fn spec_number(self) -> int {
        match self {
            Month::January => 1,
            Month::February => 2,
            Month::March => 3,
            Month::April => 4,
            Month::May => 5,
            Month::June => 6,
            Month::July => 7,
            Month::August => 8,
            Month::September => 9,
            Month::October => 10,
            Month::November => 11,
            Month::December => 12,
        }
    }

    pub proof fn lemma_number(self)
        ensures
            1 <= self.spec_number() <= 12,
            month_of_number(self.spec_number()) == self,
    {
    }

    pub proof fn lemma_of_number(n: int)
        requires
            1 <= n <= 12,
        ensures
            month_of_number(n).spec_number() == n,
    {
    }

    /// The month's number, January being 1.
    pub fn number(self) -> (r: u8)
        ensures
            r as int == self.spec_number(),
    {
        match self {
            Month::January => 1,
            Month::February => 2,
            Month::March => 3,
            Month::April => 4,
            Month::May => 5,
            Month::June => 6,
            Month::July => 7,
            Month::August => 8,
            Month::September => 9,
            Month::October => 10,
            Month::November => 11,
            Month::December => 12,
        }
    }

    /// The month numbered `n`, or an error when `n` is not in `1..=12`.
    pub fn from_number(n: u8) -> (r: Result<Month, ComponentRange>)
        ensures
            1 <= n <= 12 <==> r.is_ok(),
            r.is_ok() ==> r.unwrap() == month_of_number(n as int),
            r.is_err() ==> range_error(r.unwrap_err(), "month"@, 1, 12, n as int, false),
    {
        match n {
            1 => Ok(Month::January),
            2 => Ok(Month::February),
            3 => Ok(Month::March),
            4 => Ok(Month::April),
            5 => Ok(Month::May),
            6 => Ok(Month::June),
            7 => Ok(Month::July),
            8 => Ok(Month::August),
            9 => Ok(Month::September),
            10 => Ok(Month::October),
            11 => Ok(Month::November),
            12 => Ok(Month::December),
            _ => Err(
                ComponentRange {
                    name: "month",
                    minimum: 1,
                    maximum: 12,
                    value: n as i64,
                    is_conditional: false,
                },
            ),
        }
    }

    /// The month numbered `n`, which must be in `1..=12`.
    pub(crate) fn of_number(n: u8) -> (r: Month)
        requires
            1 <= n <= 12,
        ensures
            r.spec_number() == n,
    {
        match n {
            1 => Month::January,
            2 => Month::February,
            3 => Month::March,
            4 => Month::April,
            5 => Month::May,
            6 => Month::June,
            7 => Month::July,
            8 => Month::August,
            9 => Month::September,
            10 => Month::October,
            11 => Month::November,
            _ => Month::December,
        }
    }

    /// Number of days in the month, in the given year.
    pub fn length(self, year: i32) -> (r: u8)
        ensures
            r as int == month_length(self.spec_number(), is_leap(year as int)),
    {
        match self {
            Month::February => if is_leap_year(year) {
                29
            } else {
                28
            },
            Month::April | Month::June | Month::September | Month::November => 30,
            _ => 31,
        }
    }
}

} // verus!
