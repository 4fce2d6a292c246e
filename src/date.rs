//! The calendar date and its conversions.
use crate::calendar::{
    day_of_ordinal, days_before_month, days_before_year, days_before_year_exec, days_in_year,
    is_leap, is_leap_year, iso_julian_day, iso_weeks_in_year, julian_day,
    lemma_days_before_year_mono, lemma_iso_julian_day_injective, lemma_iso_year_step, lemma_month_day, lemma_weekday_add, weekday_of_julian_day, weeks_in_year, lemma_julian_day_bounds, lemma_julian_day_injective,
    lemma_ordinal_of_month_day, lemma_year_step, month_length, month_of_ordinal,
    valid_calendar_date, valid_ordinal_date, weekday_index, year_in_range, year_length,
    MAX_JULIAN_DAY, MAX_YEAR, MIN_JULIAN_DAY, MIN_YEAR,
};
use crate::duration::Duration;
use crate::error::{range_error, ComponentRange};
use crate::month::Month;
use vstd::arithmetic::div_mod::{lemma_fundamental_div_mod, lemma_fundamental_div_mod_converse};
use crate::weekday::Weekday;
use vstd::prelude::*;

verus! {

proof fn lemma_pack(y: i32, l: i32, o: i32)
    by (bit_vector)
    requires
        -10_000 <= y <= 10_000,
        0 <= l <= 1,
        1 <= o < 512,
    ensures
        ((y << 10) | (l << 9) | o) >> 10 == y,
        ((y << 10) | (l << 9) | o) & 0x1FF == o,
        (((y << 10) | (l << 9) | o) >> 9) & 1 == l,
        (y << 10) | (l << 9) | o == y * 1024 + l * 512 + o,
{
}

proof fn lemma_unpack(v: i32)
    by (bit_vector)
    ensures
        v == (v >> 10) * 1024 + ((v >> 9) & 1) * 512 + (v & 0x1FF),
        0 <= v & 0x1FF < 512,
        0 <= (v >> 9) & 1 <= 1,
{
}

proof fn lemma_unpack_unique(v: i32, w: i32)
    by (bit_vector)
    requires
        v >> 10 == w >> 10,
        (v >> 9) & 1 == (w >> 9) & 1,
        v & 0x1FF == w & 0x1FF,
    ensures
        v == w,
{
}

/// Adding to the ordinal bits keeps the year and the leap flag.
proof fn lemma_shift_ordinal(v: i32, d: i32)
    by (bit_vector)
    requires
        -1 <= d <= 1,
        1 <= (v & 0x1FF) + d < 512,
        -10_238_976 <= v <= 10_240_000,
    ensures
        ((v + d) as i32) >> 10 == v >> 10,
        (((v + d) as i32) >> 9) & 1 == (v >> 9) & 1,
        ((v + d) as i32) & 0x1FF == (v & 0x1FF) + d,
{
}

/// A day of the proleptic Gregorian calendar, between `MIN_YEAR-01-01` and
/// `MAX_YEAR-12-31`.
///
/// The year, whether it is a leap year, and the day of the year are packed
/// into one integer: the year from bit 10 up, the leap flag at bit 9, and the
/// ordinal in the nine low bits. Comparing the packed values compares the
/// dates chronologically.
#[derive(Debug, Clone, Copy, PartialEq, Eq, Hash, Ord, Structural)]
pub struct Date {
    value: i32,
}

impl PartialOrd for Date {
    fn partial_cmp(&self, other: &Date) -> (r: Option<core::cmp::Ordering>) {
        if self.value < other.value {
            Some(core::cmp::Ordering::Less)
        } else if self.value > other.value {
            Some(core::cmp::Ordering::Greater)
        } else {
            Some(core::cmp::Ordering::Equal)
        }
    }
}

impl vstd::std_specs::cmp::PartialOrdSpecImpl for Date {
    open spec fn obeys_partial_cmp_spec() -> bool {
        true
    }

    open spec fn partial_cmp_spec(&self, other: &Date) -> Option<core::cmp::Ordering> {
        if self.spec_packed() < other.spec_packed() {
            Some(core::cmp::Ordering::Less)
        } else if self.spec_packed() > other.spec_packed() {
            Some(core::cmp::Ordering::Greater)
        } else {
            Some(core::cmp::Ordering::Equal)
        }
    }
}

/// `jd` moved into `MIN_JULIAN_DAY..=MAX_JULIAN_DAY`.
pub open spec fn clamp_julian_day(jd: int) -> int {
    if jd < MIN_JULIAN_DAY {
        MIN_JULIAN_DAY as int
    } else if jd > MAX_JULIAN_DAY {
        MAX_JULIAN_DAY as int
    } else {
        jd
    }
}

/// Distance in days from the weekday `from` to the next `to`, strictly ahead:
/// 1 to 7.
pub open spec fn days_until_weekday(from: int, to: int) -> int {
    (to - from + 6) % 7 + 1
}

impl Date {
    /// The smallest date: `MIN_YEAR-01-01`.
    pub closed spec fn spec_min() -> Date {
        Date { value: -10_238_975i32 }
    }

    /// The largest date: `MAX_YEAR-12-31`.
    pub closed spec fn spec_max() -> Date {
        Date { value: 10_239_341 }
    }

    /// The smallest date: `MIN_YEAR-01-01`.
    pub fn min_value() -> (r: Date)
        ensures
            r == Date::spec_min(),
            r.wf(),
            r.is_ordinal_date(MIN_YEAR as int, 1),
    {
        proof {
            Date::lemma_min_max();
        }
        Date { value: -10_238_975i32 }
    }

    /// The largest date: `MAX_YEAR-12-31`.
    pub fn max_value() -> (r: Date)
        ensures
            r == Date::spec_max(),
            r.wf(),
            r.is_ordinal_date(MAX_YEAR as int, 365),
    {
        proof {
            Date::lemma_min_max();
        }
        Date { value: 10_239_341 }
    }

    /// The packed value, whose order is the order of dates.
    pub closed spec fn spec_packed(self) -> int {
        self.value as int
    }

    /// Packed order is chronological order: on valid dates it agrees with
    /// the order of Julian day numbers and with the order of (year, ordinal).
    pub proof fn lemma_packed_order(a: Date, b: Date)
        requires
            a.wf(),
            b.wf(),
        ensures
            a.spec_packed() < b.spec_packed() <==> a.spec_julian_day() < b.spec_julian_day(),
            a.spec_packed() < b.spec_packed() <==> (a.spec_year() < b.spec_year() || (
            a.spec_year() == b.spec_year() && a.spec_ordinal() < b.spec_ordinal())),
            a.spec_packed() == b.spec_packed() <==> a == b,
    {
        lemma_unpack(a.value);
        lemma_unpack(b.value);
        if a.spec_year() < b.spec_year() {
            lemma_days_before_year_mono(a.spec_year(), b.spec_year());
        } else if b.spec_year() < a.spec_year() {
            lemma_days_before_year_mono(b.spec_year(), a.spec_year());
        } else if a.spec_ordinal() == b.spec_ordinal() {
            Date::lemma_eq_parts(a, b);
        }
    }

    pub closed spec fn spec_year(self) -> int {
        (self.value >> 10) as int
    }

    pub closed spec fn spec_ordinal(self) -> int {
        (self.value & 0x1FF) as int
    }

    closed spec fn spec_leap_flag(self) -> bool {
        (self.value >> 9) & 1 == 1
    }

    /// The packed fields describe a valid date.
    pub closed spec fn wf(self) -> bool {
        valid_ordinal_date(self.spec_year(), self.spec_ordinal()) && self.spec_leap_flag()
            == is_leap(self.spec_year())
    }

    pub open spec fn spec_leap(self) -> bool {
        is_leap(self.spec_year())
    }

    pub open spec fn spec_julian_day(self) -> int {
        julian_day(self.spec_year(), self.spec_ordinal())
    }

    pub open spec fn spec_month(self) -> int {
        month_of_ordinal(self.spec_ordinal(), self.spec_leap())
    }

    pub open spec fn spec_day(self) -> int {
        day_of_ordinal(self.spec_ordinal(), self.spec_leap())
    }

    /// Days after Monday of the date's weekday.
    pub open spec fn spec_weekday(self) -> int {
        weekday_index(self.spec_julian_day())
    }

    /// The ISO year and week of the date: the one pair whose week date names
    /// this day.
    pub open spec fn spec_iso_year_week(self) -> (int, int) {
        choose|yw: (int, int)|
            1 <= yw.1 <= iso_weeks_in_year(yw.0) && #[trigger] iso_julian_day(
                yw.0,
                yw.1,
                self.spec_weekday() + 1,
            ) == self.spec_julian_day()
    }

    /// Whether `self` is the date of year `y`, day `o`.
    pub open spec fn is_ordinal_date(self, y: int, o: int) -> bool {
        self.spec_year() == y && self.spec_ordinal() == o
    }

    /// The smallest and largest dates are valid, and are the first and last
    /// day of the range.
    pub proof fn lemma_min_max()
        ensures
            Date::spec_min().wf(),
            Date::spec_max().wf(),
            Date::spec_min().spec_julian_day() == MIN_JULIAN_DAY,
            Date::spec_max().spec_julian_day() == MAX_JULIAN_DAY,
            Date::spec_min().is_ordinal_date(MIN_YEAR as int, 1),
            Date::spec_max().is_ordinal_date(MAX_YEAR as int, 365),
    {
        lemma_pack(-9999i32, 0, 1);
        lemma_pack(9999, 0, 365);
        assert(-9999i32 * 1024 + 1 == -10_238_975i32);
        assert(9999i32 * 1024 + 365 == 10_239_341i32);
        assert(days_before_year(MIN_YEAR as int) == -3_652_425);
        assert(days_before_year(MAX_YEAR as int) == 3_651_694);
    }

    /// Two valid dates with the same year and ordinal are the same value.
    pub proof fn lemma_eq_parts(a: Date, b: Date)
        requires
            a.wf(),
            b.wf(),
            a.spec_year() == b.spec_year(),
            a.spec_ordinal() == b.spec_ordinal(),
        ensures
            a == b,
    {
        lemma_unpack(a.value);
        lemma_unpack(b.value);
        lemma_unpack_unique(a.value, b.value);
    }

    /// A valid date is determined by its Julian day number.
    pub proof fn lemma_eq_julian_day(a: Date, b: Date)
        requires
            a.wf(),
            b.wf(),
            a.spec_julian_day() == b.spec_julian_day(),
        ensures
            a == b,
    {
        lemma_julian_day_injective(a.spec_year(), a.spec_ordinal(), b.spec_year(), b.spec_ordinal());
        Date::lemma_eq_parts(a, b);
    }

    /// A valid date's year and ordinal are in range.
    pub proof fn lemma_valid(d: Date)
        requires
            d.wf(),
        ensures
            valid_ordinal_date(d.spec_year(), d.spec_ordinal()),
            1 <= d.spec_month() <= 12,
            1 <= d.spec_day() <= month_length(d.spec_month(), d.spec_leap()),
            0 <= d.spec_weekday() < 7,
    {
        lemma_month_day(d.spec_ordinal(), d.spec_leap());
    }

    /// A valid date lies between the two extreme Julian day numbers.
    pub proof fn lemma_julian_day_in_range(d: Date)
        requires
            d.wf(),
        ensures
            MIN_JULIAN_DAY <= d.spec_julian_day() <= MAX_JULIAN_DAY,
    {
        lemma_julian_day_bounds(d.spec_year(), d.spec_ordinal());
    }

    fn from_parts(year: i32, is_leap_year: bool, ordinal: u16) -> (r: Date)
        requires
            valid_ordinal_date(year as int, ordinal as int),
            is_leap_year == is_leap(year as int),
        ensures
            r.wf(),
            r.is_ordinal_date(year as int, ordinal as int),
    {
        let l: i32 = if is_leap_year {
            1
        } else {
            0
        };
        let o = ordinal as i32;
        proof {
            lemma_pack(year, l, o);
        }
        Date { value: (year << 10) | (l << 9) | o }
    }

    fn from_ordinal_date_unchecked(year: i32, ordinal: u16) -> (r: Date)
        requires
            valid_ordinal_date(year as int, ordinal as int),
        ensures
            r.wf(),
            r.is_ordinal_date(year as int, ordinal as int),
    {
        Date::from_parts(year, is_leap_year(year), ordinal)
    }

    /// The date of day `day` of `month` in `year`.
    ///
    /// Fails when the year is out of range (component `"year"`), or when the
    /// day is not in the month (component `"day"`, whose maximum is the month's
    /// length in that year).
    pub fn from_calendar_date(year: i32, month: Month, day: u8) -> (r: Result<Date, ComponentRange>)
        ensures
            r.is_ok() <==> valid_calendar_date(year as int, month.spec_number(), day as int),
            r.is_ok() ==> r.unwrap().wf() && r.unwrap().is_ordinal_date(
                year as int,
                days_before_month(month.spec_number(), is_leap(year as int)) + day,
            ),
            r.is_err() && !year_in_range(year as int) ==> range_error(
                r.unwrap_err(),
                "year"@,
                MIN_YEAR as int,
                MAX_YEAR as int,
                year as int,
                false,
            ),
            r.is_err() && year_in_range(year as int) ==> range_error(
                r.unwrap_err(),
                "day"@,
                1,
                month_length(month.spec_number(), is_leap(year as int)),
                day as int,
                true,
            ),
    {
        if year < MIN_YEAR || year > MAX_YEAR {
            return Err(year_error(year));
        }
        let leap = is_leap_year(year);
        let length = month.length(year);
        if day < 1 || day > length {
            return Err(
                ComponentRange {
                    name: "day",
                    minimum: 1,
                    maximum: length as i64,
                    value: day as i64,
                    is_conditional: true,
                },
            );
        }
        let ordinal = days_before_month_exec(month, leap) + day as u16;
        proof {
            lemma_ordinal_of_month_day(month.spec_number(), day as int, leap);
        }
        Ok(Date::from_parts(year, leap, ordinal))
    }

    /// The date of day `ordinal` of `year`.
    ///
    /// Fails when the year is out of range (component `"year"`), or when the
    /// ordinal is 0 or past the year's length (component `"ordinal"`).
    pub fn from_ordinal_date(year: i32, ordinal: u16) -> (r: Result<Date, ComponentRange>)
        ensures
            r.is_ok() <==> valid_ordinal_date(year as int, ordinal as int),
            r.is_ok() ==> r.unwrap().wf() && r.unwrap().is_ordinal_date(year as int, ordinal as int),
            r.is_err() && !year_in_range(year as int) ==> range_error(
                r.unwrap_err(),
                "year"@,
                MIN_YEAR as int,
                MAX_YEAR as int,
                year as int,
                false,
            ),
            r.is_err() && year_in_range(year as int) ==> range_error(
                r.unwrap_err(),
                "ordinal"@,
                1,
                year_length(year as int),
                ordinal as int,
                true,
            ),
    {
        if year < MIN_YEAR || year > MAX_YEAR {
            return Err(year_error(year));
        }
        let length = days_in_year(year);
        if ordinal < 1 || ordinal > length {
            return Err(
                ComponentRange {
                    name: "ordinal",
                    minimum: 1,
                    maximum: length as i64,
                    value: ordinal as i64,
                    is_conditional: true,
                },
            );
        }
        Ok(Date::from_ordinal_date_unchecked(year, ordinal))
    }

    /// The date with Julian day number `julian_day`.
    ///
    /// Fails (component `"julian_day"`) outside
    /// `MIN_JULIAN_DAY..=MAX_JULIAN_DAY`.
    pub fn from_julian_day(julian_day: i32) -> (r: Result<Date, ComponentRange>)
        ensures
            r.is_ok() <==> MIN_JULIAN_DAY <= julian_day <= MAX_JULIAN_DAY,
            r.is_ok() ==> r.unwrap().wf() && r.unwrap().spec_julian_day() == julian_day,
            r.is_err() ==> range_error(
                r.unwrap_err(),
                "julian_day"@,
                MIN_JULIAN_DAY as int,
                MAX_JULIAN_DAY as int,
                julian_day as int,
                false,
            ),
    {
        if julian_day < MIN_JULIAN_DAY || julian_day > MAX_JULIAN_DAY {
            return Err(
                ComponentRange {
                    name: "julian_day",
                    minimum: MIN_JULIAN_DAY as i64,
                    maximum: MAX_JULIAN_DAY as i64,
                    value: julian_day as i64,
                    is_conditional: false,
                },
            );
        }
        Ok(Date::from_julian_day_unchecked(julian_day))
    }

    /// The date with Julian day number `julian_day`, which must be in range.
    ///
    /// The count of days is split, without any loop, into whole cycles of 400
    /// years (146 097 days), then centuries (36 524 days, at most three),
    /// then four-year spans (1 461 days), then years (365 days, at most
    /// three); what is left is the day of the year.
    fn from_julian_day_unchecked(julian_day: i32) -> (r: Date)
        requires
            MIN_JULIAN_DAY <= julian_day <= MAX_JULIAN_DAY,
        ensures
            r.wf(),
            r.spec_julian_day() == julian_day,
    {
        // Days since 0001-01-01 (day 0), moved forward by 25 cycles so that
        // the count is not negative.
        let n: u64 = (julian_day as i64 - 1_721_426 + 146_097 * 25) as u64;
        let cycles = n / 146_097;
        let in_cycle = n % 146_097;
        let centuries = if in_cycle >= 146_096 {
            3
        } else {
            in_cycle / 36_524
        };
        let in_century = in_cycle - 36_524 * centuries;
        let spans = in_century / 1_461;
        let in_span = in_century % 1_461;
        let years = if in_span >= 1_460 {
            3
        } else {
            in_span / 365
        };
        let in_year = in_span - 365 * years;
        proof {
            lemma_cycle_split(
                n as int,
                cycles as int,
                in_cycle as int,
                centuries as int,
                in_century as int,
                spans as int,
                in_span as int,
                years as int,
                in_year as int,
            );
        }
        let year = (400 * cycles + 100 * centuries + 4 * spans + years) as i32 + 1 - 10_000;
        let ordinal = (in_year + 1) as u16;
        proof {
            lemma_cycle_date(
                julian_day as int,
                n as int,
                cycles as int,
                in_cycle as int,
                centuries as int,
                spans as int,
                years as int,
                in_year as int,
            );
        }
        Date::from_ordinal_date_unchecked(year, ordinal)
    }

    fn is_in_leap_year(self) -> (r: bool)
        requires
            self.wf(),
        ensures
            r == self.spec_leap(),
    {
        (self.value >> 9) & 1 == 1
    }

    /// The year.
    pub fn year(self) -> (r: i32)
        requires
            self.wf(),
        ensures
            r == self.spec_year(),
    {
        self.value >> 10
    }

    /// The day of the year: from 1 to 365, or 366 in a leap year.
    pub fn ordinal(self) -> (r: u16)
        requires
            self.wf(),
        ensures
            r == self.spec_ordinal(),
    {
        proof {
            lemma_unpack(self.value);
        }
        (self.value & 0x1FF) as u16
    }

    /// The year and the day of the year.
    pub fn to_ordinal_date(self) -> (r: (i32, u16))
        requires
            self.wf(),
        ensures
            r.0 == self.spec_year(),
            r.1 == self.spec_ordinal(),
    {
        (self.year(), self.ordinal())
    }

    /// The month.
    pub fn month(self) -> (r: Month)
        requires
            self.wf(),
        ensures
            r.spec_number() == self.spec_month(),
    {
        let (month, _) = month_and_day(self.ordinal(), self.is_in_leap_year());
        Month::of_number(month)
    }

    /// The day of the month: from 1 to 31.
    pub fn day(self) -> (r: u8)
        requires
            self.wf(),
        ensures
            r == self.spec_day(),
            1 <= r <= month_length(self.spec_month(), self.spec_leap()),
    {
        proof {
            lemma_month_day(self.spec_ordinal(), self.spec_leap());
        }
        let (_, day) = month_and_day(self.ordinal(), self.is_in_leap_year());
        day
    }

    /// The year, month and day.
    pub fn to_calendar_date(self) -> (r: (i32, Month, u8))
        requires
            self.wf(),
        ensures
            r.0 == self.spec_year(),
            r.1.spec_number() == self.spec_month(),
            r.2 == self.spec_day(),
            valid_calendar_date(r.0 as int, r.1.spec_number(), r.2 as int),
    {
        proof {
            lemma_month_day(self.spec_ordinal(), self.spec_leap());
        }
        let (year, ordinal) = self.to_ordinal_date();
        let (month, day) = month_and_day(ordinal, self.is_in_leap_year());
        (year, Month::of_number(month), day)
    }

    /// The day of the week.
    pub fn weekday(self) -> (r: Weekday)
        requires
            self.wf(),
        ensures
            r.index() == self.spec_weekday(),
    {
        let index = weekday_of_julian_day(self.to_julian_day());
        let r = Weekday::from_days_from_monday(index);
        proof {
            Weekday::lemma_of_index(index as int);
        }
        r
    }

    /// The ISO year and week number, as `spec_iso_year_week` names them.
    pub(crate) fn iso_year_week(self) -> (r: (i32, u8))
        requires
            self.wf(),
        ensures
            1 <= r.1 <= iso_weeks_in_year(r.0 as int),
            iso_julian_day(r.0 as int, r.1 as int, self.spec_weekday() + 1) == self.spec_julian_day(),
            self.spec_year() - 1 <= r.0 <= self.spec_year() + 1,
            (r.0 as int, r.1 as int) == self.spec_iso_year_week(),
    {
        let r = self.iso_year_week_from_ordinal();
        proof {
            let yw = (r.0 as int, r.1 as int);
            assert(1 <= yw.1 <= iso_weeks_in_year(yw.0) && iso_julian_day(
                yw.0,
                yw.1,
                self.spec_weekday() + 1,
            ) == self.spec_julian_day());
            let c = self.spec_iso_year_week();
            Weekday::lemma_of_index(self.spec_weekday());
            lemma_iso_julian_day_injective(
                c.0,
                c.1,
                self.spec_weekday() + 1,
                yw.0,
                yw.1,
                self.spec_weekday() + 1,
            );
        }
        r
    }

    /// The ISO year and week, from the day of the year and the weekday.
    fn iso_year_week_from_ordinal(self) -> (r: (i32, u8))
        requires
            self.wf(),
        ensures
            1 <= r.1 <= iso_weeks_in_year(r.0 as int),
            iso_julian_day(r.0 as int, r.1 as int, self.spec_weekday() + 1) == self.spec_julian_day(),
            self.spec_year() - 1 <= r.0 <= self.spec_year() + 1,
    {
        let (year, ordinal) = self.to_ordinal_date();
        let weekday = self.weekday().number_from_monday();
        let week = ((ordinal + 10 - weekday as u16) / 7) as u8;
        proof {
            let y = year as int;
            let o = ordinal as int;
            let jan4 = julian_day(y, 4);
            let w4 = weekday_index(jan4);
            lemma_weekday_add(jan4, o - 4);
            let q = (w4 + o - 4) / 7;
            let r = (w4 + o - 4) % 7;
            vstd::arithmetic::div_mod::lemma_fundamental_div_mod(w4 + o - 4, 7);
            assert(r == weekday - 1);
            vstd::arithmetic::div_mod::lemma_fundamental_div_mod_converse(
                o + 10 - weekday,
                7,
                q + 1,
                6 - w4,
            );
            assert(week == q + 1);
            assert(iso_julian_day(y, q + 1, r + 1) == julian_day(y, o));
            lemma_iso_year_step(y - 1);
            lemma_iso_year_step(y);
        }
        if week == 0 {
            proof {
                Date::lemma_min_max();
                lemma_weekday_add(julian_day(MIN_YEAR as int, 1), 3);
            }
            (year - 1, weeks_in_year(year - 1))
        } else if week == 53 && weeks_in_year(year) == 52 {
            (year + 1, 1)
        } else {
            proof {
                if week == 53 {
                    assert(iso_weeks_in_year(year as int) == 53);
                }
            }
            (year, week)
        }
    }

    /// The ISO week number: from 1 to 53.
    pub fn iso_week(self) -> (r: u8)
        requires
            self.wf(),
        ensures
            r == self.spec_iso_year_week().1,
            1 <= r <= 53,
    {
        let (_, w) = self.iso_year_week();
        w
    }

    /// The week number counted from the year's first Sunday (days before it
    /// are in week 0): from 0 to 53.
    pub fn sunday_based_week(self) -> (r: u8)
        requires
            self.wf(),
        ensures
            r == (self.spec_ordinal() - (self.spec_weekday() + 1) % 7 + 6) / 7,
            r <= 53,
    {
        ((self.ordinal() + 6 - self.weekday().number_days_from_sunday() as u16) / 7) as u8
    }

    /// The week number counted from the year's first Monday (days before it
    /// are in week 0): from 0 to 53.
    pub fn monday_based_week(self) -> (r: u8)
        requires
            self.wf(),
        ensures
            r == (self.spec_ordinal() - self.spec_weekday() + 6) / 7,
            r <= 53,
    {
        ((self.ordinal() + 6 - self.weekday().number_days_from_monday() as u16) / 7) as u8
    }

    /// The ISO year, week number and weekday.
    pub fn to_iso_week_date(self) -> (r: (i32, u8, Weekday))
        requires
            self.wf(),
        ensures
            r.0 == self.spec_iso_year_week().0,
            r.1 == self.spec_iso_year_week().1,
            r.2.index() == self.spec_weekday(),
            1 <= r.1 <= iso_weeks_in_year(r.0 as int),
            iso_julian_day(r.0 as int, r.1 as int, r.2.index() + 1) == self.spec_julian_day(),
    {
        let (year, week) = self.iso_year_week();
        (year, week, self.weekday())
    }

    /// The date of weekday `weekday` in ISO week `week` of ISO year `year`.
    ///
    /// Fails when the year is out of range (component `"year"`), when the
    /// week is 0 or past the year's last ISO week (component `"week"`), or
    /// when the day falls after `MAX_YEAR-12-31` (component `"year"`, with
    /// the year that the day would fall in as the value).
    pub fn from_iso_week_date(year: i32, week: u8, weekday: Weekday) -> (r: Result<
        Date,
        ComponentRange,
    >)
        ensures
            r.is_ok() <==> year_in_range(year as int) && 1 <= week <= iso_weeks_in_year(
                year as int,
            ) && iso_julian_day(year as int, week as int, weekday.index() + 1) <= MAX_JULIAN_DAY,
            r.is_ok() ==> r.unwrap().wf() && r.unwrap().spec_julian_day() == iso_julian_day(
                year as int,
                week as int,
                weekday.index() + 1,
            ),
            r.is_err() && year_in_range(year as int) && !(1 <= week <= iso_weeks_in_year(
                year as int,
            )) ==> range_error(
                r.unwrap_err(),
                "week"@,
                1,
                iso_weeks_in_year(year as int),
                week as int,
                true,
            ),
            r.is_err() && !year_in_range(year as int) ==> range_error(
                r.unwrap_err(),
                "year"@,
                MIN_YEAR as int,
                MAX_YEAR as int,
                year as int,
                false,
            ),
            r.is_err() && year_in_range(year as int) && 1 <= week <= iso_weeks_in_year(
                year as int,
            ) ==> range_error(
                r.unwrap_err(),
                "year"@,
                MIN_YEAR as int,
                MAX_YEAR as int,
                year as int + 1,
                false,
            ),
    {
        if year < MIN_YEAR || year > MAX_YEAR {
            return Err(year_error(year));
        }
        let weeks = weeks_in_year(year);
        if week < 1 || week > weeks {
            return Err(
                ComponentRange {
                    name: "week",
                    minimum: 1,
                    maximum: weeks as i64,
                    value: week as i64,
                    is_conditional: true,
                },
            );
        }
        let jan4 = weekday_of_julian_day(days_before_year_exec(year) + 4 + 1_721_425);
        let ordinal: i16 = week as i16 * 7 + weekday.number_from_monday() as i16 - (jan4 as i16
            + 4);
        let length = days_in_year(year);
        proof {
            Date::lemma_min_max();
            lemma_year_step(year as int - 1);
            lemma_year_step(year as int);
            assert(julian_day(year as int, ordinal as int) == iso_julian_day(
                year as int,
                week as int,
                weekday.index() + 1,
            ));
        }
        if ordinal <= 0 {
            let previous = year - 1;
            let date = Date::from_ordinal_date_unchecked(
                previous,
                (ordinal + days_in_year(previous) as i16) as u16,
            );
            proof {
                Date::lemma_julian_day_in_range(date);
            }
            Ok(date)
        } else if ordinal > length as i16 {
            if year == MAX_YEAR {
                // The day falls in the year after the last one.
                return Err(year_error(year + 1));
            }
            let date = Date::from_ordinal_date_unchecked(year + 1, (ordinal - length as i16) as u16);
            proof {
                Date::lemma_julian_day_in_range(date);
            }
            Ok(date)
        } else {
            let date = Date::from_ordinal_date_unchecked(year, ordinal as u16);
            proof {
                Date::lemma_julian_day_in_range(date);
            }
            Ok(date)
        }
    }

    /// The next day, or `None` on `MAX_YEAR-12-31`.
    pub fn next_day(self) -> (r: Option<Date>)
        requires
            self.wf(),
        ensures
            r.is_some() <==> self.spec_julian_day() < MAX_JULIAN_DAY,
            r.is_some() ==> r.unwrap().wf() && r.unwrap().spec_julian_day()
                == self.spec_julian_day() + 1,
    {
        proof {
            Date::lemma_min_max();
            Date::lemma_julian_day_in_range(self);
            lemma_unpack(self.value);
            lemma_year_step(self.spec_year());
        }
        let ordinal = self.ordinal();
        if ordinal == 366 || (ordinal == 365 && !self.is_in_leap_year()) {
            if self.value == Date::max_value().value {
                None
            } else {
                proof {
                    if self.spec_year() == MAX_YEAR {
                        Date::lemma_eq_parts(self, Date::spec_max());
                    }
                }
                let r = Date::from_ordinal_date_unchecked(self.year() + 1, 1);
                proof {
                    Date::lemma_julian_day_in_range(r);
                }
                Some(r)
            }
        } else {
            proof {
                lemma_shift_ordinal(self.value, 1);
            }
            let r = Date { value: self.value + 1 };
            proof {
                Date::lemma_julian_day_in_range(r);
            }
            Some(r)
        }
    }

    /// The previous day, or `None` on `MIN_YEAR-01-01`.
    pub fn previous_day(self) -> (r: Option<Date>)
        requires
            self.wf(),
        ensures
            r.is_some() <==> self.spec_julian_day() > MIN_JULIAN_DAY,
            r.is_some() ==> r.unwrap().wf() && r.unwrap().spec_julian_day()
                == self.spec_julian_day() - 1,
    {
        proof {
            Date::lemma_min_max();
            Date::lemma_julian_day_in_range(self);
            lemma_unpack(self.value);
            lemma_year_step(self.spec_year() - 1);
        }
        if self.ordinal() != 1 {
            proof {
                lemma_shift_ordinal(self.value, -1i32);
            }
            let r = Date { value: self.value - 1 };
            proof {
                Date::lemma_julian_day_in_range(r);
            }
            Some(r)
        } else if self.value == Date::min_value().value {
            None
        } else {
            proof {
                if self.spec_year() == MIN_YEAR {
                    Date::lemma_eq_parts(self, Date::spec_min());
                }
            }
            let previous = self.year() - 1;
            let r = Date::from_ordinal_date_unchecked(previous, days_in_year(previous));
            proof {
                Date::lemma_julian_day_in_range(r);
            }
            Some(r)
        }
    }

    /// The date `days` days later (earlier when negative), if it is in range.
    fn checked_add_days(self, days: i64) -> (r: Option<Date>)
        requires
            self.wf(),
        ensures
            r.is_some() <==> MIN_JULIAN_DAY <= self.spec_julian_day() + days <= MAX_JULIAN_DAY,
            r.is_some() ==> r.unwrap().wf() && r.unwrap().spec_julian_day()
                == self.spec_julian_day() + days,
    {
        if days < i32::MIN as i64 || days > i32::MAX as i64 {
            return None;
        }
        let julian_day = self.to_julian_day() as i64 + days;
        if julian_day < MIN_JULIAN_DAY as i64 || julian_day > MAX_JULIAN_DAY as i64 {
            None
        } else {
            Some(Date::from_julian_day_unchecked(julian_day as i32))
        }
    }

    /// `self + duration`, counting whole days only, or `None` when the result
    /// is out of range.
    pub fn checked_add(self, duration: Duration) -> (r: Option<Date>)
        requires
            self.wf(),
        ensures
            r.is_some() <==> MIN_JULIAN_DAY <= self.spec_julian_day()
                + duration.spec_whole_days() <= MAX_JULIAN_DAY,
            r.is_some() ==> r.unwrap().wf() && r.unwrap().spec_julian_day()
                == self.spec_julian_day() + duration.spec_whole_days(),
    {
        self.checked_add_days(duration.whole_days())
    }

    /// `self - duration`, counting whole days only, or `None` when the result
    /// is out of range.
    pub fn checked_sub(self, duration: Duration) -> (r: Option<Date>)
        requires
            self.wf(),
        ensures
            r.is_some() <==> MIN_JULIAN_DAY <= self.spec_julian_day()
                - duration.spec_whole_days() <= MAX_JULIAN_DAY,
            r.is_some() ==> r.unwrap().wf() && r.unwrap().spec_julian_day()
                == self.spec_julian_day() - duration.spec_whole_days(),
    {
        let days = duration.whole_days();
        if days == i64::MIN {
            return None;
        }
        self.checked_add_days(-days)
    }

    /// `self` moved by the whole days in `seconds` seconds, forward or
    /// backward, or `None` when the result is out of range.
    pub fn checked_add_unsigned_seconds(self, seconds: u64, forward: bool) -> (r: Option<Date>)
        requires
            self.wf(),
        ensures
            ({
                let days: int = if forward {
                    seconds as int / 86_400
                } else {
                    -(seconds as int / 86_400)
                };
                &&& r.is_some() <==> MIN_JULIAN_DAY <= self.spec_julian_day() + days
                    <= MAX_JULIAN_DAY
                &&& r.is_some() ==> r.unwrap().wf() && r.unwrap().spec_julian_day()
                    == self.spec_julian_day() + days
            }),
    {
        let days = seconds / 86_400;
        if forward {
            self.checked_add_days(days as i64)
        } else {
            self.checked_add_days(-(days as i64))
        }
    }

    /// `self + duration` for a duration of the standard library, counting
    /// whole days only, or `None` when the result is out of range.
    pub fn checked_add_std(self, duration: core::time::Duration) -> (r: Option<Date>)
        requires
            self.wf(),
        ensures
            r.is_some() <==> self.spec_julian_day() + std_secs_of(duration) / 86_400
                <= MAX_JULIAN_DAY,
            r.is_some() ==> r.unwrap().wf() && r.unwrap().spec_julian_day()
                == self.spec_julian_day() + std_secs_of(duration) / 86_400,
    {
        let seconds = std_whole_seconds(&duration);
        proof {
            Date::lemma_julian_day_in_range(self);
        }
        self.checked_add_unsigned_seconds(seconds, true)
    }

    /// `self - duration` for a duration of the standard library, counting
    /// whole days only, or `None` when the result is out of range.
    pub fn checked_sub_std(self, duration: core::time::Duration) -> (r: Option<Date>)
        requires
            self.wf(),
        ensures
            r.is_some() <==> self.spec_julian_day() - std_secs_of(duration) / 86_400
                >= MIN_JULIAN_DAY,
            r.is_some() ==> r.unwrap().wf() && r.unwrap().spec_julian_day()
                == self.spec_julian_day() - std_secs_of(duration) / 86_400,
    {
        let seconds = std_whole_seconds(&duration);
        proof {
            Date::lemma_julian_day_in_range(self);
        }
        self.checked_add_unsigned_seconds(seconds, false)
    }

    /// `self + duration`, counting whole days only, clamped to the range of
    /// dates.
    pub fn saturating_add(self, duration: Duration) -> (r: Date)
        requires
            self.wf(),
            duration.wf(),
        ensures
            r.wf(),
            r.spec_julian_day() == clamp_julian_day(
                self.spec_julian_day() + duration.spec_whole_days(),
            ),
    {
        proof {
            Date::lemma_min_max();
            Date::lemma_julian_day_in_range(self);
            duration.lemma_sign();
        }
        match self.checked_add(duration) {
            Some(date) => date,
            None => if duration.is_negative() {
                Date::min_value()
            } else {
                Date::max_value()
            },
        }
    }

    /// `self - duration`, counting whole days only, clamped to the range of
    /// dates.
    pub fn saturating_sub(self, duration: Duration) -> (r: Date)
        requires
            self.wf(),
            duration.wf(),
        ensures
            r.wf(),
            r.spec_julian_day() == clamp_julian_day(
                self.spec_julian_day() - duration.spec_whole_days(),
            ),
    {
        proof {
            Date::lemma_min_max();
            Date::lemma_julian_day_in_range(self);
            duration.lemma_sign();
        }
        match self.checked_sub(duration) {
            Some(date) => date,
            None => if duration.is_negative() {
                Date::max_value()
            } else {
                Date::min_value()
            },
        }
    }

    /// The first day strictly after `self` that is a `weekday`, or `None`
    /// when it is out of range.
    pub fn checked_next_occurrence(self, weekday: Weekday) -> (r: Option<Date>)
        requires
            self.wf(),
        ensures
            r.is_some() <==> self.spec_julian_day() + days_until_weekday(
                self.spec_weekday(),
                weekday.index(),
            ) <= MAX_JULIAN_DAY,
            r.is_some() ==> r.unwrap().wf() && r.unwrap().spec_julian_day()
                == self.spec_julian_day() + days_until_weekday(
                self.spec_weekday(),
                weekday.index(),
            ),
    {
        proof {
            Date::lemma_julian_day_in_range(self);
        }
        let from = self.weekday().number_days_from_monday();
        let day_diff = (weekday.number_days_from_monday() + 6 - from) % 7 + 1;
        self.checked_add(Duration::days(day_diff as i64))
    }

    /// The last day strictly before `self` that is a `weekday`, or `None` when
    /// it is out of range.
    pub fn checked_prev_occurrence(self, weekday: Weekday) -> (r: Option<Date>)
        requires
            self.wf(),
        ensures
            r.is_some() <==> self.spec_julian_day() - days_until_weekday(
                weekday.index(),
                self.spec_weekday(),
            ) >= MIN_JULIAN_DAY,
            r.is_some() ==> r.unwrap().wf() && r.unwrap().spec_julian_day()
                == self.spec_julian_day() - days_until_weekday(
                weekday.index(),
                self.spec_weekday(),
            ),
    {
        proof {
            Date::lemma_julian_day_in_range(self);
        }
        let from = self.weekday().number_days_from_monday();
        let day_diff = (from + 6 - weekday.number_days_from_monday()) % 7 + 1;
        self.checked_sub(Duration::days(day_diff as i64))
    }

    /// The `n`th day strictly after `self` that is a `weekday`, or `None` when
    /// `n` is 0 or the day is out of range.
    pub fn checked_nth_next_occurrence(self, weekday: Weekday, n: u8) -> (r: Option<Date>)
        requires
            self.wf(),
        ensures
            r.is_some() <==> n > 0 && self.spec_julian_day() + days_until_weekday(
                self.spec_weekday(),
                weekday.index(),
            ) + 7 * (n - 1) <= MAX_JULIAN_DAY,
            r.is_some() ==> r.unwrap().wf() && r.unwrap().spec_julian_day()
                == self.spec_julian_day() + days_until_weekday(
                self.spec_weekday(),
                weekday.index(),
            ) + 7 * (n - 1),
    {
        if n == 0 {
            return None;
        }
        match self.checked_next_occurrence(weekday) {
            Some(first) => first.checked_add(Duration::weeks(n as i64 - 1)),
            None => None,
        }
    }

    /// The `n`th day strictly before `self` that is a `weekday`, or `None`
    /// when `n` is 0 or the day is out of range.
    pub fn checked_nth_prev_occurrence(self, weekday: Weekday, n: u8) -> (r: Option<Date>)
        requires
            self.wf(),
        ensures
            r.is_some() <==> n > 0 && self.spec_julian_day() - days_until_weekday(
                weekday.index(),
                self.spec_weekday(),
            ) - 7 * (n - 1) >= MIN_JULIAN_DAY,
            r.is_some() ==> r.unwrap().wf() && r.unwrap().spec_julian_day()
                == self.spec_julian_day() - days_until_weekday(
                weekday.index(),
                self.spec_weekday(),
            ) - 7 * (n - 1),
    {
        if n == 0 {
            return None;
        }
        match self.checked_prev_occurrence(weekday) {
            Some(first) => first.checked_sub(Duration::weeks(n as i64 - 1)),
            None => None,
        }
    }

    /// The first day strictly after `self` that is a `weekday`.
    pub fn next_occurrence(self, weekday: Weekday) -> (r: Date)
        requires
            self.wf(),
            self.spec_julian_day() + days_until_weekday(self.spec_weekday(), weekday.index())
                <= MAX_JULIAN_DAY,
        ensures
            r.wf(),
            r.spec_julian_day() == self.spec_julian_day() + days_until_weekday(
                self.spec_weekday(),
                weekday.index(),
            ),
    {
        match self.checked_next_occurrence(weekday) {
            Some(date) => date,
            None => vstd::pervasive::unreached(),
        }
    }

    /// The last day strictly before `self` that is a `weekday`.
    pub fn prev_occurrence(self, weekday: Weekday) -> (r: Date)
        requires
            self.wf(),
            self.spec_julian_day() - days_until_weekday(weekday.index(), self.spec_weekday())
                >= MIN_JULIAN_DAY,
        ensures
            r.wf(),
            r.spec_julian_day() == self.spec_julian_day() - days_until_weekday(
                weekday.index(),
                self.spec_weekday(),
            ),
    {
        match self.checked_prev_occurrence(weekday) {
            Some(date) => date,
            None => vstd::pervasive::unreached(),
        }
    }

    /// The `n`th day strictly after `self` that is a `weekday`; `n` is at
    /// least 1.
    pub fn nth_next_occurrence(self, weekday: Weekday, n: u8) -> (r: Date)
        requires
            self.wf(),
            n > 0,
            self.spec_julian_day() + days_until_weekday(self.spec_weekday(), weekday.index()) + 7
                * (n - 1) <= MAX_JULIAN_DAY,
        ensures
            r.wf(),
            r.spec_julian_day() == self.spec_julian_day() + days_until_weekday(
                self.spec_weekday(),
                weekday.index(),
            ) + 7 * (n - 1),
    {
        match self.checked_nth_next_occurrence(weekday, n) {
            Some(date) => date,
            None => vstd::pervasive::unreached(),
        }
    }

    /// The `n`th day strictly before `self` that is a `weekday`; `n` is at
    /// least 1.
    pub fn nth_prev_occurrence(self, weekday: Weekday, n: u8) -> (r: Date)
        requires
            self.wf(),
            n > 0,
            self.spec_julian_day() - days_until_weekday(weekday.index(), self.spec_weekday()) - 7
                * (n - 1) >= MIN_JULIAN_DAY,
        ensures
            r.wf(),
            r.spec_julian_day() == self.spec_julian_day() - days_until_weekday(
                weekday.index(),
                self.spec_weekday(),
            ) - 7 * (n - 1),
    {
        match self.checked_nth_prev_occurrence(weekday, n) {
            Some(date) => date,
            None => vstd::pervasive::unreached(),
        }
    }

    /// The same month and day in `year`.
    ///
    /// Fails when the year is out of range (component `"year"`), or on
    /// February 29th when `year` is not a leap year (component `"day"`).
    pub fn replace_year(self, year: i32) -> (r: Result<Date, ComponentRange>)
        requires
            self.wf(),
        ensures
            r.is_ok() <==> year_in_range(year as int) && !(self.spec_month() == 2
                && self.spec_day() == 29 && !is_leap(year as int)),
            r.is_ok() ==> r.unwrap().wf() && r.unwrap().spec_year() == year
                && r.unwrap().spec_month() == self.spec_month() && r.unwrap().spec_day()
                == self.spec_day(),
            r.is_err() && !year_in_range(year as int) ==> range_error(
                r.unwrap_err(),
                "year"@,
                MIN_YEAR as int,
                MAX_YEAR as int,
                year as int,
                false,
            ),
            r.is_err() && year_in_range(year as int) ==> range_error(
                r.unwrap_err(),
                "day"@,
                1,
                28,
                29,
                true,
            ),
    {
        if year < MIN_YEAR || year > MAX_YEAR {
            return Err(year_error(year));
        }
        let ordinal = self.ordinal();
        // January and February do not depend on leap years.
        if ordinal <= 59 {
            return Ok(Date::from_ordinal_date_unchecked(year, ordinal));
        }
        match (self.is_in_leap_year(), is_leap_year(year)) {
            (false, false) | (true, true) => Ok(Date::from_ordinal_date_unchecked(year, ordinal)),
            // February 29th does not exist in common years.
            (true, false) if ordinal == 60 => Err(
                ComponentRange {
                    name: "day",
                    minimum: 1,
                    maximum: 28,
                    value: 29,
                    is_conditional: true,
                },
            ),
            // From a common year to a leap year, March and later move by a
            // day.
            (false, true) => Ok(Date::from_ordinal_date_unchecked(year, ordinal + 1)),
            // From a leap year to a common year, likewise the other way.
            (true, false) => Ok(Date::from_ordinal_date_unchecked(year, ordinal - 1)),
        }
    }

    /// The same year and day in `month`.
    ///
    /// Fails (component `"day"`) when the day is not in that month.
    pub fn replace_month(self, month: Month) -> (r: Result<Date, ComponentRange>)
        requires
            self.wf(),
        ensures
            r.is_ok() <==> self.spec_day() <= month_length(month.spec_number(), self.spec_leap()),
            r.is_ok() ==> r.unwrap().wf() && r.unwrap().spec_year() == self.spec_year()
                && r.unwrap().spec_month() == month.spec_number() && r.unwrap().spec_day()
                == self.spec_day(),
            r.is_err() ==> range_error(
                r.unwrap_err(),
                "day"@,
                1,
                month_length(month.spec_number(), self.spec_leap()),
                self.spec_day(),
                true,
            ),
    {
        let (year, _, day) = self.to_calendar_date();
        let r = Date::from_calendar_date(year, month, day);
        proof {
            month.lemma_number();
            if r.is_ok() {
                lemma_ordinal_of_month_day(month.spec_number(), day as int, self.spec_leap());
            }
        }
        r
    }

    /// The same year and month, on day `day`.
    ///
    /// Fails (component `"day"`) when the day is not in the month.
    pub fn replace_day(self, day: u8) -> (r: Result<Date, ComponentRange>)
        requires
            self.wf(),
        ensures
            r.is_ok() <==> 1 <= day <= month_length(self.spec_month(), self.spec_leap()),
            r.is_ok() ==> r.unwrap().wf() && r.unwrap().spec_year() == self.spec_year()
                && r.unwrap().spec_month() == self.spec_month() && r.unwrap().spec_day() == day,
            r.is_err() ==> range_error(
                r.unwrap_err(),
                "day"@,
                1,
                month_length(self.spec_month(), self.spec_leap()),
                day as int,
                true,
            ),
    {
        proof {
            lemma_month_day(self.spec_ordinal(), self.spec_leap());
        }
        let length = self.month().length(self.year());
        if day < 1 || day > length {
            return Err(
                ComponentRange {
                    name: "day",
                    minimum: 1,
                    maximum: length as i64,
                    value: day as i64,
                    is_conditional: true,
                },
            );
        }
        let ordinal = self.ordinal() - self.day() as u16 + day as u16;
        proof {
            lemma_ordinal_of_month_day(self.spec_month(), day as int, self.spec_leap());
        }
        Ok(Date::from_ordinal_date_unchecked(self.year(), ordinal))
    }

    /// The same year, on day `ordinal` of it.
    ///
    /// Fails (component `"ordinal"`) when the ordinal is 0 or past the year's
    /// length.
    pub fn replace_ordinal(self, ordinal: u16) -> (r: Result<Date, ComponentRange>)
        requires
            self.wf(),
        ensures
            r.is_ok() <==> 1 <= ordinal <= year_length(self.spec_year()),
            r.is_ok() ==> r.unwrap().wf() && r.unwrap().is_ordinal_date(
                self.spec_year(),
                ordinal as int,
            ),
            r.is_err() ==> range_error(
                r.unwrap_err(),
                "ordinal"@,
                1,
                year_length(self.spec_year()),
                ordinal as int,
                true,
            ),
    {
        let length = days_in_year(self.year());
        if ordinal < 1 || ordinal > length {
            return Err(
                ComponentRange {
                    name: "ordinal",
                    minimum: 1,
                    maximum: length as i64,
                    value: ordinal as i64,
                    is_conditional: true,
                },
            );
        }
        Ok(Date::from_ordinal_date_unchecked(self.year(), ordinal))
    }

    /// The Julian day number: days since -4713-11-24, which is day 0.
    pub fn to_julian_day(self) -> (r: i32)
        requires
            self.wf(),
        ensures
            r == self.spec_julian_day(),
            MIN_JULIAN_DAY <= r <= MAX_JULIAN_DAY,
    {
        proof {
            Date::lemma_julian_day_in_range(self);
        }
        let (year, ordinal) = self.to_ordinal_date();
        days_before_year_exec(year) + ordinal as i32 + 1_721_425
    }
}

/// The multiply-shift month formula, on a year that starts in March (or on
/// January and February alone): month `m` and the days before it.
proof fn lemma_month_formula(o: u32)
    by (bit_vector)
    requires
        1 <= o <= 306,
    ensures
        ({
            let m = ((o * 268 + 8031) as u32) >> 13;
            let p = ((m * 3917 - 3866) as u32) >> 7;
            (o <= 31 && m == 1 && p == 0) || (32 <= o <= 61 && m == 2 && p == 31) || (62 <= o
                <= 92 && m == 3 && p == 61) || (93 <= o <= 122 && m == 4 && p == 92) || (123 <= o
                <= 153 && m == 5 && p == 122) || (154 <= o <= 184 && m == 6 && p == 153) || (185
                <= o <= 214 && m == 7 && p == 184) || (215 <= o <= 245 && m == 8 && p == 214) || (
            246 <= o <= 275 && m == 9 && p == 245) || (276 <= o <= 306 && m == 10 && p == 275)
        }),
{
}

/// Month and day of month of day `ordinal` of a year.
fn month_and_day(ordinal: u16, leap: bool) -> (r: (u8, u8))
    requires
        1 <= ordinal <= (if leap { 366int } else { 365int }),
    ensures
        r.0 as int == month_of_ordinal(ordinal as int, leap),
        r.1 as int == day_of_ordinal(ordinal as int, leap),
{
    let o = ordinal as u32;
    let jan_feb_len: u32 = if leap {
        60
    } else {
        59
    };
    let (month_adj, ordinal_adj): (u32, u32) = if o <= jan_feb_len {
        (0, 0)
    } else {
        (2, jan_feb_len)
    };
    let o = o - ordinal_adj;
    proof {
        lemma_month_formula(o);
    }
    let month = (o * 268 + 8031) >> 13;
    let days_before = (month * 3917 - 3866) >> 7;
    let day = o - days_before;
    ((month + month_adj) as u8, day as u8)
}

/// The parts of a day count split into cycles, centuries, four-year spans
/// and years.
proof fn lemma_cycle_split(
    n: int,
    cycles: int,
    in_cycle: int,
    centuries: int,
    in_century: int,
    spans: int,
    in_span: int,
    years: int,
    in_year: int,
)
    requires
        0 <= n,
        cycles == n / 146_097,
        in_cycle == n % 146_097,
        centuries == (if in_cycle >= 146_096 {
            3
        } else {
            in_cycle / 36_524
        }),
        in_century == in_cycle - 36_524 * centuries,
        spans == in_century / 1_461,
        in_span == in_century % 1_461,
        years == (if in_span >= 1_460 {
            3
        } else {
            in_span / 365
        }),
        in_year == in_span - 365 * years,
    ensures
        n == 146_097 * cycles + 36_524 * centuries + 1_461 * spans + 365 * years + in_year,
        0 <= centuries <= 3,
        0 <= in_century <= 36_524,
        in_century == 36_524 ==> centuries == 3,
        0 <= spans <= 24,
        0 <= years <= 3,
        0 <= in_year <= 365,
        in_year == 365 ==> years == 3 && in_span == 1_460,
{
    lemma_fundamental_div_mod(n, 146_097);
    lemma_fundamental_div_mod(in_cycle, 36_524);
    lemma_fundamental_div_mod(in_century, 1_461);
    lemma_fundamental_div_mod(in_span, 365);
}

/// The year and ordinal that the split of a day count gives are a valid date
/// with that Julian day number.
proof fn lemma_cycle_date(
    jd: int,
    n: int,
    cycles: int,
    in_cycle: int,
    centuries: int,
    spans: int,
    years: int,
    in_year: int,
)
    requires
        MIN_JULIAN_DAY <= jd <= MAX_JULIAN_DAY,
        n == jd - 1_721_426 + 146_097 * 25,
        n == 146_097 * cycles + 36_524 * centuries + 1_461 * spans + 365 * years + in_year,
        in_cycle == n - 146_097 * cycles,
        0 <= centuries <= 3,
        0 <= spans <= 24,
        0 <= years <= 3,
        0 <= in_year <= 365,
        in_year == 365 ==> years == 3 && 1_461 * spans + 1_460 == in_cycle - 36_524 * centuries,
        in_cycle - 36_524 * centuries == 36_524 ==> centuries == 3,
    ensures
        ({
            let year = 400 * cycles + 100 * centuries + 4 * spans + years + 1 - 10_000;
            &&& valid_ordinal_date(year, in_year + 1)
            &&& julian_day(year, in_year + 1) == jd
        }),
{
    let a = cycles - 25;
    let p = 400 * a + 100 * centuries + 4 * spans + years;
    let year = p + 1;
    lemma_fundamental_div_mod_converse(p, 4, 100 * a + 25 * centuries + spans, years);
    lemma_fundamental_div_mod_converse(p, 100, 4 * a + centuries, 4 * spans + years);
    lemma_fundamental_div_mod_converse(p, 400, a, 100 * centuries + 4 * spans + years);
    assert(days_before_year(year) == 146_097 * a + 36_524 * centuries + 1_461 * spans + 365
        * years);
    assert(julian_day(year, in_year + 1) == jd);
    if in_year == 365 {
        lemma_fundamental_div_mod_converse(year, 4, 100 * a + 25 * centuries + spans + 1, 0);
        if spans < 24 {
            lemma_fundamental_div_mod_converse(year, 100, 4 * a + centuries, 4 * spans + 4);
        } else {
            lemma_fundamental_div_mod_converse(year, 400, a + 1, 0);
        }
    }
    // The year is in range, since the Julian day number is.
    if year > MAX_YEAR {
        lemma_days_before_year_mono(MAX_YEAR + 1, year);
        assert(days_before_year(MAX_YEAR + 1) == 3_652_059);
    }
    if year < MIN_YEAR {
        lemma_days_before_year_mono(year, MIN_YEAR as int);
        assert(days_before_year(MIN_YEAR as int) == -3_652_425);
    }
}

/// The whole seconds of a duration of the standard library.
pub uninterp spec fn std_secs_of(d: core::time::Duration) -> u64;

/// Relies on `core::time::Duration::as_secs`: the whole seconds of a
/// duration, which depend on the duration alone.
#[verifier::external_body]
fn std_whole_seconds(duration: &core::time::Duration) -> (r: u64)
    ensures
        r == std_secs_of(*duration),
{
    duration.as_secs()
}

/// The error for a year outside `MIN_YEAR..=MAX_YEAR`.
fn year_error(year: i32) -> (r: ComponentRange)
    ensures
        range_error(r, "year"@, MIN_YEAR as int, MAX_YEAR as int, year as int, false),
{
    ComponentRange {
        name: "year",
        minimum: MIN_YEAR as i64,
        maximum: MAX_YEAR as i64,
        value: year as i64,
        is_conditional: false,
    }
}

/// Days of the year before the first of `month`.
fn days_before_month_exec(month: Month, leap: bool) -> (r: u16)
    ensures
        r as int == days_before_month(month.spec_number(), leap),
{
    let l: u16 = if leap {
        1
    } else {
        0
    };
    match month {
        Month::January => 0,
        Month::February => 31,
        Month::March => 59 + l,
        Month::April => 90 + l,
        Month::May => 120 + l,
        Month::June => 151 + l,
        Month::July => 181 + l,
        Month::August => 212 + l,
        Month::September => 243 + l,
        Month::October => 273 + l,
        Month::November => 304 + l,
        Month::December => 334 + l,
    }
}

} // verus!
