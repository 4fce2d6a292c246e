//! Mathematical model of the proleptic Gregorian calendar, and the integer
//! helpers that compute it.
use vstd::arithmetic::div_mod::{
    lemma_add_mod_noop, lemma_fundamental_div_mod, lemma_fundamental_div_mod_converse,
};
use vstd::prelude::*;

verus! {

/// The smallest representable year.
pub const MIN_YEAR: i32 = -9999;

/// The largest representable year.
pub const MAX_YEAR: i32 = 9999;

/// Julian day number of `MIN_YEAR-01-01`.
pub const MIN_JULIAN_DAY: i32 = -1_930_999;

/// Julian day number of `MAX_YEAR-12-31`.
pub const MAX_JULIAN_DAY: i32 = 5_373_484;

/// Divisible by 4, and not by 100 unless by 400.
pub open spec fn is_leap(y: int) -> bool {
    y % 4 == 0 && (y % 100 != 0 || y % 400 == 0)
}

pub open spec fn year_length(y: int) -> int {
    if is_leap(y) {
        366
    } else {
        365
    }
}

pub open spec fn year_in_range(y: int) -> bool {
    MIN_YEAR <= y <= MAX_YEAR
}

/// Days from 0001-01-01 to January 1st of `y` (negative before year 1).
pub open spec fn days_before_year(y: int) -> int {
    let p = y - 1;
    365 * p + p / 4 - p / 100 + p / 400
}

/// The Julian day number of day `ordinal` of year `y`.
pub open spec fn julian_day(y: int, ordinal: int) -> int {
    days_before_year(y) + ordinal + 1_721_425
}

/// Day of the week of a Julian day number, counted from Monday = 0.
pub open spec fn weekday_index(jd: int) -> int {
    jd % 7
}

/// Length of month `m` (1 to 12).
pub open spec fn month_length(m: int, leap: bool) -> int {
    if m == 2 {
        if leap {
            29
        } else {
            28
        }
    } else if m == 4 || m == 6 || m == 9 || m == 11 {
        30
    } else {
        31
    }
}

/// Days of the year before the first of month `m` (1 to 12).
pub open spec fn days_before_month(m: int, leap: bool) -> int {
    let l = if leap {
        1int
    } else {
        0int
    };
    if m <= 1 {
        0
    } else if m == 2 {
        31
    } else if m == 3 {
        59 + l
    } else if m == 4 {
        90 + l
    } else if m == 5 {
        120 + l
    } else if m == 6 {
        151 + l
    } else if m == 7 {
        181 + l
    } else if m == 8 {
        212 + l
    } else if m == 9 {
        243 + l
    } else if m == 10 {
        273 + l
    } else if m == 11 {
        304 + l
    } else {
        334 + l
    }
}

/// The month (1 to 12) that holds day `ordinal` of a year.
pub open spec fn month_of_ordinal(ordinal: int, leap: bool) -> int {
    let l = if leap {
        1int
    } else {
        0int
    };
    if ordinal <= 31 {
        1
    } else if ordinal <= 59 + l {
        2
    } else if ordinal <= 90 + l {
        3
    } else if ordinal <= 120 + l {
        4
    } else if ordinal <= 151 + l {
        5
    } else if ordinal <= 181 + l {
        6
    } else if ordinal <= 212 + l {
        7
    } else if ordinal <= 243 + l {
        8
    } else if ordinal <= 273 + l {
        9
    } else if ordinal <= 304 + l {
        10
    } else if ordinal <= 334 + l {
        11
    } else {
        12
    }
}

/// The day of the month of day `ordinal` of a year.
pub open spec fn day_of_ordinal(ordinal: int, leap: bool) -> int {
    ordinal - days_before_month(month_of_ordinal(ordinal, leap), leap)
}

/// Splitting an ordinal into month and day, and joining them again, are
/// inverse to each other.
pub proof fn lemma_month_day(ordinal: int, leap: bool)
    requires
        1 <= ordinal <= (if leap { 366int } else { 365int }),
    ensures
        1 <= month_of_ordinal(ordinal, leap) <= 12,
        1 <= day_of_ordinal(ordinal, leap) <= month_length(month_of_ordinal(ordinal, leap), leap),
{
}

pub proof fn lemma_ordinal_of_month_day(m: int, d: int, leap: bool)
    requires
        1 <= m <= 12,
        1 <= d <= month_length(m, leap),
    ensures
        1 <= days_before_month(m, leap) + d <= (if leap { 366int } else { 365int }),
        month_of_ordinal(days_before_month(m, leap) + d, leap) == m,
        day_of_ordinal(days_before_month(m, leap) + d, leap) == d,
{
}

/// A valid (year, month, day) triple.
pub open spec fn valid_calendar_date(y: int, m: int, d: int) -> bool {
    year_in_range(y) && 1 <= m <= 12 && 1 <= d <= month_length(m, is_leap(y))
}

/// A valid (year, ordinal) pair.
pub open spec fn valid_ordinal_date(y: int, ordinal: int) -> bool {
    year_in_range(y) && 1 <= ordinal <= year_length(y)
}

/// Number of ISO weeks in year `y`: 53 when January 1st is a Thursday, or a
/// Wednesday of a leap year.
pub open spec fn iso_weeks_in_year(y: int) -> int {
    let jan1 = weekday_index(julian_day(y, 1));
    if jan1 == 3 || (is_leap(y) && jan1 == 2) {
        53
    } else {
        52
    }
}

/// The Julian day number of ISO week `week`, weekday `wd` (Monday = 1) of ISO
/// year `y`. Week 1 is the week that holds January 4th.
pub open spec fn iso_julian_day(y: int, week: int, wd: int) -> int {
    let jan4 = julian_day(y, 4);
    jan4 - weekday_index(jan4) + 7 * (week - 1) + (wd - 1)
}

pub proof fn lemma_div_step(p: int, d: int)
    requires
        d > 0,
    ensures
        (p + 1) / d == p / d + (if (p + 1) % d == 0 { 1int } else { 0int }),
{
    lemma_fundamental_div_mod(p, d);
    let q = p / d;
    let r = p % d;
    if r == d - 1 {
        assert(p + 1 == (q + 1) * d + 0) by (nonlinear_arith)
            requires
                p == d * q + r,
                r == d - 1,
        ;
        lemma_fundamental_div_mod_converse(p + 1, d, q + 1, 0);
    } else {
        assert(p + 1 == q * d + (r + 1)) by (nonlinear_arith)
            requires
                p == d * q + r,
        ;
        lemma_fundamental_div_mod_converse(p + 1, d, q, r + 1);
    }
}

pub proof fn lemma_div_shift(x: int, k: int, d: int)
    requires
        d > 0,
    ensures
        (x + k * d) / d == x / d + k,
        (x + k * d) % d == x % d,
{
    lemma_fundamental_div_mod(x, d);
    assert(x + k * d == (x / d + k) * d + x % d) by (nonlinear_arith)
        requires
            x == d * (x / d) + x % d,
    ;
    lemma_fundamental_div_mod_converse(x + k * d, d, x / d + k, x % d);
}

/// A year is as long as the distance between its first day and the next
/// year's.
pub proof fn lemma_year_step(y: int)
    ensures
        days_before_year(y + 1) == days_before_year(y) + year_length(y),
{
    let p = y - 1;
    lemma_div_step(p, 4);
    lemma_div_step(p, 100);
    lemma_div_step(p, 400);
    assert(p + 1 == y);
}

pub proof fn lemma_weekday_step(jd: int, k: int)
    ensures
        weekday_index(jd + 7 * k) == weekday_index(jd),
{
    lemma_div_shift(jd, k, 7);
}

/// Later years start later.
pub proof fn lemma_days_before_year_mono(a: int, b: int)
    requires
        a <= b,
    ensures
        days_before_year(a) + 365 * (b - a) <= days_before_year(b),
        a < b ==> days_before_year(a) + year_length(a) <= days_before_year(b),
    decreases b - a,
{
    if a < b {
        lemma_year_step(a);
        lemma_days_before_year_mono(a + 1, b);
    }
}

/// Distinct valid ordinal dates have distinct Julian day numbers.
pub proof fn lemma_julian_day_injective(y1: int, o1: int, y2: int, o2: int)
    requires
        1 <= o1 <= year_length(y1),
        1 <= o2 <= year_length(y2),
        julian_day(y1, o1) == julian_day(y2, o2),
    ensures
        y1 == y2,
        o1 == o2,
{
    if y1 < y2 {
        lemma_days_before_year_mono(y1, y2);
    } else if y2 < y1 {
        lemma_days_before_year_mono(y2, y1);
    }
}

pub proof fn lemma_julian_day_bounds(y: int, o: int)
    requires
        valid_ordinal_date(y, o),
    ensures
        MIN_JULIAN_DAY <= julian_day(y, o) <= MAX_JULIAN_DAY,
{
    lemma_days_before_year_mono(MIN_YEAR as int, y);
    lemma_days_before_year_mono(y, MAX_YEAR as int);
    assert(days_before_year(MIN_YEAR as int) == -3_652_425);
    assert(days_before_year(MAX_YEAR as int) == 3_651_694);
    assert(!is_leap(MAX_YEAR as int));
}

pub proof fn lemma_weekday_add(jd: int, a: int)
    ensures
        weekday_index(jd + a) == (weekday_index(jd) + a) % 7,
{
    lemma_add_mod_noop(jd, a, 7);
    lemma_add_mod_noop(jd % 7, a, 7);
    assert((jd % 7) % 7 == jd % 7);
}

/// The first day (Monday of week 1) of ISO year `y`.
pub open spec fn iso_year_start(y: int) -> int {
    iso_julian_day(y, 1, 1)
}

/// ISO years follow each other without gap or overlap.
pub proof fn lemma_iso_year_step(y: int)
    ensures
        iso_year_start(y + 1) == iso_year_start(y) + 7 * iso_weeks_in_year(y),
{
    lemma_year_step(y);
    let jan4 = julian_day(y, 4);
    let e = year_length(y) - 364;
    lemma_weekday_add(jan4, year_length(y));
    lemma_div_shift(weekday_index(jan4) + e, 52, 7);
    assert(julian_day(y + 1, 4) == jan4 + year_length(y));
    lemma_weekday_add(julian_day(y, 1), 3);
    assert(jan4 == julian_day(y, 1) + 3);
    let w = weekday_index(jan4);
    let w1 = weekday_index(julian_day(y, 1));
    assert(0 <= w1 < 7);
    assert(w == (w1 + 3) % 7);
    if w1 < 4 {
        lemma_fundamental_div_mod_converse(w1 + 3, 7, 0, w1 + 3);
    } else {
        lemma_fundamental_div_mod_converse(w1 + 3, 7, 1, w1 - 4);
    }
    if w + e < 7 {
        lemma_fundamental_div_mod_converse(w + e, 7, 0, w + e);
    } else {
        lemma_fundamental_div_mod_converse(w + e, 7, 1, w + e - 7);
    }
}

/// Later ISO years start later.
pub proof fn lemma_iso_year_start_mono(a: int, b: int)
    requires
        a < b,
    ensures
        iso_year_start(a) + 7 * iso_weeks_in_year(a) <= iso_year_start(b),
    decreases b - a,
{
    lemma_iso_year_step(a);
    if a + 1 < b {
        lemma_iso_year_start_mono(a + 1, b);
    }
}

/// Valid ISO week dates name distinct days.
pub proof fn lemma_iso_julian_day_injective(y1: int, w1: int, d1: int, y2: int, w2: int, d2: int)
    requires
        1 <= w1 <= iso_weeks_in_year(y1),
        1 <= w2 <= iso_weeks_in_year(y2),
        1 <= d1 <= 7,
        1 <= d2 <= 7,
        iso_julian_day(y1, w1, d1) == iso_julian_day(y2, w2, d2),
    ensures
        y1 == y2,
        w1 == w2,
        d1 == d2,
{
    if y1 < y2 {
        lemma_iso_year_start_mono(y1, y2);
    } else if y2 < y1 {
        lemma_iso_year_start_mono(y2, y1);
    }
}

/// Whether `year` is a leap year.
pub fn is_leap_year(year: i32) -> (r: bool)
    ensures
        r == is_leap(year as int),
{
    let a = year as i64 + 4_000_000;
    proof {
        lemma_div_shift(year as int, 1_000_000, 4);
        lemma_div_shift(year as int, 40_000, 100);
        lemma_div_shift(year as int, 10_000, 400);
    }
    a % 4 == 0 && (a % 100 != 0 || a % 400 == 0)
}

/// Number of days in `year`.
pub fn days_in_year(year: i32) -> (r: u16)
    ensures
        r as int == year_length(year as int),
{
    if is_leap_year(year) {
        366
    } else {
        365
    }
}

/// Days from 0001-01-01 to January 1st of `year`.
pub fn days_before_year_exec(year: i32) -> (r: i32)
    requires
        MIN_YEAR - 1 <= year <= MAX_YEAR + 1,
    ensures
        r as int == days_before_year(year as int),
        -3_700_000 <= r <= 3_700_000,
{
    // Shift by a multiple of 400 years so that every division sees a
    // non-negative operand.
    let adj: u64 = (year as i64 + 999_999) as u64;
    let century = adj / 100;
    let r = (1461 * adj / 4) as i64 - century as i64 + (century / 4) as i64 - 365_242_500;
    proof {
        let p = year as int - 1;
        assert(adj == p + 1_000_000);
        lemma_div_shift(p, 250_000, 4);
        lemma_div_shift(p, 10_000, 100);
        lemma_div_shift(p, 2_500, 400);
        lemma_div_shift(adj as int, 365 * adj as int, 4);
        assert(1461 * adj == adj + (365 * adj) * 4);
        vstd::arithmetic::div_mod::lemma_div_denominator(adj as int, 100, 4);
        assert(century / 4 == adj as int / 400);
        assert(-10_001 <= p <= 9_999);
        assert(-2501 <= p / 4 <= 2499) by {
            vstd::arithmetic::div_mod::lemma_div_is_ordered(-10_001int, p, 4);
            vstd::arithmetic::div_mod::lemma_div_is_ordered(p, 9_999int, 4);
        }
        assert(-101 <= p / 100 <= 99) by {
            vstd::arithmetic::div_mod::lemma_div_is_ordered(-10_001int, p, 100);
            vstd::arithmetic::div_mod::lemma_div_is_ordered(p, 9_999int, 100);
        }
        assert(-26 <= p / 400 <= 24) by {
            vstd::arithmetic::div_mod::lemma_div_is_ordered(-10_001int, p, 400);
            vstd::arithmetic::div_mod::lemma_div_is_ordered(p, 9_999int, 400);
        }
    }
    r as i32
}

/// Days after Monday of the weekday of Julian day `jd`.
pub fn weekday_of_julian_day(jd: i32) -> (r: u8)
    requires
        -2_000_000 <= jd <= 6_000_000,
    ensures
        r as int == weekday_index(jd as int),
        r < 7,
{
    // A whole number of weeks keeps the weekday and makes the operand
    // non-negative.
    let shifted: i32 = jd + 7 * 300_000;
    proof {
        lemma_weekday_step(jd as int, 300_000);
    }
    (shifted % 7) as u8
}

/// Number of ISO weeks in `year`: 52 or 53.
pub fn weeks_in_year(year: i32) -> (r: u8)
    requires
        MIN_YEAR - 1 <= year <= MAX_YEAR + 1,
    ensures
        r as int == iso_weeks_in_year(year as int),
{
    let jan1 = weekday_of_julian_day(days_before_year_exec(year) + 1 + 1_721_425);
    if jan1 == 3 || (jan1 == 2 && is_leap_year(year)) {
        53
    } else {
        52
    }
}

} // verus!
