//! The components of a format description: their names, their modifiers,
//! and the defaults that apply when a modifier is not given.
use crate::combinator::{digits_value, is_digit, n_to_m_digits};
use crate::format_item::Component;
use crate::modifier;
use crate::modifier::Padding;
use crate::words::{
    is_automatic, is_base, is_calendar, is_case, is_case_sensitive, is_century, is_count, is_day, is_digits, is_eight, is_end, is_extended, is_false, is_five, is_four, is_full, is_hour, is_ignore, is_iso, is_iso_week, is_last_two, is_long, is_lower, is_mandatory, is_microsecond, is_millisecond, is_minute, is_monday, is_month, is_nanosecond, is_nine, is_none, is_numerical, is_offset_hour, is_offset_minute, is_offset_second, is_one, is_one_indexed, is_one_or_more, is_ordinal, is_padding, is_period, is_precision, is_range, is_repr, is_second, is_seven, is_short, is_sign, is_six, is_space, is_standard, is_subsecond, is_sunday, is_three, is_true, is_twelve, is_twenty_four, is_two, is_unix_timestamp, is_upper, is_week_number, is_weekday, is_year, is_zero, word_automatic, word_base, word_calendar, word_case, word_case_sensitive, word_century, word_count, word_day, word_digits, word_eight, word_end, word_extended, word_false, word_five, word_four, word_full, word_hour, word_ignore, word_iso, word_iso_week, word_last_two, word_long, word_lower, word_mandatory, word_microsecond, word_millisecond, word_minute, word_monday, word_month, word_nanosecond, word_nine, word_none, word_numerical, word_offset_hour, word_offset_minute, word_offset_second, word_one, word_one_indexed, word_one_or_more, word_ordinal, word_padding, word_period, word_precision, word_range, word_repr, word_second, word_seven, word_short, word_sign, word_six, word_space, word_standard, word_subsecond, word_sunday, word_three, word_true, word_twelve, word_twenty_four, word_two, word_unix_timestamp, word_upper, word_week_number, word_weekday, word_year, word_zero,
};
use vstd::prelude::*;

verus! {

/// The value that the word `v` stands for, for a modifier of this kind.
pub open spec fn padding_value(v: Seq<u8>) -> Option<Padding> {
    if v == word_space() {
        Some(Padding::Space)
    } else if v == word_zero() {
        Some(Padding::Zero)
    } else if v == word_none() {
        Some(Padding::Unpadded)
    } else {
        None
    }
}

fn padding_value_exec(v: &[u8]) -> (r: Option<Padding>)
    ensures
        r == padding_value(v@),
{
    if is_space(v) {
        Some(Padding::Space)
    } else if is_zero(v) {
        Some(Padding::Zero)
    } else if is_none(v) {
        Some(Padding::Unpadded)
    } else {
        None
    }
}

/// The value that the word `v` stands for, for a modifier of this kind.
pub open spec fn bool_value(v: Seq<u8>) -> Option<bool> {
    if v == word_true() {
        Some(true)
    } else if v == word_false() {
        Some(false)
    } else {
        None
    }
}

fn bool_value_exec(v: &[u8]) -> (r: Option<bool>)
    ensures
        r == bool_value(v@),
{
    if is_true(v) {
        Some(true)
    } else if is_false(v) {
        Some(false)
    } else {
        None
    }
}

/// The value that the word `v` stands for, for a modifier of this kind.
pub open spec fn month_repr_value(v: Seq<u8>) -> Option<modifier::MonthRepr> {
    if v == word_numerical() {
        Some(modifier::MonthRepr::Numerical)
    } else if v == word_long() {
        Some(modifier::MonthRepr::Long)
    } else if v == word_short() {
        Some(modifier::MonthRepr::Short)
    } else {
        None
    }
}

fn month_repr_value_exec(v: &[u8]) -> (r: Option<modifier::MonthRepr>)
    ensures
        r == month_repr_value(v@),
{
    if is_numerical(v) {
        Some(modifier::MonthRepr::Numerical)
    } else if is_long(v) {
        Some(modifier::MonthRepr::Long)
    } else if is_short(v) {
        Some(modifier::MonthRepr::Short)
    } else {
        None
    }
}

/// The value that the word `v` stands for, for a modifier of this kind.
pub open spec fn weekday_repr_value(v: Seq<u8>) -> Option<modifier::WeekdayRepr> {
    if v == word_short() {
        Some(modifier::WeekdayRepr::Short)
    } else if v == word_long() {
        Some(modifier::WeekdayRepr::Long)
    } else if v == word_sunday() {
        Some(modifier::WeekdayRepr::Sunday)
    } else if v == word_monday() {
        Some(modifier::WeekdayRepr::Monday)
    } else {
        None
    }
}

fn weekday_repr_value_exec(v: &[u8]) -> (r: Option<modifier::WeekdayRepr>)
    ensures
        r == weekday_repr_value(v@),
{
    if is_short(v) {
        Some(modifier::WeekdayRepr::Short)
    } else if is_long(v) {
        Some(modifier::WeekdayRepr::Long)
    } else if is_sunday(v) {
        Some(modifier::WeekdayRepr::Sunday)
    } else if is_monday(v) {
        Some(modifier::WeekdayRepr::Monday)
    } else {
        None
    }
}

/// The value that the word `v` stands for, for a modifier of this kind.
pub open spec fn week_number_repr_value(v: Seq<u8>) -> Option<modifier::WeekNumberRepr> {
    if v == word_iso() {
        Some(modifier::WeekNumberRepr::Iso)
    } else if v == word_sunday() {
        Some(modifier::WeekNumberRepr::Sunday)
    } else if v == word_monday() {
        Some(modifier::WeekNumberRepr::Monday)
    } else {
        None
    }
}

fn week_number_repr_value_exec(v: &[u8]) -> (r: Option<modifier::WeekNumberRepr>)
    ensures
        r == week_number_repr_value(v@),
{
    if is_iso(v) {
        Some(modifier::WeekNumberRepr::Iso)
    } else if is_sunday(v) {
        Some(modifier::WeekNumberRepr::Sunday)
    } else if is_monday(v) {
        Some(modifier::WeekNumberRepr::Monday)
    } else {
        None
    }
}

/// The value that the word `v` stands for, for a modifier of this kind.
pub open spec fn year_repr_value(v: Seq<u8>) -> Option<modifier::YearRepr> {
    if v == word_full() {
        Some(modifier::YearRepr::Full)
    } else if v == word_century() {
        Some(modifier::YearRepr::Century)
    } else if v == word_last_two() {
        Some(modifier::YearRepr::LastTwo)
    } else {
        None
    }
}

fn year_repr_value_exec(v: &[u8]) -> (r: Option<modifier::YearRepr>)
    ensures
        r == year_repr_value(v@),
{
    if is_full(v) {
        Some(modifier::YearRepr::Full)
    } else if is_century(v) {
        Some(modifier::YearRepr::Century)
    } else if is_last_two(v) {
        Some(modifier::YearRepr::LastTwo)
    } else {
        None
    }
}

/// The value that the word `v` stands for, for a modifier of this kind.
pub open spec fn year_range_value(v: Seq<u8>) -> Option<modifier::YearRange> {
    if v == word_standard() {
        Some(modifier::YearRange::Standard)
    } else if v == word_extended() {
        Some(modifier::YearRange::Extended)
    } else {
        None
    }
}

fn year_range_value_exec(v: &[u8]) -> (r: Option<modifier::YearRange>)
    ensures
        r == year_range_value(v@),
{
    if is_standard(v) {
        Some(modifier::YearRange::Standard)
    } else if is_extended(v) {
        Some(modifier::YearRange::Extended)
    } else {
        None
    }
}

/// The value that the word `v` stands for, for a modifier of this kind.
pub open spec fn year_base_value(v: Seq<u8>) -> Option<bool> {
    if v == word_calendar() {
        Some(false)
    } else if v == word_iso_week() {
        Some(true)
    } else {
        None
    }
}

fn year_base_value_exec(v: &[u8]) -> (r: Option<bool>)
    ensures
        r == year_base_value(v@),
{
    if is_calendar(v) {
        Some(false)
    } else if is_iso_week(v) {
        Some(true)
    } else {
        None
    }
}

/// The value that the word `v` stands for, for a modifier of this kind.
pub open spec fn sign_value(v: Seq<u8>) -> Option<bool> {
    if v == word_automatic() {
        Some(false)
    } else if v == word_mandatory() {
        Some(true)
    } else {
        None
    }
}

fn sign_value_exec(v: &[u8]) -> (r: Option<bool>)
    ensures
        r == sign_value(v@),
{
    if is_automatic(v) {
        Some(false)
    } else if is_mandatory(v) {
        Some(true)
    } else {
        None
    }
}

/// The value that the word `v` stands for, for a modifier of this kind.
pub open spec fn hour_repr_value(v: Seq<u8>) -> Option<bool> {
    if v == word_twenty_four() {
        Some(false)
    } else if v == word_twelve() {
        Some(true)
    } else {
        None
    }
}

fn hour_repr_value_exec(v: &[u8]) -> (r: Option<bool>)
    ensures
        r == hour_repr_value(v@),
{
    if is_twenty_four(v) {
        Some(false)
    } else if is_twelve(v) {
        Some(true)
    } else {
        None
    }
}

/// The value that the word `v` stands for, for a modifier of this kind.
pub open spec fn case_value(v: Seq<u8>) -> Option<bool> {
    if v == word_upper() {
        Some(true)
    } else if v == word_lower() {
        Some(false)
    } else {
        None
    }
}

fn case_value_exec(v: &[u8]) -> (r: Option<bool>)
    ensures
        r == case_value(v@),
{
    if is_upper(v) {
        Some(true)
    } else if is_lower(v) {
        Some(false)
    } else {
        None
    }
}

/// The value that the word `v` stands for, for a modifier of this kind.
pub open spec fn subsecond_digits_value(v: Seq<u8>) -> Option<modifier::SubsecondDigits> {
    if v == word_one() {
        Some(modifier::SubsecondDigits::One)
    } else if v == word_two() {
        Some(modifier::SubsecondDigits::Two)
    } else if v == word_three() {
        Some(modifier::SubsecondDigits::Three)
    } else if v == word_four() {
        Some(modifier::SubsecondDigits::Four)
    } else if v == word_five() {
        Some(modifier::SubsecondDigits::Five)
    } else if v == word_six() {
        Some(modifier::SubsecondDigits::Six)
    } else if v == word_seven() {
        Some(modifier::SubsecondDigits::Seven)
    } else if v == word_eight() {
        Some(modifier::SubsecondDigits::Eight)
    } else if v == word_nine() {
        Some(modifier::SubsecondDigits::Nine)
    } else if v == word_one_or_more() {
        Some(modifier::SubsecondDigits::OneOrMore)
    } else {
        None
    }
}

fn subsecond_digits_value_exec(v: &[u8]) -> (r: Option<modifier::SubsecondDigits>)
    ensures
        r == subsecond_digits_value(v@),
{
    if is_one(v) {
        Some(modifier::SubsecondDigits::One)
    } else if is_two(v) {
        Some(modifier::SubsecondDigits::Two)
    } else if is_three(v) {
        Some(modifier::SubsecondDigits::Three)
    } else if is_four(v) {
        Some(modifier::SubsecondDigits::Four)
    } else if is_five(v) {
        Some(modifier::SubsecondDigits::Five)
    } else if is_six(v) {
        Some(modifier::SubsecondDigits::Six)
    } else if is_seven(v) {
        Some(modifier::SubsecondDigits::Seven)
    } else if is_eight(v) {
        Some(modifier::SubsecondDigits::Eight)
    } else if is_nine(v) {
        Some(modifier::SubsecondDigits::Nine)
    } else if is_one_or_more(v) {
        Some(modifier::SubsecondDigits::OneOrMore)
    } else {
        None
    }
}

/// The value that the word `v` stands for, for a modifier of this kind.
pub open spec fn precision_value(v: Seq<u8>) -> Option<modifier::UnixTimestampPrecision> {
    if v == word_second() {
        Some(modifier::UnixTimestampPrecision::Second)
    } else if v == word_millisecond() {
        Some(modifier::UnixTimestampPrecision::Millisecond)
    } else if v == word_microsecond() {
        Some(modifier::UnixTimestampPrecision::Microsecond)
    } else if v == word_nanosecond() {
        Some(modifier::UnixTimestampPrecision::Nanosecond)
    } else {
        None
    }
}

fn precision_value_exec(v: &[u8]) -> (r: Option<modifier::UnixTimestampPrecision>)
    ensures
        r == precision_value(v@),
{
    if is_second(v) {
        Some(modifier::UnixTimestampPrecision::Second)
    } else if is_millisecond(v) {
        Some(modifier::UnixTimestampPrecision::Millisecond)
    } else if is_microsecond(v) {
        Some(modifier::UnixTimestampPrecision::Microsecond)
    } else if is_nanosecond(v) {
        Some(modifier::UnixTimestampPrecision::Nanosecond)
    } else {
        None
    }
}

/// The value of a `count` modifier: a decimal number from 1 to 65535.
pub open spec fn count_value(v: Seq<u8>) -> Option<u16> {
    if 1 <= v.len() <= 5 && (forall|i: int| 0 <= i < v.len() ==> is_digit(#[trigger] v[i])) && 1
        <= digits_value(v) <= 65535 {
        Some(digits_value(v) as u16)
    } else {
        None
    }
}

fn count_value_exec(v: &[u8]) -> (r: Option<u16>)
    ensures
        r == count_value(v@),
{
    if v.len() < 1 || v.len() > 5 {
        return None;
    }
    match n_to_m_digits(v, v.len(), v.len()) {
        Some(parsed) => {
            proof {
                let k = choose|k: int| #[trigger] crate::combinator::digit_run(v@, k, v@.len() as int);
                assert(v@.subrange(0, v@.len() as int) =~= v@);
            }
            if parsed.1 >= 1 && parsed.1 <= 65535 {
                Some(parsed.1 as u16)
            } else {
                None
            }
        },
        None => {
            proof {
                if forall|i: int| 0 <= i < v@.len() ==> is_digit(#[trigger] v@[i]) {
                    assert(crate::combinator::digit_run(v@, v@.len() as int, v@.len() as int));
                }
            }
            None
        },
    }
}

/// The component called `name`, with every modifier at its default.
pub open spec fn component_named(name: Seq<u8>) -> Option<Component> {
    if name == word_day() {
        Some(Component::Day(modifier::Day { padding: Padding::Zero }))
    } else if name == word_month() {
        Some(Component::Month(modifier::Month { padding: Padding::Zero, repr: modifier::MonthRepr::Numerical, case_sensitive: true }))
    } else if name == word_ordinal() {
        Some(Component::Ordinal(modifier::Ordinal { padding: Padding::Zero }))
    } else if name == word_weekday() {
        Some(Component::Weekday(modifier::Weekday { repr: modifier::WeekdayRepr::Long, one_indexed: true, case_sensitive: true }))
    } else if name == word_week_number() {
        Some(Component::WeekNumber(modifier::WeekNumber { padding: Padding::Zero, repr: modifier::WeekNumberRepr::Iso }))
    } else if name == word_year() {
        Some(Component::Year(modifier::Year { padding: Padding::Zero, repr: modifier::YearRepr::Full, range: modifier::YearRange::Extended, iso_week_based: false, sign_is_mandatory: false }))
    } else if name == word_hour() {
        Some(Component::Hour(modifier::Hour { padding: Padding::Zero, is_12_hour_clock: false }))
    } else if name == word_minute() {
        Some(Component::Minute(modifier::Minute { padding: Padding::Zero }))
    } else if name == word_period() {
        Some(Component::Period(modifier::Period { is_uppercase: true, case_sensitive: true }))
    } else if name == word_second() {
        Some(Component::Second(modifier::Second { padding: Padding::Zero }))
    } else if name == word_subsecond() {
        Some(Component::Subsecond(modifier::Subsecond { digits: modifier::SubsecondDigits::OneOrMore }))
    } else if name == word_offset_hour() {
        Some(Component::OffsetHour(modifier::OffsetHour { sign_is_mandatory: false, padding: Padding::Zero }))
    } else if name == word_offset_minute() {
        Some(Component::OffsetMinute(modifier::OffsetMinute { padding: Padding::Zero }))
    } else if name == word_offset_second() {
        Some(Component::OffsetSecond(modifier::OffsetSecond { padding: Padding::Zero }))
    } else if name == word_ignore() {
        Some(Component::Ignore(modifier::Ignore { count: 0 }))
    } else if name == word_unix_timestamp() {
        Some(Component::UnixTimestamp(modifier::UnixTimestamp { precision: modifier::UnixTimestampPrecision::Second, sign_is_mandatory: false }))
    } else if name == word_end() {
        Some(Component::End(modifier::End {}))
    } else {
        None
    }
}

/// The component called `name`, with every modifier at its default.
pub fn component_named_exec(name: &[u8]) -> (r: Option<Component>)
    ensures
        r == component_named(name@),
{
    if is_day(name) {
        Some(Component::Day(modifier::Day { padding: Padding::Zero }))
    } else if is_month(name) {
        Some(Component::Month(modifier::Month { padding: Padding::Zero, repr: modifier::MonthRepr::Numerical, case_sensitive: true }))
    } else if is_ordinal(name) {
        Some(Component::Ordinal(modifier::Ordinal { padding: Padding::Zero }))
    } else if is_weekday(name) {
        Some(Component::Weekday(modifier::Weekday { repr: modifier::WeekdayRepr::Long, one_indexed: true, case_sensitive: true }))
    } else if is_week_number(name) {
        Some(Component::WeekNumber(modifier::WeekNumber { padding: Padding::Zero, repr: modifier::WeekNumberRepr::Iso }))
    } else if is_year(name) {
        Some(Component::Year(modifier::Year { padding: Padding::Zero, repr: modifier::YearRepr::Full, range: modifier::YearRange::Extended, iso_week_based: false, sign_is_mandatory: false }))
    } else if is_hour(name) {
        Some(Component::Hour(modifier::Hour { padding: Padding::Zero, is_12_hour_clock: false }))
    } else if is_minute(name) {
        Some(Component::Minute(modifier::Minute { padding: Padding::Zero }))
    } else if is_period(name) {
        Some(Component::Period(modifier::Period { is_uppercase: true, case_sensitive: true }))
    } else if is_second(name) {
        Some(Component::Second(modifier::Second { padding: Padding::Zero }))
    } else if is_subsecond(name) {
        Some(Component::Subsecond(modifier::Subsecond { digits: modifier::SubsecondDigits::OneOrMore }))
    } else if is_offset_hour(name) {
        Some(Component::OffsetHour(modifier::OffsetHour { sign_is_mandatory: false, padding: Padding::Zero }))
    } else if is_offset_minute(name) {
        Some(Component::OffsetMinute(modifier::OffsetMinute { padding: Padding::Zero }))
    } else if is_offset_second(name) {
        Some(Component::OffsetSecond(modifier::OffsetSecond { padding: Padding::Zero }))
    } else if is_ignore(name) {
        Some(Component::Ignore(modifier::Ignore { count: 0 }))
    } else if is_unix_timestamp(name) {
        Some(Component::UnixTimestamp(modifier::UnixTimestamp { precision: modifier::UnixTimestampPrecision::Second, sign_is_mandatory: false }))
    } else if is_end(name) {
        Some(Component::End(modifier::End {}))
    } else {
        None
    }
}

/// `c` with modifier `key` set to `value`; nothing when the component has no
/// such modifier, or the value is not one that the modifier takes.
pub open spec fn apply_modifier(c: Component, key: Seq<u8>, value: Seq<u8>) -> Option<Component> {
    match c {
        Component::Day(m) => {
            if key == word_padding() {
                match padding_value(value) {
                    Some(x) => Some(Component::Day(modifier::Day { padding: x, ..m })),
                    None => None,
                }
            } else {
                None
            }
        },
        Component::Month(m) => {
            if key == word_padding() {
                match padding_value(value) {
                    Some(x) => Some(Component::Month(modifier::Month { padding: x, ..m })),
                    None => None,
                }
            } else if key == word_repr() {
                match month_repr_value(value) {
                    Some(x) => Some(Component::Month(modifier::Month { repr: x, ..m })),
                    None => None,
                }
            } else if key == word_case_sensitive() {
                match bool_value(value) {
                    Some(x) => Some(Component::Month(modifier::Month { case_sensitive: x, ..m })),
                    None => None,
                }
            } else {
                None
            }
        },
        Component::Ordinal(m) => {
            if key == word_padding() {
                match padding_value(value) {
                    Some(x) => Some(Component::Ordinal(modifier::Ordinal { padding: x, ..m })),
                    None => None,
                }
            } else {
                None
            }
        },
        Component::Weekday(m) => {
            if key == word_repr() {
                match weekday_repr_value(value) {
                    Some(x) => Some(Component::Weekday(modifier::Weekday { repr: x, ..m })),
                    None => None,
                }
            } else if key == word_one_indexed() {
                match bool_value(value) {
                    Some(x) => Some(Component::Weekday(modifier::Weekday { one_indexed: x, ..m })),
                    None => None,
                }
            } else if key == word_case_sensitive() {
                match bool_value(value) {
                    Some(x) => Some(Component::Weekday(modifier::Weekday { case_sensitive: x, ..m })),
                    None => None,
                }
            } else {
                None
            }
        },
        Component::WeekNumber(m) => {
            if key == word_padding() {
                match padding_value(value) {
                    Some(x) => Some(Component::WeekNumber(modifier::WeekNumber { padding: x, ..m })),
                    None => None,
                }
            } else if key == word_repr() {
                match week_number_repr_value(value) {
                    Some(x) => Some(Component::WeekNumber(modifier::WeekNumber { repr: x, ..m })),
                    None => None,
                }
            } else {
                None
            }
        },
        Component::Year(m) => {
            if key == word_padding() {
                match padding_value(value) {
                    Some(x) => Some(Component::Year(modifier::Year { padding: x, ..m })),
                    None => None,
                }
            } else if key == word_repr() {
                match year_repr_value(value) {
                    Some(x) => Some(Component::Year(modifier::Year { repr: x, ..m })),
                    None => None,
                }
            } else if key == word_range() {
                match year_range_value(value) {
                    Some(x) => Some(Component::Year(modifier::Year { range: x, ..m })),
                    None => None,
                }
            } else if key == word_base() {
                match year_base_value(value) {
                    Some(x) => Some(Component::Year(modifier::Year { iso_week_based: x, ..m })),
                    None => None,
                }
            } else if key == word_sign() {
                match sign_value(value) {
                    Some(x) => Some(Component::Year(modifier::Year { sign_is_mandatory: x, ..m })),
                    None => None,
                }
            } else {
                None
            }
        },
        Component::Hour(m) => {
            if key == word_padding() {
                match padding_value(value) {
                    Some(x) => Some(Component::Hour(modifier::Hour { padding: x, ..m })),
                    None => None,
                }
            } else if key == word_repr() {
                match hour_repr_value(value) {
                    Some(x) => Some(Component::Hour(modifier::Hour { is_12_hour_clock: x, ..m })),
                    None => None,
                }
            } else {
                None
            }
        },
        Component::Minute(m) => {
            if key == word_padding() {
                match padding_value(value) {
                    Some(x) => Some(Component::Minute(modifier::Minute { padding: x, ..m })),
                    None => None,
                }
            } else {
                None
            }
        },
        Component::Period(m) => {
            if key == word_case() {
                match case_value(value) {
                    Some(x) => Some(Component::Period(modifier::Period { is_uppercase: x, ..m })),
                    None => None,
                }
            } else if key == word_case_sensitive() {
                match bool_value(value) {
                    Some(x) => Some(Component::Period(modifier::Period { case_sensitive: x, ..m })),
                    None => None,
                }
            } else {
                None
            }
        },
        Component::Second(m) => {
            if key == word_padding() {
                match padding_value(value) {
                    Some(x) => Some(Component::Second(modifier::Second { padding: x, ..m })),
                    None => None,
                }
            } else {
                None
            }
        },
        Component::Subsecond(m) => {
            if key == word_digits() {
                match subsecond_digits_value(value) {
                    Some(x) => Some(Component::Subsecond(modifier::Subsecond { digits: x, ..m })),
                    None => None,
                }
            } else {
                None
            }
        },
        Component::OffsetHour(m) => {
            if key == word_sign() {
                match sign_value(value) {
                    Some(x) => Some(Component::OffsetHour(modifier::OffsetHour { sign_is_mandatory: x, ..m })),
                    None => None,
                }
            } else if key == word_padding() {
                match padding_value(value) {
                    Some(x) => Some(Component::OffsetHour(modifier::OffsetHour { padding: x, ..m })),
                    None => None,
                }
            } else {
                None
            }
        },
        Component::OffsetMinute(m) => {
            if key == word_padding() {
                match padding_value(value) {
                    Some(x) => Some(Component::OffsetMinute(modifier::OffsetMinute { padding: x, ..m })),
                    None => None,
                }
            } else {
                None
            }
        },
        Component::OffsetSecond(m) => {
            if key == word_padding() {
                match padding_value(value) {
                    Some(x) => Some(Component::OffsetSecond(modifier::OffsetSecond { padding: x, ..m })),
                    None => None,
                }
            } else {
                None
            }
        },
        Component::Ignore(m) => if key == word_count() {
            match count_value(value) {
                Some(n) => Some(Component::Ignore(modifier::Ignore { count: n })),
                None => None,
            }
        } else {
            None
        },
        Component::UnixTimestamp(m) => {
            if key == word_precision() {
                match precision_value(value) {
                    Some(x) => Some(Component::UnixTimestamp(modifier::UnixTimestamp { precision: x, ..m })),
                    None => None,
                }
            } else if key == word_sign() {
                match sign_value(value) {
                    Some(x) => Some(Component::UnixTimestamp(modifier::UnixTimestamp { sign_is_mandatory: x, ..m })),
                    None => None,
                }
            } else {
                None
            }
        },
        Component::End(m) => None,
    }
}

/// `c` with modifier `key` set to `value`, when that is a modifier of the
/// component and a value it takes.
pub fn apply_modifier_exec(c: Component, key: &[u8], value: &[u8]) -> (r: Option<Component>)
    ensures
        r == apply_modifier(c, key@, value@),
{
    match c {
        Component::Day(m) => {
            if is_padding(key) {
                match padding_value_exec(value) {
                    Some(x) => Some(Component::Day(modifier::Day { padding: x, ..m })),
                    None => None,
                }
            } else {
                None
            }
        },
        Component::Month(m) => {
            if is_padding(key) {
                match padding_value_exec(value) {
                    Some(x) => Some(Component::Month(modifier::Month { padding: x, ..m })),
                    None => None,
                }
            } else if is_repr(key) {
                match month_repr_value_exec(value) {
                    Some(x) => Some(Component::Month(modifier::Month { repr: x, ..m })),
                    None => None,
                }
            } else if is_case_sensitive(key) {
                match bool_value_exec(value) {
                    Some(x) => Some(Component::Month(modifier::Month { case_sensitive: x, ..m })),
                    None => None,
                }
            } else {
                None
            }
        },
        Component::Ordinal(m) => {
            if is_padding(key) {
                match padding_value_exec(value) {
                    Some(x) => Some(Component::Ordinal(modifier::Ordinal { padding: x, ..m })),
                    None => None,
                }
            } else {
                None
            }
        },
        Component::Weekday(m) => {
            if is_repr(key) {
                match weekday_repr_value_exec(value) {
                    Some(x) => Some(Component::Weekday(modifier::Weekday { repr: x, ..m })),
                    None => None,
                }
            } else if is_one_indexed(key) {
                match bool_value_exec(value) {
                    Some(x) => Some(Component::Weekday(modifier::Weekday { one_indexed: x, ..m })),
                    None => None,
                }
            } else if is_case_sensitive(key) {
                match bool_value_exec(value) {
                    Some(x) => Some(Component::Weekday(modifier::Weekday { case_sensitive: x, ..m })),
                    None => None,
                }
            } else {
                None
            }
        },
        Component::WeekNumber(m) => {
            if is_padding(key) {
                match padding_value_exec(value) {
                    Some(x) => Some(Component::WeekNumber(modifier::WeekNumber { padding: x, ..m })),
                    None => None,
                }
            } else if is_repr(key) {
                match week_number_repr_value_exec(value) {
                    Some(x) => Some(Component::WeekNumber(modifier::WeekNumber { repr: x, ..m })),
                    None => None,
                }
            } else {
                None
            }
        },
        Component::Year(m) => {
            if is_padding(key) {
                match padding_value_exec(value) {
                    Some(x) => Some(Component::Year(modifier::Year { padding: x, ..m })),
                    None => None,
                }
            } else if is_repr(key) {
                match year_repr_value_exec(value) {
                    Some(x) => Some(Component::Year(modifier::Year { repr: x, ..m })),
                    None => None,
                }
            } else if is_range(key) {
                match year_range_value_exec(value) {
                    Some(x) => Some(Component::Year(modifier::Year { range: x, ..m })),
                    None => None,
                }
            } else if is_base(key) {
                match year_base_value_exec(value) {
                    Some(x) => Some(Component::Year(modifier::Year { iso_week_based: x, ..m })),
                    None => None,
                }
            } else if is_sign(key) {
                match sign_value_exec(value) {
                    Some(x) => Some(Component::Year(modifier::Year { sign_is_mandatory: x, ..m })),
                    None => None,
                }
            } else {
                None
            }
        },
        Component::Hour(m) => {
            if is_padding(key) {
                match padding_value_exec(value) {
                    Some(x) => Some(Component::Hour(modifier::Hour { padding: x, ..m })),
                    None => None,
                }
            } else if is_repr(key) {
                match hour_repr_value_exec(value) {
                    Some(x) => Some(Component::Hour(modifier::Hour { is_12_hour_clock: x, ..m })),
                    None => None,
                }
            } else {
                None
            }
        },
        Component::Minute(m) => {
            if is_padding(key) {
                match padding_value_exec(value) {
                    Some(x) => Some(Component::Minute(modifier::Minute { padding: x, ..m })),
                    None => None,
                }
            } else {
                None
            }
        },
        Component::Period(m) => {
            if is_case(key) {
                match case_value_exec(value) {
                    Some(x) => Some(Component::Period(modifier::Period { is_uppercase: x, ..m })),
                    None => None,
                }
            } else if is_case_sensitive(key) {
                match bool_value_exec(value) {
                    Some(x) => Some(Component::Period(modifier::Period { case_sensitive: x, ..m })),
                    None => None,
                }
            } else {
                None
            }
        },
        Component::Second(m) => {
            if is_padding(key) {
                match padding_value_exec(value) {
                    Some(x) => Some(Component::Second(modifier::Second { padding: x, ..m })),
                    None => None,
                }
            } else {
                None
            }
        },
        Component::Subsecond(m) => {
            if is_digits(key) {
                match subsecond_digits_value_exec(value) {
                    Some(x) => Some(Component::Subsecond(modifier::Subsecond { digits: x, ..m })),
                    None => None,
                }
            } else {
                None
            }
        },
        Component::OffsetHour(m) => {
            if is_sign(key) {
                match sign_value_exec(value) {
                    Some(x) => Some(Component::OffsetHour(modifier::OffsetHour { sign_is_mandatory: x, ..m })),
                    None => None,
                }
            } else if is_padding(key) {
                match padding_value_exec(value) {
                    Some(x) => Some(Component::OffsetHour(modifier::OffsetHour { padding: x, ..m })),
                    None => None,
                }
            } else {
                None
            }
        },
        Component::OffsetMinute(m) => {
            if is_padding(key) {
                match padding_value_exec(value) {
                    Some(x) => Some(Component::OffsetMinute(modifier::OffsetMinute { padding: x, ..m })),
                    None => None,
                }
            } else {
                None
            }
        },
        Component::OffsetSecond(m) => {
            if is_padding(key) {
                match padding_value_exec(value) {
                    Some(x) => Some(Component::OffsetSecond(modifier::OffsetSecond { padding: x, ..m })),
                    None => None,
                }
            } else {
                None
            }
        },
        Component::Ignore(_) => if is_count(key) {
            match count_value_exec(value) {
                Some(n) => Some(Component::Ignore(modifier::Ignore { count: n })),
                None => None,
            }
        } else {
            None
        },
        Component::UnixTimestamp(m) => {
            if is_precision(key) {
                match precision_value_exec(value) {
                    Some(x) => Some(Component::UnixTimestamp(modifier::UnixTimestamp { precision: x, ..m })),
                    None => None,
                }
            } else if is_sign(key) {
                match sign_value_exec(value) {
                    Some(x) => Some(Component::UnixTimestamp(modifier::UnixTimestamp { sign_is_mandatory: x, ..m })),
                    None => None,
                }
            } else {
                None
            }
        },
        Component::End(_) => None,
    }
}

} // verus!
