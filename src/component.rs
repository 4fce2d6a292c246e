//! Parsers for each component of a format description: each reads a prefix
//! of its input and gives the value read and the input that is left, or
//! nothing when the input does not hold the component.
use crate::combinator::{
    digit_run, digits_value, exactly_n_digits, exactly_n_digits_padded, is_digit,
    lemma_digits_value_bound, lemma_pow10_mono, lemma_pow10_positive,
    n_to_m_digits_padded, padded_digits, pow10, sign, ParsedItem, MINUS, NINE, PLUS, ZERO,
};
use crate::modifier;
use crate::modifier::Padding;
use crate::month::{month_of_number, Month};
use crate::names::{
    month_long_names, month_long_table, month_short_names, month_short_table,
    period_lower_names, period_lower_table, period_upper_names, period_upper_table,
    view_names, weekday_long_names, weekday_long_table, weekday_monday_one_names,
    weekday_monday_one_table, weekday_monday_zero_names, weekday_monday_zero_table,
    weekday_short_names, weekday_short_table, weekday_sunday_one_names,
    weekday_sunday_one_table, weekday_sunday_zero_names, weekday_sunday_zero_table,
};
use crate::weekday::{weekday_of_index, Weekday};
use vstd::prelude::*;

verus! {

/// Whether an hour is before or after noon.
#[derive(Debug, Clone, Copy, PartialEq, Eq, Hash, Structural)]
pub enum Period {
    Am,
    Pm,
}

/// What a parse gave, as the input left and the value.
pub open spec fn outcome<'a, T>(r: Option<ParsedItem<'a, T>>) -> Option<(Seq<u8>, T)> {
    match r {
        Some(p) => Some((p.0@, p.1)),
        None => None,
    }
}

pub open spec fn outcome_u8<'a>(r: Option<ParsedItem<'a, u8>>) -> Option<(Seq<u8>, int)> {
    match r {
        Some(p) => Some((p.0@, p.1 as int)),
        None => None,
    }
}

pub open spec fn outcome_u16<'a>(r: Option<ParsedItem<'a, u16>>) -> Option<(Seq<u8>, int)> {
    match r {
        Some(p) => Some((p.0@, p.1 as int)),
        None => None,
    }
}

pub open spec fn outcome_i8<'a>(r: Option<ParsedItem<'a, i8>>) -> Option<(Seq<u8>, int)> {
    match r {
        Some(p) => Some((p.0@, p.1 as int)),
        None => None,
    }
}

pub open spec fn outcome_u32<'a>(r: Option<ParsedItem<'a, u32>>) -> Option<(Seq<u8>, int)> {
    match r {
        Some(p) => Some((p.0@, p.1 as int)),
        None => None,
    }
}

/// A padded number, as the input after it and its value.
pub open spec fn padded_number(s: Seq<u8>, n: int, m: int, padding: Padding) -> Option<
    (Seq<u8>, int),
> {
    match padded_digits(s, n, m, padding) {
        Some((k, v)) => Some((s.subrange(k, s.len() as int), v)),
        None => None,
    }
}

/// A padded number that must not be 0.
pub open spec fn nonzero_number(s: Seq<u8>, n: int, padding: Padding) -> Option<(Seq<u8>, int)> {
    match padded_number(s, n, n, padding) {
        Some((rest, v)) => if v != 0 {
            Some((rest, v))
        } else {
            None
        },
        None => None,
    }
}

/// ASCII upper-case letters folded to lower case.
pub open spec fn fold_case(b: u8) -> u8 {
    if 0x41 <= b <= 0x5A {
        (b + 0x20) as u8
    } else {
        b
    }
}

pub open spec fn bytes_match(a: u8, b: u8, case_sensitive: bool) -> bool {
    if case_sensitive {
        a == b
    } else {
        fold_case(a) == fold_case(b)
    }
}

/// `s` starts with `p`, with or without regard to ASCII case.
pub open spec fn has_prefix(s: Seq<u8>, p: Seq<u8>, case_sensitive: bool) -> bool {
    p.len() <= s.len() && forall|i: int|
        0 <= i < p.len() ==> bytes_match(#[trigger] s[i], p[i], case_sensitive)
}

/// Entry `i` of `names` is the first that `s` starts with.
pub open spec fn is_first_match(s: Seq<u8>, names: Seq<Seq<u8>>, case_sensitive: bool, i: int) -> bool {
    &&& 0 <= i < names.len()
    &&& has_prefix(s, names[i], case_sensitive)
    &&& forall|j: int| 0 <= j < i ==> !has_prefix(s, #[trigger] names[j], case_sensitive)
}

/// The first entry of `names` that `s` starts with: the input after it and
/// the entry's index.
pub open spec fn table_parse(s: Seq<u8>, names: Seq<Seq<u8>>, case_sensitive: bool) -> Option<
    (Seq<u8>, int),
> {
    if exists|i: int| #[trigger] is_first_match(s, names, case_sensitive, i) {
        let i = choose|i: int| #[trigger] is_first_match(s, names, case_sensitive, i);
        Some((s.subrange(names[i].len() as int, s.len() as int), i))
    } else {
        None
    }
}

proof fn lemma_first_match_unique(s: Seq<u8>, names: Seq<Seq<u8>>, cs: bool, i: int, j: int)
    requires
        is_first_match(s, names, cs, i),
        is_first_match(s, names, cs, j),
    ensures
        i == j,
{
}

fn fold_case_exec(b: u8) -> (r: u8)
    ensures
        r == fold_case(b),
{
    if 0x41 <= b && b <= 0x5A {
        b + 0x20
    } else {
        b
    }
}

fn starts_with(input: &[u8], prefix: &Vec<u8>, case_sensitive: bool) -> (r: bool)
    ensures
        r == has_prefix(input@, prefix@, case_sensitive),
{
    if prefix.len() > input.len() {
        return false;
    }
    let mut i: usize = 0;
    while i < prefix.len()
        invariant
            prefix@.len() <= input@.len(),
            i <= prefix@.len(),
            forall|j: int| 0 <= j < i ==> bytes_match(#[trigger] input@[j], prefix@[j], case_sensitive),
        decreases prefix@.len() - i,
    {
        let same = if case_sensitive {
            input[i] == prefix[i]
        } else {
            fold_case_exec(input[i]) == fold_case_exec(prefix[i])
        };
        if !same {
            return false;
        }
        i = i + 1;
    }
    true
}

/// The first entry of `names` that the input starts with, and what is left
/// after it.
fn first_match<'a>(input: &'a [u8], names: &Vec<Vec<u8>>, case_sensitive: bool) -> (r: Option<
    ParsedItem<'a, usize>,
>)
    ensures
        match table_parse(input@, view_names(names@), case_sensitive) {
            Some((rest, i)) => r.is_some() && r.unwrap().0@ == rest && r.unwrap().1 == i,
            None => r.is_none(),
        },
{
    let ghost table = view_names(names@);
    let mut i: usize = 0;
    while i < names.len()
        invariant
            table == view_names(names@),
            i <= names@.len(),
            forall|j: int| 0 <= j < i ==> !has_prefix(input@, #[trigger] table[j], case_sensitive),
        decreases names@.len() - i,
    {
        if starts_with(input, &names[i], case_sensitive) {
            proof {
                assert(is_first_match(input@, table, case_sensitive, i as int));
                let c = choose|c: int| #[trigger] is_first_match(input@, table, case_sensitive, c);
                lemma_first_match_unique(input@, table, case_sensitive, c, i as int);
            }
            let len = names[i].len();
            return Some(ParsedItem(&input[len..input.len()], i));
        }
        i = i + 1;
    }
    proof {
        assert forall|c: int| !is_first_match(input@, table, case_sensitive, c) by {}
    }
    None
}

/// The input after an optional leading sign, and the sign.
pub open spec fn split_sign(s: Seq<u8>) -> (Seq<u8>, Option<u8>) {
    if s.len() > 0 && (s[0] == PLUS || s[0] == MINUS) {
        (s.drop_first(), Some(s[0]))
    } else {
        (s, None)
    }
}

fn opt_sign(input: &[u8]) -> (r: (&[u8], Option<u8>))
    ensures
        (r.0@, r.1) == split_sign(input@),
{
    match sign(input) {
        Some(ParsedItem(rest, s)) => (rest, Some(s)),
        None => (input, None),
    }
}

/// A number given a sign: negated after a `-`.
pub open spec fn with_sign(p: Option<(Seq<u8>, int)>, negative: bool) -> Option<(Seq<u8>, (i32, bool))> {
    match p {
        Some((rest, v)) => Some(
            (
                rest,
                (
                    (if negative {
                        -v
                    } else {
                        v
                    }) as i32,
                    negative,
                ),
            ),
        ),
        None => None,
    }
}

/// The year: its value and whether it was written with a `-`.
pub open spec fn year_spec(s: Seq<u8>, m: modifier::Year) -> Option<(Seq<u8>, (i32, bool))> {
    let (t, sign) = split_sign(s);
    let negative = sign == Some(MINUS);
    match m.repr {
        modifier::YearRepr::Full => if sign.is_some() {
            with_sign(padded_number(t, 4, 4, m.padding), negative)
        } else if m.sign_is_mandatory {
            None
        } else {
            with_sign(padded_number(s, 4, 4, m.padding), false)
        },
        modifier::YearRepr::Century => if sign.is_some() {
            with_sign(padded_number(t, 2, 2, m.padding), negative)
        } else if m.sign_is_mandatory {
            None
        } else {
            with_sign(padded_number(s, 1, 2, m.padding), false)
        },
        modifier::YearRepr::LastTwo => with_sign(padded_number(s, 2, 2, m.padding), false),
    }
}

proof fn lemma_pow10_small()
    ensures
        pow10(1) == 10,
        pow10(2) == 100,
        pow10(3) == 1000,
        pow10(4) == 10_000,
{
    reveal_with_fuel(pow10, 5);
}

/// A padded number as a year, negated when `negative`.
fn signed_year<'a>(p: Option<ParsedItem<'a, u128>>, negative: bool) -> (r: Option<
    ParsedItem<'a, (i32, bool)>,
>)
    requires
        p.is_some() ==> p.unwrap().1 < 10_000,
    ensures
        outcome(r) == with_sign(
            match p {
                Some(q) => Some((q.0@, q.1 as int)),
                None => None,
            },
            negative,
        ),
{
    match p {
        Some(ParsedItem(rest, v)) => {
            let v = v as i32;
            if negative {
                Some(ParsedItem(rest, (-v, true)))
            } else {
                Some(ParsedItem(rest, (v, false)))
            }
        },
        None => None,
    }
}

/// Parse the year.
pub fn parse_year(input: &[u8], modifiers: modifier::Year) -> (r: Option<ParsedItem<'_, (i32, bool)>>)
    ensures
        outcome(r) == year_spec(input@, modifiers),
{
    proof {
        lemma_pow10_small();
    }
    let (rest, sign) = opt_sign(input);
    let negative = match sign {
        Some(s) => s == MINUS,
        None => false,
    };
    match modifiers.repr {
        modifier::YearRepr::Full => {
            if sign.is_some() {
                signed_year(exactly_n_digits_padded(rest, 4, modifiers.padding), negative)
            } else if modifiers.sign_is_mandatory {
                None
            } else {
                signed_year(exactly_n_digits_padded(input, 4, modifiers.padding), false)
            }
        },
        modifier::YearRepr::Century => {
            if sign.is_some() {
                signed_year(exactly_n_digits_padded(rest, 2, modifiers.padding), negative)
            } else if modifiers.sign_is_mandatory {
                None
            } else {
                signed_year(n_to_m_digits_padded(input, 1, 2, modifiers.padding), false)
            }
        },
        modifier::YearRepr::LastTwo => signed_year(
            exactly_n_digits_padded(input, 2, modifiers.padding),
            false,
        ),
    }
}

/// The table of names that a month written as `repr` is matched against.
pub open spec fn month_names(repr: modifier::MonthRepr) -> Seq<Seq<u8>> {
    if repr == modifier::MonthRepr::Long {
        month_long_names()
    } else {
        month_short_names()
    }
}

/// The month.
pub open spec fn month_spec(s: Seq<u8>, m: modifier::Month) -> Option<(Seq<u8>, Month)> {
    if m.repr == modifier::MonthRepr::Numerical {
        match padded_number(s, 2, 2, m.padding) {
            Some((rest, v)) => if 1 <= v <= 12 {
                Some((rest, month_of_number(v)))
            } else {
                None
            },
            None => None,
        }
    } else {
        match table_parse(s, month_names(m.repr), m.case_sensitive) {
            Some((rest, i)) => Some((rest, month_of_number(i + 1))),
            None => None,
        }
    }
}

/// Parse the month.
pub fn parse_month(input: &[u8], modifiers: modifier::Month) -> (r: Option<ParsedItem<'_, Month>>)
    ensures
        outcome(r) == month_spec(input@, modifiers),
{
    proof {
        lemma_pow10_small();
    }
    let names = match modifiers.repr {
        modifier::MonthRepr::Numerical => {
            return match exactly_n_digits_padded(input, 2, modifiers.padding) {
                Some(ParsedItem(rest, n)) => match Month::from_number(n as u8) {
                    Ok(month) => Some(ParsedItem(rest, month)),
                    Err(_) => None,
                },
                None => None,
            };
        },
        modifier::MonthRepr::Long => month_long_table(),
        modifier::MonthRepr::Short => month_short_table(),
    };
    match first_match(input, &names, modifiers.case_sensitive) {
        Some(ParsedItem(rest, i)) => {
            proof {
                Month::lemma_of_number(i as int + 1);
            }
            Some(ParsedItem(rest, Month::of_number(i as u8 + 1)))
        },
        None => None,
    }
}

/// The table of names that a weekday is matched against.
pub open spec fn weekday_names(m: modifier::Weekday) -> Seq<Seq<u8>> {
    match m.repr {
        modifier::WeekdayRepr::Short => weekday_short_names(),
        modifier::WeekdayRepr::Long => weekday_long_names(),
        modifier::WeekdayRepr::Sunday => if m.one_indexed {
            weekday_sunday_one_names()
        } else {
            weekday_sunday_zero_names()
        },
        modifier::WeekdayRepr::Monday => if m.one_indexed {
            weekday_monday_one_names()
        } else {
            weekday_monday_zero_names()
        },
    }
}

/// The weekday.
pub open spec fn weekday_spec(s: Seq<u8>, m: modifier::Weekday) -> Option<(Seq<u8>, Weekday)> {
    match table_parse(s, weekday_names(m), m.case_sensitive) {
        Some((rest, i)) => Some((rest, weekday_of_index(i))),
        None => None,
    }
}

/// Parse the weekday.
pub fn parse_weekday(input: &[u8], modifiers: modifier::Weekday) -> (r: Option<
    ParsedItem<'_, Weekday>,
>)
    ensures
        outcome(r) == weekday_spec(input@, modifiers),
{
    let names = match (modifiers.repr, modifiers.one_indexed) {
        (modifier::WeekdayRepr::Short, _) => weekday_short_table(),
        (modifier::WeekdayRepr::Long, _) => weekday_long_table(),
        (modifier::WeekdayRepr::Sunday, false) => weekday_sunday_zero_table(),
        (modifier::WeekdayRepr::Sunday, true) => weekday_sunday_one_table(),
        (modifier::WeekdayRepr::Monday, false) => weekday_monday_zero_table(),
        (modifier::WeekdayRepr::Monday, true) => weekday_monday_one_table(),
    };
    match first_match(input, &names, modifiers.case_sensitive) {
        Some(ParsedItem(rest, i)) => Some(ParsedItem(rest, Weekday::from_days_from_monday(i as u8))),
        None => None,
    }
}

/// A two-digit padded number.
fn two_digits(input: &[u8], padding: Padding) -> (r: Option<ParsedItem<'_, u8>>)
    ensures
        outcome_u8(r) == padded_number(input@, 2, 2, padding),
        r.is_some() ==> r.unwrap().1 < 100,
{
    proof {
        lemma_pow10_small();
    }
    match exactly_n_digits_padded(input, 2, padding) {
        Some(ParsedItem(rest, v)) => Some(ParsedItem(rest, v as u8)),
        None => None,
    }
}

/// Parse the week number.
pub fn parse_week_number(input: &[u8], modifiers: modifier::WeekNumber) -> (r: Option<
    ParsedItem<'_, u8>,
>)
    ensures
        outcome_u8(r) == padded_number(input@, 2, 2, modifiers.padding),
{
    two_digits(input, modifiers.padding)
}

/// Parse the day of the year, which is not 0.
pub fn parse_ordinal(input: &[u8], modifiers: modifier::Ordinal) -> (r: Option<ParsedItem<'_, u16>>)
    ensures
        outcome_u16(r) == nonzero_number(input@, 3, modifiers.padding),
{
    proof {
        lemma_pow10_small();
    }
    match exactly_n_digits_padded(input, 3, modifiers.padding) {
        Some(ParsedItem(rest, v)) => if v != 0 {
            Some(ParsedItem(rest, v as u16))
        } else {
            None
        },
        None => None,
    }
}

/// Parse the day of the month, which is not 0.
pub fn parse_day(input: &[u8], modifiers: modifier::Day) -> (r: Option<ParsedItem<'_, u8>>)
    ensures
        outcome_u8(r) == nonzero_number(input@, 2, modifiers.padding),
{
    match two_digits(input, modifiers.padding) {
        Some(ParsedItem(rest, v)) => if v != 0 {
            Some(ParsedItem(rest, v))
        } else {
            None
        },
        None => None,
    }
}

/// Parse the hour.
pub fn parse_hour(input: &[u8], modifiers: modifier::Hour) -> (r: Option<ParsedItem<'_, u8>>)
    ensures
        outcome_u8(r) == padded_number(input@, 2, 2, modifiers.padding),
{
    two_digits(input, modifiers.padding)
}

/// Parse the minute.
pub fn parse_minute(input: &[u8], modifiers: modifier::Minute) -> (r: Option<ParsedItem<'_, u8>>)
    ensures
        outcome_u8(r) == padded_number(input@, 2, 2, modifiers.padding),
{
    two_digits(input, modifiers.padding)
}

/// Parse the second.
pub fn parse_second(input: &[u8], modifiers: modifier::Second) -> (r: Option<ParsedItem<'_, u8>>)
    ensures
        outcome_u8(r) == padded_number(input@, 2, 2, modifiers.padding),
{
    two_digits(input, modifiers.padding)
}

/// The table of names that a period is matched against.
pub open spec fn period_names(m: modifier::Period) -> Seq<Seq<u8>> {
    if m.is_uppercase {
        period_upper_names()
    } else {
        period_lower_names()
    }
}

/// The period.
pub open spec fn period_spec(s: Seq<u8>, m: modifier::Period) -> Option<(Seq<u8>, Period)> {
    match table_parse(s, period_names(m), m.case_sensitive) {
        Some((rest, i)) => Some(
            (
                rest,
                if i == 0 {
                    Period::Am
                } else {
                    Period::Pm
                },
            ),
        ),
        None => None,
    }
}

/// Parse AM or PM.
pub fn parse_period(input: &[u8], modifiers: modifier::Period) -> (r: Option<ParsedItem<'_, Period>>)
    ensures
        outcome(r) == period_spec(input@, modifiers),
{
    let names = if modifiers.is_uppercase {
        period_upper_table()
    } else {
        period_lower_table()
    };
    match first_match(input, &names, modifiers.case_sensitive) {
        Some(ParsedItem(rest, i)) => Some(
            ParsedItem(
                rest,
                if i == 0 {
                    Period::Am
                } else {
                    Period::Pm
                },
            ),
        ),
        None => None,
    }
}

/// The number of digits a fixed-width fraction of a second has.
pub open spec fn subsecond_width(digits: modifier::SubsecondDigits) -> int {
    match digits {
        modifier::SubsecondDigits::One => 1,
        modifier::SubsecondDigits::Two => 2,
        modifier::SubsecondDigits::Three => 3,
        modifier::SubsecondDigits::Four => 4,
        modifier::SubsecondDigits::Five => 5,
        modifier::SubsecondDigits::Six => 6,
        modifier::SubsecondDigits::Seven => 7,
        modifier::SubsecondDigits::Eight => 8,
        _ => 9,
    }
}

/// A fraction of a second, in nanoseconds. A fixed width reads exactly that
/// many digits; `OneOrMore` reads every digit there is, at least one, and the
/// digits past the ninth do not count.
pub open spec fn subsecond_spec(s: Seq<u8>, m: modifier::Subsecond) -> Option<(Seq<u8>, int)> {
    if m.digits == modifier::SubsecondDigits::OneOrMore {
        if exists|k: int| #[trigger] digit_run(s, k, s.len() as int) && k >= 1 {
            let k = choose|k: int| #[trigger] digit_run(s, k, s.len() as int);
            let used = if k < 9 {
                k
            } else {
                9
            };
            Some(
                (
                    s.subrange(k, s.len() as int),
                    digits_value(s.subrange(0, used)) * pow10((9 - used) as nat),
                ),
            )
        } else {
            None
        }
    } else {
        let n = subsecond_width(m.digits);
        if n <= s.len() && forall|i: int| 0 <= i < n ==> is_digit(#[trigger] s[i]) {
            Some(
                (
                    s.subrange(n, s.len() as int),
                    digits_value(s.subrange(0, n)) * pow10((9 - n) as nat),
                ),
            )
        } else {
            None
        }
    }
}

proof fn lemma_pow10_nine()
    ensures
        pow10(9) == 1_000_000_000,
{
    reveal_with_fuel(pow10, 10);
}

/// Exactly `n` digits, scaled to nanoseconds.
fn fixed_subsecond(input: &[u8], n: usize, scale: u32) -> (r: Option<ParsedItem<'_, u32>>)
    requires
        1 <= n <= 9,
        scale == pow10((9 - n) as nat),
    ensures
        outcome_u32(r) == (if n <= input@.len() && forall|i: int|
            0 <= i < n ==> is_digit(#[trigger] input@[i]) {
            Some(
                (
                    input@.subrange(n as int, input@.len() as int),
                    digits_value(input@.subrange(0, n as int)) * pow10((9 - n) as nat),
                ),
            )
        } else {
            None
        }),
        r.is_some() ==> r.unwrap().1 < 1_000_000_000,
{
    match exactly_n_digits(input, n) {
        Some(ParsedItem(rest, v)) => {
            proof {
                lemma_pow10_nine();
                lemma_pow10_positive((9 - n) as nat);
                lemma_pow10_mono(n as nat, 9);
                lemma_pow10_add(n as nat, (9 - n) as nat);
                assert(v * scale < pow10(n as nat) * scale) by (nonlinear_arith)
                    requires
                        v < pow10(n as nat),
                        scale >= 1,
                ;
                assert(v < 1_000_000_000);
            }
            Some(ParsedItem(rest, v as u32 * scale))
        },
        None => None,
    }
}

pub proof fn lemma_pow10_add(a: nat, b: nat)
    ensures
        pow10(a) * pow10(b) == pow10(a + b),
    decreases a,
{
    if a > 0 {
        lemma_pow10_add((a - 1) as nat, b);
        assert(pow10(a) * pow10(b) == 10 * (pow10((a - 1) as nat) * pow10(b))) by (nonlinear_arith)
            requires
                pow10(a) == 10 * pow10((a - 1) as nat),
        ;
    }
}

/// Parse a fraction of a second, in nanoseconds.
pub fn parse_subsecond(input: &[u8], modifiers: modifier::Subsecond) -> (r: Option<
    ParsedItem<'_, u32>,
>)
    ensures
        outcome_u32(r) == subsecond_spec(input@, modifiers),
{
    proof {
        reveal_with_fuel(pow10, 10);
    }
    match modifiers.digits {
        modifier::SubsecondDigits::One => fixed_subsecond(input, 1, 100_000_000),
        modifier::SubsecondDigits::Two => fixed_subsecond(input, 2, 10_000_000),
        modifier::SubsecondDigits::Three => fixed_subsecond(input, 3, 1_000_000),
        modifier::SubsecondDigits::Four => fixed_subsecond(input, 4, 100_000),
        modifier::SubsecondDigits::Five => fixed_subsecond(input, 5, 10_000),
        modifier::SubsecondDigits::Six => fixed_subsecond(input, 6, 1_000),
        modifier::SubsecondDigits::Seven => fixed_subsecond(input, 7, 100),
        modifier::SubsecondDigits::Eight => fixed_subsecond(input, 8, 10),
        modifier::SubsecondDigits::Nine => fixed_subsecond(input, 9, 1),
        modifier::SubsecondDigits::OneOrMore => one_or_more_subsecond(input),
    }
}

/// Every leading digit, at least one; the first nine make the nanoseconds.
fn one_or_more_subsecond(input: &[u8]) -> (r: Option<ParsedItem<'_, u32>>)
    ensures
        outcome_u32(r) == subsecond_spec(
            input@,
            modifier::Subsecond { digits: modifier::SubsecondDigits::OneOrMore },
        ),
{
    let ghost s = input@;
    if input.len() == 0 || input[0] < ZERO || input[0] > NINE {
        proof {
            assert forall|k: int| #[trigger] digit_run(s, k, s.len() as int) implies k < 1 by {
                if k >= 1 {
                    assert(is_digit(s[0]));
                }
            }
        }
        return None;
    }
    let mut k: usize = 1;
    let mut value: u32 = ((input[0] - ZERO) as u32) * 100_000_000;
    let mut multiplier: u32 = 10_000_000;
    proof {
        reveal_with_fuel(pow10, 10);
        assert(s.subrange(0, 1).drop_last() =~= Seq::<u8>::empty());
        reveal_with_fuel(digits_value, 2);
    }
    while k < input.len() && input[k] >= ZERO && input[k] <= NINE
        invariant
            s == input@,
            1 <= k <= s.len(),
            forall|i: int| 0 <= i < k ==> is_digit(#[trigger] s[i]),
            k < 9 ==> multiplier == pow10((8 - k) as nat),
            k >= 9 ==> multiplier == 0,
            value == digits_value(s.subrange(0, if k < 9 {
                k as int
            } else {
                9
            })) * pow10((9 - (if k < 9 {
                k as int
            } else {
                9
            })) as nat),
            value < 1_000_000_000,
        decreases s.len() - k,
    {
        let digit = (input[k] - ZERO) as u32;
        proof {
            reveal_with_fuel(pow10, 10);
            if k < 9 {
                let t = s.subrange(0, k as int + 1);
                assert(t.drop_last() =~= s.subrange(0, k as int));
                lemma_digits_value_bound(t);
                lemma_pow10_add((k + 1) as nat, (8 - k) as nat);
                let d = digits_value(s.subrange(0, k as int));
                let p = pow10((8 - k) as nat);
                assert(value == d * (10 * p)) by {
                    assert(pow10((9 - k) as nat) == 10 * p);
                }
                assert(value + digit * p == (d * 10 + digit) * p) by (nonlinear_arith)
                    requires
                        value == d * (10 * p),
                ;
                assert((d * 10 + digit) * p < pow10((k + 1) as nat) * p) by (nonlinear_arith)
                    requires
                        d * 10 + digit < pow10((k + 1) as nat),
                        p >= 1,
                ;
                lemma_pow10_positive((8 - k) as nat);
            }
        }
        value = value + digit * multiplier;
        multiplier = multiplier / 10;
        k = k + 1;
    }
    proof {
        assert(digit_run(s, k as int, s.len() as int));
        assert forall|j: int| #[trigger] digit_run(s, j, s.len() as int) implies j == k by {
            crate::combinator::lemma_digit_run_unique(s, j, k as int, s.len() as int);
        }
    }
    Some(ParsedItem(&input[k..input.len()], value))
}

/// The hours of an offset: the value, negated after a `-`, and whether a `-`
/// was read (which tells `-00` from `+00`).
pub open spec fn offset_hour_spec(s: Seq<u8>, m: modifier::OffsetHour) -> Option<
    (Seq<u8>, (int, bool)),
> {
    let (t, sign) = split_sign(s);
    match padded_number(t, 2, 2, m.padding) {
        Some((rest, h)) => if sign == Some(MINUS) {
            Some((rest, (-h, true)))
        } else if sign.is_none() && m.sign_is_mandatory {
            None
        } else {
            Some((rest, (h, false)))
        },
        None => None,
    }
}

/// Parse the hours of a UTC offset.
pub fn parse_offset_hour(input: &[u8], modifiers: modifier::OffsetHour) -> (r: Option<
    ParsedItem<'_, (i8, bool)>,
>)
    ensures
        match offset_hour_spec(input@, modifiers) {
            Some((rest, (h, negative))) => r.is_some() && r.unwrap().0@ == rest && r.unwrap().1.0
                == h && r.unwrap().1.1 == negative,
            None => r.is_none(),
        },
{
    let (rest, sign) = opt_sign(input);
    let (rest, hour) = match two_digits(rest, modifiers.padding) {
        Some(ParsedItem(rest, hour)) => (rest, hour as i8),
        None => return None,
    };
    match sign {
        Some(s) => if s == MINUS {
            Some(ParsedItem(rest, (-hour, true)))
        } else {
            Some(ParsedItem(rest, (hour, false)))
        },
        None => if modifiers.sign_is_mandatory {
            None
        } else {
            Some(ParsedItem(rest, (hour, false)))
        },
    }
}

/// Parse the minutes of a UTC offset.
pub fn parse_offset_minute(input: &[u8], modifiers: modifier::OffsetMinute) -> (r: Option<
    ParsedItem<'_, i8>,
>)
    ensures
        outcome_i8(r) == padded_number(input@, 2, 2, modifiers.padding),
{
    match two_digits(input, modifiers.padding) {
        Some(ParsedItem(rest, v)) => Some(ParsedItem(rest, v as i8)),
        None => None,
    }
}

/// Parse the seconds of a UTC offset.
pub fn parse_offset_second(input: &[u8], modifiers: modifier::OffsetSecond) -> (r: Option<
    ParsedItem<'_, i8>,
>)
    ensures
        outcome_i8(r) == padded_number(input@, 2, 2, modifiers.padding),
{
    match two_digits(input, modifiers.padding) {
        Some(ParsedItem(rest, v)) => Some(ParsedItem(rest, v as i8)),
        None => None,
    }
}

/// Skip `count` bytes.
pub fn parse_ignore(input: &[u8], modifiers: modifier::Ignore) -> (r: Option<ParsedItem<'_, ()>>)
    ensures
        r.is_some() <==> modifiers.count <= input@.len(),
        r.is_some() ==> r.unwrap().0@ == input@.subrange(
            modifiers.count as int,
            input@.len() as int,
        ),
{
    let count = modifiers.count as usize;
    if count > input.len() {
        return None;
    }
    Some(ParsedItem(&input[count..input.len()], ()))
}

/// The most digits, and the factor to nanoseconds, of a timestamp of the
/// given unit.
pub open spec fn timestamp_unit(p: modifier::UnixTimestampPrecision) -> (int, int) {
    match p {
        modifier::UnixTimestampPrecision::Second => (14, 1_000_000_000),
        modifier::UnixTimestampPrecision::Millisecond => (17, 1_000_000),
        modifier::UnixTimestampPrecision::Microsecond => (20, 1_000),
        modifier::UnixTimestampPrecision::Nanosecond => (23, 1),
    }
}

/// A Unix timestamp in nanoseconds: an optional sign, then 1 to as many
/// digits as the unit allows.
pub open spec fn unix_timestamp_spec(s: Seq<u8>, m: modifier::UnixTimestamp) -> Option<
    (Seq<u8>, int),
> {
    let (t, sign) = split_sign(s);
    let (max, scale) = timestamp_unit(m.precision);
    match padded_number(t, 1, max, Padding::Zero) {
        Some((rest, v)) => if sign == Some(MINUS) {
            Some((rest, -(v * scale)))
        } else if sign.is_none() && m.sign_is_mandatory {
            None
        } else {
            Some((rest, v * scale))
        },
        None => None,
    }
}

/// Parse a Unix timestamp, in nanoseconds.
pub fn parse_unix_timestamp(input: &[u8], modifiers: modifier::UnixTimestamp) -> (r: Option<
    ParsedItem<'_, i128>,
>)
    ensures
        match unix_timestamp_spec(input@, modifiers) {
            Some((rest, v)) => r.is_some() && r.unwrap().0@ == rest && r.unwrap().1 == v,
            None => r.is_none(),
        },
{
    let (rest, sign) = opt_sign(input);
    let (max, scale): (usize, u128) = match modifiers.precision {
        modifier::UnixTimestampPrecision::Second => (14, 1_000_000_000),
        modifier::UnixTimestampPrecision::Millisecond => (17, 1_000_000),
        modifier::UnixTimestampPrecision::Microsecond => (20, 1_000),
        modifier::UnixTimestampPrecision::Nanosecond => (23, 1),
    };
    let (rest, value) = match n_to_m_digits_padded(rest, 1, max, Padding::Zero) {
        Some(ParsedItem(rest, v)) => {
            proof {
                reveal_with_fuel(pow10, 24);
                assert(pow10(23) == 100_000_000_000_000_000_000_000);
                lemma_pow10_mono(max as nat, 23);
                assert(v * scale <= 100_000_000_000_000_000_000_000 * 1_000_000_000) by (
                nonlinear_arith)
                    requires
                        v < pow10(max as nat),
                        pow10(max as nat) <= 100_000_000_000_000_000_000_000,
                        scale <= 1_000_000_000,
                ;
            }
            (rest, (v * scale) as i128)
        },
        None => return None,
    };
    match sign {
        Some(s) => if s == MINUS {
            Some(ParsedItem(rest, -value))
        } else {
            Some(ParsedItem(rest, value))
        },
        None => if modifiers.sign_is_mandatory {
            None
        } else {
            Some(ParsedItem(rest, value))
        },
    }
}

/// Succeeds only on empty input.
pub fn parse_end(input: &[u8], end: modifier::End) -> (r: Option<ParsedItem<'_, ()>>)
    ensures
        r.is_some() <==> input@.len() == 0,
        r.is_some() ==> r.unwrap().0@ == input@,
{
    if input.len() == 0 {
        Some(ParsedItem(input, ()))
    } else {
        None
    }
}

} // verus!
