//! Laws that relate the conversions of `Date` to each other.
use crate::calendar::{
    day_of_ordinal, month_of_ordinal,
    days_before_month, days_before_year, is_leap, iso_julian_day, iso_weeks_in_year, julian_day,
    lemma_days_before_year_mono, lemma_iso_julian_day_injective, lemma_iso_year_step,
    lemma_ordinal_of_month_day, lemma_year_step, valid_calendar_date, weekday_index,
    year_in_range, MAX_JULIAN_DAY, MAX_YEAR, MIN_JULIAN_DAY,
};
use crate::combinator::{digit_run, digits_value, is_digit, lemma_digit_run_unique, pow10};
use crate::component::{padded_number, split_sign, year_spec};
use crate::format_item::{Component, ItemModel};
use crate::formatting::{compound_text, item_text};
use crate::month::month_of_number;
use crate::parsing::{compound_step, date_outcome, item_step, parse_outcome, ParseError, Parsed};
use crate::date::Date;
use crate::formatting::{abs, digits_of, number_text, year_sign};
use crate::modifier;
use crate::modifier::Padding;
use crate::weekday::Weekday;
use core::cmp::Ordering;
use vstd::prelude::*;
use vstd::string::StringSliceAdditionalSpecFns;
use vstd::utf8::{decode_utf8, decode_utf8_encode_utf8, valid_utf8};
use vstd::std_specs::cmp::PartialOrdSpec;

verus! {

/// Reading back the date that `from_calendar_date(y, m, d)` builds gives
/// `(y, m, d)`: the date it builds is the one of ordinal
/// `days_before_month(m) + d`, and `to_calendar_date` returns the year, the
/// month and the day of a date.
pub proof fn law_calendar_round_trip(y: int, m: int, d: int, date: Date)
    requires
        valid_calendar_date(y, m, d),
        date.wf(),
        date.is_ordinal_date(y, days_before_month(m, is_leap(y)) + d),
    ensures
        date.spec_year() == y,
        date.spec_month() == m,
        date.spec_day() == d,
{
    lemma_ordinal_of_month_day(m, d, is_leap(y));
}

/// Reading back the date that `from_ordinal_date(y, o)` builds gives
/// `(y, o)`.
pub proof fn law_ordinal_round_trip(y: int, o: int, date: Date)
    requires
        date.wf(),
        date.is_ordinal_date(y, o),
    ensures
        date.spec_year() == y,
        date.spec_ordinal() == o,
{
}

/// Reading back the date that `from_iso_week_date(y, w, wd)` builds gives
/// `(y, w, wd)`: any valid ISO week date of the same day is that one.
pub proof fn law_iso_week_round_trip(
    y: int,
    w: int,
    wd: Weekday,
    date: Date,
    iso_year: int,
    iso_week: int,
    iso_weekday: Weekday,
)
    requires
        1 <= w <= iso_weeks_in_year(y),
        date.wf(),
        date.spec_julian_day() == iso_julian_day(y, w, wd.index() + 1),
        1 <= iso_week <= iso_weeks_in_year(iso_year),
        iso_julian_day(iso_year, iso_week, iso_weekday.index() + 1) == date.spec_julian_day(),
    ensures
        iso_year == y,
        iso_week == w,
        iso_weekday == wd,
{
    wd.lemma_index();
    iso_weekday.lemma_index();
    lemma_iso_julian_day_injective(
        y,
        w,
        wd.index() + 1,
        iso_year,
        iso_week,
        iso_weekday.index() + 1,
    );
}

/// `from_julian_day(to_julian_day(d))` succeeds on every valid date, and
/// gives `d` back.
pub proof fn law_julian_day_round_trip(d: Date, r: Date)
    requires
        d.wf(),
        r.wf(),
        r.spec_julian_day() == d.spec_julian_day(),
    ensures
        MIN_JULIAN_DAY <= d.spec_julian_day() <= MAX_JULIAN_DAY,
        r == d,
{
    Date::lemma_julian_day_in_range(d);
    Date::lemma_eq_julian_day(d, r);
}

/// Every Julian day number in range is that of exactly one date.
pub proof fn law_julian_day_unique(a: Date, b: Date)
    requires
        a.wf(),
        b.wf(),
        a.spec_julian_day() == b.spec_julian_day(),
    ensures
        a == b,
{
    Date::lemma_eq_julian_day(a, b);
}

/// Apart from the first date, `previous_day` succeeds, and `next_day` of its
/// result succeeds and gives the date back.
pub proof fn law_previous_then_next(d: Date, previous: Date, next: Date)
    requires
        d.wf(),
        d.spec_julian_day() > MIN_JULIAN_DAY,
        previous.wf(),
        previous.spec_julian_day() == d.spec_julian_day() - 1,
        next.wf(),
        next.spec_julian_day() == previous.spec_julian_day() + 1,
    ensures
        previous.spec_julian_day() < MAX_JULIAN_DAY,
        next == d,
{
    Date::lemma_julian_day_in_range(d);
    Date::lemma_eq_julian_day(d, next);
}

/// Apart from the last date, `next_day` succeeds, and `previous_day` of its
/// result succeeds and gives the date back.
pub proof fn law_next_then_previous(d: Date, next: Date, previous: Date)
    requires
        d.wf(),
        d.spec_julian_day() < MAX_JULIAN_DAY,
        next.wf(),
        next.spec_julian_day() == d.spec_julian_day() + 1,
        previous.wf(),
        previous.spec_julian_day() == next.spec_julian_day() - 1,
    ensures
        next.spec_julian_day() > MIN_JULIAN_DAY,
        previous == d,
{
    Date::lemma_julian_day_in_range(d);
    Date::lemma_eq_julian_day(d, previous);
}

/// Day 366 exists exactly in the years divisible by 4 and not by 100 unless
/// by 400, so `from_ordinal_date(y, 366)` succeeds on those years alone.
pub proof fn law_leap_day(y: int)
    requires
        year_in_range(y),
    ensures
        (1 <= 366 <= crate::calendar::year_length(y)) <==> (y % 4 == 0 && (y % 100 != 0 || y
            % 400 == 0)),
{
}

/// `from_iso_week_date(y, 53, Monday)` succeeds exactly on the years that
/// have 53 ISO weeks.
pub proof fn law_iso_week_53(y: int)
    requires
        year_in_range(y),
    ensures
        (1 <= 53 <= iso_weeks_in_year(y) && iso_julian_day(y, 53, Weekday::Monday.index() + 1)
            <= MAX_JULIAN_DAY) <==> iso_weeks_in_year(y) == 53,
{
    if iso_weeks_in_year(y) == 53 {
        if y < MAX_YEAR {
            // Week 53 ends before the next ISO year, which starts no later
            // than the next January 4th.
            lemma_iso_year_step(y);
            lemma_year_step(y);
            lemma_days_before_year_mono(y + 1, MAX_YEAR as int);
            assert(iso_julian_day(y + 1, 1, 1) <= julian_day(y + 1, 4));
            assert(days_before_year(MAX_YEAR as int) == 3_651_694);
        } else {
            assert(days_before_year(MAX_YEAR as int) == 3_651_694);
            assert(weekday_index(julian_day(MAX_YEAR as int, 1)) == 4);
        }
    }
}


/// The value of digits written after other digits.
pub proof fn lemma_digits_value_concat(a: Seq<u8>, b: Seq<u8>)
    ensures
        digits_value(a + b) == digits_value(a) * pow10(b.len()) + digits_value(b),
    decreases b.len(),
{
    if b.len() == 0 {
        assert(a + b =~= a);
    } else {
        let b1 = b.drop_last();
        lemma_digits_value_concat(a, b1);
        assert((a + b).drop_last() =~= a + b1);
        assert((a + b).last() == b.last());
        let p = pow10(b1.len());
        assert(pow10(b.len()) == 10 * p);
        assert(digits_value(a + b) == (digits_value(a) * p + digits_value(b1)) * 10 + (b.last()
            - 0x30));
        assert((digits_value(a) * p + digits_value(b1)) * 10 == digits_value(a) * (10 * p)
            + digits_value(b1) * 10) by (nonlinear_arith);
    }
}

/// Leading zeros add nothing.
pub proof fn lemma_digits_value_zeros(n: nat)
    ensures
        digits_value(Seq::new(n, |i: int| 0x30u8)) == 0,
    decreases n,
{
    if n > 0 {
        let z = Seq::new(n, |i: int| 0x30u8);
        assert(z.drop_last() =~= Seq::new((n - 1) as nat, |i: int| 0x30u8));
        lemma_digits_value_zeros((n - 1) as nat);
    }
}

/// Writing a number in decimal and reading the digits back gives the
/// number; there are at most `w` digits below `10^w`.
pub proof fn lemma_digits_of(v: nat, w: nat)
    requires
        1 <= w,
        v < pow10(w),
    ensures
        digits_value(digits_of(v)) == v,
        1 <= digits_of(v).len() <= w,
        forall|i: int| 0 <= i < digits_of(v).len() ==> is_digit(#[trigger] digits_of(v)[i]),
    decreases v,
{
    if v >= 10 {
        assert(w >= 2) by {
            if w == 1 {
                reveal_with_fuel(pow10, 2);
            }
        }
        assert(pow10(w) == 10 * pow10((w - 1) as nat));
        lemma_digits_of(v / 10, (w - 1) as nat);
        let d = digits_of(v / 10);
        assert(digits_of(v).drop_last() =~= d);
        assert(digits_of(v).last() == (0x30 + v % 10) as u8);
        assert(digits_value(digits_of(v)) == digits_value(d) * 10 + (v % 10));
    } else {
        assert(digits_of(v).drop_last() =~= Seq::<u8>::empty());
        assert(digits_value(digits_of(v)) == digits_value(Seq::<u8>::empty()) * 10 + v);
    }
}

/// A number below `10^w` written with zero padding to `w` digits, and read
/// back as a `w`-digit zero-padded number, gives the number and leaves what
/// followed it. This holds of every numeric component of a date written and
/// read with zero padding (day, month, ordinal, week number).
pub proof fn law_zero_padded_round_trip(v: nat, w: nat, rest: Seq<u8>)
    requires
        1 <= w <= 38,
        v < pow10(w),
    ensures
        padded_number(number_text(v, w, Padding::Zero) + rest, w as int, w as int, Padding::Zero)
            == Some((rest, v as int)),
{
    lemma_digits_of(v, w);
    let ds = digits_of(v);
    let zeros = Seq::new((w - ds.len()) as nat, |i: int| 0x30u8);
    let t = number_text(v, w, Padding::Zero);
    assert(t =~= zeros + ds);
    lemma_digits_value_concat(zeros, ds);
    lemma_digits_value_zeros((w - ds.len()) as nat);
    let s = t + rest;
    assert(s.subrange(0, w as int) =~= t);
    assert(s.subrange(w as int, s.len() as int) =~= rest);
    assert forall|i: int| 0 <= i < w implies is_digit(#[trigger] s[i]) by {
        if i < zeros.len() {
            assert(s[i] == zeros[i]);
        } else {
            assert(s[i] == ds[i - zeros.len()]);
        }
    }
    assert(digit_run(s, w as int, w as int));
    let k = choose|k: int| #[trigger] digit_run(s, k, w as int);
    lemma_digit_run_unique(s, k, w as int, w as int);
}

/// A year from -9999 to 9999 written as a full, zero-padded year (with its
/// sign where there is one) and read back with the same modifiers gives the
/// year, whether it was negative, and what followed it.
pub proof fn law_full_year_round_trip(y: int, m: modifier::Year, rest: Seq<u8>)
    requires
        -9999 <= y <= 9999,
        m.repr == modifier::YearRepr::Full,
        m.padding == Padding::Zero,
    ensures
        year_spec(year_sign(y, m.sign_is_mandatory) + number_text(abs(y), 4, Padding::Zero) + rest, m)
            == Some((rest, (y as i32, y < 0))),
{
    reveal_with_fuel(pow10, 5);
    let t = number_text(abs(y), 4, Padding::Zero);
    law_zero_padded_round_trip(abs(y), 4, rest);
    lemma_digits_of(abs(y), 4);
    let sign = year_sign(y, m.sign_is_mandatory);
    let s = sign + t + rest;
    assert(t.len() == 4);
    if sign.len() == 0 {
        assert(s =~= t + rest);
        assert(is_digit(t[0]));
        assert(split_sign(s) == (s, None::<u8>));
    } else {
        assert(s.drop_first() =~= t + rest);
        assert(split_sign(s).0 =~= t + rest);
    }
}


/// An item that a date writes with a fixed width and reads back: a literal,
/// or a zero-padded full calendar year, numerical month, day or ordinal.
pub open spec fn is_fixed_width_date_item(it: ItemModel) -> bool {
    match it {
        ItemModel::Literal(_) => true,
        ItemModel::Component(Component::Year(m)) => m.repr == modifier::YearRepr::Full
            && m.padding == Padding::Zero && !m.iso_week_based,
        ItemModel::Component(Component::Month(m)) => m.repr == modifier::MonthRepr::Numerical
            && m.padding == Padding::Zero,
        ItemModel::Component(Component::Day(m)) => m.padding == Padding::Zero,
        ItemModel::Component(Component::Ordinal(m)) => m.padding == Padding::Zero,
        _ => false,
    }
}

/// The fields that reading item `it` of date `d` records in `p`.
pub open spec fn record(it: ItemModel, d: Date, p: Parsed) -> Parsed {
    match it {
        ItemModel::Component(Component::Year(_)) => Parsed { year: Some(d.spec_year() as i32), ..p },
        ItemModel::Component(Component::Month(_)) => Parsed {
            month: Some(month_of_number(d.spec_month())),
            ..p
        },
        ItemModel::Component(Component::Day(_)) => Parsed { day: Some(d.spec_day() as u8), ..p },
        ItemModel::Component(Component::Ordinal(_)) => Parsed {
            ordinal: Some(d.spec_ordinal() as u16),
            ..p
        },
        _ => p,
    }
}

/// The fields that reading items `i..` of date `d` records in `p`.
pub open spec fn record_from(items: Seq<ItemModel>, i: int, d: Date, p: Parsed) -> Parsed
    decreases items.len() - i,
{
    if i < 0 || i >= items.len() {
        p
    } else {
        record_from(items, i + 1, d, record(items[i], d, p))
    }
}

proof fn lemma_fixed_width_item(it: ItemModel, d: Date, p: Parsed, rest: Seq<u8>)
    requires
        d.wf(),
        is_fixed_width_date_item(it),
    ensures
        item_text(it, d) is Some,
        item_step(item_text(it, d)->Some_0 + rest, it, p) == Ok::<(Seq<u8>, Parsed), (Seq<u8>, Option<Component>)>((rest, record(it, d, p))),
{
    Date::lemma_valid(d);
    reveal_with_fuel(pow10, 4);
    match it {
        ItemModel::Literal(b) => {
            assert((b + rest).subrange(0, b.len() as int) =~= b);
            assert((b + rest).subrange(b.len() as int, (b + rest).len() as int) =~= rest);
        },
        ItemModel::Component(Component::Year(m)) => {
            law_full_year_round_trip(d.spec_year(), m, rest);
        },
        ItemModel::Component(Component::Month(m)) => {
            law_zero_padded_round_trip(d.spec_month() as nat, 2, rest);
        },
        ItemModel::Component(Component::Day(m)) => {
            law_zero_padded_round_trip(d.spec_day() as nat, 2, rest);
        },
        ItemModel::Component(Component::Ordinal(m)) => {
            law_zero_padded_round_trip(d.spec_ordinal() as nat, 3, rest);
        },
        _ => {},
    }
}

proof fn lemma_fixed_width_compound(it: ItemModel, i: int, d: Date, p: Parsed, rest: Seq<u8>)
    requires
        d.wf(),
        it is Compound,
        0 <= i <= it->Compound_0.len(),
        forall|j: int|
            0 <= j < it->Compound_0.len() ==> is_fixed_width_date_item(#[trigger] it->Compound_0[j]),
    ensures
        compound_text(it, i, d) is Some,
        compound_step(compound_text(it, i, d)->Some_0 + rest, it, i, p) == Ok::<
            (Seq<u8>, Parsed),
            (Seq<u8>, Option<Component>),
        >((rest, record_from(it->Compound_0, i, d, p))),
    decreases it->Compound_0.len() - i,
{
    let items = it->Compound_0;
    if i == items.len() {
        assert(seq![] + rest =~= rest);
    } else {
        let head = item_text(items[i], d);
        lemma_fixed_width_item(items[i], d, p, rest);
        lemma_fixed_width_compound(it, i + 1, d, record(items[i], d, p), rest);
        let tail = compound_text(it, i + 1, d)->Some_0;
        lemma_fixed_width_item(items[i], d, p, tail + rest);
        assert(head->Some_0 + tail + rest =~= head->Some_0 + (tail + rest));
    }
}

/// Writing a date with a compound of fixed-width date items and reading the
/// text back with the same items succeeds, consumes the whole text, and
/// records the date's own values for the components present.
pub proof fn law_fixed_width_format_round_trip(items: Seq<ItemModel>, d: Date)
    requires
        d.wf(),
        forall|j: int| 0 <= j < items.len() ==> is_fixed_width_date_item(#[trigger] items[j]),
    ensures
        item_text(ItemModel::Compound(items), d) is Some,
        item_step(
            item_text(ItemModel::Compound(items), d)->Some_0,
            ItemModel::Compound(items),
            Parsed::spec_empty(),
        ) == Ok::<(Seq<u8>, Parsed), (Seq<u8>, Option<Component>)>(
            (Seq::<u8>::empty(), record_from(items, 0, d, Parsed::spec_empty())),
        ),
{
    let it = ItemModel::Compound(items);
    lemma_fixed_width_compound(it, 0, d, Parsed::spec_empty(), Seq::<u8>::empty());
    assert(compound_text(it, 0, d)->Some_0 + Seq::<u8>::empty() =~= compound_text(it, 0, d)->Some_0);
}

/// Reading fixed-width items of a date records, for every field it sets, the
/// date's own value.
pub proof fn lemma_record_from_fields(items: Seq<ItemModel>, i: int, d: Date, p: Parsed)
    requires
        p.year is Some ==> p.year->Some_0 == d.spec_year(),
        p.month is Some ==> p.month->Some_0 == month_of_number(d.spec_month()),
        p.day is Some ==> p.day->Some_0 == d.spec_day(),
        p.ordinal is Some ==> p.ordinal->Some_0 == d.spec_ordinal(),
        d.wf(),
    ensures
        ({
            let q = record_from(items, i, d, p);
            &&& q.year is Some ==> q.year->Some_0 == d.spec_year()
            &&& q.month is Some ==> q.month->Some_0 == month_of_number(d.spec_month())
            &&& q.day is Some ==> q.day->Some_0 == d.spec_day()
            &&& q.ordinal is Some ==> q.ordinal->Some_0 == d.spec_ordinal()
        }),
    decreases items.len() - i,
{
    Date::lemma_valid(d);
    if 0 <= i < items.len() {
        lemma_record_from_fields(items, i + 1, d, record(items[i], d, p));
    }
}

/// Formatting then parsing gives the date back, for every description that
/// is a compound of fixed-width date items holding a year, a month and a day:
/// any date that `Date::parse` may return on the text is the date written.
pub proof fn law_format_then_parse(items: Seq<ItemModel>, d: Date, r: Result<Date, crate::parsing::ParseError>)
    requires
        d.wf(),
        forall|j: int| 0 <= j < items.len() ==> is_fixed_width_date_item(#[trigger] items[j]),
        ({
            let q = record_from(items, 0, d, Parsed::spec_empty());
            q.year is Some && q.month is Some && q.day is Some
        }),
        date_outcome(record_from(items, 0, d, Parsed::spec_empty()), r),
    ensures
        r == Ok::<Date, crate::parsing::ParseError>(d),
{
    law_fixed_width_format_round_trip(items, d);
    lemma_record_from_fields(items, 0, d, Parsed::spec_empty());
    Date::lemma_valid(d);
    let q = record_from(items, 0, d, Parsed::spec_empty());
    crate::month::Month::lemma_of_number(d.spec_month());
    crate::calendar::lemma_ordinal_of_month_day(d.spec_month(), d.spec_day(), d.spec_leap());
    let v = r->Ok_0;
    Date::lemma_eq_parts(v, d);
}


/// Within one year, the order of days of the year is the order of (month,
/// day).
pub proof fn lemma_ordinal_order(o1: int, o2: int, leap: bool)
    requires
        1 <= o1 <= (if leap { 366int } else { 365int }),
        1 <= o2 <= (if leap { 366int } else { 365int }),
    ensures
        o1 < o2 <==> (month_of_ordinal(o1, leap) < month_of_ordinal(o2, leap) || (
        month_of_ordinal(o1, leap) == month_of_ordinal(o2, leap) && day_of_ordinal(o1, leap)
            < day_of_ordinal(o2, leap))),
{
}

/// Dates are ordered chronologically: `a < b` (which `partial_cmp`
/// decides) exactly when `a` has the
/// smaller Julian day number, and exactly when `(year, month, day)` of `a`
/// comes first.
pub proof fn law_date_order(a: Date, b: Date)
    requires
        a.wf(),
        b.wf(),
    ensures
        (a.partial_cmp_spec(&b) == Some(Ordering::Less)) <==> a.spec_julian_day()
            < b.spec_julian_day(),
        (a.partial_cmp_spec(&b) == Some(Ordering::Less)) <==> (a.spec_year() < b.spec_year() || (a.spec_year() == b.spec_year() && (
        a.spec_month() < b.spec_month() || (a.spec_month() == b.spec_month() && a.spec_day()
            < b.spec_day())))),
        (a == b) <==> a.spec_julian_day() == b.spec_julian_day(),
{
    Date::lemma_packed_order(a, b);
    Date::lemma_valid(a);
    Date::lemma_valid(b);
    if a.spec_year() == b.spec_year() {
        lemma_ordinal_order(a.spec_ordinal(), b.spec_ordinal(), a.spec_leap());
    }
    if a.spec_julian_day() == b.spec_julian_day() {
        Date::lemma_eq_julian_day(a, b);
    }
}


/// Formatting a date with a description made of fixed-width date items that
/// include a year, a month and a day, and parsing the bytes written with
/// the same description, gives the date back: `Date::format_bytes` returns
/// `item_text(...)`, and whatever `Date::parse_bytes` returns on it is
/// `Ok(d)`.
pub proof fn law_format_bytes_then_parse_bytes(
    model: ItemModel,
    items: Seq<ItemModel>,
    d: Date,
    r: Result<Date, ParseError>,
)
    requires
        d.wf(),
        model == ItemModel::Compound(items),
        forall|j: int| 0 <= j < items.len() ==> is_fixed_width_date_item(#[trigger] items[j]),
        ({
            let q = record_from(items, 0, d, Parsed::spec_empty());
            q.year is Some && q.month is Some && q.day is Some
        }),
        item_text(model, d) is Some,
        parse_outcome(item_text(model, d)->Some_0, model, r),
    ensures
        r == Ok::<Date, ParseError>(d),
{
    law_fixed_width_format_round_trip(items, d);
    law_format_then_parse(items, d, r);
}

/// The same for text: when the bytes written are valid UTF-8 (as they are
/// when the description's literals are), `Date::format` returns their text,
/// and whatever `Date::parse` returns on that text is `Ok(d)`.
pub proof fn law_format_then_parse_text(
    model: ItemModel,
    items: Seq<ItemModel>,
    d: Date,
    text: &str,
    r: Result<Date, ParseError>,
)
    requires
        d.wf(),
        model == ItemModel::Compound(items),
        forall|j: int| 0 <= j < items.len() ==> is_fixed_width_date_item(#[trigger] items[j]),
        ({
            let q = record_from(items, 0, d, Parsed::spec_empty());
            q.year is Some && q.month is Some && q.day is Some
        }),
        item_text(model, d) is Some,
        valid_utf8(item_text(model, d)->Some_0),
        text@ == decode_utf8(item_text(model, d)->Some_0),
        parse_outcome(text.spec_bytes(), model, r),
    ensures
        r == Ok::<Date, ParseError>(d),
{
    decode_utf8_encode_utf8(item_text(model, d)->Some_0);
    law_format_bytes_then_parse_bytes(model, items, d, r);
}

} // verus!
