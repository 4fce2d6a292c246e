//! Parsing input against a compiled format description.
use crate::calendar::{days_before_month, is_leap, iso_julian_day, valid_calendar_date, valid_ordinal_date};
use crate::combinator::{space_run, SPACE};
use crate::component::{
    month_names, period_names, split_sign, table_parse, timestamp_unit, weekday_names,
    month_spec, nonzero_number, offset_hour_spec, padded_number, parse_day, parse_end,
    parse_hour, parse_ignore, parse_minute, parse_month, parse_offset_hour, parse_offset_minute,
    parse_offset_second, parse_ordinal, parse_period, parse_second, parse_subsecond,
    parse_unix_timestamp, parse_week_number, parse_weekday, parse_year, period_spec,
    subsecond_spec, unix_timestamp_spec, weekday_spec, year_spec, Period,
};
use crate::date::Date;
use crate::error::ComponentRange;
use crate::format_item::{item_model, Component, ItemModel, OwnedFormatItem};
use crate::modifier;
use crate::modifier::Padding;
use crate::month::Month;
use crate::weekday::Weekday;
use vstd::prelude::*;
use vstd::string::StringSliceAdditionalSpecFns;

verus! {

broadcast use vstd::std_specs::vec::group_vec_axioms, vstd::seq::group_seq_axioms;

/// The fields that parsing has read so far.
#[derive(Debug, Clone, Copy, PartialEq, Eq, Structural)]
pub struct Parsed {
    pub year: Option<i32>,
    pub year_century: Option<i32>,
    pub year_last_two: Option<i32>,
    pub iso_year: Option<i32>,
    pub month: Option<Month>,
    pub day: Option<u8>,
    pub ordinal: Option<u16>,
    pub weekday: Option<Weekday>,
    pub iso_week: Option<u8>,
    pub sunday_week: Option<u8>,
    pub monday_week: Option<u8>,
    pub hour: Option<u8>,
    pub minute: Option<u8>,
    pub second: Option<u8>,
    pub subsecond: Option<u32>,
    pub period: Option<Period>,
    pub offset_hour: Option<i8>,
    pub offset_minute: Option<i8>,
    pub offset_second: Option<i8>,
    pub unix_timestamp_nanos: Option<i128>,
}

impl Parsed {
    /// Nothing read yet.
    pub open spec fn spec_empty() -> Parsed {
        Parsed {
            year: None,
            year_century: None,
            year_last_two: None,
            iso_year: None,
            month: None,
            day: None,
            ordinal: None,
            weekday: None,
            iso_week: None,
            sunday_week: None,
            monday_week: None,
            hour: None,
            minute: None,
            second: None,
            subsecond: None,
            period: None,
            offset_hour: None,
            offset_minute: None,
            offset_second: None,
            unix_timestamp_nanos: None,
        }
    }

    /// Nothing read yet.
    pub fn new() -> (r: Parsed)
        ensures
            r == Parsed::spec_empty(),
    {
        Parsed {
            year: None,
            year_century: None,
            year_last_two: None,
            iso_year: None,
            month: None,
            day: None,
            ordinal: None,
            weekday: None,
            iso_week: None,
            sunday_week: None,
            monday_week: None,
            hour: None,
            minute: None,
            second: None,
            subsecond: None,
            period: None,
            offset_hour: None,
            offset_minute: None,
            offset_second: None,
            unix_timestamp_nanos: None,
        }
    }
}

/// A failure to parse input against a format description.
#[derive(Debug, Clone, Copy, PartialEq, Eq)]
pub enum ParseError {
    /// The input does not match the description: at byte `index`, the
    /// component `component` was expected (a literal, when it is `None`).
    InvalidInput { index: usize, component: Option<Component> },
    /// The description matched a prefix of the input only.
    UnexpectedTrailingCharacters,
    /// The fields read do not determine a date.
    InsufficientInformation,
    /// The fields read are not a valid date.
    ComponentRange(ComponentRange),
}

/// Reading component `c` at the start of `s` into `p`: the input left and
/// the fields after, or nothing when the input does not hold the component.
pub open spec fn component_step(s: Seq<u8>, c: Component, p: Parsed) -> Option<(Seq<u8>, Parsed)> {
    match c {
        Component::Year(m) => match year_spec(s, m) {
            Some((rest, (v, _))) => Some(
                (
                    rest,
                    if m.iso_week_based {
                        Parsed { iso_year: Some(v), ..p }
                    } else if m.repr == modifier::YearRepr::Full {
                        Parsed { year: Some(v), ..p }
                    } else if m.repr == modifier::YearRepr::Century {
                        Parsed { year_century: Some(v), ..p }
                    } else {
                        Parsed { year_last_two: Some(v), ..p }
                    },
                ),
            ),
            None => None,
        },
        Component::Month(m) => match month_spec(s, m) {
            Some((rest, v)) => Some((rest, Parsed { month: Some(v), ..p })),
            None => None,
        },
        Component::Day(m) => match nonzero_number(s, 2, m.padding) {
            Some((rest, v)) => Some((rest, Parsed { day: Some(v as u8), ..p })),
            None => None,
        },
        Component::Ordinal(m) => match nonzero_number(s, 3, m.padding) {
            Some((rest, v)) => Some((rest, Parsed { ordinal: Some(v as u16), ..p })),
            None => None,
        },
        Component::Weekday(m) => match weekday_spec(s, m) {
            Some((rest, v)) => Some((rest, Parsed { weekday: Some(v), ..p })),
            None => None,
        },
        Component::WeekNumber(m) => match padded_number(s, 2, 2, m.padding) {
            Some((rest, v)) => Some(
                (
                    rest,
                    match m.repr {
                        modifier::WeekNumberRepr::Iso => Parsed { iso_week: Some(v as u8), ..p },
                        modifier::WeekNumberRepr::Sunday => Parsed {
                            sunday_week: Some(v as u8),
                            ..p
                        },
                        modifier::WeekNumberRepr::Monday => Parsed {
                            monday_week: Some(v as u8),
                            ..p
                        },
                    },
                ),
            ),
            None => None,
        },
        Component::Hour(m) => match padded_number(s, 2, 2, m.padding) {
            Some((rest, v)) => Some((rest, Parsed { hour: Some(v as u8), ..p })),
            None => None,
        },
        Component::Minute(m) => match padded_number(s, 2, 2, m.padding) {
            Some((rest, v)) => Some((rest, Parsed { minute: Some(v as u8), ..p })),
            None => None,
        },
        Component::Second(m) => match padded_number(s, 2, 2, m.padding) {
            Some((rest, v)) => Some((rest, Parsed { second: Some(v as u8), ..p })),
            None => None,
        },
        Component::Period(m) => match period_spec(s, m) {
            Some((rest, v)) => Some((rest, Parsed { period: Some(v), ..p })),
            None => None,
        },
        Component::Subsecond(m) => match subsecond_spec(s, m) {
            Some((rest, v)) => Some((rest, Parsed { subsecond: Some(v as u32), ..p })),
            None => None,
        },
        Component::OffsetHour(m) => match offset_hour_spec(s, m) {
            Some((rest, (v, _))) => Some((rest, Parsed { offset_hour: Some(v as i8), ..p })),
            None => None,
        },
        Component::OffsetMinute(m) => match padded_number(s, 2, 2, m.padding) {
            Some((rest, v)) => Some((rest, Parsed { offset_minute: Some(v as i8), ..p })),
            None => None,
        },
        Component::OffsetSecond(m) => match padded_number(s, 2, 2, m.padding) {
            Some((rest, v)) => Some((rest, Parsed { offset_second: Some(v as i8), ..p })),
            None => None,
        },
        Component::Ignore(m) => if m.count <= s.len() {
            Some((s.subrange(m.count as int, s.len() as int), p))
        } else {
            None
        },
        Component::UnixTimestamp(m) => match unix_timestamp_spec(s, m) {
            Some((rest, v)) => Some((rest, Parsed { unix_timestamp_nanos: Some(v as i128), ..p })),
            None => None,
        },
        Component::End(_) => if s.len() == 0 {
            Some((s, p))
        } else {
            None
        },
    }
}

proof fn lemma_space_run_exists(s: Seq<u8>, max: int)
    requires
        max >= 0,
    ensures
        exists|p: int| #[trigger] space_run(s, p, max),
    decreases max,
{
    if max == 0 || s.len() == 0 || s[0] != SPACE {
        assert(space_run(s, 0, max));
    } else {
        let t = s.drop_first();
        lemma_space_run_exists(t, max - 1);
        let q = choose|q: int| #[trigger] space_run(t, q, max - 1);
        assert(space_run(s, q + 1, max)) by {
            assert forall|i: int| 0 <= i < q + 1 implies #[trigger] s[i] == SPACE by {
                if i > 0 {
                    assert(s[i] == t[i - 1]);
                }
            }
            if q + 1 < s.len() && q + 1 < max && q < t.len() {
                assert(s[q + 1] == t[q]);
            }
        }
    }
}

proof fn lemma_padded_suffix(s: Seq<u8>, n: int, m: int, padding: Padding)
    requires
        1 <= n <= m,
    ensures
        padded_number(s, n, m, padding) matches Some((rest, _)) ==> rest.len() <= s.len(),
{
    lemma_space_run_exists(s, n - 1);
}

proof fn lemma_table_suffix(s: Seq<u8>, names: Seq<Seq<u8>>, cs: bool)
    ensures
        table_parse(s, names, cs) matches Some((rest, _)) ==> rest.len() <= s.len(),
{
}

/// A component read leaves a suffix of its input.
#[verifier::spinoff_prover]
#[verifier::rlimit(50)]
pub proof fn lemma_component_step_suffix(s: Seq<u8>, c: Component, p: Parsed)
    ensures
        component_step(s, c, p) matches Some((rest, _)) ==> rest.len() <= s.len(),
{
    let t = split_sign(s).0;
    assert(t.len() <= s.len());
    match c {
        Component::Year(m) => {
            lemma_padded_suffix(t, 4, 4, m.padding);
            lemma_padded_suffix(s, 4, 4, m.padding);
            lemma_padded_suffix(t, 2, 2, m.padding);
            lemma_padded_suffix(s, 2, 2, m.padding);
            lemma_padded_suffix(s, 1, 2, m.padding);
        },
        Component::Month(m) => {
            lemma_padded_suffix(s, 2, 2, m.padding);
            lemma_table_suffix(s, month_names(m.repr), m.case_sensitive);
        },
        Component::Day(m) => {
            lemma_padded_suffix(s, 2, 2, m.padding);
        },
        Component::Ordinal(m) => {
            lemma_padded_suffix(s, 3, 3, m.padding);
        },
        Component::Weekday(m) => {
            lemma_table_suffix(s, weekday_names(m), m.case_sensitive);
        },
        Component::WeekNumber(m) => {
            lemma_padded_suffix(s, 2, 2, m.padding);
        },
        Component::Hour(m) => {
            lemma_padded_suffix(s, 2, 2, m.padding);
        },
        Component::Minute(m) => {
            lemma_padded_suffix(s, 2, 2, m.padding);
        },
        Component::Second(m) => {
            lemma_padded_suffix(s, 2, 2, m.padding);
        },
        Component::Period(m) => {
            lemma_table_suffix(s, period_names(m), m.case_sensitive);
        },
        Component::Subsecond(m) => {},
        Component::OffsetHour(m) => {
            lemma_padded_suffix(t, 2, 2, m.padding);
        },
        Component::OffsetMinute(m) => {
            lemma_padded_suffix(s, 2, 2, m.padding);
        },
        Component::OffsetSecond(m) => {
            lemma_padded_suffix(s, 2, 2, m.padding);
        },
        Component::Ignore(m) => {},
        Component::UnixTimestamp(m) => {
            let max = timestamp_unit(m.precision).0;
            lemma_padded_suffix(t, 1, max, Padding::Zero);
        },
        Component::End(_) => {},
    }
}

/// The result of reading an item: the input left and the fields read; or,
/// when the item does not match, the input left where the failing item was
/// expected and the component expected there (none for a literal).
pub type Step = Result<(Seq<u8>, Parsed), (Seq<u8>, Option<Component>)>;

/// Reading the item `it` at the start of `s` into `p`. A literal must match
/// byte for byte; a compound reads its items in turn; an optional item that
/// does not match reads nothing; of alternatives, the first that matches is
/// read (when none does, the last one's failure is reported), and an empty
/// list reads nothing.
pub open spec fn item_step(s: Seq<u8>, it: ItemModel, p: Parsed) -> Step
    decreases it, 1int, 0int,
{
    match it {
        ItemModel::Literal(b) => if b.len() <= s.len() && s.subrange(0, b.len() as int) == b {
            Ok((s.subrange(b.len() as int, s.len() as int), p))
        } else {
            Err((s, None))
        },
        ItemModel::Component(c) => match component_step(s, c, p) {
            Some(r) => Ok(r),
            None => Err((s, Some(c))),
        },
        ItemModel::Compound(items) => compound_step(s, it, 0, p),
        ItemModel::Optional(inner) => match item_step(s, *inner, p) {
            Ok(r) => Ok(r),
            Err(_) => Ok((s, p)),
        },
        ItemModel::First(alternatives) => if alternatives.len() == 0 {
            Ok((s, p))
        } else {
            first_step(s, it, 0, p)
        },
    }
}

/// Reading the items of compound `it` from index `i` on.
pub open spec fn compound_step(s: Seq<u8>, it: ItemModel, i: int, p: Parsed) -> Step
    decreases it, 0int, it->Compound_0.len() - i,
    when it is Compound
{
    let items = it->Compound_0;
    if i < 0 || i >= items.len() {
        Ok((s, p))
    } else {
        match item_step(s, items[i], p) {
            Ok((rest, q)) => compound_step(rest, it, i + 1, q),
            Err(e) => Err(e),
        }
    }
}

/// Trying the alternatives of `it` from index `i` on.
pub open spec fn first_step(s: Seq<u8>, it: ItemModel, i: int, p: Parsed) -> Step
    decreases it, 0int, it->First_0.len() - i,
    when it is First
{
    let alternatives = it->First_0;
    if i < 0 || i >= alternatives.len() {
        Err((s, None))
    } else {
        match item_step(s, alternatives[i], p) {
            Ok(r) => Ok(r),
            Err(e) => if i + 1 >= alternatives.len() {
                Err(e)
            } else {
                first_step(s, it, i + 1, p)
            },
        }
    }
}

/// The input a step leaves, on success or on failure.
pub open spec fn step_rest(r: Step) -> Seq<u8> {
    match r {
        Ok((rest, _)) => rest,
        Err((rest, _)) => rest,
    }
}

/// Reading an item leaves a suffix of the input, whether it succeeds or
/// fails.
pub proof fn lemma_item_step_suffix(s: Seq<u8>, it: ItemModel, p: Parsed)
    ensures
        step_rest(item_step(s, it, p)).len() <= s.len(),
    decreases it, 1int, 0int,
{
    match it {
        ItemModel::Literal(b) => {},
        ItemModel::Component(c) => {
            lemma_component_step_suffix(s, c, p);
        },
        ItemModel::Compound(items) => {
            lemma_compound_step_suffix(s, it, 0, p);
        },
        ItemModel::Optional(inner) => {
            lemma_item_step_suffix(s, *inner, p);
        },
        ItemModel::First(alternatives) => {
            if alternatives.len() > 0 {
                lemma_first_step_suffix(s, it, 0, p);
            }
        },
    }
}

proof fn lemma_compound_step_suffix(s: Seq<u8>, it: ItemModel, i: int, p: Parsed)
    requires
        it is Compound,
    ensures
        step_rest(compound_step(s, it, i, p)).len() <= s.len(),
    decreases it, 0int, it->Compound_0.len() - i,
{
    let items = it->Compound_0;
    if 0 <= i < items.len() {
        lemma_item_step_suffix(s, items[i], p);
        match item_step(s, items[i], p) {
            Ok((rest, q)) => {
                lemma_compound_step_suffix(rest, it, i + 1, q);
            },
            Err(_) => {},
        }
    }
}

proof fn lemma_first_step_suffix(s: Seq<u8>, it: ItemModel, i: int, p: Parsed)
    requires
        it is First,
    ensures
        step_rest(first_step(s, it, i, p)).len() <= s.len(),
    decreases it, 0int, it->First_0.len() - i,
{
    let alternatives = it->First_0;
    if 0 <= i < alternatives.len() {
        lemma_item_step_suffix(s, alternatives[i], p);
        lemma_first_step_suffix(s, it, i + 1, p);
    }
}

/// A component read's result, with the input left as a sequence.
pub open spec fn component_view<'a>(r: Option<(&'a [u8], Parsed)>) -> Option<(Seq<u8>, Parsed)> {
    match r {
        Some((rest, q)) => Some((rest@, q)),
        None => None,
    }
}

/// A step's result, with the inputs left as sequences.
pub open spec fn step_view<'a>(
    r: Result<(&'a [u8], Parsed), (&'a [u8], Option<Component>)>,
) -> Step {
    match r {
        Ok((rest, q)) => Ok((rest@, q)),
        Err((rest, c)) => Err((rest@, c)),
    }
}

/// Read component `c` at the start of `s` into `p`, as `component_step`
/// describes.
pub fn parse_component<'a>(s: &'a [u8], c: Component, p: Parsed) -> (r: Option<(&'a [u8], Parsed)>)
    ensures
        component_view(r) == component_step(s@, c, p),
{
    match c {
        Component::Year(m) => match parse_year(s, m) {
            Some(parsed) => {
                let v = parsed.1.0;
                let q = if m.iso_week_based {
                    Parsed { iso_year: Some(v), ..p }
                } else {
                    match m.repr {
                        modifier::YearRepr::Full => Parsed { year: Some(v), ..p },
                        modifier::YearRepr::Century => Parsed { year_century: Some(v), ..p },
                        modifier::YearRepr::LastTwo => Parsed { year_last_two: Some(v), ..p },
                    }
                };
                Some((parsed.0, q))
            },
            None => None,
        },
        Component::Month(m) => match parse_month(s, m) {
            Some(parsed) => Some((parsed.0, Parsed { month: Some(parsed.1), ..p })),
            None => None,
        },
        Component::Day(m) => match parse_day(s, m) {
            Some(parsed) => Some((parsed.0, Parsed { day: Some(parsed.1), ..p })),
            None => None,
        },
        Component::Ordinal(m) => match parse_ordinal(s, m) {
            Some(parsed) => Some((parsed.0, Parsed { ordinal: Some(parsed.1), ..p })),
            None => None,
        },
        Component::Weekday(m) => match parse_weekday(s, m) {
            Some(parsed) => Some((parsed.0, Parsed { weekday: Some(parsed.1), ..p })),
            None => None,
        },
        Component::WeekNumber(m) => match parse_week_number(s, m) {
            Some(parsed) => {
                let v = parsed.1;
                let q = match m.repr {
                    modifier::WeekNumberRepr::Iso => Parsed { iso_week: Some(v), ..p },
                    modifier::WeekNumberRepr::Sunday => Parsed { sunday_week: Some(v), ..p },
                    modifier::WeekNumberRepr::Monday => Parsed { monday_week: Some(v), ..p },
                };
                Some((parsed.0, q))
            },
            None => None,
        },
        Component::Hour(m) => match parse_hour(s, m) {
            Some(parsed) => Some((parsed.0, Parsed { hour: Some(parsed.1), ..p })),
            None => None,
        },
        Component::Minute(m) => match parse_minute(s, m) {
            Some(parsed) => Some((parsed.0, Parsed { minute: Some(parsed.1), ..p })),
            None => None,
        },
        Component::Second(m) => match parse_second(s, m) {
            Some(parsed) => Some((parsed.0, Parsed { second: Some(parsed.1), ..p })),
            None => None,
        },
        Component::Period(m) => match parse_period(s, m) {
            Some(parsed) => Some((parsed.0, Parsed { period: Some(parsed.1), ..p })),
            None => None,
        },
        Component::Subsecond(m) => match parse_subsecond(s, m) {
            Some(parsed) => Some((parsed.0, Parsed { subsecond: Some(parsed.1), ..p })),
            None => None,
        },
        Component::OffsetHour(m) => match parse_offset_hour(s, m) {
            Some(parsed) => Some((parsed.0, Parsed { offset_hour: Some(parsed.1.0), ..p })),
            None => None,
        },
        Component::OffsetMinute(m) => match parse_offset_minute(s, m) {
            Some(parsed) => Some((parsed.0, Parsed { offset_minute: Some(parsed.1), ..p })),
            None => None,
        },
        Component::OffsetSecond(m) => match parse_offset_second(s, m) {
            Some(parsed) => Some((parsed.0, Parsed { offset_second: Some(parsed.1), ..p })),
            None => None,
        },
        Component::Ignore(m) => match parse_ignore(s, m) {
            Some(parsed) => Some((parsed.0, p)),
            None => None,
        },
        Component::UnixTimestamp(m) => match parse_unix_timestamp(s, m) {
            Some(parsed) => Some((parsed.0, Parsed { unix_timestamp_nanos: Some(parsed.1), ..p })),
            None => None,
        },
        Component::End(m) => match parse_end(s, m) {
            Some(parsed) => Some((parsed.0, p)),
            None => None,
        },
    }
}

/// Whether `s` starts with `prefix`.
fn starts_with_bytes(s: &[u8], prefix: &Vec<u8>) -> (r: bool)
    ensures
        r == (prefix@.len() <= s@.len() && s@.subrange(0, prefix@.len() as int) == prefix@),
{
    if prefix.len() > s.len() {
        return false;
    }
    let mut i: usize = 0;
    while i < prefix.len()
        invariant
            prefix@.len() <= s@.len(),
            i <= prefix@.len(),
            s@.subrange(0, i as int) == prefix@.subrange(0, i as int),
        decreases prefix@.len() - i,
    {
        if s[i] != prefix[i] {
            assert(s@.subrange(0, prefix@.len() as int)[i as int] != prefix@[i as int]);
            return false;
        }
        i = i + 1;
        assert(s@.subrange(0, i as int) =~= prefix@.subrange(0, i as int));
    }
    assert(prefix@.subrange(0, i as int) =~= prefix@);
    true
}

/// Read the item `it` at the start of `s` into `p`, as `item_step`
/// describes.
pub fn parse_item<'a>(s: &'a [u8], it: &OwnedFormatItem, p: Parsed) -> (r: Result<
    (&'a [u8], Parsed),
    (&'a [u8], Option<Component>),
>)
    ensures
        step_view(r) == item_step(s@, item_model(it), p),
    decreases it,
{
    match it {
        OwnedFormatItem::Literal(b) => {
            if starts_with_bytes(s, b) {
                Ok((&s[b.len()..s.len()], p))
            } else {
                Err((s, None))
            }
        },
        OwnedFormatItem::Component(c) => match parse_component(s, *c, p) {
            Some(r) => Ok(r),
            None => Err((s, Some(*c))),
        },
        OwnedFormatItem::Compound(items) => {
            let ghost model = item_model(it);
            let mut rest = s;
            let mut q = p;
            let mut i: usize = 0;
            while i < items.len()
                invariant
                    model == item_model(it),
                    *it == OwnedFormatItem::Compound(*items),
                    i <= items@.len(),
                    model->Compound_0.len() == items@.len(),
                    item_step(s@, model, p) == compound_step(rest@, model, i as int, q),
                decreases items@.len() - i,
            {
                proof {
                    assert(model->Compound_0[i as int] == item_model(&items@[i as int]));
                }
                match parse_item(rest, &items[i], q) {
                    Ok((next, next_q)) => {
                        rest = next;
                        q = next_q;
                    },
                    Err(e) => {
                        return Err(e);
                    },
                }
                i = i + 1;
            }
            Ok((rest, q))
        },
        OwnedFormatItem::Optional(inner) => match parse_item(s, &**inner, p) {
            Ok(r) => Ok(r),
            Err(_) => Ok((s, p)),
        },
        OwnedFormatItem::First(alternatives) => {
            let ghost model = item_model(it);
            if alternatives.len() == 0 {
                return Ok((s, p));
            }
            let mut i: usize = 0;
            loop
                invariant
                    model == item_model(it),
                    *it == OwnedFormatItem::First(*alternatives),
                    i < alternatives@.len(),
                    model->First_0.len() == alternatives@.len(),
                    item_step(s@, model, p) == first_step(s@, model, i as int, p),
                decreases alternatives@.len() - i,
            {
                proof {
                    assert(model->First_0[i as int] == item_model(&alternatives@[i as int]));
                }
                match parse_item(s, &alternatives[i], p) {
                    Ok(r) => {
                        return Ok(r);
                    },
                    Err(e) => {
                        if i >= alternatives.len() - 1 {
                            return Err(e);
                        }
                    },
                }
                i = i + 1;
            }
        },
    }
}

/// What a date built from the fields `p` is: from the calendar date when the
/// year, month and day were read; else from the ordinal date when the year
/// and the day of the year were; else from the ISO week date when the ISO
/// year, the ISO week and the weekday were; else nothing.
pub open spec fn date_outcome(p: Parsed, r: Result<Date, ParseError>) -> bool {
    if p.year is Some && p.month is Some && p.day is Some {
        let y = p.year->Some_0 as int;
        let m = p.month->Some_0.spec_number();
        let d = p.day->Some_0 as int;
        if valid_calendar_date(y, m, d) {
            r is Ok && r->Ok_0.wf() && r->Ok_0.is_ordinal_date(y, days_before_month(m, is_leap(y)) + d)
        } else {
            r is Err && r->Err_0 is ComponentRange
        }
    } else if p.year is Some && p.ordinal is Some {
        let y = p.year->Some_0 as int;
        let o = p.ordinal->Some_0 as int;
        if valid_ordinal_date(y, o) {
            r is Ok && r->Ok_0.wf() && r->Ok_0.is_ordinal_date(y, o)
        } else {
            r is Err && r->Err_0 is ComponentRange
        }
    } else if p.iso_year is Some && p.iso_week is Some && p.weekday is Some {
        let y = p.iso_year->Some_0 as int;
        let w = p.iso_week->Some_0 as int;
        let jd = iso_julian_day(y, w, p.weekday->Some_0.index() + 1);
        if crate::calendar::year_in_range(y) && 1 <= w <= crate::calendar::iso_weeks_in_year(y)
            && jd <= crate::calendar::MAX_JULIAN_DAY {
            r is Ok && r->Ok_0.wf() && r->Ok_0.spec_julian_day() == jd
        } else {
            r is Err && r->Err_0 is ComponentRange
        }
    } else {
        r == Err::<Date, ParseError>(ParseError::InsufficientInformation)
    }
}

/// The date that the fields `p` determine, as `date_outcome` describes.
pub fn date_from_parsed(p: Parsed) -> (r: Result<Date, ParseError>)
    ensures
        date_outcome(p, r),
{
    match (p.year, p.month, p.day) {
        (Some(y), Some(m), Some(d)) => {
            return match Date::from_calendar_date(y, m, d) {
                Ok(date) => Ok(date),
                Err(e) => Err(ParseError::ComponentRange(e)),
            };
        },
        _ => {},
    }
    match (p.year, p.ordinal) {
        (Some(y), Some(o)) => {
            return match Date::from_ordinal_date(y, o) {
                Ok(date) => Ok(date),
                Err(e) => Err(ParseError::ComponentRange(e)),
            };
        },
        _ => {},
    }
    match (p.iso_year, p.iso_week, p.weekday) {
        (Some(y), Some(w), Some(wd)) => match Date::from_iso_week_date(y, w, wd) {
            Ok(date) => Ok(date),
            Err(e) => Err(ParseError::ComponentRange(e)),
        },
        _ => Err(ParseError::InsufficientInformation),
    }
}

/// What parsing a date from `input` with a description of shape `model`
/// gives: the input must match as a whole, and the fields read must make a
/// date (see `date_outcome`).
pub open spec fn parse_outcome(input: Seq<u8>, model: ItemModel, r: Result<Date, ParseError>) -> bool {
    match item_step(input, model, Parsed::spec_empty()) {
        Err((rest, c)) => r == Err::<Date, ParseError>(
            ParseError::InvalidInput { index: (input.len() - rest.len()) as usize, component: c },
        ),
        Ok((rest, p)) => if rest.len() > 0 {
            r == Err::<Date, ParseError>(ParseError::UnexpectedTrailingCharacters)
        } else {
            date_outcome(p, r)
        },
    }
}

impl Date {
    /// Parse a date from the bytes `input` with a compiled format
    /// description. The whole input must match.
    pub fn parse_bytes(input: &[u8], description: &OwnedFormatItem) -> (r: Result<Date, ParseError>)
        ensures
            parse_outcome(input@, item_model(description), r),
    {
        proof {
            lemma_item_step_suffix(input@, item_model(description), Parsed::spec_empty());
        }
        match parse_item(input, description, Parsed::new()) {
            Err((rest, c)) => Err(
                ParseError::InvalidInput { index: input.len() - rest.len(), component: c },
            ),
            Ok((rest, p)) => if rest.len() > 0 {
                Err(ParseError::UnexpectedTrailingCharacters)
            } else {
                date_from_parsed(p)
            },
        }
    }

    /// Parse a date from `input` with a compiled format description. The
    /// whole input must match.
    pub fn parse(input: &str, description: &OwnedFormatItem) -> (r: Result<Date, ParseError>)
        ensures
            parse_outcome(input.spec_bytes(), item_model(description), r),
    {
        Date::parse_bytes(input.as_bytes(), description)
    }
}

} // verus!
