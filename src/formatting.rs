//! Writing dates with a compiled format description.
use crate::component::{month_names, weekday_names};
use crate::date::Date;
use crate::format_item::{item_model, Component, ItemModel, OwnedFormatItem};
use crate::modifier;
use crate::modifier::Padding;
use crate::names::{
    month_long_table, month_short_table, view_names, weekday_long_table,
    weekday_monday_one_table, weekday_monday_zero_table, weekday_short_table,
    weekday_sunday_one_table, weekday_sunday_zero_table,
};
use vstd::prelude::*;
use vstd::utf8::{decode_utf8, valid_utf8};

verus! {

broadcast use vstd::std_specs::vec::group_vec_axioms, vstd::seq::group_seq_axioms;

/// The decimal digits of `v`, without leading zeros (`0` is one digit).
pub open spec fn digits_of(v: nat) -> Seq<u8>
    decreases v,
{
    if v < 10 {
        seq![(0x30 + v) as u8]
    } else {
        digits_of(v / 10).push((0x30 + v % 10) as u8)
    }
}

/// `digits` padded on the left to `width` bytes, with zeros or spaces.
pub open spec fn pad(digits: Seq<u8>, width: nat, padding: Padding) -> Seq<u8> {
    if padding == Padding::Unpadded || digits.len() >= width {
        digits
    } else {
        Seq::new(
            (width - digits.len()) as nat,
            |i: int|
                if padding == Padding::Zero {
                    0x30u8
                } else {
                    0x20u8
                },
        ) + digits
    }
}

/// `v` in decimal, padded to `width`.
pub open spec fn number_text(v: nat, width: nat, padding: Padding) -> Seq<u8> {
    pad(digits_of(v), width, padding)
}

/// The sign written before a year: `-` below zero, `+` when the modifier asks
/// for a sign.
pub open spec fn year_sign(y: int, mandatory: bool) -> Seq<u8> {
    if y < 0 {
        seq![0x2Du8]
    } else if mandatory {
        seq![0x2Bu8]
    } else {
        seq![]
    }
}

pub open spec fn abs(y: int) -> nat {
    if y < 0 {
        (-y) as nat
    } else {
        y as nat
    }
}

/// The text of component `c` for date `d`; nothing for a component that a
/// date does not have (a time or an offset).
pub open spec fn component_text(c: Component, d: Date) -> Option<Seq<u8>> {
    match c {
        Component::Year(m) => {
            let y = if m.iso_week_based {
                d.spec_iso_year_week().0
            } else {
                d.spec_year()
            };
            match m.repr {
                modifier::YearRepr::Full => Some(
                    year_sign(y, m.sign_is_mandatory) + number_text(abs(y), 4, m.padding),
                ),
                modifier::YearRepr::Century => Some(
                    year_sign(y, m.sign_is_mandatory) + number_text(abs(y) / 100, 2, m.padding),
                ),
                modifier::YearRepr::LastTwo => Some(number_text(abs(y) % 100, 2, m.padding)),
            }
        },
        Component::Month(m) => if m.repr == modifier::MonthRepr::Numerical {
            Some(number_text(d.spec_month() as nat, 2, m.padding))
        } else {
            Some(month_names(m.repr)[d.spec_month() - 1])
        },
        Component::Day(m) => Some(number_text(d.spec_day() as nat, 2, m.padding)),
        Component::Ordinal(m) => Some(number_text(d.spec_ordinal() as nat, 3, m.padding)),
        Component::Weekday(m) => Some(weekday_names(m)[d.spec_weekday()]),
        Component::WeekNumber(m) => Some(
            number_text(
                match m.repr {
                    modifier::WeekNumberRepr::Iso => d.spec_iso_year_week().1 as nat,
                    modifier::WeekNumberRepr::Sunday => ((d.spec_ordinal() - (d.spec_weekday() + 1)
                        % 7 + 6) / 7) as nat,
                    modifier::WeekNumberRepr::Monday => ((d.spec_ordinal() - d.spec_weekday() + 6)
                        / 7) as nat,
                },
                2,
                m.padding,
            ),
        ),
        Component::Ignore(_) => Some(seq![]),
        Component::End(_) => Some(seq![]),
        _ => None,
    }
}

/// The text of item `it` for date `d`: literals as they are, compounds item
/// after item, an optional item's content, the first of alternatives (an
/// empty list writes nothing).
pub open spec fn item_text(it: ItemModel, d: Date) -> Option<Seq<u8>>
    decreases it, 1int, 0int,
{
    match it {
        ItemModel::Literal(b) => Some(b),
        ItemModel::Component(c) => component_text(c, d),
        ItemModel::Compound(items) => compound_text(it, 0, d),
        ItemModel::Optional(inner) => item_text(*inner, d),
        ItemModel::First(alternatives) => if alternatives.len() == 0 {
            Some(seq![])
        } else {
            item_text(alternatives[0], d)
        },
    }
}

/// The text of the items of compound `it` from index `i` on.
pub open spec fn compound_text(it: ItemModel, i: int, d: Date) -> Option<Seq<u8>>
    decreases it, 0int, it->Compound_0.len() - i,
    when it is Compound
{
    let items = it->Compound_0;
    if i < 0 || i >= items.len() {
        Some(seq![])
    } else {
        match item_text(items[i], d) {
            Some(head) => match compound_text(it, i + 1, d) {
                Some(tail) => Some(head + tail),
                None => None,
            },
            None => None,
        }
    }
}

/// Append the decimal digits of `v`.
fn push_digits(out: &mut Vec<u8>, v: u32)
    ensures
        final(out)@ == old(out)@ + digits_of(v as nat),
    decreases v,
{
    if v >= 10 {
        push_digits(out, v / 10);
    }
    out.push(0x30 + (v % 10) as u8);
    proof {
        if v < 10 {
            assert(digits_of(v as nat) == seq![(0x30 + v) as u8]);
        }
    }
    assert(out@ =~= old(out)@ + digits_of(v as nat));
}

/// Append `v` in decimal, padded to `width`.
fn push_number(out: &mut Vec<u8>, v: u32, width: usize, padding: Padding)
    ensures
        final(out)@ == old(out)@ + number_text(v as nat, width as nat, padding),
{
    let mut digits: Vec<u8> = Vec::new();
    push_digits(&mut digits, v);
    assert(digits@ =~= digits_of(v as nat));
    if padding != Padding::Unpadded && digits.len() < width {
        let fill: u8 = if padding == Padding::Zero {
            0x30
        } else {
            0x20
        };
        let count = width - digits.len();
        let mut i: usize = 0;
        let ghost start = out@;
        while i < count
            invariant
                i <= count,
                out@ == start + Seq::new(i as nat, |j: int| fill),
            decreases count - i,
        {
            out.push(fill);
            i = i + 1;
            assert(out@ =~= start + Seq::new(i as nat, |j: int| fill));
        }
        let ghost padded = out@;
        let mut k: usize = 0;
        while k < digits.len()
            invariant
                k <= digits@.len(),
                out@ == padded + digits@.subrange(0, k as int),
            decreases digits@.len() - k,
        {
            out.push(digits[k]);
            k = k + 1;
            assert(out@ =~= padded + digits@.subrange(0, k as int));
        }
        proof {
            assert(digits@.subrange(0, k as int) =~= digits@);
            let p = Seq::new(count as nat, |j: int| fill);
            assert(p =~= Seq::new(
                (width - digits@.len()) as nat,
                |j: int|
                    if padding == Padding::Zero {
                        0x30u8
                    } else {
                        0x20u8
                    },
            ));
            assert(out@ =~= old(out)@ + number_text(v as nat, width as nat, padding));
        }
    } else {
        push_bytes(out, &digits);
    }
}

/// Append `bytes`.
fn push_bytes(out: &mut Vec<u8>, bytes: &Vec<u8>)
    ensures
        final(out)@ == old(out)@ + bytes@,
{
    let ghost start = out@;
    let mut k: usize = 0;
    while k < bytes.len()
        invariant
            k <= bytes@.len(),
            out@ == start + bytes@.subrange(0, k as int),
        decreases bytes@.len() - k,
    {
        out.push(bytes[k]);
        k = k + 1;
        assert(out@ =~= start + bytes@.subrange(0, k as int));
    }
    assert(bytes@.subrange(0, k as int) =~= bytes@);
}

/// Append the sign of a year, as `year_sign` says.
fn push_year_sign(out: &mut Vec<u8>, y: i32, mandatory: bool)
    ensures
        final(out)@ == old(out)@ + year_sign(y as int, mandatory),
{
    if y < 0 {
        out.push(0x2D);
    } else if mandatory {
        out.push(0x2B);
    }
    assert(out@ =~= old(out)@ + year_sign(y as int, mandatory));
}

/// The text of a year component for `d`.
fn year_text(m: modifier::Year, d: Date) -> (r: Vec<u8>)
    requires
        d.wf(),
    ensures
        component_text(Component::Year(m), d) == Some(r@),
{
    proof {
        Date::lemma_valid(d);
    }
    let y = if m.iso_week_based {
        let (iso_year, _) = d.iso_year_week();
        iso_year
    } else {
        d.year()
    };
    let magnitude: u32 = if y < 0 {
        (-y) as u32
    } else {
        y as u32
    };
    assert(magnitude == abs(y as int));
    let mut t: Vec<u8> = Vec::new();
    match m.repr {
        modifier::YearRepr::Full => {
            push_year_sign(&mut t, y, m.sign_is_mandatory);
            push_number(&mut t, magnitude, 4, m.padding);
        },
        modifier::YearRepr::Century => {
            push_year_sign(&mut t, y, m.sign_is_mandatory);
            push_number(&mut t, magnitude / 100, 2, m.padding);
        },
        modifier::YearRepr::LastTwo => {
            push_number(&mut t, magnitude % 100, 2, m.padding);
        },
    }
    proof {
        assert(seq![] + year_sign(y as int, m.sign_is_mandatory) =~= year_sign(
            y as int,
            m.sign_is_mandatory,
        ));
        assert(seq![] + number_text(abs(y as int) % 100, 2, m.padding) =~= number_text(
            abs(y as int) % 100,
            2,
            m.padding,
        ));
    }
    t
}

/// Append the text of component `c` for `d`, when the date has it.
fn push_component(out: &mut Vec<u8>, c: Component, d: Date) -> (r: bool)
    requires
        d.wf(),
    ensures
        match component_text(c, d) {
            Some(text) => r && final(out)@ == old(out)@ + text,
            None => !r,
        },
{
    proof {
        Date::lemma_valid(d);
    }
    match c {
        Component::Year(m) => {
            let t = year_text(m, d);
            push_bytes(out, &t);
            true
        },
        Component::Month(m) => {
            let month = d.month().number();
            match m.repr {
                modifier::MonthRepr::Numerical => push_number(out, month as u32, 2, m.padding),
                modifier::MonthRepr::Long => {
                    let names = month_long_table();
                    proof {
                        assert(view_names(names@).len() == names@.len());
                        assert(view_names(names@)[month as int - 1] == names@[month as int - 1]@);
                    }
                    push_bytes(out, &names[month as usize - 1]);
                },
                modifier::MonthRepr::Short => {
                    let names = month_short_table();
                    proof {
                        assert(view_names(names@).len() == names@.len());
                        assert(view_names(names@)[month as int - 1] == names@[month as int - 1]@);
                    }
                    push_bytes(out, &names[month as usize - 1]);
                },
            }
            true
        },
        Component::Day(m) => {
            push_number(out, d.day() as u32, 2, m.padding);
            true
        },
        Component::Ordinal(m) => {
            push_number(out, d.ordinal() as u32, 3, m.padding);
            true
        },
        Component::Weekday(m) => {
            let names = match (m.repr, m.one_indexed) {
                (modifier::WeekdayRepr::Short, _) => weekday_short_table(),
                (modifier::WeekdayRepr::Long, _) => weekday_long_table(),
                (modifier::WeekdayRepr::Sunday, false) => weekday_sunday_zero_table(),
                (modifier::WeekdayRepr::Sunday, true) => weekday_sunday_one_table(),
                (modifier::WeekdayRepr::Monday, false) => weekday_monday_zero_table(),
                (modifier::WeekdayRepr::Monday, true) => weekday_monday_one_table(),
            };
            let index = d.weekday().number_days_from_monday();
            proof {
                assert(view_names(names@).len() == names@.len());
                assert(view_names(names@)[index as int] == names@[index as int]@);
            }
            push_bytes(out, &names[index as usize]);
            true
        },
        Component::WeekNumber(m) => {
            let week = match m.repr {
                modifier::WeekNumberRepr::Iso => d.iso_week(),
                modifier::WeekNumberRepr::Sunday => d.sunday_based_week(),
                modifier::WeekNumberRepr::Monday => d.monday_based_week(),
            };
            push_number(out, week as u32, 2, m.padding);
            true
        },
        Component::Ignore(_) | Component::End(_) => {
            assert(out@ =~= old(out)@ + seq![]);
            true
        },
        _ => false,
    }
}

/// `p` put before the text of `r`.
pub open spec fn prepend_text(p: Seq<u8>, r: Option<Seq<u8>>) -> Option<Seq<u8>> {
    match r {
        Some(t) => Some(p + t),
        None => None,
    }
}

/// Append the text of item `it` for `d`, when the date has every component
/// that it names.
pub fn push_item(out: &mut Vec<u8>, it: &OwnedFormatItem, d: Date) -> (r: bool)
    requires
        d.wf(),
    ensures
        match item_text(item_model(it), d) {
            Some(text) => r && final(out)@ == old(out)@ + text,
            None => !r,
        },
    decreases it,
{
    match it {
        OwnedFormatItem::Literal(b) => {
            push_bytes(out, b);
            true
        },
        OwnedFormatItem::Component(c) => push_component(out, *c, d),
        OwnedFormatItem::Compound(items) => {
            let ghost model = item_model(it);
            let ghost start = out@;
            let ghost mut done: Seq<u8> = seq![];
            let mut i: usize = 0;
            proof {
                match compound_text(model, 0, d) {
                    Some(t) => {
                        assert(seq![] + t =~= t);
                    },
                    None => {},
                }
            }
            while i < items.len()
                invariant
                    model == item_model(it),
                    *it == OwnedFormatItem::Compound(*items),
                    i <= items@.len(),
                    model->Compound_0.len() == items@.len(),
                    d.wf(),
                    out@ == start + done,
                    item_text(model, d) == prepend_text(done, compound_text(model, i as int, d)),
                decreases items@.len() - i,
            {
                proof {
                    assert(model->Compound_0[i as int] == item_model(&items@[i as int]));
                }
                let ghost before = out@;
                if !push_item(out, &items[i], d) {
                    return false;
                }
                proof {
                    let head = out@.subrange(before.len() as int, out@.len() as int);
                    assert(out@ =~= before + head);
                    match compound_text(model, i + 1, d) {
                        Some(t) => {
                            assert(done + (head + t) =~= (done + head) + t);
                        },
                        None => {},
                    }
                    done = done + head;
                    assert(out@ =~= start + done);
                }
                i = i + 1;
            }
            proof {
                assert(done + seq![] =~= done);
            }
            true
        },
        OwnedFormatItem::Optional(inner) => push_item(out, &**inner, d),
        OwnedFormatItem::First(alternatives) => {
            if alternatives.len() == 0 {
                assert(out@ =~= old(out)@ + seq![]);
                return true;
            }
            proof {
                assert(item_model(it)->First_0[0] == item_model(&alternatives@[0]));
            }
            push_item(out, &alternatives[0], d)
        },
    }
}

/// A date could not be formatted.
#[derive(Debug, Clone, Copy, PartialEq, Eq, Hash, Structural)]
pub enum FormatError {
    /// The description names a component that a date does not have.
    InsufficientTypeInformation,
}

/// The text of a date as it is displayed: `YYYY-MM-DD`, with at least four
/// digits of year and a `-` before a negative year.
pub open spec fn display_text(d: Date) -> Seq<u8> {
    year_sign(d.spec_year(), false) + number_text(abs(d.spec_year()), 4, Padding::Zero) + seq![
        0x2Du8,
    ] + number_text(d.spec_month() as nat, 2, Padding::Zero) + seq![0x2Du8] + number_text(
        d.spec_day() as nat,
        2,
        Padding::Zero,
    )
}

/// What displaying a date needs: the width of its year (sign included),
/// whether a sign is shown, and the year, month and day.
#[derive(Debug, Clone, Copy, PartialEq, Eq, Hash, Structural)]
pub struct DateMetadata {
    pub year_width: u8,
    pub display_sign: bool,
    pub year: i32,
    pub month: u8,
    pub day: u8,
}

impl DateMetadata {
    /// The width of the displayed date: the year, then `-MM-DD`.
    pub fn formatted_width(&self) -> (r: usize)
        ensures
            r == self.year_width + 6,
    {
        self.year_width as usize + 6
    }
}

/// The number of decimal digits of `v`.
fn digit_count(v: u32) -> (r: u8)
    requires
        v < 100_000,
    ensures
        r as int == digits_of(v as nat).len(),
        r <= 5,
{
    proof {
        reveal_with_fuel(digits_of, 6);
    }
    if v < 10 {
        1
    } else if v < 100 {
        2
    } else if v < 1_000 {
        3
    } else if v < 10_000 {
        4
    } else {
        5
    }
}

impl Date {
    /// The parts and widths that displaying the date needs.
    pub fn metadata(self) -> (r: DateMetadata)
        requires
            self.wf(),
        ensures
            r.year == self.spec_year(),
            r.month == self.spec_month(),
            r.day == self.spec_day(),
            r.display_sign == !(0 <= self.spec_year() < 10_000),
            r.year_width == (if digits_of(abs(self.spec_year())).len() > 4 {
                digits_of(abs(self.spec_year())).len() as int
            } else {
                4int
            }) + (if r.display_sign {
                1int
            } else {
                0int
            }),
            r.year_width + 6 == display_text(self).len(),
    {
        proof {
            Date::lemma_valid(self);
        }
        let (year, month, day) = self.to_calendar_date();
        let magnitude: u32 = if year < 0 {
            (-year) as u32
        } else {
            year as u32
        };
        let digits = digit_count(magnitude);
        let mut year_width: u8 = if digits > 4 {
            digits
        } else {
            4
        };
        let display_sign = if !(0 <= year && year < 10_000) {
            year_width = year_width + 1;
            true
        } else {
            false
        };
        proof {
            lemma_digits_ascii(abs(year as int));
            lemma_digits_ascii(month.spec_number() as nat);
            lemma_digits_ascii(day as nat);
            reveal_with_fuel(digits_of, 3);
            assert(digits_of(month.spec_number() as nat).len() <= 2);
            assert(digits_of(day as nat).len() <= 2);
        }
        DateMetadata { year_width, display_sign, year, month: month.number(), day }
    }

    /// The date as it is displayed, as bytes: see `display_text`.
    pub fn display_bytes(self) -> (r: Vec<u8>)
        requires
            self.wf(),
        ensures
            r@ == display_text(self),
    {
        proof {
            Date::lemma_valid(self);
        }
        let metadata = self.metadata();
        let mut out: Vec<u8> = Vec::new();
        push_year_sign(&mut out, metadata.year, false);
        let magnitude: u32 = if metadata.year < 0 {
            (-metadata.year) as u32
        } else {
            metadata.year as u32
        };
        push_number(&mut out, magnitude, 4, Padding::Zero);
        out.push(0x2D);
        push_number(&mut out, metadata.month as u32, 2, Padding::Zero);
        out.push(0x2D);
        push_number(&mut out, metadata.day as u32, 2, Padding::Zero);
        assert(out@ =~= display_text(self));
        out
    }

    /// The date as it is displayed: see `display_text`.
    pub fn to_display_string(self) -> (r: String)
        requires
            self.wf(),
        ensures
            r@ == decode_utf8(display_text(self)),
    {
        let bytes = self.display_bytes();
        proof {
            lemma_display_ascii(self);
        }
        string_from_bytes(&bytes)
    }

    /// Append the text of `description` for this date to `output`, and give
    /// the number of bytes written; fails when the description names a time
    /// or an offset.
    pub fn format_into(self, output: &mut Vec<u8>, description: &OwnedFormatItem) -> (r: Result<
        usize,
        FormatError,
    >)
        requires
            self.wf(),
        ensures
            match item_text(item_model(description), self) {
                Some(text) => r == Ok::<usize, FormatError>(text.len() as usize) && final(output)@
                    == old(output)@ + text,
                None => r == Err::<usize, FormatError>(FormatError::InsufficientTypeInformation),
            },
    {
        let start = output.len();
        if push_item(output, description, self) {
            Ok(output.len() - start)
        } else {
            Err(FormatError::InsufficientTypeInformation)
        }
    }

    /// The text of `description` for this date, as bytes.
    pub fn format_bytes(self, description: &OwnedFormatItem) -> (r: Result<Vec<u8>, FormatError>)
        requires
            self.wf(),
        ensures
            match item_text(item_model(description), self) {
                Some(text) => r is Ok && r->Ok_0@ == text,
                None => r == Err::<Vec<u8>, FormatError>(FormatError::InsufficientTypeInformation),
            },
    {
        let mut out: Vec<u8> = Vec::new();
        match self.format_into(&mut out, description) {
            Ok(_) => {
                assert(out@ =~= item_text(item_model(description), self).unwrap());
                Ok(out)
            },
            Err(e) => Err(e),
        }
    }

    /// The text of `description` for this date. Bytes that are not UTF-8
    /// (from a literal that a caller built) are replaced.
    pub fn format(self, description: &OwnedFormatItem) -> (r: Result<String, FormatError>)
        requires
            self.wf(),
        ensures
            match item_text(item_model(description), self) {
                Some(text) => r is Ok && (valid_utf8(text) ==> r->Ok_0@ == decode_utf8(text)),
                None => r == Err::<String, FormatError>(FormatError::InsufficientTypeInformation),
            },
    {
        match self.format_bytes(description) {
            Ok(bytes) => Ok(string_from_bytes(&bytes)),
            Err(e) => Err(e),
        }
    }
}

/// Bytes below 0x80 are valid UTF-8.
pub proof fn lemma_ascii_valid(s: Seq<u8>)
    requires
        forall|i: int| 0 <= i < s.len() ==> #[trigger] s[i] < 0x80,
    ensures
        valid_utf8(s),
    decreases s.len(),
{
    if s.len() > 0 {
        let rest = s.subrange(1, s.len() as int);
        assert forall|i: int| 0 <= i < rest.len() implies #[trigger] rest[i] < 0x80 by {
            assert(rest[i] == s[i + 1]);
        }
        lemma_ascii_valid(rest);
        assert(vstd::utf8::pop_first_scalar(s) =~= rest);
    }
}

/// Decimal digits are ASCII digits.
pub proof fn lemma_digits_ascii(v: nat)
    ensures
        forall|i: int| 0 <= i < digits_of(v).len() ==> 0x30 <= #[trigger] digits_of(v)[i] <= 0x39,
        digits_of(v).len() >= 1,
    decreases v,
{
    if v >= 10 {
        lemma_digits_ascii(v / 10);
    }
}

proof fn lemma_display_ascii(d: Date)
    ensures
        valid_utf8(display_text(d)),
{
    let t = display_text(d);
    lemma_digits_ascii(abs(d.spec_year()));
    lemma_digits_ascii(d.spec_month() as nat);
    lemma_digits_ascii(d.spec_day() as nat);
    assert forall|i: int| 0 <= i < t.len() implies #[trigger] t[i] < 0x80 by {}
    lemma_ascii_valid(t);
}

/// Relies on `String::from_utf8_lossy`: bytes that are valid UTF-8 become the
/// string they encode.
#[verifier::external_body]
fn string_from_bytes(bytes: &Vec<u8>) -> (r: String)
    ensures
        valid_utf8(bytes@) ==> r@ == decode_utf8(bytes@),
{
    String::from_utf8_lossy(bytes).into_owned()
}

} // verus!
