//! The strftime language: `%`-directives in the manner of POSIX `strftime`,
//! compiled into the same format items as a format description. A directive
//! may carry a padding flag: `-` for none, `_` for spaces, `0` for zeros.
use crate::error::InvalidFormatDescription;
use crate::format_description::{items_model, prepend, ItemsResult};
use crate::format_item::{item_model, Component, ItemModel, OwnedFormatItem};
use crate::modifier;
use crate::modifier::Padding;
use vstd::prelude::*;
use vstd::string::StringSliceAdditionalSpecFns;

verus! {

broadcast use vstd::std_specs::vec::group_vec_axioms, vstd::seq::group_seq_axioms;

pub const PERCENT: u8 = 0x25;

/// The padding a flag byte asks for, if it is one.
pub open spec fn padding_flag(b: u8) -> Option<Padding> {
    if b == 0x2D {
        Some(Padding::Unpadded)
    } else if b == 0x5F {
        Some(Padding::Space)
    } else if b == 0x30 {
        Some(Padding::Zero)
    } else {
        None
    }
}

fn padding_flag_exec(b: u8) -> (r: Option<Padding>)
    ensures
        r == padding_flag(b),
{
    if b == 0x2D {
        Some(Padding::Unpadded)
    } else if b == 0x5F {
        Some(Padding::Space)
    } else if b == 0x30 {
        Some(Padding::Zero)
    } else {
        None
    }
}

/// The flag's padding, or the default.
pub open spec fn padding_or(flag: Option<Padding>, default: Padding) -> Padding {
    match flag {
        Some(p) => p,
        None => default,
    }
}

fn padding_or_exec(flag: Option<Padding>, default: Padding) -> (r: Padding)
    ensures
        r == padding_or(flag, default),
{
    match flag {
        Some(p) => p,
        None => default,
    }
}

proof fn lemma_items_model(v: Seq<OwnedFormatItem>)
    ensures
        items_model(v).len() == v.len(),
        forall|i: int| 0 <= i < v.len() ==> #[trigger] items_model(v)[i] == item_model(&v[i]),
{
}

/// The item that directive `c` stands for, with the padding that a flag
/// gave (a flag only changes components that have padding); nothing for a
/// byte that is not a directive.
pub open spec fn directive(c: u8, flag: Option<Padding>) -> Option<ItemModel> {
    if c == 0x25 {
        Some(ItemModel::Literal(seq![0x25u8]))
    } else if c == 0x41 {
        Some(ItemModel::Component(Component::Weekday(modifier::Weekday { repr: modifier::WeekdayRepr::Long, one_indexed: true, case_sensitive: true })))
    } else if c == 0x42 {
        Some(ItemModel::Component(Component::Month(modifier::Month { padding: Padding::Zero, repr: modifier::MonthRepr::Long, case_sensitive: true })))
    } else if c == 0x43 {
        let p = padding_or(flag, Padding::Zero);
        Some(ItemModel::Component(Component::Year(modifier::Year { padding: p, repr: modifier::YearRepr::Century, range: modifier::YearRange::Extended, iso_week_based: false, sign_is_mandatory: false })))
    } else if c == 0x44 {
        Some(ItemModel::Compound(seq![
            ItemModel::Component(Component::Month(modifier::Month { padding: Padding::Zero, repr: modifier::MonthRepr::Numerical, case_sensitive: true })),
            ItemModel::Literal(seq![0x2Fu8]),
            ItemModel::Component(Component::Day(modifier::Day { padding: Padding::Zero })),
            ItemModel::Literal(seq![0x2Fu8]),
            ItemModel::Component(Component::Year(modifier::Year { padding: Padding::Zero, repr: modifier::YearRepr::LastTwo, range: modifier::YearRange::Extended, iso_week_based: false, sign_is_mandatory: false })),
        ]))
    } else if c == 0x46 {
        Some(ItemModel::Compound(seq![
            ItemModel::Component(Component::Year(modifier::Year { padding: Padding::Zero, repr: modifier::YearRepr::Full, range: modifier::YearRange::Extended, iso_week_based: false, sign_is_mandatory: false })),
            ItemModel::Literal(seq![0x2Du8]),
            ItemModel::Component(Component::Month(modifier::Month { padding: Padding::Zero, repr: modifier::MonthRepr::Numerical, case_sensitive: true })),
            ItemModel::Literal(seq![0x2Du8]),
            ItemModel::Component(Component::Day(modifier::Day { padding: Padding::Zero })),
        ]))
    } else if c == 0x47 {
        let p = padding_or(flag, Padding::Zero);
        Some(ItemModel::Component(Component::Year(modifier::Year { padding: p, repr: modifier::YearRepr::Full, range: modifier::YearRange::Extended, iso_week_based: true, sign_is_mandatory: false })))
    } else if c == 0x48 {
        let p = padding_or(flag, Padding::Zero);
        Some(ItemModel::Component(Component::Hour(modifier::Hour { padding: p, is_12_hour_clock: false })))
    } else if c == 0x49 {
        let p = padding_or(flag, Padding::Zero);
        Some(ItemModel::Component(Component::Hour(modifier::Hour { padding: p, is_12_hour_clock: true })))
    } else if c == 0x4D {
        let p = padding_or(flag, Padding::Zero);
        Some(ItemModel::Component(Component::Minute(modifier::Minute { padding: p })))
    } else if c == 0x50 {
        Some(ItemModel::Component(Component::Period(modifier::Period { is_uppercase: false, case_sensitive: true })))
    } else if c == 0x52 {
        Some(ItemModel::Compound(seq![
            ItemModel::Component(Component::Hour(modifier::Hour { padding: Padding::Zero, is_12_hour_clock: false })),
            ItemModel::Literal(seq![0x3Au8]),
            ItemModel::Component(Component::Minute(modifier::Minute { padding: Padding::Zero })),
        ]))
    } else if c == 0x53 {
        let p = padding_or(flag, Padding::Zero);
        Some(ItemModel::Component(Component::Second(modifier::Second { padding: p })))
    } else if c == 0x54 {
        Some(ItemModel::Compound(seq![
            ItemModel::Component(Component::Hour(modifier::Hour { padding: Padding::Zero, is_12_hour_clock: false })),
            ItemModel::Literal(seq![0x3Au8]),
            ItemModel::Component(Component::Minute(modifier::Minute { padding: Padding::Zero })),
            ItemModel::Literal(seq![0x3Au8]),
            ItemModel::Component(Component::Second(modifier::Second { padding: Padding::Zero })),
        ]))
    } else if c == 0x55 {
        let p = padding_or(flag, Padding::Zero);
        Some(ItemModel::Component(Component::WeekNumber(modifier::WeekNumber { padding: p, repr: modifier::WeekNumberRepr::Sunday })))
    } else if c == 0x56 {
        let p = padding_or(flag, Padding::Zero);
        Some(ItemModel::Component(Component::WeekNumber(modifier::WeekNumber { padding: p, repr: modifier::WeekNumberRepr::Iso })))
    } else if c == 0x57 {
        let p = padding_or(flag, Padding::Zero);
        Some(ItemModel::Component(Component::WeekNumber(modifier::WeekNumber { padding: p, repr: modifier::WeekNumberRepr::Monday })))
    } else if c == 0x58 {
        Some(ItemModel::Compound(seq![
            ItemModel::Component(Component::Hour(modifier::Hour { padding: Padding::Zero, is_12_hour_clock: false })),
            ItemModel::Literal(seq![0x3Au8]),
            ItemModel::Component(Component::Minute(modifier::Minute { padding: Padding::Zero })),
            ItemModel::Literal(seq![0x3Au8]),
            ItemModel::Component(Component::Second(modifier::Second { padding: Padding::Zero })),
        ]))
    } else if c == 0x59 {
        let p = padding_or(flag, Padding::Zero);
        Some(ItemModel::Component(Component::Year(modifier::Year { padding: p, repr: modifier::YearRepr::Full, range: modifier::YearRange::Extended, iso_week_based: false, sign_is_mandatory: false })))
    } else if c == 0x61 {
        Some(ItemModel::Component(Component::Weekday(modifier::Weekday { repr: modifier::WeekdayRepr::Short, one_indexed: true, case_sensitive: true })))
    } else if c == 0x62 {
        Some(ItemModel::Component(Component::Month(modifier::Month { padding: Padding::Zero, repr: modifier::MonthRepr::Short, case_sensitive: true })))
    } else if c == 0x63 {
        Some(ItemModel::Compound(seq![
            ItemModel::Component(Component::Weekday(modifier::Weekday { repr: modifier::WeekdayRepr::Short, one_indexed: true, case_sensitive: true })),
            ItemModel::Literal(seq![0x20u8]),
            ItemModel::Component(Component::Month(modifier::Month { padding: Padding::Zero, repr: modifier::MonthRepr::Short, case_sensitive: true })),
            ItemModel::Literal(seq![0x20u8]),
            ItemModel::Component(Component::Day(modifier::Day { padding: Padding::Space })),
            ItemModel::Literal(seq![0x20u8]),
            ItemModel::Component(Component::Hour(modifier::Hour { padding: Padding::Zero, is_12_hour_clock: false })),
            ItemModel::Literal(seq![0x3Au8]),
            ItemModel::Component(Component::Minute(modifier::Minute { padding: Padding::Zero })),
            ItemModel::Literal(seq![0x3Au8]),
            ItemModel::Component(Component::Second(modifier::Second { padding: Padding::Zero })),
            ItemModel::Literal(seq![0x20u8]),
            ItemModel::Component(Component::Year(modifier::Year { padding: Padding::Zero, repr: modifier::YearRepr::Full, range: modifier::YearRange::Extended, iso_week_based: false, sign_is_mandatory: false })),
        ]))
    } else if c == 0x64 {
        let p = padding_or(flag, Padding::Zero);
        Some(ItemModel::Component(Component::Day(modifier::Day { padding: p })))
    } else if c == 0x65 {
        let p = padding_or(flag, Padding::Space);
        Some(ItemModel::Component(Component::Day(modifier::Day { padding: p })))
    } else if c == 0x67 {
        let p = padding_or(flag, Padding::Zero);
        Some(ItemModel::Component(Component::Year(modifier::Year { padding: p, repr: modifier::YearRepr::LastTwo, range: modifier::YearRange::Extended, iso_week_based: true, sign_is_mandatory: false })))
    } else if c == 0x68 {
        Some(ItemModel::Component(Component::Month(modifier::Month { padding: Padding::Zero, repr: modifier::MonthRepr::Short, case_sensitive: true })))
    } else if c == 0x6A {
        let p = padding_or(flag, Padding::Zero);
        Some(ItemModel::Component(Component::Ordinal(modifier::Ordinal { padding: p })))
    } else if c == 0x6B {
        let p = padding_or(flag, Padding::Space);
        Some(ItemModel::Component(Component::Hour(modifier::Hour { padding: p, is_12_hour_clock: false })))
    } else if c == 0x6C {
        let p = padding_or(flag, Padding::Space);
        Some(ItemModel::Component(Component::Hour(modifier::Hour { padding: p, is_12_hour_clock: true })))
    } else if c == 0x6D {
        let p = padding_or(flag, Padding::Zero);
        Some(ItemModel::Component(Component::Month(modifier::Month { padding: p, repr: modifier::MonthRepr::Numerical, case_sensitive: true })))
    } else if c == 0x6E {
        Some(ItemModel::Literal(seq![0x0Au8]))
    } else if c == 0x70 {
        Some(ItemModel::Component(Component::Period(modifier::Period { is_uppercase: true, case_sensitive: true })))
    } else if c == 0x72 {
        Some(ItemModel::Compound(seq![
            ItemModel::Component(Component::Hour(modifier::Hour { padding: Padding::Zero, is_12_hour_clock: true })),
            ItemModel::Literal(seq![0x3Au8]),
            ItemModel::Component(Component::Minute(modifier::Minute { padding: Padding::Zero })),
            ItemModel::Literal(seq![0x3Au8]),
            ItemModel::Component(Component::Second(modifier::Second { padding: Padding::Zero })),
            ItemModel::Literal(seq![0x20u8]),
            ItemModel::Component(Component::Period(modifier::Period { is_uppercase: true, case_sensitive: true })),
        ]))
    } else if c == 0x73 {
        Some(ItemModel::Component(Component::UnixTimestamp(modifier::UnixTimestamp { precision: modifier::UnixTimestampPrecision::Second, sign_is_mandatory: false })))
    } else if c == 0x74 {
        Some(ItemModel::Literal(seq![0x09u8]))
    } else if c == 0x75 {
        Some(ItemModel::Component(Component::Weekday(modifier::Weekday { repr: modifier::WeekdayRepr::Monday, one_indexed: true, case_sensitive: true })))
    } else if c == 0x77 {
        Some(ItemModel::Component(Component::Weekday(modifier::Weekday { repr: modifier::WeekdayRepr::Sunday, one_indexed: false, case_sensitive: true })))
    } else if c == 0x78 {
        Some(ItemModel::Compound(seq![
            ItemModel::Component(Component::Month(modifier::Month { padding: Padding::Zero, repr: modifier::MonthRepr::Numerical, case_sensitive: true })),
            ItemModel::Literal(seq![0x2Fu8]),
            ItemModel::Component(Component::Day(modifier::Day { padding: Padding::Zero })),
            ItemModel::Literal(seq![0x2Fu8]),
            ItemModel::Component(Component::Year(modifier::Year { padding: Padding::Zero, repr: modifier::YearRepr::LastTwo, range: modifier::YearRange::Extended, iso_week_based: false, sign_is_mandatory: false })),
        ]))
    } else if c == 0x79 {
        let p = padding_or(flag, Padding::Zero);
        Some(ItemModel::Component(Component::Year(modifier::Year { padding: p, repr: modifier::YearRepr::LastTwo, range: modifier::YearRange::Extended, iso_week_based: false, sign_is_mandatory: false })))
    } else if c == 0x7A {
        Some(ItemModel::Compound(seq![
            ItemModel::Component(Component::OffsetHour(modifier::OffsetHour { sign_is_mandatory: true, padding: Padding::Zero })),
            ItemModel::Component(Component::OffsetMinute(modifier::OffsetMinute { padding: Padding::Zero })),
        ]))
    } else {
        None
    }
}

/// The item that directive `c` stands for, as `directive` describes.
fn directive_exec(c: u8, flag: Option<Padding>) -> (r: Option<OwnedFormatItem>)
    ensures
        match directive(c, flag) {
            Some(m) => r is Some && item_model(&r->Some_0) == m,
            None => r is None,
        },
{
    if c == 0x25 {
        let r = OwnedFormatItem::Literal(vec![0x25u8]);
        assert(r->Literal_0@ =~= seq![0x25u8]);
        Some(r)
    } else if c == 0x41 {
        Some(OwnedFormatItem::Component(Component::Weekday(modifier::Weekday { repr: modifier::WeekdayRepr::Long, one_indexed: true, case_sensitive: true })))
    } else if c == 0x42 {
        Some(OwnedFormatItem::Component(Component::Month(modifier::Month { padding: Padding::Zero, repr: modifier::MonthRepr::Long, case_sensitive: true })))
    } else if c == 0x43 {
        let p = padding_or_exec(flag, Padding::Zero);
        Some(OwnedFormatItem::Component(Component::Year(modifier::Year { padding: p, repr: modifier::YearRepr::Century, range: modifier::YearRange::Extended, iso_week_based: false, sign_is_mandatory: false })))
    } else if c == 0x44 {
        let items = vec![
            OwnedFormatItem::Component(Component::Month(modifier::Month { padding: Padding::Zero, repr: modifier::MonthRepr::Numerical, case_sensitive: true })),
            OwnedFormatItem::Literal(vec![0x2Fu8]),
            OwnedFormatItem::Component(Component::Day(modifier::Day { padding: Padding::Zero })),
            OwnedFormatItem::Literal(vec![0x2Fu8]),
            OwnedFormatItem::Component(Component::Year(modifier::Year { padding: Padding::Zero, repr: modifier::YearRepr::LastTwo, range: modifier::YearRange::Extended, iso_week_based: false, sign_is_mandatory: false })),
        ];
        proof {
            lemma_items_model(items@);
            assert(items@[1]->Literal_0@ =~= seq![0x2Fu8]);
            assert(items@[3]->Literal_0@ =~= seq![0x2Fu8]);
            assert(items_model(items@) =~= seq![
                ItemModel::Component(Component::Month(modifier::Month { padding: Padding::Zero, repr: modifier::MonthRepr::Numerical, case_sensitive: true })),
                ItemModel::Literal(seq![0x2Fu8]),
                ItemModel::Component(Component::Day(modifier::Day { padding: Padding::Zero })),
                ItemModel::Literal(seq![0x2Fu8]),
                ItemModel::Component(Component::Year(modifier::Year { padding: Padding::Zero, repr: modifier::YearRepr::LastTwo, range: modifier::YearRange::Extended, iso_week_based: false, sign_is_mandatory: false })),
            ]);
        }
        let r = OwnedFormatItem::Compound(items);
        proof {
            assert(item_model(&r)->Compound_0 =~= items_model(items@));
        }
        Some(r)
    } else if c == 0x46 {
        let items = vec![
            OwnedFormatItem::Component(Component::Year(modifier::Year { padding: Padding::Zero, repr: modifier::YearRepr::Full, range: modifier::YearRange::Extended, iso_week_based: false, sign_is_mandatory: false })),
            OwnedFormatItem::Literal(vec![0x2Du8]),
            OwnedFormatItem::Component(Component::Month(modifier::Month { padding: Padding::Zero, repr: modifier::MonthRepr::Numerical, case_sensitive: true })),
            OwnedFormatItem::Literal(vec![0x2Du8]),
            OwnedFormatItem::Component(Component::Day(modifier::Day { padding: Padding::Zero })),
        ];
        proof {
            lemma_items_model(items@);
            assert(items@[1]->Literal_0@ =~= seq![0x2Du8]);
            assert(items@[3]->Literal_0@ =~= seq![0x2Du8]);
            assert(items_model(items@) =~= seq![
                ItemModel::Component(Component::Year(modifier::Year { padding: Padding::Zero, repr: modifier::YearRepr::Full, range: modifier::YearRange::Extended, iso_week_based: false, sign_is_mandatory: false })),
                ItemModel::Literal(seq![0x2Du8]),
                ItemModel::Component(Component::Month(modifier::Month { padding: Padding::Zero, repr: modifier::MonthRepr::Numerical, case_sensitive: true })),
                ItemModel::Literal(seq![0x2Du8]),
                ItemModel::Component(Component::Day(modifier::Day { padding: Padding::Zero })),
            ]);
        }
        let r = OwnedFormatItem::Compound(items);
        proof {
            assert(item_model(&r)->Compound_0 =~= items_model(items@));
        }
        Some(r)
    } else if c == 0x47 {
        let p = padding_or_exec(flag, Padding::Zero);
        Some(OwnedFormatItem::Component(Component::Year(modifier::Year { padding: p, repr: modifier::YearRepr::Full, range: modifier::YearRange::Extended, iso_week_based: true, sign_is_mandatory: false })))
    } else if c == 0x48 {
        let p = padding_or_exec(flag, Padding::Zero);
        Some(OwnedFormatItem::Component(Component::Hour(modifier::Hour { padding: p, is_12_hour_clock: false })))
    } else if c == 0x49 {
        let p = padding_or_exec(flag, Padding::Zero);
        Some(OwnedFormatItem::Component(Component::Hour(modifier::Hour { padding: p, is_12_hour_clock: true })))
    } else if c == 0x4D {
        let p = padding_or_exec(flag, Padding::Zero);
        Some(OwnedFormatItem::Component(Component::Minute(modifier::Minute { padding: p })))
    } else if c == 0x50 {
        Some(OwnedFormatItem::Component(Component::Period(modifier::Period { is_uppercase: false, case_sensitive: true })))
    } else if c == 0x52 {
        let items = vec![
            OwnedFormatItem::Component(Component::Hour(modifier::Hour { padding: Padding::Zero, is_12_hour_clock: false })),
            OwnedFormatItem::Literal(vec![0x3Au8]),
            OwnedFormatItem::Component(Component::Minute(modifier::Minute { padding: Padding::Zero })),
        ];
        proof {
            lemma_items_model(items@);
            assert(items@[1]->Literal_0@ =~= seq![0x3Au8]);
            assert(items_model(items@) =~= seq![
                ItemModel::Component(Component::Hour(modifier::Hour { padding: Padding::Zero, is_12_hour_clock: false })),
                ItemModel::Literal(seq![0x3Au8]),
                ItemModel::Component(Component::Minute(modifier::Minute { padding: Padding::Zero })),
            ]);
        }
        let r = OwnedFormatItem::Compound(items);
        proof {
            assert(item_model(&r)->Compound_0 =~= items_model(items@));
        }
        Some(r)
    } else if c == 0x53 {
        let p = padding_or_exec(flag, Padding::Zero);
        Some(OwnedFormatItem::Component(Component::Second(modifier::Second { padding: p })))
    } else if c == 0x54 {
        let items = vec![
            OwnedFormatItem::Component(Component::Hour(modifier::Hour { padding: Padding::Zero, is_12_hour_clock: false })),
            OwnedFormatItem::Literal(vec![0x3Au8]),
            OwnedFormatItem::Component(Component::Minute(modifier::Minute { padding: Padding::Zero })),
            OwnedFormatItem::Literal(vec![0x3Au8]),
            OwnedFormatItem::Component(Component::Second(modifier::Second { padding: Padding::Zero })),
        ];
        proof {
            lemma_items_model(items@);
            assert(items@[1]->Literal_0@ =~= seq![0x3Au8]);
            assert(items@[3]->Literal_0@ =~= seq![0x3Au8]);
            assert(items_model(items@) =~= seq![
                ItemModel::Component(Component::Hour(modifier::Hour { padding: Padding::Zero, is_12_hour_clock: false })),
                ItemModel::Literal(seq![0x3Au8]),
                ItemModel::Component(Component::Minute(modifier::Minute { padding: Padding::Zero })),
                ItemModel::Literal(seq![0x3Au8]),
                ItemModel::Component(Component::Second(modifier::Second { padding: Padding::Zero })),
            ]);
        }
        let r = OwnedFormatItem::Compound(items);
        proof {
            assert(item_model(&r)->Compound_0 =~= items_model(items@));
        }
        Some(r)
    } else if c == 0x55 {
        let p = padding_or_exec(flag, Padding::Zero);
        Some(OwnedFormatItem::Component(Component::WeekNumber(modifier::WeekNumber { padding: p, repr: modifier::WeekNumberRepr::Sunday })))
    } else if c == 0x56 {
        let p = padding_or_exec(flag, Padding::Zero);
        Some(OwnedFormatItem::Component(Component::WeekNumber(modifier::WeekNumber { padding: p, repr: modifier::WeekNumberRepr::Iso })))
    } else if c == 0x57 {
        let p = padding_or_exec(flag, Padding::Zero);
        Some(OwnedFormatItem::Component(Component::WeekNumber(modifier::WeekNumber { padding: p, repr: modifier::WeekNumberRepr::Monday })))
    } else if c == 0x58 {
        let items = vec![
            OwnedFormatItem::Component(Component::Hour(modifier::Hour { padding: Padding::Zero, is_12_hour_clock: false })),
            OwnedFormatItem::Literal(vec![0x3Au8]),
            OwnedFormatItem::Component(Component::Minute(modifier::Minute { padding: Padding::Zero })),
            OwnedFormatItem::Literal(vec![0x3Au8]),
            OwnedFormatItem::Component(Component::Second(modifier::Second { padding: Padding::Zero })),
        ];
        proof {
            lemma_items_model(items@);
            assert(items@[1]->Literal_0@ =~= seq![0x3Au8]);
            assert(items@[3]->Literal_0@ =~= seq![0x3Au8]);
            assert(items_model(items@) =~= seq![
                ItemModel::Component(Component::Hour(modifier::Hour { padding: Padding::Zero, is_12_hour_clock: false })),
                ItemModel::Literal(seq![0x3Au8]),
                ItemModel::Component(Component::Minute(modifier::Minute { padding: Padding::Zero })),
                ItemModel::Literal(seq![0x3Au8]),
                ItemModel::Component(Component::Second(modifier::Second { padding: Padding::Zero })),
            ]);
        }
        let r = OwnedFormatItem::Compound(items);
        proof {
            assert(item_model(&r)->Compound_0 =~= items_model(items@));
        }
        Some(r)
    } else if c == 0x59 {
        let p = padding_or_exec(flag, Padding::Zero);
        Some(OwnedFormatItem::Component(Component::Year(modifier::Year { padding: p, repr: modifier::YearRepr::Full, range: modifier::YearRange::Extended, iso_week_based: false, sign_is_mandatory: false })))
    } else if c == 0x61 {
        Some(OwnedFormatItem::Component(Component::Weekday(modifier::Weekday { repr: modifier::WeekdayRepr::Short, one_indexed: true, case_sensitive: true })))
    } else if c == 0x62 {
        Some(OwnedFormatItem::Component(Component::Month(modifier::Month { padding: Padding::Zero, repr: modifier::MonthRepr::Short, case_sensitive: true })))
    } else if c == 0x63 {
        let items = vec![
            OwnedFormatItem::Component(Component::Weekday(modifier::Weekday { repr: modifier::WeekdayRepr::Short, one_indexed: true, case_sensitive: true })),
            OwnedFormatItem::Literal(vec![0x20u8]),
            OwnedFormatItem::Component(Component::Month(modifier::Month { padding: Padding::Zero, repr: modifier::MonthRepr::Short, case_sensitive: true })),
            OwnedFormatItem::Literal(vec![0x20u8]),
            OwnedFormatItem::Component(Component::Day(modifier::Day { padding: Padding::Space })),
            OwnedFormatItem::Literal(vec![0x20u8]),
            OwnedFormatItem::Component(Component::Hour(modifier::Hour { padding: Padding::Zero, is_12_hour_clock: false })),
            OwnedFormatItem::Literal(vec![0x3Au8]),
            OwnedFormatItem::Component(Component::Minute(modifier::Minute { padding: Padding::Zero })),
            OwnedFormatItem::Literal(vec![0x3Au8]),
            OwnedFormatItem::Component(Component::Second(modifier::Second { padding: Padding::Zero })),
            OwnedFormatItem::Literal(vec![0x20u8]),
            OwnedFormatItem::Component(Component::Year(modifier::Year { padding: Padding::Zero, repr: modifier::YearRepr::Full, range: modifier::YearRange::Extended, iso_week_based: false, sign_is_mandatory: false })),
        ];
        proof {
            lemma_items_model(items@);
            assert(items@[1]->Literal_0@ =~= seq![0x20u8]);
            assert(items@[3]->Literal_0@ =~= seq![0x20u8]);
            assert(items@[5]->Literal_0@ =~= seq![0x20u8]);
            assert(items@[7]->Literal_0@ =~= seq![0x3Au8]);
            assert(items@[9]->Literal_0@ =~= seq![0x3Au8]);
            assert(items@[11]->Literal_0@ =~= seq![0x20u8]);
            assert(items_model(items@) =~= seq![
                ItemModel::Component(Component::Weekday(modifier::Weekday { repr: modifier::WeekdayRepr::Short, one_indexed: true, case_sensitive: true })),
                ItemModel::Literal(seq![0x20u8]),
                ItemModel::Component(Component::Month(modifier::Month { padding: Padding::Zero, repr: modifier::MonthRepr::Short, case_sensitive: true })),
                ItemModel::Literal(seq![0x20u8]),
                ItemModel::Component(Component::Day(modifier::Day { padding: Padding::Space })),
                ItemModel::Literal(seq![0x20u8]),
                ItemModel::Component(Component::Hour(modifier::Hour { padding: Padding::Zero, is_12_hour_clock: false })),
                ItemModel::Literal(seq![0x3Au8]),
                ItemModel::Component(Component::Minute(modifier::Minute { padding: Padding::Zero })),
                ItemModel::Literal(seq![0x3Au8]),
                ItemModel::Component(Component::Second(modifier::Second { padding: Padding::Zero })),
                ItemModel::Literal(seq![0x20u8]),
                ItemModel::Component(Component::Year(modifier::Year { padding: Padding::Zero, repr: modifier::YearRepr::Full, range: modifier::YearRange::Extended, iso_week_based: false, sign_is_mandatory: false })),
            ]);
        }
        let r = OwnedFormatItem::Compound(items);
        proof {
            assert(item_model(&r)->Compound_0 =~= items_model(items@));
        }
        Some(r)
    } else if c == 0x64 {
        let p = padding_or_exec(flag, Padding::Zero);
        Some(OwnedFormatItem::Component(Component::Day(modifier::Day { padding: p })))
    } else if c == 0x65 {
        let p = padding_or_exec(flag, Padding::Space);
        Some(OwnedFormatItem::Component(Component::Day(modifier::Day { padding: p })))
    } else if c == 0x67 {
        let p = padding_or_exec(flag, Padding::Zero);
        Some(OwnedFormatItem::Component(Component::Year(modifier::Year { padding: p, repr: modifier::YearRepr::LastTwo, range: modifier::YearRange::Extended, iso_week_based: true, sign_is_mandatory: false })))
    } else if c == 0x68 {
        Some(OwnedFormatItem::Component(Component::Month(modifier::Month { padding: Padding::Zero, repr: modifier::MonthRepr::Short, case_sensitive: true })))
    } else if c == 0x6A {
        let p = padding_or_exec(flag, Padding::Zero);
        Some(OwnedFormatItem::Component(Component::Ordinal(modifier::Ordinal { padding: p })))
    } else if c == 0x6B {
        let p = padding_or_exec(flag, Padding::Space);
        Some(OwnedFormatItem::Component(Component::Hour(modifier::Hour { padding: p, is_12_hour_clock: false })))
    } else if c == 0x6C {
        let p = padding_or_exec(flag, Padding::Space);
        Some(OwnedFormatItem::Component(Component::Hour(modifier::Hour { padding: p, is_12_hour_clock: true })))
    } else if c == 0x6D {
        let p = padding_or_exec(flag, Padding::Zero);
        Some(OwnedFormatItem::Component(Component::Month(modifier::Month { padding: p, repr: modifier::MonthRepr::Numerical, case_sensitive: true })))
    } else if c == 0x6E {
        let r = OwnedFormatItem::Literal(vec![0x0Au8]);
        assert(r->Literal_0@ =~= seq![0x0Au8]);
        Some(r)
    } else if c == 0x70 {
        Some(OwnedFormatItem::Component(Component::Period(modifier::Period { is_uppercase: true, case_sensitive: true })))
    } else if c == 0x72 {
        let items = vec![
            OwnedFormatItem::Component(Component::Hour(modifier::Hour { padding: Padding::Zero, is_12_hour_clock: true })),
            OwnedFormatItem::Literal(vec![0x3Au8]),
            OwnedFormatItem::Component(Component::Minute(modifier::Minute { padding: Padding::Zero })),
            OwnedFormatItem::Literal(vec![0x3Au8]),
            OwnedFormatItem::Component(Component::Second(modifier::Second { padding: Padding::Zero })),
            OwnedFormatItem::Literal(vec![0x20u8]),
            OwnedFormatItem::Component(Component::Period(modifier::Period { is_uppercase: true, case_sensitive: true })),
        ];
        proof {
            lemma_items_model(items@);
            assert(items@[1]->Literal_0@ =~= seq![0x3Au8]);
            assert(items@[3]->Literal_0@ =~= seq![0x3Au8]);
            assert(items@[5]->Literal_0@ =~= seq![0x20u8]);
            assert(items_model(items@) =~= seq![
                ItemModel::Component(Component::Hour(modifier::Hour { padding: Padding::Zero, is_12_hour_clock: true })),
                ItemModel::Literal(seq![0x3Au8]),
                ItemModel::Component(Component::Minute(modifier::Minute { padding: Padding::Zero })),
                ItemModel::Literal(seq![0x3Au8]),
                ItemModel::Component(Component::Second(modifier::Second { padding: Padding::Zero })),
                ItemModel::Literal(seq![0x20u8]),
                ItemModel::Component(Component::Period(modifier::Period { is_uppercase: true, case_sensitive: true })),
            ]);
        }
        let r = OwnedFormatItem::Compound(items);
        proof {
            assert(item_model(&r)->Compound_0 =~= items_model(items@));
        }
        Some(r)
    } else if c == 0x73 {
        Some(OwnedFormatItem::Component(Component::UnixTimestamp(modifier::UnixTimestamp { precision: modifier::UnixTimestampPrecision::Second, sign_is_mandatory: false })))
    } else if c == 0x74 {
        let r = OwnedFormatItem::Literal(vec![0x09u8]);
        assert(r->Literal_0@ =~= seq![0x09u8]);
        Some(r)
    } else if c == 0x75 {
        Some(OwnedFormatItem::Component(Component::Weekday(modifier::Weekday { repr: modifier::WeekdayRepr::Monday, one_indexed: true, case_sensitive: true })))
    } else if c == 0x77 {
        Some(OwnedFormatItem::Component(Component::Weekday(modifier::Weekday { repr: modifier::WeekdayRepr::Sunday, one_indexed: false, case_sensitive: true })))
    } else if c == 0x78 {
        let items = vec![
            OwnedFormatItem::Component(Component::Month(modifier::Month { padding: Padding::Zero, repr: modifier::MonthRepr::Numerical, case_sensitive: true })),
            OwnedFormatItem::Literal(vec![0x2Fu8]),
            OwnedFormatItem::Component(Component::Day(modifier::Day { padding: Padding::Zero })),
            OwnedFormatItem::Literal(vec![0x2Fu8]),
            OwnedFormatItem::Component(Component::Year(modifier::Year { padding: Padding::Zero, repr: modifier::YearRepr::LastTwo, range: modifier::YearRange::Extended, iso_week_based: false, sign_is_mandatory: false })),
        ];
        proof {
            lemma_items_model(items@);
            assert(items@[1]->Literal_0@ =~= seq![0x2Fu8]);
            assert(items@[3]->Literal_0@ =~= seq![0x2Fu8]);
            assert(items_model(items@) =~= seq![
                ItemModel::Component(Component::Month(modifier::Month { padding: Padding::Zero, repr: modifier::MonthRepr::Numerical, case_sensitive: true })),
                ItemModel::Literal(seq![0x2Fu8]),
                ItemModel::Component(Component::Day(modifier::Day { padding: Padding::Zero })),
                ItemModel::Literal(seq![0x2Fu8]),
                ItemModel::Component(Component::Year(modifier::Year { padding: Padding::Zero, repr: modifier::YearRepr::LastTwo, range: modifier::YearRange::Extended, iso_week_based: false, sign_is_mandatory: false })),
            ]);
        }
        let r = OwnedFormatItem::Compound(items);
        proof {
            assert(item_model(&r)->Compound_0 =~= items_model(items@));
        }
        Some(r)
    } else if c == 0x79 {
        let p = padding_or_exec(flag, Padding::Zero);
        Some(OwnedFormatItem::Component(Component::Year(modifier::Year { padding: p, repr: modifier::YearRepr::LastTwo, range: modifier::YearRange::Extended, iso_week_based: false, sign_is_mandatory: false })))
    } else if c == 0x7A {
        let items = vec![
            OwnedFormatItem::Component(Component::OffsetHour(modifier::OffsetHour { sign_is_mandatory: true, padding: Padding::Zero })),
            OwnedFormatItem::Component(Component::OffsetMinute(modifier::OffsetMinute { padding: Padding::Zero })),
        ];
        proof {
            lemma_items_model(items@);
            assert(items_model(items@) =~= seq![
                ItemModel::Component(Component::OffsetHour(modifier::OffsetHour { sign_is_mandatory: true, padding: Padding::Zero })),
                ItemModel::Component(Component::OffsetMinute(modifier::OffsetMinute { padding: Padding::Zero })),
            ]);
        }
        let r = OwnedFormatItem::Compound(items);
        proof {
            assert(item_model(&r)->Compound_0 =~= items_model(items@));
        }
        Some(r)
    } else {
        None
    }
}

/// The end of the literal run that starts at `i`: the next `%`, or the end.
pub open spec fn percent_end(s: Seq<u8>, i: int) -> int
    decreases s.len() - i,
{
    if 0 <= i < s.len() && s[i] != PERCENT {
        percent_end(s, i + 1)
    } else {
        i
    }
}

/// The items of a strftime description from index `i` to its end: runs of
/// literal bytes, and directives.
pub open spec fn strftime_spec(s: Seq<u8>, i: int) -> ItemsResult
    decreases s.len() - i,
{
    if i < 0 || i >= s.len() {
        Ok((seq![], i))
    } else if s[i] != PERCENT {
        let j = percent_end(s, i);
        // Never applies: a literal run holds at least one byte.
        if j <= i || j > s.len() {
            Err(InvalidFormatDescription::NotSupported { index: i as usize })
        } else {
            prepend(seq![ItemModel::Literal(s.subrange(i, j))], strftime_spec(s, j))
        }
    } else if i + 1 >= s.len() {
        Err(InvalidFormatDescription::MissingComponentName { index: i as usize })
    } else {
        let flag = padding_flag(s[i + 1]);
        let k = if flag is Some {
            i + 2
        } else {
            i + 1
        };
        if k >= s.len() {
            Err(InvalidFormatDescription::MissingComponentName { index: i as usize })
        } else {
            match directive(s[k], flag) {
                Some(item) => prepend(seq![item], strftime_spec(s, k + 1)),
                None => Err(InvalidFormatDescription::InvalidComponentName { index: k as usize }),
            }
        }
    }
}

fn percent_end_exec(s: &[u8], i: usize) -> (r: usize)
    requires
        i <= s@.len(),
    ensures
        r == percent_end(s@, i as int),
        i <= r <= s@.len(),
        i < s@.len() && s@[i as int] != PERCENT ==> i < r,
{
    let mut j = i;
    while j < s.len() && s[j] != PERCENT
        invariant
            i <= j <= s@.len(),
            percent_end(s@, i as int) == percent_end(s@, j as int),
        decreases s@.len() - j,
    {
        j = j + 1;
    }
    j
}

proof fn lemma_push_model(v: Seq<OwnedFormatItem>, it: OwnedFormatItem)
    ensures
        items_model(v.push(it)) == items_model(v) + seq![item_model(&it)],
{
    assert(items_model(v.push(it)) =~= items_model(v) + seq![item_model(&it)]);
}

proof fn lemma_prepend_push(a: Seq<ItemModel>, m: ItemModel, r: ItemsResult)
    ensures
        prepend(a, prepend(seq![m], r)) == prepend(a + seq![m], r),
{
    match r {
        Ok((rest, k)) => {
            assert(a + (seq![m] + rest) =~= (a + seq![m]) + rest);
        },
        Err(_) => {},
    }
}

/// The items of strftime description `s`.
pub open spec fn strftime_description(s: Seq<u8>) -> Result<Seq<ItemModel>, InvalidFormatDescription> {
    match strftime_spec(s, 0) {
        Ok((items, _)) => Ok(items),
        Err(e) => Err(e),
    }
}

/// Compile a strftime description into one owned item: the compound of its
/// items.
pub fn parse_strftime_owned(s: &str) -> (r: Result<OwnedFormatItem, InvalidFormatDescription>)
    ensures
        match strftime_description(s.spec_bytes()) {
            Ok(items) => r is Ok && item_model(&r->Ok_0) == ItemModel::Compound(items),
            Err(e) => r == Err::<OwnedFormatItem, InvalidFormatDescription>(e),
        },
{
    let bytes = s.as_bytes();
    let mut acc: Vec<OwnedFormatItem> = Vec::new();
    let mut i: usize = 0;
    proof {
        assert(items_model(acc@) =~= seq![]);
        match strftime_spec(bytes@, 0) {
            Ok((rest, k)) => {
                assert(seq![] + rest =~= rest);
            },
            Err(_) => {},
        }
    }
    while i < bytes.len()
        invariant
            i <= bytes@.len(),
            bytes@ == s.spec_bytes(),
            prepend(items_model(acc@), strftime_spec(bytes@, i as int)) == strftime_spec(
                bytes@,
                0,
            ),
        decreases bytes@.len() - i,
    {
        let ghost prev = acc@;
        if bytes[i] != PERCENT {
            let j = percent_end_exec(bytes, i);
            let mut literal: Vec<u8> = Vec::new();
            let mut x = i;
            while x < j
                invariant
                    i <= x <= j <= bytes@.len(),
                    literal@ == bytes@.subrange(i as int, x as int),
                decreases j - x,
            {
                literal.push(bytes[x]);
                x = x + 1;
                assert(literal@ =~= bytes@.subrange(i as int, x as int));
            }
            let item = OwnedFormatItem::Literal(literal);
            proof {
                lemma_prepend_push(
                    items_model(prev),
                    item_model(&item),
                    strftime_spec(bytes@, j as int),
                );
                lemma_push_model(prev, item);
            }
            acc.push(item);
            i = j;
        } else {
            if i + 1 >= bytes.len() {
                return Err(InvalidFormatDescription::MissingComponentName { index: i });
            }
            let flag = padding_flag_exec(bytes[i + 1]);
            let k = if flag.is_some() {
                i + 2
            } else {
                i + 1
            };
            if k >= bytes.len() {
                return Err(InvalidFormatDescription::MissingComponentName { index: i });
            }
            match directive_exec(bytes[k], flag) {
                Some(item) => {
                    proof {
                        lemma_prepend_push(
                            items_model(prev),
                            item_model(&item),
                            strftime_spec(bytes@, k + 1),
                        );
                        lemma_push_model(prev, item);
                    }
                    acc.push(item);
                    i = k + 1;
                },
                None => {
                    return Err(InvalidFormatDescription::InvalidComponentName { index: k });
                },
            }
        }
    }
    proof {
        assert(items_model(acc@) + seq![] =~= items_model(acc@));
        assert(item_model(&OwnedFormatItem::Compound(acc))->Compound_0 =~= items_model(acc@));
    }
    Ok(OwnedFormatItem::Compound(acc))
}

} // verus!
