//! Compiled format descriptions: the tree of items that formatting and
//! parsing walk.
use crate::modifier;
use vstd::prelude::*;

verus! {

/// One non-literal part of a format description, with its modifiers.
#[derive(Debug, Clone, Copy, PartialEq, Eq, Hash, Structural)]
pub enum Component {
    Day(modifier::Day),
    Month(modifier::Month),
    Ordinal(modifier::Ordinal),
    Weekday(modifier::Weekday),
    WeekNumber(modifier::WeekNumber),
    Year(modifier::Year),
    Hour(modifier::Hour),
    Minute(modifier::Minute),
    Period(modifier::Period),
    Second(modifier::Second),
    Subsecond(modifier::Subsecond),
    OffsetHour(modifier::OffsetHour),
    OffsetMinute(modifier::OffsetMinute),
    OffsetSecond(modifier::OffsetSecond),
    Ignore(modifier::Ignore),
    UnixTimestamp(modifier::UnixTimestamp),
    End(modifier::End),
}

/// A complete description of how to format and parse a value, owning its
/// data.
#[derive(Debug, PartialEq, Eq)]
pub enum OwnedFormatItem {
    /// Bytes that are written as they are, and must appear as they are.
    Literal(Vec<u8>),
    /// A single component.
    Component(Component),
    /// Items one after another.
    Compound(Vec<OwnedFormatItem>),
    /// An item that parsing may skip when it does not match; formatting
    /// writes it.
    Optional(Box<OwnedFormatItem>),
    /// Alternatives: parsing takes the first that matches, formatting writes
    /// the first. An empty list does nothing.
    First(Vec<OwnedFormatItem>),
}

/// A format item that borrows its literal bytes from the description it was
/// compiled from.
#[derive(Debug, Clone, Copy, PartialEq, Eq)]
pub enum BorrowedFormatItem<'a> {
    /// Bytes that are written as they are, and must appear as they are.
    Literal(&'a [u8]),
    /// A single component.
    Component(Component),
    /// Items one after another.
    Compound(&'a Vec<BorrowedFormatItem<'a>>),
    /// An item that parsing may skip.
    Optional(&'a BorrowedFormatItem<'a>),
    /// Alternatives, the first that matches.
    First(&'a Vec<BorrowedFormatItem<'a>>),
}

/// The shape of a borrowed item.
pub open spec fn borrowed_item_model<'a>(b: BorrowedFormatItem<'a>) -> ItemModel
    decreases b,
{
    match b {
        BorrowedFormatItem::Literal(bytes) => ItemModel::Literal(bytes@),
        BorrowedFormatItem::Component(c) => ItemModel::Component(c),
        BorrowedFormatItem::Compound(xs) => ItemModel::Compound(
            Seq::new(
                xs@.len(),
                |i: int|
                    if 0 <= i < xs@.len() {
                        borrowed_item_model(xs@[i])
                    } else {
                        ItemModel::Literal(Seq::empty())
                    },
            ),
        ),
        BorrowedFormatItem::Optional(x) => ItemModel::Optional(Box::new(borrowed_item_model(*x))),
        BorrowedFormatItem::First(xs) => ItemModel::First(
            Seq::new(
                xs@.len(),
                |i: int|
                    if 0 <= i < xs@.len() {
                        borrowed_item_model(xs@[i])
                    } else {
                        ItemModel::Literal(Seq::empty())
                    },
            ),
        ),
    }
}

/// The bytes of `b`, owned.
fn copy_literal(b: &[u8]) -> (r: Vec<u8>)
    ensures
        r@ == b@,
{
    let mut v: Vec<u8> = Vec::new();
    let mut i: usize = 0;
    while i < b.len()
        invariant
            i <= b@.len(),
            v@ == b@.subrange(0, i as int),
        decreases b@.len() - i,
    {
        v.push(b[i]);
        i = i + 1;
        assert(v@ =~= b@.subrange(0, i as int));
    }
    assert(v@ =~= b@);
    v
}

impl<'a> BorrowedFormatItem<'a> {
    /// The same item, owning its bytes and its parts.
    pub fn to_owned_item(&self) -> (r: OwnedFormatItem)
        ensures
            item_model(&r) == borrowed_item_model(*self),
        decreases *self,
    {
        match *self {
            BorrowedFormatItem::Literal(b) => OwnedFormatItem::Literal(copy_literal(b)),
            BorrowedFormatItem::Component(c) => OwnedFormatItem::Component(c),
            BorrowedFormatItem::Compound(items) => {
                proof {
                    assert((*self)->Compound_0 == items);
                    assert(decreases_to!(*self => (*self)->Compound_0));
                }
                let mut v: Vec<OwnedFormatItem> = Vec::new();
                let mut i: usize = 0;
                while i < items.len()
                    invariant
                        *self == BorrowedFormatItem::Compound(items),
                        decreases_to!(*self => items),
                        i <= items@.len(),
                        v@.len() == i,
                        forall|j: int|
                            0 <= j < i ==> item_model(&#[trigger] v@[j]) == borrowed_item_model(
                                items@[j],
                            ),
                    decreases items@.len() - i,
                {
                    proof {
                        vstd::std_specs::vec::axiom_vec_index_decreases(*items, i as int);
                        assert(decreases_to!(*items => items@[i as int]));
                    }
                    v.push(items[i].to_owned_item());
                    i = i + 1;
                }
                assert(item_model(&OwnedFormatItem::Compound(v))->Compound_0 =~= borrowed_item_model(
                    *self,
                )->Compound_0);
                OwnedFormatItem::Compound(v)
            },
            BorrowedFormatItem::Optional(item) => OwnedFormatItem::Optional(
                Box::new(item.to_owned_item()),
            ),
            BorrowedFormatItem::First(items) => {
                proof {
                    assert((*self)->First_0 == items);
                    assert(decreases_to!(*self => (*self)->First_0));
                }
                let mut v: Vec<OwnedFormatItem> = Vec::new();
                let mut i: usize = 0;
                while i < items.len()
                    invariant
                        *self == BorrowedFormatItem::First(items),
                        decreases_to!(*self => items),
                        i <= items@.len(),
                        v@.len() == i,
                        forall|j: int|
                            0 <= j < i ==> item_model(&#[trigger] v@[j]) == borrowed_item_model(
                                items@[j],
                            ),
                    decreases items@.len() - i,
                {
                    proof {
                        vstd::std_specs::vec::axiom_vec_index_decreases(*items, i as int);
                        assert(decreases_to!(*items => items@[i as int]));
                    }
                    v.push(items[i].to_owned_item());
                    i = i + 1;
                }
                assert(item_model(&OwnedFormatItem::First(v))->First_0 =~= borrowed_item_model(
                    *self,
                )->First_0);
                OwnedFormatItem::First(v)
            },
        }
    }
}

impl OwnedFormatItem {
    /// The compound of the owned forms of `items`, in order.
    pub fn from_borrowed_items(items: &[BorrowedFormatItem<'_>]) -> (r: OwnedFormatItem)
        ensures
            item_model(&r) == ItemModel::Compound(
                Seq::new(items@.len(), |i: int| borrowed_item_model(items@[i])),
            ),
    {
        let mut v: Vec<OwnedFormatItem> = Vec::new();
        let mut i: usize = 0;
        while i < items.len()
            invariant
                i <= items@.len(),
                v@.len() == i,
                forall|j: int|
                    0 <= j < i ==> item_model(&#[trigger] v@[j]) == borrowed_item_model(items@[j]),
            decreases items@.len() - i,
        {
            v.push(items[i].to_owned_item());
            i = i + 1;
        }
        let r = OwnedFormatItem::Compound(v);
        assert(item_model(&r)->Compound_0 =~= Seq::new(
            items@.len(),
            |i: int| borrowed_item_model(items@[i]),
        ));
        r
    }
}

impl From<Vec<OwnedFormatItem>> for OwnedFormatItem {
    fn from(items: Vec<OwnedFormatItem>) -> (r: OwnedFormatItem) {
        OwnedFormatItem::Compound(items)
    }
}

impl vstd::std_specs::convert::FromSpecImpl<Vec<OwnedFormatItem>> for OwnedFormatItem {
    open spec fn obeys_from_spec() -> bool {
        true
    }

    open spec fn from_spec(items: Vec<OwnedFormatItem>) -> OwnedFormatItem {
        OwnedFormatItem::Compound(items)
    }
}

/// An item was not of the variant asked for.
#[derive(Debug, Clone, Copy, PartialEq, Eq, Hash, Structural)]
pub struct DifferentVariant;

impl OwnedFormatItem {
    /// The component, if this item is one.
    pub fn try_into_component(self) -> (r: Result<Component, DifferentVariant>)
        ensures
            match self {
                OwnedFormatItem::Component(c) => r == Ok::<Component, DifferentVariant>(c),
                _ => r == Err::<Component, DifferentVariant>(DifferentVariant),
            },
    {
        match self {
            OwnedFormatItem::Component(c) => Ok(c),
            _ => Err(DifferentVariant),
        }
    }

    /// The items, if this item is a compound.
    pub fn try_into_items(self) -> (r: Result<Vec<OwnedFormatItem>, DifferentVariant>)
        ensures
            match self {
                OwnedFormatItem::Compound(v) => r == Ok::<Vec<OwnedFormatItem>, DifferentVariant>(v),
                _ => r == Err::<Vec<OwnedFormatItem>, DifferentVariant>(DifferentVariant),
            },
    {
        match self {
            OwnedFormatItem::Compound(items) => Ok(items),
            _ => Err(DifferentVariant),
        }
    }

    /// Whether this item is exactly `component`.
    pub fn is_component(&self, component: &Component) -> (r: bool)
        ensures
            r == (*self == OwnedFormatItem::Component(*component)),
    {
        match self {
            OwnedFormatItem::Component(c) => *c == *component,
            _ => false,
        }
    }
}

impl From<Component> for OwnedFormatItem {
    fn from(component: Component) -> (r: OwnedFormatItem) {
        OwnedFormatItem::Component(component)
    }
}

impl vstd::std_specs::convert::FromSpecImpl<Component> for OwnedFormatItem {
    open spec fn obeys_from_spec() -> bool {
        true
    }

    open spec fn from_spec(component: Component) -> OwnedFormatItem {
        OwnedFormatItem::Component(component)
    }
}

/// The shape of a format item, with literal bytes as sequences.
pub enum ItemModel {
    Literal(Seq<u8>),
    Component(Component),
    Compound(Seq<ItemModel>),
    Optional(Box<ItemModel>),
    First(Seq<ItemModel>),
}

broadcast use vstd::std_specs::vec::group_vec_axioms, vstd::seq::group_seq_axioms;

/// The shape of an owned format item.
pub open spec fn item_model(it: &OwnedFormatItem) -> ItemModel
    decreases it,
{
    match it {
        OwnedFormatItem::Literal(b) => ItemModel::Literal(b@),
        OwnedFormatItem::Component(c) => ItemModel::Component(*c),
        OwnedFormatItem::Compound(v) => ItemModel::Compound(
            Seq::new(
                v@.len(),
                |i: int|
                    if 0 <= i < v@.len() {
                        item_model(&v@[i])
                    } else {
                        ItemModel::Literal(Seq::empty())
                    },
            ),
        ),
        OwnedFormatItem::Optional(b) => ItemModel::Optional(Box::new(item_model(&**b))),
        OwnedFormatItem::First(v) => ItemModel::First(
            Seq::new(
                v@.len(),
                |i: int|
                    if 0 <= i < v@.len() {
                        item_model(&v@[i])
                    } else {
                        ItemModel::Literal(Seq::empty())
                    },
            ),
        ),
    }
}

} // verus!
