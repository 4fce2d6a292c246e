//! The format-description language, and its compiler into format items.
//!
//! A description is a run of literal bytes and bracketed components,
//! `[name key:value ...]`. In version 1, `[[` stands for a literal `[`. In
//! version 2, a backslash escapes `[`, `]` and itself, and two components
//! nest descriptions: `[optional [...]]`, and `[first [...] [...] ...]`,
//! whose alternatives are tried in order.
use crate::ast::{apply_modifier, apply_modifier_exec, component_named, component_named_exec};
use crate::error::InvalidFormatDescription;
use crate::format_item::{borrowed_item_model, item_model, BorrowedFormatItem, Component, ItemModel, OwnedFormatItem};
use crate::words::{is_first, is_optional, word_first, word_optional};
use vstd::prelude::*;
use vstd::string::StringSliceAdditionalSpecFns;

verus! {

broadcast use vstd::std_specs::vec::group_vec_axioms, vstd::seq::group_seq_axioms;

pub const OPEN: u8 = 0x5B;

pub const CLOSE: u8 = 0x5D;

pub const BACKSLASH: u8 = 0x5C;

pub const COLON: u8 = 0x3A;

pub open spec fn is_ws(b: u8) -> bool {
    b == 0x20 || b == 0x09 || b == 0x0A || b == 0x0D
}

/// The first index from `i` on that does not hold whitespace.
pub open spec fn skip_ws(s: Seq<u8>, i: int) -> int
    decreases s.len() - i,
{
    if 0 <= i < s.len() && is_ws(s[i]) {
        skip_ws(s, i + 1)
    } else {
        i
    }
}

/// A byte of a component name or a modifier: neither whitespace nor a
/// bracket.
pub open spec fn is_word_byte(b: u8) -> bool {
    !is_ws(b) && b != OPEN && b != CLOSE
}

/// The end of the word that starts at `i`.
pub open spec fn word_end(s: Seq<u8>, i: int) -> int
    decreases s.len() - i,
{
    if 0 <= i < s.len() && is_word_byte(s[i]) {
        word_end(s, i + 1)
    } else {
        i
    }
}

/// A byte that continues a run of literal text. Inside a nested description
/// (version 2), `]` ends the description.
pub open spec fn is_literal_byte(b: u8, version: usize, nested: bool) -> bool {
    b != OPEN && (version == 1 || (b != BACKSLASH && !(nested && b == CLOSE)))
}

/// The end of the literal run that starts at `i`.
pub open spec fn literal_end(s: Seq<u8>, i: int, version: usize, nested: bool) -> int
    decreases s.len() - i,
{
    if 0 <= i < s.len() && is_literal_byte(s[i], version, nested) {
        literal_end(s, i + 1, version, nested)
    } else {
        i
    }
}

/// The first `:` in `s[i..j]`, or `j`.
pub open spec fn colon_index(s: Seq<u8>, i: int, j: int) -> int
    decreases j - i,
{
    if 0 <= i < j && i < s.len() && s[i] != COLON {
        colon_index(s, i + 1, j)
    } else {
        i
    }
}

/// Parsed items and the index after them.
pub type ItemsResult = Result<(Seq<ItemModel>, int), InvalidFormatDescription>;

/// `p` put before the items of `r`.
pub open spec fn prepend(p: Seq<ItemModel>, r: ItemsResult) -> ItemsResult {
    match r {
        Ok((rest, k)) => Ok((p + rest, k)),
        Err(e) => Err(e),
    }
}

/// The items of a description from index `i`: up to the end of the input at
/// the top level, or up to the `]` that closes a nested description opened at
/// `open` (that `]` is not consumed).
///
/// In this function and the ones it calls, a branch whose condition says that
/// a position did not move forward never applies (every item consumes at
/// least one byte); it is there so that the recursion visibly terminates.
pub open spec fn items_spec(s: Seq<u8>, i: int, version: usize, open: Option<int>) -> ItemsResult
    decreases s.len() - i, 3int,
{
    if i < 0 || i >= s.len() {
        match open {
            Some(o) => Err(InvalidFormatDescription::UnclosedOpeningBracket { index: o as usize }),
            None => Ok((seq![], i)),
        }
    } else if open.is_some() && s[i] == CLOSE {
        Ok((seq![], i))
    } else {
        match item_spec(s, i, version, open) {
            Err(e) => Err(e),
            Ok((it, j)) => if j <= i || j > s.len() {
                Err(InvalidFormatDescription::NotSupported { index: i as usize })
            } else {
                prepend(seq![it], items_spec(s, j, version, open))
            },
        }
    }
}

/// One item at index `i`: a literal run, an escaped bracket, or a component.
pub open spec fn item_spec(s: Seq<u8>, i: int, version: usize, open: Option<int>) -> Result<
    (ItemModel, int),
    InvalidFormatDescription,
>
    decreases s.len() - i, 2int,
{
    if i < 0 || i >= s.len() {
        Err(InvalidFormatDescription::NotSupported { index: i as usize })
    } else if s[i] == OPEN {
        if version == 1 && i + 1 < s.len() && s[i + 1] == OPEN {
            Ok((ItemModel::Literal(s.subrange(i, i + 1)), i + 2))
        } else {
            component_spec(s, i, version)
        }
    } else if version == 2 && s[i] == BACKSLASH {
        if i + 1 < s.len() && (s[i + 1] == OPEN || s[i + 1] == CLOSE || s[i + 1] == BACKSLASH) {
            Ok((ItemModel::Literal(s.subrange(i + 1, i + 2)), i + 2))
        } else {
            Err(InvalidFormatDescription::InvalidEscape { index: i as usize })
        }
    } else {
        let j = literal_end(s, i, version, open.is_some());
        Ok((ItemModel::Literal(s.subrange(i, j)), j))
    }
}

/// The bracketed component that opens at index `i`.
pub open spec fn component_spec(s: Seq<u8>, i: int, version: usize) -> Result<
    (ItemModel, int),
    InvalidFormatDescription,
>
    decreases s.len() - i, 1int,
{
    let a = skip_ws(s, i + 1);
    let n = word_end(s, a);
    if a >= s.len() {
        Err(InvalidFormatDescription::UnclosedOpeningBracket { index: i as usize })
    } else if n <= a || a <= i || n > s.len() {
        Err(InvalidFormatDescription::MissingComponentName { index: i as usize })
    } else if version == 2 && s.subrange(a, n) == word_optional() {
        let j = skip_ws(s, n);
        if j >= s.len() {
            Err(InvalidFormatDescription::UnclosedOpeningBracket { index: i as usize })
        } else if s[j] != OPEN || j <= i {
            Err(InvalidFormatDescription::ExpectedOpeningBracket { index: j as usize })
        } else {
            match items_spec(s, j + 1, version, Some(j)) {
                Err(e) => Err(e),
                Ok((items, k)) => {
                    let m = skip_ws(s, k + 1);
                    if 0 <= m < s.len() && s[m] == CLOSE {
                        Ok(
                            (
                                ItemModel::Optional(Box::new(ItemModel::Compound(items))),
                                m + 1,
                            ),
                        )
                    } else {
                        Err(InvalidFormatDescription::UnclosedOpeningBracket { index: i as usize })
                    }
                },
            }
        }
    } else if version == 2 && s.subrange(a, n) == word_first() {
        match alternatives_spec(s, n, i) {
            Ok((alternatives, k)) => Ok((ItemModel::First(alternatives), k)),
            Err(e) => Err(e),
        }
    } else {
        match component_named(s.subrange(a, n)) {
            None => Err(InvalidFormatDescription::InvalidComponentName { index: a as usize }),
            Some(c) => modifiers_spec(s, n, i, c, seq![]),
        }
    }
}

/// The alternatives of a `first` component that opened at `open`, from index
/// `j0` up to and including its closing `]`.
pub open spec fn alternatives_spec(s: Seq<u8>, j0: int, open: int) -> ItemsResult
    decreases s.len() - j0, 0int,
{
    let j = skip_ws(s, j0);
    if j < 0 || j >= s.len() {
        Err(InvalidFormatDescription::UnclosedOpeningBracket { index: open as usize })
    } else if s[j] == CLOSE {
        Ok((seq![], j + 1))
    } else if s[j] != OPEN || j < j0 {
        Err(InvalidFormatDescription::ExpectedOpeningBracket { index: j as usize })
    } else {
        match items_spec(s, j + 1, 2, Some(j)) {
            Err(e) => Err(e),
            Ok((items, k)) => if k + 1 <= j0 || k + 1 > s.len() {
                Err(InvalidFormatDescription::NotSupported { index: j as usize })
            } else {
                prepend(seq![ItemModel::Compound(items)], alternatives_spec(s, k + 1, open))
            },
        }
    }
}

/// The modifiers of a component that opened at `open`, from index `j0` up to
/// and including its closing `]`, applied to `c`; `seen` holds the keys
/// already given, and a key given twice is refused.
pub open spec fn modifiers_spec(
    s: Seq<u8>,
    j0: int,
    open: int,
    c: Component,
    seen: Seq<Seq<u8>>,
) -> Result<
    (ItemModel, int),
    InvalidFormatDescription,
>
    decreases s.len() - j0, 0int,
{
    let j = skip_ws(s, j0);
    if j < 0 || j >= s.len() {
        Err(InvalidFormatDescription::UnclosedOpeningBracket { index: open as usize })
    } else if s[j] == CLOSE {
        match c {
            Component::Ignore(m) => if m.count == 0 {
                Err(InvalidFormatDescription::MissingRequiredModifier { index: open as usize })
            } else {
                Ok((ItemModel::Component(c), j + 1))
            },
            _ => Ok((ItemModel::Component(c), j + 1)),
        }
    } else {
        let t = word_end(s, j);
        let colon = colon_index(s, j, t);
        if t <= j || j < j0 || t > s.len() || colon == j || colon >= t - 1 {
            Err(InvalidFormatDescription::InvalidModifier { index: j as usize })
        } else if seen.contains(s.subrange(j, colon)) {
            Err(InvalidFormatDescription::DuplicateModifier { index: j as usize })
        } else {
            match apply_modifier(c, s.subrange(j, colon), s.subrange(colon + 1, t)) {
                None => Err(InvalidFormatDescription::InvalidModifier { index: j as usize }),
                Some(next) => modifiers_spec(s, t, open, next, seen.push(s.subrange(j, colon))),
            }
        }
    }
}

/// Where each item that `items_spec(s, i, version, open)` gives starts.
pub open spec fn item_starts(s: Seq<u8>, i: int, version: usize, open: Option<int>) -> Seq<int>
    decreases s.len() - i,
{
    if i < 0 || i >= s.len() {
        seq![]
    } else if open.is_some() && s[i] == CLOSE {
        seq![]
    } else {
        match item_spec(s, i, version, open) {
            Err(_) => seq![],
            Ok((_, j)) => if j <= i || j > s.len() {
                seq![]
            } else {
                seq![i] + item_starts(s, j, version, open)
            },
        }
    }
}

/// The first item of `items` that is nested (neither a literal nor a
/// component).
pub open spec fn first_nested(items: Seq<ItemModel>) -> int {
    choose|k: int|
        0 <= k < items.len() && !is_flat(#[trigger] items[k]) && forall|j: int|
            0 <= j < k ==> is_flat(#[trigger] items[j])
}

/// The items that a whole description compiles to.
pub open spec fn description_spec(s: Seq<u8>, version: usize) -> Result<
    Seq<ItemModel>,
    InvalidFormatDescription,
> {
    match items_spec(s, 0, version, None) {
        Ok((items, _)) => Ok(items),
        Err(e) => Err(e),
    }
}

/// The shapes of a sequence of owned items.
pub open spec fn items_model(v: Seq<OwnedFormatItem>) -> Seq<ItemModel> {
    Seq::new(v.len(), |i: int| item_model(&v[i]))
}

/// Whether an item is a literal or a component, the two kinds a borrowed
/// list holds.
pub open spec fn is_flat(m: ItemModel) -> bool {
    m is Literal || m is Component
}

fn skip_ws_exec(s: &[u8], i: usize) -> (r: usize)
    requires
        i <= s@.len(),
    ensures
        r == skip_ws(s@, i as int),
        i <= r <= s@.len(),
        r < s@.len() ==> !is_ws(s@[r as int]),
{
    let mut j = i;
    while j < s.len() && (s[j] == 0x20 || s[j] == 0x09 || s[j] == 0x0A || s[j] == 0x0D)
        invariant
            i <= j <= s@.len(),
            skip_ws(s@, i as int) == skip_ws(s@, j as int),
        decreases s@.len() - j,
    {
        j = j + 1;
    }
    j
}

fn word_end_exec(s: &[u8], i: usize) -> (r: usize)
    requires
        i <= s@.len(),
    ensures
        r == word_end(s@, i as int),
        i <= r <= s@.len(),
{
    let mut j = i;
    while j < s.len() && !(s[j] == 0x20 || s[j] == 0x09 || s[j] == 0x0A || s[j] == 0x0D)
        && s[j] != OPEN && s[j] != CLOSE
        invariant
            i <= j <= s@.len(),
            word_end(s@, i as int) == word_end(s@, j as int),
        decreases s@.len() - j,
    {
        j = j + 1;
    }
    j
}

fn literal_end_exec(s: &[u8], i: usize, version: usize, nested: bool) -> (r: usize)
    requires
        i <= s@.len(),
    ensures
        r == literal_end(s@, i as int, version, nested),
        i <= r <= s@.len(),
        i < s@.len() && is_literal_byte(s@[i as int], version, nested) ==> i < r,
{
    let mut j = i;
    while j < s.len() && s[j] != OPEN && (version == 1 || (s[j] != BACKSLASH && !(nested && s[j]
        == CLOSE)))
        invariant
            i <= j <= s@.len(),
            literal_end(s@, i as int, version, nested) == literal_end(s@, j as int, version, nested),
        decreases s@.len() - j,
    {
        j = j + 1;
    }
    j
}

fn colon_index_exec(s: &[u8], i: usize, end: usize) -> (r: usize)
    requires
        i <= end <= s@.len(),
    ensures
        r == colon_index(s@, i as int, end as int),
        i <= r <= end,
{
    let mut j = i;
    while j < end && s[j] != COLON
        invariant
            i <= j <= end <= s@.len(),
            colon_index(s@, i as int, end as int) == colon_index(s@, j as int, end as int),
        decreases end - j,
    {
        j = j + 1;
    }
    j
}

/// The bytes `s[start..end]`.
fn copy_bytes(s: &[u8], start: usize, end: usize) -> (r: Vec<u8>)
    requires
        start <= end <= s@.len(),
    ensures
        r@ == s@.subrange(start as int, end as int),
{
    let mut v: Vec<u8> = Vec::new();
    let mut i = start;
    while i < end
        invariant
            start <= i <= end <= s@.len(),
            v@ == s@.subrange(start as int, i as int),
        decreases end - i,
    {
        v.push(s[i]);
        i = i + 1;
        assert(v@ =~= s@.subrange(start as int, i as int));
    }
    v
}

proof fn lemma_compound_model(v: Vec<OwnedFormatItem>)
    ensures
        item_model(&OwnedFormatItem::Compound(v)) == ItemModel::Compound(items_model(v@)),
        item_model(&OwnedFormatItem::First(v)) == ItemModel::First(items_model(v@)),
{
    assert(item_model(&OwnedFormatItem::Compound(v))->Compound_0 =~= items_model(v@));
    assert(item_model(&OwnedFormatItem::First(v))->First_0 =~= items_model(v@));
}

proof fn lemma_push_model(v: Seq<OwnedFormatItem>, it: OwnedFormatItem)
    ensures
        items_model(v.push(it)) == items_model(v) + seq![item_model(&it)],
{
    assert(items_model(v.push(it)) =~= items_model(v) + seq![item_model(&it)]);
}

proof fn lemma_prepend_push(a: Seq<ItemModel>, m: ItemModel, r: ItemsResult)
    ensures
        prepend(a, prepend(seq![m], r)) == prepend(a + seq![m], r),
{
    match r {
        Ok((rest, k)) => {
            assert(a + (seq![m] + rest) =~= (a + seq![m]) + rest);
        },
        Err(_) => {},
    }
}

/// A nesting position as an integer.
pub open spec fn open_model(open: Option<usize>) -> Option<int> {
    match open {
        Some(o) => Some(o as int),
        None => None,
    }
}

/// Where each parsed item came from: for a literal, the range of the
/// description that holds its bytes.
pub open spec fn spans_fit(s: Seq<u8>, items: Seq<OwnedFormatItem>, spans: Seq<(usize, usize)>) -> bool {
    &&& spans.len() == items.len()
    &&& forall|k: int|
        0 <= k < items.len() ==> match #[trigger] items[k] {
            OwnedFormatItem::Literal(b) => spans[k].0 <= spans[k].1 <= s.len() && b@
                == s.subrange(spans[k].0 as int, spans[k].1 as int),
            _ => true,
        }
}

/// Parse items from `i0`, as `items_spec` describes; also where each literal
/// came from.
fn parse_items(s: &[u8], i0: usize, version: usize, open: Option<usize>) -> (r: Result<
    (Vec<OwnedFormatItem>, Vec<(usize, usize)>, usize),
    InvalidFormatDescription,
>)
    requires
        i0 <= s@.len(),
        version == 1 || version == 2,
    ensures
        match r {
            Ok((v, spans, k)) => items_spec(
                s@,
                i0 as int,
                version,
                match open {
                    Some(o) => Some(o as int),
                    None => None,
                },
            ) == Ok::<(Seq<ItemModel>, int), InvalidFormatDescription>((items_model(v@), k as int))
                && i0 <= k <= s@.len() && (open.is_some() ==> k < s@.len() && s@[k as int] == CLOSE)
                && spans_fit(s@, v@, spans@) && item_starts(s@, i0 as int, version, open_model(open)).len()
                == v@.len() && forall|x: int|
                0 <= x < v@.len() && !(v@[x] is Literal) ==> #[trigger] spans@[x].0 == item_starts(
                    s@,
                    i0 as int,
                    version,
                    open_model(open),
                )[x],
            Err(e) => items_spec(
                s@,
                i0 as int,
                version,
                match open {
                    Some(o) => Some(o as int),
                    None => None,
                },
            ) == Err::<(Seq<ItemModel>, int), InvalidFormatDescription>(e),
        },
    decreases s@.len() - i0, 3int,
{
    let ghost open_int = match open {
        Some(o) => Some(o as int),
        None => None,
    };
    let mut acc: Vec<OwnedFormatItem> = Vec::new();
    let mut spans: Vec<(usize, usize)> = Vec::new();
    let mut i = i0;
    let ghost mut starts: Seq<int> = seq![];
    proof {
        assert(seq![] + item_starts(s@, i0 as int, version, open_int) =~= item_starts(
            s@,
            i0 as int,
            version,
            open_int,
        ));
        assert(items_model(acc@) =~= seq![]);
        match items_spec(s@, i as int, version, open_int) {
            Ok((rest, k)) => {
                assert(seq![] + rest =~= rest);
            },
            Err(_) => {},
        }
    }
    loop
        invariant
            i0 <= i <= s@.len(),
            version == 1 || version == 2,
            open_int == open_model(open),
            prepend(items_model(acc@), items_spec(s@, i as int, version, open_int)) == items_spec(
                s@,
                i0 as int,
                version,
                open_int,
            ),
            spans_fit(s@, acc@, spans@),
            item_starts(s@, i0 as int, version, open_int) == starts + item_starts(
                s@,
                i as int,
                version,
                open_int,
            ),
            starts.len() == acc@.len(),
            spans@.len() == acc@.len(),
            forall|x: int|
                0 <= x < acc@.len() && !(acc@[x] is Literal) ==> #[trigger] spans@[x].0 == starts[x],
        decreases s@.len() - i,
    {
        if i >= s.len() {
            match open {
                Some(o) => {
                    return Err(InvalidFormatDescription::UnclosedOpeningBracket { index: o });
                },
                None => {
                    proof {
                        assert(items_model(acc@) + seq![] =~= items_model(acc@));
                    }
                    proof {
                        assert(starts + seq![] =~= starts);
                    }
                    return Ok((acc, spans, i));
                },
            }
        }
        if open.is_some() && s[i] == CLOSE {
            proof {
                assert(items_model(acc@) + seq![] =~= items_model(acc@));
                assert(starts + seq![] =~= starts);
            }
            return Ok((acc, spans, i));
        }
        match parse_item(s, i, version, open) {
            Err(e) => {
                return Err(e);
            },
            Ok((it, span, j)) => {
                proof {
                    lemma_prepend_push(
                        items_model(acc@),
                        item_model(&it),
                        items_spec(s@, j as int, version, open_int),
                    );
                    lemma_push_model(acc@, it);
                }
                let ghost prev_acc = acc@;
                let ghost prev_spans = spans@;
                proof {
                    assert(starts + (seq![i as int] + item_starts(s@, j as int, version, open_int))
                        =~= (starts + seq![i as int]) + item_starts(s@, j as int, version, open_int));
                    starts = starts + seq![i as int];
                }
                acc.push(it);
                spans.push(span);
                proof {
                    assert forall|k: int| 0 <= k < acc@.len() implies match #[trigger] acc@[k] {
                        OwnedFormatItem::Literal(b) => spans@[k].0 <= spans@[k].1 <= s@.len()
                            && b@ == s@.subrange(spans@[k].0 as int, spans@[k].1 as int),
                        _ => true,
                    } by {
                        if k < acc@.len() - 1 {
                            assert(acc@[k] == prev_acc[k]);
                            assert(spans@[k] == prev_spans[k]);
                        }
                    }
                    assert forall|x: int|
                        0 <= x < acc@.len() && !(acc@[x] is Literal) implies #[trigger] spans@[x].0
                        == starts[x] by {
                        if x < acc@.len() - 1 {
                            assert(acc@[x] == prev_acc[x]);
                            assert(spans@[x] == prev_spans[x]);
                        }
                    }
                }
                i = j;
            },
        }
    }
}

/// Parse the item at `i`, as `item_spec` describes; also the range that holds
/// a literal's bytes.
fn parse_item(s: &[u8], i: usize, version: usize, open: Option<usize>) -> (r: Result<
    (OwnedFormatItem, (usize, usize), usize),
    InvalidFormatDescription,
>)
    requires
        i < s@.len(),
        version == 1 || version == 2,
        !(open.is_some() && s@[i as int] == CLOSE),
    ensures
        match r {
            Ok((it, span, j)) => item_spec(s@, i as int, version, open_model(open)) == Ok::<
                (ItemModel, int),
                InvalidFormatDescription,
            >((item_model(&it), j as int)),
            Err(e) => item_spec(s@, i as int, version, open_model(open)) == Err::<
                (ItemModel, int),
                InvalidFormatDescription,
            >(e),
        },
        r.is_ok() ==> i < r.unwrap().2 <= s@.len(),
        r.is_ok() && !(r.unwrap().0 is Literal) ==> r.unwrap().1.0 == i,
        r.is_ok() ==> match r.unwrap().0 {
            OwnedFormatItem::Literal(b) => r.unwrap().1.0 <= r.unwrap().1.1 <= s@.len() && b@
                == s@.subrange(r.unwrap().1.0 as int, r.unwrap().1.1 as int),
            _ => true,
        },
    decreases s@.len() - i, 2int,
{
    let len = s.len();
    if s[i] == OPEN {
        if version == 1 && i + 1 < s.len() && s[i + 1] == OPEN {
            let b = copy_bytes(s, i, i + 1);
            Ok((OwnedFormatItem::Literal(b), (i, i + 1), i + 2))
        } else {
            match parse_component(s, i, version) {
                Ok((it, j)) => Ok((it, (i, i), j)),
                Err(e) => Err(e),
            }
        }
    } else if version == 2 && s[i] == BACKSLASH {
        if i + 1 < s.len() && (s[i + 1] == OPEN || s[i + 1] == CLOSE || s[i + 1] == BACKSLASH) {
            let b = copy_bytes(s, i + 1, i + 2);
            Ok((OwnedFormatItem::Literal(b), (i + 1, i + 2), i + 2))
        } else {
            Err(InvalidFormatDescription::InvalidEscape { index: i })
        }
    } else {
        let j = literal_end_exec(s, i, version, open.is_some());
        let b = copy_bytes(s, i, j);
        Ok((OwnedFormatItem::Literal(b), (i, j), j))
    }
}

/// Parse the component that opens at `i`, as `component_spec` describes.
fn parse_component(s: &[u8], i: usize, version: usize) -> (r: Result<
    (OwnedFormatItem, usize),
    InvalidFormatDescription,
>)
    requires
        i < s@.len(),
        s@[i as int] == OPEN,
        version == 1 || version == 2,
    ensures
        match r {
            Ok((it, j)) => component_spec(s@, i as int, version) == Ok::<
                (ItemModel, int),
                InvalidFormatDescription,
            >((item_model(&it), j as int)) && i < j <= s@.len(),
            Err(e) => component_spec(s@, i as int, version) == Err::<
                (ItemModel, int),
                InvalidFormatDescription,
            >(e),
        },
        r.is_ok() ==> !(r.unwrap().0 is Literal),
    decreases s@.len() - i, 1int,
{
    let len = s.len();
    let a = skip_ws_exec(s, i + 1);
    if a >= s.len() {
        return Err(InvalidFormatDescription::UnclosedOpeningBracket { index: i });
    }
    let n = word_end_exec(s, a);
    if n <= a {
        return Err(InvalidFormatDescription::MissingComponentName { index: i });
    }
    let name = &s[a..n];
    if version == 2 && is_optional(name) {
        let j = skip_ws_exec(s, n);
        if j >= s.len() {
            return Err(InvalidFormatDescription::UnclosedOpeningBracket { index: i });
        }
        if s[j] != OPEN {
            return Err(InvalidFormatDescription::ExpectedOpeningBracket { index: j });
        }
        match parse_items(s, j + 1, version, Some(j)) {
            Err(e) => Err(e),
            Ok((items, _, k)) => {
                let m = skip_ws_exec(s, k + 1);
                if m < s.len() && s[m] == CLOSE {
                    proof {
                        lemma_compound_model(items);
                    }
                    let inner = OwnedFormatItem::Compound(items);
                    Ok((OwnedFormatItem::Optional(Box::new(inner)), m + 1))
                } else {
                    Err(InvalidFormatDescription::UnclosedOpeningBracket { index: i })
                }
            },
        }
    } else if version == 2 && is_first(name) {
        match parse_alternatives(s, n, i) {
            Ok((alternatives, k)) => {
                proof {
                    lemma_compound_model(alternatives);
                }
                Ok((OwnedFormatItem::First(alternatives), k))
            },
            Err(e) => Err(e),
        }
    } else {
        match component_named_exec(name) {
            None => Err(InvalidFormatDescription::InvalidComponentName { index: a }),
            Some(c) => parse_modifiers(s, n, i, c),
        }
    }
}

/// Parse the alternatives of a `first` component, as `alternatives_spec`
/// describes.
fn parse_alternatives(s: &[u8], j0: usize, open: usize) -> (r: Result<
    (Vec<OwnedFormatItem>, usize),
    InvalidFormatDescription,
>)
    requires
        open < j0 <= s@.len(),
    ensures
        match r {
            Ok((v, k)) => alternatives_spec(s@, j0 as int, open as int) == Ok::<
                (Seq<ItemModel>, int),
                InvalidFormatDescription,
            >((items_model(v@), k as int)) && j0 < k <= s@.len(),
            Err(e) => alternatives_spec(s@, j0 as int, open as int) == Err::<
                (Seq<ItemModel>, int),
                InvalidFormatDescription,
            >(e),
        },
    decreases s@.len() - j0, 0int,
{
    let mut acc: Vec<OwnedFormatItem> = Vec::new();
    let mut j1 = j0;
    proof {
        assert(items_model(acc@) =~= seq![]);
        match alternatives_spec(s@, j1 as int, open as int) {
            Ok((rest, k)) => {
                assert(seq![] + rest =~= rest);
            },
            Err(_) => {},
        }
    }
    loop
        invariant
            j0 <= j1 <= s@.len(),
            prepend(items_model(acc@), alternatives_spec(s@, j1 as int, open as int))
                == alternatives_spec(s@, j0 as int, open as int),
        decreases s@.len() - j1,
    {
        let j = skip_ws_exec(s, j1);
        if j >= s.len() {
            return Err(InvalidFormatDescription::UnclosedOpeningBracket { index: open });
        }
        if s[j] == CLOSE {
            proof {
                assert(items_model(acc@) + seq![] =~= items_model(acc@));
            }
            return Ok((acc, j + 1));
        }
        if s[j] != OPEN {
            return Err(InvalidFormatDescription::ExpectedOpeningBracket { index: j });
        }
        match parse_items(s, j + 1, 2, Some(j)) {
            Err(e) => {
                return Err(e);
            },
            Ok((items, _, k)) => {
                proof {
                    lemma_compound_model(items);
                    lemma_prepend_push(
                        items_model(acc@),
                        ItemModel::Compound(items_model(items@)),
                        alternatives_spec(s@, k + 1, open as int),
                    );
                }
                let alternative = OwnedFormatItem::Compound(items);
                proof {
                    lemma_push_model(acc@, alternative);
                }
                acc.push(alternative);
                j1 = k + 1;
            },
        }
    }
}

/// The keys at the given ranges of `s`.
pub open spec fn keys_model(s: Seq<u8>, keys: Seq<(usize, usize)>) -> Seq<Seq<u8>> {
    Seq::new(keys.len(), |x: int| s.subrange(keys[x].0 as int, keys[x].1 as int))
}

/// Whether `a` and `b` hold the same bytes.
fn same_bytes(a: &[u8], b: &[u8]) -> (r: bool)
    ensures
        r == (a@ == b@),
{
    if a.len() != b.len() {
        return false;
    }
    let mut i: usize = 0;
    while i < a.len()
        invariant
            a@.len() == b@.len(),
            i <= a@.len(),
            forall|k: int| 0 <= k < i ==> a@[k] == b@[k],
        decreases a@.len() - i,
    {
        if a[i] != b[i] {
            return false;
        }
        i = i + 1;
    }
    assert(a@ =~= b@);
    true
}

/// Whether `key` is one of the keys at the given ranges of `s`.
fn key_seen(s: &[u8], keys: &Vec<(usize, usize)>, key: &[u8]) -> (r: bool)
    requires
        forall|x: int| 0 <= x < keys@.len() ==> #[trigger] keys@[x].0 <= keys@[x].1 <= s@.len(),
    ensures
        r == keys_model(s@, keys@).contains(key@),
{
    let ghost model = keys_model(s@, keys@);
    let mut x: usize = 0;
    while x < keys.len()
        invariant
            model == keys_model(s@, keys@),
            x <= keys@.len(),
            forall|x: int| 0 <= x < keys@.len() ==> #[trigger] keys@[x].0 <= keys@[x].1 <= s@.len(),
            forall|y: int| 0 <= y < x ==> model[y] != key@,
        decreases keys@.len() - x,
    {
        let (a, b) = keys[x];
        if same_bytes(&s[a..b], key) {
            assert(model[x as int] == key@);
            return true;
        }
        x = x + 1;
    }
    false
}

/// Parse the modifiers of a component, as `modifiers_spec` describes.
fn parse_modifiers(s: &[u8], j0: usize, open: usize, c0: Component) -> (r: Result<
    (OwnedFormatItem, usize),
    InvalidFormatDescription,
>)
    requires
        open < j0 <= s@.len(),
    ensures
        match r {
            Ok((it, j)) => modifiers_spec(s@, j0 as int, open as int, c0, seq![]) == Ok::<
                (ItemModel, int),
                InvalidFormatDescription,
            >((item_model(&it), j as int)) && j0 < j <= s@.len(),
            Err(e) => modifiers_spec(s@, j0 as int, open as int, c0, seq![]) == Err::<
                (ItemModel, int),
                InvalidFormatDescription,
            >(e),
        },
        r.is_ok() ==> r.unwrap().0 is Component,
{
    let mut c = c0;
    let mut j1 = j0;
    let mut keys: Vec<(usize, usize)> = Vec::new();
    proof {
        assert(keys_model(s@, keys@) =~= seq![]);
    }
    loop
        invariant
            j0 <= j1 <= s@.len(),
            forall|x: int|
                0 <= x < keys@.len() ==> #[trigger] keys@[x].0 <= keys@[x].1 <= s@.len(),
            modifiers_spec(s@, j1 as int, open as int, c, keys_model(s@, keys@)) == modifiers_spec(
                s@,
                j0 as int,
                open as int,
                c0,
                seq![],
            ),
        decreases s@.len() - j1,
    {
        let j = skip_ws_exec(s, j1);
        if j >= s.len() {
            return Err(InvalidFormatDescription::UnclosedOpeningBracket { index: open });
        }
        if s[j] == CLOSE {
            if let Component::Ignore(m) = c {
                if m.count == 0 {
                    return Err(InvalidFormatDescription::MissingRequiredModifier { index: open });
                }
            }
            return Ok((OwnedFormatItem::Component(c), j + 1));
        }
        let t = word_end_exec(s, j);
        let colon = colon_index_exec(s, j, t);
        if t <= j || colon == j || colon >= t - 1 {
            return Err(InvalidFormatDescription::InvalidModifier { index: j });
        }
        if key_seen(s, &keys, &s[j..colon]) {
            return Err(InvalidFormatDescription::DuplicateModifier { index: j });
        }
        match apply_modifier_exec(c, &s[j..colon], &s[colon + 1..t]) {
            None => {
                return Err(InvalidFormatDescription::InvalidModifier { index: j });
            },
            Some(next) => {
                let ghost before = keys_model(s@, keys@);
                let ghost prev_keys = keys@;
                keys.push((j, colon));
                proof {
                    assert forall|x: int| 0 <= x < keys@.len() implies #[trigger] keys@[x].0
                        <= keys@[x].1 <= s@.len() by {
                        if x < prev_keys.len() {
                            assert(keys@[x] == prev_keys[x]);
                        }
                    }
                    assert(keys_model(s@, keys@) =~= before.push(s@.subrange(j as int, colon as int)));
                }
                c = next;
                j1 = t;
            },
        }
    }
}

/// A borrowed compile has one outcome: two results that both meet
/// `borrowed_outcome` for the same description fail with the same error, or
/// both succeed with items of the same shapes. So `parse(s)` and
/// `parse_borrowed::<1>(s)` agree.
pub proof fn law_borrowed_outcome_determined(
    s: Seq<u8>,
    version: usize,
    r1: Result<Vec<BorrowedFormatItem<'_>>, InvalidFormatDescription>,
    r2: Result<Vec<BorrowedFormatItem<'_>>, InvalidFormatDescription>,
)
    requires
        borrowed_outcome(s, version, r1),
        borrowed_outcome(s, version, r2),
    ensures
        r1.is_ok() == r2.is_ok(),
        r1.is_err() ==> r1 == r2,
        r1.is_ok() ==> r1.unwrap()@.map_values(|b: BorrowedFormatItem| borrowed_item_model(b))
            == r2.unwrap()@.map_values(|b: BorrowedFormatItem| borrowed_item_model(b)),
{
}

/// Compile a version-1 description into borrowed items.
pub fn parse(s: &str) -> (r: Result<Vec<BorrowedFormatItem<'_>>, InvalidFormatDescription>)
    ensures
        borrowed_outcome(s.spec_bytes(), 1, r),
{
    parse_borrowed::<1>(s)
}

/// What a borrowed compile gives: the description's items when it compiles
/// and they are all literals and components; an error otherwise, the
/// description's own when it does not compile.
pub open spec fn borrowed_outcome(
    s: Seq<u8>,
    version: usize,
    r: Result<Vec<BorrowedFormatItem<'_>>, InvalidFormatDescription>,
) -> bool {
    match description_spec(s, version) {
        Ok(items) => if forall|k: int| 0 <= k < items.len() ==> is_flat(#[trigger] items[k]) {
            r.is_ok() && r.unwrap()@.map_values(|b: BorrowedFormatItem| borrowed_item_model(b))
                == items
        } else {
            r == Err::<Vec<BorrowedFormatItem<'_>>, InvalidFormatDescription>(
                InvalidFormatDescription::NotSupported {
                    index: item_starts(s, 0, version, None)[first_nested(items)] as usize,
                },
            )
        },
        Err(e) => r == Err::<Vec<BorrowedFormatItem<'_>>, InvalidFormatDescription>(e),
    }
}

/// Compile a description of language version `VERSION` (1 or 2) into
/// borrowed items. Nested descriptions cannot be borrowed: they are refused.
pub fn parse_borrowed<const VERSION: usize>(s: &str) -> (r: Result<
    Vec<BorrowedFormatItem<'_>>,
    InvalidFormatDescription,
>)
    requires
        VERSION == 1 || VERSION == 2,
    ensures
        borrowed_outcome(s.spec_bytes(), VERSION, r),
{
    let bytes = s.as_bytes();
    let (items, spans) = match parse_items(bytes, 0, VERSION, None) {
        Ok((items, spans, _)) => (items, spans),
        Err(e) => {
            return Err(e);
        },
    };
    let ghost model = items_model(items@);
    proof {
        assert(description_spec(s.spec_bytes(), VERSION) == Ok::<
            Seq<ItemModel>,
            InvalidFormatDescription,
        >(model));
    }
    let mut out: Vec<BorrowedFormatItem<'_>> = Vec::new();
    let mut k: usize = 0;
    while k < items.len()
        invariant
            k <= items@.len(),
            model == items_model(items@),
            description_spec(s.spec_bytes(), VERSION) == Ok::<
                Seq<ItemModel>,
                InvalidFormatDescription,
            >(model),
            spans_fit(bytes@, items@, spans@),
            bytes@ == s.spec_bytes(),
            item_starts(bytes@, 0, VERSION, None).len() == items@.len(),
            forall|x: int|
                0 <= x < items@.len() && !(items@[x] is Literal) ==> #[trigger] spans@[x].0
                    == item_starts(bytes@, 0, VERSION, None)[x],
            forall|x: int| 0 <= x < k ==> is_flat(#[trigger] model[x]),
            out@.len() == k,
            forall|x: int|
                0 <= x < k ==> borrowed_item_model(#[trigger] out@[x]) == model[x],
        decreases items@.len() - k,
    {
        match &items[k] {
            OwnedFormatItem::Literal(b) => {
                let (start, end) = spans[k];
                out.push(BorrowedFormatItem::Literal(&bytes[start..end]));
            },
            OwnedFormatItem::Component(c) => {
                out.push(BorrowedFormatItem::Component(*c));
            },
            _ => {
                let e = InvalidFormatDescription::NotSupported { index: spans[k].0 };
                proof {
                    // A nested item is neither a literal nor a component.
                    assert(model[k as int] == item_model(&items@[k as int]));
                    assert(!is_flat(model[k as int]));
                    assert(description_spec(s.spec_bytes(), VERSION)->Ok_0 == model);
                    let c = first_nested(model);
                    assert(0 <= k < model.len() && !is_flat(model[k as int]) && forall|j: int|
                        0 <= j < k ==> is_flat(#[trigger] model[j]));
                    assert(c == k) by {
                        if c < k {
                            assert(is_flat(model[c]));
                        } else if c > k {
                            assert(is_flat(model[k as int]));
                        }
                    }
                    assert(spans@[k as int].0 == item_starts(bytes@, 0, VERSION, None)[k as int]);
                    assert(!(forall|x: int| 0 <= x < model.len() ==> is_flat(#[trigger] model[x])));
                    assert(bytes@ == s.spec_bytes());
                }
                return Err(e);
            },
        }
        k = k + 1;
    }
    proof {
        assert(out@.map_values(|b: BorrowedFormatItem| borrowed_item_model(b)) =~= model);
    }
    Ok(out)
}

/// Compile a description of language version `VERSION` (1 or 2) into one
/// owned item: the compound of the description's items.
pub fn parse_owned<const VERSION: usize>(s: &str) -> (r: Result<
    OwnedFormatItem,
    InvalidFormatDescription,
>)
    requires
        VERSION == 1 || VERSION == 2,
    ensures
        match description_spec(s.spec_bytes(), VERSION) {
            Ok(items) => r.is_ok() && item_model(&r.unwrap()) == ItemModel::Compound(items),
            Err(e) => r == Err::<OwnedFormatItem, InvalidFormatDescription>(e),
        },
{
    match parse_items(s.as_bytes(), 0, VERSION, None) {
        Ok((items, _, _)) => {
            proof {
                lemma_compound_model(items);
            }
            Ok(OwnedFormatItem::Compound(items))
        },
        Err(e) => Err(e),
    }
}

} // verus!
