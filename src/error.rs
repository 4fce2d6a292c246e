//! Error types of the library.
use vstd::prelude::*;

verus! {

/// A value was out of the range that its component allows.
#[derive(Debug, Clone, Copy, PartialEq, Eq)]
pub struct ComponentRange {
    /// Name of the component (`"year"`, `"day"`, ...).
    pub name: &'static str,
    /// Smallest value the component allows.
    pub minimum: i64,
    /// Largest value the component allows.
    pub maximum: i64,
    /// The value that was given.
    pub value: i64,
    /// Whether the range depends on other components (the month and year,
    /// for a day).
    pub is_conditional: bool,
}

/// `e` names component `name`, with range `minimum..=maximum`, the value
/// given, and whether the range depends on other components.
pub open spec fn range_error(
    e: ComponentRange,
    name: Seq<char>,
    minimum: int,
    maximum: int,
    value: int,
    conditional: bool,
) -> bool {
    &&& e.name@ == name
    &&& e.minimum == minimum
    &&& e.maximum == maximum
    &&& e.value == value
    &&& e.is_conditional == conditional
}

impl ComponentRange {
    /// Name of the component that was out of range.
    pub fn name(&self) -> (r: &'static str)
        ensures
            r@ == self.name@,
    {
        self.name
    }

    /// Whether the allowed range depends on other components.
    pub fn is_conditional(&self) -> (r: bool)
        ensures
            r == self.is_conditional,
    {
        self.is_conditional
    }
}

/// A format description could not be compiled. Each variant holds the byte
/// index in the description where the problem was found.
#[derive(Debug, Clone, Copy, PartialEq, Eq, Hash, Structural)]
pub enum InvalidFormatDescription {
    /// A `[` has no matching `]`; the index is that of the `[`.
    UnclosedOpeningBracket { index: usize },
    /// A component name is not one of the language's.
    InvalidComponentName { index: usize },
    /// A modifier is not `key:value`, or the component has no such key, or
    /// the key does not take that value.
    InvalidModifier { index: usize },
    /// A modifier key is given a second time in one component.
    DuplicateModifier { index: usize },
    /// A component has no name.
    MissingComponentName { index: usize },
    /// A component lacks a modifier that it requires (the `count` of
    /// `ignore`).
    MissingRequiredModifier { index: usize },
    /// A `[` was expected.
    ExpectedOpeningBracket { index: usize },
    /// A backslash is followed by something other than `[`, `]` or a
    /// backslash.
    InvalidEscape { index: usize },
    /// The item cannot be held by the kind of result asked for (a nested
    /// description in a borrowed list).
    NotSupported { index: usize },
}

} // verus!
