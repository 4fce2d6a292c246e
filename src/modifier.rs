//! The modifiers that parametrise each component of a format description.
use vstd::prelude::*;

verus! {

/// How a number is padded to its width.
#[derive(Debug, Clone, Copy, PartialEq, Eq, Hash, Structural)]
pub enum Padding {
    /// Leading spaces.
    Space,
    /// Leading zeros.
    Zero,
    /// No padding.
    Unpadded,
}

/// Day of the month.
#[derive(Debug, Clone, Copy, PartialEq, Eq, Hash, Structural)]
pub struct Day {
    pub padding: Padding,
}

/// How a month is written.
#[derive(Debug, Clone, Copy, PartialEq, Eq, Hash, Structural)]
pub enum MonthRepr {
    /// `1` to `12`.
    Numerical,
    /// `January` to `December`.
    Long,
    /// `Jan` to `Dec`.
    Short,
}

/// Month of the year.
#[derive(Debug, Clone, Copy, PartialEq, Eq, Hash, Structural)]
pub struct Month {
    pub padding: Padding,
    pub repr: MonthRepr,
    pub case_sensitive: bool,
}

/// Day of the year.
#[derive(Debug, Clone, Copy, PartialEq, Eq, Hash, Structural)]
pub struct Ordinal {
    pub padding: Padding,
}

/// How a weekday is written.
#[derive(Debug, Clone, Copy, PartialEq, Eq, Hash, Structural)]
pub enum WeekdayRepr {
    /// `Mon` to `Sun`.
    Short,
    /// `Monday` to `Sunday`.
    Long,
    /// A number, Sunday first.
    Sunday,
    /// A number, Monday first.
    Monday,
}

/// Day of the week.
#[derive(Debug, Clone, Copy, PartialEq, Eq, Hash, Structural)]
pub struct Weekday {
    pub repr: WeekdayRepr,
    /// For the numerical forms: whether the first day is 1 rather than 0.
    pub one_indexed: bool,
    pub case_sensitive: bool,
}

/// Which week numbering is used.
#[derive(Debug, Clone, Copy, PartialEq, Eq, Hash, Structural)]
pub enum WeekNumberRepr {
    /// ISO 8601 weeks.
    Iso,
    /// Weeks that start on Sunday, counted from the year's first Sunday.
    Sunday,
    /// Weeks that start on Monday, counted from the year's first Monday.
    Monday,
}

/// Week of the year.
#[derive(Debug, Clone, Copy, PartialEq, Eq, Hash, Structural)]
pub struct WeekNumber {
    pub padding: Padding,
    pub repr: WeekNumberRepr,
}

/// How a year is written.
#[derive(Debug, Clone, Copy, PartialEq, Eq, Hash, Structural)]
pub enum YearRepr {
    /// The whole year.
    Full,
    /// The year without its last two digits.
    Century,
    /// The last two digits.
    LastTwo,
}

/// Which years a full year may be.
#[derive(Debug, Clone, Copy, PartialEq, Eq, Hash, Structural)]
pub enum YearRange {
    /// Four digits.
    Standard,
    /// Up to six digits, where the crate allows such years.
    Extended,
}

/// The year.
#[derive(Debug, Clone, Copy, PartialEq, Eq, Hash, Structural)]
pub struct Year {
    pub padding: Padding,
    pub repr: YearRepr,
    pub range: YearRange,
    /// Whether the year is the ISO week-numbering year.
    pub iso_week_based: bool,
    pub sign_is_mandatory: bool,
}

/// Hour of the day.
#[derive(Debug, Clone, Copy, PartialEq, Eq, Hash, Structural)]
pub struct Hour {
    pub padding: Padding,
    pub is_12_hour_clock: bool,
}

/// Minute of the hour.
#[derive(Debug, Clone, Copy, PartialEq, Eq, Hash, Structural)]
pub struct Minute {
    pub padding: Padding,
}

/// AM or PM.
#[derive(Debug, Clone, Copy, PartialEq, Eq, Hash, Structural)]
pub struct Period {
    pub is_uppercase: bool,
    pub case_sensitive: bool,
}

/// Second of the minute.
#[derive(Debug, Clone, Copy, PartialEq, Eq, Hash, Structural)]
pub struct Second {
    pub padding: Padding,
}

/// How many digits of a fraction of a second are written.
#[derive(Debug, Clone, Copy, PartialEq, Eq, Hash, Structural)]
pub enum SubsecondDigits {
    One,
    Two,
    Three,
    Four,
    Five,
    Six,
    Seven,
    Eight,
    Nine,
    /// As many as needed when formatting; any number when parsing.
    OneOrMore,
}

/// Fraction of a second.
#[derive(Debug, Clone, Copy, PartialEq, Eq, Hash, Structural)]
pub struct Subsecond {
    pub digits: SubsecondDigits,
}

/// Hours of a UTC offset.
#[derive(Debug, Clone, Copy, PartialEq, Eq, Hash, Structural)]
pub struct OffsetHour {
    pub sign_is_mandatory: bool,
    pub padding: Padding,
}

/// Minutes of a UTC offset.
#[derive(Debug, Clone, Copy, PartialEq, Eq, Hash, Structural)]
pub struct OffsetMinute {
    pub padding: Padding,
}

/// Seconds of a UTC offset.
#[derive(Debug, Clone, Copy, PartialEq, Eq, Hash, Structural)]
pub struct OffsetSecond {
    pub padding: Padding,
}

/// A number of bytes to skip when parsing.
#[derive(Debug, Clone, Copy, PartialEq, Eq, Hash, Structural)]
pub struct Ignore {
    /// How many bytes; never 0.
    pub count: u16,
}

/// Unit of a Unix timestamp.
#[derive(Debug, Clone, Copy, PartialEq, Eq, Hash, Structural)]
pub enum UnixTimestampPrecision {
    Second,
    Millisecond,
    Microsecond,
    Nanosecond,
}

/// A Unix timestamp.
#[derive(Debug, Clone, Copy, PartialEq, Eq, Hash, Structural)]
pub struct UnixTimestamp {
    pub precision: UnixTimestampPrecision,
    pub sign_is_mandatory: bool,
}

/// The end of the input.
#[derive(Debug, Clone, Copy, PartialEq, Eq, Hash, Structural)]
pub struct End {}

} // verus!
