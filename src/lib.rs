//! A proleptic Gregorian calendar: dates and their conversions between
//! calendar, ordinal, ISO week and Julian day forms, date arithmetic, and the
//! format-description language that renders dates as text and reads them
//! back.
pub mod ast;
pub mod calendar;
pub mod combinator;
pub mod component;
pub mod date;
pub mod datetime;
pub mod duration;
pub mod error;
pub mod format_description;
pub mod format_item;
pub mod formatting;
pub mod laws;
pub mod modifier;
pub mod month;
pub mod names;
pub mod offset;
pub mod parsing;
pub mod strftime;
pub mod weekday;
pub mod words;

pub use date::Date;
pub use datetime::{PrimitiveDateTime, Time};
pub use duration::Duration;
pub use error::{ComponentRange, InvalidFormatDescription};
pub use format_description::{parse, parse_borrowed, parse_owned};
pub use format_item::{BorrowedFormatItem, Component, OwnedFormatItem};
pub use formatting::{DateMetadata, FormatError};
pub use month::Month;
pub use parsing::ParseError;
pub use strftime::parse_strftime_owned;
pub use weekday::Weekday;
