//! A time of day, and a date with a time of day.
use crate::date::Date;
use crate::error::{range_error, ComponentRange};
use vstd::prelude::*;

verus! {

/// A time of day, to the nanosecond.
#[derive(Debug, Clone, Copy, PartialEq, Eq, Hash, PartialOrd, Ord, Structural)]
pub struct Time {
    pub hour: u8,
    pub minute: u8,
    pub second: u8,
    pub nanosecond: u32,
}

/// Every part is in range.
pub open spec fn valid_time(t: Time) -> bool {
    t.hour < 24 && t.minute < 60 && t.second < 60 && t.nanosecond < 1_000_000_000
}

/// The error for a part of a time out of `0..=maximum`.
fn time_error(name: &'static str, maximum: i64, value: i64) -> (r: ComponentRange)
    ensures
        range_error(r, name@, 0, maximum as int, value as int, false),
{
    ComponentRange { name, minimum: 0, maximum, value, is_conditional: false }
}

impl Time {
    /// Midnight: `00:00:00`.
    pub fn midnight() -> (r: Time)
        ensures
            r == (Time { hour: 0, minute: 0, second: 0, nanosecond: 0 }),
    {
        Time { hour: 0, minute: 0, second: 0, nanosecond: 0 }
    }

    /// The time `hour:minute:second` and `nanosecond` nanoseconds.
    ///
    /// Fails on the first part out of range: component `"hour"` above 23,
    /// `"minute"` or `"second"` above 59, `"nanosecond"` above 999 999 999.
    pub fn from_hms_nano(hour: u8, minute: u8, second: u8, nanosecond: u32) -> (r: Result<
        Time,
        ComponentRange,
    >)
        ensures
            r.is_ok() <==> hour < 24 && minute < 60 && second < 60 && nanosecond < 1_000_000_000,
            r.is_ok() ==> r.unwrap() == (Time { hour, minute, second, nanosecond }),
            r.is_err() && hour >= 24 ==> range_error(r.unwrap_err(), "hour"@, 0, 23, hour as int, false),
            r.is_err() && hour < 24 && minute >= 60 ==> range_error(
                r.unwrap_err(),
                "minute"@,
                0,
                59,
                minute as int,
                false,
            ),
            r.is_err() && hour < 24 && minute < 60 && second >= 60 ==> range_error(
                r.unwrap_err(),
                "second"@,
                0,
                59,
                second as int,
                false,
            ),
            r.is_err() && hour < 24 && minute < 60 && second < 60 ==> range_error(
                r.unwrap_err(),
                "nanosecond"@,
                0,
                999_999_999,
                nanosecond as int,
                false,
            ),
    {
        if hour >= 24 {
            Err(time_error("hour", 23, hour as i64))
        } else if minute >= 60 {
            Err(time_error("minute", 59, minute as i64))
        } else if second >= 60 {
            Err(time_error("second", 59, second as i64))
        } else if nanosecond >= 1_000_000_000 {
            Err(time_error("nanosecond", 999_999_999, nanosecond as i64))
        } else {
            Ok(Time { hour, minute, second, nanosecond })
        }
    }

    /// The time `hour:minute:second`.
    pub fn from_hms(hour: u8, minute: u8, second: u8) -> (r: Result<Time, ComponentRange>)
        ensures
            r.is_ok() <==> hour < 24 && minute < 60 && second < 60,
            r.is_ok() ==> r.unwrap() == (Time { hour, minute, second, nanosecond: 0 }),
            r.is_err() && hour >= 24 ==> r.unwrap_err().name@ == "hour"@,
            r.is_err() && hour < 24 && minute >= 60 ==> r.unwrap_err().name@ == "minute"@,
            r.is_err() && hour < 24 && minute < 60 ==> r.unwrap_err().name@ == "second"@,
    {
        Time::from_hms_nano(hour, minute, second, 0)
    }

    /// The time `hour:minute:second` and `millisecond` milliseconds.
    pub fn from_hms_milli(hour: u8, minute: u8, second: u8, millisecond: u16) -> (r: Result<
        Time,
        ComponentRange,
    >)
        ensures
            r.is_ok() <==> hour < 24 && minute < 60 && second < 60 && millisecond < 1_000,
            r.is_ok() ==> r.unwrap() == (Time {
                hour,
                minute,
                second,
                nanosecond: (millisecond * 1_000_000) as u32,
            }),
            r.is_err() && hour < 24 && minute < 60 && second < 60 ==> range_error(
                r.unwrap_err(),
                "millisecond"@,
                0,
                999,
                millisecond as int,
                false,
            ),
    {
        if hour < 24 && minute < 60 && second < 60 && millisecond >= 1_000 {
            return Err(time_error("millisecond", 999, millisecond as i64));
        }
        let nanosecond = if millisecond < 1_000 {
            millisecond as u32 * 1_000_000
        } else {
            1_000_000_000
        };
        Time::from_hms_nano(hour, minute, second, nanosecond)
    }

    /// The time `hour:minute:second` and `microsecond` microseconds.
    pub fn from_hms_micro(hour: u8, minute: u8, second: u8, microsecond: u32) -> (r: Result<
        Time,
        ComponentRange,
    >)
        ensures
            r.is_ok() <==> hour < 24 && minute < 60 && second < 60 && microsecond < 1_000_000,
            r.is_ok() ==> r.unwrap() == (Time {
                hour,
                minute,
                second,
                nanosecond: (microsecond * 1_000) as u32,
            }),
            r.is_err() && hour < 24 && minute < 60 && second < 60 ==> range_error(
                r.unwrap_err(),
                "microsecond"@,
                0,
                999_999,
                microsecond as int,
                false,
            ),
    {
        if hour < 24 && minute < 60 && second < 60 && microsecond >= 1_000_000 {
            return Err(time_error("microsecond", 999_999, microsecond as i64));
        }
        let nanosecond = if microsecond < 1_000_000 {
            microsecond * 1_000
        } else {
            1_000_000_000
        };
        Time::from_hms_nano(hour, minute, second, nanosecond)
    }
}

/// A date and a time of day, with no offset.
#[derive(Debug, Clone, Copy, PartialEq, Eq, Hash, PartialOrd, Ord, Structural)]
pub struct PrimitiveDateTime {
    pub date: Date,
    pub time: Time,
}

impl Date {
    /// This date at midnight.
    pub fn midnight(self) -> (r: PrimitiveDateTime)
        ensures
            r.date == self,
            r.time == (Time { hour: 0, minute: 0, second: 0, nanosecond: 0 }),
    {
        PrimitiveDateTime { date: self, time: Time::midnight() }
    }

    /// This date at `time`.
    pub fn with_time(self, time: Time) -> (r: PrimitiveDateTime)
        ensures
            r == (PrimitiveDateTime { date: self, time }),
    {
        PrimitiveDateTime { date: self, time }
    }

    /// This date at `hour:minute:second`; fails as `Time::from_hms` does.
    pub fn with_hms(self, hour: u8, minute: u8, second: u8) -> (r: Result<
        PrimitiveDateTime,
        ComponentRange,
    >)
        ensures
            r.is_ok() <==> hour < 24 && minute < 60 && second < 60,
            r.is_ok() ==> r.unwrap() == (PrimitiveDateTime {
                date: self,
                time: Time { hour, minute, second, nanosecond: 0 },
            }),
    {
        match Time::from_hms(hour, minute, second) {
            Ok(time) => Ok(PrimitiveDateTime { date: self, time }),
            Err(e) => Err(e),
        }
    }

    /// This date at a time with milliseconds; fails as `Time::from_hms_milli`
    /// does.
    pub fn with_hms_milli(self, hour: u8, minute: u8, second: u8, millisecond: u16) -> (r: Result<
        PrimitiveDateTime,
        ComponentRange,
    >)
        ensures
            r.is_ok() <==> hour < 24 && minute < 60 && second < 60 && millisecond < 1_000,
            r.is_ok() ==> r.unwrap().date == self && r.unwrap().time == (Time {
                hour,
                minute,
                second,
                nanosecond: (millisecond * 1_000_000) as u32,
            }),
    {
        match Time::from_hms_milli(hour, minute, second, millisecond) {
            Ok(time) => Ok(PrimitiveDateTime { date: self, time }),
            Err(e) => Err(e),
        }
    }

    /// This date at a time with microseconds; fails as `Time::from_hms_micro`
    /// does.
    pub fn with_hms_micro(self, hour: u8, minute: u8, second: u8, microsecond: u32) -> (r: Result<
        PrimitiveDateTime,
        ComponentRange,
    >)
        ensures
            r.is_ok() <==> hour < 24 && minute < 60 && second < 60 && microsecond < 1_000_000,
            r.is_ok() ==> r.unwrap().date == self && r.unwrap().time == (Time {
                hour,
                minute,
                second,
                nanosecond: (microsecond * 1_000) as u32,
            }),
    {
        match Time::from_hms_micro(hour, minute, second, microsecond) {
            Ok(time) => Ok(PrimitiveDateTime { date: self, time }),
            Err(e) => Err(e),
        }
    }

    /// This date at a time with nanoseconds; fails as `Time::from_hms_nano`
    /// does.
    pub fn with_hms_nano(self, hour: u8, minute: u8, second: u8, nanosecond: u32) -> (r: Result<
        PrimitiveDateTime,
        ComponentRange,
    >)
        ensures
            r.is_ok() <==> hour < 24 && minute < 60 && second < 60 && nanosecond < 1_000_000_000,
            r.is_ok() ==> r.unwrap() == (PrimitiveDateTime {
                date: self,
                time: Time { hour, minute, second, nanosecond },
            }),
    {
        match Time::from_hms_nano(hour, minute, second, nanosecond) {
            Ok(time) => Ok(PrimitiveDateTime { date: self, time }),
            Err(e) => Err(e),
        }
    }
}

} // verus!
