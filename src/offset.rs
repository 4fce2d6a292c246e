//! UTC offsets written as a sign and hours, minutes and seconds.
use crate::error::{range_error, ComponentRange};
use vstd::prelude::*;

verus! {

/// An offset from UTC, each part carrying the offset's sign.
#[derive(Debug, Clone, Copy, PartialEq, Eq, Hash, Structural)]
pub struct Offset {
    pub hours: i8,
    pub minutes: i8,
    pub seconds: i8,
}

impl Offset {
    /// The zero offset, which `UTC` names.
    pub fn utc() -> (r: Offset)
        ensures
            r == (Offset { hours: 0, minutes: 0, seconds: 0 }),
    {
        Offset { hours: 0, minutes: 0, seconds: 0 }
    }

    /// The offset with the given sign and unsigned parts.
    ///
    /// Fails on the first part out of range: hours above 25 (component
    /// `"hour"`), minutes above 59 (`"minute"`), seconds above 59
    /// (`"second"`).
    pub fn from_parts(negative: bool, hours: i8, minutes: i8, seconds: i8) -> (r: Result<
        Offset,
        ComponentRange,
    >)
        requires
            hours >= 0,
            minutes >= 0,
            seconds >= 0,
        ensures
            r.is_ok() <==> hours <= 25 && minutes < 60 && seconds < 60,
            r.is_ok() && negative ==> r.unwrap().hours == -hours && r.unwrap().minutes
                == -minutes && r.unwrap().seconds == -seconds,
            r.is_ok() && !negative ==> r.unwrap().hours == hours && r.unwrap().minutes
                == minutes && r.unwrap().seconds == seconds,
            r.is_err() && hours > 25 ==> range_error(r.unwrap_err(), "hour"@, 0, 25, hours as int, false),
            r.is_err() && hours <= 25 && minutes >= 60 ==> range_error(
                r.unwrap_err(),
                "minute"@,
                0,
                59,
                minutes as int,
                false,
            ),
            r.is_err() && hours <= 25 && minutes < 60 ==> range_error(
                r.unwrap_err(),
                "second"@,
                0,
                59,
                seconds as int,
                false,
            ),
    {
        if hours > 25 {
            Err(
                ComponentRange {
                    name: "hour",
                    minimum: 0,
                    maximum: 25,
                    value: hours as i64,
                    is_conditional: false,
                },
            )
        } else if minutes >= 60 {
            Err(
                ComponentRange {
                    name: "minute",
                    minimum: 0,
                    maximum: 59,
                    value: minutes as i64,
                    is_conditional: false,
                },
            )
        } else if seconds >= 60 {
            Err(
                ComponentRange {
                    name: "second",
                    minimum: 0,
                    maximum: 59,
                    value: seconds as i64,
                    is_conditional: false,
                },
            )
        } else if negative {
            Ok(Offset { hours: -hours, minutes: -minutes, seconds: -seconds })
        } else {
            Ok(Offset { hours, minutes, seconds })
        }
    }
}

} // verus!
