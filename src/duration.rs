//! A signed span of time, as far as date arithmetic needs it.
use crate::calendar::lemma_div_shift;
use vstd::arithmetic::div_mod::lemma_fundamental_div_mod;
use vstd::prelude::*;

verus! {

pub const SECONDS_PER_DAY: i64 = 86_400;

pub const NANOSECONDS_PER_SECOND: i32 = 1_000_000_000;

/// Integer division rounding toward zero.
pub open spec fn div_trunc(a: int, b: int) -> int
    recommends
        b > 0,
{
    if a >= 0 {
        a / b
    } else {
        -((-a) / b)
    }
}

proof fn lemma_whole_days_of(n: int, k: int)
    ensures
        div_trunc(n * k * 86_400, 86_400) == n * k,
{
    lemma_div_shift(0, n * k, 86_400);
    lemma_div_shift(0, -(n * k), 86_400);
    assert(n * k * 86_400 == (n * k) * 86_400) by (nonlinear_arith);
    assert(-(n * k * 86_400) == (-(n * k)) * 86_400) by (nonlinear_arith);
}

/// A signed span of time: whole seconds and a nanosecond part of the same
/// sign.
#[derive(Debug, Clone, Copy, PartialEq, Eq, Hash, Structural)]
pub struct Duration {
    seconds: i64,
    nanoseconds: i32,
}

impl Duration {
    /// The whole seconds of the span.
    pub closed spec fn spec_seconds(self) -> int {
        self.seconds as int
    }

    /// The nanosecond part of the span.
    pub closed spec fn spec_nanoseconds(self) -> int {
        self.nanoseconds as int
    }

    /// The parts have the same sign and the nanoseconds make less than a
    /// second.
    pub closed spec fn wf(self) -> bool {
        -1_000_000_000 < self.nanoseconds < 1_000_000_000 && (self.seconds > 0
            ==> self.nanoseconds >= 0) && (self.seconds < 0 ==> self.nanoseconds <= 0)
    }

    /// The sign of the whole days is the sign of the span.
    pub proof fn lemma_sign(self)
        requires
            self.wf(),
        ensures
            self.spec_whole_days() < 0 ==> self.spec_seconds() < 0,
            self.spec_whole_days() > 0 ==> self.spec_seconds() > 0 && self.spec_nanoseconds() >= 0,
    {
    }

    /// Whole days in the span, rounded toward zero.
    pub open spec fn spec_whole_days(self) -> int {
        div_trunc(self.spec_seconds(), 86_400)
    }

    /// A span of `seconds` seconds plus `nanoseconds` nanoseconds, in any
    /// signs: whole seconds carried out of the nanoseconds are added to the
    /// seconds, and the two parts are given the same sign. The whole seconds
    /// must fit in an `i64`.
    pub fn new(seconds: i64, nanoseconds: i32) -> (r: Duration)
        requires
            i64::MIN <= div_trunc(seconds * 1_000_000_000 + nanoseconds, 1_000_000_000)
                <= i64::MAX,
        ensures
            r.wf(),
            r.spec_seconds() == div_trunc(seconds * 1_000_000_000 + nanoseconds, 1_000_000_000),
            r.spec_seconds() * 1_000_000_000 + r.spec_nanoseconds() == seconds * 1_000_000_000
                + nanoseconds,
    {
        let total: i128 = seconds as i128 * 1_000_000_000 + nanoseconds as i128;
        if total >= 0 {
            let t = total as u128;
            proof {
                lemma_fundamental_div_mod(t as int, 1_000_000_000);
            }
            Duration { seconds: (t / 1_000_000_000) as i64, nanoseconds: (t % 1_000_000_000) as i32 }
        } else {
            let t = (-total) as u128;
            proof {
                lemma_fundamental_div_mod(t as int, 1_000_000_000);
            }
            let whole = (t / 1_000_000_000) as i128;
            let part = (t % 1_000_000_000) as i128;
            Duration { seconds: (-whole) as i64, nanoseconds: (-part) as i32 }
        }
    }

    /// A span of whole seconds.
    pub fn seconds(seconds: i64) -> (r: Duration)
        ensures
            r.wf(),
            r.spec_seconds() == seconds,
            r.spec_nanoseconds() == 0,
    {
        Duration { seconds, nanoseconds: 0 }
    }

    /// A span of whole hours.
    pub fn hours(hours: i64) -> (r: Duration)
        requires
            i64::MIN <= hours * 3_600 <= i64::MAX,
        ensures
            r.wf(),
            r.spec_seconds() == hours * 3_600,
            r.spec_nanoseconds() == 0,
    {
        Duration { seconds: hours * 3_600, nanoseconds: 0 }
    }

    /// A span of whole days.
    pub fn days(days: i64) -> (r: Duration)
        requires
            i64::MIN <= days * 86_400 <= i64::MAX,
        ensures
            r.wf(),
            r.spec_seconds() == days * 86_400,
            r.spec_nanoseconds() == 0,
            r.spec_whole_days() == days,
    {
        proof {
            lemma_whole_days_of(days as int, 1);
        }
        Duration { seconds: days * SECONDS_PER_DAY, nanoseconds: 0 }
    }

    /// A span of whole weeks.
    pub fn weeks(weeks: i64) -> (r: Duration)
        requires
            i64::MIN <= weeks * 604_800 <= i64::MAX,
        ensures
            r.wf(),
            r.spec_seconds() == weeks * 604_800,
            r.spec_nanoseconds() == 0,
            r.spec_whole_days() == 7 * weeks,
    {
        proof {
            lemma_whole_days_of(weeks as int, 7);
        }
        Duration { seconds: weeks * 604_800, nanoseconds: 0 }
    }

    /// The whole seconds of the span.
    pub fn whole_seconds(self) -> (r: i64)
        ensures
            r == self.spec_seconds(),
    {
        self.seconds
    }

    /// The nanosecond part of the span.
    pub fn subsec_nanoseconds(self) -> (r: i32)
        ensures
            r == self.spec_nanoseconds(),
    {
        self.nanoseconds
    }

    /// Whole days in the span, rounded toward zero.
    pub fn whole_days(self) -> (r: i64)
        ensures
            r == self.spec_whole_days(),
    {
        if self.seconds >= 0 {
            self.seconds / SECONDS_PER_DAY
        } else {
            let neg: u64 = (-(self.seconds as i128)) as u64;
            -((neg / 86_400) as i64)
        }
    }

    /// Whether the span is below zero.
    pub fn is_negative(self) -> (r: bool)
        requires
            self.wf(),
        ensures
            r == (self.spec_seconds() < 0 || self.spec_nanoseconds() < 0),
    {
        self.seconds < 0 || self.nanoseconds < 0
    }

    /// Whether the span is above zero.
    pub fn is_positive(self) -> (r: bool)
        requires
            self.wf(),
        ensures
            r == (self.spec_seconds() > 0 || self.spec_nanoseconds() > 0),
    {
        self.seconds > 0 || self.nanoseconds > 0
    }
}

} // verus!
