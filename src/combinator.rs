//! Small parsers over bytes that the component parsers are built from.
use crate::modifier::Padding;
use vstd::prelude::*;

verus! {

pub const ZERO: u8 = 0x30;

pub const NINE: u8 = 0x39;

pub const SPACE: u8 = 0x20;

pub const PLUS: u8 = 0x2B;

pub const MINUS: u8 = 0x2D;

/// What a parser read: the input that is left, and the value.
#[derive(Debug, Clone, Copy, PartialEq, Eq)]
pub struct ParsedItem<'a, T>(pub &'a [u8], pub T);

pub open spec fn is_digit(b: u8) -> bool {
    ZERO <= b <= NINE
}

/// The decimal value of a run of digits.
pub open spec fn digits_value(s: Seq<u8>) -> int
    decreases s.len(),
{
    if s.len() == 0 {
        0
    } else {
        digits_value(s.drop_last()) * 10 + (s.last() - ZERO)
    }
}

pub open spec fn pow10(n: nat) -> int
    decreases n,
{
    if n == 0 {
        1
    } else {
        10 * pow10((n - 1) as nat)
    }
}

/// `s` starts with `k` digits, and the digit run stops there: `k` is `max`,
/// or the end of `s`, or a byte that is not a digit follows.
pub open spec fn digit_run(s: Seq<u8>, k: int, max: int) -> bool {
    &&& 0 <= k <= max
    &&& k <= s.len()
    &&& forall|i: int| 0 <= i < k ==> is_digit(#[trigger] s[i])
    &&& (k == max || k == s.len() || !is_digit(s[k]))
}

/// `s` starts with `k` spaces, and the run stops there as `digit_run` does.
pub open spec fn space_run(s: Seq<u8>, k: int, max: int) -> bool {
    &&& 0 <= k <= max
    &&& k <= s.len()
    &&& forall|i: int| 0 <= i < k ==> #[trigger] s[i] == SPACE
    &&& (k == max || k == s.len() || s[k] != SPACE)
}

pub proof fn lemma_digit_run_unique(s: Seq<u8>, k1: int, k2: int, max: int)
    requires
        digit_run(s, k1, max),
        digit_run(s, k2, max),
    ensures
        k1 == k2,
{
}

pub proof fn lemma_digits_value_bound(s: Seq<u8>)
    requires
        forall|i: int| 0 <= i < s.len() ==> is_digit(#[trigger] s[i]),
    ensures
        0 <= digits_value(s) < pow10(s.len()),
    decreases s.len(),
{
    if s.len() > 0 {
        let t = s.drop_last();
        assert forall|i: int| 0 <= i < t.len() implies is_digit(#[trigger] t[i]) by {
            assert(t[i] == s[i]);
        }
        lemma_digits_value_bound(t);
        assert(is_digit(s[s.len() - 1]));
    }
}

pub proof fn lemma_pow10_positive(n: nat)
    ensures
        pow10(n) >= 1,
    decreases n,
{
    if n > 0 {
        lemma_pow10_positive((n - 1) as nat);
    }
}

pub proof fn lemma_pow10_bound(n: nat)
    requires
        n <= 38,
    ensures
        pow10(n) <= pow10(38),
        pow10(38) < 0x1_0000_0000_0000_0000_0000_0000_0000_0000,
    decreases 38 - n,
{
    if n < 38 {
        lemma_pow10_bound(n + 1);
        lemma_pow10_positive(n);
        assert(pow10(n + 1) == 10 * pow10(n));
    } else {
        reveal_with_fuel(pow10, 39);
        assert(pow10(38) == 100_000_000_000_000_000_000_000_000_000_000_000_000);
    }
}

pub proof fn lemma_pow10_mono(a: nat, b: nat)
    requires
        a <= b,
    ensures
        pow10(a) <= pow10(b),
    decreases b - a,
{
    if a < b {
        lemma_pow10_mono(a, (b - 1) as nat);
        lemma_pow10_positive((b - 1) as nat);
    }
}

/// A leading `+` or `-`.
pub fn sign(input: &[u8]) -> (r: Option<ParsedItem<'_, u8>>)
    ensures
        r.is_some() <==> input@.len() > 0 && (input@[0] == PLUS || input@[0] == MINUS),
        r.is_some() ==> r.unwrap().1 == input@[0] && r.unwrap().0@ == input@.drop_first(),
{
    if input.len() > 0 && (input[0] == PLUS || input[0] == MINUS) {
        let rest = &input[1..input.len()];
        assert(rest@ =~= input@.drop_first());
        Some(ParsedItem(rest, input[0]))
    } else {
        None
    }
}

/// A leading digit.
pub fn any_digit(input: &[u8]) -> (r: Option<ParsedItem<'_, u8>>)
    ensures
        r.is_some() <==> input@.len() > 0 && is_digit(input@[0]),
        r.is_some() ==> r.unwrap().1 == input@[0] && r.unwrap().0@ == input@.drop_first(),
{
    if input.len() > 0 && ZERO <= input[0] && input[0] <= NINE {
        let rest = &input[1..input.len()];
        assert(rest@ =~= input@.drop_first());
        Some(ParsedItem(rest, input[0]))
    } else {
        None
    }
}

/// At least `n` and at most `m` digits, as many as there are; their value.
pub fn n_to_m_digits(input: &[u8], n: usize, m: usize) -> (r: Option<ParsedItem<'_, u128>>)
    requires
        n <= m <= 38,
    ensures
        forall|k: int|
            #[trigger] digit_run(input@, k, m as int) ==> {
                &&& (r.is_some() <==> k >= n)
                &&& r.is_some() ==> r.unwrap().0@ == input@.subrange(k, input@.len() as int)
                    && r.unwrap().1 == digits_value(input@.subrange(0, k))
            },
        exists|k: int| #[trigger] digit_run(input@, k, m as int),
        r.is_some() ==> r.unwrap().1 < pow10(m as nat),
{
    let mut k: usize = 0;
    let mut value: u128 = 0;
    while k < m && k < input.len() && ZERO <= input[k] && input[k] <= NINE
        invariant
            k <= m <= 38,
            k <= input@.len(),
            forall|i: int| 0 <= i < k ==> is_digit(#[trigger] input@[i]),
            value == digits_value(input@.subrange(0, k as int)),
        decreases m - k,
    {
        proof {
            let s = input@.subrange(0, k as int + 1);
            assert(s.drop_last() =~= input@.subrange(0, k as int));
            lemma_digits_value_bound(s);
            lemma_pow10_bound(k as nat + 1);
        }
        value = value * 10 + (input[k] - ZERO) as u128;
        k = k + 1;
    }
    proof {
        assert(digit_run(input@, k as int, m as int));
        assert forall|j: int| digit_run(input@, j, m as int) implies j == k by {
            lemma_digit_run_unique(input@, j, k as int, m as int);
        }
    }
    proof {
        lemma_digits_value_bound(input@.subrange(0, k as int));
        lemma_pow10_mono(k as nat, m as nat);
    }
    if k < n {
        None
    } else {
        Some(ParsedItem(&input[k..input.len()], value))
    }
}

/// Exactly `n` digits and their value.
pub fn exactly_n_digits(input: &[u8], n: usize) -> (r: Option<ParsedItem<'_, u128>>)
    requires
        n <= 38,
    ensures
        r.is_some() <==> n <= input@.len() && forall|i: int|
            0 <= i < n ==> is_digit(#[trigger] input@[i]),
        r.is_some() ==> r.unwrap().0@ == input@.subrange(n as int, input@.len() as int)
            && r.unwrap().1 == digits_value(input@.subrange(0, n as int)),
        r.is_some() ==> r.unwrap().1 < pow10(n as nat),
{
    let r = n_to_m_digits(input, n, n);
    proof {
        let k = choose|k: int| #[trigger] digit_run(input@, k, n as int);
        if n <= input@.len() && forall|i: int| 0 <= i < n ==> is_digit(#[trigger] input@[i]) {
            assert(digit_run(input@, n as int, n as int));
        }
    }
    r
}

/// Digits after padding: with `Padding::Zero` between `n` and `m` digits;
/// with `Padding::Unpadded` between 1 and `m`; with `Padding::Space` up to `n - 1`
/// spaces first, then between `n` and `m` bytes in all.
pub open spec fn padded_digits(s: Seq<u8>, n: int, m: int, padding: Padding) -> Option<
    (int, int),
> {
    match padding {
        Padding::Unpadded => if exists|k: int| #[trigger] digit_run(s, k, m) && k >= 1 {
            let k = choose|k: int| #[trigger] digit_run(s, k, m);
            Some((k, digits_value(s.subrange(0, k))))
        } else {
            None
        },
        Padding::Zero => if exists|k: int| #[trigger] digit_run(s, k, m) && k >= n {
            let k = choose|k: int| #[trigger] digit_run(s, k, m);
            Some((k, digits_value(s.subrange(0, k))))
        } else {
            None
        },
        Padding::Space => {
            let p = choose|p: int| #[trigger] space_run(s, p, n - 1);
            let t = s.subrange(p, s.len() as int);
            if exists|k: int| #[trigger] digit_run(t, k, m - p) && k >= n - p {
                let k = choose|k: int| #[trigger] digit_run(t, k, m - p);
                Some((p + k, digits_value(t.subrange(0, k))))
            } else {
                None
            }
        },
    }
}

/// Digits after the padding that `padding` allows, as `padded_digits`
/// describes: the value, and the input after them.
pub fn n_to_m_digits_padded(input: &[u8], n: usize, m: usize, padding: Padding) -> (r: Option<
    ParsedItem<'_, u128>,
>)
    requires
        1 <= n <= m <= 38,
    ensures
        r.is_some() <==> padded_digits(input@, n as int, m as int, padding).is_some(),
        r.is_some() ==> ({
            let (k, v) = padded_digits(input@, n as int, m as int, padding).unwrap();
            r.unwrap().0@ == input@.subrange(k, input@.len() as int) && r.unwrap().1 == v
        }),
        r.is_some() ==> r.unwrap().1 < pow10(m as nat),
{
    match padding {
        Padding::Unpadded => n_to_m_digits(input, 1, m),
        Padding::Zero => n_to_m_digits(input, n, m),
        Padding::Space => {
            let mut p: usize = 0;
            while p < n - 1 && p < input.len() && input[p] == SPACE
                invariant
                    1 <= n,
                    p <= n - 1,
                    p <= input@.len(),
                    forall|i: int| 0 <= i < p ==> #[trigger] input@[i] == SPACE,
                decreases n - p,
            {
                p = p + 1;
            }
            proof {
                assert(space_run(input@, p as int, n - 1));
                let q = choose|q: int| #[trigger] space_run(input@, q, n - 1);
                assert(q == p) by {
                    if q < p {
                        assert(input@[q] == SPACE);
                    } else if p < q {
                        assert(input@[p as int] == SPACE);
                    }
                }
            }
            let rest = &input[p..input.len()];
            proof {
                lemma_pow10_mono((m - p) as nat, m as nat);
            }
            n_to_m_digits(rest, n - p, m - p)
        },
    }
}

/// Exactly `n` bytes of digits after padding; see `n_to_m_digits_padded`.
pub fn exactly_n_digits_padded(input: &[u8], n: usize, padding: Padding) -> (r: Option<
    ParsedItem<'_, u128>,
>)
    requires
        1 <= n <= 38,
    ensures
        r.is_some() <==> padded_digits(input@, n as int, n as int, padding).is_some(),
        r.is_some() ==> ({
            let (k, v) = padded_digits(input@, n as int, n as int, padding).unwrap();
            r.unwrap().0@ == input@.subrange(k, input@.len() as int) && r.unwrap().1 == v
        }),
        r.is_some() ==> r.unwrap().1 < pow10(n as nat),
{
    n_to_m_digits_padded(input, n, n, padding)
}

} // verus!
