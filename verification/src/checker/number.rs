//! Reading decimal integers as `u128` and `i128` do: an optional sign, then
//! one or more digits, of a value that fits.
use vstd::prelude::*;

use crate::text::{char_is_ascii_digit, is_ascii_digit, to_chars};

verus! {

/// The value of a string of decimal digits.
pub open spec fn digits_value(s: Seq<char>) -> int
    decreases s.len(),
{
    if s.len() == 0 {
        0
    } else {
        digits_value(s.drop_last()) * 10 + (s.last() as int - '0' as int)
    }
}

pub open spec fn all_digits(s: Seq<char>) -> bool {
    forall|i: int| 0 <= i < s.len() ==> is_ascii_digit(#[trigger] s[i])
}

/// The value of one or more digits, if it is at most `max`.
pub open spec fn bounded_value(d: Seq<char>, max: int) -> Option<int> {
    if d.len() > 0 && all_digits(d) && digits_value(d) <= max {
        Some(digits_value(d))
    } else {
        None
    }
}

/// What reading `s` as a `u128` gives: an optional `+`, then digits.
pub open spec fn unsigned_value(s: Seq<char>) -> Option<u128> {
    let d = if s.len() > 0 && s[0] == '+' {
        s.drop_first()
    } else {
        s
    };
    match bounded_value(d, u128::MAX as int) {
        Some(v) => Some(v as u128),
        None => None,
    }
}

/// What reading `s` as an `i128` gives: an optional `+` or `-`, then digits.
pub open spec fn signed_value(s: Seq<char>) -> Option<i128> {
    if s.len() > 0 && s[0] == '-' {
        match bounded_value(s.drop_first(), 0x8000_0000_0000_0000_0000_0000_0000_0000) {
            Some(v) => Some((-v) as i128),
            None => None,
        }
    } else {
        let d = if s.len() > 0 && s[0] == '+' {
            s.drop_first()
        } else {
            s
        };
        match bounded_value(d, i128::MAX as int) {
            Some(v) => Some(v as i128),
            None => None,
        }
    }
}

/// Digits have a value of at least zero, and a longer run of digits a value
/// at least that of the shorter.
proof fn lemma_digits_grow(s: Seq<char>, j: int)
    requires
        all_digits(s),
        0 <= j <= s.len(),
    ensures
        0 <= digits_value(s.subrange(0, j)) <= digits_value(s),
    decreases s.len(),
{
    if s.len() > 0 {
        let t = s.drop_last();
        assert(all_digits(t)) by {
            assert forall|i: int| 0 <= i < t.len() implies is_ascii_digit(#[trigger] t[i]) by {
                assert(t[i] == s[i]);
            }
        }
        assert(is_ascii_digit(s[s.len() - 1]));
        if j < s.len() {
            lemma_digits_grow(t, j);
            assert(t.subrange(0, j) =~= s.subrange(0, j));
        } else {
            lemma_digits_grow(t, t.len() as int);
            assert(t.subrange(0, t.len() as int) =~= t);
            assert(s.subrange(0, j) =~= s);
        }
    } else {
        assert(s.subrange(0, j) =~= s);
    }
}

/// The value of the digits of `v[start..]`, if they are one or more digits
/// and the value fits in a `u128`.
fn digits_u128(v: &Vec<char>, start: usize) -> (r: Option<u128>)
    requires
        start <= v.len(),
    ensures
        r == (match bounded_value(v@.subrange(start as int, v.len() as int), u128::MAX as int) {
            Some(n) => Some(n as u128),
            None => None::<u128>,
        }),
        r matches Some(n) ==> bounded_value(v@.subrange(start as int, v.len() as int), u128::MAX as int) == Some(
            n as int,
        ),
{
    let ghost d = v@.subrange(start as int, v.len() as int);
    if start >= v.len() {
        return None;
    }
    let mut acc: u128 = 0;
    let mut i: usize = start;
    while i < v.len()
        invariant
            start <= i <= v.len(),
            d == v@.subrange(start as int, v.len() as int),
            all_digits(v@.subrange(start as int, i as int)),
            acc as int == digits_value(v@.subrange(start as int, i as int)),
        decreases v.len() - i,
    {
        let c = v[i];
        let ghost prefix = v@.subrange(start as int, i as int);
        let ghost next = v@.subrange(start as int, i + 1);
        assert(prefix =~= next.drop_last());
        assert(d.subrange(0, i - start) =~= prefix);
        assert(d.subrange(0, i + 1 - start) =~= next);
        if !char_is_ascii_digit(c) {
            assert(!is_ascii_digit(d[i - start]));
            return None;
        }
        assert(all_digits(next)) by {
            assert forall|k: int| 0 <= k < next.len() implies is_ascii_digit(#[trigger] next[k]) by {
                if k < prefix.len() {
                    assert(next[k] == prefix[k]);
                }
            }
        }
        let digit = (c as u32 - '0' as u32) as u128;
        let times_ten = match acc.checked_mul(10) {
            Some(x) => x,
            None => {
                proof {
                    if all_digits(d) {
                        lemma_digits_grow(d, i + 1 - start);
                    }
                }
                return None;
            },
        };
        acc = match times_ten.checked_add(digit) {
            Some(x) => x,
            None => {
                proof {
                    if all_digits(d) {
                        lemma_digits_grow(d, i + 1 - start);
                    }
                }
                return None;
            },
        };
        i += 1;
    }
    proof {
        assert(v@.subrange(start as int, i as int) =~= d);
    }
    Some(acc)
}

/// Reads `s` as `u128::from_str` does.
pub fn parse_unsigned(s: &str) -> (r: Option<u128>)
    ensures
        r == unsigned_value(s@),
{
    let v = to_chars(s);
    let start: usize = if v.len() > 0 && v[0] == '+' {
        1
    } else {
        0
    };
    proof {
        if start == 1 {
            assert(v@.subrange(1, v.len() as int) =~= s@.drop_first());
        } else {
            assert(v@.subrange(0, v.len() as int) =~= s@);
        }
    }
    digits_u128(&v, start)
}

/// Reads `s` as `i128::from_str` does.
pub fn parse_signed(s: &str) -> (r: Option<i128>)
    ensures
        r == signed_value(s@),
{
    let v = to_chars(s);
    if v.len() > 0 && v[0] == '-' {
        proof {
            assert(v@.subrange(1, v.len() as int) =~= s@.drop_first());
        }
        match digits_u128(&v, 1) {
            Some(n) => if n <= 0x8000_0000_0000_0000_0000_0000_0000_0000u128 {
                if n == 0x8000_0000_0000_0000_0000_0000_0000_0000u128 {
                    Some(i128::MIN)
                } else {
                    Some(-(n as i128))
                }
            } else {
                None
            },
            None => None,
        }
    } else {
        let start: usize = if v.len() > 0 && v[0] == '+' {
            1
        } else {
            0
        };
        proof {
            if start == 1 {
                assert(v@.subrange(1, v.len() as int) =~= s@.drop_first());
            } else {
                assert(v@.subrange(0, v.len() as int) =~= s@);
            }
        }
        match digits_u128(&v, start) {
            Some(n) => if n <= i128::MAX as u128 {
                Some(n as i128)
            } else {
                None
            },
            None => None,
        }
    }
}

} // verus!
