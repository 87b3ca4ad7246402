//! Run configuration: the iteration count and how a raw setting is read.

use vstd::prelude::*;
use vstd::std_specs::iter::IteratorSpec;

verus! {

/// Passes per scenario where the setting is absent or unusable.
pub const DEFAULT_ITERATIONS: usize = 20;

/// Whether `c` is one of the decimal digits `0` to `9`.
pub open spec fn is_digit(c: char) -> bool {
    '0' <= c && c <= '9'
}

/// The value of the decimal digit `c`.
pub open spec fn digit_value(c: char) -> nat
    recommends
        is_digit(c),
{
    (c as nat - '0' as nat) as nat
}

/// Whether every character of `s` is a decimal digit.
pub open spec fn all_digits(s: Seq<char>) -> bool {
    forall|i: int| 0 <= i < s.len() ==> is_digit(#[trigger] s[i])
}

/// The number that the decimal digits of `s` spell.
pub open spec fn digits_value(s: Seq<char>) -> nat
    decreases s.len(),
{
    if s.len() == 0 {
        0
    } else {
        10 * digits_value(s.drop_last()) + digit_value(s.last())
    }
}

/// `s` without its leading plus sign, if it has one.
pub open spec fn without_sign(s: Seq<char>) -> Seq<char> {
    if s.len() > 0 && s[0] == '+' {
        s.drop_first()
    } else {
        s
    }
}

/// The unsigned 64-bit number that `s` spells: an optional plus sign, then
/// one or more decimal digits and nothing else, of a value that fits.
pub open spec fn parsed_u64(s: Seq<char>) -> Option<u64> {
    let digits = without_sign(s);
    if digits.len() > 0 && all_digits(digits) && digits_value(digits) <= u64::MAX {
        Some(digits_value(digits) as u64)
    } else {
        None
    }
}

/// The size that a raw setting stands for: the number it spells where that
/// is positive, cut to the width of `usize`, and `default_value` where the
/// setting is absent, spells no number, or spells zero.
pub open spec fn size_or_default(raw: Option<Seq<char>>, default_value: usize) -> usize {
    match raw {
        Some(s) => match parsed_u64(s) {
            Some(v) if v > 0 => v as usize,
            _ => default_value,
        },
        None => default_value,
    }
}

/// Appending digits to digits never makes the number smaller.
proof fn lemma_digits_value_grows(s: Seq<char>, k: int)
    requires
        0 <= k <= s.len(),
    ensures
        digits_value(s.take(k)) <= digits_value(s),
    decreases s.len(),
{
    if k < s.len() {
        assert(s.drop_last().take(k) == s.take(k));
        lemma_digits_value_grows(s.drop_last(), k);
    } else {
        assert(s.take(k) == s);
    }
}

/// Reads an unsigned 64-bit number in decimal notation.
pub fn parse_u64(s: &str) -> (r: Option<u64>)
    ensures
        r == parsed_u64(s@),
{
    let mut it = s.chars();
    let ghost digits = without_sign(s@);
    let ghost mut seen: int = 0;
    let mut value: u64 = 0;
    let mut any: bool = false;
    let mut first: bool = true;
    loop
        invariant
            it.obeys_prophetic_iter_laws(),
            it.decrease() is Some,
            digits == without_sign(s@),
            0 <= seen <= digits.len(),
            first ==> it.remaining() == s@ && seen == 0,
            !first ==> it.remaining() == digits.skip(seen),
            any == (seen > 0),
            all_digits(digits.take(seen)),
            value == digits_value(digits.take(seen)),
        decreases it.decrease()->0,
    {
        let ghost before = it.remaining();
        match it.next() {
            None => {
                proof {
                    assert(before.len() == 0);
                    if first {
                        assert(digits.len() == 0);
                    }
                    assert(digits.take(seen) == digits);
                }
                return if any {
                    Some(value)
                } else {
                    None
                };
            },
            Some(c) => {
                if first && c == '+' {
                    first = false;
                    proof {
                        assert(before == s@);
                        assert(digits == s@.drop_first());
                        assert(digits.skip(0) == digits);
                    }
                } else {
                    proof {
                        if first {
                            assert(digits == s@);
                            assert(digits.skip(0) == digits);
                        }
                        assert(c == digits[seen]);
                        assert(digits.skip(seen).drop_first() == digits.skip(seen + 1));
                        assert(digits.take(seen + 1).drop_last() == digits.take(seen));
                    }
                    first = false;
                    if !(c >= '0' && c <= '9') {
                        return None;
                    }
                    let d: u64 = (c as u64) - ('0' as u64);
                    proof {
                        lemma_digits_value_grows(digits, seen + 1);
                    }
                    if value > (u64::MAX - d) / 10 {
                        return None;
                    }
                    value = value * 10 + d;
                    any = true;
                    proof {
                        seen = seen + 1;
                    }
                }
            },
        }
    }
}

/// Reads a size out of a raw setting, falling back to `default_value`.
///
/// An absent setting, one that spells no unsigned number, and one that
/// spells zero all give the default.
pub fn read_env_size(raw: Option<&str>, default_value: usize) -> (r: usize)
    ensures
        r == size_or_default(
            match raw {
                Some(s) => Some(s@),
                None => None,
            },
            default_value,
        ),
{
    if let Some(s) = raw {
        if let Some(v) = parse_u64(s) {
            if v > 0 {
                return #[verifier::truncate] (v as usize);
            }
        }
    }
    default_value
}

} // verus!
