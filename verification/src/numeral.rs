//! Decimal numerals: what it means for a token to denote a non-negative
//! integer, and a verified parser for them.

use vstd::prelude::*;

verus! {

/// ASCII decimal digit.
pub open spec fn is_digit(b: u8) -> bool {
    48 <= b && b <= 57
}

/// The value of one digit byte.
pub open spec fn digit_val(b: u8) -> nat {
    (b - 48) as nat
}

/// The value of a string of digit bytes, most significant first.
pub open spec fn digits_val(s: Seq<u8>) -> nat
    decreases s.len(),
{
    if s.len() == 0 {
        0
    } else {
        digits_val(s.drop_last()) * 10 + digit_val(s.last())
    }
}

/// The digit part of a token: everything after an optional leading plus
/// sign.
pub open spec fn numeral_digits(t: Seq<u8>) -> Seq<u8> {
    if t.len() > 0 && t[0] == 43 {
        t.subrange(1, t.len() as int)
    } else {
        t
    }
}

/// A numeral is an optional plus sign followed by one or more digits.
pub open spec fn is_numeral(t: Seq<u8>) -> bool {
    numeral_digits(t).len() > 0 && (forall|i: int|
        0 <= i < numeral_digits(t).len() ==> is_digit(numeral_digits(t)[i]))
}

/// The integer a numeral denotes.
pub open spec fn numeral_val(t: Seq<u8>) -> nat {
    digits_val(numeral_digits(t))
}

/// A token that denotes an integer representable as a `usize`.
pub open spec fn tok_fits(t: Seq<u8>) -> bool {
    is_numeral(t) && numeral_val(t) <= usize::MAX
}

/// A prefix of a digit string never denotes more than the whole string.
proof fn lemma_digits_val_prefix(s: Seq<u8>, k: int)
    requires
        0 <= k <= s.len(),
    ensures
        digits_val(s.subrange(0, k)) <= digits_val(s),
    decreases s.len() - k,
{
    if k == s.len() {
        assert(s.subrange(0, k) =~= s);
    } else {
        let t = s.subrange(0, k + 1);
        assert(t.drop_last() =~= s.subrange(0, k));
        assert(digits_val(t) == digits_val(s.subrange(0, k)) * 10 + digit_val(t.last()));
        assert(digits_val(s.subrange(0, k)) <= digits_val(s.subrange(0, k)) * 10);
        lemma_digits_val_prefix(s, k + 1);
    }
}

/// Parses a token as a non-negative integer: an optional plus sign
/// followed by decimal digits, rejected when any other byte appears or
/// the value does not fit in a `usize`.
pub fn parse_usize(t: &[u8]) -> (r: Option<usize>)
    ensures
        (match r {
            Some(v) => tok_fits(t@) && v as nat == numeral_val(t@),
            None => !tok_fits(t@),
        }),
{
    let start: usize = if t.len() > 0 && t[0] == 43 {
        1
    } else {
        0
    };
    let ghost digits = numeral_digits(t@);
    proof {
        assert(digits =~= t@.subrange(start as int, t@.len() as int));
    }
    if t.len() == start {
        proof {
            assert(digits.len() == 0);
        }
        return Option::None;
    }
    let mut v: usize = 0;
    let mut i: usize = start;
    proof {
        assert(digits.subrange(0, 0) =~= Seq::<u8>::empty());
    }
    while i < t.len()
        invariant
            start <= i <= t.len(),
            digits == numeral_digits(t@),
            digits == t@.subrange(start as int, t@.len() as int),
            digits.len() == t@.len() - start,
            forall|j: int| 0 <= j < i - start ==> is_digit(digits[j]),
            v as nat == digits_val(digits.subrange(0, i - start)),
        decreases t.len() - i,
    {
        let b = t[i];
        proof {
            assert(digits[i - start] == t@[i as int]);
        }
        if b < 48 || b > 57 {
            proof {
                assert(!is_digit(digits[i - start]));
                assert(!is_numeral(t@)) by {
                    if is_numeral(t@) {
                        assert(is_digit(numeral_digits(t@)[i - start]));
                    }
                }
            }
            return Option::None;
        }
        let d = (b - 48) as usize;
        let ghost pre = digits.subrange(0, i - start);
        let ghost pre1 = digits.subrange(0, i + 1 - start);
        proof {
            assert(pre1.drop_last() =~= pre);
            assert(pre1.last() == digits[i - start]);
            assert(digits_val(pre1) == digits_val(pre) * 10 + digit_val(digits[i - start]));
        }
        let next = match v.checked_mul(10) {
            Option::Some(x) => x.checked_add(d),
            Option::None => Option::None,
        };
        match next {
            Option::Some(y) => {
                v = y;
            },
            Option::None => {
                proof {
                    assert(digits_val(pre1) > usize::MAX);
                    lemma_digits_val_prefix(digits, i + 1 - start);
                    assert(numeral_val(t@) > usize::MAX);
                }
                return Option::None;
            },
        }
        i = i + 1;
    }
    proof {
        assert(digits.subrange(0, digits.len() as int) =~= digits);
    }
    Option::Some(v)
}

} // verus!
