//! Parsing an operand token as an `isize`: an optional `+` or `-` sign,
//! then one or more decimal digits, with the value inside the `isize`
//! range.  Anything else is rejected.

use vstd::prelude::*;

use crate::ops::CalcError;

verus! {

/// Whether `c` is a decimal digit.
pub open spec fn is_digit(c: char) -> bool {
    '0' <= c && c <= '9'
}

/// The value of a decimal digit.
pub open spec fn digit_val(c: char) -> int {
    c as int - '0' as int
}

/// Whether every character of `s` is a decimal digit.
pub open spec fn all_digits(s: Seq<char>) -> bool {
    forall|i: int| 0 <= i < s.len() ==> is_digit(#[trigger] s[i])
}

/// The value of a sequence of decimal digits, most significant first.
pub open spec fn digits_val(s: Seq<char>) -> int
    decreases s.len(),
{
    if s.len() == 0 {
        0
    } else {
        digits_val(s.drop_last()) * 10 + digit_val(s.last())
    }
}

/// The integer an operand token stands for: an optional sign, then one or
/// more decimal digits, with the value in the `isize` range; `None` when
/// the token is not of that shape or its value is out of range.
pub open spec fn spec_parse_int(s: Seq<char>) -> Option<int> {
    let digits = if s.len() > 0 && (s[0] == '+' || s[0] == '-') {
        s.subrange(1, s.len() as int)
    } else {
        s
    };
    let negative = s.len() > 0 && s[0] == '-';
    if digits.len() == 0 || !all_digits(digits) {
        None
    } else {
        let v = if negative {
            -digits_val(digits)
        } else {
            digits_val(digits)
        };
        if isize::MIN <= v <= isize::MAX {
            Some(v)
        } else {
            None
        }
    }
}

/// A digit sequence has a non-negative value.
proof fn lemma_digits_val_nonneg(s: Seq<char>)
    requires
        all_digits(s),
    ensures
        digits_val(s) >= 0,
    decreases s.len(),
{
    if s.len() > 0 {
        assert(all_digits(s.drop_last()));
        lemma_digits_val_nonneg(s.drop_last());
    }
}

/// Extending a digit sequence never shrinks its value: the value of a
/// prefix is at most the value of the whole.
proof fn lemma_digits_val_prefix_le(s: Seq<char>, i: int)
    requires
        all_digits(s),
        0 <= i <= s.len(),
    ensures
        digits_val(s.subrange(0, i)) <= digits_val(s),
    decreases s.len() - i,
{
    if i == s.len() {
        assert(s.subrange(0, i) =~= s);
    } else {
        lemma_digits_val_prefix_le(s, i + 1);
        let p = s.subrange(0, i + 1);
        assert(p.drop_last() =~= s.subrange(0, i));
        lemma_digits_val_nonneg(p.drop_last());
        assert(digits_val(p) == digits_val(s.subrange(0, i)) * 10 + digit_val(s[i]));
    }
}

/// Parses an operand token as an `isize`: an optional `+` or `-` sign and
/// one or more decimal digits, rejecting any other shape and any value
/// outside the `isize` range; the rejected token comes back inside the
/// error.
pub fn parse_isize(s: &str) -> (r: Result<isize, CalcError>)
    ensures
        match spec_parse_int(s@) {
            Some(v) => r == Ok::<isize, CalcError>(v as isize),
            None => r matches Err(e) && (e matches CalcError::InvalidOperand(t) && t@ == s@),
        },
{
    let n = s.unicode_len();
    if n == 0 {
        return Err(CalcError::InvalidOperand(s.to_owned()));
    }
    let first = s.get_char(0);
    let negative = first == '-';
    let start: usize = if first == '-' || first == '+' {
        1
    } else {
        0
    };
    let ghost digits = s@.subrange(start as int, n as int);
    proof {
        if start == 0 {
            assert(digits =~= s@);
        }
    }
    if n == start {
        assert(digits.len() == 0);
        return Err(CalcError::InvalidOperand(s.to_owned()));
    }
    // The magnitude of the value read so far; it never exceeds the bound
    // just beyond the `isize` range, so the accumulation cannot overflow.
    let mut acc: u128 = 0;
    let limit: u128 = (isize::MAX as u128) + 1;
    let mut i: usize = start;
    #[verifier::loop_isolation(false)]
    while i < n
        invariant
            start <= i <= n,
            n == s@.len(),
            digits == s@.subrange(start as int, n as int),
            all_digits(s@.subrange(start as int, i as int)),
            acc == digits_val(s@.subrange(start as int, i as int)),
            acc <= limit,
            limit == (isize::MAX as u128) + 1,
        decreases n - i,
    {
        let c = s.get_char(i);
        let cv = c as u32;
        if cv < 48 || cv > 57 {
            assert(!is_digit(s@[i as int]));
            assert(spec_parse_int(s@) is None) by {
                assert(digits[i - start] == s@[i as int]);
                assert(!all_digits(digits));
            }
            return Err(CalcError::InvalidOperand(s.to_owned()));
        }
        let d = (cv - 48) as u128;
        let ghost pre = s@.subrange(start as int, i as int);
        let ghost ext = s@.subrange(start as int, i as int + 1);
        proof {
            assert(ext.drop_last() =~= pre);
            assert(ext.last() == s@[i as int]);
            assert(digit_val(s@[i as int]) == d);
        }
        acc = acc * 10 + d;
        i = i + 1;
        if acc > limit {
            // The digits read so far already put the magnitude beyond the
            // range; further digits can only grow it.
            assert(spec_parse_int(s@) is None) by {
                if all_digits(digits) {
                    assert(ext =~= digits.subrange(0, i - start));
                    lemma_digits_val_prefix_le(digits, i as int - start as int);
                    assert(digits_val(digits) > (isize::MAX as u128) + 1);
                }
            }
            return Err(CalcError::InvalidOperand(s.to_owned()));
        }
    }
    proof {
        assert(s@.subrange(start as int, i as int) =~= digits);
    }
    if negative {
        let v: i128 = 0 - (acc as i128);
        if v < isize::MIN as i128 {
            return Err(CalcError::InvalidOperand(s.to_owned()));
        }
        Ok(v as isize)
    } else {
        if acc > isize::MAX as u128 {
            return Err(CalcError::InvalidOperand(s.to_owned()));
        }
        Ok(acc as isize)
    }
}

} // verus!
