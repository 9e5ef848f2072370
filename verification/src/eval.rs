//! Reducing a finished expression tree to one integer, bottom-up.
//!
//! Addition, subtraction and multiplication fail on `isize` overflow;
//! division truncates toward zero and fails on a zero divisor;
//! exponentiation fails on a negative exponent.  Every failure rejects
//! the whole expression.

use vstd::arithmetic::power::lemma0_pow;
use vstd::arithmetic::power::lemma1_pow;
use vstd::arithmetic::power::lemma_pow1;
use vstd::arithmetic::power::lemma_pow_adds;
use vstd::arithmetic::power::lemma_pow_increases;
use vstd::arithmetic::power::lemma_pow_positive;
use vstd::arithmetic::power::pow;
use vstd::math::abs;
use vstd::prelude::*;

use crate::ops::CalcError;
use crate::ops::Op;
use crate::tree::Node;

verus! {

/// Whether `v` is representable as an `isize`.
pub open spec fn in_isize(v: int) -> bool {
    isize::MIN <= v <= isize::MAX
}

/// `v` itself when it is representable, else an overflow error.
pub open spec fn fit(v: int) -> Result<int, CalcError> {
    if in_isize(v) {
        Ok(v)
    } else {
        Err(CalcError::ArithmeticOverflow)
    }
}

/// Integer division truncating toward zero: the quotient of the
/// magnitudes, negated when the operands' signs differ.
pub open spec fn trunc_div(a: int, b: int) -> int
    recommends
        b != 0,
{
    if a == 0 {
        0
    } else if a > 0 && b > 0 {
        a / b
    } else if a < 0 && b < 0 {
        (a * -1) / (b * -1)
    } else if a < 0 {
        ((a * -1) / b) * -1
    } else {
        (a / (b * -1)) * -1
    }
}

/// One reduction step: the operator applied to two operand values, or
/// the error that rejects it.
pub open spec fn spec_apply(op: Op, a: int, b: int) -> Result<int, CalcError> {
    match op {
        Op::Add => fit(a + b),
        Op::Sub => fit(a - b),
        Op::Mul => fit(a * b),
        Op::Div => if b == 0 {
            Err(CalcError::DivideByZero)
        } else {
            fit(trunc_div(a, b))
        },
        Op::Pow => if b < 0 {
            Err(CalcError::NegativeExponent(b as isize))
        } else {
            fit(pow(a, b as nat))
        },
    }
}

/// What reducing a tree yields: a leaf is its operand; an inner node is
/// its operator applied to the values of its children, left first; the
/// first error aborts the reduction.
pub open spec fn spec_eval(t: Node) -> Result<int, CalcError>
    decreases t,
{
    match t {
        Node::Leaf(v) => Ok(v as int),
        Node::Inner { op, left, right } => match spec_eval(*left) {
            Ok(a) => match spec_eval(*right) {
                Ok(b) => spec_apply(op, a, b),
                Err(e) => Err(e),
            },
            Err(e) => Err(e),
        },
    }
}

/// A machine-word result seen as a mathematical one.
pub open spec fn widen(r: Result<isize, CalcError>) -> Result<int, CalcError> {
    match r {
        Ok(v) => Ok(v as int),
        Err(e) => Err(e),
    }
}

/// Applies one operator to two operand values.
fn apply_op(op: Op, a: isize, b: isize) -> (r: Result<isize, CalcError>)
    ensures
        widen(r) == spec_apply(op, a as int, b as int),
{
    match op {
        Op::Add => match a.checked_add(b) {
            Some(v) => Ok(v),
            None => Err(CalcError::ArithmeticOverflow),
        },
        Op::Sub => match a.checked_sub(b) {
            Some(v) => Ok(v),
            None => Err(CalcError::ArithmeticOverflow),
        },
        Op::Mul => match a.checked_mul(b) {
            Some(v) => Ok(v),
            None => Err(CalcError::ArithmeticOverflow),
        },
        Op::Div => {
            if b == 0 {
                Err(CalcError::DivideByZero)
            } else {
                match a.checked_div(b) {
                    Some(v) => Ok(v),
                    None => Err(CalcError::ArithmeticOverflow),
                }
            }
        },
        Op::Pow => exp(a, b),
    }
}

/// Reduces a finished tree to one integer, bottom-up: children first,
/// then the node's operator on the two results, left operand first.
pub fn compute(n: &Node) -> (r: Result<isize, CalcError>)
    ensures
        widen(r) == spec_eval(*n),
    decreases *n,
{
    match n {
        Node::Leaf(v) => Ok(*v),
        Node::Inner { op, left, right } => {
            let a = match compute(left) {
                Ok(a) => a,
                Err(e) => {
                    return Err(e);
                },
            };
            let b = match compute(right) {
                Ok(b) => b,
                Err(e) => {
                    return Err(e);
                },
            };
            apply_op(*op, a, b)
        },
    }
}

/// The magnitude of a product is the product of the magnitudes.
proof fn lemma_abs_mul(x: int, y: int)
    ensures
        abs(x * y) == abs(x) * abs(y),
{
    broadcast use vstd::arithmetic::mul::lemma_mul_unary_negation;
    broadcast use vstd::arithmetic::mul::lemma_mul_nonnegative;

    if x >= 0 && y >= 0 {
    } else if x < 0 && y >= 0 {
        assert((-x) * y == -(x * y));
        assert((-x) * y >= 0);
    } else if x >= 0 && y < 0 {
        assert(x * (-y) == -(x * y));
        assert(x * (-y) >= 0);
    } else {
        assert((-x) * y == -(x * y));
        assert((-x) * (-y) == -((-x) * y));
        assert((-x) * (-y) >= 0);
    }
}

/// The magnitude of a power is the power of the magnitude.
proof fn lemma_pow_abs(a: int, e: nat)
    ensures
        abs(pow(a, e)) == pow(abs(a) as int, e),
    decreases e,
{
    reveal(pow);
    if e > 0 {
        lemma_pow_abs(a, (e - 1) as nat);
        lemma_abs_mul(a, pow(a, (e - 1) as nat));
    }
}

/// Once a power of `a` has left the `isize` range, every later power of
/// `a` is out of that range as well: the base's magnitude must be at
/// least 2 for any power to escape, so the magnitude keeps growing.
proof fn lemma_pow_stays_out(a: int, k: nat, e: nat)
    requires
        k <= e,
        !in_isize(pow(a, k)),
    ensures
        !in_isize(pow(a, e)),
{
    reveal(pow);
    let m = abs(a) as int;
    lemma_pow_abs(a, k);
    lemma_pow_abs(a, e);
    assert(isize::MIN as int == -(isize::MAX as int) - 1);
    if a == 0 {
        // Impossible: every power of 0 is 0 or 1, inside the range.
        if k > 0 {
            lemma0_pow(k);
        }
        assert(in_isize(pow(a, k)));
    } else if m == 1 {
        // Impossible: every power of 1 or -1 has magnitude 1.
        lemma1_pow(k);
        assert(abs(pow(a, k)) == 1);
    } else if e > k {
        lemma_pow_adds(m, k, (e - k) as nat);
        lemma_pow1(m);
        lemma_pow_increases(m as nat, 1, (e - k) as nat);
        lemma_pow_positive(m, k);
        assert(pow(m, k) * 2 <= pow(m, k) * pow(m, (e - k) as nat)) by {
            vstd::arithmetic::mul::lemma_mul_left_inequality(
                pow(m, k),
                2,
                pow(m, (e - k) as nat),
            );
        }
        assert(pow(m, e) >= 2 * (isize::MAX as int + 1));
    }
}

/// Integer exponentiation by repeated multiplication: `a` raised to
/// `b`, failing on a negative exponent and on `isize` overflow.
pub fn exp(a: isize, b: isize) -> (r: Result<isize, CalcError>)
    ensures
        widen(r) == spec_apply(Op::Pow, a as int, b as int),
{
    if b < 0 {
        return Err(CalcError::NegativeExponent(b));
    }
    let mut acc: isize = 1;
    let mut i: isize = 0;
    proof {
        reveal(pow);
        assert(pow(a as int, 0) == 1);
    }
    #[verifier::loop_isolation(false)]
    while i < b
        invariant
            0 <= i <= b,
            acc as int == pow(a as int, i as nat),
        decreases b - i,
    {
        let ghost i0 = i as nat;
        acc = match acc.checked_mul(a) {
            Some(v) => v,
            None => {
                proof {
                    reveal(pow);
                    assert(pow(a as int, (i0 + 1) as nat) == (a as int) * pow(a as int, i0));
                    lemma_pow_stays_out(a as int, i0 + 1, b as nat);
                }
                return Err(CalcError::ArithmeticOverflow);
            },
        };
        proof {
            reveal(pow);
            assert(pow(a as int, (i0 + 1) as nat) == (a as int) * pow(a as int, i0));
        }
        i = i + 1;
    }
    Ok(acc)
}

} // verus!
