//! The closed operator set `{+, -, *, /, **}`, each operator's priority
//! class, and the errors the calculator can report.

use vstd::prelude::*;
use vstd::string::StringExecFns;

verus! {

/// A binary operator of the calculator.  The set is closed: any other
/// token in an operator position is rejected when the tree is built.
#[derive(Clone, Copy, Debug, PartialEq, Eq, Structural)]
pub enum Op {
    /// `+`, integer addition.
    Add,
    /// `-`, integer subtraction.
    Sub,
    /// `*`, integer multiplication.
    Mul,
    /// `/`, integer division, truncating toward zero.
    Div,
    /// `**`, integer exponentiation (left operand raised to the right).
    Pow,
}

/// Why a computation was rejected, naming the offender where one token
/// or value is at fault.  Every error is fatal: the whole expression is
/// rejected, with no partial result.
#[derive(Debug, PartialEq, Eq)]
pub enum CalcError {
    /// The token sequence is empty or of even length (a trailing operator
    /// has no right operand).
    MalformedInput,
    /// The token in an operand position that does not parse as an integer.
    InvalidOperand(String),
    /// The token in an operator position that is not one of `+ - * / **`.
    UnrecognizedOperator(String),
    /// The negative right operand handed to `**`.
    NegativeExponent(isize),
    /// The right operand of `/` is zero.
    DivideByZero,
    /// A reduction step left the `isize` range.
    ArithmeticOverflow,
}

impl CalcError {
    /// A description of the error, naming the offending token where one
    /// token is at fault, for the caller to surface.
    pub open spec fn spec_message(self) -> Seq<char> {
        match self {
            CalcError::MalformedInput => "missing operand"@,
            CalcError::InvalidOperand(s) => "unexpected argument: "@ + s@
                + ", expected a number"@,
            CalcError::UnrecognizedOperator(s) => "unrecognized operator "@ + s@,
            CalcError::NegativeExponent(_) => "unsupported exponent, must not be negative"@,
            CalcError::DivideByZero => "division by zero"@,
            CalcError::ArithmeticOverflow => "arithmetic overflow"@,
        }
    }

    /// A description of the error, naming the offending token where one
    /// token is at fault, for the caller to surface.
    pub fn message(&self) -> (r: String)
        ensures
            r@ == self.spec_message(),
    {
        match self {
            CalcError::MalformedInput => "missing operand".to_owned(),
            CalcError::InvalidOperand(s) => "unexpected argument: ".to_owned().concat(
                s.as_str(),
            ).concat(", expected a number"),
            CalcError::UnrecognizedOperator(s) => "unrecognized operator ".to_owned().concat(
                s.as_str(),
            ),
            CalcError::NegativeExponent(_) => "unsupported exponent, must not be negative"
                .to_owned(),
            CalcError::DivideByZero => "division by zero".to_owned(),
            CalcError::ArithmeticOverflow => "arithmetic overflow".to_owned(),
        }
    }
}

/// The priority class of an operator: higher binds tighter.
pub open spec fn spec_priority(op: Op) -> int {
    match op {
        Op::Add => 0,
        Op::Sub => 0,
        Op::Mul => 1,
        Op::Div => 1,
        Op::Pow => 2,
    }
}

/// The priority class of an operator: `+ -` in class 0, `* /` in class 1,
/// `**` in class 2.  Higher binds tighter.
pub fn get_operator_priority(op: Op) -> (p: u32)
    ensures
        p as int == spec_priority(op),
{
    match op {
        Op::Add => 0,
        Op::Sub => 0,
        Op::Mul => 1,
        Op::Div => 1,
        Op::Pow => 2,
    }
}

/// The operator a token stands for, or `None` when the token is not in
/// the closed operator set.
pub open spec fn spec_op_of(s: Seq<char>) -> Option<Op> {
    if s.len() == 1 && s[0] == '+' {
        Some(Op::Add)
    } else if s.len() == 1 && s[0] == '-' {
        Some(Op::Sub)
    } else if s.len() == 1 && s[0] == '*' {
        Some(Op::Mul)
    } else if s.len() == 1 && s[0] == '/' {
        Some(Op::Div)
    } else if s.len() == 2 && s[0] == '*' && s[1] == '*' {
        Some(Op::Pow)
    } else {
        None
    }
}

/// Recognizes a token in an operator position.  The operator's reduction
/// behavior and symbol are both carried by the returned tag; a token
/// outside the set comes back inside the error.
pub fn get_operator_fn_and_symbol(s: &str) -> (r: Result<Op, CalcError>)
    ensures
        match spec_op_of(s@) {
            Some(op) => r == Ok::<Op, CalcError>(op),
            None => r matches Err(e) && (e matches CalcError::UnrecognizedOperator(t) && t@
                == s@),
        },
{
    let n = s.unicode_len();
    if n == 1 {
        match s.get_char(0) {
            '+' => Ok(Op::Add),
            '-' => Ok(Op::Sub),
            '*' => Ok(Op::Mul),
            '/' => Ok(Op::Div),
            _ => Err(CalcError::UnrecognizedOperator(s.to_owned())),
        }
    } else if n == 2 {
        if s.get_char(0) == '*' && s.get_char(1) == '*' {
            Ok(Op::Pow)
        } else {
            Err(CalcError::UnrecognizedOperator(s.to_owned()))
        }
    } else {
        Err(CalcError::UnrecognizedOperator(s.to_owned()))
    }
}

} // verus!
