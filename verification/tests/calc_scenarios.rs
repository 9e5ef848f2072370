//! End-to-end scenarios: token sequences through `calc`.

use pemdas::CalcError;

fn toks(words: &[&str]) -> Vec<String> {
    let mut v: Vec<String> = Vec::new();
    for w in words {
        v.push((*w).to_owned());
    }
    v
}

#[test]
fn single_operand_evaluates_to_itself() {
    assert_eq!(pemdas::calc(&toks(&["7"])), Ok(7));
    assert_eq!(pemdas::calc(&toks(&["0"])), Ok(0));
}

#[test]
fn single_negative_operand() {
    assert_eq!(pemdas::calc(&toks(&["-3"])), Ok(-3));
}

#[test]
fn empty_input_is_malformed() {
    assert_eq!(pemdas::calc(&toks(&[])), Err(CalcError::MalformedInput));
}

#[test]
fn trailing_operator_is_malformed() {
    assert_eq!(pemdas::calc(&toks(&["2", "+"])), Err(CalcError::MalformedInput));
    assert_eq!(
        pemdas::calc(&toks(&["2", "+", "3", "*"])),
        Err(CalcError::MalformedInput)
    );
}

#[test]
fn even_length_is_malformed_whatever_its_tokens() {
    assert_eq!(pemdas::calc(&toks(&["x", "%"])), Err(CalcError::MalformedInput));
}

#[test]
fn multiplication_binds_before_addition() {
    assert_eq!(pemdas::calc(&toks(&["2", "+", "3", "*", "4"])), Ok(14));
}

#[test]
fn exponent_binds_before_addition() {
    assert_eq!(pemdas::calc(&toks(&["2", "+", "3", "**", "2"])), Ok(11));
}

#[test]
fn equal_priority_is_left_associative() {
    assert_eq!(pemdas::calc(&toks(&["10", "-", "3", "-", "2"])), Ok(5));
}

#[test]
fn higher_priority_chains_rotate_anywhere() {
    assert_eq!(pemdas::calc(&toks(&["2", "*", "3", "+", "4", "*", "5"])), Ok(26));
}

#[test]
fn descending_priorities_nest_to_the_left() {
    assert_eq!(
        pemdas::calc(&toks(&["2", "**", "3", "*", "4", "+", "5"])),
        Ok(37)
    );
    assert_eq!(
        pemdas::calc(&toks(&["2", "**", "0", "*", "0", "+", "0"])),
        Ok(0)
    );
}

#[test]
fn left_associativity_holds_over_long_chains() {
    assert_eq!(pemdas::calc(&toks(&["10", "-", "3", "-", "2", "-", "1"])), Ok(4));
    assert_eq!(pemdas::calc(&toks(&["16", "/", "4", "/", "2", "/", "2"])), Ok(1));
    assert_eq!(pemdas::calc(&toks(&["2", "**", "3", "**", "2"])), Ok(64));
}

#[test]
fn unknown_operator_is_rejected_and_named() {
    assert_eq!(
        pemdas::calc(&toks(&["5", "%", "3"])),
        Err(CalcError::UnrecognizedOperator("%".to_owned()))
    );
}

#[test]
fn negative_exponent_is_rejected_at_evaluation() {
    assert_eq!(
        pemdas::calc(&toks(&["2", "**", "-1"])),
        Err(CalcError::NegativeExponent(-1))
    );
}

#[test]
fn division_by_zero_is_rejected_at_evaluation() {
    assert_eq!(pemdas::calc(&toks(&["5", "/", "0"])), Err(CalcError::DivideByZero));
}

#[test]
fn non_numeric_operand_is_rejected_and_named() {
    assert_eq!(
        pemdas::calc(&toks(&["abc"])),
        Err(CalcError::InvalidOperand("abc".to_owned()))
    );
    assert_eq!(
        pemdas::calc(&toks(&["2", "+", "x"])),
        Err(CalcError::InvalidOperand("x".to_owned()))
    );
}

#[test]
fn division_truncates_toward_zero() {
    assert_eq!(pemdas::calc(&toks(&["-7", "/", "2"])), Ok(-3));
    assert_eq!(pemdas::calc(&toks(&["7", "/", "-2"])), Ok(-3));
    assert_eq!(pemdas::calc(&toks(&["-7", "/", "-2"])), Ok(3));
}

#[test]
fn addition_overflow_is_rejected() {
    let max = format!("{}", isize::MAX);
    assert_eq!(
        pemdas::calc(&toks(&[&max, "+", "1"])),
        Err(CalcError::ArithmeticOverflow)
    );
}

#[test]
fn division_overflow_is_rejected() {
    let min = format!("{}", isize::MIN);
    assert_eq!(
        pemdas::calc(&toks(&[&min, "/", "-1"])),
        Err(CalcError::ArithmeticOverflow)
    );
}

#[test]
fn exponent_overflow_is_rejected() {
    assert_eq!(
        pemdas::calc(&toks(&["2", "**", "9999"])),
        Err(CalcError::ArithmeticOverflow)
    );
}

#[test]
fn exponent_of_zero_gives_one() {
    assert_eq!(pemdas::calc(&toks(&["5", "**", "0"])), Ok(1));
    assert_eq!(pemdas::calc(&toks(&["0", "**", "0"])), Ok(1));
}

#[test]
fn mixed_priorities_across_a_longer_expression() {
    assert_eq!(
        pemdas::calc(&toks(&["1", "+", "2", "*", "3", "**", "2", "-", "4"])),
        Ok(15)
    );
}
