use expr_parser::lexer::lex;
use expr_parser::parser::parse;
use expr_parser::vm::{evaluate, EvalError};

fn eval_str(s: &str) -> Result<i64, EvalError> {
    evaluate(&parse(lex(&s.to_string())).unwrap())
}

#[test]
fn eval_single_literal() {
    assert_eq!(eval_str("42"), Ok(42));
}

#[test]
fn eval_left_associative_subtraction() {
    // (8-3)-2, not 8-(3-2)
    assert_eq!(eval_str("8-3-2"), Ok(3));
}

#[test]
fn eval_right_associative_exponent() {
    // 2^(3^2) = 2^9 = 512, not (2^3)^2 = 64
    assert_eq!(eval_str("2^3^2"), Ok(512));
}

#[test]
fn eval_precedence() {
    assert_eq!(eval_str("2+3*4"), Ok(14));
    assert_eq!(eval_str("(2+3)*4"), Ok(20));
}

#[test]
fn eval_division_by_zero() {
    assert_eq!(eval_str("5/0"), Err(EvalError::DivisionByZero));
}

#[test]
fn eval_modulo_by_zero() {
    assert_eq!(eval_str("5%0"), Err(EvalError::ModuloByZero));
}

#[test]
fn eval_division_truncates_toward_zero() {
    assert_eq!(eval_str("7/2"), Ok(3));
    assert_eq!(eval_str("(0-7)/2"), Ok(-3));
    assert_eq!(eval_str("7/(0-2)"), Ok(-3));
    assert_eq!(eval_str("(0-7)/(0-2)"), Ok(3));
}

#[test]
fn eval_remainder_sign_follows_dividend() {
    assert_eq!(eval_str("7%3"), Ok(1));
    assert_eq!(eval_str("(0-7)%3"), Ok(-1));
    assert_eq!(eval_str("7%(0-3)"), Ok(1));
    assert_eq!(eval_str("(0-7)%(0-3)"), Ok(-1));
}

#[test]
fn eval_modulo_lowest_precedence() {
    // '%' chains at the same level as '+' and '-'
    assert_eq!(eval_str("2+10%3"), Ok(0));
    assert_eq!(eval_str("10%3*2"), Ok(4));
}

#[test]
fn eval_addition_overflow() {
    assert_eq!(eval_str("9223372036854775807+1"), Err(EvalError::Overflow));
}

#[test]
fn eval_subtraction_overflow() {
    assert_eq!(
        eval_str("0-9223372036854775807-2"),
        Err(EvalError::Overflow)
    );
}

#[test]
fn eval_multiplication_overflow() {
    assert_eq!(
        eval_str("4294967296*4294967296"),
        Err(EvalError::Overflow)
    );
}

#[test]
fn eval_division_overflow() {
    // i64::MIN / -1 does not fit in i64
    assert_eq!(
        eval_str("(0-9223372036854775807-1)/(0-1)"),
        Err(EvalError::Overflow)
    );
}

#[test]
fn eval_modulo_of_min_by_minus_one() {
    assert_eq!(
        eval_str("(0-9223372036854775807-1)%(0-1)"),
        Err(EvalError::Overflow)
    );
}

#[test]
fn eval_exponent_overflow() {
    assert_eq!(eval_str("2^63"), Err(EvalError::Overflow));
    assert_eq!(eval_str("2^62"), Ok(4611686018427387904));
}

#[test]
fn eval_negative_base_exponent() {
    assert_eq!(eval_str("(0-2)^3"), Ok(-8));
    assert_eq!(eval_str("(0-2)^63"), Ok(i64::MIN));
    assert_eq!(eval_str("(0-2)^64"), Err(EvalError::Overflow));
}

#[test]
fn eval_negative_exponent_rejected() {
    assert_eq!(eval_str("2^(0-1)"), Err(EvalError::NegativeExponent));
}

#[test]
fn eval_zero_exponent() {
    assert_eq!(eval_str("5^0"), Ok(1));
    assert_eq!(eval_str("0^0"), Ok(1));
    assert_eq!(eval_str("0^5"), Ok(0));
}

#[test]
fn eval_error_from_left_child_wins() {
    // the left subtree is evaluated first, so its fault is reported
    assert_eq!(eval_str("1/0+5%0"), Err(EvalError::DivisionByZero));
}

#[test]
fn eval_nested_parens() {
    assert_eq!(eval_str("((1+2)*(3+4))"), Ok(21));
}
