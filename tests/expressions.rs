use rustroika::expr::{coerce_count, has_expression_alphabet, parse_expression, ExprError};

#[test]
fn literal_value() {
    assert_eq!(parse_expression("63"), Ok(63));
}

#[test]
fn arithmetic_expression() {
    assert_eq!(parse_expression("(6+2)*3"), Ok(24));
    assert_eq!(parse_expression("10 - 4 / 2"), Ok(8));
}

#[test]
fn negative_result_is_refused() {
    assert_eq!(parse_expression("2-5"), Err(ExprError::NegativeValue));
}

#[test]
fn malformed_text_is_refused() {
    assert_eq!(parse_expression("abc +"), Err(ExprError::InvalidExpression));
    assert_eq!(parse_expression("(1+2"), Err(ExprError::InvalidExpression));
    assert_eq!(parse_expression("1/0"), Err(ExprError::InvalidExpression));
}

#[test]
fn too_large_is_refused() {
    assert_eq!(parse_expression("4294967296"), Err(ExprError::TooLarge));
    assert_eq!(parse_expression("4294967295"), Ok(u32::MAX));
}

#[test]
fn overlong_text_is_refused() {
    let long = "1+".repeat(200) + "1";
    assert_eq!(parse_expression(&long), Err(ExprError::InvalidExpression));
    let deep = "(".repeat(100) + "1" + &")".repeat(100);
    assert_eq!(parse_expression(&deep), Ok(1));
}

#[test]
fn coerce_count_cases() {
    assert_eq!(coerce_count(None), Err(ExprError::InvalidExpression));
    assert_eq!(coerce_count(Some(-1)), Err(ExprError::NegativeValue));
    assert_eq!(coerce_count(Some(0)), Ok(0));
    assert_eq!(coerce_count(Some(1 << 32)), Err(ExprError::TooLarge));
}

#[test]
fn characters_outside_the_alphabet_are_refused() {
    assert_eq!(parse_expression("str::substring(\"é\", 0, 1)"), Err(ExprError::InvalidExpression));
    assert_eq!(parse_expression("math::abs(0)"), Err(ExprError::InvalidExpression));
    assert_eq!(parse_expression("shl(1, 64)"), Err(ExprError::InvalidExpression));
    assert_eq!(parse_expression("1 ^ 2"), Err(ExprError::InvalidExpression));
    assert_eq!(parse_expression("٣"), Err(ExprError::InvalidExpression));
    assert_eq!(has_expression_alphabet(" (6+2)*3\t% 5 - 1 / 1\n"), true);
    assert_eq!(has_expression_alphabet("x"), false);
}

#[test]
fn checked_arithmetic_errors() {
    assert_eq!(parse_expression("9223372036854775807+1"), Err(ExprError::InvalidExpression));
    assert_eq!(parse_expression("0-9223372036854775807-2"), Err(ExprError::InvalidExpression));
    assert_eq!(parse_expression("7 % 0"), Err(ExprError::InvalidExpression));
    assert_eq!(parse_expression(" 7 % 4 "), Ok(3));
}
