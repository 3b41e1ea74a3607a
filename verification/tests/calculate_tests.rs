use bigdecimal::BigDecimal;
use calculator::calculate::{calculate, EvalError};
use calculator::sentence::{Operator, RPNItem};

fn num(s: &str) -> RPNItem {
    RPNItem::Number(s.parse::<BigDecimal>().unwrap())
}

fn dec(s: &str) -> BigDecimal {
    s.parse::<BigDecimal>().unwrap()
}

#[test]
fn calculate_single_number() {
    let v = calculate(&vec![num("42")]).unwrap();
    assert_eq!(v, dec("42"));
}

#[test]
fn calculate_binary_operators_are_exact() {
    let v = calculate(&vec![num("1.5"), num("2.25"), RPNItem::Operator(Operator::Add)]).unwrap();
    assert_eq!(v, dec("3.75"));
    let v = calculate(&vec![num("7"), num("0.25"), RPNItem::Operator(Operator::Sub)]).unwrap();
    assert_eq!(v, dec("6.75"));
    let v = calculate(&vec![num("2"), num("0.5"), RPNItem::Operator(Operator::Mul)]).unwrap();
    assert_eq!(v, dec("1"));
    let v = calculate(&vec![num("30"), num("2"), RPNItem::Operator(Operator::Div)]).unwrap();
    assert_eq!(v, dec("15"));
}

#[test]
fn calculate_negation() {
    let v = calculate(&vec![num("2"), RPNItem::Operator(Operator::Minus)]).unwrap();
    assert_eq!(v, dec("-2"));
    let v = calculate(&vec![
        num("2"),
        RPNItem::Operator(Operator::Minus),
        num("3"),
        RPNItem::Operator(Operator::Add),
    ])
    .unwrap();
    assert_eq!(v, dec("1"));
}

#[test]
fn calculate_operand_order() {
    // second-popped is the left operand: [8, 4, -] is 8 - 4
    let v = calculate(&vec![num("8"), num("4"), RPNItem::Operator(Operator::Sub)]).unwrap();
    assert_eq!(v, dec("4"));
    let v = calculate(&vec![num("8"), num("4"), RPNItem::Operator(Operator::Div)]).unwrap();
    assert_eq!(v, dec("2"));
}

#[test]
fn calculate_division_matches_bigdecimal() {
    // division is the one rounded operation; it rounds as bigdecimal does
    let v = calculate(&vec![num("1"), num("3"), RPNItem::Operator(Operator::Div)]).unwrap();
    assert_eq!(v, dec("1") / dec("3"));
}

#[test]
fn calculate_division_by_zero() {
    let e = calculate(&vec![num("1"), num("0"), RPNItem::Operator(Operator::Div)]).unwrap_err();
    assert_eq!(e, EvalError::DivisionByZero);
    let e = calculate(&vec![num("1"), num("0.000"), RPNItem::Operator(Operator::Div)])
        .unwrap_err();
    assert_eq!(e, EvalError::DivisionByZero);
}

#[test]
fn calculate_exponent_overflow() {
    // each factor's scale is within range, but the first product's is not,
    // so the second multiplication reports the overflow
    let a = num("1e2000000000000000000");
    let b = num("1e2000000000000000000");
    let c = num("1e2000000000000000000");
    let e = calculate(&vec![
        a,
        b,
        RPNItem::Operator(Operator::Mul),
        c,
        RPNItem::Operator(Operator::Mul),
    ])
    .unwrap_err();
    assert_eq!(e, EvalError::ExponentOverflow);
    // a single in-range multiplication still goes through
    let v = calculate(&vec![
        num("1e2000000000000000000"),
        num("1e2000000000000000000"),
        RPNItem::Operator(Operator::Mul),
    ])
    .unwrap();
    assert_eq!(v, dec("1e4000000000000000000"));
}

#[test]
fn calculate_arity_mismatch() {
    // too few operands for a binary operator
    let e = calculate(&vec![num("1"), RPNItem::Operator(Operator::Add)]).unwrap_err();
    assert_eq!(e, EvalError::InternalArityMismatch);
    // negation with an empty stack
    let e = calculate(&vec![RPNItem::Operator(Operator::Minus)]).unwrap_err();
    assert_eq!(e, EvalError::InternalArityMismatch);
    // nothing at all on the stack at the end
    let e = calculate(&vec![]).unwrap_err();
    assert_eq!(e, EvalError::InternalArityMismatch);
    // more than one value left
    let e = calculate(&vec![num("1"), num("2")]).unwrap_err();
    assert_eq!(e, EvalError::InternalArityMismatch);
}
