use bigdecimal::BigDecimal;
use calculator::pipeline::{parse_and_evaluate, Stage};
use calculator::token::{tokenization, SymbolType, TokenInfo};
use calculator::token_render::TokenRender;

fn dec(s: &str) -> BigDecimal {
    s.parse::<BigDecimal>().unwrap()
}

#[test]
fn pipeline_sum_with_precedence() {
    let (rpn, value) = parse_and_evaluate("2+3*4").unwrap();
    assert_eq!(rpn, "[ 2 3 4 * + ]");
    assert_eq!(value, dec("14"));
}

#[test]
fn pipeline_parentheses() {
    let (rpn, value) = parse_and_evaluate("(2+3)*4").unwrap();
    assert_eq!(rpn, "[ 2 3 + 4 * ]");
    assert_eq!(value, dec("20"));
}

#[test]
fn pipeline_leading_unary_minus() {
    let (rpn, value) = parse_and_evaluate("-2+3").unwrap();
    assert_eq!(rpn, "[ 2 @ 3 + ]");
    assert_eq!(value, dec("1"));
}

#[test]
fn pipeline_interior_minus_rejected() {
    let d = parse_and_evaluate("2--3").unwrap_err();
    assert_eq!(d.stage, Stage::Syntactic);
    assert_eq!(d.position, Some(2));
    assert_eq!(d.span_text.as_deref(), Some("-"));
}

#[test]
fn pipeline_division_by_zero() {
    let d = parse_and_evaluate("1/0").unwrap_err();
    assert_eq!(d.stage, Stage::Semantic);
    assert_eq!(d.position, None);
    assert_eq!(d.span_text, None);
}

#[test]
fn pipeline_two_operands_without_operator() {
    let d = parse_and_evaluate("2 2").unwrap_err();
    assert_eq!(d.stage, Stage::Syntactic);
    assert_eq!(d.position, Some(2));
    assert_eq!(d.span_text, None);
}

#[test]
fn pipeline_lone_parenthesis() {
    let d = parse_and_evaluate("(").unwrap_err();
    assert_eq!(d.stage, Stage::Syntactic);
    assert_eq!(d.position, None);
    assert_eq!(d.span_text, None);
}

#[test]
fn pipeline_exponent_overflow_diagnostic() {
    let d = parse_and_evaluate(
        "1e2000000000000000000*1e2000000000000000000*1e2000000000000000000",
    )
    .unwrap_err();
    assert_eq!(d.stage, Stage::Semantic);
    assert_eq!(d.position, None);
    assert_eq!(d.span_text, None);
    assert!(d.message.contains("exponent"));
}

#[test]
fn pipeline_lexical_diagnostic() {
    let d = parse_and_evaluate("6+12a").unwrap_err();
    assert_eq!(d.stage, Stage::Lexical);
    assert_eq!(d.position, Some(2));
    assert_eq!(d.span_text.as_deref(), Some("12a"));
}

#[test]
fn pipeline_exact_arithmetic() {
    let (_, value) = parse_and_evaluate("3*4*5/2").unwrap();
    assert_eq!(value, dec("30"));
    let (_, value) = parse_and_evaluate("3*4*5/(-2)").unwrap();
    assert_eq!(value, dec("-30"));
    let (_, value) = parse_and_evaluate("0.1+0.2").unwrap();
    assert_eq!(value, dec("0.3"));
    let (_, value) = parse_and_evaluate("1e3-1").unwrap();
    assert_eq!(value, dec("999"));
}

#[test]
fn pipeline_rendering_normalizes_numbers() {
    let (rpn, value) = parse_and_evaluate("1.0+2.50").unwrap();
    assert_eq!(rpn, "[ 1 2.5 + ]");
    assert_eq!(value, dec("3.5"));
}

#[test]
fn cursor_walks_forward_only() {
    let tokens = tokenization("1+2").unwrap();
    let mut render = TokenRender::new_with_tokens(tokens);
    assert!(!render.is_empty());
    assert_eq!(render.peek().position, 0);
    assert!(matches!(render.peek().info, TokenInfo::Number(_)));
    // a non-matching kind leaves the cursor unchanged
    assert!(!render.try_token(TokenInfo::Symbol(SymbolType::Add)));
    assert_eq!(render.peek().position, 0);
    render.next();
    assert_eq!(render.peek().position, 1);
    // a matching kind consumes
    assert!(render.try_token(TokenInfo::Symbol(SymbolType::Add)));
    assert_eq!(render.peek().position, 2);
    render.next();
    assert!(render.is_empty());
}

#[test]
fn cursor_expect_reports_without_consuming() {
    let tokens = tokenization("(2").unwrap();
    let mut render = TokenRender::new_with_tokens(tokens);
    let t = render
        .expect(
            TokenInfo::Symbol(SymbolType::LeftBracket),
            "wrong token",
            "input ended",
        )
        .unwrap();
    assert_eq!(t.position, 0);
    // expect does not consume: the same token is still current
    assert_eq!(render.peek().position, 0);
    let e = render
        .expect(
            TokenInfo::Symbol(SymbolType::RightBracket),
            "wrong token",
            "input ended",
        )
        .unwrap_err();
    assert_eq!(e.reason, "wrong token");
    render.next();
    render.next();
    let e = render
        .expect(
            TokenInfo::Symbol(SymbolType::RightBracket),
            "wrong token",
            "input ended",
        )
        .unwrap_err();
    assert_eq!(e.reason, "input ended");
}
