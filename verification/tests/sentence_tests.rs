use calculator::sentence::{parse_sentence, Operator, ParseErrType, RPNItem};
use calculator::token::tokenization;
use calculator::token_render::TokenRender;

#[test]
fn sentence_parse_test_success() {
    let input_vec = vec![
        "56+88-9999",
        "1e9",
        "1.0",
        ".0",
        ".0+1",
        "3-2",
        "3-(-2)",
        "(-2)+3",
        "(12)+1",
        "2*3",
        "2*3-1",
        "3-2*1",
        "3*4*5/2",
        "3*4*5/(-2)",
        "-2",
        "-3+.5",
        "(-2)",
        "-(2)",
    ];
    for i in 0..input_vec.len() {
        let re = tokenization(input_vec[i]);
        assert!(re.is_ok());
        let re = parse_sentence(&mut TokenRender::new_with_tokens(re.unwrap()));
        assert!(re.is_ok(), "input: {}", input_vec[i]);
    }
}

#[test]
fn sentence_parse_test_fail() {
    let input_vec = vec![
        "56+", "1e9-", "*1.0", "(", ")", "()", "(((2)", "3**3", "4-*2", "45(+6)", "4 5", "++",
        "--15", "-(+5)", "++++++1", "+1-", "+3", "3++2", "3--2",
    ];
    for i in 0..input_vec.len() {
        let re = tokenization(input_vec[i]);
        assert!(re.is_ok());
        let re = parse_sentence(&mut TokenRender::new_with_tokens(re.unwrap()));
        assert!(re.is_err(), "input: {}", input_vec[i]);
    }
}

fn parse(input: &str) -> Result<Vec<RPNItem>, calculator::sentence::ParseErr> {
    let tokens = tokenization(input).unwrap();
    parse_sentence(&mut TokenRender::new_with_tokens(tokens))
}

fn rendered(items: &[RPNItem]) -> Vec<String> {
    items
        .iter()
        .map(|it| match it {
            RPNItem::Number(n) => n.normalized().to_string(),
            RPNItem::Operator(Operator::Add) => "+".to_string(),
            RPNItem::Operator(Operator::Sub) => "-".to_string(),
            RPNItem::Operator(Operator::Mul) => "*".to_string(),
            RPNItem::Operator(Operator::Div) => "/".to_string(),
            RPNItem::Operator(Operator::Minus) => "@".to_string(),
        })
        .collect()
}

#[test]
fn sentence_postfix_order_respects_precedence() {
    // "2+3*4" becomes [2, 3, 4, *, +]
    let items = parse("2+3*4").unwrap();
    assert_eq!(rendered(&items), vec!["2", "3", "4", "*", "+"]);
    // parentheses override precedence: "(2+3)*4" becomes [2, 3, +, 4, *]
    let items = parse("(2+3)*4").unwrap();
    assert_eq!(rendered(&items), vec!["2", "3", "+", "4", "*"]);
    // a leading unary minus lands right after its operand
    let items = parse("-2+3").unwrap();
    assert_eq!(rendered(&items), vec!["2", "@", "3", "+"]);
    // left association: "8-4-2" becomes [8, 4, -, 2, -]
    let items = parse("8-4-2").unwrap();
    assert_eq!(rendered(&items), vec!["8", "4", "-", "2", "-"]);
}

#[test]
fn sentence_interior_unary_minus_is_unexpected() {
    // "2--3": the second '-' cannot start an interior operand
    let e = parse("2--3").unwrap_err();
    match e.err_type {
        ParseErrType::Unexpected(tok) => assert_eq!(tok.position, 2),
        _ => panic!("expected an Unexpected error"),
    }
}

#[test]
fn sentence_trailing_input_is_redundant() {
    // "2 2": a full sum was parsed, the second 2 remains
    let e = parse("2 2").unwrap_err();
    match e.err_type {
        ParseErrType::Redundant(position) => assert_eq!(position, 2),
        _ => panic!("expected a Redundant error"),
    }
    let e = parse("45(+6)").unwrap_err();
    assert!(matches!(e.err_type, ParseErrType::Redundant(2)));
}

#[test]
fn sentence_early_end_is_insufficient() {
    let e = parse("(").unwrap_err();
    assert!(matches!(e.err_type, ParseErrType::Insufficient));
    let e = parse("56+").unwrap_err();
    assert!(matches!(e.err_type, ParseErrType::Insufficient));
    let e = parse("(((2)").unwrap_err();
    assert!(matches!(e.err_type, ParseErrType::Insufficient));
}

#[test]
fn sentence_wrong_token_is_unexpected_with_token() {
    let e = parse("*1.0").unwrap_err();
    match e.err_type {
        ParseErrType::Unexpected(tok) => {
            assert_eq!(tok.position, 0);
            assert_eq!(tok.original_str, "*");
        }
        _ => panic!("expected an Unexpected error"),
    }
    let e = parse("3++2").unwrap_err();
    match e.err_type {
        ParseErrType::Unexpected(tok) => assert_eq!(tok.position, 2),
        _ => panic!("expected an Unexpected error"),
    }
}

#[test]
fn sentence_minus_inside_parentheses() {
    // both placements of the unary minus around parentheses are accepted
    let items = parse("(-2)").unwrap();
    assert_eq!(rendered(&items), vec!["2", "@"]);
    let items = parse("-(2)").unwrap();
    assert_eq!(rendered(&items), vec!["2", "@"]);
}
