use calculator::token::{tokenization, SymbolType, TokenInfo};

#[test]
fn token_parse_test_success() {
    let input_vec = vec![
        "56+88-9999",
        "1e9",
        "1.0",
        ".0",
        ".23",
        "1.23e4",
        "()",
        "(",
        ")",
        "67",
        "3/   4",
        "3   4",
        "3   ",
        "34 45",
        "( )",
        "( )34",
        "13.",
        "   1",
    ];
    for i in 0..input_vec.len() {
        let re = tokenization(input_vec[i]);
        assert!(re.is_ok());
    }
}

#[test]
fn token_parse_test_fail() {
    let input_vec = vec![
        "56+88-99a99",
        "1a9",
        "u",
        "1231+67a8",
        "1e",
        "13, + 4",
        "   ",
        "6+12a",
        "12a",
        "12.2e3.4",
    ];
    let index_vec = vec![6, 0, 0, 5, 0, 0, 0, 2, 0, 0];
    assert!(index_vec.len() == input_vec.len());
    for i in 0..index_vec.len() {
        let re = tokenization(input_vec[i]);
        assert!(re.is_err(), "input: {}", input_vec[i]);
        if let Err(e) = re {
            assert!(
                e.position == index_vec[i],
                "input: {}, e: {:?}",
                input_vec[i],
                e
            );
        }
    }
}

#[test]
fn token_positions_and_spans() {
    let tokens = tokenization("56+88-9999").unwrap();
    let positions: Vec<usize> = tokens.iter().map(|t| t.position).collect();
    assert_eq!(positions, vec![0, 2, 3, 5, 6]);
    let texts: Vec<&str> = tokens.iter().map(|t| t.original_str.as_str()).collect();
    assert_eq!(texts, vec!["56", "+", "88", "-", "9999"]);
    assert!(matches!(tokens[0].info, TokenInfo::Number(_)));
    assert!(matches!(
        tokens[1].info,
        TokenInfo::Symbol(SymbolType::Add)
    ));
    assert!(matches!(tokens[2].info, TokenInfo::Number(_)));
    assert!(matches!(
        tokens[3].info,
        TokenInfo::Symbol(SymbolType::Sub)
    ));
    assert!(matches!(tokens[4].info, TokenInfo::Number(_)));
    // positions strictly increase on a messier input too
    let tokens = tokenization("( )34 /   7.5e2").unwrap();
    for w in tokens.windows(2) {
        assert!(w[0].position < w[1].position);
    }
}

#[test]
fn token_whitespace_never_emitted() {
    let tokens = tokenization("3/   4").unwrap();
    assert_eq!(tokens.len(), 3);
    for t in &tokens {
        assert!(!matches!(t.info, TokenInfo::Symbol(SymbolType::Blank)));
    }
}

#[test]
fn token_retokenize_single_token() {
    // re-tokenizing any one token's exact text reproduces an equivalent token
    let tokens = tokenization("1.23e4*(56+.5)").unwrap();
    for t in &tokens {
        let again = tokenization(&t.original_str).unwrap();
        assert_eq!(again.len(), 1);
        assert_eq!(again[0].position, 0);
        assert_eq!(again[0].original_str, t.original_str);
        match (&t.info, &again[0].info) {
            (TokenInfo::Number(a), TokenInfo::Number(b)) => assert_eq!(a, b),
            (TokenInfo::Symbol(a), TokenInfo::Symbol(b)) => assert_eq!(a, b),
            _ => panic!("token kind changed on re-tokenization"),
        }
    }
}

#[test]
fn token_number_values_are_exact() {
    let tokens = tokenization("1.23e4").unwrap();
    assert_eq!(tokens.len(), 1);
    match &tokens[0].info {
        TokenInfo::Number(n) => {
            let expected: bigdecimal::BigDecimal = "12300".parse().unwrap();
            assert_eq!(n, &expected);
        }
        _ => panic!("expected a number token"),
    }
    let tokens = tokenization(".25").unwrap();
    match &tokens[0].info {
        TokenInfo::Number(n) => {
            let expected: bigdecimal::BigDecimal = "0.25".parse().unwrap();
            assert_eq!(n, &expected);
        }
        _ => panic!("expected a number token"),
    }
}

#[test]
fn token_literals_follow_bigdecimal_grammar() {
    // the lexer accepts exactly what BigDecimal::from_str accepts:
    // a trailing decimal point and digit-separating underscores are fine
    let tokens = tokenization("13.").unwrap();
    match &tokens[0].info {
        TokenInfo::Number(n) => assert_eq!(n, &"13".parse::<bigdecimal::BigDecimal>().unwrap()),
        _ => panic!("expected a number token"),
    }
    let tokens = tokenization("1_2").unwrap();
    match &tokens[0].info {
        TokenInfo::Number(n) => assert_eq!(n, &"12".parse::<bigdecimal::BigDecimal>().unwrap()),
        _ => panic!("expected a number token"),
    }
    // but not a leading underscore or a second decimal point
    assert!(tokenization("_12").is_err());
    assert!(tokenization("1.2.3").is_err());
}

#[test]
fn token_exponent_out_of_range_is_lexical_error() {
    // within the supported scale range: accepted
    assert!(tokenization("1e2000000000000000000").is_ok());
    // beyond it: rejected at the run's start, with the run attached
    let e = tokenization("1e3000000000000000000").unwrap_err();
    assert_eq!(e.position, 0);
    assert_eq!(e.original_str, "1e3000000000000000000");
    assert!(e.reason.contains("1e3000000000000000000"));
    let e = tokenization("5+1e9223372036854775807").unwrap_err();
    assert_eq!(e.position, 2);
}

#[test]
fn token_error_reason_names_the_run() {
    let e = tokenization("12a+1").unwrap_err();
    assert!(e.reason.contains("12a"));
}

#[test]
fn token_empty_input_is_no_expression() {
    let e = tokenization("").unwrap_err();
    assert_eq!(e.position, 0);
    let e = tokenization(" \t\n").unwrap_err();
    assert_eq!(e.position, 0);
}

#[test]
fn token_error_carries_offending_run() {
    let e = tokenization("12a+1").unwrap_err();
    assert_eq!(e.position, 0);
    assert_eq!(e.original_str, "12a");
    assert!(!e.reason.is_empty());
    let e = tokenization("6+12a").unwrap_err();
    assert_eq!(e.position, 2);
    assert_eq!(e.original_str, "12a");
}
