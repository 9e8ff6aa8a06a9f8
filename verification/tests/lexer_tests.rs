use lime::lexer::{lexer, parse_number, Token};

#[test]
fn lexes_a_small_expression() {
    let tokens = lexer("2 + 3 * 4 - 5 / 2").unwrap();
    assert_eq!(
        tokens,
        vec![
            Token::Number(2),
            Token::Plus,
            Token::Number(3),
            Token::Multiply,
            Token::Number(4),
            Token::Minus,
            Token::Number(5),
            Token::Divide,
            Token::Number(2),
        ]
    );
}

#[test]
fn lexes_without_spaces() {
    let tokens = lexer("10+20*3").unwrap();
    assert_eq!(
        tokens,
        vec![
            Token::Number(10),
            Token::Plus,
            Token::Number(20),
            Token::Multiply,
            Token::Number(3),
        ]
    );
}

#[test]
fn empty_and_blank_inputs_lex_to_nothing() {
    assert_eq!(lexer("").unwrap(), vec![]);
    assert_eq!(lexer("   ").unwrap(), vec![]);
}

#[test]
fn multi_digit_runs_become_one_token() {
    assert_eq!(lexer("007").unwrap(), vec![Token::Number(7)]);
    assert_eq!(lexer("12 34").unwrap(), vec![Token::Number(12), Token::Number(34)]);
}

#[test]
fn invalid_character_is_an_error() {
    let e = lexer("2 + a").unwrap_err();
    assert_eq!(e, "Invalid character: a");
    assert!(lexer("(1+2)").is_err());
    assert!(lexer("1.5").is_err());
}

#[test]
fn number_at_i32_max_is_accepted() {
    assert_eq!(lexer("2147483647").unwrap(), vec![Token::Number(2147483647)]);
}

#[test]
fn number_above_i32_max_is_an_error() {
    let e = lexer("2147483648").unwrap_err();
    assert_eq!(e, "Failed to parse number: number too large to fit in target type");
    assert!(lexer("1 + 99999999999999999999").is_err());
}

#[test]
fn parse_number_reads_the_digit_run() {
    let (r, end) = parse_number("42x7", 0);
    assert_eq!(r.unwrap(), 42);
    assert_eq!(end, 2);
    let (r, end) = parse_number("129", 1);
    assert_eq!(r.unwrap(), 29);
    assert_eq!(end, 3);
}

#[test]
fn parse_number_on_a_non_digit_is_an_error() {
    let (r, end) = parse_number("x1", 0);
    let e = r.unwrap_err();
    assert_eq!(e, "Failed to parse number: cannot parse integer from empty string");
    assert_eq!(end, 0);
}

#[test]
fn parse_number_overflow_still_consumes_the_run() {
    let (r, end) = parse_number("2147483648+1", 0);
    assert!(r.is_err());
    assert_eq!(end, 10);
}

#[test]
fn minus_lexes_as_an_operator_not_a_sign() {
    assert_eq!(lexer("-5").unwrap(), vec![Token::Minus, Token::Number(5)]);
}
