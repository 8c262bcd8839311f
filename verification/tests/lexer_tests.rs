use expr_parser::lexer::{lex, Token};

#[test]
fn lex_single_number() {
    let toks = lex(&"42".to_string()).unwrap();
    assert_eq!(toks, vec![Token::Number(42)]);
}

#[test]
fn lex_all_operators() {
    let toks = lex(&"1+2-3%4*5/6^(7)".to_string()).unwrap();
    assert_eq!(
        toks,
        vec![
            Token::Number(1),
            Token::OpAdd,
            Token::Number(2),
            Token::OpSub,
            Token::Number(3),
            Token::OpMod,
            Token::Number(4),
            Token::OpMult,
            Token::Number(5),
            Token::OpDiv,
            Token::Number(6),
            Token::OpExp,
            Token::LeftParen,
            Token::Number(7),
            Token::RightParen,
        ]
    );
}

#[test]
fn lex_whitespace_insensitive() {
    // spaces between tokens change nothing in the token sequence
    let spaced = lex(&"1 + 2".to_string()).unwrap();
    let dense = lex(&"1+2".to_string()).unwrap();
    assert_eq!(spaced, dense);
    assert_eq!(dense, vec![Token::Number(1), Token::OpAdd, Token::Number(2)]);
}

#[test]
fn lex_leading_and_trailing_spaces() {
    let toks = lex(&"  12  ".to_string()).unwrap();
    assert_eq!(toks, vec![Token::Number(12)]);
}

#[test]
fn lex_empty_input() {
    let toks = lex(&"".to_string()).unwrap();
    assert_eq!(toks, vec![]);
}

#[test]
fn lex_unexpected_character() {
    // '2' is step 1, '+' is step 2, '@' is step 3
    let err = lex(&"2+@".to_string()).unwrap_err();
    assert_eq!(err.token_no, 3);
    assert_eq!(err.msg, "Unexpected character `@'");
    assert_eq!(err.tokens, vec![Token::Number(2), Token::OpAdd]);
}

#[test]
fn lex_unexpected_character_counts_spaces_as_steps() {
    // '1' is step 1, ' ' is step 2, '#' is step 3
    let err = lex(&"1 #".to_string()).unwrap_err();
    assert_eq!(err.token_no, 3);
    assert_eq!(err.msg, "Unexpected character `#'");
    assert_eq!(err.tokens, vec![Token::Number(1)]);
}

#[test]
fn lex_greedy_digit_runs() {
    let toks = lex(&"12 34".to_string()).unwrap();
    assert_eq!(toks, vec![Token::Number(12), Token::Number(34)]);
}

#[test]
fn lex_largest_literal() {
    let toks = lex(&"9223372036854775807".to_string()).unwrap();
    assert_eq!(toks, vec![Token::Number(i64::MAX)]);
}

#[test]
fn lex_literal_overflow() {
    // one past i64::MAX: the scan stops at the literal's own step
    let err = lex(&"1+9223372036854775808".to_string()).unwrap_err();
    assert_eq!(err.msg, "Integer literal too large");
    assert_eq!(err.token_no, 3);
    assert_eq!(err.tokens, vec![Token::Number(1), Token::OpAdd]);
}

#[test]
fn lex_multibyte_character_is_fatal() {
    let err = lex(&"1+\u{e9}".to_string()).unwrap_err();
    assert_eq!(err.token_no, 3);
    assert_eq!(err.msg, "Unexpected character `\u{e9}'");
}
