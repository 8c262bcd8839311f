use expr_parser::lexer::{lex, Token};
use expr_parser::parser::{parse, ParseNode, Terminal};

fn parse_str(s: &str) -> ParseNode {
    parse(lex(&s.to_string())).unwrap()
}

#[test]
fn parse_single_literal() {
    let node = parse_str("7");
    assert_eq!(node.terminal, Terminal::Literal(7));
    assert!(node.get_lchild().is_none());
    assert!(node.get_rchild().is_none());
    assert_eq!(node.get_depth(), 0);
}

#[test]
fn parse_left_associative_subtraction() {
    // 8-3-2 parses as (8-3)-2, never 8-(3-2)
    let node = parse_str("8-3-2");
    assert_eq!(node.terminal, Terminal::Sub);
    let left = node.get_lchild().as_ref().unwrap();
    assert_eq!(left.terminal, Terminal::Sub);
    assert_eq!(
        left.get_lchild().as_ref().unwrap().terminal,
        Terminal::Literal(8)
    );
    assert_eq!(
        left.get_rchild().as_ref().unwrap().terminal,
        Terminal::Literal(3)
    );
    assert_eq!(
        node.get_rchild().as_ref().unwrap().terminal,
        Terminal::Literal(2)
    );
}

#[test]
fn parse_right_associative_exponent() {
    // 2^3^2 parses as 2^(3^2)
    let node = parse_str("2^3^2");
    assert_eq!(node.terminal, Terminal::Exp);
    assert_eq!(
        node.get_lchild().as_ref().unwrap().terminal,
        Terminal::Literal(2)
    );
    let right = node.get_rchild().as_ref().unwrap();
    assert_eq!(right.terminal, Terminal::Exp);
    assert_eq!(
        right.get_lchild().as_ref().unwrap().terminal,
        Terminal::Literal(3)
    );
    assert_eq!(
        right.get_rchild().as_ref().unwrap().terminal,
        Terminal::Literal(2)
    );
}

#[test]
fn parse_precedence_of_mult_over_add() {
    // 2+3*4 parses as 2+(3*4)
    let node = parse_str("2+3*4");
    assert_eq!(node.terminal, Terminal::Sum);
    assert_eq!(
        node.get_lchild().as_ref().unwrap().terminal,
        Terminal::Literal(2)
    );
    assert_eq!(node.get_rchild().as_ref().unwrap().terminal, Terminal::Mult);
}

#[test]
fn parse_parenthesized_group() {
    // (2+3)*4: the parenthesis node wraps the sum
    let node = parse_str("(2+3)*4");
    assert_eq!(node.terminal, Terminal::Mult);
    let left = node.get_lchild().as_ref().unwrap();
    assert_eq!(left.terminal, Terminal::Paren);
    assert_eq!(left.get_lchild().as_ref().unwrap().terminal, Terminal::Sum);
    assert!(left.get_rchild().is_none());
    assert_eq!(
        node.get_rchild().as_ref().unwrap().terminal,
        Terminal::Literal(4)
    );
}

#[test]
fn parse_depth_of_nodes() {
    let node = parse_str("1+2");
    assert_eq!(node.get_depth(), 1);
    assert_eq!(node.get_lchild().as_ref().unwrap().get_depth(), 0);
    let deeper = parse_str("1+2*3");
    assert_eq!(deeper.get_depth(), 2);
}

#[test]
fn parse_node_labels() {
    let node = parse_str("1+2");
    assert_eq!(node.get_short_type(), "+");
    assert_eq!(node.get_long_type(), "Op=PLUS");
    assert_eq!(node.get_non_terminal_type(), "Expression");
    let leaf = node.get_lchild().as_ref().unwrap();
    assert_eq!(leaf.get_short_type(), "1");
    assert_eq!(leaf.get_long_type(), "Literal=1");
    assert_eq!(leaf.get_non_terminal_type(), "Exponent");
}

#[test]
fn parse_missing_closing_paren() {
    let err = parse(lex(&"(2+3".to_string())).unwrap_err();
    assert_eq!(err.msg, "Expected closing parenthesis but found end of input");
    assert_eq!(err.token_no, 4);
    assert_eq!(err.lexer, vec![]);
}

#[test]
fn parse_mismatched_closing_paren() {
    let err = parse(lex(&"(2+3*".to_string())).unwrap_err();
    assert_eq!(err.msg, "Unexpected end of input");
    assert_eq!(err.token_no, 5);
}

#[test]
fn parse_trailing_input() {
    // the second `2` stands at token index 1
    let err = parse(lex(&"2 2".to_string())).unwrap_err();
    assert_eq!(err.msg, "Expected end of input, found `2'");
    assert_eq!(err.token_no, 1);
    assert_eq!(err.lexer, vec![]);
}

#[test]
fn parse_trailing_paren() {
    let err = parse(lex(&"2+2)".to_string())).unwrap_err();
    assert_eq!(err.msg, "Expected end of input, found `)'");
    assert_eq!(err.token_no, 3);
}

#[test]
fn parse_empty_input() {
    let err = parse(lex(&"".to_string())).unwrap_err();
    assert_eq!(err.msg, "Unexpected end of input");
    assert_eq!(err.token_no, 0);
}

#[test]
fn parse_empty_parens() {
    let err = parse(lex(&"()".to_string())).unwrap_err();
    assert_eq!(err.msg, "Unexpected token `)'");
    assert_eq!(err.token_no, 1);
}

#[test]
fn parse_stray_operator() {
    let err = parse(lex(&"2+*3".to_string())).unwrap_err();
    assert_eq!(err.msg, "Unexpected token `*'");
    assert_eq!(err.token_no, 2);
}

#[test]
fn parse_passes_lexer_fault_through() {
    let err = parse(lex(&"2+@".to_string())).unwrap_err();
    assert_eq!(err.msg, "Unexpected character `@'");
    assert_eq!(err.token_no, 3);
    assert_eq!(err.lexer, vec![Token::Number(2), Token::OpAdd]);
}
