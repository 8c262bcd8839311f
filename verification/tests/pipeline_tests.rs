use expr_parser::draw::create_graph_from_ast;
use expr_parser::lexer::{lex, Token};
use expr_parser::parser::parse;
use expr_parser::text::{i64_to_string, u64_to_string};
use expr_parser::utils::get_position;
use expr_parser::vm::{evaluate, init, matches_any, EvalError};

fn run_str(s: &str) -> Result<i64, EvalError> {
    evaluate(&parse(lex(&s.to_string())).unwrap())
}

#[test]
fn pipeline_deterministic_on_success() {
    // the same input always gives the same value
    // '%' chains at the lowest level: ((3 * 512) + 10) % 7
    let first = run_str("(8-3-2)*2^3^2+10%7");
    let second = run_str("(8-3-2)*2^3^2+10%7");
    assert_eq!(first, second);
    assert_eq!(first, Ok((3 * 512 + 10) % 7));
}

#[test]
fn pipeline_deterministic_on_failure() {
    // the same input always gives the same error, message and position
    let first = parse(lex(&"(2+3".to_string())).unwrap_err();
    let second = parse(lex(&"(2+3".to_string())).unwrap_err();
    assert_eq!(first.msg, second.msg);
    assert_eq!(first.token_no, second.token_no);
    assert_eq!(first.lexer, second.lexer);
}

#[test]
fn graph_of_empty_tree() {
    let node = parse(lex(&"5".to_string())).unwrap();
    let graph = create_graph_from_ast(&node);
    assert_eq!(graph, "graph {\n{\n\t}\n}");
}

#[test]
fn graph_of_sum_tree() {
    let node = parse(lex(&"1+2".to_string())).unwrap();
    let graph = create_graph_from_ast(&node);
    // the root's label line appears once per chain that starts at it
    let expected = "graph {\n\t\"id=Op=PLUS_1_root\" -- \"id=Literal=1_0_left\"\n\t\"id=Op=PLUS_1_root\" -- \"id=Literal=2_0_right\"\n\t{\n\t\t\"id=Op=PLUS_1_root\" [label = \"+\"]\n\t\t\"id=Literal=1_0_left\" [label = \"1\"]\n\t\t\"id=Op=PLUS_1_root\" [label = \"+\"]\n\t\t\"id=Literal=2_0_right\" [label = \"2\"]\n\t}\n}";
    assert_eq!(graph, expected);
}

#[test]
fn graph_of_paren_tree() {
    // the root paren node has a single child, so only the left chain is drawn
    let node = parse(lex(&"(7)".to_string())).unwrap();
    let graph = create_graph_from_ast(&node);
    let expected = "graph {\n\t\"id=Parentheses_1_root\" -- \"id=Literal=7_0_left\"\n\t{\n\t\t\"id=Parentheses_1_root\" [label = \"(...)\"]\n\t\t\"id=Literal=7_0_left\" [label = \"7\"]\n\t}\n}";
    assert_eq!(graph, expected);
}

#[test]
fn graph_of_inner_paren_tree() {
    // an inner paren node chains to its single child on the `single` side
    let node = parse(lex(&"(7)+1".to_string())).unwrap();
    let graph = create_graph_from_ast(&node);
    let expected = "graph {\n\t\"id=Op=PLUS_2_root\" -- \t\"id=Parentheses_1_left\" -- \"id=Literal=7_0_single\"\n\t\"id=Op=PLUS_2_root\" -- \"id=Literal=1_0_right\"\n\t{\n\t\t\"id=Op=PLUS_2_root\" [label = \"+\"]\n\t\t\"id=Parentheses_1_left\" [label = \"(...)\"]\n\t\t\"id=Literal=7_0_single\" [label = \"7\"]\n\t\t\"id=Op=PLUS_2_root\" [label = \"+\"]\n\t\t\"id=Literal=1_0_right\" [label = \"1\"]\n\t}\n}";
    assert_eq!(graph, expected);
}

#[test]
fn caret_position_counts_digits() {
    let pos = get_position(vec![Token::Number(12), Token::OpAdd, Token::Number(345)]);
    assert_eq!(pos, 6);
}

#[test]
fn caret_position_counts_sign() {
    let pos = get_position(vec![Token::Number(-5), Token::LeftParen]);
    assert_eq!(pos, 3);
}

#[test]
fn caret_position_of_empty_sequence() {
    assert_eq!(get_position(vec![]), 0);
}

#[test]
fn decimal_rendering_of_u64() {
    assert_eq!(u64_to_string(0), "0");
    assert_eq!(u64_to_string(7), "7");
    assert_eq!(u64_to_string(18446744073709551615), "18446744073709551615");
}

#[test]
fn decimal_rendering_of_i64() {
    assert_eq!(i64_to_string(0), "0");
    assert_eq!(i64_to_string(-123), "-123");
    assert_eq!(i64_to_string(i64::MIN), "-9223372036854775808");
    assert_eq!(i64_to_string(i64::MAX), "9223372036854775807");
}

#[test]
fn quit_keywords() {
    let keywords = init();
    assert!(matches_any(&"quit".to_string(), &keywords.quit));
    assert!(matches_any(&"q".to_string(), &keywords.quit));
    assert!(!matches_any(&"quit ".to_string(), &keywords.quit));
    assert!(!matches_any(&"exit".to_string(), &keywords.quit));
}
