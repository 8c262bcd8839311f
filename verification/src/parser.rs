//! The parser: a recursive-descent parser over the token sequence, one
//! grammar rule per precedence level (lowest to highest):
//!
//! ```text
//! expression := term ( ('+' | '-' | '%') term )*      left-associative
//! term       := factor ( ('*' | '/') factor )*        left-associative
//! factor     := exponent ( '^' factor )?              right-associative
//! exponent   := NUMBER | '(' expression ')'
//! ```
//!
//! The parser makes a single left-to-right pass with one token of
//! lookahead and no backtracking. A left-associative chain is folded as it
//! is read, so `a - b - c` parses as `(a - b) - c`; the `^` level is
//! ordinary right recursion, so `a ^ b ^ c` parses as `a ^ (b ^ c)`.
//!
//! The whole grammar is also written down as a ghost model
//! (`spec_parse_expr` and the functions under it), and every executable
//! parsing function returns exactly what its model returns, on success and
//! on failure alike.

use vstd::prelude::*;
use vstd::string::StringExecFns;

use crate::lexer::{LexerError, SpecError, Token};
use crate::text::{i64_to_string, spec_i64_str};

verus! {

/// The operator or literal a tree node stands for.
#[derive(Debug, Clone, Copy, PartialEq, Eq, Structural)]
pub enum Terminal {
    Sum,
    Sub,
    Mod,
    Mult,
    Div,
    Exp,
    Paren,
    Literal(i64),
}

/// The grammar rule (precedence level) a node was produced by; kept for
/// diagnostics only.
#[derive(Debug, Clone, Copy, PartialEq, Eq, Structural)]
pub enum NonTerminal {
    Expression,
    Term,
    Factor,
    Exponent,
}

/// Where a node stands in the tree; kept for diagnostics only.
#[derive(Debug, Clone, Copy, PartialEq, Eq, Structural)]
pub enum NodeType {
    Root,
    Branch,
    Leaf,
}

/// A node of the abstract syntax tree. A `Literal` node has no children;
/// a `Paren` node has exactly a left child (the wrapped expression); every
/// other node has exactly two children. Each node owns its children.
#[derive(Debug)]
pub struct ParseNode {
    pub left_child: Option<Box<ParseNode>>,
    pub right_child: Option<Box<ParseNode>>,
    pub ntype: NodeType,
    pub terminal: Terminal,
    pub non_terminal: NonTerminal,
    pub depth: usize,
}

/// A parse fault: a message, the index of the offending token, and, where
/// the fault came from the lexer, the lexer's partial token sequence.
#[derive(Debug)]
pub struct ParserError {
    pub msg: String,
    pub token_no: usize,
    pub lexer: Vec<Token>,
}

impl ParseNode {
    /// The structural invariant of the tree: a literal is a leaf of depth
    /// 0, a parenthesis node wraps exactly one child, every operator node
    /// has exactly two, and the depth of a node is one more than the
    /// largest depth among its children.
    pub open spec fn well_formed(self) -> bool
        decreases self,
    {
        match self.terminal {
            Terminal::Literal(_) => self.left_child is None && self.right_child is None
                && self.depth == 0,
            Terminal::Paren => match self.left_child {
                Some(l) => l.well_formed() && self.right_child is None && self.depth == l.depth
                    + 1,
                None => false,
            },
            _ => match self.left_child {
                Some(l) => match self.right_child {
                    Some(r) => l.well_formed() && r.well_formed() && self.depth == (if l.depth
                        >= r.depth {
                        l.depth + 1
                    } else {
                        r.depth + 1
                    }),
                    None => false,
                },
                None => false,
            },
        }
    }

    fn new(ntype: NodeType, terminal: Terminal, non_terminal: NonTerminal, depth: usize) -> (n:
        ParseNode)
        ensures
            n == (ParseNode {
                left_child: None,
                right_child: None,
                ntype,
                terminal,
                non_terminal,
                depth,
            }),
    {
        ParseNode { left_child: None, right_child: None, ntype, terminal, non_terminal, depth }
    }

    /// The left child, or `None` for a leaf.
    pub fn get_lchild(&self) -> (c: &Option<Box<ParseNode>>)
        ensures
            *c == self.left_child,
    {
        &self.left_child
    }

    /// The right child, or `None` for a leaf or a parenthesis node.
    pub fn get_rchild(&self) -> (c: &Option<Box<ParseNode>>)
        ensures
            *c == self.right_child,
    {
        &self.right_child
    }

    /// A long label for this node's terminal, as the graph drawing uses it.
    pub fn get_long_type(&self) -> (s: String)
        ensures
            s@ == spec_long_type(self.terminal),
    {
        match &self.terminal {
            Terminal::Literal(n) => {
                let mut s = "Literal=".to_owned();
                s.append(i64_to_string(*n).as_str());
                s
            },
            Terminal::Sum => "Op=PLUS".to_owned(),
            Terminal::Sub => "Op=MINUS".to_owned(),
            Terminal::Mod => "Op=MODULO".to_owned(),
            Terminal::Mult => "Op=MULTIPLICATION".to_owned(),
            Terminal::Div => "Op=DIVISION".to_owned(),
            Terminal::Exp => "Op=EXPONENTIATION".to_owned(),
            Terminal::Paren => "Parentheses".to_owned(),
        }
    }

    /// A short label for this node's terminal: the operator character, the
    /// literal's digits, or `(...)` for a parenthesis node.
    pub fn get_short_type(&self) -> (s: String)
        ensures
            s@ == spec_short_type(self.terminal),
    {
        match &self.terminal {
            Terminal::Literal(n) => i64_to_string(*n),
            Terminal::Sum => "+".to_owned(),
            Terminal::Sub => "-".to_owned(),
            Terminal::Mod => "%".to_owned(),
            Terminal::Mult => "*".to_owned(),
            Terminal::Div => "/".to_owned(),
            Terminal::Exp => "^".to_owned(),
            Terminal::Paren => "(...)".to_owned(),
        }
    }

    /// The name of the grammar rule this node was produced by.
    pub fn get_non_terminal_type(&self) -> (s: String)
        ensures
            s@ == spec_non_terminal_name(self.non_terminal),
    {
        match &self.non_terminal {
            NonTerminal::Expression => "Expression".to_owned(),
            NonTerminal::Term => "Term".to_owned(),
            NonTerminal::Factor => "Factor".to_owned(),
            NonTerminal::Exponent => "Exponent".to_owned(),
        }
    }

    /// The depth of this node: 0 for a leaf, one more than the deepest
    /// child otherwise.
    pub fn get_depth(&self) -> (d: usize)
        ensures
            d == self.depth,
    {
        self.depth
    }
}

/// The long label of a terminal.
pub open spec fn spec_long_type(t: Terminal) -> Seq<char> {
    match t {
        Terminal::Literal(n) => "Literal="@ + spec_i64_str(n as int),
        Terminal::Sum => "Op=PLUS"@,
        Terminal::Sub => "Op=MINUS"@,
        Terminal::Mod => "Op=MODULO"@,
        Terminal::Mult => "Op=MULTIPLICATION"@,
        Terminal::Div => "Op=DIVISION"@,
        Terminal::Exp => "Op=EXPONENTIATION"@,
        Terminal::Paren => "Parentheses"@,
    }
}

/// The short label of a terminal.
pub open spec fn spec_short_type(t: Terminal) -> Seq<char> {
    match t {
        Terminal::Literal(n) => spec_i64_str(n as int),
        Terminal::Sum => "+"@,
        Terminal::Sub => "-"@,
        Terminal::Mod => "%"@,
        Terminal::Mult => "*"@,
        Terminal::Div => "/"@,
        Terminal::Exp => "^"@,
        Terminal::Paren => "(...)"@,
    }
}

/// The name of a grammar rule.
pub open spec fn spec_non_terminal_name(nt: NonTerminal) -> Seq<char> {
    match nt {
        NonTerminal::Expression => "Expression"@,
        NonTerminal::Term => "Term"@,
        NonTerminal::Factor => "Factor"@,
        NonTerminal::Exponent => "Exponent"@,
    }
}

/// The text of a token, as error messages show it.
pub open spec fn spec_token_text(t: Token) -> Seq<char> {
    match t {
        Token::OpAdd => "+"@,
        Token::OpSub => "-"@,
        Token::OpMod => "%"@,
        Token::OpMult => "*"@,
        Token::OpDiv => "/"@,
        Token::OpExp => "^"@,
        Token::LeftParen => "("@,
        Token::RightParen => ")"@,
        Token::Number(n) => spec_i64_str(n as int),
    }
}

/// The message of the fault at a missing operand.
pub open spec fn unexpected_end_msg() -> Seq<char> {
    "Unexpected end of input"@
}

/// The message of the fault at a token no operand can start with.
pub open spec fn unexpected_token_msg(t: Token) -> Seq<char> {
    "Unexpected token `"@ + spec_token_text(t) + "'"@
}

/// The message of the fault at a token left over after a complete
/// expression.
pub open spec fn expected_end_msg(t: Token) -> Seq<char> {
    "Expected end of input, found `"@ + spec_token_text(t) + "'"@
}

/// The message of the fault at a missing closing parenthesis.
pub open spec fn expected_close_msg(t: Option<Token>) -> Seq<char> {
    match t {
        Some(tok) => "Expected closing parenthesis but found `"@ + spec_token_text(tok) + "'"@,
        None => "Expected closing parenthesis but found end of input"@,
    }
}

/// The leaf node of an integer literal.
pub open spec fn spec_leaf(n: i64) -> ParseNode {
    ParseNode {
        left_child: None,
        right_child: None,
        ntype: NodeType::Leaf,
        terminal: Terminal::Literal(n),
        non_terminal: NonTerminal::Exponent,
        depth: 0,
    }
}

/// The node of a parenthesized sub-expression.
pub open spec fn spec_paren(inner: ParseNode) -> ParseNode {
    ParseNode {
        left_child: Some(Box::new(inner)),
        right_child: None,
        ntype: NodeType::Branch,
        terminal: Terminal::Paren,
        non_terminal: NonTerminal::Exponent,
        depth: (inner.depth + 1) as usize,
    }
}

/// The node of a binary operator applied to two sub-trees.
pub open spec fn spec_branch(
    terminal: Terminal,
    non_terminal: NonTerminal,
    l: ParseNode,
    r: ParseNode,
) -> ParseNode {
    ParseNode {
        left_child: Some(Box::new(l)),
        right_child: Some(Box::new(r)),
        ntype: NodeType::Branch,
        terminal,
        non_terminal,
        depth: (if l.depth >= r.depth {
            l.depth + 1
        } else {
            r.depth + 1
        }) as usize,
    }
}

/// The same node with its place marked as the root of the tree.
pub open spec fn spec_mark_root(n: ParseNode) -> ParseNode {
    ParseNode {
        left_child: n.left_child,
        right_child: n.right_child,
        ntype: NodeType::Root,
        terminal: n.terminal,
        non_terminal: n.non_terminal,
        depth: n.depth,
    }
}

/// Ghost model of one parsing step: the sub-tree parsed and the position
/// of the first token after it, or a fault.
pub type SpecParseStep = Result<(ParseNode, int), SpecError>;

/// Ghost model of the `exponent` rule at token `pos`: an integer literal,
/// or a parenthesized expression.
pub open spec fn spec_parse_exponent(toks: Seq<Token>, pos: int) -> SpecParseStep
    decreases toks.len() - pos, 0int,
{
    if pos < 0 || pos >= toks.len() {
        Err(SpecError { msg: unexpected_end_msg(), token_no: pos, tokens: Seq::empty() })
    } else {
        match toks[pos] {
            Token::Number(n) => Ok((spec_leaf(n), pos + 1)),
            Token::LeftParen => match spec_parse_expr(toks, pos + 1) {
                Ok((inner, p)) => if p < toks.len() && toks[p] == Token::RightParen {
                    Ok((spec_paren(inner), p + 1))
                } else {
                    Err(
                        SpecError {
                            msg: expected_close_msg(
                                if p < toks.len() {
                                    Some(toks[p])
                                } else {
                                    None
                                },
                            ),
                            token_no: p,
                            tokens: Seq::empty(),
                        },
                    )
                },
                Err(e) => Err(e),
            },
            t => Err(
                SpecError { msg: unexpected_token_msg(t), token_no: pos, tokens: Seq::empty() },
            ),
        }
    }
}

/// Ghost model of the `factor` rule at token `pos`: an exponent,
/// optionally raised to a factor (right-associative).
pub open spec fn spec_parse_factor(toks: Seq<Token>, pos: int) -> SpecParseStep
    decreases toks.len() - pos, 1int,
{
    match spec_parse_exponent(toks, pos) {
        Ok((lhs, p)) => if p < toks.len() && toks[p] == Token::OpExp {
            if pos <= p {
                match spec_parse_factor(toks, p + 1) {
                    Ok((rhs, p2)) => Ok(
                        (spec_branch(Terminal::Exp, NonTerminal::Factor, lhs, rhs), p2),
                    ),
                    Err(e) => Err(e),
                }
            } else {
                arbitrary()
            }
        } else {
            Ok((lhs, p))
        },
        Err(e) => Err(e),
    }
}

/// Ghost model of the `term` rule at token `pos`: a factor, then any
/// number of `*` or `/` factors, folded left to right.
pub open spec fn spec_parse_term(toks: Seq<Token>, pos: int) -> SpecParseStep
    decreases toks.len() - pos, 2int,
{
    match spec_parse_factor(toks, pos) {
        Ok((lhs, p)) => if pos <= p <= toks.len() {
            spec_parse_term_rest(toks, p, lhs)
        } else {
            arbitrary()
        },
        Err(e) => Err(e),
    }
}

/// Ghost model of the left-associative fold of a `term` chain: `lhs` is
/// the part already parsed, `pos` stands on a possible `*` or `/`.
pub open spec fn spec_parse_term_rest(toks: Seq<Token>, pos: int, lhs: ParseNode) -> SpecParseStep
    decreases toks.len() - pos, 0int,
{
    if 0 <= pos < toks.len() && (toks[pos] == Token::OpMult || toks[pos] == Token::OpDiv) {
        let terminal = if toks[pos] == Token::OpMult {
            Terminal::Mult
        } else {
            Terminal::Div
        };
        match spec_parse_factor(toks, pos + 1) {
            Ok((rhs, p2)) => if pos < p2 <= toks.len() {
                spec_parse_term_rest(
                    toks,
                    p2,
                    spec_branch(terminal, NonTerminal::Term, lhs, rhs),
                )
            } else {
                arbitrary()
            },
            Err(e) => Err(e),
        }
    } else {
        Ok((lhs, pos))
    }
}

/// Ghost model of the `expression` rule at token `pos`: a term, then any
/// number of `+`, `-` or `%` terms, folded left to right.
pub open spec fn spec_parse_expr(toks: Seq<Token>, pos: int) -> SpecParseStep
    decreases toks.len() - pos, 3int,
{
    match spec_parse_term(toks, pos) {
        Ok((lhs, p)) => if pos <= p <= toks.len() {
            spec_parse_expr_rest(toks, p, lhs)
        } else {
            arbitrary()
        },
        Err(e) => Err(e),
    }
}

/// Ghost model of the left-associative fold of an `expression` chain:
/// `lhs` is the part already parsed, `pos` stands on a possible `+`, `-`
/// or `%`.
pub open spec fn spec_parse_expr_rest(toks: Seq<Token>, pos: int, lhs: ParseNode) -> SpecParseStep
    decreases toks.len() - pos, 0int,
{
    if 0 <= pos < toks.len() && (toks[pos] == Token::OpAdd || toks[pos] == Token::OpSub
        || toks[pos] == Token::OpMod) {
        let terminal = if toks[pos] == Token::OpAdd {
            Terminal::Sum
        } else if toks[pos] == Token::OpSub {
            Terminal::Sub
        } else {
            Terminal::Mod
        };
        match spec_parse_term(toks, pos + 1) {
            Ok((rhs, p2)) => if pos < p2 <= toks.len() {
                spec_parse_expr_rest(
                    toks,
                    p2,
                    spec_branch(terminal, NonTerminal::Expression, lhs, rhs),
                )
            } else {
                arbitrary()
            },
            Err(e) => Err(e),
        }
    } else {
        Ok((lhs, pos))
    }
}

/// Ghost model of the whole parser on a token sequence: the root of the
/// tree if the tokens form exactly one expression, a fault otherwise.
pub open spec fn spec_parse_tokens(toks: Seq<Token>) -> Result<ParseNode, SpecError> {
    match spec_parse_expr(toks, 0) {
        Ok((node, p)) => if p == toks.len() {
            Ok(spec_mark_root(node))
        } else {
            Err(SpecError { msg: expected_end_msg(toks[p]), token_no: p, tokens: Seq::empty() })
        },
        Err(e) => Err(e),
    }
}

/// Ghost model of the whole parser on a lexer outcome: a lexer fault is
/// passed through unchanged, with its message, position and partial
/// tokens.
pub open spec fn spec_parse(lexed: Result<Seq<Token>, SpecError>) -> Result<
    ParseNode,
    SpecError,
> {
    match lexed {
        Ok(toks) => spec_parse_tokens(toks),
        Err(e) => Err(e),
    }
}

/// The ghost view of an executable lexer outcome.
pub open spec fn lexed_view(t: Result<Vec<Token>, LexerError>) -> Result<Seq<Token>, SpecError> {
    match t {
        Ok(v) => Ok(v@),
        Err(e) => Err(
            SpecError { msg: e.msg@, token_no: e.token_no as int, tokens: e.tokens@ },
        ),
    }
}

/// Whether the executable parse outcome `r` is the one the model `m`
/// gives.
pub open spec fn parse_result_matches(
    r: Result<ParseNode, ParserError>,
    m: Result<ParseNode, SpecError>,
) -> bool {
    match r {
        Ok(node) => m matches Ok(mn) && node == mn,
        Err(e) => m matches Err(me) && e.msg@ == me.msg && e.token_no == me.token_no && e.lexer@
            == me.tokens,
    }
}

/// Whether one executable parsing step `r` is the one the model `m`
/// gives.
pub open spec fn step_matches(r: Result<(ParseNode, usize), ParserError>, m: SpecParseStep) -> bool {
    match r {
        Ok((node, p)) => m matches Ok(ms) && node == ms.0 && p == ms.1,
        Err(e) => m matches Err(me) && e.msg@ == me.msg && e.token_no == me.token_no && e.lexer@
            == me.tokens,
    }
}

/// What the `exponent` rule guarantees of a sub-tree it parses: the
/// position advanced, stays within the tokens, and the tree is
/// well-formed with a depth smaller than the number of tokens it spans.
pub proof fn lemma_parse_exponent_props(toks: Seq<Token>, pos: int)
    requires
        toks.len() <= usize::MAX,
    ensures
        spec_parse_exponent(toks, pos) matches Ok(res) ==> pos < res.1 <= toks.len()
            && res.0.well_formed() && res.0.depth < res.1 - pos,
    decreases toks.len() - pos, 0int,
{
    if 0 <= pos < toks.len() {
        match toks[pos] {
            Token::LeftParen => {
                lemma_parse_expr_props(toks, pos + 1);
            },
            _ => {},
        }
    }
}

/// What the `factor` rule guarantees of a sub-tree it parses.
pub proof fn lemma_parse_factor_props(toks: Seq<Token>, pos: int)
    requires
        toks.len() <= usize::MAX,
    ensures
        spec_parse_factor(toks, pos) matches Ok(res) ==> pos < res.1 <= toks.len()
            && res.0.well_formed() && res.0.depth < res.1 - pos,
    decreases toks.len() - pos, 1int,
{
    lemma_parse_exponent_props(toks, pos);
    match spec_parse_exponent(toks, pos) {
        Ok((lhs, p)) => {
            if p < toks.len() && toks[p] == Token::OpExp {
                lemma_parse_factor_props(toks, p + 1);
            }
        },
        Err(_) => {},
    }
}

/// What the `term` rule guarantees of a sub-tree it parses.
pub proof fn lemma_parse_term_props(toks: Seq<Token>, pos: int)
    requires
        toks.len() <= usize::MAX,
    ensures
        spec_parse_term(toks, pos) matches Ok(res) ==> pos < res.1 <= toks.len()
            && res.0.well_formed() && res.0.depth < res.1 - pos,
    decreases toks.len() - pos, 2int,
{
    lemma_parse_factor_props(toks, pos);
    match spec_parse_factor(toks, pos) {
        Ok((lhs, p)) => {
            lemma_parse_term_rest_props(toks, p, lhs, pos);
        },
        Err(_) => {},
    }
}

/// What the left-associative `term` fold guarantees, measured from the
/// position `base` at which the chain began.
pub proof fn lemma_parse_term_rest_props(toks: Seq<Token>, pos: int, lhs: ParseNode, base: int)
    requires
        toks.len() <= usize::MAX,
        0 <= base <= pos <= toks.len(),
        lhs.well_formed(),
        lhs.depth < pos - base,
    ensures
        spec_parse_term_rest(toks, pos, lhs) matches Ok(res) ==> pos <= res.1 <= toks.len()
            && res.0.well_formed() && res.0.depth < res.1 - base,
    decreases toks.len() - pos, 0int,
{
    if pos < toks.len() && (toks[pos] == Token::OpMult || toks[pos] == Token::OpDiv) {
        let terminal = if toks[pos] == Token::OpMult {
            Terminal::Mult
        } else {
            Terminal::Div
        };
        lemma_parse_factor_props(toks, pos + 1);
        match spec_parse_factor(toks, pos + 1) {
            Ok((rhs, p2)) => {
                let node = spec_branch(terminal, NonTerminal::Term, lhs, rhs);
                lemma_parse_term_rest_props(toks, p2, node, base);
            },
            Err(_) => {},
        }
    }
}

/// What the `expression` rule guarantees of a sub-tree it parses.
pub proof fn lemma_parse_expr_props(toks: Seq<Token>, pos: int)
    requires
        toks.len() <= usize::MAX,
    ensures
        spec_parse_expr(toks, pos) matches Ok(res) ==> pos < res.1 <= toks.len()
            && res.0.well_formed() && res.0.depth < res.1 - pos,
    decreases toks.len() - pos, 3int,
{
    lemma_parse_term_props(toks, pos);
    match spec_parse_term(toks, pos) {
        Ok((lhs, p)) => {
            lemma_parse_expr_rest_props(toks, p, lhs, pos);
        },
        Err(_) => {},
    }
}

/// What the left-associative `expression` fold guarantees, measured from
/// the position `base` at which the chain began.
pub proof fn lemma_parse_expr_rest_props(toks: Seq<Token>, pos: int, lhs: ParseNode, base: int)
    requires
        toks.len() <= usize::MAX,
        0 <= base <= pos <= toks.len(),
        lhs.well_formed(),
        lhs.depth < pos - base,
    ensures
        spec_parse_expr_rest(toks, pos, lhs) matches Ok(res) ==> pos <= res.1 <= toks.len()
            && res.0.well_formed() && res.0.depth < res.1 - base,
    decreases toks.len() - pos, 0int,
{
    if pos < toks.len() && (toks[pos] == Token::OpAdd || toks[pos] == Token::OpSub || toks[pos]
        == Token::OpMod) {
        let terminal = if toks[pos] == Token::OpAdd {
            Terminal::Sum
        } else if toks[pos] == Token::OpSub {
            Terminal::Sub
        } else {
            Terminal::Mod
        };
        lemma_parse_term_props(toks, pos + 1);
        match spec_parse_term(toks, pos + 1) {
            Ok((rhs, p2)) => {
                let node = spec_branch(terminal, NonTerminal::Expression, lhs, rhs);
                lemma_parse_expr_rest_props(toks, p2, node, base);
            },
            Err(_) => {},
        }
    }
}

/// A tree produced by the whole parser is well-formed.
pub proof fn lemma_parse_tokens_well_formed(toks: Seq<Token>)
    requires
        toks.len() <= usize::MAX,
    ensures
        spec_parse_tokens(toks) matches Ok(node) ==> node.well_formed(),
{
    lemma_parse_expr_props(toks, 0);
    match spec_parse_expr(toks, 0) {
        Ok((node, p)) => {
            if p == toks.len() {
                assert(spec_mark_root(node).well_formed());
            }
        },
        Err(_) => {},
    }
}

fn token_text(t: &Token) -> (s: String)
    ensures
        s@ == spec_token_text(*t),
{
    match t {
        Token::OpAdd => "+".to_owned(),
        Token::OpSub => "-".to_owned(),
        Token::OpMod => "%".to_owned(),
        Token::OpMult => "*".to_owned(),
        Token::OpDiv => "/".to_owned(),
        Token::OpExp => "^".to_owned(),
        Token::LeftParen => "(".to_owned(),
        Token::RightParen => ")".to_owned(),
        Token::Number(n) => i64_to_string(*n),
    }
}

fn unexpected_end_err(pos: usize) -> (e: ParserError)
    ensures
        e.msg@ == unexpected_end_msg(),
        e.token_no == pos,
        e.lexer@ == Seq::<Token>::empty(),
{
    ParserError { msg: "Unexpected end of input".to_owned(), token_no: pos, lexer: Vec::new() }
}

fn unexpected_token_err(t: &Token, pos: usize) -> (e: ParserError)
    ensures
        e.msg@ == unexpected_token_msg(*t),
        e.token_no == pos,
        e.lexer@ == Seq::<Token>::empty(),
{
    let mut msg = "Unexpected token `".to_owned();
    msg.append(token_text(t).as_str());
    msg.append("'");
    ParserError { msg, token_no: pos, lexer: Vec::new() }
}

fn expected_end_err(t: &Token, pos: usize) -> (e: ParserError)
    ensures
        e.msg@ == expected_end_msg(*t),
        e.token_no == pos,
        e.lexer@ == Seq::<Token>::empty(),
{
    let mut msg = "Expected end of input, found `".to_owned();
    msg.append(token_text(t).as_str());
    msg.append("'");
    ParserError { msg, token_no: pos, lexer: Vec::new() }
}

fn expected_close_err(t: Option<&Token>, pos: usize) -> (e: ParserError)
    ensures
        e.msg@ == expected_close_msg(
            match t {
                Some(tok) => Some(*tok),
                None => None,
            },
        ),
        e.token_no == pos,
        e.lexer@ == Seq::<Token>::empty(),
{
    match t {
        Some(tok) => {
            let mut msg = "Expected closing parenthesis but found `".to_owned();
            msg.append(token_text(tok).as_str());
            msg.append("'");
            ParserError { msg, token_no: pos, lexer: Vec::new() }
        },
        None => ParserError {
            msg: "Expected closing parenthesis but found end of input".to_owned(),
            token_no: pos,
            lexer: Vec::new(),
        },
    }
}

fn branch(terminal: Terminal, non_terminal: NonTerminal, lhs: ParseNode, rhs: ParseNode) -> (n:
    ParseNode)
    requires
        lhs.depth + 1 <= usize::MAX,
        rhs.depth + 1 <= usize::MAX,
    ensures
        n == spec_branch(terminal, non_terminal, lhs, rhs),
{
    let depth: usize = if lhs.depth >= rhs.depth {
        lhs.depth + 1
    } else {
        rhs.depth + 1
    };
    let mut node = ParseNode::new(NodeType::Branch, terminal, non_terminal, depth);
    node.left_child = Some(Box::new(lhs));
    node.right_child = Some(Box::new(rhs));
    node
}

fn parse_exponent(tokens: &Vec<Token>, pos: usize) -> (r: Result<
    (ParseNode, usize),
    ParserError,
>)
    requires
        pos <= tokens@.len(),
    ensures
        step_matches(r, spec_parse_exponent(tokens@, pos as int)),
    decreases tokens@.len() - pos, 0int,
{
    if pos >= tokens.len() {
        return Err(unexpected_end_err(pos));
    }
    let t = tokens[pos];
    match t {
        Token::Number(n) => {
            let leaf = ParseNode::new(
                NodeType::Leaf,
                Terminal::Literal(n),
                NonTerminal::Exponent,
                0,
            );
            Ok((leaf, pos + 1))
        },
        Token::LeftParen => {
            let (inner, p) = match parse_expr(tokens, pos + 1) {
                Ok(x) => x,
                Err(e) => {
                    return Err(e);
                },
            };
            proof {
                lemma_parse_expr_props(tokens@, pos as int + 1);
            }
            if p < tokens.len() {
                let t2 = tokens[p];
                if t2 == Token::RightParen {
                    let mut paren = ParseNode::new(
                        NodeType::Branch,
                        Terminal::Paren,
                        NonTerminal::Exponent,
                        inner.depth + 1,
                    );
                    paren.left_child = Some(Box::new(inner));
                    Ok((paren, p + 1))
                } else {
                    Err(expected_close_err(Some(&t2), p))
                }
            } else {
                Err(expected_close_err(None, p))
            }
        },
        _ => Err(unexpected_token_err(&t, pos)),
    }
}

fn parse_factor(tokens: &Vec<Token>, pos: usize) -> (r: Result<(ParseNode, usize), ParserError>)
    requires
        pos <= tokens@.len(),
    ensures
        step_matches(r, spec_parse_factor(tokens@, pos as int)),
    decreases tokens@.len() - pos, 1int,
{
    let (lhs, p) = match parse_exponent(tokens, pos) {
        Ok(x) => x,
        Err(e) => {
            return Err(e);
        },
    };
    proof {
        assert(tokens@.len() == tokens.len());
        lemma_parse_exponent_props(tokens@, pos as int);
    }
    if p < tokens.len() && tokens[p] == Token::OpExp {
        let (rhs, p2) = match parse_factor(tokens, p + 1) {
            Ok(x) => x,
            Err(e) => {
                return Err(e);
            },
        };
        proof {
            lemma_parse_factor_props(tokens@, p as int + 1);
        }
        Ok((branch(Terminal::Exp, NonTerminal::Factor, lhs, rhs), p2))
    } else {
        Ok((lhs, p))
    }
}

fn parse_term(tokens: &Vec<Token>, pos: usize) -> (r: Result<(ParseNode, usize), ParserError>)
    requires
        pos <= tokens@.len(),
    ensures
        step_matches(r, spec_parse_term(tokens@, pos as int)),
    decreases tokens@.len() - pos, 2int,
{
    let (lhs, p) = match parse_factor(tokens, pos) {
        Ok(x) => x,
        Err(e) => {
            return Err(e);
        },
    };
    proof {
        assert(tokens@.len() == tokens.len());
        lemma_parse_factor_props(tokens@, pos as int);
    }
    parse_term_rest(tokens, p, lhs)
}

fn parse_term_rest(tokens: &Vec<Token>, pos: usize, lhs: ParseNode) -> (r: Result<
    (ParseNode, usize),
    ParserError,
>)
    requires
        pos <= tokens@.len(),
        lhs.depth < pos,
    ensures
        step_matches(r, spec_parse_term_rest(tokens@, pos as int, lhs)),
    decreases tokens@.len() - pos, 0int,
{
    if pos >= tokens.len() {
        return Ok((lhs, pos));
    }
    let t = tokens[pos];
    let terminal = match t {
        Token::OpMult => Terminal::Mult,
        Token::OpDiv => Terminal::Div,
        _ => {
            return Ok((lhs, pos));
        },
    };
    let (rhs, p2) = match parse_factor(tokens, pos + 1) {
        Ok(x) => x,
        Err(e) => {
            return Err(e);
        },
    };
    proof {
        lemma_parse_factor_props(tokens@, pos as int + 1);
    }
    let node = branch(terminal, NonTerminal::Term, lhs, rhs);
    parse_term_rest(tokens, p2, node)
}

fn parse_expr(tokens: &Vec<Token>, pos: usize) -> (r: Result<(ParseNode, usize), ParserError>)
    requires
        pos <= tokens@.len(),
    ensures
        step_matches(r, spec_parse_expr(tokens@, pos as int)),
    decreases tokens@.len() - pos, 3int,
{
    let (lhs, p) = match parse_term(tokens, pos) {
        Ok(x) => x,
        Err(e) => {
            return Err(e);
        },
    };
    proof {
        assert(tokens@.len() == tokens.len());
        lemma_parse_term_props(tokens@, pos as int);
    }
    parse_expr_rest(tokens, p, lhs)
}

fn parse_expr_rest(tokens: &Vec<Token>, pos: usize, lhs: ParseNode) -> (r: Result<
    (ParseNode, usize),
    ParserError,
>)
    requires
        pos <= tokens@.len(),
        lhs.depth < pos,
    ensures
        step_matches(r, spec_parse_expr_rest(tokens@, pos as int, lhs)),
    decreases tokens@.len() - pos, 0int,
{
    if pos >= tokens.len() {
        return Ok((lhs, pos));
    }
    let t = tokens[pos];
    let terminal = match t {
        Token::OpAdd => Terminal::Sum,
        Token::OpSub => Terminal::Sub,
        Token::OpMod => Terminal::Mod,
        _ => {
            return Ok((lhs, pos));
        },
    };
    let (rhs, p2) = match parse_term(tokens, pos + 1) {
        Ok(x) => x,
        Err(e) => {
            return Err(e);
        },
    };
    proof {
        lemma_parse_term_props(tokens@, pos as int + 1);
    }
    let node = branch(terminal, NonTerminal::Expression, lhs, rhs);
    parse_expr_rest(tokens, p2, node)
}

/// The parser: the syntax tree of the token sequence, or the first parse
/// fault; a lexer fault is passed through unchanged as a parser fault
/// carrying the same message, position and partial tokens.
///
/// The result is exactly what the ghost model `spec_parse` gives on the
/// view of the lexer outcome, and a returned tree is well-formed.
pub fn parse(tokens: Result<Vec<Token>, LexerError>) -> (r: Result<ParseNode, ParserError>)
    ensures
        parse_result_matches(r, spec_parse(lexed_view(tokens))),
        r matches Ok(node) ==> node.well_formed(),
{
    match tokens {
        Ok(toks) => {
            match parse_expr(&toks, 0) {
                Ok((mut node, p)) => {
                    proof {
                        lemma_parse_expr_props(toks@, 0);
                        lemma_parse_tokens_well_formed(toks@);
                    }
                    if p == toks.len() {
                        node.ntype = NodeType::Root;
                        Ok(node)
                    } else {
                        Err(expected_end_err(&toks[p], p))
                    }
                },
                Err(e) => Err(e),
            }
        },
        Err(e) => Err(
            ParserError { msg: e.msg, token_no: e.token_no, lexer: e.tokens },
        ),
    }
}

} // verus!
