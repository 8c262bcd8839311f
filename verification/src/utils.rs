//! Helpers around the core pipeline: the configuration a front end hands
//! in, and the width computation used to place a caret under the offending
//! spot of an input line.

use vstd::prelude::*;
use vstd::string::StrSliceExecFns;

use crate::lexer::Token;
use crate::text::{i64_to_string, spec_i64_str};

verus! {

/// What a front end decides before the core runs: the expression to
/// evaluate (empty for an interactive session), whether to print debug
/// output, and whether and where to write a graph of the tree.
pub struct Config {
    pub expression: String,
    pub is_debug: bool,
    pub make_graph: bool,
    pub graph_file: String,
    pub progname: String,
}

/// The width of one token as the input shows it: the number of digits of
/// a literal, one character for everything else.
pub open spec fn spec_token_width(t: Token) -> int {
    match t {
        Token::Number(n) => spec_i64_str(n as int).len() as int,
        _ => 1,
    }
}

/// The total width of a token sequence: where the scan stopped, counted
/// in characters of the input (spaces aside).
pub open spec fn spec_position(toks: Seq<Token>) -> int
    decreases toks.len(),
{
    if toks.len() == 0 {
        0
    } else {
        spec_position(toks.drop_last()) + spec_token_width(toks.last())
    }
}

/// Every token is at least one character wide.
pub proof fn lemma_token_width_positive(t: Token)
    ensures
        spec_token_width(t) >= 1,
{
    match t {
        Token::Number(n) => {
            if n < 0 {
                crate::text::lemma_nat_digits_nonempty((-(n as int)) as nat);
            } else {
                crate::text::lemma_nat_digits_nonempty(n as nat);
            }
        },
        _ => {},
    }
}

/// The width of a token sequence, used to place the error caret: each
/// literal counts its digits, every other token one character. A width
/// beyond `usize` saturates at `usize::MAX` instead of wrapping; for any
/// sequence a real input can produce the result is exact.
pub fn get_position(vec: Vec<Token>) -> (pos: usize)
    ensures
        pos <= spec_position(vec@),
        spec_position(vec@) <= usize::MAX ==> pos == spec_position(vec@),
{
    let mut pos: usize = 0;
    let mut i: usize = 0;
    while i < vec.len()
        invariant
            i <= vec@.len(),
            pos <= spec_position(vec@.take(i as int)),
            spec_position(vec@.take(i as int)) <= usize::MAX ==> pos == spec_position(
                vec@.take(i as int),
            ),
        decreases vec@.len() - i,
    {
        let w: usize = match &vec[i] {
            Token::Number(n) => {
                let s = i64_to_string(*n);
                s.as_str().unicode_len()
            },
            _ => 1,
        };
        proof {
            assert(vec@.take(i as int + 1).drop_last() =~= vec@.take(i as int));
            assert(vec@.take(i as int + 1).last() == vec@[i as int]);
            lemma_token_width_positive(vec@[i as int]);
        }
        pos = pos.saturating_add(w);
        i = i + 1;
    }
    proof {
        assert(vec@.take(vec@.len() as int) =~= vec@);
    }
    pos
}

} // verus!
