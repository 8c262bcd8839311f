//! The lexer: turns the input text into a flat sequence of tokens, or a
//! `LexerError` naming the offending scan position and carrying the tokens
//! produced before the fault.
//!
//! The scan moves left to right, one logical step at a time: a maximal run
//! of decimal digits makes one `Number` token, each of the eight fixed
//! characters `+ - % * / ^ ( )` makes one token, a space is skipped, and
//! any other character stops the scan at once. Positions are 1-based and
//! counted in scan steps (tokens and skipped spaces), not in bytes.
//!
//! Number literals are signed 64-bit: a digit run whose value exceeds
//! `i64::MAX` is a lexical error, never a silent wrap or saturation.

use vstd::prelude::*;
use vstd::string::StrSliceExecFns;
use vstd::string::StringExecFns;

verus! {

/// An atomic lexical unit: an operator, a parenthesis, or an integer literal.
#[derive(Debug, Clone, Copy, PartialEq, Eq, Structural)]
pub enum Token {
    OpAdd,
    OpSub,
    OpMod,
    OpMult,
    OpDiv,
    OpExp,
    LeftParen,
    RightParen,
    Number(i64),
}

/// A lexical fault: a message, the 1-based scan step at which the scan
/// stopped, and the tokens produced before the fault (kept for error
/// position rendering).
#[derive(Debug)]
pub struct LexerError {
    pub msg: String,
    pub token_no: usize,
    pub tokens: Vec<Token>,
}

/// Ghost model of a lexer or parser fault: the message text, the position,
/// and the tokens produced before the fault.
pub struct SpecError {
    pub msg: Seq<char>,
    pub token_no: int,
    pub tokens: Seq<Token>,
}

/// Ghost model of a lexer outcome.
pub type SpecLexResult = Result<Seq<Token>, SpecError>;

/// Whether `c` is a decimal digit.
pub open spec fn is_digit(c: char) -> bool {
    '0' <= c && c <= '9'
}

/// The value of a decimal digit character.
pub open spec fn digit_val(c: char) -> int {
    c as int - '0' as int
}

/// The message of the fault at an unexpected character.
pub open spec fn unexpected_char_msg(c: char) -> Seq<char> {
    "Unexpected character `"@ + seq![c] + "'"@
}

/// The message of the fault at an integer literal beyond `i64::MAX`.
pub open spec fn literal_overflow_msg() -> Seq<char> {
    "Integer literal too large"@
}

/// Ghost model of the scan from character `i` on: `step` scan steps were
/// taken and `acc` tokens produced before `i`.
pub open spec fn spec_lex_from(s: Seq<char>, i: int, step: int, acc: Seq<Token>) -> SpecLexResult
    decreases s.len() - i, 0int,
{
    if i < 0 || i >= s.len() {
        Ok(acc)
    } else {
        let c = s[i];
        if is_digit(c) {
            spec_lex_number(s, i + 1, step + 1, acc, digit_val(c))
        } else if c == '+' {
            spec_lex_from(s, i + 1, step + 1, acc.push(Token::OpAdd))
        } else if c == '-' {
            spec_lex_from(s, i + 1, step + 1, acc.push(Token::OpSub))
        } else if c == '%' {
            spec_lex_from(s, i + 1, step + 1, acc.push(Token::OpMod))
        } else if c == '*' {
            spec_lex_from(s, i + 1, step + 1, acc.push(Token::OpMult))
        } else if c == '/' {
            spec_lex_from(s, i + 1, step + 1, acc.push(Token::OpDiv))
        } else if c == '^' {
            spec_lex_from(s, i + 1, step + 1, acc.push(Token::OpExp))
        } else if c == '(' {
            spec_lex_from(s, i + 1, step + 1, acc.push(Token::LeftParen))
        } else if c == ')' {
            spec_lex_from(s, i + 1, step + 1, acc.push(Token::RightParen))
        } else if c == ' ' {
            spec_lex_from(s, i + 1, step + 1, acc)
        } else {
            Err(SpecError { msg: unexpected_char_msg(c), token_no: step + 1, tokens: acc })
        }
    }
}

/// Ghost model of the scan inside a digit run that started at scan step
/// `step`, with the digits before `i` already accumulated into `val`.
pub open spec fn spec_lex_number(
    s: Seq<char>,
    i: int,
    step: int,
    acc: Seq<Token>,
    val: int,
) -> SpecLexResult
    decreases s.len() - i, 1int,
{
    if 0 <= i < s.len() && is_digit(s[i]) {
        let v2 = val * 10 + digit_val(s[i]);
        if v2 > i64::MAX {
            Err(SpecError { msg: literal_overflow_msg(), token_no: step, tokens: acc })
        } else {
            spec_lex_number(s, i + 1, step, acc, v2)
        }
    } else {
        spec_lex_from(s, i, step, acc.push(Token::Number(val as i64)))
    }
}

/// Ghost model of the whole lexer on the input text `s`.
pub open spec fn spec_lex(s: Seq<char>) -> SpecLexResult {
    spec_lex_from(s, 0, 0, Seq::empty())
}

/// The scan from `i` on adds at most one token per remaining character.
pub proof fn lemma_lex_from_bounded(s: Seq<char>, i: int, step: int, acc: Seq<Token>)
    requires
        0 <= i <= s.len(),
    ensures
        spec_lex_from(s, i, step, acc) matches Ok(t) ==> t.len() <= acc.len() + s.len() - i,
    decreases s.len() - i, 0int,
{
    if i < s.len() {
        let c = s[i];
        if is_digit(c) {
            lemma_lex_number_bounded(s, i + 1, step + 1, acc, digit_val(c));
        } else if c == '+' {
            lemma_lex_from_bounded(s, i + 1, step + 1, acc.push(Token::OpAdd));
        } else if c == '-' {
            lemma_lex_from_bounded(s, i + 1, step + 1, acc.push(Token::OpSub));
        } else if c == '%' {
            lemma_lex_from_bounded(s, i + 1, step + 1, acc.push(Token::OpMod));
        } else if c == '*' {
            lemma_lex_from_bounded(s, i + 1, step + 1, acc.push(Token::OpMult));
        } else if c == '/' {
            lemma_lex_from_bounded(s, i + 1, step + 1, acc.push(Token::OpDiv));
        } else if c == '^' {
            lemma_lex_from_bounded(s, i + 1, step + 1, acc.push(Token::OpExp));
        } else if c == '(' {
            lemma_lex_from_bounded(s, i + 1, step + 1, acc.push(Token::LeftParen));
        } else if c == ')' {
            lemma_lex_from_bounded(s, i + 1, step + 1, acc.push(Token::RightParen));
        } else if c == ' ' {
            lemma_lex_from_bounded(s, i + 1, step + 1, acc);
        }
    }
}

/// The scan inside a digit run adds one token for the run, then at most
/// one per remaining character.
pub proof fn lemma_lex_number_bounded(s: Seq<char>, i: int, step: int, acc: Seq<Token>, val: int)
    requires
        0 <= i <= s.len(),
    ensures
        spec_lex_number(s, i, step, acc, val) matches Ok(t) ==> t.len() <= acc.len() + 1 + (
        s.len() - i),
    decreases s.len() - i, 1int,
{
    if 0 <= i < s.len() && is_digit(s[i]) {
        let v2 = val * 10 + digit_val(s[i]);
        if v2 <= i64::MAX {
            lemma_lex_number_bounded(s, i + 1, step, acc, v2);
        }
    } else {
        lemma_lex_from_bounded(s, i, step, acc.push(Token::Number(val as i64)));
    }
}

/// The lexer never produces more tokens than the input has characters.
pub proof fn lemma_lex_tokens_bounded(s: Seq<char>)
    ensures
        spec_lex(s) matches Ok(t) ==> t.len() <= s.len(),
{
    lemma_lex_from_bounded(s, 0, 0, Seq::empty());
}

/// Whether two lexer outcomes carry the same tokens: equal token
/// sequences on success, and equal messages and partial tokens on
/// failure (the scan-step position may differ).
pub open spec fn lex_same_tokens(a: SpecLexResult, b: SpecLexResult) -> bool {
    match (a, b) {
        (Ok(t1), Ok(t2)) => t1 == t2,
        (Err(e1), Err(e2)) => e1.msg == e2.msg && e1.tokens == e2.tokens,
        _ => false,
    }
}

proof fn lemma_lex_from_shifted(
    s: Seq<char>,
    s2: Seq<char>,
    i: int,
    step: int,
    step2: int,
    acc: Seq<Token>,
)
    requires
        0 <= i <= s.len(),
        s2.len() == s.len() + 1,
        forall|j: int| i <= j < s.len() ==> s2[j + 1] == s[j],
    ensures
        lex_same_tokens(spec_lex_from(s, i, step, acc), spec_lex_from(s2, i + 1, step2, acc)),
    decreases s.len() - i, 0int,
{
    if i < s.len() {
        let c = s[i];
        assert(s2[i + 1] == c);
        if is_digit(c) {
            lemma_lex_number_shifted(s, s2, i + 1, step + 1, step2 + 1, acc, digit_val(c));
        } else if c == '+' {
            lemma_lex_from_shifted(s, s2, i + 1, step + 1, step2 + 1, acc.push(Token::OpAdd));
        } else if c == '-' {
            lemma_lex_from_shifted(s, s2, i + 1, step + 1, step2 + 1, acc.push(Token::OpSub));
        } else if c == '%' {
            lemma_lex_from_shifted(s, s2, i + 1, step + 1, step2 + 1, acc.push(Token::OpMod));
        } else if c == '*' {
            lemma_lex_from_shifted(s, s2, i + 1, step + 1, step2 + 1, acc.push(Token::OpMult));
        } else if c == '/' {
            lemma_lex_from_shifted(s, s2, i + 1, step + 1, step2 + 1, acc.push(Token::OpDiv));
        } else if c == '^' {
            lemma_lex_from_shifted(s, s2, i + 1, step + 1, step2 + 1, acc.push(Token::OpExp));
        } else if c == '(' {
            lemma_lex_from_shifted(s, s2, i + 1, step + 1, step2 + 1, acc.push(Token::LeftParen));
        } else if c == ')' {
            lemma_lex_from_shifted(
                s,
                s2,
                i + 1,
                step + 1,
                step2 + 1,
                acc.push(Token::RightParen),
            );
        } else if c == ' ' {
            lemma_lex_from_shifted(s, s2, i + 1, step + 1, step2 + 1, acc);
        }
    }
}

proof fn lemma_lex_number_shifted(
    s: Seq<char>,
    s2: Seq<char>,
    i: int,
    step: int,
    step2: int,
    acc: Seq<Token>,
    val: int,
)
    requires
        0 <= i <= s.len(),
        s2.len() == s.len() + 1,
        forall|j: int| i <= j < s.len() ==> s2[j + 1] == s[j],
    ensures
        lex_same_tokens(
            spec_lex_number(s, i, step, acc, val),
            spec_lex_number(s2, i + 1, step2, acc, val),
        ),
    decreases s.len() - i, 1int,
{
    if 0 <= i < s.len() && is_digit(s[i]) {
        assert(s2[i + 1] == s[i]);
        let v2 = val * 10 + digit_val(s[i]);
        if v2 <= i64::MAX {
            lemma_lex_number_shifted(s, s2, i + 1, step, step2, acc, v2);
        }
    } else {
        lemma_lex_from_shifted(s, s2, i, step, step2, acc.push(Token::Number(val as i64)));
    }
}

proof fn lemma_lex_from_prefix(
    s: Seq<char>,
    s2: Seq<char>,
    k: int,
    i: int,
    step: int,
    acc: Seq<Token>,
)
    requires
        0 <= i <= k <= s.len(),
        s2.len() == s.len() + 1,
        s2[k] == ' ',
        forall|j: int| 0 <= j < k ==> s2[j] == s[j],
        forall|j: int| k <= j < s.len() ==> s2[j + 1] == s[j],
        !(0 < k < s.len() && is_digit(s[k - 1]) && is_digit(s[k])),
    ensures
        lex_same_tokens(spec_lex_from(s, i, step, acc), spec_lex_from(s2, i, step, acc)),
    decreases k - i, 0int,
{
    if i == k {
        // the inserted space is skipped, and the suffixes align one apart
        lemma_lex_from_shifted(s, s2, k, step, step + 1, acc);
    } else {
        let c = s[i];
        assert(s2[i] == c);
        if is_digit(c) {
            lemma_lex_number_prefix(s, s2, k, i + 1, step + 1, acc, digit_val(c));
        } else if c == '+' {
            lemma_lex_from_prefix(s, s2, k, i + 1, step + 1, acc.push(Token::OpAdd));
        } else if c == '-' {
            lemma_lex_from_prefix(s, s2, k, i + 1, step + 1, acc.push(Token::OpSub));
        } else if c == '%' {
            lemma_lex_from_prefix(s, s2, k, i + 1, step + 1, acc.push(Token::OpMod));
        } else if c == '*' {
            lemma_lex_from_prefix(s, s2, k, i + 1, step + 1, acc.push(Token::OpMult));
        } else if c == '/' {
            lemma_lex_from_prefix(s, s2, k, i + 1, step + 1, acc.push(Token::OpDiv));
        } else if c == '^' {
            lemma_lex_from_prefix(s, s2, k, i + 1, step + 1, acc.push(Token::OpExp));
        } else if c == '(' {
            lemma_lex_from_prefix(s, s2, k, i + 1, step + 1, acc.push(Token::LeftParen));
        } else if c == ')' {
            lemma_lex_from_prefix(s, s2, k, i + 1, step + 1, acc.push(Token::RightParen));
        } else if c == ' ' {
            lemma_lex_from_prefix(s, s2, k, i + 1, step + 1, acc);
        }
    }
}

proof fn lemma_lex_number_prefix(
    s: Seq<char>,
    s2: Seq<char>,
    k: int,
    i: int,
    step: int,
    acc: Seq<Token>,
    val: int,
)
    requires
        0 < i <= k <= s.len(),
        is_digit(s[i - 1]),
        s2.len() == s.len() + 1,
        s2[k] == ' ',
        forall|j: int| 0 <= j < k ==> s2[j] == s[j],
        forall|j: int| k <= j < s.len() ==> s2[j + 1] == s[j],
        !(0 < k < s.len() && is_digit(s[k - 1]) && is_digit(s[k])),
    ensures
        lex_same_tokens(
            spec_lex_number(s, i, step, acc, val),
            spec_lex_number(s2, i, step, acc, val),
        ),
    decreases k - i, 1int,
{
    if i == k {
        // the space does not split a digit run, so the run ends at `k` in
        // both texts and the tail scans align from there
        assert(!(k < s.len() && is_digit(s[k])));
        lemma_lex_from_prefix(s, s2, k, k, step, acc.push(Token::Number(val as i64)));
    } else {
        assert(s2[i] == s[i]);
        if is_digit(s[i]) {
            let v2 = val * 10 + digit_val(s[i]);
            if v2 <= i64::MAX {
                lemma_lex_number_prefix(s, s2, k, i + 1, step, acc, v2);
            }
        } else {
            lemma_lex_from_prefix(s, s2, k, i, step, acc.push(Token::Number(val as i64)));
        }
    }
}

/// Whitespace insensitivity: inserting one space at any position that
/// does not split a digit run leaves the lexer's token sequence unchanged
/// — the same tokens on success, the same message and partial tokens on
/// failure (only the scan-step position of a fault can move).
pub proof fn lemma_lex_space_insensitive(s: Seq<char>, k: int)
    requires
        0 <= k <= s.len(),
        !(0 < k < s.len() && is_digit(s[k - 1]) && is_digit(s[k])),
    ensures
        lex_same_tokens(spec_lex(s), spec_lex(s.take(k).push(' ') + s.skip(k))),
{
    let s2 = s.take(k).push(' ') + s.skip(k);
    assert(s2.len() == s.len() + 1);
    assert(s2[k] == ' ');
    assert forall|j: int| 0 <= j < k implies s2[j] == s[j] by {
        assert(s2[j] == s.take(k)[j]);
    }
    assert forall|j: int| k <= j < s.len() implies s2[j + 1] == s[j] by {
        assert(s2[j + 1] == s.skip(k)[j - k]);
    }
    lemma_lex_from_prefix(s, s2, k, 0, 0, Seq::empty());
}

/// Whether the executable lexer outcome `r` is the one the model `m` gives.
pub open spec fn lex_result_matches(r: Result<Vec<Token>, LexerError>, m: SpecLexResult) -> bool {
    match r {
        Ok(v) => m matches Ok(toks) && v@ == toks,
        Err(e) => m matches Err(me) && e.msg@ == me.msg && e.token_no == me.token_no
            && e.tokens@ == me.tokens,
    }
}

fn unexpected_char_err(c: char, step: usize, acc: Vec<Token>) -> (e: LexerError)
    ensures
        e.msg@ == unexpected_char_msg(c),
        e.token_no == step,
        e.tokens@ == acc@,
{
    let mut msg = "Unexpected character `".to_owned();
    crate::text::push_char(&mut msg, c);
    msg.append("'");
    LexerError { msg, token_no: step, tokens: acc }
}

fn lex_from(s: &str, n: usize, i: usize, progress: usize, acc: Vec<Token>) -> (r: Result<
    Vec<Token>,
    LexerError,
>)
    requires
        n == s@.len(),
        i <= n,
        progress <= i,
    ensures
        lex_result_matches(r, spec_lex_from(s@, i as int, progress as int, acc@)),
    decreases n - i, 0int,
{
    if i >= n {
        return Ok(acc);
    }
    let c = s.get_char(i);
    if c >= '0' && c <= '9' {
        let d: i64 = (c as u32 - 48) as i64;
        assert(d == digit_val(c));
        lex_number(s, n, i + 1, progress + 1, acc, d)
    } else if c == '+' {
        let mut acc2 = acc;
        acc2.push(Token::OpAdd);
        lex_from(s, n, i + 1, progress + 1, acc2)
    } else if c == '-' {
        let mut acc2 = acc;
        acc2.push(Token::OpSub);
        lex_from(s, n, i + 1, progress + 1, acc2)
    } else if c == '%' {
        let mut acc2 = acc;
        acc2.push(Token::OpMod);
        lex_from(s, n, i + 1, progress + 1, acc2)
    } else if c == '*' {
        let mut acc2 = acc;
        acc2.push(Token::OpMult);
        lex_from(s, n, i + 1, progress + 1, acc2)
    } else if c == '/' {
        let mut acc2 = acc;
        acc2.push(Token::OpDiv);
        lex_from(s, n, i + 1, progress + 1, acc2)
    } else if c == '^' {
        let mut acc2 = acc;
        acc2.push(Token::OpExp);
        lex_from(s, n, i + 1, progress + 1, acc2)
    } else if c == '(' {
        let mut acc2 = acc;
        acc2.push(Token::LeftParen);
        lex_from(s, n, i + 1, progress + 1, acc2)
    } else if c == ')' {
        let mut acc2 = acc;
        acc2.push(Token::RightParen);
        lex_from(s, n, i + 1, progress + 1, acc2)
    } else if c == ' ' {
        lex_from(s, n, i + 1, progress + 1, acc)
    } else {
        Err(unexpected_char_err(c, progress + 1, acc))
    }
}

fn lex_number(s: &str, n: usize, i: usize, progress: usize, acc: Vec<Token>, val: i64) -> (r:
    Result<Vec<Token>, LexerError>)
    requires
        n == s@.len(),
        i <= n,
        progress <= i,
        val >= 0,
    ensures
        lex_result_matches(r, spec_lex_number(s@, i as int, progress as int, acc@, val as int)),
    decreases n - i, 1int,
{
    if i < n {
        let c = s.get_char(i);
        if c >= '0' && c <= '9' {
            let d: i64 = (c as u32 - 48) as i64;
            assert(d == digit_val(c));
            return match val.checked_mul(10) {
                None => Err(
                    LexerError {
                        msg: "Integer literal too large".to_owned(),
                        token_no: progress,
                        tokens: acc,
                    },
                ),
                Some(v10) => match v10.checked_add(d) {
                    None => Err(
                        LexerError {
                            msg: "Integer literal too large".to_owned(),
                            token_no: progress,
                            tokens: acc,
                        },
                    ),
                    Some(v2) => lex_number(s, n, i + 1, progress, acc, v2),
                },
            };
        }
    }
    let mut acc2 = acc;
    acc2.push(Token::Number(val));
    lex_from(s, n, i, progress, acc2)
}

/// The lexer: the token sequence of `input`, or the first lexical fault.
///
/// The result is exactly what the ghost model `spec_lex` gives on the
/// character sequence of `input`, on success and on failure alike.
pub fn lex(input: &String) -> (r: Result<Vec<Token>, LexerError>)
    ensures
        lex_result_matches(r, spec_lex(input@)),
{
    let s = input.as_str();
    let n: usize = s.unicode_len();
    lex_from(s, n, 0, 0, Vec::new())
}

} // verus!
