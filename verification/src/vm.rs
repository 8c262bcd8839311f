//! The evaluator: walks the syntax tree bottom-up and reduces it to a
//! single signed 64-bit integer, or a structured `EvalError`.
//!
//! Operator semantics over `i64`:
//! - `+`, `-`, `*` are checked: a result outside the `i64` range is
//!   `EvalError::Overflow`, never a wrap or a panic.
//! - `/` is integer division truncating toward zero, `%` the matching
//!   remainder whose sign follows the dividend; a zero right operand is
//!   `EvalError::DivisionByZero` or `EvalError::ModuloByZero`, and
//!   `i64::MIN / -1` (or `% -1`) is `EvalError::Overflow`.
//! - `^` is exponentiation with a non-negative exponent; a negative
//!   exponent is `EvalError::NegativeExponent`, a result outside the
//!   `i64` range is `EvalError::Overflow`, and `0 ^ 0` is 1.
//!
//! Evaluation has no side effects: the result is exactly what the ghost
//! model `spec_eval` gives, so the same tree always yields the same value
//! or the same error.

use vstd::arithmetic::div_mod::{lemma_fundamental_div_mod, lemma_mod_bound};
use vstd::arithmetic::power::pow;
use vstd::math::abs;
use vstd::prelude::*;

use crate::parser::{ParseNode, Terminal};

verus! {

/// A runtime evaluation fault.
#[derive(Debug, Clone, Copy, PartialEq, Eq, Structural)]
pub enum EvalError {
    DivisionByZero,
    ModuloByZero,
    Overflow,
    NegativeExponent,
}

/// Integer division truncating toward zero, as the `/` of the language
/// (and of Rust's `i64`) rounds.
pub open spec fn div_trunc(a: int, b: int) -> int
    recommends
        b != 0,
{
    if a == 0 {
        0
    } else if a > 0 && b > 0 {
        a / b
    } else if a < 0 && b < 0 {
        (-a) / (-b)
    } else if a < 0 {
        -((-a) / b)
    } else {
        -(a / (-b))
    }
}

/// The remainder matching `div_trunc`: its sign follows the dividend, and
/// `a == b * div_trunc(a, b) + rem_trunc(a, b)`.
pub open spec fn rem_trunc(a: int, b: int) -> int
    recommends
        b != 0,
{
    if a == 0 {
        0
    } else if a > 0 && b > 0 {
        a % b
    } else if a < 0 && b < 0 {
        -((-a) % (-b))
    } else if a < 0 {
        -((-a) % b)
    } else {
        a % (-b)
    }
}

/// The truncating division and its remainder obey the division identity,
/// the remainder's sign follows the dividend, and its magnitude stays
/// under the divisor's.
pub proof fn lemma_div_rem_trunc(a: int, b: int)
    requires
        b != 0,
    ensures
        a == b * div_trunc(a, b) + rem_trunc(a, b),
        a >= 0 ==> rem_trunc(a, b) >= 0,
        a <= 0 ==> rem_trunc(a, b) <= 0,
        abs(rem_trunc(a, b)) < abs(b),
{
    if a == 0 {
    } else if a > 0 && b > 0 {
        lemma_fundamental_div_mod(a, b);
        lemma_mod_bound(a, b);
    } else if a < 0 && b < 0 {
        lemma_fundamental_div_mod(-a, -b);
        lemma_mod_bound(-a, -b);
        assert((-b) * ((-a) / (-b)) == -(b * ((-a) / (-b)))) by (nonlinear_arith);
    } else if a < 0 {
        lemma_fundamental_div_mod(-a, b);
        lemma_mod_bound(-a, b);
        assert(b * (-((-a) / b)) == -(b * ((-a) / b))) by (nonlinear_arith);
    } else {
        lemma_fundamental_div_mod(a, -b);
        lemma_mod_bound(a, -b);
        assert(b * (-(a / (-b))) == (-b) * (a / (-b))) by (nonlinear_arith);
    }
}

/// The outcome of `base ^ exponent` over `i64`: a negative exponent is
/// rejected, a result beyond the `i64` range is an overflow.
pub open spec fn spec_pow_result(base: i64, exponent: i64) -> Result<i64, EvalError> {
    if exponent < 0 {
        Err(EvalError::NegativeExponent)
    } else {
        let p = pow(base as int, exponent as nat);
        if p > i64::MAX || p < i64::MIN {
            Err(EvalError::Overflow)
        } else {
            Ok(p as i64)
        }
    }
}

/// The outcome of one binary operator on two already-reduced values.
pub open spec fn spec_apply_op(t: Terminal, a: i64, b: i64) -> Result<i64, EvalError>
    recommends
        !(t is Literal),
        !(t is Paren),
{
    match t {
        Terminal::Sum => if a + b > i64::MAX || a + b < i64::MIN {
            Err(EvalError::Overflow)
        } else {
            Ok((a + b) as i64)
        },
        Terminal::Sub => if a - b > i64::MAX || a - b < i64::MIN {
            Err(EvalError::Overflow)
        } else {
            Ok((a - b) as i64)
        },
        Terminal::Mult => if a * b > i64::MAX || a * b < i64::MIN {
            Err(EvalError::Overflow)
        } else {
            Ok((a * b) as i64)
        },
        Terminal::Div => if b == 0 {
            Err(EvalError::DivisionByZero)
        } else if div_trunc(a as int, b as int) > i64::MAX || div_trunc(a as int, b as int)
            < i64::MIN {
            Err(EvalError::Overflow)
        } else {
            Ok(div_trunc(a as int, b as int) as i64)
        },
        Terminal::Mod => if b == 0 {
            Err(EvalError::ModuloByZero)
        } else if a == i64::MIN && b == -1 {
            Err(EvalError::Overflow)
        } else {
            Ok(rem_trunc(a as int, b as int) as i64)
        },
        Terminal::Exp => spec_pow_result(a, b),
        _ => arbitrary(),
    }
}

/// Ghost model of the evaluator: a literal is its value, a parenthesis
/// node is its child's value, and any other node reduces its left child,
/// then its right child, then applies its operator; the first fault wins.
pub open spec fn spec_eval(n: ParseNode) -> Result<i64, EvalError>
    recommends
        n.well_formed(),
    decreases n,
{
    match n.terminal {
        Terminal::Literal(v) => Ok(v),
        Terminal::Paren => match n.left_child {
            Some(c) => spec_eval(*c),
            None => arbitrary(),
        },
        _ => match n.left_child {
            Some(l) => match n.right_child {
                Some(r) => match spec_eval(*l) {
                    Ok(a) => match spec_eval(*r) {
                        Ok(b) => spec_apply_op(n.terminal, a, b),
                        Err(e) => Err(e),
                    },
                    Err(e) => Err(e),
                },
                None => arbitrary(),
            },
            None => arbitrary(),
        },
    }
}

/// The magnitude of a product is the product of the magnitudes.
proof fn lemma_abs_mul(x: int, y: int)
    ensures
        abs(x * y) == abs(x) * abs(y),
{
    if x >= 0 && y >= 0 {
        assert(x * y >= 0) by (nonlinear_arith)
            requires
                x >= 0 && y >= 0,
        ;
    } else if x >= 0 && y < 0 {
        assert(x * y <= 0 && x * y == -(x * -y)) by (nonlinear_arith)
            requires
                x >= 0 && y < 0,
        ;
    } else if x < 0 && y >= 0 {
        assert(x * y <= 0 && x * y == -(-x * y)) by (nonlinear_arith)
            requires
                x < 0 && y >= 0,
        ;
    } else {
        assert(x * y >= 0 && x * y == -x * -y) by (nonlinear_arith)
            requires
                x < 0 && y < 0,
        ;
    }
}

/// A base of magnitude at most 1 keeps every power's magnitude at most 1.
proof fn lemma_pow_small(a: int, e: nat)
    requires
        abs(a) <= 1,
    ensures
        abs(pow(a, e)) <= 1,
    decreases e,
{
    reveal(pow);
    if e > 0 {
        lemma_pow_small(a, (e - 1) as nat);
        lemma_abs_mul(a, pow(a, (e - 1) as nat));
        assert(abs(a) * abs(pow(a, (e - 1) as nat)) <= 1) by (nonlinear_arith)
            requires
                abs(a) <= 1 && abs(pow(a, (e - 1) as nat)) <= 1,
        ;
    }
}

/// Once a power of `a` leaves the `i64` range, every later power stays
/// outside it: the magnitude can only grow, by a factor of at least 2.
proof fn lemma_pow_out_of_range(a: int, j: nat, e: nat)
    requires
        j <= e,
        pow(a, j) > i64::MAX || pow(a, j) < i64::MIN,
    ensures
        pow(a, e) > i64::MAX || pow(a, e) < i64::MIN,
    decreases e - j,
{
    reveal(pow);
    if j < e {
        if abs(a) <= 1 {
            lemma_pow_small(a, j);
            assert(false);
        }
        let p = pow(a, j);
        assert(pow(a, (j + 1) as nat) == a * p);
        lemma_abs_mul(a, p);
        assert(abs(a) * abs(p) >= 2 * abs(p)) by (nonlinear_arith)
            requires
                abs(a) >= 2,
        ;
        assert(abs(p) >= 0x8000_0000_0000_0000);
        assert(pow(a, (j + 1) as nat) > i64::MAX || pow(a, (j + 1) as nat) < i64::MIN);
        lemma_pow_out_of_range(a, (j + 1) as nat, e);
    }
}

fn eval_pow(base: i64, exponent: i64) -> (r: Result<i64, EvalError>)
    ensures
        r == spec_pow_result(base, exponent),
{
    if exponent < 0 {
        return Err(EvalError::NegativeExponent);
    }
    let e: u64 = exponent as u64;
    let mut result: i64 = 1;
    let mut k: u64 = 0;
    proof {
        reveal(pow);
        assert(pow(base as int, 0) == 1);
    }
    while k < e
        invariant
            k <= e,
            e == exponent,
            result == pow(base as int, k as nat),
        decreases e - k,
    {
        match result.checked_mul(base) {
            None => {
                proof {
                    reveal(pow);
                    assert(pow(base as int, (k + 1) as nat) == (base as int) * pow(
                        base as int,
                        k as nat,
                    ));
                    lemma_pow_out_of_range(base as int, (k + 1) as nat, exponent as nat);
                }
                return Err(EvalError::Overflow);
            },
            Some(x) => {
                proof {
                    reveal(pow);
                    assert(pow(base as int, (k + 1) as nat) == (base as int) * pow(
                        base as int,
                        k as nat,
                    ));
                }
                result = x;
                k = k + 1;
            },
        }
    }
    Ok(result)
}

fn apply_op(t: &Terminal, a: i64, b: i64) -> (r: Result<i64, EvalError>)
    requires
        !(*t is Literal),
        !(*t is Paren),
    ensures
        r == spec_apply_op(*t, a, b),
{
    match t {
        Terminal::Sum => match a.checked_add(b) {
            Some(v) => Ok(v),
            None => Err(EvalError::Overflow),
        },
        Terminal::Sub => match a.checked_sub(b) {
            Some(v) => Ok(v),
            None => Err(EvalError::Overflow),
        },
        Terminal::Mult => match a.checked_mul(b) {
            Some(v) => Ok(v),
            None => Err(EvalError::Overflow),
        },
        Terminal::Div => {
            if b == 0 {
                Err(EvalError::DivisionByZero)
            } else {
                match a.checked_div(b) {
                    Some(v) => Ok(v),
                    None => Err(EvalError::Overflow),
                }
            }
        },
        Terminal::Mod => {
            if b == 0 {
                Err(EvalError::ModuloByZero)
            } else {
                match a.checked_rem(b) {
                    Some(v) => Ok(v),
                    None => Err(EvalError::Overflow),
                }
            }
        },
        Terminal::Exp => eval_pow(a, b),
        _ => unreached(),
    }
}

/// The evaluator: the value of a well-formed syntax tree, or the first
/// evaluation fault, exactly as the ghost model `spec_eval` gives it.
pub fn evaluate(node: &ParseNode) -> (r: Result<i64, EvalError>)
    requires
        node.well_formed(),
    ensures
        r == spec_eval(*node),
    decreases *node,
{
    match &node.terminal {
        Terminal::Literal(v) => Ok(*v),
        Terminal::Paren => match &node.left_child {
            Some(c) => evaluate(c),
            None => unreached(),
        },
        _ => match &node.left_child {
            Some(l) => match &node.right_child {
                Some(r) => {
                    let a = match evaluate(l) {
                        Ok(v) => v,
                        Err(e) => {
                            return Err(e);
                        },
                    };
                    let b = match evaluate(r) {
                        Ok(v) => v,
                        Err(e) => {
                            return Err(e);
                        },
                    };
                    apply_op(&node.terminal, a, b)
                },
                None => unreached(),
            },
            None => unreached(),
        },
    }
}

/// The keywords the interactive session interprets alongside expressions.
pub struct Keywords {
    pub quit: Vec<String>,
}

/// The keyword table of the interactive session: the words that end it.
pub fn init() -> (k: Keywords)
    ensures
        k.quit@.len() == 2,
        k.quit@[0]@ == "quit"@,
        k.quit@[1]@ == "q"@,
{
    let mut quit: Vec<String> = Vec::new();
    quit.push("quit".to_owned());
    quit.push("q".to_owned());
    Keywords { quit }
}

/// Whether `s` equals one of the strings of `s_vec`.
pub fn matches_any(s: &String, s_vec: &Vec<String>) -> (m: bool)
    ensures
        m == exists|i: int| 0 <= i < s_vec@.len() && s_vec@[i]@ == s@,
{
    let mut i: usize = 0;
    while i < s_vec.len()
        invariant
            i <= s_vec@.len(),
            forall|j: int| 0 <= j < i ==> s_vec@[j]@ != s@,
        decreases s_vec@.len() - i,
    {
        if s.eq(&s_vec[i]) {
            return true;
        }
        i = i + 1;
    }
    false
}

} // verus!
