use vstd::prelude::*;

use crate::ast::{BinaryOp, Expr, ExprV, UnaryOp, expr_view};
use crate::lexer::str_chars;

verus! {

/// The character that `\c` stands for in a literal: `n`, `t`, `r`, `0` name control
/// characters; any other character stands for itself.
pub open spec fn escaped(c: char) -> char {
    if c == 'n' {
        '\n'
    } else if c == 't' {
        '\t'
    } else if c == 'r' {
        '\r'
    } else if c == '0' {
        '\0'
    } else {
        c
    }
}

/// The characters of a literal with its escapes replaced; a `\` at the very end stays.
pub open spec fn unescape(s: Seq<char>) -> Seq<char>
    decreases s.len(),
{
    if s.len() == 0 {
        Seq::empty()
    } else if s[0] == '\\' {
        if s.len() >= 2 {
            seq![escaped(s[1])] + unescape(s.skip(2))
        } else {
            seq!['\\']
        }
    } else {
        seq![s[0]] + unescape(s.skip(1))
    }
}

fn escaped_char(c: char) -> (r: char)
    ensures
        r == escaped(c),
{
    match c {
        'n' => '\n',
        't' => '\t',
        'r' => '\r',
        '\\' => '\\',
        '\'' => '\'',
        '"' => '"',
        '0' => '\0',
        _ => c,
    }
}

/// The characters of `s` with the escapes `\n`, `\t`, `\r`, `\\`, `\'`, `\"` and `\0`
/// replaced; see `unescape`.
pub fn parse_escapes(s: &str) -> (r: Vec<char>)
    ensures
        r@ == unescape(s@),
{
    let cs = str_chars(s);
    let mut result: Vec<char> = Vec::new();
    let mut i: usize = 0;
    proof {
        assert(cs@.skip(0) =~= cs@);
    }
    while i < cs.len()
        invariant
            i <= cs@.len(),
            cs@ == s@,
            result@ + unescape(cs@.skip(i as int)) == unescape(s@),
        decreases cs@.len() - i,
    {
        let ghost rest = cs@.skip(i as int);
        let c = cs[i];
        if c == '\\' {
            if i + 1 < cs.len() {
                result.push(escaped_char(cs[i + 1]));
                proof {
                    assert(rest.skip(2) =~= cs@.skip(i + 2));
                    assert(result@ + unescape(cs@.skip(i + 2)) =~= unescape(s@));
                }
                i = i + 2;
            } else {
                result.push('\\');
                proof {
                    assert(cs@.skip(i + 1) =~= Seq::<char>::empty());
                    assert(result@ + unescape(cs@.skip(i + 1)) =~= unescape(s@));
                }
                i = i + 1;
            }
        } else {
            result.push(c);
            proof {
                assert(rest.skip(1) =~= cs@.skip(i + 1));
                assert(result@ + unescape(cs@.skip(i + 1)) =~= unescape(s@));
            }
            i = i + 1;
        }
    }
    proof {
        assert(cs@.skip(i as int) =~= Seq::<char>::empty());
        assert(result@ =~= unescape(s@));
    }
    result
}

/// Division rounding toward zero, as Rust's integer division does (the quotient of the
/// magnitudes, negated when the dividend is negative; `/` on the right is Euclidean).
pub open spec fn trunc_div(a: int, b: int) -> int {
    if a >= 0 {
        a / b
    } else {
        -((-a) / b)
    }
}

/// The remainder that goes with `trunc_div`: it takes the sign of the dividend.
pub open spec fn trunc_rem(a: int, b: int) -> int {
    if a >= 0 {
        a % b
    } else {
        -((-a) % b)
    }
}

proof fn lemma_div_magnitude(a: int, b: int)
    requires
        a >= 0,
        b != 0,
    ensures
        -a <= a / b <= a,
        a > 0 && b != -1 ==> -a < a / b,
{
    if b > 0 {
        assert(0 <= a / b <= a) by (nonlinear_arith)
            requires
                a >= 0,
                b > 0,
        ;
    } else {
        assert(-a <= a / b <= 0) by (nonlinear_arith)
            requires
                a >= 0,
                b < 0,
        ;
        if a > 0 && b < -1 {
            assert(-a < a / b) by (nonlinear_arith)
                requires
                    a > 0,
                    b < -1,
            ;
        }
    }
}

/// The value of a constant integer expression: integer literals combined with negation
/// and the five arithmetic operators; `None` for anything else.
pub open spec fn spec_const_eval(e: ExprV) -> Option<int>
    decreases e,
{
    match e {
        ExprV::IntLiteral(n) => Some(n as int),
        ExprV::LongLiteral(n) => Some(n as int),
        ExprV::Unary { op: UnaryOp::Negate, expr, .. } => match spec_const_eval(*expr) {
            Some(v) => Some(-v),
            None => None,
        },
        ExprV::Binary { left, op, right, .. } => match spec_const_eval(*left) {
            Some(l) => match spec_const_eval(*right) {
                Some(r) => match op {
                    BinaryOp::Add => Some(l + r),
                    BinaryOp::Sub => Some(l - r),
                    BinaryOp::Mul => Some(l * r),
                    BinaryOp::Div => Some(trunc_div(l, r)),
                    BinaryOp::Mod => Some(trunc_rem(l, r)),
                    _ => None,
                },
                None => None,
            },
            None => None,
        },
        _ => None,
    }
}

pub open spec fn fits_i64(v: int) -> bool {
    i64::MIN <= v <= i64::MAX
}

/// Whether evaluating `e` with 64-bit arithmetic neither overflows nor divides by zero:
/// every value computed on the way fits in an `i64`, and no division or remainder has
/// a zero divisor or is `i64::MIN` by `-1`.
pub open spec fn const_eval_safe(e: ExprV) -> bool
    decreases e,
{
    match e {
        ExprV::Unary { op: UnaryOp::Negate, expr, .. } => const_eval_safe(*expr) && match spec_const_eval(*expr) {
            Some(v) => fits_i64(-v),
            None => true,
        },
        ExprV::Binary { left, op, right, .. } => const_eval_safe(*left) && match spec_const_eval(*left) {
            Some(l) => const_eval_safe(*right) && match spec_const_eval(*right) {
                Some(r) => match op {
                    BinaryOp::Add => fits_i64(l + r),
                    BinaryOp::Sub => fits_i64(l - r),
                    BinaryOp::Mul => fits_i64(l * r),
                    BinaryOp::Div | BinaryOp::Mod => r != 0 && !(l == i64::MIN && r == -1),
                    _ => true,
                },
                None => true,
            },
            None => true,
        },
        _ => true,
    }
}

/// The value of a constant integer expression; see `spec_const_eval`.
pub fn const_eval_int(expr: &Expr) -> (r: Option<i64>)
    requires
        const_eval_safe(expr@),
    ensures
        match spec_const_eval(expr@) {
            Some(v) => r == Some(v as i64) && fits_i64(v),
            None => r is None,
        },
    decreases expr,
{
    proof {
        reveal(expr_view);
    }
    match expr {
        Expr::IntLiteral(n) => Some(*n as i64),
        Expr::LongLiteral(n) => Some(*n),
        Expr::Unary { op: UnaryOp::Negate, expr, .. } => match const_eval_int(expr) {
            Some(v) => Some(-v),
            None => None,
        },
        Expr::Binary { left, op, right, .. } => {
            let l = match const_eval_int(left) {
                Some(l) => l,
                None => {
                    return None;
                },
            };
            let r = match const_eval_int(right) {
                Some(r) => r,
                None => {
                    return None;
                },
            };
            match op {
                BinaryOp::Add => Some(l + r),
                BinaryOp::Sub => Some(l - r),
                BinaryOp::Mul => Some(l * r),
                BinaryOp::Div => {
                    proof {
                        if l >= 0 {
                            lemma_div_magnitude(l as int, r as int);
                        } else {
                            lemma_div_magnitude(-(l as int), r as int);
                        }
                    }
                    let q = l / r;
                    Some(q)
                },
                BinaryOp::Mod => {
                    let m = l % r;
                    Some(m)
                },
                _ => None,
            }
        },
        _ => None,
    }
}

} // verus!
