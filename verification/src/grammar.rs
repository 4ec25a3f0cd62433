use vstd::prelude::*;

use crate::ast::{BinaryOp, ExprV, array_literal_of, Type, fields_view, lemma_struct_view, StmtV, TypeV, UnaryOp, assign_to, literal_expr, literal_type, spec_get_type};
use crate::token::{TokenType, TokenTypeV, TokenV, same_kind};

verus! {

/// The model of a `ParseError`.
pub enum ParseErrorV {
    Expected { expected: TokenTypeV, found: TokenV, message: Seq<char> },
    UnexpectedToken(TokenV),
    InvalidCallTarget,
    InvalidAssignmentTarget,
}

/// The result of parsing from a position: a value and the position after it, or an error.
pub enum PR<T> {
    Done(T, int),
    Fail(ParseErrorV),
}

/// Tokens the parser accepts: a non-empty list whose last token is `Eof`.
pub open spec fn valid_tokens(t: Seq<TokenV>) -> bool {
    t.len() > 0 && t.last().token_type is Eof
}

pub open spec fn at_end(t: Seq<TokenV>, p: int) -> bool {
    p >= t.len() || t[p].token_type is Eof
}

/// The token at `p` has the same kind as `k`, and is not the end.
pub open spec fn chk(t: Seq<TokenV>, p: int, k: TokenTypeV) -> bool {
    !at_end(t, p) && same_kind(t[p].token_type, k)
}

/// How many tokens are left from `p`; the measure the parse functions recurse on.
pub open spec fn rem(t: Seq<TokenV>, p: int) -> int {
    if p <= t.len() {
        t.len() - p
    } else {
        0
    }
}

/// The position after advancing once from `p`.
pub open spec fn adv(t: Seq<TokenV>, p: int) -> int {
    if !at_end(t, p) {
        p + 1
    } else {
        p
    }
}

pub open spec fn expected(t: Seq<TokenV>, p: int, k: TokenTypeV, msg: Seq<char>) -> ParseErrorV {
    ParseErrorV::Expected { expected: k, found: t[p], message: msg }
}

/// Taking a token of kind `k` at `p`, or the error with `msg`.
pub open spec fn sp_consume(t: Seq<TokenV>, p: int, k: TokenTypeV, msg: Seq<char>) -> PR<TokenV> {
    if chk(t, p, k) {
        PR::Done(t[p], p + 1)
    } else {
        PR::Fail(expected(t, p, k, msg))
    }
}

pub open spec fn unknown() -> TypeV {
    TypeV::Unknown
}

// Parse positions never move backwards; where a spec function below tests
// `q <= p` (or `q < p`) on a position `q` it got back, that branch is never taken.
// The tests only make the termination of the definitions evident.

/// A type: `int`, `float`, `bool`, `void`, `char`, `long` or a struct name, followed by
/// any number of `*`; or `[elem]`, or `[elem, n]`.
pub open spec fn sp_parse_type(t: Seq<TokenV>, p: int) -> PR<TypeV>
    decreases rem(t, p), 5int,
{
    if chk(t, p, TokenTypeV::LeftBracket) {
        match sp_parse_type(t, p + 1) {
            PR::Fail(e) => PR::Fail(e),
            PR::Done(elem, p2) => if p2 <= p {
                PR::Fail(ParseErrorV::InvalidCallTarget)
            } else if chk(t, p2, TokenTypeV::RightBracket) {
                PR::Done(TypeV::Array(Box::new(elem), None), p2 + 1)
            } else {
                match sp_consume(t, p2, TokenTypeV::Comma, "Expected ',' after element type or ']' for slice"@) {
                    PR::Fail(e) => PR::Fail(e),
                    PR::Done(_, p3) => match sp_consume(t, p3, TokenTypeV::IntLiteral(0), "Expected array size"@) {
                        PR::Fail(e) => PR::Fail(e),
                        PR::Done(tok, p4) => match tok.token_type {
                            TokenTypeV::IntLiteral(n) => match sp_consume(t, p4, TokenTypeV::RightBracket, "Expected ']' after array size"@) {
                                PR::Fail(e) => PR::Fail(e),
                                PR::Done(_, p5) => PR::Done(TypeV::Array(Box::new(elem), Some(n as usize)), p5),
                            },
                            _ => PR::Fail(ParseErrorV::UnexpectedToken(tok)),
                        },
                    },
                }
            },
        }
    } else {
        let base = base_type_kind(t[p].token_type);
        match base {
            None => PR::Fail(ParseErrorV::UnexpectedToken(t[p])),
            Some(b) => sp_stars(t, p + 1, b),
        }
    }
}

/// The type a type name stands for: a primitive type, or a struct named by an identifier.
#[verifier::opaque]
pub open spec fn base_type_kind(k: TokenTypeV) -> Option<TypeV> {
    match k {
        TokenTypeV::Int => Some(TypeV::Int),
        TokenTypeV::Float => Some(TypeV::Float),
        TokenTypeV::Boolean => Some(TypeV::Bool),
        TokenTypeV::Void => Some(TypeV::Void),
        TokenTypeV::Char => Some(TypeV::Char),
        TokenTypeV::Long => Some(TypeV::Long),
        TokenTypeV::Identifier(name) => Some(TypeV::Struct { name, instances: Seq::empty() }),
        _ => None,
    }
}

/// Any number of `*`, each making a pointer to the type so far.
pub open spec fn sp_stars(t: Seq<TokenV>, p: int, base: TypeV) -> PR<TypeV>
    decreases rem(t, p), 4int,
{
    if chk(t, p, TokenTypeV::Star) {
        sp_stars(t, p + 1, TypeV::Pointer(Box::new(base)))
    } else {
        PR::Done(base, p)
    }
}

pub open spec fn bin(left: ExprV, op: BinaryOp, right: ExprV) -> ExprV {
    ExprV::Binary { left: Box::new(left), op, right: Box::new(right), result_type: unknown() }
}

/// An expression.
pub open spec fn sp_expression(t: Seq<TokenV>, p: int) -> PR<ExprV>
    decreases rem(t, p), 40int,
{
    sp_assignment(t, p)
}


/// An assignment `target = value`, right-associative, or an `||` expression.
pub open spec fn sp_assignment(t: Seq<TokenV>, p: int) -> PR<ExprV>
    decreases rem(t, p), 39int,
{
    match sp_logic_or(t, p) {
        PR::Fail(e) => PR::Fail(e),
        PR::Done(expr, p1) => if p1 < p {
            PR::Fail(ParseErrorV::InvalidCallTarget)
        } else {
            sp_assign_tail(t, p1, expr)
        },
    }
}

/// After a target at `p`: `= value` makes an assignment, anything else leaves the target.
pub open spec fn sp_assign_tail(t: Seq<TokenV>, p: int, target: ExprV) -> PR<ExprV>
    decreases rem(t, p), 38int,
{
    if chk(t, p, TokenTypeV::Equal) {
        match sp_assignment(t, p + 1) {
            PR::Fail(e) => PR::Fail(e),
            PR::Done(value, q) => match assign_to(target, value) {
                Some(a) => PR::Done(a, q),
                None => PR::Fail(ParseErrorV::InvalidAssignmentTarget),
            },
        }
    } else {
        PR::Done(target, p)
    }
}

pub open spec fn sp_logic_or(t: Seq<TokenV>, p: int) -> PR<ExprV>
    decreases rem(t, p), 38int,
{
    match sp_logic_and(t, p) {
        PR::Fail(e) => PR::Fail(e),
        PR::Done(e, q) => if q < p {
            PR::Fail(ParseErrorV::InvalidCallTarget)
        } else {
            sp_or_rest(t, q, e)
        },
    }
}

pub open spec fn sp_or_rest(t: Seq<TokenV>, p: int, left: ExprV) -> PR<ExprV>
    decreases rem(t, p), 37int,
{
    if chk(t, p, TokenTypeV::Or) {
        match sp_logic_and(t, p + 1) {
            PR::Fail(e) => PR::Fail(e),
            PR::Done(r, q) => if q <= p {
                PR::Fail(ParseErrorV::InvalidCallTarget)
            } else {
                sp_or_rest(t, q, bin(left, BinaryOp::Or, r))
            },
        }
    } else {
        PR::Done(left, p)
    }
}

pub open spec fn sp_logic_and(t: Seq<TokenV>, p: int) -> PR<ExprV>
    decreases rem(t, p), 36int,
{
    match sp_equality(t, p) {
        PR::Fail(e) => PR::Fail(e),
        PR::Done(e, q) => if q < p {
            PR::Fail(ParseErrorV::InvalidCallTarget)
        } else {
            sp_and_rest(t, q, e)
        },
    }
}

pub open spec fn sp_and_rest(t: Seq<TokenV>, p: int, left: ExprV) -> PR<ExprV>
    decreases rem(t, p), 35int,
{
    if chk(t, p, TokenTypeV::And) {
        match sp_equality(t, p + 1) {
            PR::Fail(e) => PR::Fail(e),
            PR::Done(r, q) => if q <= p {
                PR::Fail(ParseErrorV::InvalidCallTarget)
            } else {
                sp_and_rest(t, q, bin(left, BinaryOp::And, r))
            },
        }
    } else {
        PR::Done(left, p)
    }
}

pub open spec fn sp_equality(t: Seq<TokenV>, p: int) -> PR<ExprV>
    decreases rem(t, p), 34int,
{
    match sp_comparison(t, p) {
        PR::Fail(e) => PR::Fail(e),
        PR::Done(e, q) => if q < p {
            PR::Fail(ParseErrorV::InvalidCallTarget)
        } else {
            sp_equality_rest(t, q, e)
        },
    }
}

pub open spec fn sp_equality_rest(t: Seq<TokenV>, p: int, left: ExprV) -> PR<ExprV>
    decreases rem(t, p), 33int,
{
    if chk(t, p, TokenTypeV::EqualEqual) || chk(t, p, TokenTypeV::BangEqual) {
        let op = if chk(t, p, TokenTypeV::EqualEqual) {
            BinaryOp::Equal
        } else {
            BinaryOp::NotEqual
        };
        match sp_comparison(t, p + 1) {
            PR::Fail(e) => PR::Fail(e),
            PR::Done(r, q) => if q <= p {
                PR::Fail(ParseErrorV::InvalidCallTarget)
            } else {
                sp_equality_rest(t, q, bin(left, op, r))
            },
        }
    } else {
        PR::Done(left, p)
    }
}

pub open spec fn sp_comparison(t: Seq<TokenV>, p: int) -> PR<ExprV>
    decreases rem(t, p), 32int,
{
    match sp_term(t, p) {
        PR::Fail(e) => PR::Fail(e),
        PR::Done(e, q) => if q < p {
            PR::Fail(ParseErrorV::InvalidCallTarget)
        } else {
            sp_comparison_rest(t, q, e)
        },
    }
}

#[verifier::opaque]
pub open spec fn comparison_op(k: TokenTypeV) -> Option<BinaryOp> {
    match k {
        TokenTypeV::Greater => Some(BinaryOp::Greater),
        TokenTypeV::GreaterEqual => Some(BinaryOp::GreaterEqual),
        TokenTypeV::Less => Some(BinaryOp::Less),
        TokenTypeV::LessEqual => Some(BinaryOp::LessEqual),
        _ => None,
    }
}

pub open spec fn sp_comparison_rest(t: Seq<TokenV>, p: int, left: ExprV) -> PR<ExprV>
    decreases rem(t, p), 31int,
{
    if !at_end(t, p) && comparison_op(t[p].token_type) is Some {
        match sp_term(t, p + 1) {
            PR::Fail(e) => PR::Fail(e),
            PR::Done(r, q) => if q <= p {
                PR::Fail(ParseErrorV::InvalidCallTarget)
            } else {
                sp_comparison_rest(t, q, bin(left, comparison_op(t[p].token_type)->0, r))
            },
        }
    } else {
        PR::Done(left, p)
    }
}

pub open spec fn sp_term(t: Seq<TokenV>, p: int) -> PR<ExprV>
    decreases rem(t, p), 30int,
{
    match sp_factor(t, p) {
        PR::Fail(e) => PR::Fail(e),
        PR::Done(e, q) => if q < p {
            PR::Fail(ParseErrorV::InvalidCallTarget)
        } else {
            sp_term_rest(t, q, e)
        },
    }
}

pub open spec fn sp_term_rest(t: Seq<TokenV>, p: int, left: ExprV) -> PR<ExprV>
    decreases rem(t, p), 29int,
{
    if chk(t, p, TokenTypeV::Plus) || chk(t, p, TokenTypeV::Minus) {
        let op = if chk(t, p, TokenTypeV::Plus) {
            BinaryOp::Add
        } else {
            BinaryOp::Sub
        };
        match sp_factor(t, p + 1) {
            PR::Fail(e) => PR::Fail(e),
            PR::Done(r, q) => if q <= p {
                PR::Fail(ParseErrorV::InvalidCallTarget)
            } else {
                sp_term_rest(t, q, bin(left, op, r))
            },
        }
    } else {
        PR::Done(left, p)
    }
}

pub open spec fn sp_factor(t: Seq<TokenV>, p: int) -> PR<ExprV>
    decreases rem(t, p), 28int,
{
    match sp_unary(t, p) {
        PR::Fail(e) => PR::Fail(e),
        PR::Done(e, q) => if q < p {
            PR::Fail(ParseErrorV::InvalidCallTarget)
        } else {
            sp_factor_rest(t, q, e)
        },
    }
}

pub open spec fn sp_factor_rest(t: Seq<TokenV>, p: int, left: ExprV) -> PR<ExprV>
    decreases rem(t, p), 27int,
{
    if chk(t, p, TokenTypeV::Slash) || chk(t, p, TokenTypeV::Star) {
        let op = if chk(t, p, TokenTypeV::Slash) {
            BinaryOp::Div
        } else {
            BinaryOp::Mul
        };
        match sp_unary(t, p + 1) {
            PR::Fail(e) => PR::Fail(e),
            PR::Done(r, q) => if q <= p {
                PR::Fail(ParseErrorV::InvalidCallTarget)
            } else {
                sp_factor_rest(t, q, bin(left, op, r))
            },
        }
    } else {
        PR::Done(left, p)
    }
}

#[verifier::opaque]
pub open spec fn unary_op(k: TokenTypeV) -> Option<UnaryOp> {
    match k {
        TokenTypeV::Bang => Some(UnaryOp::Not),
        TokenTypeV::Minus => Some(UnaryOp::Negate),
        TokenTypeV::Star => Some(UnaryOp::Dereference),
        TokenTypeV::Ampersand => Some(UnaryOp::AddressOf),
        _ => None,
    }
}

/// The type of `op` applied to an operand of type `rt`; `None` when dereferencing
/// something that is neither a pointer nor `void`.
pub open spec fn unary_result_type(op: UnaryOp, rt: TypeV) -> Option<TypeV> {
    match op {
        UnaryOp::Dereference => match rt {
            TypeV::Pointer(inner) => Some(*inner),
            TypeV::Void => Some(TypeV::Void),
            _ => None,
        },
        UnaryOp::AddressOf => Some(TypeV::Pointer(Box::new(rt))),
        UnaryOp::Not => Some(TypeV::Bool),
        UnaryOp::Negate => Some(rt),
    }
}

pub open spec fn sp_unary(t: Seq<TokenV>, p: int) -> PR<ExprV>
    decreases rem(t, p), 26int,
{
    if !at_end(t, p) && unary_op(t[p].token_type) is Some {
        let op = unary_op(t[p].token_type)->0;
        match sp_unary(t, p + 1) {
            PR::Fail(e) => PR::Fail(e),
            PR::Done(right, q) => {
                let rt = match unary_result_type(op, spec_get_type(right)) {
                    Some(ty) => ty,
                    None => TypeV::Unknown,
                };
                PR::Done(ExprV::Unary { op, expr: Box::new(right), result_type: rt }, q)
            },
        }
    } else {
        sp_cast(t, p)
    }
}

pub open spec fn sp_cast(t: Seq<TokenV>, p: int) -> PR<ExprV>
    decreases rem(t, p), 25int,
{
    match sp_call(t, p) {
        PR::Fail(e) => PR::Fail(e),
        PR::Done(e, q) => if q < p {
            PR::Fail(ParseErrorV::InvalidCallTarget)
        } else if chk(t, q, TokenTypeV::As) {
            match sp_parse_type(t, q + 1) {
                PR::Fail(err) => PR::Fail(err),
                PR::Done(ty, r) => PR::Done(ExprV::Cast { expr: Box::new(e), target_type: ty }, r),
            }
        } else {
            PR::Done(e, q)
        },
    }
}

pub open spec fn sp_call(t: Seq<TokenV>, p: int) -> PR<ExprV>
    decreases rem(t, p), 24int,
{
    match sp_primary(t, p) {
        PR::Fail(e) => PR::Fail(e),
        PR::Done(e, q) => if q < p {
            PR::Fail(ParseErrorV::InvalidCallTarget)
        } else {
            sp_call_rest(t, q, e)
        },
    }
}

pub open spec fn sp_call_rest(t: Seq<TokenV>, p: int, callee: ExprV) -> PR<ExprV>
    decreases rem(t, p), 23int,
{
    if chk(t, p, TokenTypeV::LeftParen) {
        match sp_finish_call(t, p + 1, callee) {
            PR::Fail(e) => PR::Fail(e),
            PR::Done(e, q) => if q <= p {
                PR::Fail(ParseErrorV::InvalidCallTarget)
            } else {
                sp_call_rest(t, q, e)
            },
        }
    } else {
        PR::Done(callee, p)
    }
}

/// The arguments of a call, the first at `p` (just after the `(`), the `)`, and the call.
pub open spec fn sp_finish_call(t: Seq<TokenV>, p: int, callee: ExprV) -> PR<ExprV>
    decreases rem(t, p), 42int,
{
    let args = if !chk(t, p, TokenTypeV::RightParen) {
        sp_list(t, p, Seq::empty())
    } else {
        PR::Done(Seq::empty(), p)
    };
    match args {
        PR::Fail(e) => PR::Fail(e),
        PR::Done(args, q) => match sp_consume(t, q, TokenTypeV::RightParen, "Expected ')' after arguments"@) {
            PR::Fail(e) => PR::Fail(e),
            PR::Done(_, r) => match callee {
                ExprV::Variable(name, ty) => PR::Done(ExprV::Call { name, args, return_type: ty }, r),
                _ => PR::Fail(ParseErrorV::InvalidCallTarget),
            },
        },
    }
}

/// Comma-separated expressions, the first at `p`.
pub open spec fn sp_list(t: Seq<TokenV>, p: int, acc: Seq<ExprV>) -> PR<Seq<ExprV>>
    decreases rem(t, p), 41int,
{
    match sp_expression(t, p) {
        PR::Fail(e) => PR::Fail(e),
        PR::Done(e, q) => if q < p {
            PR::Fail(ParseErrorV::InvalidCallTarget)
        } else if chk(t, q, TokenTypeV::Comma) {
            sp_list(t, q + 1, acc.push(e))
        } else {
            PR::Done(acc.push(e), q)
        },
    }
}

/// `name: value` pairs of a struct literal, the first name at `p`.
pub open spec fn sp_inits(t: Seq<TokenV>, p: int, acc: Seq<(Seq<char>, ExprV)>) -> PR<Seq<(Seq<char>, ExprV)>>
    decreases rem(t, p), 7int,
{
    match sp_consume(t, p, TokenTypeV::Identifier(Seq::empty()), "Expected field name"@) {
        PR::Fail(e) => PR::Fail(e),
        PR::Done(tok, q1) => match tok.token_type {
            TokenTypeV::Identifier(fname) => match sp_consume(t, q1, TokenTypeV::Colon, "Expected ':' after field name"@) {
                PR::Fail(e) => PR::Fail(e),
                PR::Done(_, q2) => if q2 <= p {
                    PR::Fail(ParseErrorV::InvalidCallTarget)
                } else {
                    match sp_expression(t, q2) {
                        PR::Fail(e) => PR::Fail(e),
                        PR::Done(val, q3) => if q3 <= p {
                            PR::Fail(ParseErrorV::InvalidCallTarget)
                        } else if chk(t, q3, TokenTypeV::Comma) {
                            sp_inits(t, q3 + 1, acc.push((fname, val)))
                        } else {
                            PR::Done(acc.push((fname, val)), q3)
                        },
                    }
                },
            },
            _ => PR::Fail(ParseErrorV::UnexpectedToken(tok)),
        },
    }
}


/// `Name::(field: value, ...)`, the `(` at `p`.
pub open spec fn sp_struct_init(t: Seq<TokenV>, p: int, name: Seq<char>) -> PR<ExprV>
    decreases rem(t, p), 8int,
{
    match sp_consume(t, p, TokenTypeV::LeftParen, "Expected '(' to introduce class init"@) {
        PR::Fail(e) => PR::Fail(e),
        PR::Done(_, p3) => {
            let inits = if !chk(t, p3, TokenTypeV::RightParen) {
                sp_inits(t, p3, Seq::empty())
            } else {
                PR::Done(Seq::empty(), p3)
            };
            match inits {
                PR::Fail(e) => PR::Fail(e),
                PR::Done(params, q) => match sp_consume(t, q, TokenTypeV::RightParen, "Expected ')' after class initializer"@) {
                    PR::Fail(e) => PR::Fail(e),
                    PR::Done(_, r) => PR::Done(ExprV::StructInit { name, params }, r),
                },
            }
        },
    }
}

/// `name[index]`, the index (a number or a name) at `p`.
pub open spec fn sp_index(t: Seq<TokenV>, p: int, name: Seq<char>) -> PR<ExprV> {
    let array = Box::new(ExprV::Variable(name, unknown()));
    match t[p].token_type {
        TokenTypeV::IntLiteral(index) => match sp_consume(t, adv(t, p), TokenTypeV::RightBracket, "Right bracket expected for array indexing"@) {
            PR::Fail(e) => PR::Fail(e),
            PR::Done(_, r) => PR::Done(ExprV::ArrayAccess { array, index: Box::new(ExprV::IntLiteral(index)) }, r),
        },
        TokenTypeV::Identifier(iname) => match sp_consume(t, adv(t, p), TokenTypeV::RightBracket, "Right bracket expected for array indexing"@) {
            PR::Fail(e) => PR::Fail(e),
            PR::Done(_, r) => PR::Done(ExprV::ArrayAccess { array, index: Box::new(ExprV::Variable(iname, unknown())) }, r),
        },
        _ => PR::Fail(ParseErrorV::UnexpectedToken(t[p])),
    }
}

/// What follows a name in a primary expression; the name is at `p`.
pub open spec fn sp_after_name(t: Seq<TokenV>, p: int, name: Seq<char>) -> PR<ExprV>
    decreases rem(t, p), 9int,
{
    let p1 = p + 1;
    if same_kind(t[p1].token_type, TokenTypeV::DoubleColon) {
        sp_struct_init(t, adv(t, p1), name)
    } else if same_kind(t[p1].token_type, TokenTypeV::LeftBracket) {
        sp_index(t, adv(t, p1), name)
    } else if same_kind(t[p1].token_type, TokenTypeV::Period) {
        let p2 = adv(t, p1);
        match t[p2].token_type {
            TokenTypeV::Identifier(var_name) => PR::Done(ExprV::InstanceVar(name, var_name), p2 + 1),
            _ => PR::Done(ExprV::Variable(name, unknown()), p2),
        }
    } else {
        PR::Done(ExprV::Variable(name, unknown()), p1)
    }
}

/// The elements of an array literal and its `]`, the first element at `p`; the
/// element type is that of the first element when it is a literal.
pub open spec fn sp_array(t: Seq<TokenV>, p: int) -> PR<ExprV>
    decreases rem(t, p), 43int,
{
    let elems = if !chk(t, p, TokenTypeV::RightBracket) {
        sp_list(t, p, Seq::empty())
    } else {
        PR::Done(Seq::empty(), p)
    };
    match elems {
        PR::Fail(e) => PR::Fail(e),
        PR::Done(elements, q) => match sp_consume(t, q, TokenTypeV::RightBracket, "Expected ']' after array elements"@) {
            PR::Fail(e) => PR::Fail(e),
            PR::Done(_, r) => PR::Done(array_literal_of(elements), r),
        },
    }
}


pub open spec fn sp_primary(t: Seq<TokenV>, p: int) -> PR<ExprV>
    decreases rem(t, p), 12int,
{
    if at_end(t, p) {
        PR::Fail(ParseErrorV::UnexpectedToken(t[p]))
    } else {
        match literal_expr(t[p].token_type) {
            Some(lit) => PR::Done(lit, adv(t, p)),
            None => sp_non_literal(t, p),
        }
    }
}

/// A primary expression that does not start with a literal: a quoted name, an array
/// literal, a name and what follows it, or a parenthesized expression.
pub open spec fn sp_non_literal(t: Seq<TokenV>, p: int) -> PR<ExprV>
    decreases rem(t, p), 11int,
{
    if at_end(t, p) {
        PR::Fail(ParseErrorV::UnexpectedToken(t[p]))
    } else if same_kind(t[p].token_type, TokenTypeV::DoubleQuote) {
        sp_quoted(t, adv(t, p))
    } else if same_kind(t[p].token_type, TokenTypeV::LeftBracket) {
        sp_array(t, p + 1)
    } else if t[p].token_type is Identifier {
        sp_after_name(t, p, t[p].token_type->Identifier_0)
    } else if same_kind(t[p].token_type, TokenTypeV::LeftParen) {
        sp_parenthesized(t, p + 1)
    } else {
        PR::Fail(ParseErrorV::UnexpectedToken(t[p]))
    }
}

/// A name after a `"`, which must be followed by `::`.
pub open spec fn sp_quoted(t: Seq<TokenV>, p: int) -> PR<ExprV> {
    match t[p].token_type {
        TokenTypeV::Identifier(n) => match sp_consume(t, p, TokenTypeV::DoubleColon, "Expected double quote to end string"@) {
            PR::Fail(e) => PR::Fail(e),
            PR::Done(_, q) => PR::Done(ExprV::StringLiteral(n), q),
        },
        _ => PR::Fail(expected(t, p, TokenTypeV::Identifier(Seq::empty()), "Expected double quote"@)),
    }
}

/// An expression and its `)`, the expression at `p`.
pub open spec fn sp_parenthesized(t: Seq<TokenV>, p: int) -> PR<ExprV>
    decreases rem(t, p), 44int,
{
    match sp_expression(t, p) {
        PR::Fail(e) => PR::Fail(e),
        PR::Done(e, q) => match sp_consume(t, q, TokenTypeV::RightParen, "Expected ')' after expression"@) {
            PR::Fail(err) => PR::Fail(err),
            PR::Done(_, r) => PR::Done(e, r),
        },
    }
}

/// A statement; `semi` says whether an expression statement must end with `;`.
pub open spec fn sp_statement(t: Seq<TokenV>, p: int, semi: bool) -> PR<StmtV>
    decreases rem(t, p), 52int,
{
    if chk(t, p, TokenTypeV::If) {
        sp_if(t, p + 1)
    } else if chk(t, p, TokenTypeV::At) {
        sp_at(t, p + 1)
    } else if chk(t, p, TokenTypeV::While) {
        sp_while(t, p + 1)
    } else if chk(t, p, TokenTypeV::Struct) {
        sp_class(t, p + 1)
    } else {
        sp_statement_rest(t, p, semi)
    }
}

/// A statement that does not start with `if`, `@`, `while` or `struct`.
pub open spec fn sp_statement_rest(t: Seq<TokenV>, p: int, semi: bool) -> PR<StmtV>
    decreases rem(t, p), 51int,
{
    if chk(t, p, TokenTypeV::Return) {
        sp_return(t, p + 1)
    } else if chk(t, p, TokenTypeV::Let) {
        sp_var(t, p + 1)
    } else if chk(t, p, TokenTypeV::Def) {
        sp_fn(t, p + 1)
    } else if chk(t, p, TokenTypeV::LeftBrace) {
        match sp_block(t, p + 1, Seq::empty()) {
            PR::Fail(e) => PR::Fail(e),
            PR::Done(ss, q) => PR::Done(StmtV::Block(ss), q),
        }
    } else {
        sp_expression_statement(t, p, semi)
    }
}

/// An expression used as a statement, with its `;` when `semi` is set.
pub open spec fn sp_expression_statement(t: Seq<TokenV>, p: int, semi: bool) -> PR<StmtV>
    decreases rem(t, p), 50int,
{
    match sp_expression(t, p) {
        PR::Fail(e) => PR::Fail(e),
        PR::Done(e, q) => if semi {
            match sp_consume(t, q, TokenTypeV::Semicolon, "Expected ';' after expression"@) {
                PR::Fail(err) => PR::Fail(err),
                PR::Done(_, r) => PR::Done(StmtV::Expression(e), r),
            }
        } else {
            PR::Done(StmtV::Expression(e), q)
        },
    }
}

/// Statements up to the closing `}`, which is consumed.
pub open spec fn sp_block(t: Seq<TokenV>, p: int, acc: Seq<StmtV>) -> PR<Seq<StmtV>>
    decreases rem(t, p), 55int,
{
    if !chk(t, p, TokenTypeV::RightBrace) && !at_end(t, p) {
        match sp_statement(t, p, true) {
            PR::Fail(e) => PR::Fail(e),
            PR::Done(s, q) => if q <= p {
                PR::Fail(ParseErrorV::InvalidCallTarget)
            } else {
                sp_block(t, q, acc.push(s))
            },
        }
    } else {
        match sp_consume(t, p, TokenTypeV::RightBrace, "Expected '}' after block"@) {
            PR::Fail(e) => PR::Fail(e),
            PR::Done(_, r) => PR::Done(acc, r),
        }
    }
}

/// `( condition ) then [else otherwise]`, after the `if`.
pub open spec fn sp_if(t: Seq<TokenV>, p: int) -> PR<StmtV>
    decreases rem(t, p), 49int,
{
    match sp_consume(t, p, TokenTypeV::LeftParen, "Expected '(' after 'if'"@) {
        PR::Fail(e) => PR::Fail(e),
        PR::Done(_, p1) => match sp_expression(t, p1) {
            PR::Fail(e) => PR::Fail(e),
            PR::Done(cond, p2) => if p2 < p1 {
                PR::Fail(ParseErrorV::InvalidCallTarget)
            } else {
                sp_if_body(t, p2, cond)
            },
        },
    }
}

/// `) then [else otherwise]` of an `if` whose condition ends at `p`.
pub open spec fn sp_if_body(t: Seq<TokenV>, p: int, cond: ExprV) -> PR<StmtV>
    decreases rem(t, p), 48int,
{
    match sp_consume(t, p, TokenTypeV::RightParen, "Expected ')' after condition"@) {
        PR::Fail(e) => PR::Fail(e),
        PR::Done(_, p3) => match sp_statement(t, p3, false) {
            PR::Fail(e) => PR::Fail(e),
            PR::Done(then_s, p4) => if p4 < p3 {
                PR::Fail(ParseErrorV::InvalidCallTarget)
            } else {
                sp_else(t, p4, cond, then_s)
            },
        },
    }
}

/// `[else otherwise]` after the then-branch of an `if`, which ends at `p`.
pub open spec fn sp_else(t: Seq<TokenV>, p: int, cond: ExprV, then_s: StmtV) -> PR<StmtV>
    decreases rem(t, p), 47int,
{
    if chk(t, p, TokenTypeV::Else) {
        match sp_statement(t, p + 1, false) {
            PR::Fail(e) => PR::Fail(e),
            PR::Done(else_s, r) => PR::Done(
                StmtV::If { condition: cond, then_stmt: Box::new(then_s), else_stmt: Some(Box::new(else_s)) },
                r,
            ),
        }
    } else {
        PR::Done(StmtV::If { condition: cond, then_stmt: Box::new(then_s), else_stmt: None }, p)
    }
}

/// `( condition ) body`, after the `while`.
pub open spec fn sp_while(t: Seq<TokenV>, p: int) -> PR<StmtV>
    decreases rem(t, p), 49int,
{
    match sp_consume(t, p, TokenTypeV::LeftParen, "Expected '(' after 'while'"@) {
        PR::Fail(e) => PR::Fail(e),
        PR::Done(_, p1) => match sp_expression(t, p1) {
            PR::Fail(e) => PR::Fail(e),
            PR::Done(cond, p2) => if p2 < p1 {
                PR::Fail(ParseErrorV::InvalidCallTarget)
            } else {
                sp_while_body(t, p2, cond)
            },
        },
    }
}

/// `) body` of a `while` whose condition ends at `p`.
pub open spec fn sp_while_body(t: Seq<TokenV>, p: int, cond: ExprV) -> PR<StmtV>
    decreases rem(t, p), 48int,
{
    match sp_consume(t, p, TokenTypeV::RightParen, "Expected ')' after while condition"@) {
        PR::Fail(e) => PR::Fail(e),
        PR::Done(_, p3) => match sp_statement(t, p3, false) {
            PR::Fail(e) => PR::Fail(e),
            PR::Done(body, r) => PR::Done(StmtV::While { condition: cond, body: Box::new(body) }, r),
        },
    }
}

/// `[value] ;`, after the `return`.
pub open spec fn sp_return(t: Seq<TokenV>, p: int) -> PR<StmtV>
    decreases rem(t, p), 45int,
{
    let value = if !chk(t, p, TokenTypeV::Semicolon) {
        match sp_expression(t, p) {
            PR::Fail(e) => PR::Fail(e),
            PR::Done(e, q) => PR::Done(Some(e), q),
        }
    } else {
        PR::Done(None, p)
    };
    match value {
        PR::Fail(e) => PR::Fail(e),
        PR::Done(v, q) => match sp_consume(t, q, TokenTypeV::Semicolon, "Expected ';' after return value"@) {
            PR::Fail(e) => PR::Fail(e),
            PR::Done(_, r) => PR::Done(StmtV::Return(v), r),
        },
    }
}

/// `name : type = value ;`, after the `let`.
pub open spec fn sp_var(t: Seq<TokenV>, p: int) -> PR<StmtV>
    decreases rem(t, p), 45int,
{
    match sp_consume(t, p, TokenTypeV::Identifier(Seq::empty()), "Expected variable name"@) {
        PR::Fail(e) => PR::Fail(e),
        PR::Done(tok, p1) => match tok.token_type {
            TokenTypeV::Identifier(name) => match sp_consume(t, p1, TokenTypeV::Colon, "Expected ':' after variable name"@) {
                PR::Fail(e) => PR::Fail(e),
                PR::Done(_, p2) => match sp_parse_type(t, p2) {
                    PR::Fail(e) => PR::Fail(e),
                    PR::Done(ty, p3) => if p3 < p2 {
                        PR::Fail(ParseErrorV::InvalidCallTarget)
                    } else {
                        sp_var_init(t, p3, name, ty)
                    },
                },
            },
            _ => PR::Fail(ParseErrorV::UnexpectedToken(tok)),
        },
    }
}

/// `= value ;` of a variable declaration whose type ends at `p`.
pub open spec fn sp_var_init(t: Seq<TokenV>, p: int, name: Seq<char>, ty: TypeV) -> PR<StmtV>
    decreases rem(t, p), 44int,
{
    match sp_consume(t, p, TokenTypeV::Equal, "Expected '=' after variable type"@) {
        PR::Fail(e) => PR::Fail(e),
        PR::Done(_, p4) => match sp_expression(t, p4) {
            PR::Fail(e) => PR::Fail(e),
            PR::Done(value, p5) => match sp_consume(t, p5, TokenTypeV::Semicolon, "Expected ';' after variable declaration"@) {
                PR::Fail(e) => PR::Fail(e),
                PR::Done(_, r) => PR::Done(StmtV::VarDecl { name, var_type: ty, value }, r),
            },
        },
    }
}

/// `name : type ;` field declarations up to the `}` (not consumed).
pub open spec fn sp_fields(t: Seq<TokenV>, p: int, acc: Seq<(Seq<char>, TypeV)>) -> PR<Seq<(Seq<char>, TypeV)>>
    decreases rem(t, p), 7int,
{
    if !chk(t, p, TokenTypeV::RightBrace) && !at_end(t, p) {
        match sp_consume(t, p, TokenTypeV::Identifier(Seq::empty()), "Expected field name"@) {
            PR::Fail(e) => PR::Fail(e),
            PR::Done(tok, p1) => match tok.token_type {
                TokenTypeV::Identifier(fname) => match sp_consume(t, p1, TokenTypeV::Colon, "Expected ':' after field name"@) {
                    PR::Fail(e) => PR::Fail(e),
                    PR::Done(_, p2) => match sp_parse_type(t, p2) {
                        PR::Fail(e) => PR::Fail(e),
                        PR::Done(ty, p3) => if p3 < p2 {
                            PR::Fail(ParseErrorV::InvalidCallTarget)
                        } else {
                            match sp_consume(t, p3, TokenTypeV::Semicolon, "Expected ';' after field declaration"@) {
                                PR::Fail(e) => PR::Fail(e),
                                PR::Done(_, p4) => sp_fields(t, p4, acc.push((fname, ty))),
                            }
                        },
                    },
                },
                _ => PR::Fail(ParseErrorV::UnexpectedToken(tok)),
            },
        }
    } else {
        PR::Done(acc, p)
    }
}

/// `Name { fields }`, after the `struct`.
pub open spec fn sp_class(t: Seq<TokenV>, p: int) -> PR<StmtV>
    decreases rem(t, p), 45int,
{
    match sp_consume(t, p, TokenTypeV::Identifier(Seq::empty()), "Expected class name"@) {
        PR::Fail(e) => PR::Fail(e),
        PR::Done(tok, p1) => match tok.token_type {
            TokenTypeV::Identifier(name) => match sp_consume(t, p1, TokenTypeV::LeftBrace, "Expected '{' after class name"@) {
                PR::Fail(e) => PR::Fail(e),
                PR::Done(_, p2) => match sp_fields(t, p2, Seq::empty()) {
                    PR::Fail(e) => PR::Fail(e),
                    PR::Done(fields, p3) => match sp_consume(t, p3, TokenTypeV::RightBrace, "Expected '}' after class body"@) {
                        PR::Fail(e) => PR::Fail(e),
                        PR::Done(_, r) => PR::Done(StmtV::StructDecl { name, instances: fields, union: false }, r),
                    },
                },
            },
            _ => PR::Fail(ParseErrorV::UnexpectedToken(tok)),
        },
    }
}

/// `name : type` parameters separated by `,`, the first at `p`.
pub open spec fn sp_params(t: Seq<TokenV>, p: int, acc: Seq<(Seq<char>, TypeV)>) -> PR<Seq<(Seq<char>, TypeV)>>
    decreases rem(t, p), 6int,
{
    match sp_consume(t, p, TokenTypeV::Identifier(Seq::empty()), "Expected parameter name"@) {
        PR::Fail(e) => PR::Fail(e),
        PR::Done(tok, p1) => match tok.token_type {
            TokenTypeV::Identifier(pname) => match sp_consume(t, p1, TokenTypeV::Colon, "Expected ':' after parameter name"@) {
                PR::Fail(e) => PR::Fail(e),
                PR::Done(_, p2) => match sp_parse_type(t, p2) {
                    PR::Fail(e) => PR::Fail(e),
                    PR::Done(ty, p3) => if p3 < p2 {
                        PR::Fail(ParseErrorV::InvalidCallTarget)
                    } else if chk(t, p3, TokenTypeV::Comma) {
                        sp_params(t, p3 + 1, acc.push((pname, ty)))
                    } else {
                        PR::Done(acc.push((pname, ty)), p3)
                    },
                },
            },
            _ => PR::Fail(ParseErrorV::UnexpectedToken(tok)),
        },
    }
}

/// `name ( params ) :: type { body }`, after the `def`.
pub open spec fn sp_fn(t: Seq<TokenV>, p: int) -> PR<StmtV>
    decreases rem(t, p), 45int,
{
    match sp_consume(t, p, TokenTypeV::Identifier(Seq::empty()), "Expected function name"@) {
        PR::Fail(e) => PR::Fail(e),
        PR::Done(tok, p1) => match tok.token_type {
            TokenTypeV::Identifier(name) => match sp_consume(t, p1, TokenTypeV::LeftParen, "Expected '(' after function name"@) {
                PR::Fail(e) => PR::Fail(e),
                PR::Done(_, p2) => {
                    let params = if !chk(t, p2, TokenTypeV::RightParen) {
                        sp_params(t, p2, Seq::empty())
                    } else {
                        PR::Done(Seq::empty(), p2)
                    };
                    match params {
                        PR::Fail(e) => PR::Fail(e),
                        PR::Done(params, p3) => if p3 < p2 {
                            PR::Fail(ParseErrorV::InvalidCallTarget)
                        } else {
                            match sp_consume(t, p3, TokenTypeV::RightParen, "Expected ')' after parameters"@) {
                            PR::Fail(e) => PR::Fail(e),
                            PR::Done(_, p4) => match sp_consume(t, p4, TokenTypeV::DoubleColon, "Expected '::' after parameters"@) {
                                PR::Fail(e) => PR::Fail(e),
                                PR::Done(_, p5) => match sp_parse_type(t, p5) {
                                    PR::Fail(e) => PR::Fail(e),
                                    PR::Done(rt, p6) => if p6 < p5 {
                                        PR::Fail(ParseErrorV::InvalidCallTarget)
                                    } else {
                                        match sp_consume(t, p6, TokenTypeV::LeftBrace, "Expected '{' before function body"@) {
                                            PR::Fail(e) => PR::Fail(e),
                                            PR::Done(_, p7) => match sp_block(t, p7, Seq::empty()) {
                                                PR::Fail(e) => PR::Fail(e),
                                                PR::Done(body, r) => PR::Done(
                                                    StmtV::FunDecl {
                                                        name,
                                                        params,
                                                        return_type: rt,
                                                        body,
                                                        attributes: Seq::empty(),
                                                    },
                                                    r,
                                                ),
                                            },
                                        }
                                    },
                                },
                            },
                        }
                        },
                    }
                },
            },
            _ => PR::Fail(ParseErrorV::UnexpectedToken(tok)),
        },
    }
}

/// The parameter of an `@name::(..)` or `@name::<..>` declaration: a name, optionally
/// followed by `.` and a second name; the first name is at `p`.
pub open spec fn sp_at_param(t: Seq<TokenV>, p: int) -> PR<Seq<char>> {
    match t[p].token_type {
        TokenTypeV::Identifier(s) => {
            let p1 = adv(t, p);
            if same_kind(t[p1].token_type, TokenTypeV::Period) {
                let p2 = adv(t, p1);
                match t[p2].token_type {
                    TokenTypeV::Identifier(qu) => PR::Done(s.push('.') + qu, adv(t, p2)),
                    _ => PR::Done(s.push('.'), p2),
                }
            } else {
                PR::Done(s, p1)
            }
        },
        _ => PR::Fail(expected(t, p, TokenTypeV::Identifier(Seq::empty()), "Expected identifier in @import"@)),
    }
}

pub open spec fn at_decl(decl: Seq<char>, param: Option<Seq<char>>) -> StmtV {
    StmtV::AtDecl(decl, param, None, None, None)
}

/// `name`, `name::<param>;` (the parameter gets a trailing `!`) or `name::(param);`,
/// after the `@`.
pub open spec fn sp_at(t: Seq<TokenV>, p: int) -> PR<StmtV> {
    match t[p].token_type {
        TokenTypeV::Identifier(decl) => {
            let p1 = adv(t, p);
            if same_kind(t[p1].token_type, TokenTypeV::DoubleColon) {
                let p2 = adv(t, p1);
                if same_kind(t[p2].token_type, TokenTypeV::Less) {
                    match sp_at_param(t, adv(t, p2)) {
                        PR::Fail(e) => PR::Fail(e),
                        PR::Done(param, q) => match sp_consume(t, q, TokenTypeV::Greater, "Expected '>'"@) {
                            PR::Fail(e) => PR::Fail(e),
                            PR::Done(_, q1) => match sp_consume(t, q1, TokenTypeV::Semicolon, "Expected ';'"@) {
                                PR::Fail(e) => PR::Fail(e),
                                PR::Done(_, r) => PR::Done(at_decl(decl, Some(param.push('!'))), r),
                            },
                        },
                    }
                } else if same_kind(t[p2].token_type, TokenTypeV::LeftParen) {
                    match sp_at_param(t, adv(t, p2)) {
                        PR::Fail(e) => PR::Fail(e),
                        PR::Done(param, q) => match sp_consume(t, q, TokenTypeV::RightParen, "Expected ')'"@) {
                            PR::Fail(e) => PR::Fail(e),
                            PR::Done(_, q1) => match sp_consume(t, q1, TokenTypeV::Semicolon, "Expected ';'"@) {
                                PR::Fail(e) => PR::Fail(e),
                                PR::Done(_, r) => PR::Done(at_decl(decl, Some(param)), r),
                            },
                        },
                    }
                } else {
                    PR::Done(at_decl(decl, None), p2)
                }
            } else {
                PR::Done(at_decl(decl, None), p1)
            }
        },
        _ => PR::Fail(
            expected(t, p, TokenTypeV::Identifier("declaration"@), "Expected declaration after '@'"@),
        ),
    }
}

/// Statements up to the end of the tokens.
pub open spec fn sp_program(t: Seq<TokenV>, p: int, acc: Seq<StmtV>) -> PR<Seq<StmtV>>
    decreases rem(t, p),
{
    if !at_end(t, p) {
        match sp_statement(t, p, true) {
            PR::Fail(e) => PR::Fail(e),
            PR::Done(s, q) => if q <= p {
                PR::Fail(ParseErrorV::InvalidCallTarget)
            } else {
                sp_program(t, q, acc.push(s))
            },
        }
    } else {
        PR::Done(acc, p)
    }
}


pub(crate) fn comparison_op_of(k: &TokenType) -> (r: Option<BinaryOp>)
    ensures
        r == comparison_op(k@),
{
    proof {
        reveal(comparison_op);
    }
    match k {
        TokenType::Greater => Some(BinaryOp::Greater),
        TokenType::GreaterEqual => Some(BinaryOp::GreaterEqual),
        TokenType::Less => Some(BinaryOp::Less),
        TokenType::LessEqual => Some(BinaryOp::LessEqual),
        _ => None,
    }
}

pub(crate) fn unary_op_of(k: &TokenType) -> (r: Option<UnaryOp>)
    ensures
        r == unary_op(k@),
{
    proof {
        reveal(unary_op);
    }
    match k {
        TokenType::Bang => Some(UnaryOp::Not),
        TokenType::Minus => Some(UnaryOp::Negate),
        TokenType::Star => Some(UnaryOp::Dereference),
        TokenType::Ampersand => Some(UnaryOp::AddressOf),
        _ => None,
    }
}

/// The type a type name stands for.
pub(crate) fn base_type_of(k: &TokenType) -> (r: Option<Type>)
    ensures
        match r {
            Some(ty) => base_type_kind(k@) == Some(ty@),
            None => base_type_kind(k@) is None,
        },
        r is Some ==> !(k@ is Eof),
{
    proof {
        reveal(base_type_kind);
    }
    match k {
        TokenType::Int => Some(Type::Int),
        TokenType::Float => Some(Type::Float),
        TokenType::Boolean => Some(Type::Bool),
        TokenType::Void => Some(Type::Void),
        TokenType::Char => Some(Type::Char),
        TokenType::Long => Some(Type::Long),
        TokenType::Identifier(name) => {
            let r = Type::Struct { name: name.clone(), instances: Vec::new() };
            proof {
                lemma_struct_view(r->name, r->instances);
                assert(fields_view(r->instances@) =~= Seq::<(Seq<char>, TypeV)>::empty());
            }
            Some(r)
        },
        _ => None,
    }
}

/// The prefix operator a token names.
pub open spec fn named_prefix(k: TokenTypeV) -> UnaryOp {
    if k == TokenTypeV::Bang {
        UnaryOp::Not
    } else if k == TokenTypeV::Minus {
        UnaryOp::Negate
    } else if k == TokenTypeV::Star {
        UnaryOp::Dereference
    } else {
        UnaryOp::AddressOf
    }
}

/// `!e`, `-e`, `*e` and `&e` parse as not, negation, dereference and address-of applied
/// to `e`.
pub proof fn law_prefix_operators(t: Seq<TokenV>, p: int, e: ExprV, q: int)
    requires
        0 <= p,
        kind_at(t, p) == TokenTypeV::Bang || kind_at(t, p) == TokenTypeV::Minus || kind_at(t, p) == TokenTypeV::Star
            || kind_at(t, p) == TokenTypeV::Ampersand,
        sp_unary(t, p + 1) == PR::Done(e, q),
    ensures
        sp_unary(t, p) matches PR::Done(ExprV::Unary { op, expr, .. }, q2) && op == named_prefix(kind_at(t, p)) && *expr == e
            && q2 == q,
{
    reveal(unary_op);
}

/// A token has the kind of an operator exactly when it is that operator.
proof fn lemma_operator_kind(x: TokenTypeV, k: TokenTypeV)
    requires
        k == TokenTypeV::Plus || k == TokenTypeV::Minus || k == TokenTypeV::Star || k == TokenTypeV::Slash
            || k == TokenTypeV::EqualEqual || k == TokenTypeV::BangEqual || k == TokenTypeV::And,
    ensures
        same_kind(x, k) <==> x == k,
{
    reveal(crate::token::kind_index);
}

/// `chk` at `q` for an operator `k` is whether the token there is `k`.
proof fn lemma_chk_operator(t: Seq<TokenV>, q: int, k: TokenTypeV)
    requires
        k == TokenTypeV::Plus || k == TokenTypeV::Minus || k == TokenTypeV::Star || k == TokenTypeV::Slash
            || k == TokenTypeV::EqualEqual || k == TokenTypeV::BangEqual || k == TokenTypeV::And,
        0 <= q,
    ensures
        chk(t, q, k) <==> kind_at(t, q) == k,
{
    if 0 <= q < t.len() {
        lemma_operator_kind(t[q].token_type, k);
    }
}

/// The parse `res` is the binary expression `a op b`, ending before `q`.
pub open spec fn parsed_binary(res: PR<ExprV>, a: ExprV, op: BinaryOp, b: ExprV, q: int) -> bool {
    res matches PR::Done(ExprV::Binary { left, op: o, right, .. }, q2) && *left == a && o == op && *right == b
        && q2 == q
}

/// The kind of the token at `q`, or `Eof` past the end.
pub open spec fn kind_at(t: Seq<TokenV>, q: int) -> TokenTypeV {
    if 0 <= q < t.len() {
        t[q].token_type
    } else {
        TokenTypeV::Eof
    }
}

/// `a + b` parses as `a` plus `b` and `a - b` as `a` minus `b`: the operator of the
/// expression is the one its token names.
pub proof fn law_additive_operators(t: Seq<TokenV>, p: int, a: ExprV, b: ExprV, q1: int, q2: int)
    requires
        sp_factor(t, p) == PR::Done(a, q1),
        0 <= p <= q1 < q2,
        kind_at(t, q1) == TokenTypeV::Plus || kind_at(t, q1) == TokenTypeV::Minus,
        sp_factor(t, q1 + 1) == PR::Done(b, q2),
        kind_at(t, q2) != TokenTypeV::Plus && kind_at(t, q2) != TokenTypeV::Minus,
    ensures
        parsed_binary(
            sp_term(t, p),
            a,
            if kind_at(t, q1) == TokenTypeV::Plus {
                BinaryOp::Add
            } else {
                BinaryOp::Sub
            },
            b,
            q2,
        ),
{
    lemma_chk_operator(t, q1, TokenTypeV::Plus);
    lemma_chk_operator(t, q1, TokenTypeV::Minus);
    lemma_chk_operator(t, q2, TokenTypeV::Plus);
    lemma_chk_operator(t, q2, TokenTypeV::Minus);
    let op = if kind_at(t, q1) == TokenTypeV::Plus {
        BinaryOp::Add
    } else {
        BinaryOp::Sub
    };
    assert(sp_term_rest(t, q2, bin(a, op, b)) == PR::Done(bin(a, op, b), q2));
    assert(sp_term_rest(t, q1, a) == sp_term_rest(t, q2, bin(a, op, b)));
}

/// `a * b` parses as `a` times `b` and `a / b` as `a` divided by `b`.
pub proof fn law_multiplicative_operators(t: Seq<TokenV>, p: int, a: ExprV, b: ExprV, q1: int, q2: int)
    requires
        sp_unary(t, p) == PR::Done(a, q1),
        0 <= p <= q1 < q2,
        kind_at(t, q1) == TokenTypeV::Star || kind_at(t, q1) == TokenTypeV::Slash,
        sp_unary(t, q1 + 1) == PR::Done(b, q2),
        kind_at(t, q2) != TokenTypeV::Star && kind_at(t, q2) != TokenTypeV::Slash,
    ensures
        parsed_binary(
            sp_factor(t, p),
            a,
            if kind_at(t, q1) == TokenTypeV::Star {
                BinaryOp::Mul
            } else {
                BinaryOp::Div
            },
            b,
            q2,
        ),
{
    lemma_chk_operator(t, q1, TokenTypeV::Star);
    lemma_chk_operator(t, q1, TokenTypeV::Slash);
    lemma_chk_operator(t, q2, TokenTypeV::Star);
    lemma_chk_operator(t, q2, TokenTypeV::Slash);
    let op = if kind_at(t, q1) == TokenTypeV::Star {
        BinaryOp::Mul
    } else {
        BinaryOp::Div
    };
    assert(sp_factor_rest(t, q2, bin(a, op, b)) == PR::Done(bin(a, op, b), q2));
    assert(sp_factor_rest(t, q1, a) == sp_factor_rest(t, q2, bin(a, op, b)));
}

/// The comparison operator a comparison token names.
pub open spec fn named_comparison(k: TokenTypeV) -> BinaryOp {
    if k == TokenTypeV::Less {
        BinaryOp::Less
    } else if k == TokenTypeV::LessEqual {
        BinaryOp::LessEqual
    } else if k == TokenTypeV::Greater {
        BinaryOp::Greater
    } else {
        BinaryOp::GreaterEqual
    }
}

/// Whether `k` is one of `<`, `<=`, `>`, `>=`.
pub open spec fn is_comparison_token(k: TokenTypeV) -> bool {
    k == TokenTypeV::Less || k == TokenTypeV::LessEqual || k == TokenTypeV::Greater || k == TokenTypeV::GreaterEqual
}

/// `a < b`, `a <= b`, `a > b` and `a >= b` parse as the comparison their token names.
pub proof fn law_comparison_operators(t: Seq<TokenV>, p: int, a: ExprV, b: ExprV, q1: int, q2: int)
    requires
        sp_term(t, p) == PR::Done(a, q1),
        0 <= p <= q1 < q2,
        is_comparison_token(kind_at(t, q1)),
        sp_term(t, q1 + 1) == PR::Done(b, q2),
        !is_comparison_token(kind_at(t, q2)),
    ensures
        parsed_binary(sp_comparison(t, p), a, named_comparison(kind_at(t, q1)), b, q2),
{
    reveal(comparison_op);
    let op = named_comparison(kind_at(t, q1));
    assert(comparison_op(t[q1].token_type) == Some(op));
    assert(sp_comparison_rest(t, q2, bin(a, op, b)) == PR::Done(bin(a, op, b), q2));
    assert(sp_comparison_rest(t, q1, a) == sp_comparison_rest(t, q2, bin(a, op, b)));
}

/// `a == b` parses as an equality test and `a != b` as its negation.
pub proof fn law_equality_operators(t: Seq<TokenV>, p: int, a: ExprV, b: ExprV, q1: int, q2: int)
    requires
        sp_comparison(t, p) == PR::Done(a, q1),
        0 <= p <= q1 < q2,
        kind_at(t, q1) == TokenTypeV::EqualEqual || kind_at(t, q1) == TokenTypeV::BangEqual,
        sp_comparison(t, q1 + 1) == PR::Done(b, q2),
        kind_at(t, q2) != TokenTypeV::EqualEqual && kind_at(t, q2) != TokenTypeV::BangEqual,
    ensures
        parsed_binary(
            sp_equality(t, p),
            a,
            if kind_at(t, q1) == TokenTypeV::EqualEqual {
                BinaryOp::Equal
            } else {
                BinaryOp::NotEqual
            },
            b,
            q2,
        ),
{
    lemma_chk_operator(t, q1, TokenTypeV::EqualEqual);
    lemma_chk_operator(t, q1, TokenTypeV::BangEqual);
    lemma_chk_operator(t, q2, TokenTypeV::EqualEqual);
    lemma_chk_operator(t, q2, TokenTypeV::BangEqual);
    let op = if kind_at(t, q1) == TokenTypeV::EqualEqual {
        BinaryOp::Equal
    } else {
        BinaryOp::NotEqual
    };
    assert(sp_equality_rest(t, q2, bin(a, op, b)) == PR::Done(bin(a, op, b), q2));
    assert(sp_equality_rest(t, q1, a) == sp_equality_rest(t, q2, bin(a, op, b)));
}

/// `a && b` parses as a conjunction.
pub proof fn law_logical_operators(t: Seq<TokenV>, p: int, a: ExprV, b: ExprV, q1: int, q2: int)
    requires
        0 <= p <= q1 < q2,
        sp_equality(t, p) == PR::Done(a, q1),
        kind_at(t, q1) == TokenTypeV::And,
        sp_equality(t, q1 + 1) == PR::Done(b, q2),
        kind_at(t, q2) != TokenTypeV::And,
    ensures
        parsed_binary(sp_logic_and(t, p), a, BinaryOp::And, b, q2),
{
    lemma_chk_operator(t, q1, TokenTypeV::And);
    lemma_chk_operator(t, q2, TokenTypeV::And);
    assert(sp_and_rest(t, q2, bin(a, BinaryOp::And, b)) == PR::Done(bin(a, BinaryOp::And, b), q2));
    assert(sp_and_rest(t, q1, a) == sp_and_rest(t, q2, bin(a, BinaryOp::And, b)));
}

} // verus!
