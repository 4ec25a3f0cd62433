use vstd::prelude::*;

use crate::ast::{
    BinaryOp, Expr, ExprV, Stmt, StmtV, Type, TypeV, UnaryOp, assign_to, exprs_view, fields_view,
    literal_type,
    lemma_exprs_view, lemma_list_views_empty, lemma_list_views_push, lemma_struct_view,
    named_exprs_view, stmts_view,
};
use crate::grammar::{
    base_type_of, comparison_op_of, unary_op_of, PR, ParseErrorV, adv, at_decl, at_end, base_type_kind, bin, chk, comparison_op, rem, sp_after_name, sp_and_rest, sp_array, sp_assignment, sp_at,
    sp_at_param, sp_block, sp_call, sp_call_rest, sp_cast, sp_class, sp_comparison,
    sp_comparison_rest, sp_consume, sp_equality, sp_equality_rest, sp_expression, sp_factor,
    sp_factor_rest, sp_fields, sp_finish_call, sp_fn, sp_if, sp_index, sp_inits, sp_list,
    sp_logic_and, sp_logic_or, sp_assign_tail, sp_non_literal, sp_quoted, sp_parenthesized, sp_or_rest, sp_params, sp_parse_type, sp_primary, sp_program,
    sp_return, sp_stars, sp_statement, sp_struct_init, sp_term, sp_term_rest, sp_unary, sp_var,
    sp_while, sp_statement_rest, sp_expression_statement, sp_if_body, sp_else, sp_while_body,
    sp_var_init, unary_op, unary_result_type, valid_tokens,
};
use crate::lexer::{string_push, tokens_view};
use crate::token::{Token, TokenType, TokenTypeV, TokenV, same_kind};

verus! {

/// Why the tokens could not be parsed.
#[derive(Debug)]
pub enum ParseError {
    Expected { expected: TokenType, found: Token, message: String },
    UnexpectedToken(Token),
    InvalidCallTarget,
    InvalidAssignmentTarget,
}

impl View for ParseError {
    type V = ParseErrorV;

    open spec fn view(&self) -> ParseErrorV {
        match self {
            ParseError::Expected { expected, found, message } => ParseErrorV::Expected {
                expected: expected@,
                found: found@,
                message: message@,
            },
            ParseError::UnexpectedToken(t) => ParseErrorV::UnexpectedToken(t@),
            ParseError::InvalidCallTarget => ParseErrorV::InvalidCallTarget,
            ParseError::InvalidAssignmentTarget => ParseErrorV::InvalidAssignmentTarget,
        }
    }
}

/// What a parse function returned: the value and the position after it, or the error.
pub open spec fn out_expr(r: Result<(Expr, usize), ParseError>) -> PR<ExprV> {
    match r {
        Ok((e, q)) => PR::Done(e@, q as int),
        Err(e) => PR::Fail(e@),
    }
}

pub open spec fn out_exprs(r: Result<(Vec<Expr>, usize), ParseError>) -> PR<Seq<ExprV>> {
    match r {
        Ok((es, q)) => PR::Done(exprs_view(es@), q as int),
        Err(e) => PR::Fail(e@),
    }
}

pub open spec fn out_inits(r: Result<(Vec<(String, Expr)>, usize), ParseError>) -> PR<Seq<(Seq<char>, ExprV)>> {
    match r {
        Ok((ps, q)) => PR::Done(named_exprs_view(ps@), q as int),
        Err(e) => PR::Fail(e@),
    }
}

pub open spec fn out_type(r: Result<(Type, usize), ParseError>) -> PR<TypeV> {
    match r {
        Ok((ty, q)) => PR::Done(ty@, q as int),
        Err(e) => PR::Fail(e@),
    }
}

pub open spec fn out_fields(r: Result<(Vec<(String, Type)>, usize), ParseError>) -> PR<Seq<(Seq<char>, TypeV)>> {
    match r {
        Ok((fs, q)) => PR::Done(fields_view(fs@), q as int),
        Err(e) => PR::Fail(e@),
    }
}

pub open spec fn out_token(r: Result<(Token, usize), ParseError>) -> PR<TokenV> {
    match r {
        Ok((tok, q)) => PR::Done(tok@, q as int),
        Err(e) => PR::Fail(e@),
    }
}

pub open spec fn out_string(r: Result<(String, usize), ParseError>) -> PR<Seq<char>> {
    match r {
        Ok((s, q)) => PR::Done(s@, q as int),
        Err(e) => PR::Fail(e@),
    }
}

pub open spec fn out_stmt(r: Result<(Stmt, usize), ParseError>) -> PR<StmtV> {
    match r {
        Ok((s, q)) => PR::Done(s@, q as int),
        Err(e) => PR::Fail(e@),
    }
}

pub open spec fn out_stmts(r: Result<(Vec<Stmt>, usize), ParseError>) -> PR<Seq<StmtV>> {
    match r {
        Ok((ss, q)) => PR::Done(stmts_view(ss@), q as int),
        Err(e) => PR::Fail(e@),
    }
}






/// The text of a name token.
fn ident_of(k: &TokenType) -> (r: Option<String>)
    ensures
        match k@ {
            TokenTypeV::Identifier(s) => r is Some && r->0@ == s,
            _ => r is None,
        },
{
    match k {
        TokenType::Identifier(s) => Some(s.clone()),
        _ => None,
    }
}

/// The value of an integer literal token.
fn int_of(k: &TokenType) -> (r: Option<i32>)
    ensures
        match k@ {
            TokenTypeV::IntLiteral(v) => r == Some(v),
            _ => r is None,
        },
{
    match k {
        TokenType::IntLiteral(v) => Some(*v),
        _ => None,
    }
}




/// A recursive-descent parser over a list of tokens.
pub struct Parser {
    tokens: Vec<Token>,
    current: usize,
}

impl Parser {
    /// The tokens being parsed.
    pub closed spec fn toks(&self) -> Seq<TokenV> {
        tokens_view(self.tokens@)
    }

    /// The position of the next token to read.
    pub closed spec fn pos(&self) -> int {
        self.current as int
    }

    /// The tokens end with `Eof` and `p` is a position inside them.
    pub closed spec fn inside(&self, p: int) -> bool {
        valid_tokens(self.toks()) && 0 <= p < self.tokens.len()
    }

    /// The parser can read from its position.
    pub open spec fn wf(&self) -> bool {
        self.inside(self.pos())
    }

    /// Every value a parse function returned ends inside the tokens, after `p`.
    pub closed spec fn advanced<T>(&self, r: Result<(T, usize), ParseError>, p: int) -> bool {
        match r {
            Ok((_, q)) => p < q && self.inside(q as int),
            Err(_) => true,
        }
    }

    /// Every value a parse function returned ends inside the tokens, not before `p`.
    pub closed spec fn not_back<T>(&self, r: Result<(T, usize), ParseError>, p: int) -> bool {
        match r {
            Ok((_, q)) => p <= q && self.inside(q as int),
            Err(_) => true,
        }
    }

    /// A parser at the first of `tokens`.
    pub fn new(tokens: Vec<Token>) -> (r: Parser)
        ensures
            r.toks() == tokens_view(tokens@),
            r.pos() == 0,
            valid_tokens(tokens_view(tokens@)) ==> r.wf(),
    {
        Parser { tokens, current: 0 }
    }

    proof fn lemma_token_at(&self, i: int)
        requires
            0 <= i < self.tokens@.len(),
        ensures
            self.toks()[i] == self.tokens@[i]@,
            self.toks().len() == self.tokens@.len(),
    {
    }

    #[verifier::spinoff_prover]
    fn is_at_end(&self, p: usize) -> (r: bool)
        requires
            self.inside(p as int),
        ensures
            r == at_end(self.toks(), p as int),
    {
        proof {
            self.lemma_token_at(p as int);
        }
        matches!(self.tokens[p].token_type, TokenType::Eof)
    }

    /// A copy of the token at `p`.
    #[verifier::spinoff_prover]
    fn peek_token(&self, p: usize) -> (r: Token)
        requires
            self.inside(p as int),
        ensures
            r@ == self.toks()[p as int],
    {
        proof {
            self.lemma_token_at(p as int);
        }
        self.tokens[p].duplicate()
    }

    /// A copy of the kind of the token at `p`.
    #[verifier::spinoff_prover]
    fn peek_type(&self, p: usize) -> (r: TokenType)
        requires
            self.inside(p as int),
        ensures
            r@ == self.toks()[p as int].token_type,
    {
        proof {
            self.lemma_token_at(p as int);
        }
        self.tokens[p].token_type.duplicate()
    }

    /// The position after `p`, which stays at the `Eof`.
    #[verifier::spinoff_prover]
    fn next(&self, p: usize) -> (r: usize)
        requires
            self.inside(p as int),
        ensures
            r == adv(self.toks(), p as int),
            self.inside(r as int),
    {
        proof {
            self.lemma_token_at(p as int);
            self.lemma_token_at(self.tokens@.len() - 1);
        }
        if !self.is_at_end(p) {
            p + 1
        } else {
            p
        }
    }

    #[verifier::spinoff_prover]
    fn check(&self, p: usize, k: &TokenType) -> (r: bool)
        requires
            self.inside(p as int),
        ensures
            r == chk(self.toks(), p as int, k@),
            r ==> self.inside(p + 1),
    {
        proof {
            self.lemma_token_at(p as int);
            self.lemma_token_at(self.tokens@.len() - 1);
        }
        if self.is_at_end(p) {
            false
        } else {
            self.tokens[p].token_type.same_kind(k)
        }
    }

    /// Whether the token at `p`, `Eof` included, has the kind of `k`.
    #[verifier::spinoff_prover]
    fn check_now(&self, p: usize, k: &TokenType) -> (r: bool)
        requires
            self.inside(p as int),
        ensures
            r == same_kind(self.toks()[p as int].token_type, k@),
    {
        proof {
            self.lemma_token_at(p as int);
        }
        self.tokens[p].token_type.same_kind(k)
    }

    #[verifier::spinoff_prover]
    fn consume(&self, p: usize, k: TokenType, message: &str) -> (r: Result<(Token, usize), ParseError>)
        requires
            self.inside(p as int),
        ensures
            out_token(r) == sp_consume(self.toks(), p as int, k@, message@),
            match r {
                Ok((_, q)) => q == p + 1 && self.inside(q as int),
                Err(_) => true,
            },
    {
        if self.check(p, &k) {
            Ok((self.peek_token(p), p + 1))
        } else {
            Err(ParseError::Expected { expected: k, found: self.peek_token(p), message: message.to_owned() })
        }
    }
    #[verifier::spinoff_prover]
    fn expression(&self, p: usize) -> (r: Result<(Expr, usize), ParseError>)
        requires
            self.inside(p as int),
        ensures
            out_expr(r) == sp_expression(self.toks(), p as int),
            self.advanced(r, p as int),
        decreases self.tokens@.len() - p, 40int,
    {
        self.assignment(p)
    }

    #[verifier::spinoff_prover]
    #[verifier::rlimit(50)]
    fn assignment(&self, p: usize) -> (r: Result<(Expr, usize), ParseError>)
        requires
            self.inside(p as int),
        ensures
            out_expr(r) == sp_assignment(self.toks(), p as int),
            self.advanced(r, p as int),
        decreases self.tokens@.len() - p, 39int,
    {
        let (expr, p1) = match self.logic_or(p) {
            Ok(x) => x,
            Err(e) => return Err(e),
        };
        self.assign_tail(p1, expr)
    }

    /// After a target at `p`: `= value` makes an assignment, anything else leaves the target.
    #[verifier::spinoff_prover]
    #[verifier::rlimit(50)]
    fn assign_tail(&self, p: usize, target: Expr) -> (r: Result<(Expr, usize), ParseError>)
        requires
            self.inside(p as int),
        ensures
            out_expr(r) == sp_assign_tail(self.toks(), p as int, target@),
            self.not_back(r, p as int),
        decreases self.tokens@.len() - p, 38int,
    {
        if self.check(p, &TokenType::Equal) {
            let (value, q) = match self.assignment(p + 1) {
                Ok(x) => x,
                Err(e) => return Err(e),
            };
            match target.assigned(value) {
                Some(a) => Ok((a, q)),
                None => Err(ParseError::InvalidAssignmentTarget),
            }
        } else {
            Ok((target, p))
        }
    }

    #[verifier::spinoff_prover]
    #[verifier::rlimit(50)]
    fn logic_or(&self, p: usize) -> (r: Result<(Expr, usize), ParseError>)
        requires
            self.inside(p as int),
        ensures
            out_expr(r) == sp_logic_or(self.toks(), p as int),
            self.advanced(r, p as int),
        decreases self.tokens@.len() - p, 38int,
    {
        let (mut expr, mut q) = match self.logic_and(p) {
            Ok(x) => x,
            Err(e) => return Err(e),
        };
        loop
            invariant
                self.inside(q as int),
                p < q,
                sp_logic_or(self.toks(), p as int) == sp_or_rest(self.toks(), q as int, expr@),
            decreases self.tokens@.len() - q,
        {
            if !self.check(q, &TokenType::Or) {
                assert(sp_or_rest(self.toks(), q as int, expr@) == PR::Done(expr@, q as int));
                return Ok((expr, q));
            }
            let op = BinaryOp::Or;
            let (right, q2) = match self.logic_and(q + 1) {
                Ok(x) => x,
                Err(e) => {
                    assert(sp_or_rest(self.toks(), q as int, expr@) == PR::<ExprV>::Fail(e@));
                    return Err(e);
                },
            };
            assert(sp_or_rest(self.toks(), q as int, expr@) == sp_or_rest(self.toks(), q2 as int, bin(expr@, op, right@)));
            expr = Expr::binary(expr, op, right);
            q = q2;
        }
    }

    #[verifier::spinoff_prover]
    fn logic_and(&self, p: usize) -> (r: Result<(Expr, usize), ParseError>)
        requires
            self.inside(p as int),
        ensures
            out_expr(r) == sp_logic_and(self.toks(), p as int),
            self.advanced(r, p as int),
        decreases self.tokens@.len() - p, 36int,
    {
        let (mut expr, mut q) = match self.equality(p) {
            Ok(x) => x,
            Err(e) => return Err(e),
        };
        loop
            invariant
                self.inside(q as int),
                p < q,
                sp_logic_and(self.toks(), p as int) == sp_and_rest(self.toks(), q as int, expr@),
            decreases self.tokens@.len() - q,
        {
            if !self.check(q, &TokenType::And) {
                assert(sp_and_rest(self.toks(), q as int, expr@) == PR::Done(expr@, q as int));
                return Ok((expr, q));
            }
            let op = BinaryOp::And;
            let (right, q2) = match self.equality(q + 1) {
                Ok(x) => x,
                Err(e) => {
                    assert(sp_and_rest(self.toks(), q as int, expr@) == PR::<ExprV>::Fail(e@));
                    return Err(e);
                },
            };
            assert(sp_and_rest(self.toks(), q as int, expr@) == sp_and_rest(self.toks(), q2 as int, bin(expr@, op, right@)));
            expr = Expr::binary(expr, op, right);
            q = q2;
        }
    }

    #[verifier::spinoff_prover]
    fn equality(&self, p: usize) -> (r: Result<(Expr, usize), ParseError>)
        requires
            self.inside(p as int),
        ensures
            out_expr(r) == sp_equality(self.toks(), p as int),
            self.advanced(r, p as int),
        decreases self.tokens@.len() - p, 34int,
    {
        let (mut expr, mut q) = match self.comparison(p) {
            Ok(x) => x,
            Err(e) => return Err(e),
        };
        loop
            invariant
                self.inside(q as int),
                p < q,
                sp_equality(self.toks(), p as int) == sp_equality_rest(self.toks(), q as int, expr@),
            decreases self.tokens@.len() - q,
        {
            let op = if self.check(q, &TokenType::EqualEqual) {
                BinaryOp::Equal
            } else if self.check(q, &TokenType::BangEqual) {
                BinaryOp::NotEqual
            } else {
                assert(sp_equality_rest(self.toks(), q as int, expr@) == PR::Done(expr@, q as int));
                return Ok((expr, q));
            };
            let (right, q2) = match self.comparison(q + 1) {
                Ok(x) => x,
                Err(e) => {
                    assert(sp_equality_rest(self.toks(), q as int, expr@) == PR::<ExprV>::Fail(e@));
                    return Err(e);
                },
            };
            assert(sp_equality_rest(self.toks(), q as int, expr@) == sp_equality_rest(self.toks(), q2 as int, bin(expr@, op, right@)));
            expr = Expr::binary(expr, op, right);
            q = q2;
        }
    }

    #[verifier::spinoff_prover]
    fn comparison(&self, p: usize) -> (r: Result<(Expr, usize), ParseError>)
        requires
            self.inside(p as int),
        ensures
            out_expr(r) == sp_comparison(self.toks(), p as int),
            self.advanced(r, p as int),
        decreases self.tokens@.len() - p, 32int,
    {
        let (mut expr, mut q) = match self.term(p) {
            Ok(x) => x,
            Err(e) => return Err(e),
        };
        loop
            invariant
                self.inside(q as int),
                p < q,
                sp_comparison(self.toks(), p as int) == sp_comparison_rest(self.toks(), q as int, expr@),
            decreases self.tokens@.len() - q,
        {
            let op = if self.is_at_end(q) {
                None
            } else {
                comparison_op_of(&self.peek_type(q))
            };
            let op = match op {
                Some(op) => op,
                None => return Ok((expr, q)),
            };
            proof {
                self.lemma_token_at(q as int);
                self.lemma_token_at(self.tokens@.len() - 1);
            }
            let (right, q2) = match self.term(q + 1) {
                Ok(x) => x,
                Err(e) => {
                    assert(sp_comparison_rest(self.toks(), q as int, expr@) == PR::<ExprV>::Fail(e@));
                    return Err(e);
                },
            };
            assert(sp_comparison_rest(self.toks(), q as int, expr@) == sp_comparison_rest(self.toks(), q2 as int, bin(expr@, op, right@)));
            expr = Expr::binary(expr, op, right);
            q = q2;
        }
    }

    #[verifier::spinoff_prover]
    fn term(&self, p: usize) -> (r: Result<(Expr, usize), ParseError>)
        requires
            self.inside(p as int),
        ensures
            out_expr(r) == sp_term(self.toks(), p as int),
            self.advanced(r, p as int),
        decreases self.tokens@.len() - p, 30int,
    {
        let (mut expr, mut q) = match self.factor(p) {
            Ok(x) => x,
            Err(e) => return Err(e),
        };
        loop
            invariant
                self.inside(q as int),
                p < q,
                sp_term(self.toks(), p as int) == sp_term_rest(self.toks(), q as int, expr@),
            decreases self.tokens@.len() - q,
        {
            let op = if self.check(q, &TokenType::Plus) {
                BinaryOp::Add
            } else if self.check(q, &TokenType::Minus) {
                BinaryOp::Sub
            } else {
                assert(sp_term_rest(self.toks(), q as int, expr@) == PR::Done(expr@, q as int));
                return Ok((expr, q));
            };
            let (right, q2) = match self.factor(q + 1) {
                Ok(x) => x,
                Err(e) => {
                    assert(sp_term_rest(self.toks(), q as int, expr@) == PR::<ExprV>::Fail(e@));
                    return Err(e);
                },
            };
            assert(sp_term_rest(self.toks(), q as int, expr@) == sp_term_rest(self.toks(), q2 as int, bin(expr@, op, right@)));
            expr = Expr::binary(expr, op, right);
            q = q2;
        }
    }

    #[verifier::spinoff_prover]
    fn factor(&self, p: usize) -> (r: Result<(Expr, usize), ParseError>)
        requires
            self.inside(p as int),
        ensures
            out_expr(r) == sp_factor(self.toks(), p as int),
            self.advanced(r, p as int),
        decreases self.tokens@.len() - p, 28int,
    {
        let (mut expr, mut q) = match self.unary(p) {
            Ok(x) => x,
            Err(e) => return Err(e),
        };
        loop
            invariant
                self.inside(q as int),
                p < q,
                sp_factor(self.toks(), p as int) == sp_factor_rest(self.toks(), q as int, expr@),
            decreases self.tokens@.len() - q,
        {
            let op = if self.check(q, &TokenType::Slash) {
                BinaryOp::Div
            } else if self.check(q, &TokenType::Star) {
                BinaryOp::Mul
            } else {
                assert(sp_factor_rest(self.toks(), q as int, expr@) == PR::Done(expr@, q as int));
                return Ok((expr, q));
            };
            let (right, q2) = match self.unary(q + 1) {
                Ok(x) => x,
                Err(e) => {
                    assert(sp_factor_rest(self.toks(), q as int, expr@) == PR::<ExprV>::Fail(e@));
                    return Err(e);
                },
            };
            assert(sp_factor_rest(self.toks(), q as int, expr@) == sp_factor_rest(self.toks(), q2 as int, bin(expr@, op, right@)));
            expr = Expr::binary(expr, op, right);
            q = q2;
        }
    }

    #[verifier::spinoff_prover]
    fn unary(&self, p: usize) -> (r: Result<(Expr, usize), ParseError>)
        requires
            self.inside(p as int),
        ensures
            out_expr(r) == sp_unary(self.toks(), p as int),
            self.advanced(r, p as int),
        decreases self.tokens@.len() - p, 26int,
    {
        let op = if self.is_at_end(p) {
            None
        } else {
            unary_op_of(&self.peek_type(p))
        };
        match op {
            Some(op) => {
                proof {
                    self.lemma_token_at(p as int);
                    self.lemma_token_at(self.tokens@.len() - 1);
                }
                let (right, q) = match self.unary(p + 1) {
                    Ok(x) => x,
                    Err(e) => return Err(e),
                };
                let rt = right.get_type();
                let result_type = match op {
                    UnaryOp::Dereference => match rt {
                        Type::Pointer(inner) => *inner,
                        Type::Void => {
                            let v = Type::Void;
                            assert(v@ == TypeV::Void);
                            v
                        },
                        _ => {
                            let u = Type::Unknown;
                            assert(u@ == TypeV::Unknown);
                            u
                        },
                    },
                    UnaryOp::AddressOf => Type::Pointer(Box::new(rt)),
                    UnaryOp::Not => {
                        let b = Type::Bool;
                        assert(b@ == TypeV::Bool);
                        b
                    },
                    UnaryOp::Negate => rt,
                };
                Ok((Expr::unary(op, right, result_type), q))
            },
            None => self.cast(p),
        }
    }

    #[verifier::spinoff_prover]
    fn cast(&self, p: usize) -> (r: Result<(Expr, usize), ParseError>)
        requires
            self.inside(p as int),
        ensures
            out_expr(r) == sp_cast(self.toks(), p as int),
            self.advanced(r, p as int),
        decreases self.tokens@.len() - p, 25int,
    {
        let (expr, q) = match self.call(p) {
            Ok(x) => x,
            Err(e) => return Err(e),
        };
        if self.check(q, &TokenType::As) {
            let (target_type, r) = match self.parse_type(q + 1) {
                Ok(x) => x,
                Err(e) => return Err(e),
            };
            Ok((Expr::cast(expr, target_type), r))
        } else {
            Ok((expr, q))
        }
    }

    #[verifier::spinoff_prover]
    fn call(&self, p: usize) -> (r: Result<(Expr, usize), ParseError>)
        requires
            self.inside(p as int),
        ensures
            out_expr(r) == sp_call(self.toks(), p as int),
            self.advanced(r, p as int),
        decreases self.tokens@.len() - p, 24int,
    {
        let (mut expr, mut q) = match self.primary(p) {
            Ok(x) => x,
            Err(e) => return Err(e),
        };
        loop
            invariant
                self.inside(q as int),
                p < q,
                sp_call(self.toks(), p as int) == sp_call_rest(self.toks(), q as int, expr@),
            decreases self.tokens@.len() - q,
        {
            if !self.check(q, &TokenType::LeftParen) {
                assert(sp_call_rest(self.toks(), q as int, expr@) == PR::Done(expr@, q as int));
                return Ok((expr, q));
            }
            let (e, q2) = match self.finish_call(q + 1, expr) {
                Ok(x) => x,
                Err(e) => return Err(e),
            };
            expr = e;
            q = q2;
        }
    }

    /// Expressions separated by `,`, unless the token at `p` is a `close`.
    #[verifier::spinoff_prover]
    fn arguments(&self, p: usize, close: &TokenType) -> (r: Result<(Vec<Expr>, usize), ParseError>)
        requires
            self.inside(p as int),
        ensures
            out_exprs(r) == (if !chk(self.toks(), p as int, close@) {
                sp_list(self.toks(), p as int, Seq::empty())
            } else {
                PR::Done(Seq::empty(), p as int)
            }),
            self.not_back(r, p as int),
        decreases self.tokens@.len() - p, 42int,
    {
        let args: Vec<Expr> = Vec::new();
        proof {
            lemma_list_views_empty();
        }
        if self.check(p, close) {
            Ok((args, p))
        } else {
            self.list(p, args)
        }
    }

    /// Expressions separated by `,`, the first at `p`, after those in `acc`.
    #[verifier::spinoff_prover]
    fn list(&self, p: usize, acc: Vec<Expr>) -> (r: Result<(Vec<Expr>, usize), ParseError>)
        requires
            self.inside(p as int),
        ensures
            out_exprs(r) == sp_list(self.toks(), p as int, exprs_view(acc@)),
            self.advanced(r, p as int),
        decreases self.tokens@.len() - p, 41int,
    {
        let (e, q) = match self.expression(p) {
            Ok(x) => x,
            Err(e) => return Err(e),
        };
        let mut acc = acc;
        proof {
            lemma_list_views_push(acc@, e, arbitrary(), arbitrary(), arbitrary(), arbitrary());
        }
        acc.push(e);
        if self.check(q, &TokenType::Comma) {
            self.list(q + 1, acc)
        } else {
            Ok((acc, q))
        }
    }

    #[verifier::spinoff_prover]
    fn finish_call(&self, p: usize, callee: Expr) -> (r: Result<(Expr, usize), ParseError>)
        requires
            self.inside(p as int),
        ensures
            out_expr(r) == sp_finish_call(self.toks(), p as int, callee@),
            self.advanced(r, p as int),
        decreases self.tokens@.len() - p, 43int,
    {
        let (args, q) = match self.arguments(p, &TokenType::RightParen) {
            Ok(x) => x,
            Err(e) => return Err(e),
        };
        assert(sp_finish_call(self.toks(), p as int, callee@) == (match sp_consume(self.toks(), q as int, TokenTypeV::RightParen, "Expected ')' after arguments"@) {
            PR::Fail(e) => PR::<ExprV>::Fail(e),
            PR::Done(_, r) => match callee@ {
                ExprV::Variable(name, ty) => PR::Done(ExprV::Call { name, args: exprs_view(args@), return_type: ty }, r),
                _ => PR::Fail(ParseErrorV::InvalidCallTarget),
            },
        }));
        let (_, r) = match self.consume(q, TokenType::RightParen, "Expected ')' after arguments") {
            Ok(x) => x,
            Err(e) => return Err(e),
        };
        match callee.into_variable() {
            Ok((name, ty)) => Ok((Expr::call(name, args, ty), r)),
            Err(_) => Err(ParseError::InvalidCallTarget),
        }
    }

    /// `name: value` pairs separated by `,`.
    #[verifier::spinoff_prover]
    fn inits(&self, p: usize) -> (r: Result<(Vec<(String, Expr)>, usize), ParseError>)
        requires
            self.inside(p as int),
        ensures
            out_inits(r) == sp_inits(self.toks(), p as int, Seq::empty()),
            self.advanced(r, p as int),
        decreases self.tokens@.len() - p, 7int,
    {
        let mut params: Vec<(String, Expr)> = Vec::new();
        proof {
            lemma_list_views_empty();
        }
        let mut q = p;
        loop
            invariant
                self.inside(q as int),
                p <= q,
                sp_inits(self.toks(), p as int, Seq::empty()) == sp_inits(self.toks(), q as int, named_exprs_view(params@)),
            decreases self.tokens@.len() - q,
        {
            let (tok, q1) = match self.consume(q, TokenType::Identifier(String::new()), "Expected field name") {
                Ok(x) => x,
                Err(e) => return Err(e),
            };
            let fname = match ident_of(&tok.token_type) {
                Some(n) => n,
                None => return Err(ParseError::UnexpectedToken(tok)),
            };
            let (_, q2) = match self.consume(q1, TokenType::Colon, "Expected ':' after field name") {
                Ok(x) => x,
                Err(e) => return Err(e),
            };
            let (val, q3) = match self.expression(q2) {
                Ok(x) => x,
                Err(e) => return Err(e),
            };
            proof {
                lemma_list_views_push(arbitrary(), val, params@, fname, arbitrary(), arbitrary());
            }
            params.push((fname, val));
            if !self.check(q3, &TokenType::Comma) {
                return Ok((params, q3));
            }
            q = q3 + 1;
        }
    }

    /// `Name::(field: value, ...)`, the `(` at `p`.
    #[verifier::spinoff_prover]
    fn struct_init(&self, p: usize, name: String) -> (r: Result<(Expr, usize), ParseError>)
        requires
            self.inside(p as int),
        ensures
            out_expr(r) == sp_struct_init(self.toks(), p as int, name@),
            self.advanced(r, p as int),
        decreases self.tokens@.len() - p, 8int,
    {
        let (_, p3) = match self.consume(p, TokenType::LeftParen, "Expected '(' to introduce class init") {
            Ok(x) => x,
            Err(e) => return Err(e),
        };
        let (params, q) = if !self.check(p3, &TokenType::RightParen) {
            match self.inits(p3) {
                Ok(x) => x,
                Err(e) => return Err(e),
            }
        } else {
            let ps: Vec<(String, Expr)> = Vec::new();
            proof {
                lemma_list_views_empty();
            }
            (ps, p3)
        };
        let (_, r) = match self.consume(q, TokenType::RightParen, "Expected ')' after class initializer") {
            Ok(x) => x,
            Err(e) => return Err(e),
        };
        Ok((Expr::struct_init(name, params), r))
    }

    /// `name[index]`, the index at `p`.
    #[verifier::spinoff_prover]
    fn index_access(&self, p: usize, name: String) -> (r: Result<(Expr, usize), ParseError>)
        requires
            self.inside(p as int),
        ensures
            out_expr(r) == sp_index(self.toks(), p as int, name@),
            self.advanced(r, p as int),
    {
        let array = Expr::variable(name);
        let tt = self.peek_type(p);
        if let Some(index) = int_of(&tt) {
            let (_, r) = match self.consume(self.next(p), TokenType::RightBracket, "Right bracket expected for array indexing") {
                Ok(x) => x,
                Err(e) => return Err(e),
            };
            Ok((Expr::array_access(array, Expr::int_literal(index)), r))
        } else if let Some(iname) = ident_of(&tt) {
            let (_, r) = match self.consume(self.next(p), TokenType::RightBracket, "Right bracket expected for array indexing") {
                Ok(x) => x,
                Err(e) => return Err(e),
            };
            Ok((Expr::array_access(array, Expr::variable(iname)), r))
        } else {
            Err(ParseError::UnexpectedToken(self.peek_token(p)))
        }
    }

    /// What follows a name in a primary expression; the name is at `p`.
    #[verifier::spinoff_prover]
    fn after_name(&self, p: usize, name: String) -> (r: Result<(Expr, usize), ParseError>)
        requires
            self.inside(p as int),
            self.toks()[p as int].token_type == TokenTypeV::Identifier(name@),
        ensures
            out_expr(r) == sp_after_name(self.toks(), p as int, name@),
            self.advanced(r, p as int),
        decreases self.tokens@.len() - p, 9int,
    {
        proof {
            self.lemma_token_at(p as int);
            self.lemma_token_at(self.tokens@.len() - 1);
        }
        let p1 = p + 1;
        if self.check_now(p1, &TokenType::DoubleColon) {
            self.struct_init(self.next(p1), name)
        } else if self.check_now(p1, &TokenType::LeftBracket) {
            self.index_access(self.next(p1), name)
        } else if self.check_now(p1, &TokenType::Period) {
            let p2 = self.next(p1);
            match ident_of(&self.peek_type(p2)) {
                Some(var_name) => {
                    proof {
                        self.lemma_token_at(p2 as int);
                    }
                    Ok((Expr::instance_var(name, var_name), p2 + 1))
                },
                None => Ok((Expr::variable(name), p2)),
            }
        } else {
            Ok((Expr::variable(name), p1))
        }
    }

    /// The elements of an array literal and its `]`, the first element at `p`.
    #[verifier::spinoff_prover]
    #[verifier::rlimit(50)]
    fn array_literal(&self, p: usize) -> (r: Result<(Expr, usize), ParseError>)
        requires
            self.inside(p as int),
        ensures
            out_expr(r) == sp_array(self.toks(), p as int),
            self.advanced(r, p as int),
        decreases self.tokens@.len() - p, 43int,
    {
        let (elements, q) = match self.arguments(p, &TokenType::RightBracket) {
            Ok(x) => x,
            Err(e) => return Err(e),
        };
        let (_, r) = match self.consume(q, TokenType::RightBracket, "Expected ']' after array elements") {
            Ok(x) => x,
            Err(e) => return Err(e),
        };
        Ok((Expr::array_literal(elements), r))
    }

    #[verifier::spinoff_prover]
    fn primary(&self, p: usize) -> (r: Result<(Expr, usize), ParseError>)
        requires
            self.inside(p as int),
        ensures
            out_expr(r) == sp_primary(self.toks(), p as int),
            self.advanced(r, p as int),
        decreases self.tokens@.len() - p, 12int,
    {
        if self.is_at_end(p) {
            return Err(ParseError::UnexpectedToken(self.peek_token(p)));
        }
        proof {
            self.lemma_token_at(p as int);
            self.lemma_token_at(self.tokens@.len() - 1);
        }
        match Expr::from_literal(&self.peek_type(p)) {
            Some(lit) => Ok((lit, p + 1)),
            None => self.non_literal(p),
        }
    }

    /// A primary expression that does not start with a literal.
    #[verifier::spinoff_prover]
    fn non_literal(&self, p: usize) -> (r: Result<(Expr, usize), ParseError>)
        requires
            self.inside(p as int),
            !at_end(self.toks(), p as int),
        ensures
            out_expr(r) == sp_non_literal(self.toks(), p as int),
            self.advanced(r, p as int),
        decreases self.tokens@.len() - p, 11int,
    {
        proof {
            self.lemma_token_at(p as int);
            self.lemma_token_at(self.tokens@.len() - 1);
        }
        if self.check_now(p, &TokenType::DoubleQuote) {
            self.quoted(p + 1)
        } else if self.check_now(p, &TokenType::LeftBracket) {
            self.array_literal(p + 1)
        } else if let Some(name) = ident_of(&self.peek_type(p)) {
            self.after_name(p, name)
        } else if self.check_now(p, &TokenType::LeftParen) {
            self.parenthesized(p + 1)
        } else {
            Err(ParseError::UnexpectedToken(self.peek_token(p)))
        }
    }

    /// A name after a `"`, which must be followed by `::`.
    #[verifier::spinoff_prover]
    fn quoted(&self, p: usize) -> (r: Result<(Expr, usize), ParseError>)
        requires
            self.inside(p as int),
        ensures
            out_expr(r) == sp_quoted(self.toks(), p as int),
            self.advanced(r, p as int),
    {
        match ident_of(&self.peek_type(p)) {
            Some(n) => match self.consume(p, TokenType::DoubleColon, "Expected double quote to end string") {
                Ok((_, q)) => Ok((Expr::string_literal(n), q)),
                Err(e) => Err(e),
            },
            None => Err(
                ParseError::Expected {
                    expected: TokenType::Identifier(String::new()),
                    found: self.peek_token(p),
                    message: "Expected double quote".to_owned(),
                },
            ),
        }
    }

    /// An expression and its `)`.
    #[verifier::spinoff_prover]
    fn parenthesized(&self, p: usize) -> (r: Result<(Expr, usize), ParseError>)
        requires
            self.inside(p as int),
        ensures
            out_expr(r) == sp_parenthesized(self.toks(), p as int),
            self.advanced(r, p as int),
        decreases self.tokens@.len() - p, 44int,
    {
        let (e, q) = match self.expression(p) {
            Ok(x) => x,
            Err(e) => return Err(e),
        };
        assert(sp_parenthesized(self.toks(), p as int) == (match sp_consume(self.toks(), q as int, TokenTypeV::RightParen, "Expected ')' after expression"@) {
            PR::Fail(err) => PR::<ExprV>::Fail(err),
            PR::Done(_, r) => PR::Done(e@, r),
        }));
        match self.consume(q, TokenType::RightParen, "Expected ')' after expression") {
            Ok((_, r)) => Ok((e, r)),
            Err(err) => Err(err),
        }
    }

    #[verifier::spinoff_prover]
    fn parse_type(&self, p: usize) -> (r: Result<(Type, usize), ParseError>)
        requires
            self.inside(p as int),
        ensures
            out_type(r) == sp_parse_type(self.toks(), p as int),
            self.advanced(r, p as int),
        decreases self.tokens@.len() - p, 5int,
    {
        if self.check(p, &TokenType::LeftBracket) {
            let (elem, p2) = match self.parse_type(p + 1) {
                Ok(x) => x,
                Err(e) => return Err(e),
            };
            if self.check(p2, &TokenType::RightBracket) {
                return Ok((Type::Array(Box::new(elem), None), p2 + 1));
            }
            let (_, p3) = match self.consume(p2, TokenType::Comma, "Expected ',' after element type or ']' for slice") {
                Ok(x) => x,
                Err(e) => return Err(e),
            };
            let (size_tok, p4) = match self.consume(p3, TokenType::IntLiteral(0), "Expected array size") {
                Ok(x) => x,
                Err(e) => return Err(e),
            };
            let size: usize = match int_of(&size_tok.token_type) {
                Some(n) => n as usize,
                None => return Err(ParseError::UnexpectedToken(size_tok)),
            };
            let (_, p5) = match self.consume(p4, TokenType::RightBracket, "Expected ']' after array size") {
                Ok(x) => x,
                Err(e) => return Err(e),
            };
            return Ok((Type::Array(Box::new(elem), Some(size)), p5));
        }
        let base = match base_type_of(&self.peek_type(p)) {
            Some(b) => b,
            None => return Err(ParseError::UnexpectedToken(self.peek_token(p))),
        };
        proof {
            self.lemma_token_at(p as int);
            self.lemma_token_at(self.tokens@.len() - 1);
        }
        let mut q = p + 1;
        let mut base_type = base;
        while self.check(q, &TokenType::Star)
            invariant
                self.inside(q as int),
                p < q,
                sp_parse_type(self.toks(), p as int) == sp_stars(self.toks(), q as int, base_type@),
            decreases self.tokens@.len() - q,
        {
            q = q + 1;
            base_type = Type::Pointer(Box::new(base_type));
        }
        Ok((base_type, q))
    }

    /// A statement; `semi` says whether an expression statement ends with `;`.
    #[verifier::spinoff_prover]
    fn statement(&self, p: usize, semi: bool) -> (r: Result<(Stmt, usize), ParseError>)
        requires
            self.inside(p as int),
        ensures
            out_stmt(r) == sp_statement(self.toks(), p as int, semi),
            self.advanced(r, p as int),
        decreases self.tokens@.len() - p, 52int,
    {
        if self.check(p, &TokenType::If) {
            self.if_statement(p + 1)
        } else if self.check(p, &TokenType::At) {
            self.at_declaration(p + 1)
        } else if self.check(p, &TokenType::While) {
            self.while_statement(p + 1)
        } else if self.check(p, &TokenType::Struct) {
            self.class_dec(p + 1)
        } else {
            self.statement_rest(p, semi)
        }
    }

    /// A statement that does not start with `if`, `@`, `while` or `struct`.
    #[verifier::spinoff_prover]
    fn statement_rest(&self, p: usize, semi: bool) -> (r: Result<(Stmt, usize), ParseError>)
        requires
            self.inside(p as int),
        ensures
            out_stmt(r) == sp_statement_rest(self.toks(), p as int, semi),
            self.advanced(r, p as int),
        decreases self.tokens@.len() - p, 51int,
    {
        if self.check(p, &TokenType::Return) {
            self.return_statement(p + 1)
        } else if self.check(p, &TokenType::Let) {
            self.var_dec(p + 1)
        } else if self.check(p, &TokenType::Def) {
            self.fn_dec(p + 1)
        } else if self.check(p, &TokenType::LeftBrace) {
            let acc: Vec<Stmt> = Vec::new();
            proof {
                lemma_list_views_empty();
            }
            match self.block(p + 1, acc) {
                Ok((ss, q)) => Ok((Stmt::block(ss), q)),
                Err(e) => Err(e),
            }
        } else {
            self.expression_statement(p, semi)
        }
    }

    /// An expression used as a statement, with its `;` when `semi` is set.
    #[verifier::spinoff_prover]
    fn expression_statement(&self, p: usize, semi: bool) -> (r: Result<(Stmt, usize), ParseError>)
        requires
            self.inside(p as int),
        ensures
            out_stmt(r) == sp_expression_statement(self.toks(), p as int, semi),
            self.advanced(r, p as int),
        decreases self.tokens@.len() - p, 50int,
    {
        let (e, q) = match self.expression(p) {
            Ok(x) => x,
            Err(e) => return Err(e),
        };
        assert(sp_expression_statement(self.toks(), p as int, semi) == (if semi {
            match sp_consume(self.toks(), q as int, TokenTypeV::Semicolon, "Expected ';' after expression"@) {
                PR::Fail(err) => PR::<StmtV>::Fail(err),
                PR::Done(_, r) => PR::Done(StmtV::Expression(e@), r),
            }
        } else {
            PR::Done(StmtV::Expression(e@), q as int)
        }));
        if semi {
            match self.consume(q, TokenType::Semicolon, "Expected ';' after expression") {
                Ok((_, r)) => Ok((Stmt::expression(e), r)),
                Err(err) => Err(err),
            }
        } else {
            Ok((Stmt::expression(e), q))
        }
    }

    /// Statements up to the closing `}`, which is consumed, after those in `acc`.
    #[verifier::spinoff_prover]
    fn block(&self, p: usize, acc: Vec<Stmt>) -> (r: Result<(Vec<Stmt>, usize), ParseError>)
        requires
            self.inside(p as int),
        ensures
            out_stmts(r) == sp_block(self.toks(), p as int, stmts_view(acc@)),
            self.advanced(r, p as int),
        decreases self.tokens@.len() - p, 55int,
    {
        if !self.check(p, &TokenType::RightBrace) && !self.is_at_end(p) {
            let (s, q) = match self.statement(p, true) {
                Ok(x) => x,
                Err(e) => return Err(e),
            };
            let mut acc = acc;
            proof {
                lemma_list_views_push(arbitrary(), arbitrary(), arbitrary(), arbitrary(), acc@, s);
            }
            acc.push(s);
            self.block(q, acc)
        } else {
            match self.consume(p, TokenType::RightBrace, "Expected '}' after block") {
                Ok((_, r)) => Ok((acc, r)),
                Err(e) => Err(e),
            }
        }
    }

    /// `( condition ) then [else otherwise]`, after the `if`.
    #[verifier::spinoff_prover]
    fn if_statement(&self, p: usize) -> (r: Result<(Stmt, usize), ParseError>)
        requires
            self.inside(p as int),
        ensures
            out_stmt(r) == sp_if(self.toks(), p as int),
            self.advanced(r, p as int),
        decreases self.tokens@.len() - p, 49int,
    {
        let (_, p1) = match self.consume(p, TokenType::LeftParen, "Expected '(' after 'if'") {
            Ok(x) => x,
            Err(e) => return Err(e),
        };
        let (cond, p2) = match self.expression(p1) {
            Ok(x) => x,
            Err(e) => return Err(e),
        };
        self.if_body(p2, cond)
    }

    /// `) then [else otherwise]` of an `if` whose condition ends at `p`.
    #[verifier::spinoff_prover]
    fn if_body(&self, p: usize, cond: Expr) -> (r: Result<(Stmt, usize), ParseError>)
        requires
            self.inside(p as int),
        ensures
            out_stmt(r) == sp_if_body(self.toks(), p as int, cond@),
            self.advanced(r, p as int),
        decreases self.tokens@.len() - p, 48int,
    {
        let (_, p3) = match self.consume(p, TokenType::RightParen, "Expected ')' after condition") {
            Ok(x) => x,
            Err(e) => return Err(e),
        };
        let (then_s, p4) = match self.statement(p3, false) {
            Ok(x) => x,
            Err(e) => return Err(e),
        };
        self.else_branch(p4, cond, then_s)
    }

    /// `[else otherwise]` after the then-branch of an `if`, which ends at `p`.
    #[verifier::spinoff_prover]
    fn else_branch(&self, p: usize, cond: Expr, then_s: Stmt) -> (r: Result<(Stmt, usize), ParseError>)
        requires
            self.inside(p as int),
        ensures
            out_stmt(r) == sp_else(self.toks(), p as int, cond@, then_s@),
            self.not_back(r, p as int),
        decreases self.tokens@.len() - p, 47int,
    {
        if self.check(p, &TokenType::Else) {
            match self.statement(p + 1, false) {
                Ok((else_s, r)) => Ok((Stmt::if_stmt(cond, then_s, Some(else_s)), r)),
                Err(e) => Err(e),
            }
        } else {
            Ok((Stmt::if_stmt(cond, then_s, None), p))
        }
    }

    /// `( condition ) body`, after the `while`.
    #[verifier::spinoff_prover]
    fn while_statement(&self, p: usize) -> (r: Result<(Stmt, usize), ParseError>)
        requires
            self.inside(p as int),
        ensures
            out_stmt(r) == sp_while(self.toks(), p as int),
            self.advanced(r, p as int),
        decreases self.tokens@.len() - p, 49int,
    {
        let (_, p1) = match self.consume(p, TokenType::LeftParen, "Expected '(' after 'while'") {
            Ok(x) => x,
            Err(e) => return Err(e),
        };
        let (cond, p2) = match self.expression(p1) {
            Ok(x) => x,
            Err(e) => return Err(e),
        };
        self.while_body(p2, cond)
    }

    /// `) body` of a `while` whose condition ends at `p`.
    #[verifier::spinoff_prover]
    fn while_body(&self, p: usize, cond: Expr) -> (r: Result<(Stmt, usize), ParseError>)
        requires
            self.inside(p as int),
        ensures
            out_stmt(r) == sp_while_body(self.toks(), p as int, cond@),
            self.advanced(r, p as int),
        decreases self.tokens@.len() - p, 48int,
    {
        let (_, p3) = match self.consume(p, TokenType::RightParen, "Expected ')' after while condition") {
            Ok(x) => x,
            Err(e) => return Err(e),
        };
        match self.statement(p3, false) {
            Ok((body, r)) => Ok((Stmt::while_stmt(cond, body), r)),
            Err(e) => Err(e),
        }
    }

    /// `[value] ;`, after the `return`.
    #[verifier::spinoff_prover]
    fn return_statement(&self, p: usize) -> (r: Result<(Stmt, usize), ParseError>)
        requires
            self.inside(p as int),
        ensures
            out_stmt(r) == sp_return(self.toks(), p as int),
            self.advanced(r, p as int),
        decreases self.tokens@.len() - p, 45int,
    {
        let (value, q) = if !self.check(p, &TokenType::Semicolon) {
            match self.expression(p) {
                Ok((e, q)) => (Some(e), q),
                Err(e) => return Err(e),
            }
        } else {
            (None, p)
        };
        match self.consume(q, TokenType::Semicolon, "Expected ';' after return value") {
            Ok((_, r)) => Ok((Stmt::ret(value), r)),
            Err(e) => Err(e),
        }
    }

    /// `name : type = value ;`, after the `let`.
    #[verifier::spinoff_prover]
    fn var_dec(&self, p: usize) -> (r: Result<(Stmt, usize), ParseError>)
        requires
            self.inside(p as int),
        ensures
            out_stmt(r) == sp_var(self.toks(), p as int),
            self.advanced(r, p as int),
        decreases self.tokens@.len() - p, 45int,
    {
        let (tok, p1) = match self.consume(p, TokenType::Identifier(String::new()), "Expected variable name") {
            Ok(x) => x,
            Err(e) => return Err(e),
        };
        let name = match ident_of(&tok.token_type) {
            Some(n) => n,
            None => return Err(ParseError::UnexpectedToken(tok)),
        };
        let (_, p2) = match self.consume(p1, TokenType::Colon, "Expected ':' after variable name") {
            Ok(x) => x,
            Err(e) => return Err(e),
        };
        let (ty, p3) = match self.parse_type(p2) {
            Ok(x) => x,
            Err(e) => return Err(e),
        };
        self.var_init(p3, name, ty)
    }

    /// `= value ;` of a variable declaration whose type ends at `p`.
    #[verifier::spinoff_prover]
    #[verifier::rlimit(50)]
    fn var_init(&self, p: usize, name: String, ty: Type) -> (r: Result<(Stmt, usize), ParseError>)
        requires
            self.inside(p as int),
        ensures
            out_stmt(r) == sp_var_init(self.toks(), p as int, name@, ty@),
            self.advanced(r, p as int),
        decreases self.tokens@.len() - p, 44int,
    {
        let (_, p4) = match self.consume(p, TokenType::Equal, "Expected '=' after variable type") {
            Ok(x) => x,
            Err(e) => return Err(e),
        };
        let (value, p5) = match self.expression(p4) {
            Ok(x) => x,
            Err(e) => return Err(e),
        };
        assert(sp_var_init(self.toks(), p as int, name@, ty@) == (match sp_consume(self.toks(), p5 as int, TokenTypeV::Semicolon, "Expected ';' after variable declaration"@) {
            PR::Fail(e) => PR::<StmtV>::Fail(e),
            PR::Done(_, r) => PR::Done(StmtV::VarDecl { name: name@, var_type: ty@, value: value@ }, r),
        }));
        match self.consume(p5, TokenType::Semicolon, "Expected ';' after variable declaration") {
            Ok((_, r)) => Ok((Stmt::var_decl(name, ty, value), r)),
            Err(e) => Err(e),
        }
    }

    /// `name : type ;` field declarations up to the `}` (not consumed), after those in `acc`.
    #[verifier::spinoff_prover]
    fn fields(&self, p: usize, acc: Vec<(String, Type)>) -> (r: Result<(Vec<(String, Type)>, usize), ParseError>)
        requires
            self.inside(p as int),
        ensures
            out_fields(r) == sp_fields(self.toks(), p as int, fields_view(acc@)),
            self.not_back(r, p as int),
        decreases self.tokens@.len() - p, 7int,
    {
        if !self.check(p, &TokenType::RightBrace) && !self.is_at_end(p) {
            let (tok, p1) = match self.consume(p, TokenType::Identifier(String::new()), "Expected field name") {
                Ok(x) => x,
                Err(e) => return Err(e),
            };
            let fname = match ident_of(&tok.token_type) {
                Some(n) => n,
                None => return Err(ParseError::UnexpectedToken(tok)),
            };
            let (_, p2) = match self.consume(p1, TokenType::Colon, "Expected ':' after field name") {
                Ok(x) => x,
                Err(e) => return Err(e),
            };
            let (ty, p3) = match self.parse_type(p2) {
                Ok(x) => x,
                Err(e) => return Err(e),
            };
            let (_, p4) = match self.consume(p3, TokenType::Semicolon, "Expected ';' after field declaration") {
                Ok(x) => x,
                Err(e) => return Err(e),
            };
            let mut acc = acc;
            let ghost before = fields_view(acc@);
            acc.push((fname, ty));
            assert(fields_view(acc@) =~= before.push((fname@, ty@)));
            self.fields(p4, acc)
        } else {
            Ok((acc, p))
        }
    }

    /// `Name { fields }`, after the `struct`.
    #[verifier::spinoff_prover]
    fn class_dec(&self, p: usize) -> (r: Result<(Stmt, usize), ParseError>)
        requires
            self.inside(p as int),
        ensures
            out_stmt(r) == sp_class(self.toks(), p as int),
            self.advanced(r, p as int),
        decreases self.tokens@.len() - p, 45int,
    {
        let (tok, p1) = match self.consume(p, TokenType::Identifier(String::new()), "Expected class name") {
            Ok(x) => x,
            Err(e) => return Err(e),
        };
        let name = match ident_of(&tok.token_type) {
            Some(n) => n,
            None => return Err(ParseError::UnexpectedToken(tok)),
        };
        let (_, p2) = match self.consume(p1, TokenType::LeftBrace, "Expected '{' after class name") {
            Ok(x) => x,
            Err(e) => return Err(e),
        };
        let acc: Vec<(String, Type)> = Vec::new();
        assert(fields_view(acc@) =~= Seq::<(Seq<char>, TypeV)>::empty());
        let (fields, p3) = match self.fields(p2, acc) {
            Ok(x) => x,
            Err(e) => return Err(e),
        };
        match self.consume(p3, TokenType::RightBrace, "Expected '}' after class body") {
            Ok((_, r)) => Ok((Stmt::struct_decl(name, fields), r)),
            Err(e) => Err(e),
        }
    }

    /// `name : type` parameters separated by `,`, the first at `p`, after those in `acc`.
    #[verifier::spinoff_prover]
    fn params(&self, p: usize, acc: Vec<(String, Type)>) -> (r: Result<(Vec<(String, Type)>, usize), ParseError>)
        requires
            self.inside(p as int),
        ensures
            out_fields(r) == sp_params(self.toks(), p as int, fields_view(acc@)),
            self.advanced(r, p as int),
        decreases self.tokens@.len() - p, 6int,
    {
        let (tok, p1) = match self.consume(p, TokenType::Identifier(String::new()), "Expected parameter name") {
            Ok(x) => x,
            Err(e) => return Err(e),
        };
        let pname = match ident_of(&tok.token_type) {
            Some(n) => n,
            None => return Err(ParseError::UnexpectedToken(tok)),
        };
        let (_, p2) = match self.consume(p1, TokenType::Colon, "Expected ':' after parameter name") {
            Ok(x) => x,
            Err(e) => return Err(e),
        };
        let (ty, p3) = match self.parse_type(p2) {
            Ok(x) => x,
            Err(e) => return Err(e),
        };
        let mut acc = acc;
        let ghost before = fields_view(acc@);
        acc.push((pname, ty));
        assert(fields_view(acc@) =~= before.push((pname@, ty@)));
        if self.check(p3, &TokenType::Comma) {
            self.params(p3 + 1, acc)
        } else {
            Ok((acc, p3))
        }
    }

    /// `name ( params ) :: type { body }`, after the `def`.
    #[verifier::spinoff_prover]
    fn fn_dec(&self, p: usize) -> (r: Result<(Stmt, usize), ParseError>)
        requires
            self.inside(p as int),
        ensures
            out_stmt(r) == sp_fn(self.toks(), p as int),
            self.advanced(r, p as int),
        decreases self.tokens@.len() - p, 45int,
    {
        let (tok, p1) = match self.consume(p, TokenType::Identifier(String::new()), "Expected function name") {
            Ok(x) => x,
            Err(e) => return Err(e),
        };
        let name = match ident_of(&tok.token_type) {
            Some(n) => n,
            None => return Err(ParseError::UnexpectedToken(tok)),
        };
        let (_, p2) = match self.consume(p1, TokenType::LeftParen, "Expected '(' after function name") {
            Ok(x) => x,
            Err(e) => return Err(e),
        };
        let acc: Vec<(String, Type)> = Vec::new();
        assert(fields_view(acc@) =~= Seq::<(Seq<char>, TypeV)>::empty());
        let (params, p3) = if !self.check(p2, &TokenType::RightParen) {
            match self.params(p2, acc) {
                Ok(x) => x,
                Err(e) => return Err(e),
            }
        } else {
            (acc, p2)
        };
        let (_, p4) = match self.consume(p3, TokenType::RightParen, "Expected ')' after parameters") {
            Ok(x) => x,
            Err(e) => return Err(e),
        };
        let (_, p5) = match self.consume(p4, TokenType::DoubleColon, "Expected '::' after parameters") {
            Ok(x) => x,
            Err(e) => return Err(e),
        };
        let (rt, p6) = match self.parse_type(p5) {
            Ok(x) => x,
            Err(e) => return Err(e),
        };
        let (_, p7) = match self.consume(p6, TokenType::LeftBrace, "Expected '{' before function body") {
            Ok(x) => x,
            Err(e) => return Err(e),
        };
        let body: Vec<Stmt> = Vec::new();
        proof {
            lemma_list_views_empty();
        }
        match self.block(p7, body) {
            Ok((body, r)) => Ok((Stmt::fun_decl(name, params, rt, body), r)),
            Err(e) => Err(e),
        }
    }

    /// The parameter of an `@name::(..)` or `@name::<..>` declaration, its first name at `p`.
    #[verifier::spinoff_prover]
    fn at_param(&self, p: usize) -> (r: Result<(String, usize), ParseError>)
        requires
            self.inside(p as int),
        ensures
            out_string(r) == sp_at_param(self.toks(), p as int),
            self.advanced(r, p as int),
    {
        match ident_of(&self.peek_type(p)) {
            Some(s) => {
                let p1 = self.next(p);
                if self.check_now(p1, &TokenType::Period) {
                    let p2 = self.next(p1);
                    let mut param = s;
                    string_push(&mut param, '.');
                    match ident_of(&self.peek_type(p2)) {
                        Some(qu) => {
                            param.append(qu.as_str());
                            Ok((param, self.next(p2)))
                        },
                        None => Ok((param, p2)),
                    }
                } else {
                    Ok((s, p1))
                }
            },
            None => Err(
                ParseError::Expected {
                    expected: TokenType::Identifier(String::new()),
                    found: self.peek_token(p),
                    message: "Expected identifier in @import".to_owned(),
                },
            ),
        }
    }

    /// `name`, `name::<param>;` or `name::(param);`, after the `@`.
    #[verifier::spinoff_prover]
    fn at_declaration(&self, p: usize) -> (r: Result<(Stmt, usize), ParseError>)
        requires
            self.inside(p as int),
        ensures
            out_stmt(r) == sp_at(self.toks(), p as int),
            self.advanced(r, p as int),
    {
        match ident_of(&self.peek_type(p)) {
            Some(decl) => {
                let p1 = self.next(p);
                if self.check_now(p1, &TokenType::DoubleColon) {
                    let p2 = self.next(p1);
                    if self.check_now(p2, &TokenType::Less) {
                        let (param, q) = match self.at_param(self.next(p2)) {
                            Ok(x) => x,
                            Err(e) => return Err(e),
                        };
                        let (_, q1) = match self.consume(q, TokenType::Greater, "Expected '>'") {
                            Ok(x) => x,
                            Err(e) => return Err(e),
                        };
                        let (_, r) = match self.consume(q1, TokenType::Semicolon, "Expected ';'") {
                            Ok(x) => x,
                            Err(e) => return Err(e),
                        };
                        let mut param = param;
                        string_push(&mut param, '!');
                        Ok((Stmt::at_decl(decl, Some(param)), r))
                    } else if self.check_now(p2, &TokenType::LeftParen) {
                        let (param, q) = match self.at_param(self.next(p2)) {
                            Ok(x) => x,
                            Err(e) => return Err(e),
                        };
                        let (_, q1) = match self.consume(q, TokenType::RightParen, "Expected ')'") {
                            Ok(x) => x,
                            Err(e) => return Err(e),
                        };
                        let (_, r) = match self.consume(q1, TokenType::Semicolon, "Expected ';'") {
                            Ok(x) => x,
                            Err(e) => return Err(e),
                        };
                        Ok((Stmt::at_decl(decl, Some(param)), r))
                    } else {
                        Ok((Stmt::at_decl(decl, None), p2))
                    }
                } else {
                    Ok((Stmt::at_decl(decl, None), p1))
                }
            },
            None => Err(
                ParseError::Expected {
                    expected: TokenType::Identifier("declaration".to_owned()),
                    found: self.peek_token(p),
                    message: "Expected declaration after '@'".to_owned(),
                },
            ),
        }
    }

    /// Statements up to the end of the tokens, after those in `acc`.
    #[verifier::spinoff_prover]
    fn program(&self, p: usize, acc: Vec<Stmt>) -> (r: Result<(Vec<Stmt>, usize), ParseError>)
        requires
            self.inside(p as int),
        ensures
            out_stmts(r) == sp_program(self.toks(), p as int, stmts_view(acc@)),
            self.not_back(r, p as int),
        decreases self.tokens@.len() - p, 60int,
    {
        if !self.is_at_end(p) {
            let (s, q) = match self.statement(p, true) {
                Ok(x) => x,
                Err(e) => return Err(e),
            };
            let mut acc = acc;
            proof {
                lemma_list_views_push(arbitrary(), arbitrary(), arbitrary(), arbitrary(), acc@, s);
            }
            acc.push(s);
            self.program(q, acc)
        } else {
            Ok((acc, p))
        }
    }

    /// The statements of the whole token list, from the parser's position; the
    /// parser ends after the last token read.
    pub fn parse(&mut self) -> (r: Result<Vec<Stmt>, ParseError>)
        requires
            old(self).wf(),
        ensures
            final(self).toks() == old(self).toks(),
            match r {
                Ok(ss) => sp_program(old(self).toks(), old(self).pos(), Seq::empty())
                    == PR::Done(stmts_view(ss@), final(self).pos()),
                Err(e) => sp_program(old(self).toks(), old(self).pos(), Seq::empty()) == PR::<Seq<StmtV>>::Fail(e@),
            },
    {
        let acc: Vec<Stmt> = Vec::new();
        proof {
            lemma_list_views_empty();
        }
        match self.program(self.current, acc) {
            Ok((ss, q)) => {
                self.current = q;
                Ok(ss)
            },
            Err(e) => Err(e),
        }
    }

}

} // verus!
