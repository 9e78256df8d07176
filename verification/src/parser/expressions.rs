//! Expressions: hex literals, registers and variables joined by `+`, `-` and
//! `*`, where `*` binds tighter, operators of equal strength associate to the
//! right (`a - b - c` is read `a - (b - c)`), and parentheses group.
use vstd::prelude::*;

use crate::lexer::{lemma_lex_next, Kind, Lexer, Token};
use crate::parser::ast::{Operator, Statement};
use crate::parser::common::{
    expect, expect_spec, hex_lit_spec, identifier_spec, next_token, parse_hex_lit, parse_register,
    parse_variable, peek, peek_spec, variable_spec,
};
use crate::parser::error::Error;

verus! {

/// The strength that an expression starts from.
pub const BASE: u8 = 0;
/// The strength of `+` and `-`.
pub const ADD: u8 = 1;
/// The strength of `*`.
pub const MUL: u8 = 2;

/// The operator that an operator token stands for.
pub open spec fn operator_of(kind: Kind) -> Operator {
    if kind == Kind::Plus {
        Operator::Add
    } else if kind == Kind::Minus {
        Operator::Sub
    } else {
        Operator::Mul
    }
}

/// How strongly an operator binds.
pub open spec fn precedence(op: Operator) -> u8 {
    match op {
        Operator::Add => ADD,
        Operator::Sub => ADD,
        Operator::Mul => MUL,
    }
}

impl Operator {
    /// The operator of an operator token.
    pub fn try_from(token: Token) -> (op: Operator)
        requires
            token.kind.spec_is_operator(),
        ensures
            op == operator_of(token.kind),
    {
        match token.kind {
            Kind::Plus => Operator::Add,
            Kind::Minus => Operator::Sub,
            _ => Operator::Mul,
        }
    }
}

/// How strongly an operator binds.
pub fn from_operator(operator: Operator) -> (p: u8)
    ensures
        p == precedence(operator),
{
    match operator {
        Operator::Add => ADD,
        Operator::Sub => ADD,
        Operator::Mul => MUL,
    }
}

/// Wraps the place of a literal, register or variable into its statement.
pub open spec fn lift(r: (Result<crate::parser::ast::ByteOffset, Error>, nat), kind: Kind) -> (Result<Statement, Error>, nat) {
    (
        match r.0 {
            Ok(o) => Ok(
                if kind == Kind::HexNumber {
                    Statement::HexLiteral(o)
                } else if kind == Kind::Ident {
                    Statement::Register(o)
                } else {
                    Statement::Var(o)
                },
            ),
            Err(e) => Err(e),
        },
        r.1,
    )
}

/// An expression whose operators bind at least as strongly as `prec`, read
/// from `pos` on, and the position after it.
pub open spec fn expr_spec(src: Seq<u8>, pos: nat, prec: u8) -> (Result<Statement, Error>, nat)
    decreases src.len() - pos, 1nat,
{
    if pos > src.len() || src.len() > usize::MAX {
        (Err(Error::UnexpectedEof), pos)
    } else {
        match peek_spec(src, pos).0 {
            Err(e) => (Err(e), pos),
            Ok(tok) => {
                let (lhs, p1) = if tok.kind == Kind::LParen {
                    let q = next_token(src, pos).1;
                    proof {
                        lemma_lex_next(src, pos);
                    }
                    let (v, q2) = expr_spec(src, q, BASE);
                    match v {
                        Err(e) => (Err(e), q2),
                        Ok(v) => {
                            let (c, q3) = expect_spec(src, q2, Kind::RParen);
                            match c {
                                Err(e) => (Err(e), q3),
                                Ok(_) => (Ok(v), q3),
                            }
                        },
                    }
                } else if tok.kind == Kind::HexNumber {
                    lift(hex_lit_spec(src, pos), Kind::HexNumber)
                } else if tok.kind == Kind::Ident {
                    lift(identifier_spec(src, pos), Kind::Ident)
                } else if tok.kind == Kind::Bang {
                    lift(variable_spec(src, pos), Kind::Bang)
                } else {
                    (Err(Error::UnexpectedToken(tok)), pos)
                };
                match lhs {
                    Err(e) => (Err(e), p1),
                    Ok(l) => if pos <= p1 <= src.len() {
                        expr_loop_spec(src, l, p1, prec)
                    } else {
                        (Ok(l), p1)
                    },
                }
            },
        }
    }
}

/// The rest of an expression after `lhs`: each operator at least as strong as
/// `prec` joins `lhs` with the expression to its right; a closing bracket or
/// parenthesis, or a weaker operator, ends it.
pub open spec fn expr_loop_spec(src: Seq<u8>, lhs: Statement, pos: nat, prec: u8) -> (Result<Statement, Error>, nat)
    decreases src.len() - pos, 0nat,
{
    if pos > src.len() || src.len() > usize::MAX {
        (Ok(lhs), pos)
    } else {
        match peek_spec(src, pos).0 {
            Err(e) => (Err(e), pos),
            Ok(tok) => if tok.kind == Kind::RParen || tok.kind == Kind::RBracket {
                (Ok(lhs), pos)
            } else if !tok.kind.spec_is_operator() {
                (Err(Error::UnexpectedToken(tok)), pos)
            } else {
                let op = operator_of(tok.kind);
                if precedence(op) < prec {
                    (Ok(lhs), pos)
                } else {
                    let q = next_token(src, pos).1;
                    proof {
                        lemma_lex_next(src, pos);
                    }
                    let (rhs, q2) = expr_spec(src, q, precedence(op));
                    match rhs {
                        Err(e) => (Err(e), q2),
                        Ok(r) => {
                            let joined = Statement::BinaryOp { lhs: Box::new(lhs), operator: op, rhs: Box::new(r) };
                            if q <= q2 <= src.len() {
                                expr_loop_spec(src, joined, q2, prec)
                            } else {
                                (Ok(joined), q2)
                            }
                        },
                    }
                }
            },
        }
    }
}

/// Reads an expression whose operators bind at least as strongly as `precedence`.
pub fn parse_expr(lexer: &mut Lexer, precedence: u8) -> (r: Result<Statement, Error>)
    ensures
        final(lexer).src() == old(lexer).src(),
        (r, final(lexer).pos()) == expr_spec(old(lexer).src(), old(lexer).pos(), precedence),
        old(lexer).pos() <= final(lexer).pos() <= old(lexer).src().len(),
    decreases old(lexer).src().len() - old(lexer).pos(), 1nat,
{
    let token = peek(lexer)?;
    let lhs = match token.kind {
        Kind::LParen => {
            expect(Kind::LParen, lexer)?;
            let value = parse_expr(lexer, BASE)?;
            expect(Kind::RParen, lexer)?;
            value
        },
        Kind::HexNumber => Statement::HexLiteral(parse_hex_lit(lexer)?),
        Kind::Ident => Statement::Register(parse_register(lexer)?),
        Kind::Bang => Statement::Var(parse_variable(lexer)?),
        _ => return Err(Error::UnexpectedToken(token)),
    };
    parse_expr_rest(lexer, lhs, precedence)
}

/// Reads the rest of an expression after `lhs` (see `expr_loop_spec`).
fn parse_expr_rest(lexer: &mut Lexer, lhs: Statement, precedence: u8) -> (r: Result<Statement, Error>)
    ensures
        final(lexer).src() == old(lexer).src(),
        (r, final(lexer).pos()) == expr_loop_spec(old(lexer).src(), lhs, old(lexer).pos(), precedence),
        old(lexer).pos() <= final(lexer).pos() <= old(lexer).src().len(),
    decreases old(lexer).src().len() - old(lexer).pos(), 0nat,
{
    let token = peek(lexer)?;
    if token.kind == Kind::RParen || token.kind == Kind::RBracket {
        return Ok(lhs);
    }
    if !token.kind.is_operator() {
        return Err(Error::UnexpectedToken(token));
    }
    let operator = Operator::try_from(token);
    let operator_precedence = from_operator(operator);
    if operator_precedence < precedence {
        return Ok(lhs);
    }
    expect(token.kind, lexer)?;
    let rhs = parse_expr(lexer, operator_precedence)?;
    let joined = Statement::BinaryOp { lhs: Box::new(lhs), operator, rhs: Box::new(rhs) };
    parse_expr_rest(lexer, joined, precedence)
}

/// Reads a bracketed expression, `[` expression `]`, as a literal value.
pub fn parse_literal_expr(lexer: &mut Lexer) -> (r: Result<Statement, Error>)
    ensures
        final(lexer).src() == old(lexer).src(),
        (r, final(lexer).pos()) == literal_expr_spec(old(lexer).src(), old(lexer).pos()),
        old(lexer).pos() <= final(lexer).pos() <= old(lexer).src().len(),
        r is Ok ==> old(lexer).pos() < final(lexer).pos(),
{
    expect(Kind::LBracket, lexer)?;
    let value = parse_expr(lexer, BASE)?;
    expect(Kind::RBracket, lexer)?;
    Ok(value)
}

/// Reads an address expression, `&[` expression `]`.
pub fn parse_address_expr(lexer: &mut Lexer) -> (r: Result<Statement, Error>)
    ensures
        final(lexer).src() == old(lexer).src(),
        (r, final(lexer).pos()) == address_expr_spec(old(lexer).src(), old(lexer).pos()),
        old(lexer).pos() <= final(lexer).pos() <= old(lexer).src().len(),
        r is Ok ==> old(lexer).pos() < final(lexer).pos(),
{
    expect(Kind::Ampersand, lexer)?;
    expect(Kind::LBracket, lexer)?;
    let value = parse_expr(lexer, BASE)?;
    expect(Kind::RBracket, lexer)?;
    Ok(Statement::Address(Box::new(value)))
}

/// A bracketed expression, `[` expression `]`.
pub open spec fn literal_expr_spec(src: Seq<u8>, pos: nat) -> (Result<Statement, Error>, nat) {
    let (a, p1) = expect_spec(src, pos, Kind::LBracket);
    match a {
        Err(e) => (Err(e), p1),
        Ok(_) => {
            let (v, p2) = expr_spec(src, p1, BASE);
            match v {
                Err(e) => (Err(e), p2),
                Ok(v) => {
                    let (c, p3) = expect_spec(src, p2, Kind::RBracket);
                    match c {
                        Err(e) => (Err(e), p3),
                        Ok(_) => (Ok(v), p3),
                    }
                },
            }
        },
    }
}

/// An address expression, `&[` expression `]`.
pub open spec fn address_expr_spec(src: Seq<u8>, pos: nat) -> (Result<Statement, Error>, nat) {
    let (a, p1) = expect_spec(src, pos, Kind::Ampersand);
    match a {
        Err(e) => (Err(e), p1),
        Ok(_) => {
            let (v, p2) = literal_expr_spec(src, p1);
            match v {
                Err(e) => (Err(e), p2),
                Ok(v) => (Ok(Statement::Address(Box::new(v))), p2),
            }
        },
    }
}

} // verus!
