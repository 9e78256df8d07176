//! Imports: `import "path" name &[$address] { variable: value, ... }`.
use vstd::prelude::*;

use crate::lexer::{lemma_lex_next, Kind, Lexer};
use crate::parser::ast::{Statement, StatementView};
use crate::parser::common::{
    expect, expect_spec, hex_lit_spec, identifier_spec, next_token, parse_hex_lit, parse_identifier,
    parse_string, parse_variable, peek, peek_spec, string_spec, variable_spec,
};
use crate::parser::error::Error;

verus! {

/// A field of another module: `module.field`.
pub open spec fn field_accessor_spec(src: Seq<u8>, pos: nat) -> (Result<Statement, Error>, nat) {
    let (m, p1) = identifier_spec(src, pos);
    match m {
        Err(e) => (Err(e), p1),
        Ok(module) => {
            let (d, p2) = expect_spec(src, p1, Kind::Dot);
            if d is Err {
                (Err(d->Err_0), p2)
            } else {
                let (f, p3) = identifier_spec(src, p2);
                match f {
                    Err(e) => (Err(e), p3),
                    Ok(field) => (Ok(Statement::FieldAccessor { module, field }), p3),
                }
            }
        },
    }
}

/// A bracketed import value: `[module.field]` or `[!variable]`.
pub open spec fn bracketed_value_spec(src: Seq<u8>, pos: nat) -> (Result<Statement, Error>, nat) {
    let (l, p1) = expect_spec(src, pos, Kind::LBracket);
    if l is Err {
        (Err(l->Err_0), p1)
    } else {
        match peek_spec(src, p1).0 {
            Err(e) => (Err(e), p1),
            Ok(tok) => {
                let (v, p2) = if tok.kind == Kind::Ident {
                    field_accessor_spec(src, p1)
                } else if tok.kind == Kind::Bang {
                    let (h, q) = variable_spec(src, p1);
                    (match h {
                        Ok(o) => Ok(Statement::Var(o)),
                        Err(e) => Err(e),
                    }, q)
                } else {
                    (Err(Error::UnexpectedToken(tok)), p1)
                };
                match v {
                    Err(e) => (Err(e), p2),
                    Ok(v) => {
                        let (r, p3) = expect_spec(src, p2, Kind::RBracket);
                        match r {
                            Err(e) => (Err(e), p3),
                            Ok(_) => (Ok(v), p3),
                        }
                    },
                }
            },
        }
    }
}

/// The value of an import variable: bracketed, a variable or a hex literal.
pub open spec fn import_var_value_spec(src: Seq<u8>, pos: nat) -> (Result<Statement, Error>, nat) {
    match peek_spec(src, pos).0 {
        Err(e) => (Err(e), pos),
        Ok(tok) => if tok.kind == Kind::LBracket {
            bracketed_value_spec(src, pos)
        } else if tok.kind == Kind::Bang {
            let (h, q) = variable_spec(src, pos);
            (match h {
                Ok(o) => Ok(Statement::Var(o)),
                Err(e) => Err(e),
            }, q)
        } else if tok.kind == Kind::HexNumber {
            let (h, q) = hex_lit_spec(src, pos);
            (match h {
                Ok(o) => Ok(Statement::HexLiteral(o)),
                Err(e) => Err(e),
            }, q)
        } else {
            (Err(Error::UnexpectedToken(tok)), pos)
        },
    }
}

/// The variables of an import from `pos` on, after those in `acc`, up to the
/// closing `}`: `name: value`, separated by commas.
pub open spec fn import_vars_spec(src: Seq<u8>, pos: nat, acc: Seq<Statement>) -> (Result<Seq<Statement>, Error>, nat)
    decreases src.len() - pos,
{
    if pos > src.len() {
        (Ok(acc), pos)
    } else {
        match peek_spec(src, pos).0 {
            Err(e) => (Err(e), pos),
            Ok(tok) => if tok.kind == Kind::RBrace {
                (Ok(acc), pos)
            } else {
                let (n, p1) = identifier_spec(src, pos);
                match n {
                    Err(e) => (Err(e), p1),
                    Ok(name) => {
                        let (c, p2) = expect_spec(src, p1, Kind::Colon);
                        if c is Err {
                            (Err(c->Err_0), p2)
                        } else {
                            let (v, p3) = import_var_value_spec(src, p2);
                            match v {
                                Err(e) => (Err(e), p3),
                                Ok(value) => match peek_spec(src, p3).0 {
                                    Err(e) => (Err(e), p3),
                                    Ok(next) => {
                                        let (s, p4) = if next.kind == Kind::RBrace {
                                            (Ok(next), p3)
                                        } else {
                                            expect_spec(src, p3, Kind::Comma)
                                        };
                                        match s {
                                            Err(e) => (Err(e), p4),
                                            Ok(_) => {
                                                let var = Statement::ImportVar { name, value: Box::new(value) };
                                                if pos < p4 <= src.len() {
                                                    import_vars_spec(src, p4, acc.push(var))
                                                } else {
                                                    (Ok(acc.push(var)), p4)
                                                }
                                            },
                                        }
                                    },
                                },
                            }
                        }
                    },
                }
            },
        }
    }
}

/// The address of an import: `&[`, a hex literal, `]`.
pub open spec fn import_address_spec(src: Seq<u8>, pos: nat) -> (Result<Statement, Error>, nat) {
    let (a, p1) = expect_spec(src, pos, Kind::Ampersand);
    if a is Err {
        (Err(a->Err_0), p1)
    } else {
        let (b, p2) = expect_spec(src, p1, Kind::LBracket);
        if b is Err {
            (Err(b->Err_0), p2)
        } else {
            match peek_spec(src, p2).0 {
                Err(e) => (Err(e), p2),
                Ok(tok) => if tok.kind == Kind::HexNumber {
                    let (h, p3) = hex_lit_spec(src, p2);
                    match h {
                        Err(e) => (Err(e), p3),
                        Ok(o) => {
                            let (c, p4) = expect_spec(src, p3, Kind::RBracket);
                            match c {
                                Err(e) => (Err(e), p4),
                                Ok(_) => (Ok(Statement::HexLiteral(o)), p4),
                            }
                        },
                    }
                } else {
                    (Err(Error::UnexpectedToken(tok)), p2)
                },
            }
        }
    }
}

/// An import: the keyword, the path, the module's name, its address, and its
/// variables in braces.
pub open spec fn import_spec(src: Seq<u8>, pos: nat) -> (Result<StatementView, Error>, nat) {
    let (k, p0) = next_token(src, pos);
    if k is Err {
        (Err(k->Err_0), p0)
    } else {
        let (pa, p1) = string_spec(src, p0);
        match pa {
            Err(e) => (Err(e), p1),
            Ok(path) => {
                let (n, p2) = identifier_spec(src, p1);
                match n {
                    Err(e) => (Err(e), p2),
                    Ok(name) => {
                        let (ad, p3) = import_address_spec(src, p2);
                        match ad {
                            Err(e) => (Err(e), p3),
                            Ok(address) => {
                                let (l, p4) = expect_spec(src, p3, Kind::LBrace);
                                if l is Err {
                                    (Err(l->Err_0), p4)
                                } else {
                                    let (vs, p5) = import_vars_spec(src, p4, Seq::empty());
                                    match vs {
                                        Err(e) => (Err(e), p5),
                                        Ok(variables) => {
                                            let (r, p6) = expect_spec(src, p5, Kind::RBrace);
                                            match r {
                                                Err(e) => (Err(e), p6),
                                                Ok(_) => (Ok(StatementView::Import { name, path, address, variables }), p6),
                                            }
                                        },
                                    }
                                }
                            },
                        }
                    },
                }
            },
        }
    }
}

/// Reads `module.field`.
fn parse_field_accessor(lexer: &mut Lexer) -> (r: Result<Statement, Error>)
    ensures
        final(lexer).src() == old(lexer).src(),
        (r, final(lexer).pos()) == field_accessor_spec(old(lexer).src(), old(lexer).pos()),
        old(lexer).pos() <= final(lexer).pos() <= old(lexer).src().len(),
        r is Ok ==> old(lexer).pos() < final(lexer).pos(),
{
    let module = parse_identifier(lexer)?;
    expect(Kind::Dot, lexer)?;
    let field = parse_identifier(lexer)?;
    Ok(Statement::FieldAccessor { module, field })
}

/// Reads `[module.field]` or `[!variable]`.
fn parse_bracketed_value(lexer: &mut Lexer) -> (r: Result<Statement, Error>)
    ensures
        final(lexer).src() == old(lexer).src(),
        (r, final(lexer).pos()) == bracketed_value_spec(old(lexer).src(), old(lexer).pos()),
        old(lexer).pos() <= final(lexer).pos() <= old(lexer).src().len(),
        r is Ok ==> old(lexer).pos() < final(lexer).pos(),
{
    expect(Kind::LBracket, lexer)?;
    let token = peek(lexer)?;
    let statement = if token.kind == Kind::Ident {
        parse_field_accessor(lexer)?
    } else if token.kind == Kind::Bang {
        Statement::Var(parse_variable(lexer)?)
    } else {
        return Err(Error::UnexpectedToken(token));
    };
    expect(Kind::RBracket, lexer)?;
    Ok(statement)
}

/// Reads the value of an import variable.
fn parse_import_var_value(lexer: &mut Lexer) -> (r: Result<Statement, Error>)
    ensures
        final(lexer).src() == old(lexer).src(),
        (r, final(lexer).pos()) == import_var_value_spec(old(lexer).src(), old(lexer).pos()),
        old(lexer).pos() <= final(lexer).pos() <= old(lexer).src().len(),
        r is Ok ==> old(lexer).pos() < final(lexer).pos(),
{
    let token = peek(lexer)?;
    if token.kind == Kind::LBracket {
        parse_bracketed_value(lexer)
    } else if token.kind == Kind::Bang {
        Ok(Statement::Var(parse_variable(lexer)?))
    } else if token.kind == Kind::HexNumber {
        Ok(Statement::HexLiteral(parse_hex_lit(lexer)?))
    } else {
        Err(Error::UnexpectedToken(token))
    }
}

/// Reads the variables of an import after those in `variables`.
fn parse_import_vars(lexer: &mut Lexer, variables: Vec<Statement>) -> (r: Result<Vec<Statement>, Error>)
    ensures
        final(lexer).src() == old(lexer).src(),
        match import_vars_spec(old(lexer).src(), old(lexer).pos(), variables@) {
            (Ok(vs), p) => r matches Ok(v) && v@ == vs && final(lexer).pos() == p,
            (Err(e), p) => r == Err::<Vec<Statement>, Error>(e) && final(lexer).pos() == p,
        },
        old(lexer).pos() <= final(lexer).pos() <= old(lexer).src().len(),
    decreases old(lexer).src().len() - old(lexer).pos(),
{
    let mut variables = variables;
    let token = peek(lexer)?;
    if token.kind == Kind::RBrace {
        return Ok(variables);
    }
    let name = parse_identifier(lexer)?;
    expect(Kind::Colon, lexer)?;
    let value = parse_import_var_value(lexer)?;
    let next = peek(lexer)?;
    if next.kind != Kind::RBrace {
        expect(Kind::Comma, lexer)?;
    }
    variables.push(Statement::ImportVar { name, value: Box::new(value) });
    parse_import_vars(lexer, variables)
}

/// Reads `&[$address]`.
fn parse_import_address(lexer: &mut Lexer) -> (r: Result<Statement, Error>)
    ensures
        final(lexer).src() == old(lexer).src(),
        (r, final(lexer).pos()) == import_address_spec(old(lexer).src(), old(lexer).pos()),
        old(lexer).pos() <= final(lexer).pos() <= old(lexer).src().len(),
        r is Ok ==> old(lexer).pos() < final(lexer).pos(),
{
    expect(Kind::Ampersand, lexer)?;
    expect(Kind::LBracket, lexer)?;
    let token = peek(lexer)?;
    if token.kind != Kind::HexNumber {
        return Err(Error::UnexpectedToken(token));
    }
    let value = parse_hex_lit(lexer)?;
    expect(Kind::RBracket, lexer)?;
    Ok(Statement::HexLiteral(value))
}

/// Reads an import statement; its first token, the keyword, is taken as it is.
pub fn parse_import(lexer: &mut Lexer) -> (r: Result<Statement, Error>)
    ensures
        final(lexer).src() == old(lexer).src(),
        match import_spec(old(lexer).src(), old(lexer).pos()) {
            (Ok(v), p) => r matches Ok(s) && s@ == v && final(lexer).pos() == p,
            (Err(e), p) => r == Err::<Statement, Error>(e) && final(lexer).pos() == p,
        },
        old(lexer).pos() <= final(lexer).pos() <= old(lexer).src().len(),
        r is Ok ==> old(lexer).pos() < final(lexer).pos(),
{
    let keyword = lexer.next();
    proof {
        lemma_lex_next(old(lexer).src(), old(lexer).pos());
    }
    match keyword {
        None => return Err(Error::UnexpectedEof),
        Some(Err(e)) => return Err(e),
        Some(Ok(_)) => {},
    }
    let path = parse_string(lexer)?;
    let name = parse_identifier(lexer)?;
    let address = parse_import_address(lexer)?;
    expect(Kind::LBrace, lexer)?;
    let variables = parse_import_vars(lexer, Vec::new())?;
    expect(Kind::RBrace, lexer)?;
    Ok(Statement::Import { name, path, address: Box::new(address), variables })
}

} // verus!
