//! Declarations: labels, constants and data blocks, and the simple addresses
//! they hold.
use vstd::prelude::*;

use crate::lexer::{Kind, Lexer};
use crate::parser::ast::{Statement, StatementView};
use crate::parser::common::{
    expect, expect_fail, expect_fail_spec, expect_spec, hex_lit_spec, identifier_spec, parse_hex_lit,
    parse_identifier, parse_variable, peek, peek_spec, variable_spec,
};
use crate::parser::error::Error;

verus! {

/// The size of each value of a data block.
#[derive(Debug, PartialEq, Eq, Copy, Clone, Structural)]
pub enum DataSize {
    Byte,
    Word,
}

impl DataSize {
    /// The size in bits.
    pub open spec fn spec_bits(self) -> u8 {
        match self {
            DataSize::Byte => 8,
            DataSize::Word => 16,
        }
    }

    /// The size in bits.
    pub fn bits(self) -> (b: u8)
        ensures
            b == self.spec_bits(),
    {
        match self {
            DataSize::Byte => 8,
            DataSize::Word => 16,
        }
    }

    /// The keyword that opens a data block of this size.
    pub open spec fn keyword(self) -> Kind {
        match self {
            DataSize::Byte => Kind::Data8,
            DataSize::Word => Kind::Data16,
        }
    }
}

/// `&[`, then a hex literal, a variable or (where `registers`) a register,
/// then `]`: an address of a literal, or the variable or register itself.
pub open spec fn address_spec(src: Seq<u8>, pos: nat, registers: bool) -> (Result<Statement, Error>, nat) {
    let (a, p1) = expect_spec(src, pos, Kind::Ampersand);
    if a is Err {
        (Err(a->Err_0), p1)
    } else {
        let (b, p2) = expect_spec(src, p1, Kind::LBracket);
        if b is Err {
            (Err(b->Err_0), p2)
        } else {
            match peek_spec(src, p2).0 {
                Err(e) => (Err(e), p2),
                Ok(tok) => {
                    let (v, p3) = if tok.kind == Kind::HexNumber {
                        let (h, q) = hex_lit_spec(src, p2);
                        (match h {
                            Ok(o) => Ok(Statement::Address(Box::new(Statement::HexLiteral(o)))),
                            Err(e) => Err(e),
                        }, q)
                    } else if tok.kind == Kind::Bang {
                        let (h, q) = variable_spec(src, p2);
                        (match h {
                            Ok(o) => Ok(Statement::Var(o)),
                            Err(e) => Err(e),
                        }, q)
                    } else if registers && tok.kind == Kind::Ident {
                        let (h, q) = identifier_spec(src, p2);
                        (match h {
                            Ok(o) => Ok(Statement::Register(o)),
                            Err(e) => Err(e),
                        }, q)
                    } else {
                        (Err(Error::UnexpectedToken(tok)), p2)
                    };
                    match v {
                        Err(e) => (Err(e), p3),
                        Ok(v) => {
                            let (c, p4) = expect_spec(src, p3, Kind::RBracket);
                            match c {
                                Err(e) => (Err(e), p4),
                                Ok(_) => (Ok(v), p4),
                            }
                        },
                    }
                },
            }
        }
    }
}

/// Reads `&[` hex literal, variable or register `]`.
pub fn parse_address_ident(lexer: &mut Lexer) -> (r: Result<Statement, Error>)
    ensures
        final(lexer).src() == old(lexer).src(),
        (r, final(lexer).pos()) == address_spec(old(lexer).src(), old(lexer).pos(), true),
        old(lexer).pos() <= final(lexer).pos() <= old(lexer).src().len(),
        r is Ok ==> old(lexer).pos() < final(lexer).pos(),
{
    parse_address(lexer, true)
}

/// Reads `&[` hex literal or variable `]`.
pub fn parse_simple_address(lexer: &mut Lexer) -> (r: Result<Statement, Error>)
    ensures
        final(lexer).src() == old(lexer).src(),
        (r, final(lexer).pos()) == address_spec(old(lexer).src(), old(lexer).pos(), false),
        old(lexer).pos() <= final(lexer).pos() <= old(lexer).src().len(),
        r is Ok ==> old(lexer).pos() < final(lexer).pos(),
{
    parse_address(lexer, false)
}

/// Reads an address (see `address_spec`).
fn parse_address(lexer: &mut Lexer, registers: bool) -> (r: Result<Statement, Error>)
    ensures
        final(lexer).src() == old(lexer).src(),
        (r, final(lexer).pos()) == address_spec(old(lexer).src(), old(lexer).pos(), registers),
        old(lexer).pos() <= final(lexer).pos() <= old(lexer).src().len(),
        r is Ok ==> old(lexer).pos() < final(lexer).pos(),
{
    expect(Kind::Ampersand, lexer)?;
    expect(Kind::LBracket, lexer)?;
    let token = peek(lexer)?;
    let value = if token.kind == Kind::HexNumber {
        Statement::Address(Box::new(Statement::HexLiteral(parse_hex_lit(lexer)?)))
    } else if token.kind == Kind::Bang {
        Statement::Var(parse_variable(lexer)?)
    } else if registers && token.kind == Kind::Ident {
        Statement::Register(parse_identifier(lexer)?)
    } else {
        return Err(Error::UnexpectedToken(token));
    };
    expect(Kind::RBracket, lexer)?;
    Ok(value)
}

/// A label: an identifier and `:`.
pub open spec fn label_spec(src: Seq<u8>, pos: nat, exported: bool) -> (Result<Statement, Error>, nat) {
    let (n, p1) = identifier_spec(src, pos);
    match n {
        Err(e) => (Err(e), p1),
        Ok(name) => {
            let (c, p2) = expect_fail_spec(src, p1, Kind::Colon);
            match c {
                Err(e) => (Err(e), p2),
                Ok(_) => (Ok(Statement::Label { name, exported }), p2),
            }
        },
    }
}

/// Reads a label, `name:`.
pub fn parse_label(lexer: &mut Lexer, exported: bool) -> (r: Result<Statement, Error>)
    ensures
        final(lexer).src() == old(lexer).src(),
        (r, final(lexer).pos()) == label_spec(old(lexer).src(), old(lexer).pos(), exported),
        old(lexer).pos() <= final(lexer).pos() <= old(lexer).src().len(),
        r is Ok ==> old(lexer).pos() < final(lexer).pos(),
{
    let name = parse_identifier(lexer)?;
    expect_fail(Kind::Colon, lexer)?;
    Ok(Statement::Label { name, exported })
}

/// A constant: `const`, a name, `=`, and a simple address or a hex literal.
pub open spec fn const_spec(src: Seq<u8>, pos: nat, exported: bool) -> (Result<Statement, Error>, nat) {
    let (k, p0) = expect_fail_spec(src, pos, Kind::Const);
    if k is Err {
        (Err(k->Err_0), p0)
    } else {
        let (n, p1) = identifier_spec(src, p0);
        match n {
            Err(e) => (Err(e), p1),
            Ok(name) => {
                let (q, p2) = expect_fail_spec(src, p1, Kind::Equal);
                if q is Err {
                    (Err(q->Err_0), p2)
                } else {
                    match peek_spec(src, p2).0 {
                        Err(e) => (Err(e), p2),
                        Ok(tok) => {
                            let (v, p3) = if tok.kind == Kind::Ampersand {
                                address_spec(src, p2, false)
                            } else if tok.kind == Kind::HexNumber {
                                let (h, q3) = hex_lit_spec(src, p2);
                                (match h {
                                    Ok(o) => Ok(Statement::HexLiteral(o)),
                                    Err(e) => Err(e),
                                }, q3)
                            } else {
                                (Err(Error::UnexpectedToken(tok)), p2)
                            };
                            match v {
                                Err(e) => (Err(e), p3),
                                Ok(value) => (Ok(Statement::Const { name, exported, value: Box::new(value) }), p3),
                            }
                        },
                    }
                }
            },
        }
    }
}

/// Reads a constant, `const name = value`.
pub fn parse_const(lexer: &mut Lexer, exported: bool) -> (r: Result<Statement, Error>)
    ensures
        final(lexer).src() == old(lexer).src(),
        (r, final(lexer).pos()) == const_spec(old(lexer).src(), old(lexer).pos(), exported),
        old(lexer).pos() <= final(lexer).pos() <= old(lexer).src().len(),
        r is Ok ==> old(lexer).pos() < final(lexer).pos(),
{
    expect_fail(Kind::Const, lexer)?;
    let name = parse_identifier(lexer)?;
    expect_fail(Kind::Equal, lexer)?;
    let token = peek(lexer)?;
    let value = if token.kind == Kind::Ampersand {
        parse_simple_address(lexer)?
    } else if token.kind == Kind::HexNumber {
        Statement::HexLiteral(parse_hex_lit(lexer)?)
    } else {
        return Err(Error::UnexpectedToken(token));
    };
    Ok(Statement::Const { name, exported, value: Box::new(value) })
}

/// The values of a data block from `pos` on, after those in `acc`, up to the
/// closing `}`: simple addresses or hex literals, separated by commas.
pub open spec fn data_values_spec(src: Seq<u8>, pos: nat, acc: Seq<Statement>) -> (Result<Seq<Statement>, Error>, nat)
    decreases src.len() - pos,
{
    if pos > src.len() {
        (Ok(acc), pos)
    } else {
        match peek_spec(src, pos).0 {
            Err(e) => (Err(e), pos),
            Ok(tok) => if tok.kind == Kind::RBrace {
                (Ok(acc), pos)
            } else {
                let (v, p1) = if tok.kind == Kind::Ampersand {
                    address_spec(src, pos, false)
                } else if tok.kind == Kind::HexNumber {
                    let (h, q) = hex_lit_spec(src, pos);
                    (match h {
                        Ok(o) => Ok(Statement::HexLiteral(o)),
                        Err(e) => Err(e),
                    }, q)
                } else {
                    (Err(Error::UnexpectedToken(tok)), pos)
                };
                match v {
                    Err(e) => (Err(e), p1),
                    Ok(value) => match peek_spec(src, p1).0 {
                        Err(e) => (Err(e), p1),
                        Ok(next) => {
                            let (c, p2) = if next.kind == Kind::RBrace {
                                (Ok(next), p1)
                            } else {
                                expect_spec(src, p1, Kind::Comma)
                            };
                            match c {
                                Err(e) => (Err(e), p2),
                                Ok(_) => if pos < p2 <= src.len() {
                                    data_values_spec(src, p2, acc.push(value))
                                } else {
                                    (Ok(acc.push(value)), p2)
                                },
                            }
                        },
                    },
                }
            },
        }
    }
}

/// A data block: `data8` or `data16`, a name, `=`, and its values in braces.
pub open spec fn data_spec(src: Seq<u8>, pos: nat, size: DataSize, exported: bool) -> (Result<StatementView, Error>, nat) {
    let (k, p0) = expect_fail_spec(src, pos, size.keyword());
    if k is Err {
        (Err(k->Err_0), p0)
    } else {
        let (n, p1) = identifier_spec(src, p0);
        match n {
            Err(e) => (Err(e), p1),
            Ok(name) => {
                let (q, p2) = expect_fail_spec(src, p1, Kind::Equal);
                if q is Err {
                    (Err(q->Err_0), p2)
                } else {
                    let (l, p3) = expect_spec(src, p2, Kind::LBrace);
                    if l is Err {
                        (Err(l->Err_0), p3)
                    } else {
                        let (vs, p4) = data_values_spec(src, p3, Seq::empty());
                        match vs {
                            Err(e) => (Err(e), p4),
                            Ok(values) => {
                                let (r, p5) = expect_spec(src, p4, Kind::RBrace);
                                match r {
                                    Err(e) => (Err(e), p5),
                                    Ok(_) => (Ok(StatementView::Data { name, size: size.spec_bits(), exported, values }), p5),
                                }
                            },
                        }
                    }
                }
            },
        }
    }
}

/// Reads a data block, `data8 name = { $01, $02 }` or `data16 ...`.
pub fn parse_data(lexer: &mut Lexer, size: DataSize, exported: bool) -> (r: Result<Statement, Error>)
    ensures
        final(lexer).src() == old(lexer).src(),
        match data_spec(old(lexer).src(), old(lexer).pos(), size, exported) {
            (Ok(v), p) => r matches Ok(s) && s@ == v && final(lexer).pos() == p,
            (Err(e), p) => r == Err::<Statement, Error>(e) && final(lexer).pos() == p,
        },
        old(lexer).pos() <= final(lexer).pos() <= old(lexer).src().len(),
        r is Ok ==> old(lexer).pos() < final(lexer).pos(),
{
    match size {
        DataSize::Byte => expect_fail(Kind::Data8, lexer)?,
        DataSize::Word => expect_fail(Kind::Data16, lexer)?,
    };
    let name = parse_identifier(lexer)?;
    expect_fail(Kind::Equal, lexer)?;
    expect(Kind::LBrace, lexer)?;
    let values = parse_data_values(lexer)?;
    expect(Kind::RBrace, lexer)?;
    Ok(Statement::Data { name, size: size.bits(), exported, values })
}

/// Reads the values of a data block up to its closing `}`.
fn parse_data_values(lexer: &mut Lexer) -> (r: Result<Vec<Statement>, Error>)
    ensures
        final(lexer).src() == old(lexer).src(),
        match data_values_spec(old(lexer).src(), old(lexer).pos(), Seq::empty()) {
            (Ok(vs), p) => r matches Ok(v) && v@ == vs && final(lexer).pos() == p,
            (Err(e), p) => r == Err::<Vec<Statement>, Error>(e) && final(lexer).pos() == p,
        },
        old(lexer).pos() <= final(lexer).pos() <= old(lexer).src().len(),
{
    let mut values: Vec<Statement> = Vec::new();
    parse_data_values_from(lexer, values)
}

/// Reads the values of a data block after those in `values`.
fn parse_data_values_from(lexer: &mut Lexer, values: Vec<Statement>) -> (r: Result<Vec<Statement>, Error>)
    ensures
        final(lexer).src() == old(lexer).src(),
        match data_values_spec(old(lexer).src(), old(lexer).pos(), values@) {
            (Ok(vs), p) => r matches Ok(v) && v@ == vs && final(lexer).pos() == p,
            (Err(e), p) => r == Err::<Vec<Statement>, Error>(e) && final(lexer).pos() == p,
        },
        old(lexer).pos() <= final(lexer).pos() <= old(lexer).src().len(),
    decreases old(lexer).src().len() - old(lexer).pos(),
{
    let mut values = values;
    let token = peek(lexer)?;
    if token.kind == Kind::RBrace {
        return Ok(values);
    }
    let value = if token.kind == Kind::Ampersand {
        parse_simple_address(lexer)?
    } else if token.kind == Kind::HexNumber {
        Statement::HexLiteral(parse_hex_lit(lexer)?)
    } else {
        return Err(Error::UnexpectedToken(token));
    };
    let next = peek(lexer)?;
    if next.kind != Kind::RBrace {
        expect(Kind::Comma, lexer)?;
    }
    values.push(value);
    parse_data_values_from(lexer, values)
}

} // verus!
