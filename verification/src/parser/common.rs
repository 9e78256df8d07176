//! The pieces every parser is made of: reading a token of a given kind and
//! taking its place in the source.
use vstd::prelude::*;

use crate::lexer::{lemma_lex_next, lex_next, Kind, Lexer, Token};
use crate::parser::ast::ByteOffset;
use crate::parser::error::Error;

verus! {

/// The next token from `pos` on and the position after it; where no token is
/// left, `UnexpectedEof`.
pub open spec fn next_token(src: Seq<u8>, pos: nat) -> (Result<Token, Error>, nat) {
    let (r, p) = lex_next(src, pos);
    (
        match r {
            None => Err(Error::UnexpectedEof),
            Some(x) => x,
        },
        p,
    )
}

/// The next token, without moving on.
pub open spec fn peek_spec(src: Seq<u8>, pos: nat) -> (Result<Token, Error>, nat) {
    (next_token(src, pos).0, pos)
}

/// A token of `kind`; any other token is refused with `Expected`.
pub open spec fn expect_spec(src: Seq<u8>, pos: nat, kind: Kind) -> (Result<Token, Error>, nat) {
    let (r, p) = next_token(src, pos);
    (
        match r {
            Ok(t) => if t.kind == kind {
                Ok(t)
            } else {
                Err(Error::Expected(kind, t))
            },
            Err(e) => Err(e),
        },
        p,
    )
}

/// A token of `kind`; any other token is refused with `UnexpectedToken`.
pub open spec fn expect_fail_spec(src: Seq<u8>, pos: nat, kind: Kind) -> (Result<Token, Error>, nat) {
    let (r, p) = next_token(src, pos);
    (
        match r {
            Ok(t) => if t.kind == kind {
                Ok(t)
            } else {
                Err(Error::UnexpectedToken(t))
            },
            Err(e) => Err(e),
        },
        p,
    )
}

/// Where the token read stands.
pub open spec fn offset_of(r: (Result<Token, Error>, nat)) -> (Result<ByteOffset, Error>, nat) {
    (
        match r.0 {
            Ok(t) => Ok(t.offset),
            Err(e) => Err(e),
        },
        r.1,
    )
}

/// A keyword of `kind`, by where it stands.
pub open spec fn keyword_spec(src: Seq<u8>, pos: nat, kind: Kind) -> (Result<ByteOffset, Error>, nat) {
    offset_of(expect_fail_spec(src, pos, kind))
}

/// An identifier, by where it stands.
pub open spec fn identifier_spec(src: Seq<u8>, pos: nat) -> (Result<ByteOffset, Error>, nat) {
    offset_of(expect_spec(src, pos, Kind::Ident))
}

/// A hex literal (after its `$`), by where its digits stand.
pub open spec fn hex_lit_spec(src: Seq<u8>, pos: nat) -> (Result<ByteOffset, Error>, nat) {
    offset_of(expect_spec(src, pos, Kind::HexNumber))
}

/// A string literal, by where its content stands.
pub open spec fn string_spec(src: Seq<u8>, pos: nat) -> (Result<ByteOffset, Error>, nat) {
    offset_of(expect_spec(src, pos, Kind::String))
}

/// A variable: `!` and an identifier, by where the identifier stands.
pub open spec fn variable_spec(src: Seq<u8>, pos: nat) -> (Result<ByteOffset, Error>, nat) {
    let (r, p) = expect_spec(src, pos, Kind::Bang);
    match r {
        Err(e) => (Err(e), p),
        Ok(_) => identifier_spec(src, p),
    }
}

/// The next token, without moving on; the end of the source is an error.
pub fn peek(lexer: &Lexer) -> (r: Result<Token, Error>)
    ensures
        (r, lexer.pos()) == peek_spec(lexer.src(), lexer.pos()),
        lexer.pos() <= lexer.src().len() <= usize::MAX,
{
    match lexer.peek() {
        None => Err(Error::UnexpectedEof),
        Some(x) => x,
    }
}

/// Reads a token of `kind`; any other token is refused with `Expected`.
pub fn expect(kind: Kind, lexer: &mut Lexer) -> (r: Result<Token, Error>)
    ensures
        final(lexer).src() == old(lexer).src(),
        (r, final(lexer).pos()) == expect_spec(old(lexer).src(), old(lexer).pos(), kind),
        old(lexer).pos() <= final(lexer).pos() <= old(lexer).src().len() <= usize::MAX,
        r is Ok && kind != Kind::Eof ==> old(lexer).pos() < final(lexer).pos(),
        r matches Ok(t) ==> t.offset.start <= t.offset.end <= old(lexer).src().len(),
{
    let r = lexer.next();
    proof {
        lemma_lex_next(old(lexer).src(), old(lexer).pos());
    }
    match r {
        None => Err(Error::UnexpectedEof),
        Some(Err(e)) => Err(e),
        Some(Ok(t)) => if t.kind == kind {
            Ok(t)
        } else {
            Err(Error::Expected(kind, t))
        },
    }
}

/// Reads a token of `kind`; any other token is refused with `UnexpectedToken`.
pub fn expect_fail(kind: Kind, lexer: &mut Lexer) -> (r: Result<Token, Error>)
    ensures
        final(lexer).src() == old(lexer).src(),
        (r, final(lexer).pos()) == expect_fail_spec(old(lexer).src(), old(lexer).pos(), kind),
        old(lexer).pos() <= final(lexer).pos() <= old(lexer).src().len() <= usize::MAX,
        r is Ok && kind != Kind::Eof ==> old(lexer).pos() < final(lexer).pos(),
        r matches Ok(t) ==> t.offset.start <= t.offset.end <= old(lexer).src().len(),
{
    let r = lexer.next();
    proof {
        lemma_lex_next(old(lexer).src(), old(lexer).pos());
    }
    match r {
        None => Err(Error::UnexpectedEof),
        Some(Err(e)) => Err(e),
        Some(Ok(t)) => if t.kind == kind {
            Ok(t)
        } else {
            Err(Error::UnexpectedToken(t))
        },
    }
}

/// Reads the keyword of `kind` and gives where it stands.
pub fn parse_keyword(lexer: &mut Lexer, kind: Kind) -> (r: Result<ByteOffset, Error>)
    requires
        kind != Kind::Eof,
    ensures
        final(lexer).src() == old(lexer).src(),
        (r, final(lexer).pos()) == keyword_spec(old(lexer).src(), old(lexer).pos(), kind),
        old(lexer).pos() <= final(lexer).pos() <= old(lexer).src().len() <= usize::MAX,
        r is Ok ==> old(lexer).pos() < final(lexer).pos(),
        r matches Ok(o) ==> o.start <= o.end <= old(lexer).src().len(),
{
    let t = expect_fail(kind, lexer)?;
    Ok(t.offset)
}

/// Reads an identifier and gives where it stands.
pub fn parse_identifier(lexer: &mut Lexer) -> (r: Result<ByteOffset, Error>)
    ensures
        final(lexer).src() == old(lexer).src(),
        (r, final(lexer).pos()) == identifier_spec(old(lexer).src(), old(lexer).pos()),
        old(lexer).pos() <= final(lexer).pos() <= old(lexer).src().len() <= usize::MAX,
        r is Ok ==> old(lexer).pos() < final(lexer).pos(),
        r matches Ok(o) ==> o.start <= o.end <= old(lexer).src().len(),
{
    let t = expect(Kind::Ident, lexer)?;
    Ok(t.offset)
}

/// Reads a register name and gives where it stands.
pub fn parse_register(lexer: &mut Lexer) -> (r: Result<ByteOffset, Error>)
    ensures
        final(lexer).src() == old(lexer).src(),
        (r, final(lexer).pos()) == identifier_spec(old(lexer).src(), old(lexer).pos()),
        old(lexer).pos() <= final(lexer).pos() <= old(lexer).src().len() <= usize::MAX,
        r is Ok ==> old(lexer).pos() < final(lexer).pos(),
        r matches Ok(o) ==> o.start <= o.end <= old(lexer).src().len(),
{
    parse_identifier(lexer)
}

/// Reads a hex literal and gives where its digits stand.
pub fn parse_hex_lit(lexer: &mut Lexer) -> (r: Result<ByteOffset, Error>)
    ensures
        final(lexer).src() == old(lexer).src(),
        (r, final(lexer).pos()) == hex_lit_spec(old(lexer).src(), old(lexer).pos()),
        old(lexer).pos() <= final(lexer).pos() <= old(lexer).src().len() <= usize::MAX,
        r is Ok ==> old(lexer).pos() < final(lexer).pos(),
        r matches Ok(o) ==> o.start <= o.end <= old(lexer).src().len(),
{
    let t = expect(Kind::HexNumber, lexer)?;
    Ok(t.offset)
}

/// Reads a string literal and gives where its content stands.
pub fn parse_string(lexer: &mut Lexer) -> (r: Result<ByteOffset, Error>)
    ensures
        final(lexer).src() == old(lexer).src(),
        (r, final(lexer).pos()) == string_spec(old(lexer).src(), old(lexer).pos()),
        old(lexer).pos() <= final(lexer).pos() <= old(lexer).src().len() <= usize::MAX,
        r is Ok ==> old(lexer).pos() < final(lexer).pos(),
        r matches Ok(o) ==> o.start <= o.end <= old(lexer).src().len(),
{
    let t = expect(Kind::String, lexer)?;
    Ok(t.offset)
}

/// Reads a variable, `!` and an identifier, and gives where the identifier stands.
pub fn parse_variable(lexer: &mut Lexer) -> (r: Result<ByteOffset, Error>)
    ensures
        final(lexer).src() == old(lexer).src(),
        (r, final(lexer).pos()) == variable_spec(old(lexer).src(), old(lexer).pos()),
        old(lexer).pos() <= final(lexer).pos() <= old(lexer).src().len() <= usize::MAX,
        r is Ok ==> old(lexer).pos() < final(lexer).pos(),
        r matches Ok(o) ==> o.start <= o.end <= old(lexer).src().len(),
{
    expect(Kind::Bang, lexer)?;
    parse_identifier(lexer)
}

} // verus!
