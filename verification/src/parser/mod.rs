//! The parser of the assembly language: from source text to statements.
pub mod ast;
pub mod common;
pub mod error;
pub mod expressions;
pub mod import;
pub mod instructions;
pub mod syntax;

use vstd::prelude::*;
use vstd::string::StringSliceAdditionalSpecFns;

use crate::lexer::{lex_next, Kind, Lexer};
use ast::{Ast, Statement, StatementView};
use common::{expect, next_token, peek, peek_spec};
use error::Error;
use import::{import_spec, parse_import};
use instructions::{
    call_spec, int_spec, is_jump_keyword, is_no_args_keyword, is_reg_value_keyword, is_single_reg_keyword,
    jmp_spec, jump_spec, mov_spec, no_args_spec, parse_call, parse_int, parse_jmp, parse_jump, parse_mov,
    parse_no_args, parse_psh, parse_reg_value, parse_single_reg, psh_spec, reg_value_spec, single_reg_spec,
};
use syntax::{const_spec, data_spec, label_spec, parse_const, parse_data, parse_label, DataSize};

verus! {

/// A parse of one statement, the statement taken by its view.
pub open spec fn viewed(r: (Result<Statement, Error>, nat)) -> (Result<StatementView, Error>, nat) {
    (
        match r.0 {
            Ok(s) => Ok(s@),
            Err(e) => Err(e),
        },
        r.1,
    )
}

/// A declaration after `+`, which exports it: a label, a constant or a data block.
pub open spec fn exported_spec(src: Seq<u8>, pos: nat) -> (Result<StatementView, Error>, nat) {
    match peek_spec(src, pos).0 {
        Err(e) => (Err(e), pos),
        Ok(tok) => if tok.kind == Kind::Ident {
            viewed(label_spec(src, pos, true))
        } else if tok.kind == Kind::Const {
            viewed(const_spec(src, pos, true))
        } else if tok.kind == Kind::Data8 {
            data_spec(src, pos, DataSize::Byte, true)
        } else if tok.kind == Kind::Data16 {
            data_spec(src, pos, DataSize::Word, true)
        } else {
            (Err(Error::UnexpectedToken(tok)), pos)
        },
    }
}

/// One statement from `pos` on, chosen by its first token.
pub open spec fn statement_spec(src: Seq<u8>, pos: nat) -> (Result<StatementView, Error>, nat) {
    match peek_spec(src, pos).0 {
        Err(e) => (Err(e), pos),
        Ok(tok) => {
            let k = tok.kind;
            if k == Kind::Plus {
                exported_spec(src, next_token(src, pos).1)
            } else if k == Kind::Ident {
                viewed(label_spec(src, pos, false))
            } else if k == Kind::Const {
                viewed(const_spec(src, pos, false))
            } else if k == Kind::Data8 {
                data_spec(src, pos, DataSize::Byte, false)
            } else if k == Kind::Data16 {
                data_spec(src, pos, DataSize::Word, false)
            } else if k == Kind::Import {
                import_spec(src, pos)
            } else if k == Kind::Mov {
                viewed(mov_spec(src, pos))
            } else if is_reg_value_keyword(k) {
                viewed(reg_value_spec(src, pos, k))
            } else if is_jump_keyword(k) {
                viewed(jump_spec(src, pos, k))
            } else if is_single_reg_keyword(k) {
                viewed(single_reg_spec(src, pos, k))
            } else if is_no_args_keyword(k) {
                viewed(no_args_spec(src, pos, k))
            } else if k == Kind::Jmp {
                viewed(jmp_spec(src, pos))
            } else if k == Kind::Psh {
                viewed(psh_spec(src, pos))
            } else if k == Kind::Call {
                viewed(call_spec(src, pos))
            } else if k == Kind::Int {
                viewed(int_spec(src, pos))
            } else {
                (Err(Error::UnexpectedToken(tok)), pos)
            }
        },
    }
}

/// Whether no statement is left at `pos`: the source is spent, or its next
/// byte starts no token.
pub open spec fn ends_at(src: Seq<u8>, pos: nat) -> bool {
    match lex_next(src, pos).0 {
        None => true,
        Some(Ok(t)) => t.kind == Kind::Eof,
        Some(Err(_)) => false,
    }
}

/// The statements from `pos` on, after those in `acc`.
pub open spec fn statements_spec(src: Seq<u8>, pos: nat, acc: Seq<StatementView>) -> (Result<Seq<StatementView>, Error>, nat)
    decreases src.len() - pos,
{
    if pos > src.len() || ends_at(src, pos) {
        (Ok(acc), pos)
    } else {
        let (s, p) = statement_spec(src, pos);
        match s {
            Err(e) => (Err(e), p),
            Ok(v) => if pos < p <= src.len() {
                statements_spec(src, p, acc.push(v))
            } else {
                (Ok(acc.push(v)), p)
            },
        }
    }
}

/// The program that a source parses to, or the first error in it.
pub open spec fn parse_spec(src: Seq<u8>) -> Result<Seq<StatementView>, Error> {
    statements_spec(src, 0, Seq::empty()).0
}

/// Reads a declaration after `+` (see `exported_spec`).
fn parse_exported(lexer: &mut Lexer) -> (r: Result<Statement, Error>)
    ensures
        final(lexer).src() == old(lexer).src(),
        match exported_spec(old(lexer).src(), old(lexer).pos()) {
            (Ok(v), p) => r matches Ok(s) && s@ == v && final(lexer).pos() == p,
            (Err(e), p) => r == Err::<Statement, Error>(e) && final(lexer).pos() == p,
        },
        old(lexer).pos() <= final(lexer).pos() <= old(lexer).src().len(),
        r is Ok ==> old(lexer).pos() < final(lexer).pos(),
{
    let token = peek(lexer)?;
    if token.kind == Kind::Ident {
        parse_label(lexer, true)
    } else if token.kind == Kind::Const {
        parse_const(lexer, true)
    } else if token.kind == Kind::Data8 {
        parse_data(lexer, DataSize::Byte, true)
    } else if token.kind == Kind::Data16 {
        parse_data(lexer, DataSize::Word, true)
    } else {
        Err(Error::UnexpectedToken(token))
    }
}

/// Reads one statement (see `statement_spec`).
pub fn parse_statement(lexer: &mut Lexer) -> (r: Result<Statement, Error>)
    ensures
        final(lexer).src() == old(lexer).src(),
        match statement_spec(old(lexer).src(), old(lexer).pos()) {
            (Ok(v), p) => r matches Ok(s) && s@ == v && final(lexer).pos() == p,
            (Err(e), p) => r == Err::<Statement, Error>(e) && final(lexer).pos() == p,
        },
        old(lexer).pos() <= final(lexer).pos() <= old(lexer).src().len(),
        r is Ok ==> old(lexer).pos() < final(lexer).pos(),
{
    let token = peek(lexer)?;
    let k = token.kind;
    if k == Kind::Plus {
        expect(Kind::Plus, lexer)?;
        parse_exported(lexer)
    } else if k == Kind::Ident {
        parse_label(lexer, false)
    } else if k == Kind::Const {
        parse_const(lexer, false)
    } else if k == Kind::Data8 {
        parse_data(lexer, DataSize::Byte, false)
    } else if k == Kind::Data16 {
        parse_data(lexer, DataSize::Word, false)
    } else if k == Kind::Import {
        parse_import(lexer)
    } else if k == Kind::Mov {
        parse_mov(lexer)
    } else if k == Kind::Add || k == Kind::Sub || k == Kind::Mul || k == Kind::And || k == Kind::Or
        || k == Kind::Xor || k == Kind::Lsh || k == Kind::Rsh {
        parse_reg_value(lexer, k)
    } else if k == Kind::Jeq || k == Kind::Jgt || k == Kind::Jne || k == Kind::Jge || k == Kind::Jle
        || k == Kind::Jlt {
        parse_jump(lexer, k)
    } else if k == Kind::Inc || k == Kind::Dec || k == Kind::Not || k == Kind::Pop {
        parse_single_reg(lexer, k)
    } else if k == Kind::Ret || k == Kind::Hlt || k == Kind::Rti {
        parse_no_args(lexer, k)
    } else if k == Kind::Jmp {
        parse_jmp(lexer)
    } else if k == Kind::Psh {
        parse_psh(lexer)
    } else if k == Kind::Call {
        parse_call(lexer)
    } else if k == Kind::Int {
        parse_int(lexer)
    } else {
        Err(Error::UnexpectedToken(token))
    }
}

/// Parses a whole source into its statements, or gives the first error.
pub fn parse(source: &str) -> (r: Result<Ast, Error>)
    ensures
        match parse_spec(source.spec_bytes()) {
            Ok(vs) => r matches Ok(ast) && ast@ == vs,
            Err(e) => r == Err::<Ast, Error>(e),
        },
{
    let mut lexer = Lexer::new(source.as_bytes());
    let ghost src = lexer.src();
    let ghost goal = statements_spec(src, 0, Seq::empty());
    let mut statements: Vec<Statement> = Vec::new();
    assert(statements@.map_values(|s: Statement| s@) =~= Seq::<StatementView>::empty());
    loop
        invariant
            lexer.src() == src,
            src == source.spec_bytes(),
            goal == statements_spec(src, 0, Seq::empty()),
            lexer.pos() <= src.len(),
            statements_spec(src, lexer.pos(), statements@.map_values(|s: Statement| s@)) == goal,
        decreases src.len() - lexer.pos(),
    {
        let _ = lexer.position();
        if lexer.is_empty() {
            return Ok(Ast { statements });
        }
        let ghost before = statements@.map_values(|s: Statement| s@);
        let statement = parse_statement(&mut lexer)?;
        let ghost v = statement@;
        statements.push(statement);
        assert(statements@.map_values(|s: Statement| s@) =~= before.push(v));
    }
}

} // verus!
