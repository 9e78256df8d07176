//! The instructions: a keyword and its operands.
use vstd::prelude::*;

use crate::lexer::{Kind, Lexer, Token};
use crate::parser::ast::{Instruction, Statement};
use crate::parser::common::{
    expect, expect_spec, hex_lit_spec, identifier_spec, keyword_spec, parse_hex_lit, parse_keyword,
    parse_register, parse_variable, peek, peek_spec, variable_spec,
};
use crate::parser::error::Error;
use crate::parser::expressions::{
    address_expr_spec, literal_expr_spec, parse_address_expr, parse_literal_expr,
};

verus! {

/// An instruction as a statement.
pub open spec fn instr(i: Instruction) -> Statement {
    Statement::Instruction(Box::new(i))
}

/// The operand that starts with `tok` at `pos`: a register, a hex literal, a
/// variable, a bracketed expression, or (where `address`) an address expression.
pub open spec fn value_spec(src: Seq<u8>, pos: nat, tok: Token, address: bool) -> (Result<Statement, Error>, nat) {
    if tok.kind == Kind::Ident {
        let (h, q) = identifier_spec(src, pos);
        (match h {
            Ok(o) => Ok(Statement::Register(o)),
            Err(e) => Err(e),
        }, q)
    } else if tok.kind == Kind::HexNumber {
        let (h, q) = hex_lit_spec(src, pos);
        (match h {
            Ok(o) => Ok(Statement::HexLiteral(o)),
            Err(e) => Err(e),
        }, q)
    } else if tok.kind == Kind::Bang {
        let (h, q) = variable_spec(src, pos);
        (match h {
            Ok(o) => Ok(Statement::Var(o)),
            Err(e) => Err(e),
        }, q)
    } else if tok.kind == Kind::LBracket {
        literal_expr_spec(src, pos)
    } else if address && tok.kind == Kind::Ampersand {
        address_expr_spec(src, pos)
    } else {
        (Err(Error::UnexpectedToken(tok)), pos)
    }
}

/// Reads the operand that starts with `token` (see `value_spec`).
fn parse_value(lexer: &mut Lexer, token: Token, address: bool) -> (r: Result<Statement, Error>)
    ensures
        final(lexer).src() == old(lexer).src(),
        (r, final(lexer).pos()) == value_spec(old(lexer).src(), old(lexer).pos(), token, address),
        old(lexer).pos() <= final(lexer).pos() <= old(lexer).src().len(),
        r is Ok ==> old(lexer).pos() < final(lexer).pos(),
{
    let _ = lexer.position();
    if token.kind == Kind::Ident {
        Ok(Statement::Register(parse_register(lexer)?))
    } else if token.kind == Kind::HexNumber {
        Ok(Statement::HexLiteral(parse_hex_lit(lexer)?))
    } else if token.kind == Kind::Bang {
        Ok(Statement::Var(parse_variable(lexer)?))
    } else if token.kind == Kind::LBracket {
        parse_literal_expr(lexer)
    } else if address && token.kind == Kind::Ampersand {
        parse_address_expr(lexer)
    } else {
        Err(Error::UnexpectedToken(token))
    }
}

/// The keywords of the instructions that take a register and a value.
pub open spec fn is_reg_value_keyword(kw: Kind) -> bool {
    kw == Kind::Add || kw == Kind::Sub || kw == Kind::Mul || kw == Kind::And || kw == Kind::Or
        || kw == Kind::Xor || kw == Kind::Lsh || kw == Kind::Rsh
}

/// The instruction of keyword `kw` on a register and a value, which is a
/// register where `reg`.
pub open spec fn reg_value_instruction(kw: Kind, reg: bool, lhs: Statement, rhs: Statement) -> Instruction {
    if kw == Kind::Add {
        if reg { Instruction::AddRegReg(lhs, rhs) } else { Instruction::AddLitReg(lhs, rhs) }
    } else if kw == Kind::Sub {
        if reg { Instruction::SubRegReg(lhs, rhs) } else { Instruction::SubLitReg(lhs, rhs) }
    } else if kw == Kind::Mul {
        if reg { Instruction::MulRegReg(lhs, rhs) } else { Instruction::MulLitReg(lhs, rhs) }
    } else if kw == Kind::And {
        if reg { Instruction::AndRegReg(lhs, rhs) } else { Instruction::AndLitReg(lhs, rhs) }
    } else if kw == Kind::Or {
        if reg { Instruction::OrRegReg(lhs, rhs) } else { Instruction::OrLitReg(lhs, rhs) }
    } else if kw == Kind::Xor {
        if reg { Instruction::XorRegReg(lhs, rhs) } else { Instruction::XorLitReg(lhs, rhs) }
    } else if kw == Kind::Lsh {
        if reg { Instruction::LshRegReg(lhs, rhs) } else { Instruction::LshLitReg(lhs, rhs) }
    } else {
        if reg { Instruction::RshRegReg(lhs, rhs) } else { Instruction::RshLitReg(lhs, rhs) }
    }
}

/// The instruction of keyword `kw` on a register and a value.
fn make_reg_value(kw: Kind, reg: bool, lhs: Statement, rhs: Statement) -> (i: Instruction)
    ensures
        i == reg_value_instruction(kw, reg, lhs, rhs),
{
    if kw == Kind::Add {
        if reg { Instruction::AddRegReg(lhs, rhs) } else { Instruction::AddLitReg(lhs, rhs) }
    } else if kw == Kind::Sub {
        if reg { Instruction::SubRegReg(lhs, rhs) } else { Instruction::SubLitReg(lhs, rhs) }
    } else if kw == Kind::Mul {
        if reg { Instruction::MulRegReg(lhs, rhs) } else { Instruction::MulLitReg(lhs, rhs) }
    } else if kw == Kind::And {
        if reg { Instruction::AndRegReg(lhs, rhs) } else { Instruction::AndLitReg(lhs, rhs) }
    } else if kw == Kind::Or {
        if reg { Instruction::OrRegReg(lhs, rhs) } else { Instruction::OrLitReg(lhs, rhs) }
    } else if kw == Kind::Xor {
        if reg { Instruction::XorRegReg(lhs, rhs) } else { Instruction::XorLitReg(lhs, rhs) }
    } else if kw == Kind::Lsh {
        if reg { Instruction::LshRegReg(lhs, rhs) } else { Instruction::LshLitReg(lhs, rhs) }
    } else {
        if reg { Instruction::RshRegReg(lhs, rhs) } else { Instruction::RshLitReg(lhs, rhs) }
    }
}

/// An instruction of keyword `kw` on a register and a value: the keyword, a
/// register, `,`, and a register, hex literal, variable or bracketed expression.
pub open spec fn reg_value_spec(src: Seq<u8>, pos: nat, kw: Kind) -> (Result<Statement, Error>, nat) {
    let (k, p0) = keyword_spec(src, pos, kw);
    if k is Err {
        (Err(k->Err_0), p0)
    } else {
        let (l, p1) = identifier_spec(src, p0);
        match l {
            Err(e) => (Err(e), p1),
            Ok(lo) => {
                let (c, p2) = expect_spec(src, p1, Kind::Comma);
                if c is Err {
                    (Err(c->Err_0), p2)
                } else {
                    match peek_spec(src, p2).0 {
                        Err(e) => (Err(e), p2),
                        Ok(tok) => {
                            let (v, p3) = value_spec(src, p2, tok, false);
                            match v {
                                Err(e) => (Err(e), p3),
                                Ok(rhs) => (Ok(instr(reg_value_instruction(kw, tok.kind == Kind::Ident, Statement::Register(lo), rhs))), p3),
                            }
                        },
                    }
                }
            },
        }
    }
}

/// Reads an instruction of keyword `kw` on a register and a value (see `reg_value_spec`).
pub fn parse_reg_value(lexer: &mut Lexer, kw: Kind) -> (r: Result<Statement, Error>)
    requires
        is_reg_value_keyword(kw),
    ensures
        final(lexer).src() == old(lexer).src(),
        (r, final(lexer).pos()) == reg_value_spec(old(lexer).src(), old(lexer).pos(), kw),
        old(lexer).pos() <= final(lexer).pos() <= old(lexer).src().len(),
        r is Ok ==> old(lexer).pos() < final(lexer).pos(),
{
    parse_keyword(lexer, kw)?;
    let lhs = Statement::Register(parse_register(lexer)?);
    expect(Kind::Comma, lexer)?;
    let token = peek(lexer)?;
    let rhs = parse_value(lexer, token, false)?;
    Ok(Statement::Instruction(Box::new(make_reg_value(kw, token.kind == Kind::Ident, lhs, rhs))))
}

/// Reads `add r1, value`.
pub fn parse_add(lexer: &mut Lexer) -> (r: Result<Statement, Error>)
    ensures
        final(lexer).src() == old(lexer).src(),
        (r, final(lexer).pos()) == reg_value_spec(old(lexer).src(), old(lexer).pos(), Kind::Add),
        old(lexer).pos() <= final(lexer).pos() <= old(lexer).src().len(),
        r is Ok ==> old(lexer).pos() < final(lexer).pos(),
{
    parse_reg_value(lexer, Kind::Add)
}

/// Reads `and r1, value`.
pub fn parse_and(lexer: &mut Lexer) -> (r: Result<Statement, Error>)
    ensures
        final(lexer).src() == old(lexer).src(),
        (r, final(lexer).pos()) == reg_value_spec(old(lexer).src(), old(lexer).pos(), Kind::And),
        old(lexer).pos() <= final(lexer).pos() <= old(lexer).src().len(),
        r is Ok ==> old(lexer).pos() < final(lexer).pos(),
{
    parse_reg_value(lexer, Kind::And)
}

/// The keywords of the conditional jumps.
pub open spec fn is_jump_keyword(kw: Kind) -> bool {
    kw == Kind::Jeq || kw == Kind::Jgt || kw == Kind::Jne || kw == Kind::Jge || kw == Kind::Jle
        || kw == Kind::Jlt
}

/// The conditional jump of keyword `kw`, which compares with a register where `reg`.
pub open spec fn jump_instruction(kw: Kind, reg: bool, lhs: Statement, rhs: Statement) -> Instruction {
    if kw == Kind::Jeq {
        if reg { Instruction::JeqReg(lhs, rhs) } else { Instruction::JeqLit(lhs, rhs) }
    } else if kw == Kind::Jgt {
        if reg { Instruction::JgtReg(lhs, rhs) } else { Instruction::JgtLit(lhs, rhs) }
    } else if kw == Kind::Jne {
        if reg { Instruction::JneReg(lhs, rhs) } else { Instruction::JneLit(lhs, rhs) }
    } else if kw == Kind::Jge {
        if reg { Instruction::JgeReg(lhs, rhs) } else { Instruction::JgeLit(lhs, rhs) }
    } else if kw == Kind::Jle {
        if reg { Instruction::JleReg(lhs, rhs) } else { Instruction::JleLit(lhs, rhs) }
    } else {
        if reg { Instruction::JltReg(lhs, rhs) } else { Instruction::JltLit(lhs, rhs) }
    }
}

/// The conditional jump of keyword `kw`.
fn make_jump(kw: Kind, reg: bool, lhs: Statement, rhs: Statement) -> (i: Instruction)
    ensures
        i == jump_instruction(kw, reg, lhs, rhs),
{
    if kw == Kind::Jeq {
        if reg { Instruction::JeqReg(lhs, rhs) } else { Instruction::JeqLit(lhs, rhs) }
    } else if kw == Kind::Jgt {
        if reg { Instruction::JgtReg(lhs, rhs) } else { Instruction::JgtLit(lhs, rhs) }
    } else if kw == Kind::Jne {
        if reg { Instruction::JneReg(lhs, rhs) } else { Instruction::JneLit(lhs, rhs) }
    } else if kw == Kind::Jge {
        if reg { Instruction::JgeReg(lhs, rhs) } else { Instruction::JgeLit(lhs, rhs) }
    } else if kw == Kind::Jle {
        if reg { Instruction::JleReg(lhs, rhs) } else { Instruction::JleLit(lhs, rhs) }
    } else {
        if reg { Instruction::JltReg(lhs, rhs) } else { Instruction::JltLit(lhs, rhs) }
    }
}

/// A conditional jump: the keyword, an address expression, `,`, and a
/// register, hex literal, variable or bracketed expression to compare with.
pub open spec fn jump_spec(src: Seq<u8>, pos: nat, kw: Kind) -> (Result<Statement, Error>, nat) {
    let (k, p0) = keyword_spec(src, pos, kw);
    if k is Err {
        (Err(k->Err_0), p0)
    } else {
        let (l, p1) = address_expr_spec(src, p0);
        match l {
            Err(e) => (Err(e), p1),
            Ok(lhs) => {
                let (c, p2) = expect_spec(src, p1, Kind::Comma);
                if c is Err {
                    (Err(c->Err_0), p2)
                } else {
                    match peek_spec(src, p2).0 {
                        Err(e) => (Err(e), p2),
                        Ok(tok) => {
                            let (v, p3) = value_spec(src, p2, tok, false);
                            match v {
                                Err(e) => (Err(e), p3),
                                Ok(rhs) => (Ok(instr(jump_instruction(kw, tok.kind == Kind::Ident, lhs, rhs))), p3),
                            }
                        },
                    }
                }
            },
        }
    }
}

/// Reads a conditional jump of keyword `kw` (see `jump_spec`).
pub fn parse_jump(lexer: &mut Lexer, kw: Kind) -> (r: Result<Statement, Error>)
    requires
        is_jump_keyword(kw),
    ensures
        final(lexer).src() == old(lexer).src(),
        (r, final(lexer).pos()) == jump_spec(old(lexer).src(), old(lexer).pos(), kw),
        old(lexer).pos() <= final(lexer).pos() <= old(lexer).src().len(),
        r is Ok ==> old(lexer).pos() < final(lexer).pos(),
{
    parse_keyword(lexer, kw)?;
    let lhs = parse_address_expr(lexer)?;
    expect(Kind::Comma, lexer)?;
    let token = peek(lexer)?;
    let rhs = parse_value(lexer, token, false)?;
    Ok(Statement::Instruction(Box::new(make_jump(kw, token.kind == Kind::Ident, lhs, rhs))))
}

/// Reads `jle &[address], value`.
pub fn parse_jle(lexer: &mut Lexer) -> (r: Result<Statement, Error>)
    ensures
        final(lexer).src() == old(lexer).src(),
        (r, final(lexer).pos()) == jump_spec(old(lexer).src(), old(lexer).pos(), Kind::Jle),
        old(lexer).pos() <= final(lexer).pos() <= old(lexer).src().len(),
        r is Ok ==> old(lexer).pos() < final(lexer).pos(),
{
    parse_jump(lexer, Kind::Jle)
}

/// The keywords of the instructions on one register.
pub open spec fn is_single_reg_keyword(kw: Kind) -> bool {
    kw == Kind::Inc || kw == Kind::Dec || kw == Kind::Not || kw == Kind::Pop
}

/// The instruction of keyword `kw` on one register.
pub open spec fn single_reg_instruction(kw: Kind, reg: Statement) -> Instruction {
    if kw == Kind::Inc {
        Instruction::Inc(reg)
    } else if kw == Kind::Dec {
        Instruction::Dec(reg)
    } else if kw == Kind::Not {
        Instruction::Not(reg)
    } else {
        Instruction::Pop(reg)
    }
}

/// An instruction on one register: the keyword and a register.
pub open spec fn single_reg_spec(src: Seq<u8>, pos: nat, kw: Kind) -> (Result<Statement, Error>, nat) {
    let (k, p0) = keyword_spec(src, pos, kw);
    if k is Err {
        (Err(k->Err_0), p0)
    } else {
        let (l, p1) = identifier_spec(src, p0);
        match l {
            Err(e) => (Err(e), p1),
            Ok(o) => (Ok(instr(single_reg_instruction(kw, Statement::Register(o)))), p1),
        }
    }
}

/// Reads an instruction of keyword `kw` on one register.
pub fn parse_single_reg(lexer: &mut Lexer, kw: Kind) -> (r: Result<Statement, Error>)
    requires
        is_single_reg_keyword(kw),
    ensures
        final(lexer).src() == old(lexer).src(),
        (r, final(lexer).pos()) == single_reg_spec(old(lexer).src(), old(lexer).pos(), kw),
        old(lexer).pos() <= final(lexer).pos() <= old(lexer).src().len(),
        r is Ok ==> old(lexer).pos() < final(lexer).pos(),
{
    parse_keyword(lexer, kw)?;
    let reg = Statement::Register(parse_register(lexer)?);
    let i = if kw == Kind::Inc {
        Instruction::Inc(reg)
    } else if kw == Kind::Dec {
        Instruction::Dec(reg)
    } else if kw == Kind::Not {
        Instruction::Not(reg)
    } else {
        Instruction::Pop(reg)
    };
    Ok(Statement::Instruction(Box::new(i)))
}

/// The keywords of the instructions without operands.
pub open spec fn is_no_args_keyword(kw: Kind) -> bool {
    kw == Kind::Ret || kw == Kind::Hlt || kw == Kind::Rti
}

/// An instruction without operands: its keyword, by where it stands.
pub open spec fn no_args_spec(src: Seq<u8>, pos: nat, kw: Kind) -> (Result<Statement, Error>, nat) {
    let (k, p0) = keyword_spec(src, pos, kw);
    match k {
        Err(e) => (Err(e), p0),
        Ok(o) => (Ok(instr(
            if kw == Kind::Ret {
                Instruction::Ret(o)
            } else if kw == Kind::Hlt {
                Instruction::Hlt(o)
            } else {
                Instruction::Rti(o)
            },
        )), p0),
    }
}

/// Reads an instruction of keyword `kw` without operands.
pub fn parse_no_args(lexer: &mut Lexer, kw: Kind) -> (r: Result<Statement, Error>)
    requires
        is_no_args_keyword(kw),
    ensures
        final(lexer).src() == old(lexer).src(),
        (r, final(lexer).pos()) == no_args_spec(old(lexer).src(), old(lexer).pos(), kw),
        old(lexer).pos() <= final(lexer).pos() <= old(lexer).src().len(),
        r is Ok ==> old(lexer).pos() < final(lexer).pos(),
{
    let o = parse_keyword(lexer, kw)?;
    let i = if kw == Kind::Ret {
        Instruction::Ret(o)
    } else if kw == Kind::Hlt {
        Instruction::Hlt(o)
    } else {
        Instruction::Rti(o)
    };
    Ok(Statement::Instruction(Box::new(i)))
}

/// Reads `hlt`.
pub fn parse_hlt(lexer: &mut Lexer) -> (r: Result<Statement, Error>)
    ensures
        final(lexer).src() == old(lexer).src(),
        (r, final(lexer).pos()) == no_args_spec(old(lexer).src(), old(lexer).pos(), Kind::Hlt),
        old(lexer).pos() <= final(lexer).pos() <= old(lexer).src().len(),
        r is Ok ==> old(lexer).pos() < final(lexer).pos(),
{
    parse_no_args(lexer, Kind::Hlt)
}

/// Reads `rti`.
pub fn parse_rti(lexer: &mut Lexer) -> (r: Result<Statement, Error>)
    ensures
        final(lexer).src() == old(lexer).src(),
        (r, final(lexer).pos()) == no_args_spec(old(lexer).src(), old(lexer).pos(), Kind::Rti),
        old(lexer).pos() <= final(lexer).pos() <= old(lexer).src().len(),
        r is Ok ==> old(lexer).pos() < final(lexer).pos(),
{
    parse_no_args(lexer, Kind::Rti)
}

/// `int` and a hex literal.
pub open spec fn int_spec(src: Seq<u8>, pos: nat) -> (Result<Statement, Error>, nat) {
    let (k, p0) = keyword_spec(src, pos, Kind::Int);
    if k is Err {
        (Err(k->Err_0), p0)
    } else {
        let (h, p1) = hex_lit_spec(src, p0);
        match h {
            Err(e) => (Err(e), p1),
            Ok(o) => (Ok(instr(Instruction::Int(Statement::HexLiteral(o)))), p1),
        }
    }
}

/// Reads `int $03`.
pub fn parse_int(lexer: &mut Lexer) -> (r: Result<Statement, Error>)
    ensures
        final(lexer).src() == old(lexer).src(),
        (r, final(lexer).pos()) == int_spec(old(lexer).src(), old(lexer).pos()),
        old(lexer).pos() <= final(lexer).pos() <= old(lexer).src().len(),
        r is Ok ==> old(lexer).pos() < final(lexer).pos(),
{
    parse_keyword(lexer, Kind::Int)?;
    let value = Statement::HexLiteral(parse_hex_lit(lexer)?);
    Ok(Statement::Instruction(Box::new(Instruction::Int(value))))
}

/// `jmp` and an address expression.
pub open spec fn jmp_spec(src: Seq<u8>, pos: nat) -> (Result<Statement, Error>, nat) {
    let (k, p0) = keyword_spec(src, pos, Kind::Jmp);
    if k is Err {
        (Err(k->Err_0), p0)
    } else {
        let (a, p1) = address_expr_spec(src, p0);
        match a {
            Err(e) => (Err(e), p1),
            Ok(a) => (Ok(instr(Instruction::Jmp(a))), p1),
        }
    }
}

/// Reads `jmp &[address]`.
pub fn parse_jmp(lexer: &mut Lexer) -> (r: Result<Statement, Error>)
    ensures
        final(lexer).src() == old(lexer).src(),
        (r, final(lexer).pos()) == jmp_spec(old(lexer).src(), old(lexer).pos()),
        old(lexer).pos() <= final(lexer).pos() <= old(lexer).src().len(),
        r is Ok ==> old(lexer).pos() < final(lexer).pos(),
{
    parse_keyword(lexer, Kind::Jmp)?;
    let lhs = parse_address_expr(lexer)?;
    Ok(Statement::Instruction(Box::new(Instruction::Jmp(lhs))))
}

/// `psh` and a register, a hex literal, a variable or a bracketed expression.
pub open spec fn psh_spec(src: Seq<u8>, pos: nat) -> (Result<Statement, Error>, nat) {
    let (k, p0) = keyword_spec(src, pos, Kind::Psh);
    if k is Err {
        (Err(k->Err_0), p0)
    } else {
        match peek_spec(src, p0).0 {
            Err(e) => (Err(e), p0),
            Ok(tok) => {
                let (v, p1) = value_spec(src, p0, tok, false);
                match v {
                    Err(e) => (Err(e), p1),
                    Ok(value) => if tok.kind == Kind::Ident {
                        (Ok(instr(Instruction::PshReg(value))), p1)
                    } else {
                        (Ok(instr(Instruction::PshLit(value))), p1)
                    },
                }
            },
        }
    }
}

/// Reads `psh r1`, `psh $0303`, `psh !var` or `psh [expression]`.
pub fn parse_psh(lexer: &mut Lexer) -> (r: Result<Statement, Error>)
    ensures
        final(lexer).src() == old(lexer).src(),
        (r, final(lexer).pos()) == psh_spec(old(lexer).src(), old(lexer).pos()),
        old(lexer).pos() <= final(lexer).pos() <= old(lexer).src().len(),
        r is Ok ==> old(lexer).pos() < final(lexer).pos(),
{
    parse_keyword(lexer, Kind::Psh)?;
    let token = peek(lexer)?;
    let value = parse_value(lexer, token, false)?;
    if token.kind == Kind::Ident {
        Ok(Statement::Instruction(Box::new(Instruction::PshReg(value))))
    } else {
        Ok(Statement::Instruction(Box::new(Instruction::PshLit(value))))
    }
}

/// `call` and a hex literal (an address) or an address expression.
pub open spec fn call_spec(src: Seq<u8>, pos: nat) -> (Result<Statement, Error>, nat) {
    let (k, p0) = keyword_spec(src, pos, Kind::Call);
    if k is Err {
        (Err(k->Err_0), p0)
    } else {
        match peek_spec(src, p0).0 {
            Err(e) => (Err(e), p0),
            Ok(tok) => if tok.kind == Kind::HexNumber {
                let (h, p1) = hex_lit_spec(src, p0);
                match h {
                    Err(e) => (Err(e), p1),
                    Ok(o) => (Ok(instr(Instruction::Call(Statement::Address(Box::new(Statement::HexLiteral(o)))))), p1),
                }
            } else if tok.kind == Kind::Ampersand {
                let (a, p1) = address_expr_spec(src, p0);
                match a {
                    Err(e) => (Err(e), p1),
                    Ok(a) => (Ok(instr(Instruction::Call(a))), p1),
                }
            } else {
                (Err(Error::UnexpectedToken(tok)), p0)
            },
        }
    }
}

/// Reads `call &[address]` or `call $address`.
pub fn parse_call(lexer: &mut Lexer) -> (r: Result<Statement, Error>)
    ensures
        final(lexer).src() == old(lexer).src(),
        (r, final(lexer).pos()) == call_spec(old(lexer).src(), old(lexer).pos()),
        old(lexer).pos() <= final(lexer).pos() <= old(lexer).src().len(),
        r is Ok ==> old(lexer).pos() < final(lexer).pos(),
{
    parse_keyword(lexer, Kind::Call)?;
    let token = peek(lexer)?;
    let value = if token.kind == Kind::HexNumber {
        Statement::Address(Box::new(Statement::HexLiteral(parse_hex_lit(lexer)?)))
    } else if token.kind == Kind::Ampersand {
        parse_address_expr(lexer)?
    } else {
        return Err(Error::UnexpectedToken(token));
    };
    Ok(Statement::Instruction(Box::new(Instruction::Call(value))))
}

/// Whether a statement is the address held in a register, `&[r1]`.
pub open spec fn is_reg_address_spec(s: Statement) -> bool {
    s matches Statement::Address(inner) && *inner is Register
}

/// Whether a statement is the address held in a register, `&[r1]`.
fn is_reg_address(s: &Statement) -> (b: bool)
    ensures
        b == is_reg_address_spec(*s),
{
    match s {
        Statement::Address(inner) => match &**inner {
            Statement::Register(_) => true,
            _ => false,
        },
        _ => false,
    }
}

/// The move that the kinds of its operand tokens and the operands select;
/// `None` for a combination that no move has.
pub open spec fn mov_instruction(l: Kind, r: Kind, lhs: Statement, rhs: Statement) -> Option<Instruction> {
    if l == Kind::Ident && r == Kind::Ident {
        Some(Instruction::MovRegReg(lhs, rhs))
    } else if l == Kind::Ident && (r == Kind::Bang || r == Kind::HexNumber || r == Kind::LBracket) {
        Some(Instruction::MovLitReg(lhs, rhs))
    } else if l == Kind::Ampersand && r == Kind::Ident {
        Some(Instruction::MovRegMem(lhs, rhs))
    } else if l == Kind::Ident && r == Kind::Ampersand {
        Some(Instruction::MovMemReg(lhs, rhs))
    } else if l == Kind::Ampersand && (r == Kind::LBracket || r == Kind::Bang || r == Kind::HexNumber) {
        Some(Instruction::MovLitMem(lhs, rhs))
    } else if l == Kind::Ampersand && r == Kind::Ampersand && is_reg_address_spec(rhs) && is_reg_address_spec(lhs) {
        Some(Instruction::MovRegPtrReg(lhs, rhs))
    } else {
        None
    }
}

/// `mov`, a register or an address expression, `,`, and a register, hex
/// literal, variable, address expression or bracketed expression.
pub open spec fn mov_spec(src: Seq<u8>, pos: nat) -> (Result<Statement, Error>, nat) {
    let (k, p0) = keyword_spec(src, pos, Kind::Mov);
    if k is Err {
        (Err(k->Err_0), p0)
    } else {
        match peek_spec(src, p0).0 {
            Err(e) => (Err(e), p0),
            Ok(lt) => {
                let (l, p1) = if lt.kind == Kind::Ident {
                    let (h, q) = identifier_spec(src, p0);
                    (match h {
                        Ok(o) => Ok(Statement::Register(o)),
                        Err(e) => Err(e),
                    }, q)
                } else if lt.kind == Kind::Ampersand {
                    address_expr_spec(src, p0)
                } else {
                    (Err(Error::UnexpectedToken(lt)), p0)
                };
                match l {
                    Err(e) => (Err(e), p1),
                    Ok(lhs) => {
                        let (c, p2) = expect_spec(src, p1, Kind::Comma);
                        if c is Err {
                            (Err(c->Err_0), p2)
                        } else {
                            match peek_spec(src, p2).0 {
                                Err(e) => (Err(e), p2),
                                Ok(rt) => {
                                    let (v, p3) = value_spec(src, p2, rt, true);
                                    match v {
                                        Err(e) => (Err(e), p3),
                                        Ok(rhs) => match mov_instruction(lt.kind, rt.kind, lhs, rhs) {
                                            Some(i) => (Ok(instr(i)), p3),
                                            None => (Err(Error::UnexpectedToken(rt)), p3),
                                        },
                                    }
                                },
                            }
                        }
                    },
                }
            },
        }
    }
}

/// Reads a move, `mov lhs, rhs` (see `mov_spec`).
pub fn parse_mov(lexer: &mut Lexer) -> (r: Result<Statement, Error>)
    ensures
        final(lexer).src() == old(lexer).src(),
        (r, final(lexer).pos()) == mov_spec(old(lexer).src(), old(lexer).pos()),
        old(lexer).pos() <= final(lexer).pos() <= old(lexer).src().len(),
        r is Ok ==> old(lexer).pos() < final(lexer).pos(),
{
    parse_keyword(lexer, Kind::Mov)?;
    let lhs_token = peek(lexer)?;
    let lhs = if lhs_token.kind == Kind::Ident {
        Statement::Register(parse_register(lexer)?)
    } else if lhs_token.kind == Kind::Ampersand {
        parse_address_expr(lexer)?
    } else {
        return Err(Error::UnexpectedToken(lhs_token));
    };
    expect(Kind::Comma, lexer)?;
    let rhs_token = peek(lexer)?;
    let rhs = parse_value(lexer, rhs_token, true)?;
    let l = lhs_token.kind;
    let r = rhs_token.kind;
    let i = if l == Kind::Ident && r == Kind::Ident {
        Instruction::MovRegReg(lhs, rhs)
    } else if l == Kind::Ident && (r == Kind::Bang || r == Kind::HexNumber || r == Kind::LBracket) {
        Instruction::MovLitReg(lhs, rhs)
    } else if l == Kind::Ampersand && r == Kind::Ident {
        Instruction::MovRegMem(lhs, rhs)
    } else if l == Kind::Ident && r == Kind::Ampersand {
        Instruction::MovMemReg(lhs, rhs)
    } else if l == Kind::Ampersand && (r == Kind::LBracket || r == Kind::Bang || r == Kind::HexNumber) {
        Instruction::MovLitMem(lhs, rhs)
    } else if l == Kind::Ampersand && r == Kind::Ampersand && is_reg_address(&rhs) && is_reg_address(&lhs) {
        Instruction::MovRegPtrReg(lhs, rhs)
    } else {
        return Err(Error::UnexpectedToken(rhs_token));
    };
    Ok(Statement::Instruction(Box::new(i)))
}

} // verus!
