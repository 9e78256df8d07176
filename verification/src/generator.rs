//! The code generator: it rewrites a parsed module into plain instructions,
//! working out bracketed expressions with temporary registers that it saves
//! on the stack and restores.
use vstd::prelude::*;

use crate::codegen::CodegenModule;
use crate::compiler::{in_code, text};
use crate::mod_resolver::{bytes_of, string_bytes, ResolvedModule, ResolvedModules};
use crate::table::Table;
use crate::parser::ast::{Ast, ByteOffset, Instruction, Operator, Statement};
use crate::parser::error::Error;
use crate::hex::parse_hex_u16;
use crate::assembler::register::Register;
use crate::text::{
    ascii, bracket, lemma_ascii_add, lemma_ascii_upper, lemma_ascii_utf8, lemma_lines_ascii, lemma_names_ascii, line1, line2,
    make_bracket, make_line1, make_line2, op_name, operator_name, push_all, reg_name, register_name, to_upper, upper,
};

verus! {

/// The operations the code generator writes.
#[derive(Debug, Clone, Copy, PartialEq, Eq, Structural)]
pub enum InstructionPrefix {
    Mov,
    Add,
    Sub,
    Mul,
    Inc,
    Dec,
    Lsh,
    Rsh,
    And,
    Or,
    Xor,
    Not,
    Psh,
    Pop,
    Call,
    Ret,
    Jeq,
    Jgt,
    Jne,
    Jge,
    Jle,
    Jlt,
    Jmp,
    Hlt,
    Int,
    Rti,
}

impl InstructionPrefix {
    /// The mnemonic, in capitals.
    pub open spec fn spec_name(self) -> Seq<u8> {
        match self {
            InstructionPrefix::Mov => seq![77u8, 79u8, 86u8],
            InstructionPrefix::Add => seq![65u8, 68u8, 68u8],
            InstructionPrefix::Sub => seq![83u8, 85u8, 66u8],
            InstructionPrefix::Mul => seq![77u8, 85u8, 76u8],
            InstructionPrefix::Inc => seq![73u8, 78u8, 67u8],
            InstructionPrefix::Dec => seq![68u8, 69u8, 67u8],
            InstructionPrefix::Lsh => seq![76u8, 83u8, 72u8],
            InstructionPrefix::Rsh => seq![82u8, 83u8, 72u8],
            InstructionPrefix::And => seq![65u8, 78u8, 68u8],
            InstructionPrefix::Or => seq![79u8, 82u8],
            InstructionPrefix::Xor => seq![88u8, 79u8, 82u8],
            InstructionPrefix::Not => seq![78u8, 79u8, 84u8],
            InstructionPrefix::Psh => seq![80u8, 83u8, 72u8],
            InstructionPrefix::Pop => seq![80u8, 79u8, 80u8],
            InstructionPrefix::Call => seq![67u8, 65u8, 76u8, 76u8],
            InstructionPrefix::Ret => seq![82u8, 69u8, 84u8],
            InstructionPrefix::Jeq => seq![74u8, 69u8, 81u8],
            InstructionPrefix::Jgt => seq![74u8, 71u8, 84u8],
            InstructionPrefix::Jne => seq![74u8, 78u8, 69u8],
            InstructionPrefix::Jge => seq![74u8, 71u8, 69u8],
            InstructionPrefix::Jle => seq![74u8, 76u8, 69u8],
            InstructionPrefix::Jlt => seq![74u8, 76u8, 84u8],
            InstructionPrefix::Jmp => seq![74u8, 77u8, 80u8],
            InstructionPrefix::Hlt => seq![72u8, 76u8, 84u8],
            InstructionPrefix::Int => seq![73u8, 78u8, 84u8],
            InstructionPrefix::Rti => seq![82u8, 84u8, 73u8],
        }
    }

    /// The mnemonic, in capitals.
    pub fn name(self) -> (s: &'static [u8])
        ensures
            s@ == self.spec_name(),
            ascii(s@),
    {
        match self {
            InstructionPrefix::Mov => &[77u8, 79u8, 86u8],
            InstructionPrefix::Add => &[65u8, 68u8, 68u8],
            InstructionPrefix::Sub => &[83u8, 85u8, 66u8],
            InstructionPrefix::Mul => &[77u8, 85u8, 76u8],
            InstructionPrefix::Inc => &[73u8, 78u8, 67u8],
            InstructionPrefix::Dec => &[68u8, 69u8, 67u8],
            InstructionPrefix::Lsh => &[76u8, 83u8, 72u8],
            InstructionPrefix::Rsh => &[82u8, 83u8, 72u8],
            InstructionPrefix::And => &[65u8, 78u8, 68u8],
            InstructionPrefix::Or => &[79u8, 82u8],
            InstructionPrefix::Xor => &[88u8, 79u8, 82u8],
            InstructionPrefix::Not => &[78u8, 79u8, 84u8],
            InstructionPrefix::Psh => &[80u8, 83u8, 72u8],
            InstructionPrefix::Pop => &[80u8, 79u8, 80u8],
            InstructionPrefix::Call => &[67u8, 65u8, 76u8, 76u8],
            InstructionPrefix::Ret => &[82u8, 69u8, 84u8],
            InstructionPrefix::Jeq => &[74u8, 69u8, 81u8],
            InstructionPrefix::Jgt => &[74u8, 71u8, 84u8],
            InstructionPrefix::Jne => &[74u8, 78u8, 69u8],
            InstructionPrefix::Jge => &[74u8, 71u8, 69u8],
            InstructionPrefix::Jle => &[74u8, 76u8, 69u8],
            InstructionPrefix::Jlt => &[74u8, 76u8, 84u8],
            InstructionPrefix::Jmp => &[74u8, 77u8, 80u8],
            InstructionPrefix::Hlt => &[72u8, 76u8, 84u8],
            InstructionPrefix::Int => &[73u8, 78u8, 84u8],
            InstructionPrefix::Rti => &[82u8, 84u8, 73u8],
        }
    }
}

impl InstructionPrefix {
    /// Every mnemonic is ASCII.
    pub proof fn lemma_name_ascii(self)
        ensures
            ascii(self.spec_name()),
    {
    }
}

/// The state of the generator: the lines written so far, the temporary
/// registers free (the last one is taken first) and those in use.
pub struct GenState {
    pub code: Seq<Seq<u8>>,
    pub temp: Seq<Register>,
    pub used: Seq<Register>,
}

/// The state after writing `line`.
pub open spec fn emit(st: GenState, line: Seq<u8>) -> GenState {
    GenState { code: st.code.push(line), ..st }
}

/// A hex literal as the generator writes it: `$` and its digits in capitals.
pub open spec fn hex_text(src: Seq<u8>, o: ByteOffset) -> Seq<u8> {
    seq![36u8] + upper(text(src, o))
}

/// A variable as the generator writes it: `!` and its name.
pub open spec fn var_text(src: Seq<u8>, o: ByteOffset) -> Seq<u8> {
    seq![33u8] + text(src, o)
}

/// Whether `o` covers a piece of the source, all of it ASCII, as the names
/// and numbers that the lexer reads are.
pub open spec fn text_ok(src: Seq<u8>, o: ByteOffset) -> bool {
    in_code(src, o) && ascii(text(src, o))
}

/// Hex literals and variables as written are ASCII.
pub proof fn lemma_written_ascii(src: Seq<u8>, o: ByteOffset)
    requires
        text_ok(src, o),
    ensures
        ascii(hex_text(src, o)),
        ascii(var_text(src, o)),
{
    lemma_ascii_upper(text(src, o));
    assert(ascii(seq![36u8]));
    assert(ascii(seq![33u8]));
    lemma_ascii_add(seq![36u8], upper(text(src, o)));
    lemma_ascii_add(seq![33u8], text(src, o));
}

/// Whether a statement is an operand the generator can work on: literals,
/// registers and variables in the source, addresses of operands, and
/// operations on two operands that span a piece of the source.
pub open spec fn operand_ok(src: Seq<u8>, s: Statement) -> bool
    decreases s,
{
    match s {
        Statement::HexLiteral(o) => text_ok(src, o),
        Statement::Register(o) => text_ok(src, o),
        Statement::Var(o) => text_ok(src, o),
        Statement::Address(x) => operand_ok(src, *x),
        Statement::BinaryOp { lhs, rhs, .. } => operand_ok(src, *lhs) && operand_ok(src, *rhs)
            && in_code(src, s.spec_offset()->Some_0),
        _ => false,
    }
}

/// Whether a statement is an expression: an operand without addresses.
pub open spec fn expr_ok(src: Seq<u8>, s: Statement) -> bool
    decreases s,
{
    match s {
        Statement::HexLiteral(o) => text_ok(src, o),
        Statement::Register(o) => text_ok(src, o),
        Statement::Var(o) => text_ok(src, o),
        Statement::BinaryOp { lhs, rhs, .. } => expr_ok(src, *lhs) && expr_ok(src, *rhs)
            && in_code(src, s.spec_offset()->Some_0),
        _ => false,
    }
}

/// Every operand has a place in the source.
pub proof fn lemma_operand_offset(src: Seq<u8>, s: Statement)
    requires
        operand_ok(src, s) || expr_ok(src, s),
    ensures
        s.spec_offset() is Some,
        operand_ok(src, s),
    decreases s,
{
    match s {
        Statement::Address(x) => lemma_operand_offset(src, *x),
        Statement::BinaryOp { lhs, rhs, .. } => {
            lemma_operand_offset(src, *lhs);
            lemma_operand_offset(src, *rhs);
        },
        _ => {},
    }
}

/// Whether a statement is a register named in the source.
pub open spec fn register_ok(src: Seq<u8>, s: Statement) -> bool {
    s matches Statement::Register(o) && text_ok(src, o)
}

/// The value of a constant expression: a hex literal as written. An operation
/// on two constants is refused, for its left side is read back as a number
/// and the `$` that the literal is written with is no digit.
pub open spec fn evaluate_spec(src: Seq<u8>, node: Statement) -> Result<Option<Seq<u8>>, Error>
    decreases node,
{
    match node {
        Statement::HexLiteral(o) => Ok(Some(hex_text(src, o))),
        Statement::BinaryOp { lhs, rhs, .. } => match evaluate_spec(src, *lhs) {
            Err(e) => Err(e),
            Ok(a) => match evaluate_spec(src, *rhs) {
                Err(e) => Err(e),
                Ok(b) => if a is Some && b is Some {
                    Err(Error::InvalidHex(lhs.spec_offset()->Some_0))
                } else {
                    Ok(None)
                },
            },
        },
        _ => Ok(None),
    }
}

/// A register operand, by its name.
pub open spec fn get_register_spec(src: Seq<u8>, node: Statement) -> Result<Register, Error> {
    match node {
        Statement::Register(o) => match Register::spec_from_name(text(src, o)) {
            Some(r) => Ok(r),
            None => Err(Error::InvalidRegister(o)),
        },
        _ => Err(Error::UnexpectedStatement(node.spec_offset()->Some_0)),
    }
}

/// A hex literal as written by the generator.
pub open spec fn hex_lit_spec(src: Seq<u8>, node: Statement) -> Result<Seq<u8>, Error> {
    match node {
        Statement::HexLiteral(o) => Ok(hex_text(src, o)),
        _ => Err(Error::UnexpectedStatement(node.spec_offset()->Some_0)),
    }
}

/// An address as written inside `&[...]`: a register as it stands in the
/// source, a hex literal, or a variable.
pub open spec fn get_address_spec(src: Seq<u8>, node: Statement) -> Result<Seq<u8>, Error> {
    match node {
        Statement::Address(inner) => match *inner {
            Statement::Register(o) => Ok(text(src, o)),
            Statement::HexLiteral(o) => Ok(hex_text(src, o)),
            Statement::Var(o) => Ok(var_text(src, o)),
            _ => Err(Error::UnexpectedStatement(inner.spec_offset()->Some_0)),
        },
        _ => Err(Error::UnexpectedStatement(node.spec_offset()->Some_0)),
    }
}

/// Taking the next free temporary register: it is saved on the stack first.
pub open spec fn temp_spec(st: GenState, node: Statement) -> (Result<Register, Error>, GenState) {
    if st.temp.len() > 0 {
        let r = st.temp.last();
        (Ok(r), GenState {
            code: st.code.push(line1(InstructionPrefix::Psh.spec_name(), reg_name(r))),
            temp: st.temp.drop_last(),
            used: st.used.push(r),
        })
    } else {
        (Err(Error::ExpressionTooLarge(node.spec_offset()->Some_0)), st)
    }
}

/// The register a value goes to: the target, else a temporary register.
pub open spec fn dest_spec(st: GenState, node: Statement, target: Option<Register>) -> (Result<Register, Error>, GenState) {
    match target {
        Some(t) => (Ok(t), st),
        None => temp_spec(st, node),
    }
}

/// Restoring every temporary register in use, the last taken first.
pub open spec fn release_all_spec(st: GenState) -> GenState
    decreases st.used.len(),
{
    if st.used.len() == 0 {
        st
    } else {
        let r = st.used.last();
        release_all_spec(GenState {
            code: st.code.push(line1(InstructionPrefix::Pop.spec_name(), reg_name(r))),
            temp: st.temp.push(r),
            used: st.used.drop_last(),
        })
    }
}

/// Restoring one temporary register.
pub open spec fn release_spec(st: GenState, r: Register) -> GenState {
    GenState {
        code: st.code.push(line1(InstructionPrefix::Pop.spec_name(), reg_name(r))),
        temp: st.temp.push(r),
        used: st.used.filter(other_than(r)),
    }
}

/// The code that puts the value of `node` in a register, written with
/// `prefix`: into `target` where there is one, else into a temporary
/// register; an operation works out both sides into temporary registers.
pub open spec fn generate_code_spec(
    src: Seq<u8>,
    st: GenState,
    prefix: Seq<u8>,
    node: Statement,
    target: Option<Register>,
) -> (Result<Register, Error>, GenState)
    decreases node,
{
    match evaluate_spec(src, node) {
        Err(e) => (Err(e), st),
        Ok(Some(v)) => {
            let (d, st1) = dest_spec(st, node, target);
            match d {
                Err(e) => (Err(e), st1),
                Ok(r) => (Ok(r), emit(st1, line2(prefix, reg_name(r), v))),
            }
        },
        Ok(None) => match node {
            Statement::Register(o) => {
                let (d, st1) = dest_spec(st, node, target);
                match d {
                    Err(e) => (Err(e), st1),
                    Ok(r) => match Register::spec_from_name(text(src, o)) {
                        None => (Err(Error::InvalidRegister(node.spec_offset()->Some_0)), st1),
                        Some(reg) => (Ok(r), emit(st1, line2(prefix, reg_name(r), reg_name(reg)))),
                    },
                }
            },
            Statement::Var(o) => {
                let (d, st1) = dest_spec(st, node, target);
                match d {
                    Err(e) => (Err(e), st1),
                    Ok(r) => (Ok(r), emit(st1, line2(prefix, reg_name(r), var_text(src, o)))),
                }
            },
            Statement::BinaryOp { lhs, operator, rhs } => {
                let (l, s1) = generate_code_spec(src, st, InstructionPrefix::Mov.spec_name(), *lhs, None);
                match l {
                    Err(e) => (Err(e), s1),
                    Ok(l) => {
                        let (r, s2) = generate_code_spec(src, s1, InstructionPrefix::Mov.spec_name(), *rhs, None);
                        match r {
                            Err(e) => (Err(e), s2),
                            Ok(r) => {
                                let s3 = emit(s2, line2(op_name(operator), reg_name(l), reg_name(r)));
                                let dest = match target {
                                    Some(t) => t,
                                    None => l,
                                };
                                let s4 = if dest != l { emit(s3, line2(prefix, reg_name(dest), reg_name(l))) } else { s3 };
                                let s5 = if !s4.used.contains(r) { release_spec(s4, r) } else { s4 };
                                (Ok(dest), s5)
                            },
                        }
                    },
                }
            },
            _ => (Err(Error::UnexpectedStatement(node.spec_offset()->Some_0)), st),
        },
    }
}

/// Whether the address operand holds an operation, which is worked out
/// into a register first.
pub open spec fn holds_operation(s: Statement) -> bool {
    s matches Statement::Address(inner) && *inner is BinaryOp
}

/// The expression inside an address.
pub open spec fn inner_of(s: Statement) -> Statement {
    match s {
        Statement::Address(inner) => *inner,
        _ => s,
    }
}

/// Whether an address operand can be worked on: an operand, and an
/// expression where it holds an operation.
pub open spec fn address_ok(src: Seq<u8>, s: Statement) -> bool {
    operand_ok(src, s) && (holds_operation(s) ==> expr_ok(src, inner_of(s)))
}

/// Whether the generator can work on an instruction: registers where it
/// reads registers, expressions where it works them out, operands elsewhere.
pub open spec fn instruction_ok(src: Seq<u8>, i: Instruction) -> bool {
    match i {
        Instruction::MovRegReg(l, r) => register_ok(src, l) && register_ok(src, r),
        Instruction::AddRegReg(l, r) => register_ok(src, l) && register_ok(src, r),
        Instruction::SubRegReg(l, r) => register_ok(src, l) && register_ok(src, r),
        Instruction::MulRegReg(l, r) => register_ok(src, l) && register_ok(src, r),
        Instruction::LshRegReg(l, r) => register_ok(src, l) && register_ok(src, r),
        Instruction::RshRegReg(l, r) => register_ok(src, l) && register_ok(src, r),
        Instruction::AndRegReg(l, r) => register_ok(src, l) && register_ok(src, r),
        Instruction::OrRegReg(l, r) => register_ok(src, l) && register_ok(src, r),
        Instruction::XorRegReg(l, r) => register_ok(src, l) && register_ok(src, r),
        Instruction::MovLitReg(l, r) => register_ok(src, l) && expr_ok(src, r),
        Instruction::AddLitReg(l, r) => register_ok(src, l) && expr_ok(src, r),
        Instruction::SubLitReg(l, r) => register_ok(src, l) && expr_ok(src, r),
        Instruction::MulLitReg(l, r) => register_ok(src, l) && expr_ok(src, r),
        Instruction::LshLitReg(l, r) => register_ok(src, l) && expr_ok(src, r),
        Instruction::RshLitReg(l, r) => register_ok(src, l) && expr_ok(src, r),
        Instruction::AndLitReg(l, r) => register_ok(src, l) && expr_ok(src, r),
        Instruction::OrLitReg(l, r) => register_ok(src, l) && expr_ok(src, r),
        Instruction::XorLitReg(l, r) => register_ok(src, l) && expr_ok(src, r),
        Instruction::MovRegMem(l, r) => address_ok(src, l) && register_ok(src, r),
        Instruction::JeqReg(l, r) => address_ok(src, l) && register_ok(src, r),
        Instruction::JgtReg(l, r) => address_ok(src, l) && register_ok(src, r),
        Instruction::JneReg(l, r) => address_ok(src, l) && register_ok(src, r),
        Instruction::JgeReg(l, r) => address_ok(src, l) && register_ok(src, r),
        Instruction::JleReg(l, r) => address_ok(src, l) && register_ok(src, r),
        Instruction::JltReg(l, r) => address_ok(src, l) && register_ok(src, r),
        Instruction::MovMemReg(l, r) => register_ok(src, l) && address_ok(src, r),
        Instruction::MovLitMem(l, r) => address_ok(src, l) && expr_ok(src, r),
        Instruction::JeqLit(l, r) => address_ok(src, l) && expr_ok(src, r),
        Instruction::JgtLit(l, r) => address_ok(src, l) && expr_ok(src, r),
        Instruction::JneLit(l, r) => address_ok(src, l) && expr_ok(src, r),
        Instruction::JgeLit(l, r) => address_ok(src, l) && expr_ok(src, r),
        Instruction::JleLit(l, r) => address_ok(src, l) && expr_ok(src, r),
        Instruction::JltLit(l, r) => address_ok(src, l) && expr_ok(src, r),
        Instruction::MovRegPtrReg(l, r) => operand_ok(src, l) && operand_ok(src, r),
        Instruction::Inc(r) => register_ok(src, r),
        Instruction::Dec(r) => register_ok(src, r),
        Instruction::Not(r) => register_ok(src, r),
        Instruction::PshReg(r) => register_ok(src, r),
        Instruction::Pop(r) => register_ok(src, r),
        Instruction::PshLit(v) => expr_ok(src, v),
        Instruction::Call(a) => address_ok(src, a),
        Instruction::Jmp(a) => address_ok(src, a),
        Instruction::Int(v) => operand_ok(src, v),
        Instruction::Ret(_) | Instruction::Hlt(_) | Instruction::Rti(_) => true,
    }
}

/// `p l, r` for two registers.
#[verifier::opaque]
pub open spec fn reg_reg_spec(src: Seq<u8>, st: GenState, p: Seq<u8>, lhs: Statement, rhs: Statement) -> (Result<(), Error>, GenState) {
    match get_register_spec(src, lhs) {
        Err(e) => (Err(e), st),
        Ok(l) => match get_register_spec(src, rhs) {
            Err(e) => (Err(e), st),
            Ok(r) => (Ok(()), emit(st, line2(p, reg_name(l), reg_name(r)))),
        },
    }
}

/// A register and a value: a variable is written as it is, any other value
/// is worked out into the register.
#[verifier::opaque]
pub open spec fn lit_reg_spec(src: Seq<u8>, st: GenState, p: Seq<u8>, lhs: Statement, rhs: Statement) -> (Result<(), Error>, GenState) {
    match get_register_spec(src, lhs) {
        Err(e) => (Err(e), st),
        Ok(l) => match rhs {
            Statement::Var(o) => (Ok(()), emit(st, line2(p, reg_name(l), var_text(src, o)))),
            _ => {
                let (g, s1) = generate_code_spec(src, st, p, rhs, Some(l));
                match g {
                    Err(e) => (Err(e), s1),
                    Ok(_) => (Ok(()), release_all_spec(s1)),
                }
            },
        },
    }
}

/// An address and a register: an address that holds an operation is worked
/// out into a temporary register first.
#[verifier::opaque]
pub open spec fn reg_mem_spec(src: Seq<u8>, st: GenState, p: Seq<u8>, lhs: Statement, rhs: Statement) -> (Result<(), Error>, GenState) {
    match lhs {
        Statement::Address(inner) => if *inner is BinaryOp {
            let (t, s1) = generate_code_spec(src, st, InstructionPrefix::Mov.spec_name(), *inner, None);
            match t {
                Err(e) => (Err(e), s1),
                Ok(t) => match get_register_spec(src, rhs) {
                    Err(e) => (Err(e), s1),
                    Ok(r) => (Ok(()), release_all_spec(emit(s1, line2(p, bracket(reg_name(t)), reg_name(r))))),
                },
            }
        } else {
            match get_address_spec(src, lhs) {
                Err(e) => (Err(e), st),
                Ok(a) => match get_register_spec(src, rhs) {
                    Err(e) => (Err(e), st),
                    Ok(r) => (Ok(()), emit(st, line2(p, bracket(a), reg_name(r)))),
                },
            }
        },
        _ => (Err(Error::UnexpectedStatement(lhs.spec_offset()->Some_0)), st),
    }
}

/// A register and an address.
#[verifier::opaque]
pub open spec fn mem_reg_spec(src: Seq<u8>, st: GenState, p: Seq<u8>, lhs: Statement, rhs: Statement) -> (Result<(), Error>, GenState) {
    match get_register_spec(src, lhs) {
        Err(e) => (Err(e), st),
        Ok(l) => match rhs {
            Statement::Address(inner) => if *inner is BinaryOp {
                let (t, s1) = generate_code_spec(src, st, InstructionPrefix::Mov.spec_name(), *inner, None);
                match t {
                    Err(e) => (Err(e), s1),
                    Ok(t) => (Ok(()), release_all_spec(emit(s1, line2(p, reg_name(l), bracket(reg_name(t)))))),
                }
            } else {
                match get_address_spec(src, rhs) {
                    Err(e) => (Err(e), st),
                    Ok(a) => (Ok(()), emit(st, line2(p, reg_name(l), bracket(a)))),
                }
            },
            _ => (Err(Error::UnexpectedStatement(rhs.spec_offset()->Some_0)), st),
        },
    }
}

/// An address and a value. In the `MOV` form a hex literal is worked out into
/// a register like any value but a variable, and the value's registers are
/// restored before the line is written; otherwise a hex literal is written as
/// it is, and the registers are restored after the line.
#[verifier::opaque]
pub open spec fn lit_mem_spec(
    src: Seq<u8>,
    st: GenState,
    p: Seq<u8>,
    value_prefix: Seq<u8>,
    mov_form: bool,
    lhs: Statement,
    rhs: Statement,
) -> (Result<(), Error>, GenState) {
    match lhs {
        Statement::Address(inner) => {
            let (lt, s1) = if *inner is BinaryOp {
                let (t, s) = generate_code_spec(src, st, InstructionPrefix::Mov.spec_name(), *inner, None);
                (match t {
                    Ok(t) => Ok(reg_name(t)),
                    Err(e) => Err(e),
                }, s)
            } else {
                (get_address_spec(src, lhs), st)
            };
            match lt {
                Err(e) => (Err(e), s1),
                Ok(l) => if rhs is Var {
                    (Ok(()), emit(s1, line2(p, bracket(l), var_text(src, rhs->Var_0))))
                } else if rhs is HexLiteral && !mov_form {
                    (Ok(()), emit(s1, line2(p, bracket(l), hex_text(src, rhs->HexLiteral_0))))
                } else {
                    {
                        let (r, s2) = generate_code_spec(src, s1, value_prefix, rhs, None);
                        match r {
                            Err(e) => (Err(e), s2),
                            Ok(r) => if mov_form {
                                (Ok(()), emit(release_all_spec(s2), line2(p, bracket(l), reg_name(r))))
                            } else {
                                (Ok(()), release_all_spec(emit(s2, line2(p, bracket(l), reg_name(r)))))
                            },
                        }
                    }
                },
            }
        },
        _ => (Err(Error::UnexpectedStatement(lhs.spec_offset()->Some_0)), st),
    }
}

/// Two addresses, `MOV &[a], &[b]`.
#[verifier::opaque]
pub open spec fn reg_ptr_reg_spec(src: Seq<u8>, st: GenState, lhs: Statement, rhs: Statement) -> (Result<(), Error>, GenState) {
    match get_address_spec(src, lhs) {
        Err(e) => (Err(e), st),
        Ok(a) => match get_address_spec(src, rhs) {
            Err(e) => (Err(e), st),
            Ok(b) => (Ok(()), emit(st, line2(InstructionPrefix::Mov.spec_name(), bracket(a), bracket(b)))),
        },
    }
}

/// `p r` for one register.
#[verifier::opaque]
pub open spec fn single_spec(src: Seq<u8>, st: GenState, p: Seq<u8>, reg: Statement) -> (Result<(), Error>, GenState) {
    match get_register_spec(src, reg) {
        Err(e) => (Err(e), st),
        Ok(r) => (Ok(()), emit(st, line1(p, reg_name(r)))),
    }
}

/// `PSH` of a value: a variable or a literal as written, any other value
/// worked out into a register first.
#[verifier::opaque]
pub open spec fn psh_lit_spec(src: Seq<u8>, st: GenState, lit: Statement) -> (Result<(), Error>, GenState) {
    let p = InstructionPrefix::Psh.spec_name();
    match lit {
        Statement::Var(o) => (Ok(()), emit(st, line1(p, var_text(src, o)))),
        Statement::HexLiteral(o) => (Ok(()), emit(st, line1(p, hex_text(src, o)))),
        _ => {
            let (r, s1) = generate_code_spec(src, st, p, lit, None);
            match r {
                Err(e) => (Err(e), s1),
                Ok(r) => (Ok(()), release_all_spec(emit(s1, line1(p, reg_name(r))))),
            }
        },
    }
}

/// A jump or a call to an address; the registers are restored after a plain
/// address too where `release_plain`.
#[verifier::opaque]
pub open spec fn jump_spec(src: Seq<u8>, st: GenState, p: Seq<u8>, address: Statement, release_plain: bool) -> (Result<(), Error>, GenState) {
    match address {
        Statement::Address(inner) => if *inner is BinaryOp {
            let (t, s1) = generate_code_spec(src, st, InstructionPrefix::Mov.spec_name(), *inner, None);
            match t {
                Err(e) => (Err(e), s1),
                Ok(t) => (Ok(()), release_all_spec(emit(s1, line1(p, bracket(reg_name(t)))))),
            }
        } else {
            match get_address_spec(src, address) {
                Err(e) => (Err(e), st),
                Ok(a) => {
                    let s1 = emit(st, line1(p, bracket(a)));
                    (Ok(()), if release_plain { release_all_spec(s1) } else { s1 })
                },
            }
        },
        _ => (Err(Error::UnexpectedStatement(address.spec_offset()->Some_0)), st),
    }
}

/// `INT` and a hex literal.
#[verifier::opaque]
pub open spec fn int_spec(src: Seq<u8>, st: GenState, value: Statement) -> (Result<(), Error>, GenState) {
    match hex_lit_spec(src, value) {
        Err(e) => (Err(e), st),
        Ok(h) => (Ok(()), emit(st, line1(InstructionPrefix::Int.spec_name(), h))),
    }
}

/// The lines of an instruction.
pub open spec fn gen_instruction_spec(src: Seq<u8>, st: GenState, i: Instruction) -> (Result<(), Error>, GenState) {
    match i {
        Instruction::MovRegReg(l, r) => reg_reg_spec(src, st, InstructionPrefix::Mov.spec_name(), l, r),
        Instruction::AddRegReg(l, r) => reg_reg_spec(src, st, InstructionPrefix::Add.spec_name(), l, r),
        Instruction::SubRegReg(l, r) => reg_reg_spec(src, st, InstructionPrefix::Sub.spec_name(), l, r),
        Instruction::MulRegReg(l, r) => reg_reg_spec(src, st, InstructionPrefix::Mul.spec_name(), l, r),
        Instruction::LshRegReg(l, r) => reg_reg_spec(src, st, InstructionPrefix::Lsh.spec_name(), l, r),
        Instruction::RshRegReg(l, r) => reg_reg_spec(src, st, InstructionPrefix::Rsh.spec_name(), l, r),
        Instruction::AndRegReg(l, r) => reg_reg_spec(src, st, InstructionPrefix::And.spec_name(), l, r),
        Instruction::OrRegReg(l, r) => reg_reg_spec(src, st, InstructionPrefix::Or.spec_name(), l, r),
        Instruction::XorRegReg(l, r) => reg_reg_spec(src, st, InstructionPrefix::Xor.spec_name(), l, r),
        Instruction::MovLitReg(l, r) => lit_reg_spec(src, st, InstructionPrefix::Mov.spec_name(), l, r),
        Instruction::AddLitReg(l, r) => lit_reg_spec(src, st, InstructionPrefix::Add.spec_name(), l, r),
        Instruction::SubLitReg(l, r) => lit_reg_spec(src, st, InstructionPrefix::Sub.spec_name(), l, r),
        Instruction::MulLitReg(l, r) => lit_reg_spec(src, st, InstructionPrefix::Mul.spec_name(), l, r),
        Instruction::LshLitReg(l, r) => lit_reg_spec(src, st, InstructionPrefix::Lsh.spec_name(), l, r),
        Instruction::RshLitReg(l, r) => lit_reg_spec(src, st, InstructionPrefix::Rsh.spec_name(), l, r),
        Instruction::AndLitReg(l, r) => lit_reg_spec(src, st, InstructionPrefix::And.spec_name(), l, r),
        Instruction::OrLitReg(l, r) => lit_reg_spec(src, st, InstructionPrefix::Or.spec_name(), l, r),
        Instruction::XorLitReg(l, r) => lit_reg_spec(src, st, InstructionPrefix::Xor.spec_name(), l, r),
        Instruction::MovRegMem(l, r) => reg_mem_spec(src, st, InstructionPrefix::Mov.spec_name(), l, r),
        Instruction::JeqReg(l, r) => reg_mem_spec(src, st, InstructionPrefix::Jeq.spec_name(), l, r),
        Instruction::JgtReg(l, r) => reg_mem_spec(src, st, InstructionPrefix::Jgt.spec_name(), l, r),
        Instruction::JneReg(l, r) => reg_mem_spec(src, st, InstructionPrefix::Jne.spec_name(), l, r),
        Instruction::JgeReg(l, r) => reg_mem_spec(src, st, InstructionPrefix::Jge.spec_name(), l, r),
        Instruction::JleReg(l, r) => reg_mem_spec(src, st, InstructionPrefix::Jle.spec_name(), l, r),
        Instruction::JltReg(l, r) => reg_mem_spec(src, st, InstructionPrefix::Jlt.spec_name(), l, r),
        Instruction::MovMemReg(l, r) => mem_reg_spec(src, st, InstructionPrefix::Mov.spec_name(), l, r),
        Instruction::MovLitMem(l, r) => lit_mem_spec(src, st, InstructionPrefix::Mov.spec_name(), InstructionPrefix::Mov.spec_name(), true, l, r),
        Instruction::JeqLit(l, r) => lit_mem_spec(src, st, InstructionPrefix::Jeq.spec_name(), InstructionPrefix::Jeq.spec_name(), false, l, r),
        Instruction::JgtLit(l, r) => lit_mem_spec(src, st, InstructionPrefix::Jgt.spec_name(), InstructionPrefix::Jgt.spec_name(), false, l, r),
        Instruction::JneLit(l, r) => lit_mem_spec(src, st, InstructionPrefix::Jne.spec_name(), InstructionPrefix::Jne.spec_name(), false, l, r),
        Instruction::JgeLit(l, r) => lit_mem_spec(src, st, InstructionPrefix::Jge.spec_name(), InstructionPrefix::Jge.spec_name(), false, l, r),
        Instruction::JleLit(l, r) => lit_mem_spec(src, st, InstructionPrefix::Jle.spec_name(), InstructionPrefix::Jle.spec_name(), false, l, r),
        Instruction::JltLit(l, r) => lit_mem_spec(src, st, InstructionPrefix::Jlt.spec_name(), InstructionPrefix::Jlt.spec_name(), false, l, r),
        Instruction::MovRegPtrReg(l, r) => reg_ptr_reg_spec(src, st, l, r),
        Instruction::Inc(r) => single_spec(src, st, InstructionPrefix::Inc.spec_name(), r),
        Instruction::Dec(r) => single_spec(src, st, InstructionPrefix::Dec.spec_name(), r),
        Instruction::Not(r) => single_spec(src, st, InstructionPrefix::Not.spec_name(), r),
        Instruction::PshReg(r) => single_spec(src, st, InstructionPrefix::Psh.spec_name(), r),
        Instruction::Pop(r) => single_spec(src, st, InstructionPrefix::Pop.spec_name(), r),
        Instruction::PshLit(v) => psh_lit_spec(src, st, v),
        Instruction::Call(a) => jump_spec(src, st, InstructionPrefix::Call.spec_name(), a, false),
        Instruction::Jmp(a) => jump_spec(src, st, InstructionPrefix::Jmp.spec_name(), a, true),
        Instruction::Int(v) => int_spec(src, st, v),
        Instruction::Ret(_) => (Ok(()), emit(st, InstructionPrefix::Ret.spec_name())),
        Instruction::Hlt(_) => (Ok(()), emit(st, InstructionPrefix::Hlt.spec_name())),
        Instruction::Rti(_) => (Ok(()), emit(st, InstructionPrefix::Rti.spec_name())),
    }
}

/// `+` before an exported name, nothing before another.
pub open spec fn export_mark(exported: bool) -> Seq<u8> {
    if exported {
        seq![43u8]
    } else {
        Seq::empty()
    }
}

/// A byte in decimal digits.
pub open spec fn dec_text(n: u8) -> Seq<u8> {
    if n < 10 {
        seq![(48 + n) as u8]
    } else if n < 100 {
        seq![(48 + n / 10) as u8, (48 + n % 10) as u8]
    } else {
        seq![(48 + n / 100) as u8, (48 + (n / 10) % 10) as u8, (48 + n % 10) as u8]
    }
}

/// A value of a data block as written: a hex literal, or the address of one
/// as `&[...]`.
pub open spec fn data_value_spec(src: Seq<u8>, v: Statement) -> Result<Seq<u8>, Error> {
    match v {
        Statement::Address(inner) => match hex_lit_spec(src, *inner) {
            Ok(h) => Ok(bracket(h)),
            Err(e) => Err(e),
        },
        Statement::HexLiteral(o) => Ok(hex_text(src, o)),
        _ => Err(Error::UnexpectedStatement(v.spec_offset()->Some_0)),
    }
}

/// The values of a data block as written, with `, ` between them; the first
/// value that cannot be written gives the error.
pub open spec fn data_values_spec(src: Seq<u8>, vs: Seq<Statement>) -> Result<Seq<u8>, Error>
    decreases vs.len(),
{
    if vs.len() == 0 {
        Ok(Seq::empty())
    } else {
        match data_values_spec(src, vs.drop_last()) {
            Err(e) => Err(e),
            Ok(front) => match data_value_spec(src, vs.last()) {
                Err(e) => Err(e),
                Ok(t) => Ok(if vs.len() == 1 { t } else { front + seq![44u8, 32u8] + t }),
            },
        }
    }
}

/// `data8 name = { v, ... }`, with `+` first where it is exported.
pub open spec fn data_line(exported: bool, size: u8, name: Seq<u8>, values: Seq<u8>) -> Seq<u8> {
    export_mark(exported) + seq![100u8, 97u8, 116u8, 97u8] + dec_text(size) + seq![32u8] + name
        + seq![32u8, 61u8, 32u8, 123u8, 32u8] + values + seq![32u8, 125u8]
}

/// `name:`, with `+` first where it is exported.
pub open spec fn label_line(exported: bool, name: Seq<u8>) -> Seq<u8> {
    export_mark(exported) + name + seq![58u8]
}

/// `const name = $v`, with `+` first where it is exported.
pub open spec fn const_line(exported: bool, name: Seq<u8>, value: Seq<u8>) -> Seq<u8> {
    export_mark(exported) + seq![99u8, 111u8, 110u8, 115u8, 116u8, 32u8] + name + seq![32u8, 61u8, 32u8] + value
}

/// Whether a value of a data block can be worked on.
pub open spec fn data_value_ok(src: Seq<u8>, v: Statement) -> bool {
    match v {
        Statement::HexLiteral(o) => text_ok(src, o),
        Statement::Address(inner) => match *inner {
            Statement::HexLiteral(o) => text_ok(src, o),
            _ => inner.spec_offset() is Some,
        },
        _ => v.spec_offset() is Some,
    }
}

/// Whether the generator can work on a statement.
pub open spec fn statement_ok(src: Seq<u8>, s: Statement) -> bool {
    match s {
        Statement::Data { name, values, .. } => text_ok(src, name) && forall|i: int|
            0 <= i < values@.len() ==> data_value_ok(src, #[trigger] values@[i]),
        Statement::Label { name, .. } => text_ok(src, name),
        Statement::Const { name, value, .. } => text_ok(src, name) && operand_ok(src, *value),
        Statement::Instruction(i) => instruction_ok(src, *i),
        _ => true,
    }
}

/// The lines of a statement: data blocks, labels and constants are written
/// again, instructions rewritten, the rest left out.
#[verifier::opaque]
pub open spec fn statement_spec(src: Seq<u8>, st: GenState, s: Statement) -> (Result<(), Error>, GenState) {
    match s {
        Statement::Data { name, size, exported, values } => match data_values_spec(src, values@) {
            Err(e) => (Err(e), st),
            Ok(v) => (Ok(()), emit(st, data_line(exported, size, text(src, name), v))),
        },
        Statement::Label { name, exported } => (Ok(()), emit(st, label_line(exported, text(src, name)))),
        Statement::Const { name, exported, value } => match hex_lit_spec(src, *value) {
            Err(e) => (Err(e), st),
            Ok(h) => (Ok(()), emit(st, const_line(exported, text(src, name), h))),
        },
        Statement::Instruction(i) => gen_instruction_spec(src, st, *i),
        _ => (Ok(()), st),
    }
}

/// The lines of the statements in order; the first error ends the work.
pub open spec fn generate_spec(src: Seq<u8>, st: GenState, stmts: Seq<Statement>) -> (Result<(), Error>, GenState)
    decreases stmts.len(),
{
    if stmts.len() == 0 {
        (Ok(()), st)
    } else {
        let (r, s1) = generate_spec(src, st, stmts.drop_last());
        match r {
            Err(e) => (Err(e), s1),
            Ok(_) => statement_spec(src, s1, stmts.last()),
        }
    }
}

/// Once the work has failed on a prefix, it fails the same way on the whole.
pub proof fn lemma_generate_error_stays(src: Seq<u8>, st: GenState, stmts: Seq<Statement>, k: int)
    requires
        0 <= k <= stmts.len(),
        generate_spec(src, st, stmts.take(k)).0 is Err,
    ensures
        generate_spec(src, st, stmts) == generate_spec(src, st, stmts.take(k)),
    decreases stmts.len() - k,
{
    if k == stmts.len() {
        assert(stmts.take(k) =~= stmts);
    } else {
        assert(stmts.take(k + 1).drop_last() =~= stmts.take(k));
        lemma_generate_error_stays(src, st, stmts, k + 1);
    }
}

/// One step of the work: the statement after a prefix.
pub proof fn lemma_generate_step(src: Seq<u8>, st: GenState, stmts: Seq<Statement>, i: int)
    requires
        0 <= i < stmts.len(),
        generate_spec(src, st, stmts.take(i)).0 is Ok,
    ensures
        generate_spec(src, st, stmts.take(i + 1)) == statement_spec(src, generate_spec(src, st, stmts.take(i)).1, stmts[i]),
{
    assert(stmts.take(i + 1).drop_last() =~= stmts.take(i));
    assert(stmts.take(i + 1).last() == stmts[i]);
}

/// The lines joined with line breaks.
pub open spec fn join_lines(lines: Seq<Seq<u8>>) -> Seq<u8>
    decreases lines.len(),
{
    if lines.len() == 0 {
        Seq::empty()
    } else if lines.len() == 1 {
        lines[0]
    } else {
        join_lines(lines.drop_last()) + seq![10u8] + lines.last()
    }
}

/// Whether an instruction takes two registers.
pub open spec fn reg_reg_group(i: Instruction) -> bool {
    i is MovRegReg
        || i is AddRegReg
        || i is SubRegReg
        || i is MulRegReg
        || i is LshRegReg
        || i is RshRegReg
        || i is AndRegReg
        || i is OrRegReg
        || i is XorRegReg
}

/// Whether an instruction takes a register and a value.
pub open spec fn lit_reg_group(i: Instruction) -> bool {
    i is MovLitReg
        || i is AddLitReg
        || i is SubLitReg
        || i is MulLitReg
        || i is LshLitReg
        || i is RshLitReg
        || i is AndLitReg
        || i is OrLitReg
        || i is XorLitReg
}

/// Whether an instruction takes an address and a register, or an address alone.
pub open spec fn address_group(i: Instruction) -> bool {
    i is MovRegMem
        || i is JeqReg
        || i is JgtReg
        || i is JneReg
        || i is JgeReg
        || i is JleReg
        || i is JltReg
        || i is MovMemReg
        || i is MovRegPtrReg
        || i is Call
        || i is Jmp
}

/// Whether an instruction takes an address and a value.
pub open spec fn lit_mem_group(i: Instruction) -> bool {
    i is MovLitMem
        || i is JeqLit
        || i is JgtLit
        || i is JneLit
        || i is JgeLit
        || i is JleLit
        || i is JltLit
}

/// Whether an instruction takes one operand or none.
pub open spec fn operand_group(i: Instruction) -> bool {
    i is Inc
        || i is Dec
        || i is Not
        || i is PshReg
        || i is Pop
        || i is PshLit
        || i is Int
        || i is Ret
        || i is Hlt
        || i is Rti
}

/// The code generator of one module.
pub struct CodeGenerator<'codegen> {
    source: &'codegen [u8],
    ast: &'codegen Ast,
    code: Vec<Vec<u8>>,
    temp_registers: Vec<Register>,
    used_registers: Vec<Register>,
}

impl<'codegen> View for CodeGenerator<'codegen> {
    type V = GenState;

    closed spec fn view(&self) -> GenState {
        GenState {
            code: self.code@.map_values(|l: Vec<u8>| l@),
            temp: self.temp_registers@,
            used: self.used_registers@,
        }
    }
}

/// The temporary registers at the start: the last is taken first.
pub open spec fn initial_temps() -> Seq<Register> {
    seq![Register::Acc, Register::R5, Register::R6, Register::R7, Register::R8]
}

/// Whether `r` is in `v`.
fn contains_register(v: &Vec<Register>, r: Register) -> (b: bool)
    ensures
        b == v@.contains(r),
{
    let mut i: usize = 0;
    while i < v.len()
        invariant
            i <= v@.len(),
            forall|j: int| 0 <= j < i ==> v@[j] != r,
        decreases v@.len() - i,
    {
        if v[i] == r {
            return true;
        }
        i = i + 1;
    }
    false
}

/// Whether every line is valid UTF-8.
pub open spec fn lines_utf8(code: Seq<Seq<u8>>) -> bool {
    forall|i: int| 0 <= i < code.len() ==> vstd::utf8::valid_utf8(#[trigger] code[i])
}

impl<'codegen> CodeGenerator<'codegen> {
    /// The generator writes valid UTF-8 lines only.
    #[verifier::type_invariant]
    closed spec fn writes_utf8(self) -> bool {
        lines_utf8(self@.code)
    }

    /// The source the generator reads.
    pub closed spec fn src(&self) -> Seq<u8> {
        self.source@
    }

    /// The statements the generator works through.
    pub closed spec fn statements(&self) -> Seq<Statement> {
        self.ast.statements@
    }

    /// A generator for `source` that has written nothing yet.
    pub fn new(source: &'codegen [u8], ast: &'codegen Ast) -> (g: Self)
        ensures
            g.src() == source@,
            g.statements() == ast.statements@,
            g@.code == Seq::<Seq<u8>>::empty(),
            g@.temp == initial_temps(),
            g@.used == Seq::<Register>::empty(),
    {
        let code: Vec<Vec<u8>> = Vec::new();
        proof {
            assert(code@.map_values(|l: Vec<u8>| l@) =~= Seq::<Seq<u8>>::empty());
        }
        CodeGenerator {
            source,
            ast,
            code,
            temp_registers: vec![Register::Acc, Register::R5, Register::R6, Register::R7, Register::R8],
            used_registers: Vec::new(),
        }
    }

    /// Writes a line.
    fn emit(&mut self, line: Vec<u8>)
        requires
            ascii(line@),
        ensures
            final(self)@ == emit(old(self)@, line@),
            final(self).src() == old(self).src(),
            final(self).statements() == old(self).statements(),
    {
        let ghost before = self@.code;
        proof {
            use_type_invariant(&*self);
        }
        let mut code: Vec<Vec<u8>> = Vec::new();
        std::mem::swap(&mut code, &mut self.code);
        code.push(line);
        proof {
            let after = before.push(line@);
            assert(code@.map_values(|l: Vec<u8>| l@) =~= after);
            lemma_ascii_utf8(line@);
            assert forall|i: int| 0 <= i < after.len() implies vstd::utf8::valid_utf8(#[trigger] after[i]) by {
                if i < before.len() {
                    assert(after[i] == before[i]);
                }
            }
        }
        self.code = code;
        assert(self@.code =~= old(self)@.code.push(line@));
    }

    /// The lines written so far, one per element.
    pub fn lines(&self) -> (l: &Vec<Vec<u8>>)
        ensures
            l@.map_values(|x: Vec<u8>| x@) == self@.code,
    {
        &self.code
    }

    /// Takes the next free temporary register, saving it on the stack first.
    fn get_temp_register(&mut self, node: &Statement) -> (r: Result<Register, Error>)
        requires
            node.spec_offset() is Some,
        ensures
            (r, final(self)@) == temp_spec(old(self)@, *node),
            final(self).src() == old(self).src(),
            final(self).statements() == old(self).statements(),
    {
        proof {
            use_type_invariant(&*self);
        }
        let mut temps: Vec<Register> = Vec::new();
        std::mem::swap(&mut temps, &mut self.temp_registers);
        let popped = temps.pop();
        self.temp_registers = temps;
        match popped {
            Some(reg) => {
                proof {
                    InstructionPrefix::Psh.lemma_name_ascii();
                    lemma_names_ascii(reg, Operator::Add);
                    lemma_lines_ascii(InstructionPrefix::Psh.spec_name(), reg_name(reg), reg_name(reg));
                }
                let line = make_line1(InstructionPrefix::Psh.name(), register_name(reg));
                self.emit(line);
                proof {
                    use_type_invariant(&*self);
                }
                let mut used: Vec<Register> = Vec::new();
                std::mem::swap(&mut used, &mut self.used_registers);
                used.push(reg);
                self.used_registers = used;
                Ok(reg)
            },
            None => Err(Error::ExpressionTooLarge(node.offset())),
        }
    }

    /// Restores every temporary register in use, the last taken first.
    fn release_all_temp_registers(&mut self)
        ensures
            final(self)@ == release_all_spec(old(self)@),
            final(self).src() == old(self).src(),
            final(self).statements() == old(self).statements(),
        decreases old(self)@.used.len(),
    {
        proof {
            use_type_invariant(&*self);
        }
        let mut used: Vec<Register> = Vec::new();
        std::mem::swap(&mut used, &mut self.used_registers);
        let popped = used.pop();
        self.used_registers = used;
        match popped {
            Some(reg) => {
                proof {
                    InstructionPrefix::Pop.lemma_name_ascii();
                    lemma_names_ascii(reg, Operator::Add);
                    lemma_lines_ascii(InstructionPrefix::Pop.spec_name(), reg_name(reg), reg_name(reg));
                }
                let line = make_line1(InstructionPrefix::Pop.name(), register_name(reg));
                self.emit(line);
                proof {
                    use_type_invariant(&*self);
                }
                let mut temps: Vec<Register> = Vec::new();
                std::mem::swap(&mut temps, &mut self.temp_registers);
                temps.push(reg);
                self.temp_registers = temps;
                self.release_all_temp_registers();
            },
            None => {},
        }
    }

    /// Restores one temporary register.
    fn release_temp_register(&mut self, reg: Register)
        ensures
            final(self)@ == release_spec(old(self)@, reg),
            final(self).src() == old(self).src(),
            final(self).statements() == old(self).statements(),
    {
        proof {
            use_type_invariant(&*self);
        }
        proof {
            InstructionPrefix::Pop.lemma_name_ascii();
            lemma_names_ascii(reg, Operator::Add);
            lemma_lines_ascii(InstructionPrefix::Pop.spec_name(), reg_name(reg), reg_name(reg));
        }
        let line = make_line1(InstructionPrefix::Pop.name(), register_name(reg));
        self.emit(line);
        proof {
            use_type_invariant(&*self);
        }
        let kept = without(&self.used_registers, reg);
        self.used_registers = kept;
        let mut temps: Vec<Register> = Vec::new();
        std::mem::swap(&mut temps, &mut self.temp_registers);
        temps.push(reg);
        self.temp_registers = temps;
    }
}

impl<'codegen> CodeGenerator<'codegen> {
    /// The bytes of the source that `o` covers.
    fn source_text(&self, o: ByteOffset) -> (t: &[u8])
        requires
            in_code(self.src(), o),
        ensures
            t@ == text(self.src(), o),
    {
        &self.source[o.start..o.end]
    }

    /// A hex literal as written: `$` and its digits in capitals.
    fn hex_text(&self, o: ByteOffset) -> (t: Vec<u8>)
        requires
            text_ok(self.src(), o),
        ensures
            t@ == hex_text(self.src(), o),
            ascii(t@),
    {
        proof {
            lemma_written_ascii(self.src(), o);
        }
        let digits = to_upper(self.source_text(o));
        let mut t: Vec<u8> = Vec::new();
        t.push(36);
        push_all(&mut t, digits.as_slice());
        assert(t@ =~= hex_text(self.src(), o));
        t
    }

    /// A variable as written: `!` and its name.
    fn var_text(&self, o: ByteOffset) -> (t: Vec<u8>)
        requires
            text_ok(self.src(), o),
        ensures
            t@ == var_text(self.src(), o),
            ascii(t@),
    {
        proof {
            lemma_written_ascii(self.src(), o);
        }
        let mut t: Vec<u8> = Vec::new();
        t.push(33);
        push_all(&mut t, self.source_text(o));
        assert(t@ =~= var_text(self.src(), o));
        t
    }

    /// The value of a constant expression (see `evaluate_spec`).
    fn evaluate_constants(&self, node: &Statement) -> (r: Result<Option<Vec<u8>>, Error>)
        requires
            expr_ok(self.src(), *node),
        ensures
            match evaluate_spec(self.src(), *node) {
                Ok(Some(v)) => r matches Ok(Some(t)) && t@ == v,
                Ok(None) => r matches Ok(None),
                Err(e) => r == Err::<Option<Vec<u8>>, Error>(e),
            },
            r matches Ok(Some(t)) ==> ascii(t@),
        decreases node,
    {
        match node {
            Statement::HexLiteral(o) => Ok(Some(self.hex_text(*o))),
            Statement::BinaryOp { lhs, rhs, .. } => {
                proof {
                    lemma_operand_offset(self.src(), **lhs);
                    lemma_operand_offset(self.src(), **rhs);
                }
                let a = self.evaluate_constants(&**lhs)?;
                let b = self.evaluate_constants(&**rhs)?;
                match (a, b) {
                    (Some(a), Some(b)) => {
                        let left = parse_hex_u16(a.as_slice());
                        match left {
                            None => Err(Error::InvalidHex(lhs.offset())),
                            Some(_) => {
                                proof {
                                    assert(!crate::lexer::is_hex_digit(a@[0]));
                                }
                                unreached()
                            },
                        }
                    },
                    _ => Ok(None),
                }
            },
            _ => Ok(None),
        }
    }

    /// A register operand, by its name (see `get_register_spec`).
    fn get_register(&self, node: &Statement) -> (r: Result<Register, Error>)
        requires
            register_ok(self.src(), *node),
        ensures
            r == get_register_spec(self.src(), *node),
    {
        match node {
            Statement::Register(o) => match Register::from_name(self.source_text(*o)) {
                Ok(reg) => Ok(reg),
                Err(_) => Err(Error::InvalidRegister(*o)),
            },
            _ => unreached(),
        }
    }

    /// A hex literal as written (see `hex_lit_spec`).
    fn gen_hex_lit(&self, node: &Statement) -> (r: Result<Vec<u8>, Error>)
        requires
            operand_ok(self.src(), *node),
        ensures
            match hex_lit_spec(self.src(), *node) {
                Ok(v) => r matches Ok(t) && t@ == v,
                Err(e) => r == Err::<Vec<u8>, Error>(e),
            },
            r matches Ok(t) ==> ascii(t@),
    {
        proof {
            lemma_operand_offset(self.src(), *node);
        }
        match node {
            Statement::HexLiteral(o) => Ok(self.hex_text(*o)),
            _ => Err(Error::UnexpectedStatement(node.offset())),
        }
    }

    /// An address as written inside `&[...]` (see `get_address_spec`).
    fn get_address(&self, node: &Statement) -> (r: Result<Vec<u8>, Error>)
        requires
            operand_ok(self.src(), *node),
        ensures
            match get_address_spec(self.src(), *node) {
                Ok(v) => r matches Ok(t) && t@ == v,
                Err(e) => r == Err::<Vec<u8>, Error>(e),
            },
            r matches Ok(t) ==> ascii(t@),
    {
        proof {
            lemma_operand_offset(self.src(), *node);
        }
        match node {
            Statement::Address(inner) => {
                proof {
                    lemma_operand_offset(self.src(), **inner);
                }
                match &**inner {
                    Statement::Register(o) => Ok(vstd::slice::slice_to_vec(self.source_text(*o))),
                    Statement::HexLiteral(o) => Ok(self.hex_text(*o)),
                    Statement::Var(o) => Ok(self.var_text(*o)),
                    _ => Err(Error::UnexpectedStatement(inner.offset())),
                }
            },
            _ => Err(Error::UnexpectedStatement(node.offset())),
        }
    }

    /// The register a value goes to: `target`, else a temporary register.
    fn dest(&mut self, node: &Statement, target: Option<Register>) -> (r: Result<Register, Error>)
        requires
            node.spec_offset() is Some,
        ensures
            (r, final(self)@) == dest_spec(old(self)@, *node, target),
            final(self).src() == old(self).src(),
            final(self).statements() == old(self).statements(),
    {
        match target {
            Some(t) => Ok(t),
            None => self.get_temp_register(node),
        }
    }

    /// Writes the code that puts the value of `node` in a register (see
    /// `generate_code_spec`).
    #[verifier::rlimit(40)]
    fn generate_code(&mut self, prefix: InstructionPrefix, node: &Statement, target: Option<Register>) -> (r: Result<Register, Error>)
        requires
            expr_ok(old(self).src(), *node),
        ensures
            (r, final(self)@) == generate_code_spec(old(self).src(), old(self)@, prefix.spec_name(), *node, target),
            final(self).src() == old(self).src(),
            final(self).statements() == old(self).statements(),
        decreases node,
    {
        proof {
            lemma_operand_offset(self.src(), *node);
        }
        if let Some(value) = self.evaluate_constants(node)? {
            let dest = self.dest(node, target)?;
            let line = make_line2(prefix.name(), register_name(dest), value.as_slice());
            self.emit(line);
            return Ok(dest);
        }
        match node {
            Statement::Register(o) => {
                let dest = self.dest(node, target)?;
                let reg = match Register::from_name(self.source_text(*o)) {
                    Ok(reg) => reg,
                    Err(_) => return Err(Error::InvalidRegister(node.offset())),
                };
                let line = make_line2(prefix.name(), register_name(dest), register_name(reg));
                self.emit(line);
                Ok(dest)
            },
            Statement::Var(o) => {
                let dest = self.dest(node, target)?;
                let var = self.var_text(*o);
                let line = make_line2(prefix.name(), register_name(dest), var.as_slice());
                self.emit(line);
                Ok(dest)
            },
            Statement::BinaryOp { lhs, operator, rhs } => {
                let l = self.generate_code(InstructionPrefix::Mov, &**lhs, None)?;
                let r = self.generate_code(InstructionPrefix::Mov, &**rhs, None)?;
                let line = make_line2(operator_name(*operator), register_name(l), register_name(r));
                self.emit(line);
                let dest = match target {
                    Some(t) => t,
                    None => l,
                };
                if dest != l {
                    let line = make_line2(prefix.name(), register_name(dest), register_name(l));
                    self.emit(line);
                }
                if !contains_register(&self.used_registers, r) {
                    self.release_temp_register(r);
                }
                Ok(dest)
            },
            _ => Err(Error::UnexpectedStatement(node.offset())),
        }
    }
}

impl<'codegen> CodeGenerator<'codegen> {
    /// `p l, r` for two registers (see `reg_reg_spec`).
    fn gen_reg_reg(&mut self, prefix: InstructionPrefix, lhs: &Statement, rhs: &Statement) -> (r: Result<(), Error>)
        requires
            register_ok(old(self).src(), *lhs),
            register_ok(old(self).src(), *rhs),
        ensures
            (r, final(self)@) == reg_reg_spec(old(self).src(), old(self)@, prefix.spec_name(), *lhs, *rhs),
            final(self).src() == old(self).src(),
            final(self).statements() == old(self).statements(),
    {
        proof {
            reveal(reg_reg_spec);
        }
        let l = self.get_register(lhs)?;
        let r = self.get_register(rhs)?;
        let line = make_line2(prefix.name(), register_name(l), register_name(r));
        self.emit(line);
        Ok(())
    }

    /// A register and a value (see `lit_reg_spec`).
    fn gen_lit_reg(&mut self, prefix: InstructionPrefix, lhs: &Statement, rhs: &Statement) -> (r: Result<(), Error>)
        requires
            register_ok(old(self).src(), *lhs),
            expr_ok(old(self).src(), *rhs),
        ensures
            (r, final(self)@) == lit_reg_spec(old(self).src(), old(self)@, prefix.spec_name(), *lhs, *rhs),
            final(self).src() == old(self).src(),
            final(self).statements() == old(self).statements(),
    {
        proof {
            reveal(lit_reg_spec);
        }
        let l = self.get_register(lhs)?;
        match rhs {
            Statement::Var(o) => {
                let v = self.var_text(*o);
                let line = make_line2(prefix.name(), register_name(l), v.as_slice());
                self.emit(line);
                Ok(())
            },
            _ => {
                self.generate_code(prefix, rhs, Some(l))?;
                self.release_all_temp_registers();
                Ok(())
            },
        }
    }

    /// An address and a register (see `reg_mem_spec`).
    fn gen_reg_mem(&mut self, prefix: InstructionPrefix, lhs: &Statement, rhs: &Statement) -> (r: Result<(), Error>)
        requires
            address_ok(old(self).src(), *lhs),
            register_ok(old(self).src(), *rhs),
        ensures
            (r, final(self)@) == reg_mem_spec(old(self).src(), old(self)@, prefix.spec_name(), *lhs, *rhs),
            final(self).src() == old(self).src(),
            final(self).statements() == old(self).statements(),
    {
        proof {
            reveal(reg_mem_spec);
        }
        proof {
            lemma_operand_offset(self.src(), *lhs);
        }
        match lhs {
            Statement::Address(inner) => {
                if let Statement::BinaryOp { .. } = &**inner {
                    let t = self.generate_code(InstructionPrefix::Mov, &**inner, None)?;
                    let r = self.get_register(rhs)?;
                    let b = make_bracket(register_name(t));
                    let line = make_line2(prefix.name(), b.as_slice(), register_name(r));
                    self.emit(line);
                    self.release_all_temp_registers();
                    Ok(())
                } else {
                    let a = self.get_address(lhs)?;
                    let r = self.get_register(rhs)?;
                    let b = make_bracket(a.as_slice());
                    let line = make_line2(prefix.name(), b.as_slice(), register_name(r));
                    self.emit(line);
                    Ok(())
                }
            },
            _ => Err(Error::UnexpectedStatement(lhs.offset())),
        }
    }

    /// A register and an address (see `mem_reg_spec`).
    fn gen_mem_reg(&mut self, prefix: InstructionPrefix, lhs: &Statement, rhs: &Statement) -> (r: Result<(), Error>)
        requires
            register_ok(old(self).src(), *lhs),
            address_ok(old(self).src(), *rhs),
        ensures
            (r, final(self)@) == mem_reg_spec(old(self).src(), old(self)@, prefix.spec_name(), *lhs, *rhs),
            final(self).src() == old(self).src(),
            final(self).statements() == old(self).statements(),
    {
        proof {
            reveal(mem_reg_spec);
        }
        proof {
            lemma_operand_offset(self.src(), *rhs);
        }
        let l = self.get_register(lhs)?;
        match rhs {
            Statement::Address(inner) => {
                if let Statement::BinaryOp { .. } = &**inner {
                    let t = self.generate_code(InstructionPrefix::Mov, &**inner, None)?;
                    let b = make_bracket(register_name(t));
                    let line = make_line2(prefix.name(), register_name(l), b.as_slice());
                    self.emit(line);
                    self.release_all_temp_registers();
                    Ok(())
                } else {
                    let a = self.get_address(rhs)?;
                    let b = make_bracket(a.as_slice());
                    let line = make_line2(prefix.name(), register_name(l), b.as_slice());
                    self.emit(line);
                    Ok(())
                }
            },
            _ => Err(Error::UnexpectedStatement(rhs.offset())),
        }
    }

    /// An address and a value (see `lit_mem_spec`).
    fn gen_lit_mem(
        &mut self,
        prefix: InstructionPrefix,
        value_prefix: InstructionPrefix,
        mov_form: bool,
        lhs: &Statement,
        rhs: &Statement,
    ) -> (r: Result<(), Error>)
        requires
            address_ok(old(self).src(), *lhs),
            expr_ok(old(self).src(), *rhs),
        ensures
            (r, final(self)@) == lit_mem_spec(
                old(self).src(),
                old(self)@,
                prefix.spec_name(),
                value_prefix.spec_name(),
                mov_form,
                *lhs,
                *rhs,
            ),
            final(self).src() == old(self).src(),
            final(self).statements() == old(self).statements(),
    {
        proof {
            reveal(lit_mem_spec);
        }
        proof {
            lemma_operand_offset(self.src(), *lhs);
        }
        match lhs {
            Statement::Address(inner) => {
                let l: Vec<u8> = if let Statement::BinaryOp { .. } = &**inner {
                    let t = self.generate_code(InstructionPrefix::Mov, &**inner, None)?;
                    vstd::slice::slice_to_vec(register_name(t))
                } else {
                    self.get_address(lhs)?
                };
                let b = make_bracket(l.as_slice());
                match rhs {
                    Statement::Var(o) => {
                        let v = self.var_text(*o);
                        let line = make_line2(prefix.name(), b.as_slice(), v.as_slice());
                        self.emit(line);
                        return Ok(());
                    },
                    Statement::HexLiteral(o) => {
                        if !mov_form {
                            let h = self.hex_text(*o);
                            let line = make_line2(prefix.name(), b.as_slice(), h.as_slice());
                            self.emit(line);
                            return Ok(());
                        }
                    },
                    _ => {},
                }
                let r = self.generate_code(value_prefix, rhs, None)?;
                let line = make_line2(prefix.name(), b.as_slice(), register_name(r));
                if mov_form {
                    self.release_all_temp_registers();
                    self.emit(line);
                } else {
                    self.emit(line);
                    self.release_all_temp_registers();
                }
                Ok(())
            },
            _ => Err(Error::UnexpectedStatement(lhs.offset())),
        }
    }

    /// Two addresses (see `reg_ptr_reg_spec`).
    fn gen_reg_ptr_reg(&mut self, lhs: &Statement, rhs: &Statement) -> (r: Result<(), Error>)
        requires
            operand_ok(old(self).src(), *lhs),
            operand_ok(old(self).src(), *rhs),
        ensures
            (r, final(self)@) == reg_ptr_reg_spec(old(self).src(), old(self)@, *lhs, *rhs),
            final(self).src() == old(self).src(),
            final(self).statements() == old(self).statements(),
    {
        proof {
            reveal(reg_ptr_reg_spec);
        }
        let a = self.get_address(lhs)?;
        let b = self.get_address(rhs)?;
        let ba = make_bracket(a.as_slice());
        let bb = make_bracket(b.as_slice());
        let line = make_line2(InstructionPrefix::Mov.name(), ba.as_slice(), bb.as_slice());
        self.emit(line);
        Ok(())
    }

    /// `p r` for one register (see `single_spec`).
    fn gen_single(&mut self, prefix: InstructionPrefix, reg: &Statement) -> (r: Result<(), Error>)
        requires
            register_ok(old(self).src(), *reg),
        ensures
            (r, final(self)@) == single_spec(old(self).src(), old(self)@, prefix.spec_name(), *reg),
            final(self).src() == old(self).src(),
            final(self).statements() == old(self).statements(),
    {
        proof {
            reveal(single_spec);
        }
        let r = self.get_register(reg)?;
        let line = make_line1(prefix.name(), register_name(r));
        self.emit(line);
        Ok(())
    }

    /// `PSH` of a value (see `psh_lit_spec`).
    fn gen_psh_lit(&mut self, lit: &Statement) -> (r: Result<(), Error>)
        requires
            expr_ok(old(self).src(), *lit),
        ensures
            (r, final(self)@) == psh_lit_spec(old(self).src(), old(self)@, *lit),
            final(self).src() == old(self).src(),
            final(self).statements() == old(self).statements(),
    {
        proof {
            reveal(psh_lit_spec);
        }
        let p = InstructionPrefix::Psh;
        match lit {
            Statement::Var(o) => {
                let v = self.var_text(*o);
                let line = make_line1(p.name(), v.as_slice());
                self.emit(line);
                Ok(())
            },
            Statement::HexLiteral(o) => {
                let h = self.hex_text(*o);
                let line = make_line1(p.name(), h.as_slice());
                self.emit(line);
                Ok(())
            },
            _ => {
                let r = self.generate_code(p, lit, None)?;
                let line = make_line1(p.name(), register_name(r));
                self.emit(line);
                self.release_all_temp_registers();
                Ok(())
            },
        }
    }

    /// A jump or a call (see `jump_spec`).
    fn gen_jump(&mut self, prefix: InstructionPrefix, address: &Statement, release_plain: bool) -> (r: Result<(), Error>)
        requires
            address_ok(old(self).src(), *address),
        ensures
            (r, final(self)@) == jump_spec(old(self).src(), old(self)@, prefix.spec_name(), *address, release_plain),
            final(self).src() == old(self).src(),
            final(self).statements() == old(self).statements(),
    {
        proof {
            reveal(jump_spec);
        }
        proof {
            lemma_operand_offset(self.src(), *address);
        }
        match address {
            Statement::Address(inner) => {
                if let Statement::BinaryOp { .. } = &**inner {
                    let t = self.generate_code(InstructionPrefix::Mov, &**inner, None)?;
                    let b = make_bracket(register_name(t));
                    let line = make_line1(prefix.name(), b.as_slice());
                    self.emit(line);
                    self.release_all_temp_registers();
                    Ok(())
                } else {
                    let a = self.get_address(address)?;
                    let b = make_bracket(a.as_slice());
                    let line = make_line1(prefix.name(), b.as_slice());
                    self.emit(line);
                    if release_plain {
                        self.release_all_temp_registers();
                    }
                    Ok(())
                }
            },
            _ => Err(Error::UnexpectedStatement(address.offset())),
        }
    }

    /// `INT` and a hex literal (see `int_spec`).
    fn gen_int(&mut self, value: &Statement) -> (r: Result<(), Error>)
        requires
            operand_ok(old(self).src(), *value),
        ensures
            (r, final(self)@) == int_spec(old(self).src(), old(self)@, *value),
            final(self).src() == old(self).src(),
            final(self).statements() == old(self).statements(),
    {
        proof {
            reveal(int_spec);
        }
        let h = self.gen_hex_lit(value)?;
        let line = make_line1(InstructionPrefix::Int.name(), h.as_slice());
        self.emit(line);
        Ok(())
    }

    /// A line that is the mnemonic alone.
    fn gen_bare(&mut self, prefix: InstructionPrefix) -> (r: Result<(), Error>)
        ensures
            (r, final(self)@) == (Ok::<(), Error>(()), emit(old(self)@, prefix.spec_name())),
            final(self).src() == old(self).src(),
            final(self).statements() == old(self).statements(),
    {
        let line = vstd::slice::slice_to_vec(prefix.name());
        self.emit(line);
        Ok(())
    }
}

impl<'codegen> CodeGenerator<'codegen> {
    /// Writes the lines of an instruction that takes two registers.
    fn gen_reg_reg_group(&mut self, instruction: &Instruction) -> (res: Result<(), Error>)
        requires
            reg_reg_group(*instruction),
            instruction_ok(old(self).src(), *instruction),
        ensures
            (res, final(self)@) == gen_instruction_spec(old(self).src(), old(self)@, *instruction),
            final(self).src() == old(self).src(),
            final(self).statements() == old(self).statements(),
    {
        match instruction {
            Instruction::MovRegReg(a, b) => self.gen_reg_reg(InstructionPrefix::Mov, a, b),
            Instruction::AddRegReg(a, b) => self.gen_reg_reg(InstructionPrefix::Add, a, b),
            Instruction::SubRegReg(a, b) => self.gen_reg_reg(InstructionPrefix::Sub, a, b),
            Instruction::MulRegReg(a, b) => self.gen_reg_reg(InstructionPrefix::Mul, a, b),
            Instruction::LshRegReg(a, b) => self.gen_reg_reg(InstructionPrefix::Lsh, a, b),
            Instruction::RshRegReg(a, b) => self.gen_reg_reg(InstructionPrefix::Rsh, a, b),
            Instruction::AndRegReg(a, b) => self.gen_reg_reg(InstructionPrefix::And, a, b),
            Instruction::OrRegReg(a, b) => self.gen_reg_reg(InstructionPrefix::Or, a, b),
            Instruction::XorRegReg(a, b) => self.gen_reg_reg(InstructionPrefix::Xor, a, b),
            _ => unreached(),
        }
    }

    /// Writes the lines of an instruction that takes a register and a value.
    fn gen_lit_reg_group(&mut self, instruction: &Instruction) -> (res: Result<(), Error>)
        requires
            lit_reg_group(*instruction),
            instruction_ok(old(self).src(), *instruction),
        ensures
            (res, final(self)@) == gen_instruction_spec(old(self).src(), old(self)@, *instruction),
            final(self).src() == old(self).src(),
            final(self).statements() == old(self).statements(),
    {
        match instruction {
            Instruction::MovLitReg(a, b) => self.gen_lit_reg(InstructionPrefix::Mov, a, b),
            Instruction::AddLitReg(a, b) => self.gen_lit_reg(InstructionPrefix::Add, a, b),
            Instruction::SubLitReg(a, b) => self.gen_lit_reg(InstructionPrefix::Sub, a, b),
            Instruction::MulLitReg(a, b) => self.gen_lit_reg(InstructionPrefix::Mul, a, b),
            Instruction::LshLitReg(a, b) => self.gen_lit_reg(InstructionPrefix::Lsh, a, b),
            Instruction::RshLitReg(a, b) => self.gen_lit_reg(InstructionPrefix::Rsh, a, b),
            Instruction::AndLitReg(a, b) => self.gen_lit_reg(InstructionPrefix::And, a, b),
            Instruction::OrLitReg(a, b) => self.gen_lit_reg(InstructionPrefix::Or, a, b),
            Instruction::XorLitReg(a, b) => self.gen_lit_reg(InstructionPrefix::Xor, a, b),
            _ => unreached(),
        }
    }

    /// Writes the lines of an instruction that takes an address and a register, or an address alone.
    fn gen_address_group(&mut self, instruction: &Instruction) -> (res: Result<(), Error>)
        requires
            address_group(*instruction),
            instruction_ok(old(self).src(), *instruction),
        ensures
            (res, final(self)@) == gen_instruction_spec(old(self).src(), old(self)@, *instruction),
            final(self).src() == old(self).src(),
            final(self).statements() == old(self).statements(),
    {
        match instruction {
            Instruction::MovRegMem(a, b) => self.gen_reg_mem(InstructionPrefix::Mov, a, b),
            Instruction::JeqReg(a, b) => self.gen_reg_mem(InstructionPrefix::Jeq, a, b),
            Instruction::JgtReg(a, b) => self.gen_reg_mem(InstructionPrefix::Jgt, a, b),
            Instruction::JneReg(a, b) => self.gen_reg_mem(InstructionPrefix::Jne, a, b),
            Instruction::JgeReg(a, b) => self.gen_reg_mem(InstructionPrefix::Jge, a, b),
            Instruction::JleReg(a, b) => self.gen_reg_mem(InstructionPrefix::Jle, a, b),
            Instruction::JltReg(a, b) => self.gen_reg_mem(InstructionPrefix::Jlt, a, b),
            Instruction::MovMemReg(a, b) => self.gen_mem_reg(InstructionPrefix::Mov, a, b),
            Instruction::MovRegPtrReg(a, b) => self.gen_reg_ptr_reg(a, b),
            Instruction::Call(a) => self.gen_jump(InstructionPrefix::Call, a, false),
            Instruction::Jmp(a) => self.gen_jump(InstructionPrefix::Jmp, a, true),
            _ => unreached(),
        }
    }

    /// Writes the lines of an instruction that takes an address and a value.
    fn gen_lit_mem_group(&mut self, instruction: &Instruction) -> (res: Result<(), Error>)
        requires
            lit_mem_group(*instruction),
            instruction_ok(old(self).src(), *instruction),
        ensures
            (res, final(self)@) == gen_instruction_spec(old(self).src(), old(self)@, *instruction),
            final(self).src() == old(self).src(),
            final(self).statements() == old(self).statements(),
    {
        match instruction {
            Instruction::MovLitMem(a, b) => self.gen_lit_mem(InstructionPrefix::Mov, InstructionPrefix::Mov, true, a, b),
            Instruction::JeqLit(a, b) => self.gen_lit_mem(InstructionPrefix::Jeq, InstructionPrefix::Jeq, false, a, b),
            Instruction::JgtLit(a, b) => self.gen_lit_mem(InstructionPrefix::Jgt, InstructionPrefix::Jgt, false, a, b),
            Instruction::JneLit(a, b) => self.gen_lit_mem(InstructionPrefix::Jne, InstructionPrefix::Jne, false, a, b),
            Instruction::JgeLit(a, b) => self.gen_lit_mem(InstructionPrefix::Jge, InstructionPrefix::Jge, false, a, b),
            Instruction::JleLit(a, b) => self.gen_lit_mem(InstructionPrefix::Jle, InstructionPrefix::Jle, false, a, b),
            Instruction::JltLit(a, b) => self.gen_lit_mem(InstructionPrefix::Jlt, InstructionPrefix::Jlt, false, a, b),
            _ => unreached(),
        }
    }

    /// Writes the lines of an instruction that takes one operand or none.
    fn gen_operand_group(&mut self, instruction: &Instruction) -> (res: Result<(), Error>)
        requires
            operand_group(*instruction),
            instruction_ok(old(self).src(), *instruction),
        ensures
            (res, final(self)@) == gen_instruction_spec(old(self).src(), old(self)@, *instruction),
            final(self).src() == old(self).src(),
            final(self).statements() == old(self).statements(),
    {
        match instruction {
            Instruction::Inc(a) => self.gen_single(InstructionPrefix::Inc, a),
            Instruction::Dec(a) => self.gen_single(InstructionPrefix::Dec, a),
            Instruction::Not(a) => self.gen_single(InstructionPrefix::Not, a),
            Instruction::PshReg(a) => self.gen_single(InstructionPrefix::Psh, a),
            Instruction::Pop(a) => self.gen_single(InstructionPrefix::Pop, a),
            Instruction::PshLit(v) => self.gen_psh_lit(v),
            Instruction::Int(v) => self.gen_int(v),
            Instruction::Ret(_) => self.gen_bare(InstructionPrefix::Ret),
            Instruction::Hlt(_) => self.gen_bare(InstructionPrefix::Hlt),
            Instruction::Rti(_) => self.gen_bare(InstructionPrefix::Rti),
            _ => unreached(),
        }
    }

    /// Writes the lines of an instruction (see `gen_instruction_spec`).
    pub fn gen_instruction(&mut self, instruction: &Instruction) -> (res: Result<(), Error>)
        requires
            instruction_ok(old(self).src(), *instruction),
        ensures
            (res, final(self)@) == gen_instruction_spec(old(self).src(), old(self)@, *instruction),
            final(self).src() == old(self).src(),
            final(self).statements() == old(self).statements(),
    {
        match instruction {
            Instruction::MovRegReg(..) | Instruction::AddRegReg(..) | Instruction::SubRegReg(..) | Instruction::MulRegReg(..) | Instruction::LshRegReg(..) | Instruction::RshRegReg(..) | Instruction::AndRegReg(..) | Instruction::OrRegReg(..) | Instruction::XorRegReg(..) => self.gen_reg_reg_group(instruction),
            Instruction::MovLitReg(..) | Instruction::AddLitReg(..) | Instruction::SubLitReg(..) | Instruction::MulLitReg(..) | Instruction::LshLitReg(..) | Instruction::RshLitReg(..) | Instruction::AndLitReg(..) | Instruction::OrLitReg(..) | Instruction::XorLitReg(..) => self.gen_lit_reg_group(instruction),
            Instruction::MovRegMem(..) | Instruction::JeqReg(..) | Instruction::JgtReg(..) | Instruction::JneReg(..) | Instruction::JgeReg(..) | Instruction::JleReg(..) | Instruction::JltReg(..) | Instruction::MovMemReg(..) | Instruction::MovRegPtrReg(..) | Instruction::Call(..) | Instruction::Jmp(..) => self.gen_address_group(instruction),
            Instruction::MovLitMem(..) | Instruction::JeqLit(..) | Instruction::JgtLit(..) | Instruction::JneLit(..) | Instruction::JgeLit(..) | Instruction::JleLit(..) | Instruction::JltLit(..) => self.gen_lit_mem_group(instruction),
            Instruction::Inc(..) | Instruction::Dec(..) | Instruction::Not(..) | Instruction::PshReg(..) | Instruction::Pop(..) | Instruction::PshLit(..) | Instruction::Int(..) | Instruction::Ret(..) | Instruction::Hlt(..) | Instruction::Rti(..) => self.gen_operand_group(instruction),
        }
    }
}

/// `+` where the name is exported.
fn export_mark_bytes(exported: bool) -> (m: &'static [u8])
    ensures
        m@ == export_mark(exported),
        ascii(m@),
{
    if exported {
        &[43u8]
    } else {
        &[]
    }
}

/// A byte in decimal digits.
fn decimal(n: u8) -> (d: Vec<u8>)
    ensures
        d@ == dec_text(n),
        ascii(d@),
{
    let mut d: Vec<u8> = Vec::new();
    if n < 10 {
        d.push(48 + n);
    } else if n < 100 {
        d.push(48 + n / 10);
        d.push(48 + n % 10);
    } else {
        d.push(48 + n / 100);
        d.push(48 + (n / 10) % 10);
        d.push(48 + n % 10);
    }
    assert(d@ =~= dec_text(n));
    d
}

impl<'codegen> CodeGenerator<'codegen> {
    /// A value of a data block as written (see `data_value_spec`).
    fn data_value(&self, v: &Statement) -> (r: Result<Vec<u8>, Error>)
        requires
            data_value_ok(self.src(), *v),
        ensures
            match data_value_spec(self.src(), *v) {
                Ok(t) => r matches Ok(x) && x@ == t,
                Err(e) => r == Err::<Vec<u8>, Error>(e),
            },
            r matches Ok(x) ==> ascii(x@),
    {
        match v {
            Statement::Address(inner) => match &**inner {
                Statement::HexLiteral(o) => {
                    let h = self.hex_text(*o);
                    Ok(make_bracket(h.as_slice()))
                },
                _ => Err(Error::UnexpectedStatement(inner.offset())),
            },
            Statement::HexLiteral(o) => Ok(self.hex_text(*o)),
            _ => Err(Error::UnexpectedStatement(v.offset())),
        }
    }

    /// The first `n` values of a data block as written (see `data_values_spec`).
    fn data_values(&self, vs: &Vec<Statement>, n: usize) -> (r: Result<Vec<u8>, Error>)
        requires
            n <= vs@.len(),
            forall|j: int| 0 <= j < vs@.len() ==> data_value_ok(self.src(), #[trigger] vs@[j]),
        ensures
            match data_values_spec(self.src(), vs@.take(n as int)) {
                Ok(t) => r matches Ok(x) && x@ == t,
                Err(e) => r == Err::<Vec<u8>, Error>(e),
            },
            r matches Ok(x) ==> ascii(x@),
        decreases n,
    {
        if n == 0 {
            let empty: Vec<u8> = Vec::new();
            proof {
                assert(empty@ =~= Seq::<u8>::empty());
            }
            return Ok(empty);
        }
        proof {
            assert(vs@.take(n as int).drop_last() =~= vs@.take(n - 1));
            assert(vs@.take(n as int).last() == vs@[n - 1]);
        }
        let mut front = self.data_values(vs, n - 1)?;
        let t = self.data_value(&vs[n - 1])?;
        if n > 1 {
            push_all(&mut front, &[44u8, 32u8]);
        } else {
            proof {
                assert(front@ =~= Seq::<u8>::empty());
            }
        }
        push_all(&mut front, t.as_slice());
        Ok(front)
    }

    /// Writes the lines of a statement (see `statement_spec`).
    pub fn gen_statement(&mut self, statement: &Statement) -> (r: Result<(), Error>)
        requires
            statement_ok(old(self).src(), *statement),
        ensures
            (r, final(self)@) == statement_spec(old(self).src(), old(self)@, *statement),
            final(self).src() == old(self).src(),
            final(self).statements() == old(self).statements(),
    {
        proof {
            reveal(statement_spec);
        }
        match statement {
            Statement::Data { name, size, exported, values } => {
                proof {
                    assert(values@.take(values@.len() as int) =~= values@);
                }
                let v = self.data_values(values, values.len())?;
                let mut line: Vec<u8> = Vec::new();
                push_all(&mut line, export_mark_bytes(*exported));
                push_all(&mut line, &[100u8, 97u8, 116u8, 97u8]);
                push_all(&mut line, decimal(*size).as_slice());
                push_all(&mut line, &[32u8]);
                push_all(&mut line, self.source_text(*name));
                push_all(&mut line, &[32u8, 61u8, 32u8, 123u8, 32u8]);
                push_all(&mut line, v.as_slice());
                push_all(&mut line, &[32u8, 125u8]);
                assert(line@ =~= data_line(*exported, *size, text(self.src(), *name), v@));
                self.emit(line);
                Ok(())
            },
            Statement::Label { name, exported } => {
                let mut line: Vec<u8> = Vec::new();
                push_all(&mut line, export_mark_bytes(*exported));
                push_all(&mut line, self.source_text(*name));
                push_all(&mut line, &[58u8]);
                assert(line@ =~= label_line(*exported, text(self.src(), *name)));
                self.emit(line);
                Ok(())
            },
            Statement::Const { name, exported, value } => {
                let h = self.gen_hex_lit(&**value)?;
                let mut line: Vec<u8> = Vec::new();
                push_all(&mut line, export_mark_bytes(*exported));
                push_all(&mut line, &[99u8, 111u8, 110u8, 115u8, 116u8, 32u8]);
                push_all(&mut line, self.source_text(*name));
                push_all(&mut line, &[32u8, 61u8, 32u8]);
                push_all(&mut line, h.as_slice());
                assert(line@ =~= const_line(*exported, text(self.src(), *name), h@));
                self.emit(line);
                Ok(())
            },
            Statement::Instruction(inst) => self.gen_instruction(&**inst),
            _ => Ok(()),
        }
    }

    /// Writes the lines of every statement in order (see `generate_spec`);
    /// the first error ends the work.
    pub fn generate(&mut self) -> (r: Result<(), Error>)
        requires
            forall|j: int|
                0 <= j < old(self).statements().len() ==> statement_ok(old(self).src(), #[trigger] old(self).statements()[j]),
        ensures
            (r, final(self)@) == generate_spec(old(self).src(), old(self)@, old(self).statements()),
            final(self).src() == old(self).src(),
            final(self).statements() == old(self).statements(),
    {
        let ghost st0 = self@;
        let ghost stmts = self.statements();
        let ghost src = self.src();
        let ast: &'codegen Ast = self.ast;
        let n = ast.statements.len();
        let mut i: usize = 0;
        while i < n
            invariant
                i <= n,
                n == stmts.len(),
                stmts == ast.statements@,
                src == old(self).src(),
                stmts == old(self).statements(),
                st0 == old(self)@,
                self.src() == src,
                self.statements() == stmts,
                forall|j: int| 0 <= j < stmts.len() ==> statement_ok(src, #[trigger] stmts[j]),
                generate_spec(src, st0, stmts.take(i as int)) == (Ok::<(), Error>(()), self@),
            decreases n - i,
        {
            proof {
                lemma_generate_step(src, st0, stmts, i as int);
            }
            let ghost before = self@;
            let r = self.gen_statement(&ast.statements[i]);
            proof {
                assert(ast.statements@[i as int] == stmts[i as int]);
                assert((r, self@) == statement_spec(src, before, stmts[i as int]));
            }
            match r {
                Err(e) => {
                    proof {
                        lemma_generate_error_stays(src, st0, stmts, i + 1);
                    }
                    return Err(e);
                },
                Ok(u) => {
                    assert(r == Ok::<(), Error>(()));
                    assert(generate_spec(src, st0, stmts.take(i + 1)) == (Ok::<(), Error>(()), self@));
                },
            }
            i = i + 1;
        }
        proof {
            assert(stmts.take(n as int) =~= stmts);
        }
        Ok(())
    }

    /// The lines written so far, joined with line breaks.
    pub fn to_text(&self) -> (t: Vec<u8>)
        ensures
            t@ == join_lines(self@.code),
    {
        let ghost code = self@.code;
        let mut t: Vec<u8> = Vec::new();
        let mut i: usize = 0;
        while i < self.code.len()
            invariant
                i <= self.code@.len(),
                code == self@.code,
                code.len() == self.code@.len(),
                t@ == join_lines(code.take(i as int)),
            decreases self.code@.len() - i,
        {
            proof {
                assert(code.take(i + 1).drop_last() =~= code.take(i as int));
                assert(code[i as int] == self.code@[i as int]@);
            }
            if i > 0 {
                t.push(10);
            }
            push_all(&mut t, self.code[i].as_slice());
            proof {
                if i == 0 {
                    assert(t@ =~= code.take(1)[0]);
                }
            }
            i = i + 1;
        }
        proof {
            assert(code.take(code.len() as int) =~= code);
        }
        t
    }
}

/// The line that names a module: `; name @ path`.
pub open spec fn module_line(name: Seq<u8>, path: Seq<u8>) -> Seq<u8> {
    seq![59u8, 32u8] + name + seq![32u8, 64u8, 32u8] + path
}

/// The state of a generator that has named its module and written nothing else.
pub open spec fn module_start(module: ResolvedModule) -> GenState {
    GenState {
        code: seq![module_line(bytes_of(module.name), bytes_of(module.path))],
        temp: initial_temps(),
        used: Seq::empty(),
    }
}

/// The text of a module: the line that names it, then the lines of its
/// statements, joined with line breaks; or the first error.
pub open spec fn module_text(src: Seq<u8>, stmts: Seq<Statement>, module: ResolvedModule) -> Result<Seq<u8>, Error> {
    let (r, st) = generate_spec(src, module_start(module), stmts);
    match r {
        Ok(_) => Ok(join_lines(st.code)),
        Err(e) => Err(e),
    }
}

/// Lines of valid UTF-8, joined with line breaks, are valid UTF-8.
proof fn lemma_join_utf8(lines: Seq<Seq<u8>>)
    requires
        lines_utf8(lines),
    ensures
        vstd::utf8::valid_utf8(join_lines(lines)),
    decreases lines.len(),
{
    if lines.len() > 1 {
        lemma_join_utf8(lines.drop_last());
        assert(ascii(seq![10u8]));
        lemma_ascii_utf8(seq![10u8]);
        vstd::utf8::valid_utf8_concat(join_lines(lines.drop_last()), seq![10u8]);
        vstd::utf8::valid_utf8_concat(join_lines(lines.drop_last()) + seq![10u8], lines.last());
    } else if lines.len() == 1 {
        assert(vstd::utf8::valid_utf8(lines[0]));
    }
}

/// `String::from_utf8`: the string whose UTF-8 encoding is `bytes`; `None`
/// where the bytes are not valid UTF-8.
#[verifier::external_body]
fn string_from_utf8(bytes: Vec<u8>) -> (r: Option<String>)
    ensures
        r is Some <==> vstd::utf8::valid_utf8(bytes@),
        r matches Some(s) ==> vstd::utf8::encode_utf8(s@) == bytes@,
{
    String::from_utf8(bytes).ok()
}

impl<'codegen> CodeGenerator<'codegen> {
    /// The generator with its lines replaced by the line that names `module`.
    pub fn with_module(self, module: &ResolvedModule) -> (g: Self)
        ensures
            g.src() == self.src(),
            g.statements() == self.statements(),
            g@ == (GenState {
                code: seq![module_line(bytes_of(module.name), bytes_of(module.path))],
                ..self@
            }),
    {
        let mut line: Vec<u8> = Vec::new();
        push_all(&mut line, &[59u8, 32u8]);
        push_all(&mut line, string_bytes(&module.name));
        push_all(&mut line, &[32u8, 64u8, 32u8]);
        push_all(&mut line, string_bytes(&module.path));
        proof {
            let name = bytes_of(module.name);
            let path = bytes_of(module.path);
            assert(line@ == module_line(name, path));
            vstd::utf8::encode_utf8_valid_utf8(module.name@);
            vstd::utf8::encode_utf8_valid_utf8(module.path@);
            assert(ascii(seq![59u8, 32u8]));
            assert(ascii(seq![32u8, 64u8, 32u8]));
            lemma_ascii_utf8(seq![59u8, 32u8]);
            lemma_ascii_utf8(seq![32u8, 64u8, 32u8]);
            vstd::utf8::valid_utf8_concat(seq![59u8, 32u8], name);
            vstd::utf8::valid_utf8_concat(seq![59u8, 32u8] + name, seq![32u8, 64u8, 32u8]);
            vstd::utf8::valid_utf8_concat(seq![59u8, 32u8] + name + seq![32u8, 64u8, 32u8], path);
        }
        let CodeGenerator { source, ast, code: _, temp_registers, used_registers } = self;
        let mut code: Vec<Vec<u8>> = Vec::new();
        code.push(line);
        proof {
            assert(code@.map_values(|l: Vec<u8>| l@) =~= seq![module_line(bytes_of(module.name), bytes_of(module.path))]);
        }
        CodeGenerator { source, ast, code, temp_registers, used_registers }
    }
}

/// Whether every statement of every module can be worked on, each module
/// with its source and its syntax tree.
pub open spec fn modules_ok(m: ResolvedModules) -> bool {
    &&& m.asts@.len() == m.modules@.len()
    &&& forall|i: int| 0 <= i < m.modules@.len() ==> m.sources@.contains_key(bytes_of(#[trigger] m.modules@[i].path))
    &&& forall|i: int, j: int|
        0 <= i < m.modules@.len() && 0 <= j < m.asts@[i].statements@.len() ==> statement_ok(
            bytes_of(m.sources@[bytes_of(m.modules@[i].path)]),
            #[trigger] m.asts@[i].statements@[j],
        )
}

/// The text of module `i` (see `module_text`).
pub open spec fn text_of(m: ResolvedModules, i: int) -> Result<Seq<u8>, Error> {
    module_text(bytes_of(m.sources@[bytes_of(m.modules@[i].path)]), m.asts@[i].statements@, m.modules@[i])
}

/// Whether `c` is module `module` with the text `text`.
pub open spec fn generated_as(c: CodegenModule, module: ResolvedModule, text: Seq<u8>) -> bool {
    &&& c@.code == text
    &&& c.name == module.name
    &&& c.path == module.path
    &&& c.address == module.address
    &&& c.imports == module.imports
    &&& c.symbols@ == module.symbols@
    &&& c.variables == module.variables
    &&& c.exports@ == Map::<Seq<u8>, u16>::empty()
}

/// The text of every module, in order (see `module_text`); the first module
/// that fails gives the error.
pub fn generate(modules: ResolvedModules) -> (r: Result<Vec<CodegenModule>, Error>)
    requires
        modules_ok(modules),
    ensures
        r is Ok <==> forall|i: int| 0 <= i < modules.modules@.len() ==> #[trigger] text_of(modules, i) is Ok,
        r matches Ok(out) ==> out@.len() == modules.modules@.len() && forall|i: int|
            0 <= i < out@.len() ==> generated_as(#[trigger] out@[i], modules.modules@[i], text_of(modules, i)->Ok_0),
        r matches Err(e) ==> exists|i: int|
            0 <= i < modules.modules@.len() && #[trigger] text_of(modules, i) == Err::<Seq<u8>, Error>(e) && forall|j: int|
                0 <= j < i ==> #[trigger] text_of(modules, j) is Ok,
{
    let ghost whole = modules;
    let n = modules.modules.len();
    let mut it = match modules.into_iter() {
        Some(it) => it,
        None => {
            return unreached();
        },
    };
    let mut out: Vec<CodegenModule> = Vec::new();
    let mut i: usize = 0;
    while i < n
        invariant
            n == whole.modules@.len(),
            whole == modules,
            modules_ok(whole),
            i <= n,
            it.remaining().len() == n - i,
            forall|k: int|
                0 <= k < n - i ==> #[trigger] it.remaining()[k] == (
                    whole.modules@[i + k],
                    whole.sources@[bytes_of(whole.modules@[i + k].path)],
                    whole.asts@[i + k],
                ),
            out@.len() == i,
            forall|k: int| 0 <= k < i ==> #[trigger] text_of(whole, k) is Ok,
            forall|k: int| 0 <= k < i ==> generated_as(#[trigger] out@[k], whole.modules@[k], text_of(whole, k)->Ok_0),
        decreases n - i,
    {
        let ghost before = it.remaining();
        let (module, source, ast) = match it.next() {
            Some(entry) => entry,
            None => {
                return unreached();
            },
        };
        proof {
            assert(before[0] == (module, source, ast));
            assert forall|k: int| 0 <= k < n - i - 1 implies #[trigger] it.remaining()[k] == (
                whole.modules@[i + 1 + k],
                whole.sources@[bytes_of(whole.modules@[i + 1 + k].path)],
                whole.asts@[i + 1 + k],
            ) by {
                assert(it.remaining()[k] == before[k + 1]);
            }
            assert forall|j: int| 0 <= j < ast.statements@.len() implies statement_ok(
                bytes_of(source),
                #[trigger] ast.statements@[j],
            ) by {
                assert(whole.asts@[i as int].statements@[j] == ast.statements@[j]);
            }
        }
        let bytes = string_bytes(&source);
        let mut g = CodeGenerator::new(bytes, &ast).with_module(&module);
        let result = g.generate();
        proof {
            assert(g@ == generate_spec(bytes_of(source), module_start(module), ast.statements@).1);
        }
        match result {
            Err(e) => {
                proof {
                    assert(text_of(whole, i as int) == Err::<Seq<u8>, Error>(e));
                }
                return Err(e);
            },
            Ok(()) => {},
        }
        let text = g.to_text();
        proof {
            use_type_invariant(&g);
            lemma_join_utf8(g@.code);
        }
        let code = match string_from_utf8(text) {
            Some(code) => code,
            None => {
                return unreached();
            },
        };
        let ResolvedModule { name, path, address, imports, symbols, variables } = module;
        out.push(CodegenModule { name, code, path, address, imports, symbols, variables, exports: Table::new() });
        proof {
            assert(text_of(whole, i as int) == Ok::<Seq<u8>, Error>(join_lines(g@.code)));
        }
        i = i + 1;
    }
    Ok(out)
}

/// Whether `o` covers ASCII text of the source (see `text_ok`).
pub fn check_text(src: &[u8], o: ByteOffset) -> (b: bool)
    ensures
        b == text_ok(src@, o),
{
    if !(o.start <= o.end && o.end <= src.len()) {
        return false;
    }
    let mut i = o.start;
    while i < o.end
        invariant
            o.start <= i <= o.end <= src@.len(),
            forall|j: int| o.start <= j < i ==> src@[j] < 128,
        decreases o.end - i,
    {
        if src[i] >= 128 {
            proof {
                assert(text(src@, o)[i - o.start] == src@[i as int]);
            }
            return false;
        }
        i = i + 1;
    }
    proof {
        assert forall|k: int| 0 <= k < text(src@, o).len() implies #[trigger] text(src@, o)[k] < 128 by {
            assert(text(src@, o)[k] == src@[o.start + k]);
        }
    }
    true
}

/// Whether a statement is an operand the generator can work on (see `operand_ok`).
pub fn check_operand(src: &[u8], s: &Statement) -> (b: bool)
    ensures
        b == operand_ok(src@, *s),
    decreases s,
{
    match s {
        Statement::HexLiteral(o) => check_text(src, *o),
        Statement::Register(o) => check_text(src, *o),
        Statement::Var(o) => check_text(src, *o),
        Statement::Address(x) => check_operand(src, &**x),
        Statement::BinaryOp { lhs, rhs, .. } => {
            if !check_operand(src, &**lhs) || !check_operand(src, &**rhs) {
                return false;
            }
            proof {
                lemma_operand_offset(src@, **lhs);
                lemma_operand_offset(src@, **rhs);
            }
            let o = s.offset();
            o.start <= o.end && o.end <= src.len()
        },
        _ => false,
    }
}

/// Whether a statement is an expression the generator can work out (see `expr_ok`).
pub fn check_expr(src: &[u8], s: &Statement) -> (b: bool)
    ensures
        b == expr_ok(src@, *s),
    decreases s,
{
    match s {
        Statement::HexLiteral(o) => check_text(src, *o),
        Statement::Register(o) => check_text(src, *o),
        Statement::Var(o) => check_text(src, *o),
        Statement::BinaryOp { lhs, rhs, .. } => {
            if !check_expr(src, &**lhs) || !check_expr(src, &**rhs) {
                return false;
            }
            proof {
                lemma_operand_offset(src@, **lhs);
                lemma_operand_offset(src@, **rhs);
            }
            let o = s.offset();
            o.start <= o.end && o.end <= src.len()
        },
        _ => false,
    }
}

/// Whether a statement is a register named in the source (see `register_ok`).
pub fn check_register(src: &[u8], s: &Statement) -> (b: bool)
    ensures
        b == register_ok(src@, *s),
{
    match s {
        Statement::Register(o) => check_text(src, *o),
        _ => false,
    }
}

/// Whether an address operand can be worked on (see `address_ok`).
pub fn check_address(src: &[u8], s: &Statement) -> (b: bool)
    ensures
        b == address_ok(src@, *s),
{
    if !check_operand(src, s) {
        return false;
    }
    match s {
        Statement::Address(inner) => match &**inner {
            Statement::BinaryOp { .. } => check_expr(src, &**inner),
            _ => true,
        },
        _ => true,
    }
}

/// Whether the generator can work on an instruction (see `instruction_ok`).
#[verifier::rlimit(40)]
pub fn check_instruction(src: &[u8], i: &Instruction) -> (b: bool)
    ensures
        b == instruction_ok(src@, *i),
{
    match i {
        Instruction::MovRegReg(l, r) => check_register(src, l) && check_register(src, r),
        Instruction::AddRegReg(l, r) => check_register(src, l) && check_register(src, r),
        Instruction::SubRegReg(l, r) => check_register(src, l) && check_register(src, r),
        Instruction::MulRegReg(l, r) => check_register(src, l) && check_register(src, r),
        Instruction::LshRegReg(l, r) => check_register(src, l) && check_register(src, r),
        Instruction::RshRegReg(l, r) => check_register(src, l) && check_register(src, r),
        Instruction::AndRegReg(l, r) => check_register(src, l) && check_register(src, r),
        Instruction::OrRegReg(l, r) => check_register(src, l) && check_register(src, r),
        Instruction::XorRegReg(l, r) => check_register(src, l) && check_register(src, r),
        Instruction::MovLitReg(l, r) => check_register(src, l) && check_expr(src, r),
        Instruction::AddLitReg(l, r) => check_register(src, l) && check_expr(src, r),
        Instruction::SubLitReg(l, r) => check_register(src, l) && check_expr(src, r),
        Instruction::MulLitReg(l, r) => check_register(src, l) && check_expr(src, r),
        Instruction::LshLitReg(l, r) => check_register(src, l) && check_expr(src, r),
        Instruction::RshLitReg(l, r) => check_register(src, l) && check_expr(src, r),
        Instruction::AndLitReg(l, r) => check_register(src, l) && check_expr(src, r),
        Instruction::OrLitReg(l, r) => check_register(src, l) && check_expr(src, r),
        Instruction::XorLitReg(l, r) => check_register(src, l) && check_expr(src, r),
        Instruction::MovRegMem(l, r) => check_address(src, l) && check_register(src, r),
        Instruction::JeqReg(l, r) => check_address(src, l) && check_register(src, r),
        Instruction::JgtReg(l, r) => check_address(src, l) && check_register(src, r),
        Instruction::JneReg(l, r) => check_address(src, l) && check_register(src, r),
        Instruction::JgeReg(l, r) => check_address(src, l) && check_register(src, r),
        Instruction::JleReg(l, r) => check_address(src, l) && check_register(src, r),
        Instruction::JltReg(l, r) => check_address(src, l) && check_register(src, r),
        Instruction::MovMemReg(l, r) => check_register(src, l) && check_address(src, r),
        Instruction::MovLitMem(l, r) => check_address(src, l) && check_expr(src, r),
        Instruction::JeqLit(l, r) => check_address(src, l) && check_expr(src, r),
        Instruction::JgtLit(l, r) => check_address(src, l) && check_expr(src, r),
        Instruction::JneLit(l, r) => check_address(src, l) && check_expr(src, r),
        Instruction::JgeLit(l, r) => check_address(src, l) && check_expr(src, r),
        Instruction::JleLit(l, r) => check_address(src, l) && check_expr(src, r),
        Instruction::JltLit(l, r) => check_address(src, l) && check_expr(src, r),
        Instruction::MovRegPtrReg(l, r) => check_operand(src, l) && check_operand(src, r),
        Instruction::Inc(r) => check_register(src, r),
        Instruction::Dec(r) => check_register(src, r),
        Instruction::Not(r) => check_register(src, r),
        Instruction::PshReg(r) => check_register(src, r),
        Instruction::Pop(r) => check_register(src, r),
        Instruction::PshLit(v) => check_expr(src, v),
        Instruction::Call(a) => check_address(src, a),
        Instruction::Jmp(a) => check_address(src, a),
        Instruction::Int(v) => check_operand(src, v),
        Instruction::Ret(_) | Instruction::Hlt(_) | Instruction::Rti(_) => true,
    }
}

/// Whether a value of a data block can be worked on (see `data_value_ok`).
fn check_data_value(src: &[u8], v: &Statement) -> (b: bool)
    ensures
        b == data_value_ok(src@, *v),
{
    match v {
        Statement::HexLiteral(o) => check_text(src, *o),
        Statement::Address(inner) => match &**inner {
            Statement::HexLiteral(o) => check_text(src, *o),
            _ => has_offset(&**inner),
        },
        _ => has_offset(v),
    }
}

/// Whether an instruction has a place in the source.
#[verifier::rlimit(40)]
fn instruction_has_offset(i: &Instruction) -> (b: bool)
    ensures
        b == i.spec_offset() is Some,
    decreases i,
{
    match i {
        Instruction::MovLitReg(lhs, rhs) => has_offset(lhs) && has_offset(rhs) && lhs.offset().start >= 4,
        Instruction::MovRegReg(lhs, rhs) => has_offset(lhs) && has_offset(rhs) && lhs.offset().start >= 4,
        Instruction::MovRegMem(lhs, rhs) => has_offset(lhs) && has_offset(rhs) && lhs.offset().start >= 4,
        Instruction::MovMemReg(lhs, rhs) => has_offset(lhs) && has_offset(rhs) && lhs.offset().start >= 4,
        Instruction::MovLitMem(lhs, rhs) => has_offset(lhs) && has_offset(rhs) && lhs.offset().start >= 4,
        Instruction::MovRegPtrReg(lhs, rhs) => has_offset(lhs) && has_offset(rhs) && lhs.offset().start >= 4,
        Instruction::AddRegReg(lhs, rhs) => has_offset(lhs) && has_offset(rhs) && lhs.offset().start >= 4,
        Instruction::AddLitReg(lhs, rhs) => has_offset(lhs) && has_offset(rhs) && lhs.offset().start >= 4,
        Instruction::SubRegReg(lhs, rhs) => has_offset(lhs) && has_offset(rhs) && lhs.offset().start >= 4,
        Instruction::SubLitReg(lhs, rhs) => has_offset(lhs) && has_offset(rhs) && lhs.offset().start >= 4,
        Instruction::MulRegReg(lhs, rhs) => has_offset(lhs) && has_offset(rhs) && lhs.offset().start >= 4,
        Instruction::MulLitReg(lhs, rhs) => has_offset(lhs) && has_offset(rhs) && lhs.offset().start >= 4,
        Instruction::LshRegReg(lhs, rhs) => has_offset(lhs) && has_offset(rhs) && lhs.offset().start >= 4,
        Instruction::LshLitReg(lhs, rhs) => has_offset(lhs) && has_offset(rhs) && lhs.offset().start >= 4,
        Instruction::RshRegReg(lhs, rhs) => has_offset(lhs) && has_offset(rhs) && lhs.offset().start >= 4,
        Instruction::RshLitReg(lhs, rhs) => has_offset(lhs) && has_offset(rhs) && lhs.offset().start >= 4,
        Instruction::AndRegReg(lhs, rhs) => has_offset(lhs) && has_offset(rhs) && lhs.offset().start >= 4,
        Instruction::AndLitReg(lhs, rhs) => has_offset(lhs) && has_offset(rhs) && lhs.offset().start >= 4,
        Instruction::OrLitReg(lhs, rhs) => has_offset(lhs) && has_offset(rhs) && lhs.offset().start >= 3,
        Instruction::OrRegReg(lhs, rhs) => has_offset(lhs) && has_offset(rhs) && lhs.offset().start >= 3,
        Instruction::XorLitReg(lhs, rhs) => has_offset(lhs) && has_offset(rhs) && lhs.offset().start >= 4,
        Instruction::XorRegReg(lhs, rhs) => has_offset(lhs) && has_offset(rhs) && lhs.offset().start >= 4,
        Instruction::JeqLit(lhs, rhs) => has_offset(lhs) && has_offset(rhs) && lhs.offset().start >= 4,
        Instruction::JeqReg(lhs, rhs) => has_offset(lhs) && has_offset(rhs) && lhs.offset().start >= 4,
        Instruction::JgtLit(lhs, rhs) => has_offset(lhs) && has_offset(rhs) && lhs.offset().start >= 4,
        Instruction::JgtReg(lhs, rhs) => has_offset(lhs) && has_offset(rhs) && lhs.offset().start >= 4,
        Instruction::JneLit(lhs, rhs) => has_offset(lhs) && has_offset(rhs) && lhs.offset().start >= 4,
        Instruction::JneReg(lhs, rhs) => has_offset(lhs) && has_offset(rhs) && lhs.offset().start >= 4,
        Instruction::JgeLit(lhs, rhs) => has_offset(lhs) && has_offset(rhs) && lhs.offset().start >= 4,
        Instruction::JgeReg(lhs, rhs) => has_offset(lhs) && has_offset(rhs) && lhs.offset().start >= 4,
        Instruction::JleLit(lhs, rhs) => has_offset(lhs) && has_offset(rhs) && lhs.offset().start >= 4,
        Instruction::JleReg(lhs, rhs) => has_offset(lhs) && has_offset(rhs) && lhs.offset().start >= 4,
        Instruction::JltLit(lhs, rhs) => has_offset(lhs) && has_offset(rhs) && lhs.offset().start >= 4,
        Instruction::JltReg(lhs, rhs) => has_offset(lhs) && has_offset(rhs) && lhs.offset().start >= 4,
        Instruction::Inc(stat) => has_offset(stat) && stat.offset().start >= 4,
        Instruction::Dec(stat) => has_offset(stat) && stat.offset().start >= 4,
        Instruction::Not(stat) => has_offset(stat) && stat.offset().start >= 4,
        Instruction::Jmp(stat) => has_offset(stat) && stat.offset().start >= 4,
        Instruction::PshLit(stat) => has_offset(stat) && stat.offset().start >= 4,
        Instruction::PshReg(stat) => has_offset(stat) && stat.offset().start >= 4,
        Instruction::Pop(stat) => has_offset(stat) && stat.offset().start >= 4,
        Instruction::Int(stat) => has_offset(stat) && stat.offset().start >= 4,
        Instruction::Call(stat) => has_offset(stat) && stat.offset().start >= 5,
        Instruction::Ret(_) => true,
        Instruction::Hlt(_) => true,
        Instruction::Rti(_) => true,
    }
}

/// Whether a statement has a place in the source.
pub fn has_offset(s: &Statement) -> (b: bool)
    ensures
        b == s.spec_offset() is Some,
    decreases s,
{
    match s {
        Statement::Instruction(inst) => instruction_has_offset(&**inst),
        Statement::HexLiteral(_) | Statement::Register(_) | Statement::Var(_) | Statement::Label { .. }
        | Statement::FieldAccessor { .. } => true,
        Statement::Address(stat) => has_offset(&**stat),
        Statement::Import { address, variables, .. } => {
            if variables.len() > 0 {
                has_offset(&variables[variables.len() - 1])
            } else {
                has_offset(&**address)
            }
        },
        Statement::ImportVar { value, .. } => has_offset(&**value),
        Statement::Data { name, values, size, .. } => {
            let back: usize = if *size == 8 { 6 } else { 7 };
            if values.len() > 0 && !has_offset(&values[values.len() - 1]) {
                return false;
            }
            name.start >= back
        },
        Statement::Const { value, .. } => has_offset(&**value),
        Statement::BinaryOp { lhs, rhs, .. } => has_offset(&**lhs) && has_offset(&**rhs),
    }
}

/// Whether the generator can work on a statement (see `statement_ok`).
pub fn check_statement(src: &[u8], s: &Statement) -> (b: bool)
    ensures
        b == statement_ok(src@, *s),
{
    match s {
        Statement::Data { name, values, .. } => {
            if !check_text(src, *name) {
                return false;
            }
            let ghost whole = statement_ok(src@, *s);
            assert(whole == (forall|j: int| 0 <= j < values@.len() ==> data_value_ok(src@, #[trigger] values@[j])));
            let mut i: usize = 0;
            while i < values.len()
                invariant
                    i <= values@.len(),
                    whole == statement_ok(src@, *s),
                    whole == (forall|j: int| 0 <= j < values@.len() ==> data_value_ok(src@, #[trigger] values@[j])),
                    forall|j: int| 0 <= j < i ==> data_value_ok(src@, #[trigger] values@[j]),
                decreases values@.len() - i,
            {
                if !check_data_value(src, &values[i]) {
                    assert(!data_value_ok(src@, values@[i as int]));
                    return false;
                }
                i = i + 1;
            }
            true
        },
        Statement::Label { name, .. } => check_text(src, *name),
        Statement::Const { name, value, .. } => check_text(src, *name) && check_operand(src, &**value),
        Statement::Instruction(inst) => check_instruction(src, &**inst),
        _ => true,
    }
}

/// Whether the generator can work on every statement (see `statement_ok`).
pub fn check_statements(src: &[u8], stmts: &Vec<Statement>) -> (b: bool)
    ensures
        b == forall|j: int| 0 <= j < stmts@.len() ==> statement_ok(src@, #[trigger] stmts@[j]),
{
    let mut i: usize = 0;
    while i < stmts.len()
        invariant
            i <= stmts@.len(),
            forall|j: int| 0 <= j < i ==> statement_ok(src@, #[trigger] stmts@[j]),
        decreases stmts@.len() - i,
    {
        if !check_statement(src, &stmts[i]) {
            return false;
        }
        i = i + 1;
    }
    true
}

/// Whether the generator can work on every module (see `modules_ok`).
pub fn check_modules(m: &ResolvedModules) -> (b: bool)
    ensures
        b == modules_ok(*m),
{
    let n = m.modules.len();
    if m.asts.len() != n {
        return false;
    }
    let mut i: usize = 0;
    while i < n
        invariant
            n == m.modules@.len(),
            n == m.asts@.len(),
            i <= n,
            forall|k: int| 0 <= k < i ==> m.sources@.contains_key(bytes_of(#[trigger] m.modules@[k].path)),
            forall|k: int, j: int|
                0 <= k < i && 0 <= j < m.asts@[k].statements@.len() ==> statement_ok(
                    bytes_of(m.sources@[bytes_of(m.modules@[k].path)]),
                    #[trigger] m.asts@[k].statements@[j],
                ),
        decreases n - i,
    {
        let source = match m.sources.get(string_bytes(&m.modules[i].path)) {
            Some(source) => source,
            None => {
                return false;
            },
        };
        if !check_statements(string_bytes(source), &m.asts[i].statements) {
            return false;
        }
        i = i + 1;
    }
    true
}

/// Whether a register is not `r`.
pub open spec fn other_than(r: Register) -> spec_fn(Register) -> bool {
    |x: Register| x != r
}

/// The registers of `v` other than `reg`, in order.
fn without(v: &Vec<Register>, reg: Register) -> (kept: Vec<Register>)
    ensures
        kept@ == v@.filter(other_than(reg)),
{
    let mut kept: Vec<Register> = Vec::new();
    let mut i: usize = 0;
    while i < v.len()
        invariant
            i <= v@.len(),
            kept@ == v@.subrange(0, i as int).filter(other_than(reg)),
        decreases v@.len() - i,
    {
        let r = v[i];
        proof {
            let s = v@.subrange(0, i as int + 1);
            assert(s.drop_last() =~= v@.subrange(0, i as int));
            reveal(Seq::filter);
            assert(s.last() == r);
        }
        if r != reg {
            kept.push(r);
        }
        i = i + 1;
    }
    assert(v@.subrange(0, v@.len() as int) =~= v@);
    kept
}

} // verus!
