use vstd::prelude::*;

use crate::instruction::{Instruction, InstructionSize};
use crate::memory::{self, fits, Addressable};
use crate::op_code::{self, OpCode};
use crate::register::{self, Register, Registers};
use crate::word::Word;

verus! {

/// Whether the machine goes on after an instruction.
#[derive(Debug, PartialEq, Eq, Structural)]
pub enum ExecutionFlow {
    Halt(u16),
    Continue,
}

/// What stops an instruction.
#[derive(Debug)]
pub enum Error<const MEM_SIZE: usize> {
    Mem(memory::Error<MEM_SIZE>),
    OpCode(op_code::Error),
    Register(register::Error),
}

/// The machine: its registers and the memory it runs on.
#[derive(Debug)]
pub struct Cpu<const SIZE: usize, A: Addressable<SIZE>> {
    pub registers: Registers<SIZE>,
    pub memory: A,
}

// ----------------------------------------------------------------------------
// The machine as mathematics: registers as a sequence, memory as the view of
// the device, and each step of the machine as a spec function.
// ----------------------------------------------------------------------------

/// Index of `Ret`, the result register, which the jumps compare against.
pub open spec fn RET() -> int { 0 }
/// Index of the instruction pointer.
pub open spec fn IP() -> int { 1 }
/// Index of the stack pointer.
pub open spec fn SP() -> int { 10 }
/// Index of the frame pointer.
pub open spec fn FP() -> int { 11 }

/// A register value as a register number.
pub open spec fn reg_index(r: Register) -> int {
    r.spec_index() as int
}

/// The operand byte at `ip`, and where the instruction pointer goes after it.
pub open spec fn spec_read_small<const SIZE: usize, A: Addressable<SIZE>>(mem: A::V, ip: u16) -> (u16, Result<u16, Error<SIZE>>) {
    match A::model_read(mem, ip) {
        Err(e) => (ip, Err(Error::Mem(e))),
        Ok(v) => if fits::<SIZE>(ip, 1) {
            ((ip + 1) as u16, Ok(v as u16))
        } else {
            (ip, Err(Error::Mem(memory::Error::StackOverflow)))
        },
    }
}

/// The operand word at `ip`, and where the instruction pointer goes after it.
pub open spec fn spec_read_big<const SIZE: usize, A: Addressable<SIZE>>(mem: A::V, ip: u16) -> (u16, Result<u16, Error<SIZE>>) {
    match A::model_read_word(mem, ip) {
        Err(e) => (ip, Err(Error::Mem(e))),
        Ok(v) => if fits::<SIZE>(ip, 2) {
            ((ip + 2) as u16, Ok(v))
        } else {
            (ip, Err(Error::Mem(memory::Error::StackOverflow)))
        },
    }
}

/// A register named by machine code.
pub open spec fn spec_reg<const SIZE: usize>(v: u16) -> Result<Register, Error<SIZE>> {
    match Register::spec_try_from(v) {
        Ok(r) => Ok(r),
        Err(e) => Err(Error::Register(e)),
    }
}

/// An address named by machine code.
pub open spec fn spec_addr<const SIZE: usize>(v: u16) -> Result<Word<SIZE>, Error<SIZE>> {
    if (v as int) < SIZE {
        Ok(Word::spec_new(v))
    } else {
        Err(Error::Mem(memory::Error::InvalidAddress(v)))
    }
}

/// Operands: a register, then a literal word.
pub open spec fn spec_reg_lit<const SIZE: usize, A: Addressable<SIZE>>(mem: A::V, ip: u16) -> (u16, Result<(Register, u16), Error<SIZE>>) {
    let (ip1, b) = spec_read_small::<SIZE, A>(mem, ip);
    match b {
        Err(e) => (ip1, Err(e)),
        Ok(b) => match spec_reg::<SIZE>(b) {
            Err(e) => (ip1, Err(e)),
            Ok(reg) => {
                let (ip2, w) = spec_read_big::<SIZE, A>(mem, ip1);
                match w {
                    Err(e) => (ip2, Err(e)),
                    Ok(w) => (ip2, Ok((reg, w))),
                }
            },
        },
    }
}

/// Operands: two registers, each checked as it is read.
pub open spec fn spec_reg_reg<const SIZE: usize, A: Addressable<SIZE>>(mem: A::V, ip: u16) -> (u16, Result<(Register, Register), Error<SIZE>>) {
    let (ip1, b) = spec_read_small::<SIZE, A>(mem, ip);
    match b {
        Err(e) => (ip1, Err(e)),
        Ok(b) => match spec_reg::<SIZE>(b) {
            Err(e) => (ip1, Err(e)),
            Ok(r1) => {
                let (ip2, c) = spec_read_small::<SIZE, A>(mem, ip1);
                match c {
                    Err(e) => (ip2, Err(e)),
                    Ok(c) => match spec_reg::<SIZE>(c) {
                        Err(e) => (ip2, Err(e)),
                        Ok(r2) => (ip2, Ok((r1, r2))),
                    },
                }
            },
        },
    }
}

/// Operands: two registers, both read before either is checked.
pub open spec fn spec_reg_reg_late<const SIZE: usize, A: Addressable<SIZE>>(mem: A::V, ip: u16) -> (u16, Result<(Register, Register), Error<SIZE>>) {
    let (ip1, b) = spec_read_small::<SIZE, A>(mem, ip);
    match b {
        Err(e) => (ip1, Err(e)),
        Ok(b) => {
            let (ip2, c) = spec_read_small::<SIZE, A>(mem, ip1);
            match c {
                Err(e) => (ip2, Err(e)),
                Ok(c) => match spec_reg::<SIZE>(b) {
                    Err(e) => (ip2, Err(e)),
                    Ok(r1) => match spec_reg::<SIZE>(c) {
                        Err(e) => (ip2, Err(e)),
                        Ok(r2) => (ip2, Ok((r1, r2))),
                    },
                },
            }
        },
    }
}

/// Operands: an address, then a register.
pub open spec fn spec_addr_reg<const SIZE: usize, A: Addressable<SIZE>>(mem: A::V, ip: u16) -> (u16, Result<(Word<SIZE>, Register), Error<SIZE>>) {
    let (ip1, w) = spec_read_big::<SIZE, A>(mem, ip);
    match w {
        Err(e) => (ip1, Err(e)),
        Ok(w) => match spec_addr::<SIZE>(w) {
            Err(e) => (ip1, Err(e)),
            Ok(a) => {
                let (ip2, b) = spec_read_small::<SIZE, A>(mem, ip1);
                match b {
                    Err(e) => (ip2, Err(e)),
                    Ok(b) => match spec_reg::<SIZE>(b) {
                        Err(e) => (ip2, Err(e)),
                        Ok(r) => (ip2, Ok((a, r))),
                    },
                }
            },
        },
    }
}

/// Operands: an address, then a literal word.
pub open spec fn spec_addr_lit<const SIZE: usize, A: Addressable<SIZE>>(mem: A::V, ip: u16) -> (u16, Result<(Word<SIZE>, u16), Error<SIZE>>) {
    let (ip1, w) = spec_read_big::<SIZE, A>(mem, ip);
    match w {
        Err(e) => (ip1, Err(e)),
        Ok(w) => match spec_addr::<SIZE>(w) {
            Err(e) => (ip1, Err(e)),
            Ok(a) => {
                let (ip2, v) = spec_read_big::<SIZE, A>(mem, ip1);
                match v {
                    Err(e) => (ip2, Err(e)),
                    Ok(v) => (ip2, Ok((a, v))),
                }
            },
        },
    }
}

/// Operands: a register, then an address.
pub open spec fn spec_reg_addr<const SIZE: usize, A: Addressable<SIZE>>(mem: A::V, ip: u16) -> (u16, Result<(Register, Word<SIZE>), Error<SIZE>>) {
    let (ip1, b) = spec_read_small::<SIZE, A>(mem, ip);
    match b {
        Err(e) => (ip1, Err(e)),
        Ok(b) => match spec_reg::<SIZE>(b) {
            Err(e) => (ip1, Err(e)),
            Ok(r) => {
                let (ip2, w) = spec_read_big::<SIZE, A>(mem, ip1);
                match w {
                    Err(e) => (ip2, Err(e)),
                    Ok(w) => match spec_addr::<SIZE>(w) {
                        Err(e) => (ip2, Err(e)),
                        Ok(a) => (ip2, Ok((r, a))),
                    },
                }
            },
        },
    }
}

/// Operand: a register.
pub open spec fn spec_one_reg<const SIZE: usize, A: Addressable<SIZE>>(mem: A::V, ip: u16) -> (u16, Result<Register, Error<SIZE>>) {
    let (ip1, b) = spec_read_small::<SIZE, A>(mem, ip);
    match b {
        Err(e) => (ip1, Err(e)),
        Ok(b) => match spec_reg::<SIZE>(b) {
            Err(e) => (ip1, Err(e)),
            Ok(r) => (ip1, Ok(r)),
        },
    }
}

/// Operand: an address.
pub open spec fn spec_one_addr<const SIZE: usize, A: Addressable<SIZE>>(mem: A::V, ip: u16) -> (u16, Result<Word<SIZE>, Error<SIZE>>) {
    let (ip1, w) = spec_read_big::<SIZE, A>(mem, ip);
    match w {
        Err(e) => (ip1, Err(e)),
        Ok(w) => match spec_addr::<SIZE>(w) {
            Err(e) => (ip1, Err(e)),
            Ok(a) => (ip1, Ok(a)),
        },
    }
}

/// Operands of a conditional jump on a literal: the target, the literal.
pub open spec fn spec_jump_lit<const SIZE: usize, A: Addressable<SIZE>>(mem: A::V, ip: u16) -> (u16, Result<(Word<SIZE>, u16), Error<SIZE>>) {
    let (ip1, t) = spec_read_big::<SIZE, A>(mem, ip);
    match t {
        Err(e) => (ip1, Err(e)),
        Ok(t) => {
            let (ip2, v) = spec_read_big::<SIZE, A>(mem, ip1);
            match v {
                Err(e) => (ip2, Err(e)),
                Ok(v) => match spec_addr::<SIZE>(t) {
                    Err(e) => (ip2, Err(e)),
                    Ok(a) => (ip2, Ok((a, v))),
                },
            }
        },
    }
}

/// Operands of a conditional jump on a register: the target, the register.
pub open spec fn spec_jump_reg<const SIZE: usize, A: Addressable<SIZE>>(mem: A::V, ip: u16) -> (u16, Result<(Word<SIZE>, Register), Error<SIZE>>) {
    let (ip1, t) = spec_read_big::<SIZE, A>(mem, ip);
    match t {
        Err(e) => (ip1, Err(e)),
        Ok(t) => {
            let (ip2, b) = spec_read_small::<SIZE, A>(mem, ip1);
            match b {
                Err(e) => (ip2, Err(e)),
                Ok(b) => match spec_reg::<SIZE>(b) {
                    Err(e) => (ip2, Err(e)),
                    Ok(r) => match spec_addr::<SIZE>(t) {
                        Err(e) => (ip2, Err(e)),
                        Ok(a) => (ip2, Ok((a, r))),
                    },
                },
            }
        },
    }
}

/// Whether the machine decodes the operation at all: the shifts, the bitwise
/// operations, `JMP`, `INT` and `RTI` it does not.
pub open spec fn decodable(op: OpCode) -> bool {
    !(op == OpCode::LshLitReg || op == OpCode::LshRegReg || op == OpCode::RshLitReg
        || op == OpCode::RshRegReg || op == OpCode::AndLitReg || op == OpCode::AndRegReg
        || op == OpCode::OrLitReg || op == OpCode::OrRegReg || op == OpCode::XorLitReg
        || op == OpCode::XorRegReg || op == OpCode::Not)
}

/// Whether the machine in this state can fetch its next instruction without
/// stopping: the instruction pointer lies in the memory and, where the
/// operation byte reads, it names no operation that the machine does not decode.
pub open spec fn can_fetch<const SIZE: usize, A: Addressable<SIZE>>(regs: Seq<u16>, mem: A::V) -> bool {
    &&& (regs[IP()] as int) < SIZE
    &&& match spec_read_small::<SIZE, A>(mem, regs[IP()]).1 {
        Ok(b) => match OpCode::spec_try_from(b) {
            Some(op) => decodable(op),
            None => true,
        },
        Err(_) => true,
    }
}

/// The operands of `op` read from the instruction pointer of `regs` on: where
/// the instruction pointer ends up, and the instruction or the error.
pub open spec fn spec_operands<const SIZE: usize, A: Addressable<SIZE>>(regs: Seq<u16>, mem: A::V, op: OpCode) -> (u16, Result<Instruction<SIZE>, Error<SIZE>>) {
    let ip = regs[IP()];
    match op {
    OpCode::MovLitReg => { let (i, x) = spec_reg_lit::<SIZE, A>(mem, ip); (i, match x { Ok((r, v)) => Ok(Instruction::MovLitReg(r, v)), Err(e) => Err(e) }) },
    OpCode::MovRegReg => { let (i, x) = spec_reg_reg::<SIZE, A>(mem, ip); (i, match x { Ok((r1, r2)) => Ok(Instruction::MovRegReg(r1, r2)), Err(e) => Err(e) }) },
    OpCode::MovRegMem => { let (i, x) = spec_addr_reg::<SIZE, A>(mem, ip); (i, match x { Ok((a, r)) => Ok(Instruction::MovRegMem(r, a)), Err(e) => Err(e) }) },
    OpCode::MovLitMem => { let (i, x) = spec_addr_lit::<SIZE, A>(mem, ip); (i, match x { Ok((a, v)) => Ok(Instruction::MovLitMem(a, v)), Err(e) => Err(e) }) },
    OpCode::MovMemReg => { let (i, x) = spec_reg_addr::<SIZE, A>(mem, ip); (i, match x { Ok((r, a)) => Ok(Instruction::MovMemReg(a, r)), Err(e) => Err(e) }) },
    OpCode::MovRegPtrReg => { let (i, x) = spec_reg_reg_late::<SIZE, A>(mem, ip); (i, match x { Ok((r1, r2)) => Ok(Instruction::MovRegPtrReg(r1, r2)), Err(e) => Err(e) }) },
    OpCode::PushLit => { let (i, x) = spec_read_big::<SIZE, A>(mem, ip); (i, match x { Ok(v) => Ok(Instruction::PushLit(v)), Err(e) => Err(e) }) },
    OpCode::PushReg => { let (i, x) = spec_one_reg::<SIZE, A>(mem, ip); (i, match x { Ok(r) => Ok(Instruction::PushLit(regs[reg_index(r)])), Err(e) => Err(e) }) },
    OpCode::Pop => { let (i, x) = spec_one_reg::<SIZE, A>(mem, ip); (i, match x { Ok(r) => Ok(Instruction::PopReg(r)), Err(e) => Err(e) }) },
    OpCode::CallRegPtr => { let (i, x) = spec_one_reg::<SIZE, A>(mem, ip); (i, match x { Ok(r) => Ok(Instruction::CallRegPtr(r)), Err(e) => Err(e) }) },
    OpCode::Call => { let (i, x) = spec_one_addr::<SIZE, A>(mem, ip); (i, match x { Ok(a) => Ok(Instruction::Call(a)), Err(e) => Err(e) }) },
    OpCode::Ret => (ip, Ok(Instruction::Ret)),
    OpCode::Halt => { let (i, x) = spec_read_small::<SIZE, A>(mem, ip); (i, match x { Ok(v) => Ok(Instruction::Halt(v)), Err(e) => Err(e) }) },
    OpCode::AddRegReg => { let (i, x) = spec_reg_reg::<SIZE, A>(mem, ip); (i, match x { Ok((r1, r2)) => Ok(Instruction::AddRegReg(r1, r2)), Err(e) => Err(e) }) },
    OpCode::AddLitReg => { let (i, x) = spec_reg_lit::<SIZE, A>(mem, ip); (i, match x { Ok((r, v)) => Ok(Instruction::AddLitReg(r, v)), Err(e) => Err(e) }) },
    OpCode::SubLitReg => { let (i, x) = spec_reg_lit::<SIZE, A>(mem, ip); (i, match x { Ok((r, v)) => Ok(Instruction::SubLitReg(r, v)), Err(e) => Err(e) }) },
    OpCode::SubRegReg => { let (i, x) = spec_reg_reg::<SIZE, A>(mem, ip); (i, match x { Ok((r1, r2)) => Ok(Instruction::SubRegReg(r1, r2)), Err(e) => Err(e) }) },
    OpCode::IncReg => { let (i, x) = spec_one_reg::<SIZE, A>(mem, ip); (i, match x { Ok(r) => Ok(Instruction::IncReg(r)), Err(e) => Err(e) }) },
    OpCode::DecReg => { let (i, x) = spec_one_reg::<SIZE, A>(mem, ip); (i, match x { Ok(r) => Ok(Instruction::DecReg(r)), Err(e) => Err(e) }) },
    OpCode::MulLitReg => { let (i, x) = spec_reg_lit::<SIZE, A>(mem, ip); (i, match x { Ok((r, v)) => Ok(Instruction::MulLitReg(r, v)), Err(e) => Err(e) }) },
    OpCode::MulRegReg => { let (i, x) = spec_reg_reg::<SIZE, A>(mem, ip); (i, match x { Ok((r1, r2)) => Ok(Instruction::MulRegReg(r1, r2)), Err(e) => Err(e) }) },
    OpCode::JeqLit => { let (i, x) = spec_jump_lit::<SIZE, A>(mem, ip); (i, match x { Ok((a, v)) => Ok(Instruction::JeqLit(a, v)), Err(e) => Err(e) }) },
    OpCode::JeqReg => { let (i, x) = spec_jump_reg::<SIZE, A>(mem, ip); (i, match x { Ok((a, r)) => Ok(Instruction::JeqReg(a, r)), Err(e) => Err(e) }) },
    OpCode::JgtLit => { let (i, x) = spec_jump_lit::<SIZE, A>(mem, ip); (i, match x { Ok((a, v)) => Ok(Instruction::JgtLit(a, v)), Err(e) => Err(e) }) },
    OpCode::JgtReg => { let (i, x) = spec_jump_reg::<SIZE, A>(mem, ip); (i, match x { Ok((a, r)) => Ok(Instruction::JgtReg(a, r)), Err(e) => Err(e) }) },
    OpCode::JneLit => { let (i, x) = spec_jump_lit::<SIZE, A>(mem, ip); (i, match x { Ok((a, v)) => Ok(Instruction::JneLit(a, v)), Err(e) => Err(e) }) },
    OpCode::JneReg => { let (i, x) = spec_jump_reg::<SIZE, A>(mem, ip); (i, match x { Ok((a, r)) => Ok(Instruction::JneReg(a, r)), Err(e) => Err(e) }) },
    OpCode::JgeLit => { let (i, x) = spec_jump_lit::<SIZE, A>(mem, ip); (i, match x { Ok((a, v)) => Ok(Instruction::JgeLit(a, v)), Err(e) => Err(e) }) },
    OpCode::JgeReg => { let (i, x) = spec_jump_reg::<SIZE, A>(mem, ip); (i, match x { Ok((a, r)) => Ok(Instruction::JgeReg(a, r)), Err(e) => Err(e) }) },
    OpCode::JleLit => { let (i, x) = spec_jump_lit::<SIZE, A>(mem, ip); (i, match x { Ok((a, v)) => Ok(Instruction::JleLit(a, v)), Err(e) => Err(e) }) },
    OpCode::JleReg => { let (i, x) = spec_jump_reg::<SIZE, A>(mem, ip); (i, match x { Ok((a, r)) => Ok(Instruction::JleReg(a, r)), Err(e) => Err(e) }) },
    OpCode::JltLit => { let (i, x) = spec_jump_lit::<SIZE, A>(mem, ip); (i, match x { Ok((a, v)) => Ok(Instruction::JltLit(a, v)), Err(e) => Err(e) }) },
    OpCode::JltReg => { let (i, x) = spec_jump_reg::<SIZE, A>(mem, ip); (i, match x { Ok((a, r)) => Ok(Instruction::JltReg(a, r)), Err(e) => Err(e) }) },
        _ => (ip, Err(Error::OpCode(op_code::Error::InvalidValue(op.spec_byte() as u16)))),
    }
}

/// Fetching: where the instruction pointer ends up, and the instruction or
/// the error.
pub open spec fn spec_fetch<const SIZE: usize, A: Addressable<SIZE>>(regs: Seq<u16>, mem: A::V) -> (u16, Result<Instruction<SIZE>, Error<SIZE>>) {
    let (ip, b) = spec_read_small::<SIZE, A>(mem, regs[IP()]);
    match b {
        Err(e) => (ip, Err(e)),
        Ok(b) => match OpCode::spec_try_from(b) {
            None => (ip, Err(Error::OpCode(op_code::Error::InvalidValue(b)))),
            Some(op) => spec_operands::<SIZE, A>(regs.update(IP(), ip), mem, op),
        },
    }
}

/// Pushing `val`: stored at the stack pointer, which then moves down a word.
pub open spec fn spec_push<const SIZE: usize, A: Addressable<SIZE>>(regs: Seq<u16>, mem: A::V, val: u16) -> (Seq<u16>, A::V, Result<(), Error<SIZE>>) {
    let sp = regs[SP()];
    let (m1, r) = A::model_write_word(mem, sp, val);
    match r {
        Err(e) => (regs, m1, Err(Error::Mem(e))),
        Ok(_) => if sp >= 2 {
            (regs.update(SP(), (sp - 2) as u16), m1, Ok(()))
        } else {
            (regs, m1, Err(Error::Mem(memory::Error::StackUnderflow)))
        },
    }
}

/// Popping: the stack pointer moves up a word and the word there is read.
pub open spec fn spec_pop<const SIZE: usize, A: Addressable<SIZE>>(regs: Seq<u16>, mem: A::V) -> (Seq<u16>, Result<u16, Error<SIZE>>) {
    let sp = regs[SP()];
    if fits::<SIZE>(sp, 2) {
        match A::model_read_word(mem, (sp + 2) as u16) {
            Err(e) => (regs, Err(Error::Mem(e))),
            Ok(v) => (regs.update(SP(), (sp + 2) as u16), Ok(v)),
        }
    } else {
        (regs, Err(Error::Mem(memory::Error::StackOverflow)))
    }
}

/// Calling a subroutine: `R1` to `R4` and the instruction pointer are pushed,
/// then the size of the frame; stack and frame pointer move to the new frame,
/// and the instruction pointer to `address`.
pub open spec fn spec_call<const SIZE: usize, A: Addressable<SIZE>>(regs: Seq<u16>, mem: A::V, address: u16) -> (Seq<u16>, A::V, Result<(), Error<SIZE>>) {
    let (g1, m1, x1) = spec_push::<SIZE, A>(regs, mem, regs[2]);
    if x1 is Err { (g1, m1, x1) } else {
    let (g2, m2, x2) = spec_push::<SIZE, A>(g1, m1, regs[3]);
    if x2 is Err { (g2, m2, x2) } else {
    let (g3, m3, x3) = spec_push::<SIZE, A>(g2, m2, regs[4]);
    if x3 is Err { (g3, m3, x3) } else {
    let (g4, m4, x4) = spec_push::<SIZE, A>(g3, m3, regs[5]);
    if x4 is Err { (g4, m4, x4) } else {
    let (g5, m5, x5) = spec_push::<SIZE, A>(g4, m4, regs[IP()]);
    if x5 is Err { (g5, m5, x5) } else {
    let sp = g5[SP()];
    let fp = g5[FP()];
    if sp < 2 {
        (g5, m5, Err(Error::Mem(memory::Error::StackUnderflow)))
    } else if fp < sp - 2 {
        (g5, m5, Err(Error::Mem(memory::Error::StackUnderflow)))
    } else {
        let next = (sp - 2) as u16;
        let (m6, x6) = A::model_write_word(m5, sp, (fp - next) as u16);
        match x6 {
            Err(e) => (g5, m6, Err(Error::Mem(e))),
            Ok(_) => (g5.update(SP(), next).update(FP(), next).update(IP(), address), m6, Ok(())),
        }
    }
    }}}}}
}

/// Returning from a subroutine: the stack pointer moves to the frame pointer;
/// the frame size, the instruction pointer and `R4` to `R1` are popped; the
/// frame pointer moves up by the frame size.
pub open spec fn spec_ret<const SIZE: usize, A: Addressable<SIZE>>(regs: Seq<u16>, mem: A::V) -> (Seq<u16>, Result<(), Error<SIZE>>) {
    let fp = regs[FP()];
    let g0 = regs.update(SP(), fp);
    let (g1, size) = spec_pop::<SIZE, A>(g0, mem);
    if size is Err { (g1, Err(size->Err_0)) } else {
    let (g2, ip) = spec_pop::<SIZE, A>(g1, mem);
    if ip is Err { (g2, Err(ip->Err_0)) } else {
    let (g3, r4) = spec_pop::<SIZE, A>(g2, mem);
    if r4 is Err { (g3, Err(r4->Err_0)) } else {
    let (g4, r3) = spec_pop::<SIZE, A>(g3, mem);
    if r3 is Err { (g4, Err(r3->Err_0)) } else {
    let (g5, r2) = spec_pop::<SIZE, A>(g4, mem);
    if r2 is Err { (g5, Err(r2->Err_0)) } else {
    let (g6, r1) = spec_pop::<SIZE, A>(g5, mem);
    if r1 is Err { (g6, Err(r1->Err_0)) } else {
    let g7 = g6.update(IP(), ip->Ok_0).update(5, r4->Ok_0).update(4, r3->Ok_0).update(3, r2->Ok_0).update(2, r1->Ok_0);
    let frame_size = size->Ok_0;
    if (frame_size as int) >= SIZE {
        (g7, Err(Error::Mem(memory::Error::InvalidAddress(frame_size))))
    } else if !fits::<SIZE>(fp, frame_size as int) {
        (g7, Err(Error::Mem(memory::Error::StackOverflow)))
    } else {
        (g7.update(FP(), (fp + frame_size) as u16), Ok(()))
    }
    }}}}}}
}

/// A jump when `taken`: the instruction pointer moves to `address`.
pub open spec fn spec_jump<const SIZE: usize>(regs: Seq<u16>, address: Word<SIZE>, taken: bool) -> Seq<u16> {
    if taken { regs.update(IP(), address.spec_value()) } else { regs }
}

/// A state with no change of memory.
pub open spec fn regs_only<const SIZE: usize, V>(regs: Seq<u16>, mem: V) -> (Seq<u16>, V, Result<ExecutionFlow, Error<SIZE>>) {
    (regs, mem, Ok(ExecutionFlow::Continue))
}

/// Executing an instruction: the registers and memory after it, and whether
/// the machine goes on.
pub open spec fn spec_execute<const SIZE: usize, A: Addressable<SIZE>>(regs: Seq<u16>, mem: A::V, instruction: Instruction<SIZE>) -> (Seq<u16>, A::V, Result<ExecutionFlow, Error<SIZE>>) {
    let acc = regs[RET()];
    match instruction {
        Instruction::MovLitReg(reg, val) => regs_only(regs.update(reg_index(reg), val), mem),
        Instruction::MovRegReg(from, to) => regs_only(regs.update(reg_index(to), regs[reg_index(from)]), mem),
        Instruction::MovRegMem(reg, address) => {
            let (m, r) = A::model_write_word(mem, address.spec_value(), regs[reg_index(reg)]);
            match r { Ok(_) => (regs, m, Ok(ExecutionFlow::Continue)), Err(e) => (regs, m, Err(Error::Mem(e))) }
        },
        Instruction::MovLitMem(address, val) => {
            let (m, r) = A::model_write_word(mem, address.spec_value(), val);
            match r { Ok(_) => (regs, m, Ok(ExecutionFlow::Continue)), Err(e) => (regs, m, Err(Error::Mem(e))) }
        },
        Instruction::MovMemReg(address, reg) => match A::model_read_word(mem, address.spec_value()) {
            Ok(v) => regs_only(regs.update(reg_index(reg), v), mem),
            Err(e) => (regs, mem, Err(Error::Mem(e))),
        },
        Instruction::MovRegPtrReg(from, to) => {
            let p = regs[reg_index(from)];
            if (p as int) >= SIZE {
                (regs, mem, Err(Error::Mem(memory::Error::InvalidAddress(p))))
            } else {
                match A::model_read_word(mem, p) {
                    Ok(v) => regs_only(regs.update(reg_index(to), v), mem),
                    Err(e) => (regs, mem, Err(Error::Mem(e))),
                }
            }
        },
        Instruction::AddRegReg(r1, r2) => regs_only(regs.update(reg_index(r1), vstd::wrapping::u16_specs::wrapping_add(regs[reg_index(r1)], regs[reg_index(r2)])), mem),
        Instruction::AddLitReg(r, lit) => regs_only(regs.update(reg_index(r), vstd::wrapping::u16_specs::wrapping_add(regs[reg_index(r)], lit)), mem),
        Instruction::SubRegReg(r1, r2) => regs_only(regs.update(reg_index(r1), vstd::wrapping::u16_specs::wrapping_sub(regs[reg_index(r1)], regs[reg_index(r2)])), mem),
        Instruction::SubLitReg(r, lit) => regs_only(regs.update(reg_index(r), vstd::wrapping::u16_specs::wrapping_sub(regs[reg_index(r)], lit)), mem),
        Instruction::MulRegReg(r1, r2) => regs_only(regs.update(reg_index(r1), vstd::wrapping::u16_specs::wrapping_mul(regs[reg_index(r1)], regs[reg_index(r2)])), mem),
        Instruction::MulLitReg(r, lit) => regs_only(regs.update(reg_index(r), vstd::wrapping::u16_specs::wrapping_mul(regs[reg_index(r)], lit)), mem),
        Instruction::IncReg(r) => regs_only(regs.update(reg_index(r), vstd::wrapping::u16_specs::wrapping_add(regs[reg_index(r)], 1)), mem),
        Instruction::DecReg(r) => regs_only(regs.update(reg_index(r), vstd::wrapping::u16_specs::wrapping_sub(regs[reg_index(r)], 1)), mem),
        Instruction::JeqLit(a, lit) => regs_only(spec_jump(regs, a, lit == acc), mem),
        Instruction::JeqReg(a, r) => regs_only(spec_jump(regs, a, regs[reg_index(r)] == acc), mem),
        Instruction::JgtLit(a, lit) => regs_only(spec_jump(regs, a, lit > acc), mem),
        Instruction::JgtReg(a, r) => regs_only(spec_jump(regs, a, regs[reg_index(r)] > acc), mem),
        Instruction::JneLit(a, lit) => regs_only(spec_jump(regs, a, lit != acc), mem),
        Instruction::JneReg(a, r) => regs_only(spec_jump(regs, a, regs[reg_index(r)] != acc), mem),
        Instruction::JgeLit(a, lit) => regs_only(spec_jump(regs, a, lit >= acc), mem),
        Instruction::JgeReg(a, r) => regs_only(spec_jump(regs, a, regs[reg_index(r)] >= acc), mem),
        Instruction::JleLit(a, lit) => regs_only(spec_jump(regs, a, lit <= acc), mem),
        Instruction::JleReg(a, r) => regs_only(spec_jump(regs, a, regs[reg_index(r)] <= acc), mem),
        Instruction::JltLit(a, lit) => regs_only(spec_jump(regs, a, lit < acc), mem),
        Instruction::JltReg(a, r) => regs_only(spec_jump(regs, a, regs[reg_index(r)] < acc), mem),
        Instruction::PushLit(v) => {
            let (g, m, r) = spec_push::<SIZE, A>(regs, mem, v);
            match r { Ok(_) => (g, m, Ok(ExecutionFlow::Continue)), Err(e) => (g, m, Err(e)) }
        },
        Instruction::PopReg(reg) => {
            let (g, r) = spec_pop::<SIZE, A>(regs, mem);
            match r { Ok(v) => regs_only(g.update(reg_index(reg), v), mem), Err(e) => (g, mem, Err(e)) }
        },
        Instruction::Call(a) => {
            let (g, m, r) = spec_call::<SIZE, A>(regs, mem, a.spec_value());
            match r { Ok(_) => (g, m, Ok(ExecutionFlow::Continue)), Err(e) => (g, m, Err(e)) }
        },
        Instruction::CallRegPtr(reg) => {
            let p = regs[reg_index(reg)];
            if (p as int) >= SIZE {
                (regs, mem, Err(Error::Mem(memory::Error::InvalidAddress(p))))
            } else {
                let (g, m, r) = spec_call::<SIZE, A>(regs, mem, p);
                match r { Ok(_) => (g, m, Ok(ExecutionFlow::Continue)), Err(e) => (g, m, Err(e)) }
            }
        },
        Instruction::Ret => {
            let (g, r) = spec_ret::<SIZE, A>(regs, mem);
            match r { Ok(_) => (g, mem, Ok(ExecutionFlow::Continue)), Err(e) => (g, mem, Err(e)) }
        },
        Instruction::Halt(code) => (regs, mem, Ok(ExecutionFlow::Halt(code))),
        _ => (regs, mem, Ok(ExecutionFlow::Continue)),
    }
}

/// Whether the machine executes the instruction at all: the shifts, the
/// bitwise operations and `JMP` it does not.
pub open spec fn executable<const SIZE: usize>(instruction: Instruction<SIZE>) -> bool {
    match instruction {
        Instruction::LshLitReg(..) | Instruction::LshRegReg(..) | Instruction::RshLitReg(..)
        | Instruction::RshRegReg(..) | Instruction::AndLitReg(..) | Instruction::AndRegReg(..)
        | Instruction::OrLitReg(..) | Instruction::OrRegReg(..) | Instruction::XorLitReg(..)
        | Instruction::XorRegReg(..) | Instruction::Not(..) | Instruction::Jmp(..) => false,
        _ => true,
    }
}

/// A register that is neither the stack nor the frame pointer.
pub open spec fn frame_free(r: Register) -> bool {
    reg_index(r) != SP() && reg_index(r) != FP()
}

/// Whether the instruction leaves the stack and frame pointers to the stack
/// operations: it writes neither of them as a register operand.
pub open spec fn keeps_frame<const SIZE: usize>(instruction: Instruction<SIZE>) -> bool {
    match instruction {
        Instruction::MovLitReg(r, _) | Instruction::AddLitReg(r, _) | Instruction::SubLitReg(r, _)
        | Instruction::MulLitReg(r, _) | Instruction::AddRegReg(r, _) | Instruction::SubRegReg(r, _)
        | Instruction::MulRegReg(r, _) | Instruction::IncReg(r) | Instruction::DecReg(r)
        | Instruction::PopReg(r) | Instruction::MovMemReg(_, r) => frame_free(r),
        Instruction::MovRegReg(_, r) | Instruction::MovRegPtrReg(_, r) => frame_free(r),
        _ => true,
    }
}

/// The conditional jumps.
pub open spec fn jump_instruction<const SIZE: usize>(instruction: Instruction<SIZE>) -> bool {
    match instruction {
        Instruction::JeqLit(..)
        | Instruction::JeqReg(..)
        | Instruction::JgtLit(..)
        | Instruction::JgtReg(..)
        | Instruction::JneLit(..)
        | Instruction::JneReg(..)
        | Instruction::JgeLit(..)
        | Instruction::JgeReg(..)
        | Instruction::JleLit(..)
        | Instruction::JleReg(..)
        | Instruction::JltLit(..)
        | Instruction::JltReg(..) => true,
        _ => false,
    }
}

/// The instructions that work the stack, call, return or halt.
pub open spec fn control_instruction<const SIZE: usize>(instruction: Instruction<SIZE>) -> bool {
    match instruction {
        Instruction::PushLit(..)
        | Instruction::PopReg(..)
        | Instruction::Call(..)
        | Instruction::CallRegPtr(..)
        | Instruction::Ret
        | Instruction::Halt(..) => true,
        _ => false,
    }
}

/// The moves and the arithmetic.
pub open spec fn data_instruction<const SIZE: usize>(instruction: Instruction<SIZE>) -> bool {
    match instruction {
        Instruction::MovLitReg(..)
        | Instruction::MovRegReg(..)
        | Instruction::MovRegMem(..)
        | Instruction::MovLitMem(..)
        | Instruction::MovMemReg(..)
        | Instruction::MovRegPtrReg(..)
        | Instruction::AddRegReg(..)
        | Instruction::AddLitReg(..)
        | Instruction::SubRegReg(..)
        | Instruction::SubLitReg(..)
        | Instruction::MulRegReg(..)
        | Instruction::MulLitReg(..)
        | Instruction::IncReg(..)
        | Instruction::DecReg(..) => true,
        _ => false,
    }
}

/// One step of the machine: fetch, then execute.
pub open spec fn spec_step<const SIZE: usize, A: Addressable<SIZE>>(regs: Seq<u16>, mem: A::V) -> (Seq<u16>, A::V, Result<ExecutionFlow, Error<SIZE>>) {
    let (ip, fetched) = spec_fetch::<SIZE, A>(regs, mem);
    let fetched_regs = regs.update(IP(), ip);
    match fetched {
        Err(e) => (fetched_regs, mem, Err(e)),
        Ok(instruction) => spec_execute::<SIZE, A>(fetched_regs, mem, instruction),
    }
}

/// How a run of the machine ends.
#[derive(Debug)]
pub enum RunEnd<const SIZE: usize> {
    /// a `HLT` with its code
    Halted(u16),
    /// the steps allowed were taken
    OutOfSteps,
    /// the next operation is one the machine does not carry out
    Unsupported,
    /// an instruction failed
    Failed(Error<SIZE>),
}

/// Running at most `fuel` steps: step after step until a halt, an error, an
/// operation the machine does not carry out, or the last step allowed.
pub open spec fn spec_run<const SIZE: usize, A: Addressable<SIZE>>(regs: Seq<u16>, mem: A::V, fuel: nat) -> (Seq<u16>, A::V, RunEnd<SIZE>)
    decreases fuel,
{
    if fuel == 0 {
        (regs, mem, RunEnd::OutOfSteps)
    } else if !can_fetch::<SIZE, A>(regs, mem) {
        (regs, mem, RunEnd::Unsupported)
    } else {
        let (r, m, x) = spec_step::<SIZE, A>(regs, mem);
        match x {
            Err(e) => (r, m, RunEnd::Failed(e)),
            Ok(ExecutionFlow::Halt(code)) => (r, m, RunEnd::Halted(code)),
            Ok(ExecutionFlow::Continue) => spec_run::<SIZE, A>(r, m, (fuel - 1) as nat),
        }
    }
}

/// The registers the machine relies on: thirteen of them, and stack and frame
/// pointer inside the memory.
pub open spec fn regs_wf<const SIZE: usize>(regs: Seq<u16>) -> bool {
    &&& regs.len() == 12
    &&& (regs[SP()] as int) < SIZE
    &&& (regs[FP()] as int) < SIZE
}

/// Loading `bytes` from `address` on: each byte written, then the address moved on.
pub open spec fn spec_load<const SIZE: usize, A: Addressable<SIZE>>(mem: A::V, bytes: Seq<u8>, address: u16) -> (A::V, Result<(), Error<SIZE>>)
    decreases bytes.len(),
{
    if bytes.len() == 0 {
        (mem, Ok(()))
    } else {
        let (m1, r) = A::model_write(mem, address, bytes[0]);
        match r {
            Err(e) => (m1, Err(Error::Mem(e))),
            Ok(_) => if fits::<SIZE>(address, 1) {
                spec_load::<SIZE, A>(m1, bytes.drop_first(), (address + 1) as u16)
            } else {
                (m1, Err(Error::Mem(memory::Error::StackOverflow)))
            },
        }
    }
}

/// Whether the instruction is a conditional jump.
fn is_jump<const SIZE: usize>(instruction: &Instruction<SIZE>) -> (b: bool)
    ensures
        b == jump_instruction(*instruction),
{
    match instruction {
        Instruction::JeqLit(..)
        | Instruction::JeqReg(..)
        | Instruction::JgtLit(..)
        | Instruction::JgtReg(..)
        | Instruction::JneLit(..)
        | Instruction::JneReg(..)
        | Instruction::JgeLit(..)
        | Instruction::JgeReg(..)
        | Instruction::JleLit(..)
        | Instruction::JleReg(..)
        | Instruction::JltLit(..)
        | Instruction::JltReg(..) => true,
        _ => false,
    }
}

/// Whether the instruction works the stack, calls, returns or halts.
fn is_control<const SIZE: usize>(instruction: &Instruction<SIZE>) -> (b: bool)
    ensures
        b == control_instruction(*instruction),
{
    match instruction {
        Instruction::PushLit(..)
        | Instruction::PopReg(..)
        | Instruction::Call(..)
        | Instruction::CallRegPtr(..)
        | Instruction::Ret
        | Instruction::Halt(..) => true,
        _ => false,
    }
}

impl<const SIZE: usize, A: Addressable<SIZE>> Cpu<SIZE, A> {
    /// The registers hold what the machine relies on.
    pub open spec fn wf(&self) -> bool {
        regs_wf::<SIZE>(self.registers@)
    }

    /// A machine on `memory`, all registers zero but stack and frame pointer,
    /// which point at the last word of the memory.
    pub fn new(memory: A) -> (cpu: Self)
        requires
            2 <= SIZE <= 0x10000,
        ensures
            cpu.wf(),
            cpu.memory == memory,
            cpu.registers@ == Seq::new(12, |i: int| if i == 10 || i == 11 { (SIZE - 2) as u16 } else { 0u16 }),
    {
        Cpu { registers: Registers::new(), memory }
    }

    /// Writes `bytecode` into memory from `address` on.
    pub fn load_into_address(&mut self, bytecode: &[u8], address: u16) -> (r: Result<(), Error<SIZE>>)
        requires
            (address as int) < SIZE,
        ensures
            (final(self).memory@, r) == spec_load::<SIZE, A>(old(self).memory@, bytecode@, address),
            final(self).registers == old(self).registers,
    {
        let mut addr = match Word::<SIZE>::try_from(address) {
            Ok(a) => a,
            Err(_) => unreached(),
        };
        let mut i: usize = 0;
        assert(bytecode@.subrange(0, bytecode@.len() as int) =~= bytecode@);
        while i < bytecode.len()
            invariant
                i <= bytecode@.len(),
                self.registers == old(self).registers,
                spec_load::<SIZE, A>(old(self).memory@, bytecode@, address) == spec_load::<SIZE, A>(
                    self.memory@,
                    bytecode@.subrange(i as int, bytecode@.len() as int),
                    addr.spec_value(),
                ),
            decreases bytecode@.len() - i,
        {
            let ghost rest = bytecode@.subrange(i as int, bytecode@.len() as int);
            assert(rest.drop_first() =~= bytecode@.subrange(i + 1, bytecode@.len() as int));
            match self.memory.write(addr, bytecode[i]) {
                Ok(_) => {},
                Err(e) => return Err(Error::Mem(e)),
            }
            addr = match addr.next() {
                Ok(a) => a,
                Err(e) => return Err(Error::Mem(e)),
            };
            i = i + 1;
        }
        assert(bytecode@.subrange(i as int, bytecode@.len() as int) =~= Seq::<u8>::empty());
        Ok(())
    }

    /// The value of the stack pointer.
    pub fn stack_address(&self) -> (r: u16)
        ensures
            r == self.registers@[SP()],
    {
        self.registers.fetch(Register::SP)
    }

    /// Points the machine at `address` for its next instruction.
    pub fn starting_address(&mut self, address: u16)
        ensures
            final(self).registers@ == old(self).registers@.update(IP(), address),
            final(self).memory == old(self).memory,
    {
        self.registers.set(Register::IP, address);
    }

    /// Whether the machine can fetch its next instruction (see `can_fetch`).
    pub fn can_step(&self) -> (b: bool)
        requires
            self.wf(),
        ensures
            b == can_fetch::<SIZE, A>(self.registers@, self.memory@),
    {
        let ip = self.registers.fetch(Register::IP);
        if ip as usize >= SIZE {
            return false;
        }
        let ptr = match Word::<SIZE>::try_from(ip) {
            Ok(p) => p,
            Err(_) => unreached(),
        };
        let b = match self.memory.read(ptr) {
            Ok(b) => b,
            Err(_) => return true,
        };
        if ptr.next().is_err() {
            return true;
        }
        match OpCode::try_from(b as u16) {
            Ok(op) => match op {
                OpCode::LshLitReg | OpCode::LshRegReg | OpCode::RshLitReg | OpCode::RshRegReg
                | OpCode::AndLitReg | OpCode::AndRegReg | OpCode::OrLitReg | OpCode::OrRegReg
                | OpCode::XorLitReg | OpCode::XorRegReg | OpCode::Not => false,
                _ => true,
            },
            Err(_) => true,
        }
    }

    /// Steps the machine until it halts, an instruction fails, the next
    /// operation is one it does not carry out, or `max_steps` steps were taken
    /// (see `spec_run`).
    pub fn run(&mut self, max_steps: u64) -> (r: RunEnd<SIZE>)
        requires
            old(self).wf(),
        ensures
            final(self).wf(),
            (final(self).registers@, final(self).memory@, r) == spec_run::<SIZE, A>(
                old(self).registers@,
                old(self).memory@,
                max_steps as nat,
            ),
    {
        let mut fuel = max_steps;
        while fuel > 0
            invariant
                self.wf(),
                spec_run::<SIZE, A>(old(self).registers@, old(self).memory@, max_steps as nat)
                    == spec_run::<SIZE, A>(self.registers@, self.memory@, fuel as nat),
            decreases fuel,
        {
            if !self.can_step() {
                return RunEnd::Unsupported;
            }
            match self.step() {
                Ok(ExecutionFlow::Continue) => {},
                Ok(ExecutionFlow::Halt(code)) => return RunEnd::Halted(code),
                Err(e) => return RunEnd::Failed(e),
            }
            fuel = fuel - 1;
        }
        RunEnd::OutOfSteps
    }

    /// One step: fetches the instruction at the instruction pointer and executes it.
    pub fn step(&mut self) -> (r: Result<ExecutionFlow, Error<SIZE>>)
        requires
            old(self).wf(),
            can_fetch::<SIZE, A>(old(self).registers@, old(self).memory@),
        ensures
            final(self).wf(),
            (final(self).registers@, final(self).memory@, r) == spec_step::<SIZE, A>(old(self).registers@, old(self).memory@),
    {
        let instruction = self.fetch()?;
        self.execute(instruction)
    }

    /// Reads the instruction at the instruction pointer, moving the pointer past it.
    pub fn fetch(&mut self) -> (r: Result<Instruction<SIZE>, Error<SIZE>>)
        requires
            old(self).wf(),
            can_fetch::<SIZE, A>(old(self).registers@, old(self).memory@),
        ensures
            final(self).wf(),
            final(self).memory == old(self).memory,
            ({
                let (ip, x) = spec_fetch::<SIZE, A>(old(self).registers@, old(self).memory@);
                final(self).registers@ == old(self).registers@.update(IP(), ip) && r == x
            }),
            r matches Ok(i) ==> executable(i) && keeps_frame(i),
    {
        let op = self.next_instruction(InstructionSize::Small)?;
        let op = match OpCode::try_from(op) {
            Ok(op) => op,
            Err(e) => return Err(Error::OpCode(e)),
        };
        self.fetch_operands(op)
    }

    /// Reads the operands of `op` at the instruction pointer.
    #[verifier::rlimit(50)]
    fn fetch_operands(&mut self, op: OpCode) -> (r: Result<Instruction<SIZE>, Error<SIZE>>)
        requires
            old(self).wf(),
            (old(self).registers@[IP()] as int) < SIZE,
            decodable(op),
        ensures
            final(self).wf(),
            final(self).memory == old(self).memory,
            ({
                let (ip, x) = spec_operands::<SIZE, A>(old(self).registers@, old(self).memory@, op);
                final(self).registers@ == old(self).registers@.update(IP(), ip) && r == x
            }),
            r matches Ok(i) ==> executable(i) && keeps_frame(i),
    {
        match op {
            OpCode::MovLitReg => {
                let (reg, val) = self.fetch_reg_lit()?;
                Ok(Instruction::MovLitReg(reg, val))
            },
            OpCode::MovRegReg => {
                let (from, to) = self.fetch_reg_reg()?;
                Ok(Instruction::MovRegReg(from, to))
            },
            OpCode::MovRegMem => {
                let (address, reg) = self.fetch_addr_reg()?;
                Ok(Instruction::MovRegMem(reg, address))
            },
            OpCode::MovLitMem => {
                let (address, val) = self.fetch_addr_lit()?;
                Ok(Instruction::MovLitMem(address, val))
            },
            OpCode::MovMemReg => {
                let (reg, address) = self.fetch_reg_addr()?;
                Ok(Instruction::MovMemReg(address, reg))
            },
            OpCode::MovRegPtrReg => {
                let (from, to) = self.fetch_reg_reg_late()?;
                Ok(Instruction::MovRegPtrReg(from, to))
            },
            OpCode::PushLit => {
                let val = self.next_instruction(InstructionSize::Word)?;
                Ok(Instruction::PushLit(val))
            },
            OpCode::PushReg => {
                let reg = self.fetch_one_reg()?;
                let val = self.registers.fetch(reg);
                Ok(Instruction::PushLit(val))
            },
            OpCode::Pop => {
                let reg = self.fetch_one_reg()?;
                Ok(Instruction::PopReg(reg))
            },
            OpCode::CallRegPtr => {
                let reg = self.fetch_one_reg()?;
                Ok(Instruction::CallRegPtr(reg))
            },
            OpCode::Call => {
                let word = self.fetch_one_addr()?;
                Ok(Instruction::Call(word))
            },
            OpCode::Ret => Ok(Instruction::Ret),
            OpCode::Halt => {
                let code = self.next_instruction(InstructionSize::Small)?;
                Ok(Instruction::Halt(code))
            },
            OpCode::AddRegReg => {
                let (r1, r2) = self.fetch_reg_reg()?;
                Ok(Instruction::AddRegReg(r1, r2))
            },
            OpCode::AddLitReg => {
                let (reg, lit) = self.fetch_reg_lit()?;
                Ok(Instruction::AddLitReg(reg, lit))
            },
            OpCode::SubLitReg => {
                let (reg, lit) = self.fetch_reg_lit()?;
                Ok(Instruction::SubLitReg(reg, lit))
            },
            OpCode::SubRegReg => {
                let (r1, r2) = self.fetch_reg_reg()?;
                Ok(Instruction::SubRegReg(r1, r2))
            },
            OpCode::IncReg => {
                let reg = self.fetch_one_reg()?;
                Ok(Instruction::IncReg(reg))
            },
            OpCode::DecReg => {
                let reg = self.fetch_one_reg()?;
                Ok(Instruction::DecReg(reg))
            },
            OpCode::MulLitReg => {
                let (reg, lit) = self.fetch_reg_lit()?;
                Ok(Instruction::MulLitReg(reg, lit))
            },
            OpCode::MulRegReg => {
                let (r1, r2) = self.fetch_reg_reg()?;
                Ok(Instruction::MulRegReg(r1, r2))
            },
            OpCode::JeqLit => {
                let (a, lit) = self.fetch_jump_lit()?;
                Ok(Instruction::JeqLit(a, lit))
            },
            OpCode::JeqReg => {
                let (a, reg) = self.fetch_jump_reg()?;
                Ok(Instruction::JeqReg(a, reg))
            },
            OpCode::JgtLit => {
                let (a, lit) = self.fetch_jump_lit()?;
                Ok(Instruction::JgtLit(a, lit))
            },
            OpCode::JgtReg => {
                let (a, reg) = self.fetch_jump_reg()?;
                Ok(Instruction::JgtReg(a, reg))
            },
            OpCode::JneLit => {
                let (a, lit) = self.fetch_jump_lit()?;
                Ok(Instruction::JneLit(a, lit))
            },
            OpCode::JneReg => {
                let (a, reg) = self.fetch_jump_reg()?;
                Ok(Instruction::JneReg(a, reg))
            },
            OpCode::JgeLit => {
                let (a, lit) = self.fetch_jump_lit()?;
                Ok(Instruction::JgeLit(a, lit))
            },
            OpCode::JgeReg => {
                let (a, reg) = self.fetch_jump_reg()?;
                Ok(Instruction::JgeReg(a, reg))
            },
            OpCode::JleLit => {
                let (a, lit) = self.fetch_jump_lit()?;
                Ok(Instruction::JleLit(a, lit))
            },
            OpCode::JleReg => {
                let (a, reg) = self.fetch_jump_reg()?;
                Ok(Instruction::JleReg(a, reg))
            },
            OpCode::JltLit => {
                let (a, lit) = self.fetch_jump_lit()?;
                Ok(Instruction::JltLit(a, lit))
            },
            OpCode::JltReg => {
                let (a, reg) = self.fetch_jump_reg()?;
                Ok(Instruction::JltReg(a, reg))
            },
            _ => unreached(),
        }
    }

    fn fetch_reg_lit(&mut self) -> (r: Result<(Register, u16), Error<SIZE>>)
        requires
            old(self).wf(),
            (old(self).registers@[IP()] as int) < SIZE,
        ensures
            final(self).wf(),
            final(self).memory == old(self).memory,
            ({
                let (ip, x) = spec_reg_lit::<SIZE, A>(old(self).memory@, old(self).registers@[IP()]);
                final(self).registers@ == old(self).registers@.update(IP(), ip) && r == x
            }),
            r is Ok ==> (final(self).registers@[IP()] as int) < SIZE,
    {
        let reg = self.next_instruction(InstructionSize::Small)?;
        let reg = Self::to_reg(reg)?;
        let val = self.next_instruction(InstructionSize::Word)?;
        Ok((reg, val))
    }

    fn fetch_reg_reg(&mut self) -> (r: Result<(Register, Register), Error<SIZE>>)
        requires
            old(self).wf(),
            (old(self).registers@[IP()] as int) < SIZE,
        ensures
            final(self).wf(),
            final(self).memory == old(self).memory,
            ({
                let (ip, x) = spec_reg_reg::<SIZE, A>(old(self).memory@, old(self).registers@[IP()]);
                final(self).registers@ == old(self).registers@.update(IP(), ip) && r == x
            }),
            r is Ok ==> (final(self).registers@[IP()] as int) < SIZE,
    {
        let r1 = self.next_instruction(InstructionSize::Small)?;
        let r1 = Self::to_reg(r1)?;
        let r2 = self.next_instruction(InstructionSize::Small)?;
        let r2 = Self::to_reg(r2)?;
        Ok((r1, r2))
    }

    fn fetch_reg_reg_late(&mut self) -> (r: Result<(Register, Register), Error<SIZE>>)
        requires
            old(self).wf(),
            (old(self).registers@[IP()] as int) < SIZE,
        ensures
            final(self).wf(),
            final(self).memory == old(self).memory,
            ({
                let (ip, x) = spec_reg_reg_late::<SIZE, A>(old(self).memory@, old(self).registers@[IP()]);
                final(self).registers@ == old(self).registers@.update(IP(), ip) && r == x
            }),
            r is Ok ==> (final(self).registers@[IP()] as int) < SIZE,
    {
        let r1 = self.next_instruction(InstructionSize::Small)?;
        let r2 = self.next_instruction(InstructionSize::Small)?;
        let r1 = Self::to_reg(r1)?;
        let r2 = Self::to_reg(r2)?;
        Ok((r1, r2))
    }

    fn fetch_addr_reg(&mut self) -> (r: Result<(Word<SIZE>, Register), Error<SIZE>>)
        requires
            old(self).wf(),
            (old(self).registers@[IP()] as int) < SIZE,
        ensures
            final(self).wf(),
            final(self).memory == old(self).memory,
            ({
                let (ip, x) = spec_addr_reg::<SIZE, A>(old(self).memory@, old(self).registers@[IP()]);
                final(self).registers@ == old(self).registers@.update(IP(), ip) && r == x
            }),
            r is Ok ==> (final(self).registers@[IP()] as int) < SIZE,
    {
        let address = self.next_instruction(InstructionSize::Word)?;
        let address = Self::to_addr(address)?;
        let reg = self.next_instruction(InstructionSize::Small)?;
        let reg = Self::to_reg(reg)?;
        Ok((address, reg))
    }

    fn fetch_addr_lit(&mut self) -> (r: Result<(Word<SIZE>, u16), Error<SIZE>>)
        requires
            old(self).wf(),
            (old(self).registers@[IP()] as int) < SIZE,
        ensures
            final(self).wf(),
            final(self).memory == old(self).memory,
            ({
                let (ip, x) = spec_addr_lit::<SIZE, A>(old(self).memory@, old(self).registers@[IP()]);
                final(self).registers@ == old(self).registers@.update(IP(), ip) && r == x
            }),
            r is Ok ==> (final(self).registers@[IP()] as int) < SIZE,
    {
        let address = self.next_instruction(InstructionSize::Word)?;
        let address = Self::to_addr(address)?;
        let val = self.next_instruction(InstructionSize::Word)?;
        Ok((address, val))
    }

    fn fetch_reg_addr(&mut self) -> (r: Result<(Register, Word<SIZE>), Error<SIZE>>)
        requires
            old(self).wf(),
            (old(self).registers@[IP()] as int) < SIZE,
        ensures
            final(self).wf(),
            final(self).memory == old(self).memory,
            ({
                let (ip, x) = spec_reg_addr::<SIZE, A>(old(self).memory@, old(self).registers@[IP()]);
                final(self).registers@ == old(self).registers@.update(IP(), ip) && r == x
            }),
            r is Ok ==> (final(self).registers@[IP()] as int) < SIZE,
    {
        let reg = self.next_instruction(InstructionSize::Small)?;
        let reg = Self::to_reg(reg)?;
        let address = self.next_instruction(InstructionSize::Word)?;
        let address = Self::to_addr(address)?;
        Ok((reg, address))
    }

    fn fetch_one_reg(&mut self) -> (r: Result<Register, Error<SIZE>>)
        requires
            old(self).wf(),
            (old(self).registers@[IP()] as int) < SIZE,
        ensures
            final(self).wf(),
            final(self).memory == old(self).memory,
            ({
                let (ip, x) = spec_one_reg::<SIZE, A>(old(self).memory@, old(self).registers@[IP()]);
                final(self).registers@ == old(self).registers@.update(IP(), ip) && r == x
            }),
            r is Ok ==> (final(self).registers@[IP()] as int) < SIZE,
    {
        let reg = self.next_instruction(InstructionSize::Small)?;
        Self::to_reg(reg)
    }

    fn fetch_one_addr(&mut self) -> (r: Result<Word<SIZE>, Error<SIZE>>)
        requires
            old(self).wf(),
            (old(self).registers@[IP()] as int) < SIZE,
        ensures
            final(self).wf(),
            final(self).memory == old(self).memory,
            ({
                let (ip, x) = spec_one_addr::<SIZE, A>(old(self).memory@, old(self).registers@[IP()]);
                final(self).registers@ == old(self).registers@.update(IP(), ip) && r == x
            }),
            r is Ok ==> (final(self).registers@[IP()] as int) < SIZE,
    {
        let address = self.next_instruction(InstructionSize::Word)?;
        Self::to_addr(address)
    }

    fn fetch_jump_lit(&mut self) -> (r: Result<(Word<SIZE>, u16), Error<SIZE>>)
        requires
            old(self).wf(),
            (old(self).registers@[IP()] as int) < SIZE,
        ensures
            final(self).wf(),
            final(self).memory == old(self).memory,
            ({
                let (ip, x) = spec_jump_lit::<SIZE, A>(old(self).memory@, old(self).registers@[IP()]);
                final(self).registers@ == old(self).registers@.update(IP(), ip) && r == x
            }),
            r is Ok ==> (final(self).registers@[IP()] as int) < SIZE,
    {
        let jump_to = self.next_instruction(InstructionSize::Word)?;
        let literal = self.next_instruction(InstructionSize::Word)?;
        let jump_to = Self::to_addr(jump_to)?;
        Ok((jump_to, literal))
    }

    fn fetch_jump_reg(&mut self) -> (r: Result<(Word<SIZE>, Register), Error<SIZE>>)
        requires
            old(self).wf(),
            (old(self).registers@[IP()] as int) < SIZE,
        ensures
            final(self).wf(),
            final(self).memory == old(self).memory,
            ({
                let (ip, x) = spec_jump_reg::<SIZE, A>(old(self).memory@, old(self).registers@[IP()]);
                final(self).registers@ == old(self).registers@.update(IP(), ip) && r == x
            }),
            r is Ok ==> (final(self).registers@[IP()] as int) < SIZE,
    {
        let jump_to = self.next_instruction(InstructionSize::Word)?;
        let reg = self.next_instruction(InstructionSize::Small)?;
        let reg = Self::to_reg(reg)?;
        let jump_to = Self::to_addr(jump_to)?;
        Ok((jump_to, reg))
    }

    /// A register named by machine code.
    fn to_reg(v: u16) -> (r: Result<Register, Error<SIZE>>)
        ensures
            r == spec_reg::<SIZE>(v),
    {
        match Register::try_from(v) {
            Ok(r) => Ok(r),
            Err(e) => Err(Error::Register(e)),
        }
    }

    /// An address named by machine code.
    fn to_addr(v: u16) -> (r: Result<Word<SIZE>, Error<SIZE>>)
        ensures
            r == spec_addr::<SIZE>(v),
    {
        match Word::<SIZE>::try_from(v) {
            Ok(w) => {
                proof {
                    Word::<SIZE>::lemma_spec_new(w);
                }
                Ok(w)
            },
            Err(e) => Err(Error::Mem(e)),
        }
    }

    /// Executes one instruction.
    pub fn execute(&mut self, instruction: Instruction<SIZE>) -> (r: Result<ExecutionFlow, Error<SIZE>>)
        requires
            old(self).wf(),
            executable(instruction),
        ensures
            keeps_frame(instruction) ==> final(self).wf(),
            (final(self).registers@, final(self).memory@, r) == spec_execute::<SIZE, A>(old(self).registers@, old(self).memory@, instruction),
    {
        if is_jump(&instruction) {
            self.execute_jump(instruction)
        } else if is_control(&instruction) {
            self.execute_control(instruction)
        } else {
            self.execute_data(instruction)
        }
    }

    /// Executes a move or an arithmetic instruction.
    fn execute_data(&mut self, instruction: Instruction<SIZE>) -> (r: Result<ExecutionFlow, Error<SIZE>>)
        requires
            old(self).wf(),
            data_instruction(instruction),
        ensures
            keeps_frame(instruction) ==> final(self).wf(),
            (final(self).registers@, final(self).memory@, r) == spec_execute::<SIZE, A>(old(self).registers@, old(self).memory@, instruction),
    {
        match instruction {
            Instruction::MovLitReg(reg, val) => self.registers.set(reg, val),
            Instruction::MovRegReg(from, to) => {
                let val = self.registers.fetch(from);
                self.registers.set(to, val);
            },
            Instruction::MovRegMem(reg, address) => {
                let val = self.registers.fetch(reg);
                match self.memory.write_word(address, val) {
                    Ok(_) => {},
                    Err(e) => return Err(Error::Mem(e)),
                }
            },
            Instruction::MovLitMem(address, val) => {
                match self.memory.write_word(address, val) {
                    Ok(_) => {},
                    Err(e) => return Err(Error::Mem(e)),
                }
            },
            Instruction::MovMemReg(address, reg) => {
                let value = match self.memory.read_word(address) {
                    Ok(v) => v,
                    Err(e) => return Err(Error::Mem(e)),
                };
                self.registers.set(reg, value);
            },
            Instruction::MovRegPtrReg(from, to) => {
                let val = self.registers.fetch(from);
                let ptr = match Word::<SIZE>::try_from(val) {
                    Ok(p) => p,
                    Err(e) => return Err(Error::Mem(e)),
                };
                let val = match self.memory.read_word(ptr) {
                    Ok(v) => v,
                    Err(e) => return Err(Error::Mem(e)),
                };
                self.registers.set(to, val);
            },
            Instruction::AddRegReg(r1, r2) => {
                let r1_value = self.registers.fetch(r1);
                let r2_value = self.registers.fetch(r2);
                self.registers.set(r1, r1_value.wrapping_add(r2_value));
            },
            Instruction::AddLitReg(reg, lit) => {
                let reg_value = self.registers.fetch(reg);
                self.registers.set(reg, reg_value.wrapping_add(lit));
            },
            Instruction::SubRegReg(r1, r2) => {
                let r1_value = self.registers.fetch(r1);
                let r2_value = self.registers.fetch(r2);
                self.registers.set(r1, r1_value.wrapping_sub(r2_value));
            },
            Instruction::SubLitReg(reg, lit) => {
                let reg_value = self.registers.fetch(reg);
                self.registers.set(reg, reg_value.wrapping_sub(lit));
            },
            Instruction::MulRegReg(r1, r2) => {
                let r1_value = self.registers.fetch(r1);
                let r2_value = self.registers.fetch(r2);
                self.registers.set(r1, r1_value.wrapping_mul(r2_value));
            },
            Instruction::MulLitReg(reg, lit) => {
                let reg_value = self.registers.fetch(reg);
                self.registers.set(reg, reg_value.wrapping_mul(lit));
            },
            Instruction::IncReg(reg) => {
                let reg_val = self.registers.fetch(reg);
                self.registers.set(reg, reg_val.wrapping_add(1));
            },
            Instruction::DecReg(reg) => {
                let reg_val = self.registers.fetch(reg);
                self.registers.set(reg, reg_val.wrapping_sub(1));
            },
            _ => unreached(),
        }
        Ok(ExecutionFlow::Continue)
    }

    /// Executes a conditional jump.
    fn execute_jump(&mut self, instruction: Instruction<SIZE>) -> (r: Result<ExecutionFlow, Error<SIZE>>)
        requires
            old(self).wf(),
            jump_instruction(instruction),
        ensures
            keeps_frame(instruction) ==> final(self).wf(),
            (final(self).registers@, final(self).memory@, r) == spec_execute::<SIZE, A>(old(self).registers@, old(self).memory@, instruction),
    {
        match instruction {
            Instruction::JeqLit(address, lit) => {
                let ret_val = self.registers.fetch(Register::Ret);
                if lit == ret_val {
                    self.registers.set(Register::IP, address.value());
                }
            },
            Instruction::JeqReg(address, reg) => {
                let ret_val = self.registers.fetch(Register::Ret);
                let reg_val = self.registers.fetch(reg);
                if reg_val == ret_val {
                    self.registers.set(Register::IP, address.value());
                }
            },
            Instruction::JgtLit(address, lit) => {
                let ret_val = self.registers.fetch(Register::Ret);
                if lit > ret_val {
                    self.registers.set(Register::IP, address.value());
                }
            },
            Instruction::JgtReg(address, reg) => {
                let ret_val = self.registers.fetch(Register::Ret);
                let reg_val = self.registers.fetch(reg);
                if reg_val > ret_val {
                    self.registers.set(Register::IP, address.value());
                }
            },
            Instruction::JneLit(address, lit) => {
                let ret_val = self.registers.fetch(Register::Ret);
                if lit != ret_val {
                    self.registers.set(Register::IP, address.value());
                }
            },
            Instruction::JneReg(address, reg) => {
                let ret_val = self.registers.fetch(Register::Ret);
                let reg_val = self.registers.fetch(reg);
                if reg_val != ret_val {
                    self.registers.set(Register::IP, address.value());
                }
            },
            Instruction::JgeLit(address, lit) => {
                let ret_val = self.registers.fetch(Register::Ret);
                if lit >= ret_val {
                    self.registers.set(Register::IP, address.value());
                }
            },
            Instruction::JgeReg(address, reg) => {
                let ret_val = self.registers.fetch(Register::Ret);
                let reg_val = self.registers.fetch(reg);
                if reg_val >= ret_val {
                    self.registers.set(Register::IP, address.value());
                }
            },
            Instruction::JleLit(address, lit) => {
                let ret_val = self.registers.fetch(Register::Ret);
                if lit <= ret_val {
                    self.registers.set(Register::IP, address.value());
                }
            },
            Instruction::JleReg(address, reg) => {
                let ret_val = self.registers.fetch(Register::Ret);
                let reg_val = self.registers.fetch(reg);
                if reg_val <= ret_val {
                    self.registers.set(Register::IP, address.value());
                }
            },
            Instruction::JltLit(address, lit) => {
                let ret_val = self.registers.fetch(Register::Ret);
                if lit < ret_val {
                    self.registers.set(Register::IP, address.value());
                }
            },
            Instruction::JltReg(address, reg) => {
                let ret_val = self.registers.fetch(Register::Ret);
                let reg_val = self.registers.fetch(reg);
                if reg_val < ret_val {
                    self.registers.set(Register::IP, address.value());
                }
            },
            _ => unreached(),
        }
        Ok(ExecutionFlow::Continue)
    }

    /// Executes a stack, call or halt instruction.
    fn execute_control(&mut self, instruction: Instruction<SIZE>) -> (r: Result<ExecutionFlow, Error<SIZE>>)
        requires
            old(self).wf(),
            control_instruction(instruction),
        ensures
            keeps_frame(instruction) ==> final(self).wf(),
            (final(self).registers@, final(self).memory@, r) == spec_execute::<SIZE, A>(old(self).registers@, old(self).memory@, instruction),
    {
        match instruction {
            Instruction::PushLit(val) => self.push_stack(val)?,
            Instruction::PopReg(reg) => {
                let val = self.pop_stack()?;
                self.registers.set(reg, val);
            },
            Instruction::Call(address) => self.call_address(address)?,
            Instruction::CallRegPtr(reg) => {
                let address = self.registers.fetch(reg);
                let address = match Word::<SIZE>::try_from(address) {
                    Ok(a) => a,
                    Err(e) => return Err(Error::Mem(e)),
                };
                self.call_address(address)?;
            },
            Instruction::Ret => self.return_from_call()?,
            Instruction::Halt(code) => return Ok(ExecutionFlow::Halt(code)),
            _ => unreached(),
        }
        Ok(ExecutionFlow::Continue)
    }

    /// Returns from a subroutine (see `spec_ret`).
    fn return_from_call(&mut self) -> (r: Result<(), Error<SIZE>>)
        requires
            old(self).wf(),
        ensures
            final(self).wf(),
            final(self).memory == old(self).memory,
            (final(self).registers@, r) == spec_ret::<SIZE, A>(old(self).registers@, old(self).memory@),
    {
        let frame_ptr = self.registers.fetch_word(Register::FP);
        self.registers.set(Register::SP, frame_ptr.value());
        let frame_size = self.pop_stack()?;
        let ip = self.pop_stack()?;
        let r4 = self.pop_stack()?;
        let r3 = self.pop_stack()?;
        let r2 = self.pop_stack()?;
        let r1 = self.pop_stack()?;
        self.registers.set(Register::IP, ip);
        self.registers.set(Register::R4, r4);
        self.registers.set(Register::R3, r3);
        self.registers.set(Register::R2, r2);
        self.registers.set(Register::R1, r1);
        let frame_size = match Word::<SIZE>::try_from(frame_size) {
            Ok(w) => w,
            Err(e) => return Err(Error::Mem(e)),
        };
        let prev_frame_ptr = match frame_ptr.add(&frame_size) {
            Ok(w) => w,
            Err(e) => return Err(Error::Mem(e)),
        };
        self.registers.set(Register::FP, prev_frame_ptr.value());
        Ok(())
    }

    /// Calls the subroutine at `address` (see `spec_call`).
    fn call_address(&mut self, address: Word<SIZE>) -> (r: Result<(), Error<SIZE>>)
        requires
            old(self).wf(),
        ensures
            final(self).wf(),
            (final(self).registers@, final(self).memory@, r) == spec_call::<SIZE, A>(old(self).registers@, old(self).memory@, address.spec_value()),
    {
        let r1 = self.registers.fetch(Register::R1);
        let r2 = self.registers.fetch(Register::R2);
        let r3 = self.registers.fetch(Register::R3);
        let r4 = self.registers.fetch(Register::R4);
        let ip = self.registers.fetch(Register::IP);
        self.push_stack(r1)?;
        self.push_stack(r2)?;
        self.push_stack(r3)?;
        self.push_stack(r4)?;
        self.push_stack(ip)?;
        let stack_ptr = self.registers.fetch_word(Register::SP);
        let frame_ptr = self.registers.fetch_word(Register::FP);
        let next_frame_start = match stack_ptr.prev_word() {
            Ok(w) => w,
            Err(e) => return Err(Error::Mem(e)),
        };
        let frame_size = match frame_ptr.sub(&next_frame_start) {
            Ok(w) => w,
            Err(e) => return Err(Error::Mem(e)),
        };
        match self.memory.write_word(stack_ptr, frame_size.value()) {
            Ok(_) => {},
            Err(e) => return Err(Error::Mem(e)),
        }
        self.registers.set(Register::SP, next_frame_start.value());
        self.registers.set(Register::FP, next_frame_start.value());
        self.registers.set(Register::IP, address.value());
        Ok(())
    }

    /// Pops the word above the stack pointer.
    fn pop_stack(&mut self) -> (r: Result<u16, Error<SIZE>>)
        requires
            old(self).wf(),
        ensures
            final(self).wf(),
            final(self).memory == old(self).memory,
            (final(self).registers@, r) == spec_pop::<SIZE, A>(old(self).registers@, old(self).memory@),
    {
        let stack_ptr = self.registers.fetch_word(Register::SP);
        let next = match stack_ptr.next_word() {
            Ok(w) => w,
            Err(e) => return Err(Error::Mem(e)),
        };
        let val = match self.memory.read_word(next) {
            Ok(v) => v,
            Err(e) => return Err(Error::Mem(e)),
        };
        self.registers.set(Register::SP, next.value());
        Ok(val)
    }

    /// Pushes `val` at the stack pointer.
    fn push_stack(&mut self, val: u16) -> (r: Result<(), Error<SIZE>>)
        requires
            old(self).wf(),
        ensures
            final(self).wf(),
            (final(self).registers@, final(self).memory@, r) == spec_push::<SIZE, A>(old(self).registers@, old(self).memory@, val),
    {
        let stack_ptr = self.registers.fetch_word(Register::SP);
        match self.memory.write_word(stack_ptr, val) {
            Ok(_) => {},
            Err(e) => return Err(Error::Mem(e)),
        }
        let prev = match stack_ptr.prev_word() {
            Ok(w) => w,
            Err(e) => return Err(Error::Mem(e)),
        };
        self.registers.set(Register::SP, prev.value());
        Ok(())
    }

    /// Reads the next operand of the given size at the instruction pointer.
    fn next_instruction(&mut self, size: InstructionSize) -> (r: Result<u16, Error<SIZE>>)
        requires
            old(self).wf(),
            (old(self).registers@[IP()] as int) < SIZE,
        ensures
            final(self).wf(),
            final(self).memory == old(self).memory,
            ({
                let (ip, x) = match size {
                    InstructionSize::Small => spec_read_small::<SIZE, A>(old(self).memory@, old(self).registers@[IP()]),
                    InstructionSize::Word => spec_read_big::<SIZE, A>(old(self).memory@, old(self).registers@[IP()]),
                };
                final(self).registers@ == old(self).registers@.update(IP(), ip) && r == x
            }),
            r is Ok ==> (final(self).registers@[IP()] as int) < SIZE,
    {
        match size {
            InstructionSize::Small => {
                let reg_ptr = self.registers.fetch_word(Register::IP);
                let val = match self.memory.read(reg_ptr) {
                    Ok(v) => v,
                    Err(e) => return Err(Error::Mem(e)),
                };
                let next = match reg_ptr.next() {
                    Ok(n) => n,
                    Err(e) => return Err(Error::Mem(e)),
                };
                self.registers.set(Register::IP, next.value());
                Ok(val as u16)
            },
            InstructionSize::Word => {
                let reg_ptr = self.registers.fetch_word(Register::IP);
                let val = match self.memory.read_word(reg_ptr) {
                    Ok(v) => v,
                    Err(e) => return Err(Error::Mem(e)),
                };
                let next = match reg_ptr.next_word() {
                    Ok(n) => n,
                    Err(e) => return Err(Error::Mem(e)),
                };
                self.registers.set(Register::IP, next.value());
                Ok(val)
            },
        }
    }
}

} // verus!
