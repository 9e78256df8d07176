use vstd::prelude::*;

verus! {

/// A byte that names no operation.
#[derive(Debug, PartialEq, Eq, Structural)]
pub enum Error {
    InvalidValue(u16),
}

/// The operations that assembly names, each with its byte in the bytecode
/// the assembler writes.
#[derive(Debug, Clone, Copy, PartialEq, Eq, Structural)]
pub enum OpCode {
    MovRegReg,
    MovLitReg,
    MovRegMem,
    MovMemReg,
    MovLitMem,
    MovRegPtrReg,
    AddRegReg,
    AddLitReg,
    SubLitReg,
    SubRegReg,
    IncReg,
    DecReg,
    MulLitReg,
    MulRegReg,
    LshRegReg,
    LshLitReg,
    RshRegReg,
    RshLitReg,
    AndRegReg,
    AndLitReg,
    OrRegReg,
    OrLitReg,
    XorRegReg,
    XorLitReg,
    Not,
    PushReg,
    PushLit,
    Pop,
    Call,
    CallRegPtr,
    Ret,
    Jmp,
    JeqLit,
    JeqReg,
    JgtLit,
    JgtReg,
    JneLit,
    JneReg,
    JgeLit,
    JgeReg,
    JleLit,
    JleReg,
    JltLit,
    JltReg,
    Int,
    Rti,
    Halt,
}

impl OpCode {
    /// The byte of each operation.
    pub open spec fn spec_byte(self) -> u8 {
        match self {
            OpCode::MovRegReg => 0x10,
            OpCode::MovLitReg => 0x11,
            OpCode::MovRegMem => 0x12,
            OpCode::MovMemReg => 0x13,
            OpCode::MovLitMem => 0x14,
            OpCode::MovRegPtrReg => 0x15,
            OpCode::AddRegReg => 0x20,
            OpCode::AddLitReg => 0x21,
            OpCode::SubLitReg => 0x22,
            OpCode::SubRegReg => 0x24,
            OpCode::IncReg => 0x25,
            OpCode::DecReg => 0x26,
            OpCode::MulLitReg => 0x27,
            OpCode::MulRegReg => 0x28,
            OpCode::LshRegReg => 0x30,
            OpCode::LshLitReg => 0x31,
            OpCode::RshRegReg => 0x32,
            OpCode::RshLitReg => 0x33,
            OpCode::AndRegReg => 0x34,
            OpCode::AndLitReg => 0x35,
            OpCode::OrRegReg => 0x36,
            OpCode::OrLitReg => 0x37,
            OpCode::XorRegReg => 0x38,
            OpCode::XorLitReg => 0x39,
            OpCode::Not => 0x3a,
            OpCode::PushReg => 0x40,
            OpCode::PushLit => 0x41,
            OpCode::Pop => 0x42,
            OpCode::Call => 0x43,
            OpCode::CallRegPtr => 0x44,
            OpCode::Ret => 0x45,
            OpCode::Jmp => 0x50,
            OpCode::JeqLit => 0x51,
            OpCode::JeqReg => 0x52,
            OpCode::JgtLit => 0x53,
            OpCode::JgtReg => 0x54,
            OpCode::JneLit => 0x55,
            OpCode::JneReg => 0x56,
            OpCode::JgeLit => 0x57,
            OpCode::JgeReg => 0x58,
            OpCode::JleLit => 0x59,
            OpCode::JleReg => 0x5a,
            OpCode::JltLit => 0x5b,
            OpCode::JltReg => 0x5c,
            OpCode::Int => 0xfd,
            OpCode::Rti => 0xfe,
            OpCode::Halt => 0xff,
        }
    }

    /// The operation whose byte is `value`, where there is one.
    pub open spec fn spec_try_from(value: u16) -> Option<OpCode> {
        if value == 0x10 { Some(OpCode::MovRegReg) }
        else if value == 0x11 { Some(OpCode::MovLitReg) }
        else if value == 0x12 { Some(OpCode::MovRegMem) }
        else if value == 0x13 { Some(OpCode::MovMemReg) }
        else if value == 0x14 { Some(OpCode::MovLitMem) }
        else if value == 0x15 { Some(OpCode::MovRegPtrReg) }
        else if value == 0x20 { Some(OpCode::AddRegReg) }
        else if value == 0x21 { Some(OpCode::AddLitReg) }
        else if value == 0x22 { Some(OpCode::SubLitReg) }
        else if value == 0x24 { Some(OpCode::SubRegReg) }
        else if value == 0x25 { Some(OpCode::IncReg) }
        else if value == 0x26 { Some(OpCode::DecReg) }
        else if value == 0x27 { Some(OpCode::MulLitReg) }
        else if value == 0x28 { Some(OpCode::MulRegReg) }
        else if value == 0x30 { Some(OpCode::LshRegReg) }
        else if value == 0x31 { Some(OpCode::LshLitReg) }
        else if value == 0x32 { Some(OpCode::RshRegReg) }
        else if value == 0x33 { Some(OpCode::RshLitReg) }
        else if value == 0x34 { Some(OpCode::AndRegReg) }
        else if value == 0x35 { Some(OpCode::AndLitReg) }
        else if value == 0x36 { Some(OpCode::OrRegReg) }
        else if value == 0x37 { Some(OpCode::OrLitReg) }
        else if value == 0x38 { Some(OpCode::XorRegReg) }
        else if value == 0x39 { Some(OpCode::XorLitReg) }
        else if value == 0x3a { Some(OpCode::Not) }
        else if value == 0x40 { Some(OpCode::PushReg) }
        else if value == 0x41 { Some(OpCode::PushLit) }
        else if value == 0x42 { Some(OpCode::Pop) }
        else if value == 0x43 { Some(OpCode::Call) }
        else if value == 0x44 { Some(OpCode::CallRegPtr) }
        else if value == 0x45 { Some(OpCode::Ret) }
        else if value == 0x50 { Some(OpCode::Jmp) }
        else if value == 0x51 { Some(OpCode::JeqLit) }
        else if value == 0x52 { Some(OpCode::JeqReg) }
        else if value == 0x53 { Some(OpCode::JgtLit) }
        else if value == 0x54 { Some(OpCode::JgtReg) }
        else if value == 0x55 { Some(OpCode::JneLit) }
        else if value == 0x56 { Some(OpCode::JneReg) }
        else if value == 0x57 { Some(OpCode::JgeLit) }
        else if value == 0x58 { Some(OpCode::JgeReg) }
        else if value == 0x59 { Some(OpCode::JleLit) }
        else if value == 0x5a { Some(OpCode::JleReg) }
        else if value == 0x5b { Some(OpCode::JltLit) }
        else if value == 0x5c { Some(OpCode::JltReg) }
        else if value == 0xfd { Some(OpCode::Int) }
        else if value == 0xfe { Some(OpCode::Rti) }
        else if value == 0xff { Some(OpCode::Halt) }
        else { None }
    }

    /// The operation whose byte is `value`, or `InvalidValue`.
    pub fn try_from(value: u16) -> (r: Result<OpCode, Error>)
        ensures
            match Self::spec_try_from(value) {
                Some(op) => r == Ok::<OpCode, Error>(op),
                None => r == Err::<OpCode, Error>(Error::InvalidValue(value)),
            },
    {
        match value {
            0x10 => Ok(OpCode::MovRegReg),
            0x11 => Ok(OpCode::MovLitReg),
            0x12 => Ok(OpCode::MovRegMem),
            0x13 => Ok(OpCode::MovMemReg),
            0x14 => Ok(OpCode::MovLitMem),
            0x15 => Ok(OpCode::MovRegPtrReg),
            0x20 => Ok(OpCode::AddRegReg),
            0x21 => Ok(OpCode::AddLitReg),
            0x22 => Ok(OpCode::SubLitReg),
            0x24 => Ok(OpCode::SubRegReg),
            0x25 => Ok(OpCode::IncReg),
            0x26 => Ok(OpCode::DecReg),
            0x27 => Ok(OpCode::MulLitReg),
            0x28 => Ok(OpCode::MulRegReg),
            0x30 => Ok(OpCode::LshRegReg),
            0x31 => Ok(OpCode::LshLitReg),
            0x32 => Ok(OpCode::RshRegReg),
            0x33 => Ok(OpCode::RshLitReg),
            0x34 => Ok(OpCode::AndRegReg),
            0x35 => Ok(OpCode::AndLitReg),
            0x36 => Ok(OpCode::OrRegReg),
            0x37 => Ok(OpCode::OrLitReg),
            0x38 => Ok(OpCode::XorRegReg),
            0x39 => Ok(OpCode::XorLitReg),
            0x3a => Ok(OpCode::Not),
            0x40 => Ok(OpCode::PushReg),
            0x41 => Ok(OpCode::PushLit),
            0x42 => Ok(OpCode::Pop),
            0x43 => Ok(OpCode::Call),
            0x44 => Ok(OpCode::CallRegPtr),
            0x45 => Ok(OpCode::Ret),
            0x50 => Ok(OpCode::Jmp),
            0x51 => Ok(OpCode::JeqLit),
            0x52 => Ok(OpCode::JeqReg),
            0x53 => Ok(OpCode::JgtLit),
            0x54 => Ok(OpCode::JgtReg),
            0x55 => Ok(OpCode::JneLit),
            0x56 => Ok(OpCode::JneReg),
            0x57 => Ok(OpCode::JgeLit),
            0x58 => Ok(OpCode::JgeReg),
            0x59 => Ok(OpCode::JleLit),
            0x5a => Ok(OpCode::JleReg),
            0x5b => Ok(OpCode::JltLit),
            0x5c => Ok(OpCode::JltReg),
            0xfd => Ok(OpCode::Int),
            0xfe => Ok(OpCode::Rti),
            0xff => Ok(OpCode::Halt),
            v => Err(Error::InvalidValue(v)),
        }
    }

    /// The byte of this operation.
    pub fn byte(&self) -> (b: u8)
        ensures
            b == self.spec_byte(),
    {
        match self {
            OpCode::MovRegReg => 0x10,
            OpCode::MovLitReg => 0x11,
            OpCode::MovRegMem => 0x12,
            OpCode::MovMemReg => 0x13,
            OpCode::MovLitMem => 0x14,
            OpCode::MovRegPtrReg => 0x15,
            OpCode::AddRegReg => 0x20,
            OpCode::AddLitReg => 0x21,
            OpCode::SubLitReg => 0x22,
            OpCode::SubRegReg => 0x24,
            OpCode::IncReg => 0x25,
            OpCode::DecReg => 0x26,
            OpCode::MulLitReg => 0x27,
            OpCode::MulRegReg => 0x28,
            OpCode::LshRegReg => 0x30,
            OpCode::LshLitReg => 0x31,
            OpCode::RshRegReg => 0x32,
            OpCode::RshLitReg => 0x33,
            OpCode::AndRegReg => 0x34,
            OpCode::AndLitReg => 0x35,
            OpCode::OrRegReg => 0x36,
            OpCode::OrLitReg => 0x37,
            OpCode::XorRegReg => 0x38,
            OpCode::XorLitReg => 0x39,
            OpCode::Not => 0x3a,
            OpCode::PushReg => 0x40,
            OpCode::PushLit => 0x41,
            OpCode::Pop => 0x42,
            OpCode::Call => 0x43,
            OpCode::CallRegPtr => 0x44,
            OpCode::Ret => 0x45,
            OpCode::Jmp => 0x50,
            OpCode::JeqLit => 0x51,
            OpCode::JeqReg => 0x52,
            OpCode::JgtLit => 0x53,
            OpCode::JgtReg => 0x54,
            OpCode::JneLit => 0x55,
            OpCode::JneReg => 0x56,
            OpCode::JgeLit => 0x57,
            OpCode::JgeReg => 0x58,
            OpCode::JleLit => 0x59,
            OpCode::JleReg => 0x5a,
            OpCode::JltLit => 0x5b,
            OpCode::JltReg => 0x5c,
            OpCode::Int => 0xfd,
            OpCode::Rti => 0xfe,
            OpCode::Halt => 0xff,
        }
    }
}

/// Reading back the byte of an operation gives the operation.
pub proof fn lemma_opcode_byte_roundtrip(op: OpCode)
    ensures
        OpCode::spec_try_from(op.spec_byte() as u16) == Some(op),
{
}

} // verus!
