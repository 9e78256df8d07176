use vstd::prelude::*;

use crate::word::Word;

verus! {

/// A register number that machine code may not use.
#[derive(Debug, PartialEq, Eq, Structural)]
pub enum Error {
    /// no register has this number
    InvalidRegister(u16),
    /// the register exists but machine code may not name it
    ForbiddenRegister(Register),
}

/// The registers of the machine, each with its number; `Ret` holds results
/// and is what the conditional jumps compare against.
#[derive(Debug, Copy, Clone, PartialEq, Eq, Structural)]
pub enum Register {
    Ret,
    IP,
    R1,
    R2,
    R3,
    R4,
    R5,
    R6,
    R7,
    R8,
    SP,
    FP,
}

impl Register {
    /// The number of each register.
    pub open spec fn spec_index(self) -> nat {
        match self {
            Register::Ret => 0,
            Register::IP => 1,
            Register::R1 => 2,
            Register::R2 => 3,
            Register::R3 => 4,
            Register::R4 => 5,
            Register::R5 => 6,
            Register::R6 => 7,
            Register::R7 => 8,
            Register::R8 => 9,
            Register::SP => 10,
            Register::FP => 11,
        }
    }

    /// The number of this register.
    pub fn index(&self) -> (i: usize)
        ensures
            i == self.spec_index(),
    {
        match self {
            Register::Ret => 0,
            Register::IP => 1,
            Register::R1 => 2,
            Register::R2 => 3,
            Register::R3 => 4,
            Register::R4 => 5,
            Register::R5 => 6,
            Register::R6 => 7,
            Register::R7 => 8,
            Register::R8 => 9,
            Register::SP => 10,
            Register::FP => 11,
        }
    }

    /// The number of this register as a word.
    pub fn number(&self) -> (n: u16)
        ensures
            n == self.spec_index(),
    {
        self.index() as u16
    }

    /// How many registers there are.
    pub fn len() -> (n: usize)
        ensures
            n == 12,
    {
        12
    }

    /// Whether there are no registers.
    pub fn is_empty() -> (b: bool)
        ensures
            !b,
    {
        Register::len() == 0
    }

    /// Every register, each once, in the order of their numbers.
    pub fn iter() -> (v: Vec<Register>)
        ensures
            v@.len() == 12,
            forall|i: int| 0 <= i < 12 ==> (#[trigger] v@[i]).spec_index() == i,
    {
        let v = vec![
            Register::Ret,
            Register::IP,
            Register::R1,
            Register::R2,
            Register::R3,
            Register::R4,
            Register::R5,
            Register::R6,
            Register::R7,
            Register::R8,
            Register::SP,
            Register::FP,
        ];
        v
    }

    /// The register that machine code names by `value`: the instruction
    /// pointer and the numbers eleven and twelve are refused, as is every
    /// number past them and ten.
    pub open spec fn spec_try_from(value: u16) -> Result<Register, Error> {
        if value == 0 { Ok(Register::Ret) }
        else if value == 2 { Ok(Register::R1) }
        else if value == 3 { Ok(Register::R2) }
        else if value == 4 { Ok(Register::R3) }
        else if value == 5 { Ok(Register::R4) }
        else if value == 6 { Ok(Register::R5) }
        else if value == 7 { Ok(Register::R6) }
        else if value == 8 { Ok(Register::R7) }
        else if value == 9 { Ok(Register::R8) }
        else if value == 1 { Err(Error::ForbiddenRegister(Register::IP)) }
        else if value == 11 { Err(Error::ForbiddenRegister(Register::SP)) }
        else if value == 12 { Err(Error::ForbiddenRegister(Register::FP)) }
        else { Err(Error::InvalidRegister(value)) }
    }

    /// The register that machine code names by `value`, or the reason it may not.
    pub fn try_from(value: u16) -> (r: Result<Register, Error>)
        ensures
            r == Self::spec_try_from(value),
    {
        match value {
            0 => Ok(Register::Ret),
            2 => Ok(Register::R1),
            3 => Ok(Register::R2),
            4 => Ok(Register::R3),
            5 => Ok(Register::R4),
            6 => Ok(Register::R5),
            7 => Ok(Register::R6),
            8 => Ok(Register::R7),
            9 => Ok(Register::R8),
            1 => Err(Error::ForbiddenRegister(Register::IP)),
            11 => Err(Error::ForbiddenRegister(Register::SP)),
            12 => Err(Error::ForbiddenRegister(Register::FP)),
            v => Err(Error::InvalidRegister(v)),
        }
    }
}

/// The register file of a machine with `WORD_SIZE` bytes of memory.
#[derive(Debug)]
pub struct Registers<const WORD_SIZE: usize> {
    inner: [u16; 12],
}

impl<const WORD_SIZE: usize> View for Registers<WORD_SIZE> {
    type V = Seq<u16>;

    closed spec fn view(&self) -> Seq<u16> {
        self.inner@
    }
}

impl<const WORD_SIZE: usize> Registers<WORD_SIZE> {
    /// All registers zero but the stack and frame pointers, which point at the
    /// last word of the memory.
    pub fn new() -> (r: Self)
        requires
            2 <= WORD_SIZE <= 0x10000,
        ensures
            r@ == Seq::new(12, |i: int| if i == 10 || i == 11 { (WORD_SIZE - 2) as u16 } else { 0u16 }),
    {
        let mut registers = Registers { inner: [0u16; 12] };
        registers.inner[11] = (WORD_SIZE - 2) as u16;
        registers.inner[10] = (WORD_SIZE - 2) as u16;
        assert(registers@ =~= Seq::new(12, |i: int| if i == 10 || i == 11 { (WORD_SIZE - 2) as u16 } else { 0u16 }));
        registers
    }

    /// The number of registers held.
    pub proof fn lemma_len(&self)
        ensures
            self@.len() == 12,
    {
    }

    /// The value of a register that holds an address.
    pub fn fetch_word(&self, register: Register) -> (w: Word<WORD_SIZE>)
        requires
            register == Register::IP || register == Register::SP || register == Register::FP,
            (self@[register.spec_index() as int] as int) < WORD_SIZE,
        ensures
            w.spec_value() == self@[register.spec_index() as int],
    {
        let word = self.inner[register.index()];
        match Word::try_from(word) {
            Ok(w) => w,
            Err(_) => unreached(),
        }
    }

    /// The value of a register.
    pub fn fetch(&self, register: Register) -> (v: u16)
        ensures
            v == self@[register.spec_index() as int],
    {
        self.inner[register.index()]
    }

    /// Stores `value` in a register.
    pub fn set(&mut self, register: Register, value: u16)
        ensures
            final(self)@ == old(self)@.update(register.spec_index() as int, value),
    {
        self.inner[register.index()] = value;
    }
}

} // verus!
