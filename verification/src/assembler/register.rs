use vstd::prelude::*;

verus! {

/// A register number or name that assembly may not use.
#[derive(Debug, PartialEq, Eq, Structural)]
pub enum Error {
    /// no register has this number
    InvalidRegister(u16),
    /// the register exists but machine code may not name it
    ForbiddenRegister(Register),
    /// no register has this name
    UnknownName,
}

/// The registers that assembly names, each with its number in the bytecode
/// the assembler writes.
#[derive(Debug, Copy, Clone, PartialEq, Eq, Structural)]
pub enum Register {
    Acc,
    IP,
    R1,
    R2,
    R3,
    R4,
    R5,
    R6,
    R7,
    R8,
    SP,
    FP,
    IM,
}

/// The lower-case ASCII form of a byte.
pub open spec fn ascii_lower(b: u8) -> u8 {
    if 65 <= b <= 90 {
        (b + 32) as u8
    } else {
        b
    }
}

/// The lower-case ASCII form of a byte string.
pub open spec fn lower_bytes(s: Seq<u8>) -> Seq<u8> {
    s.map_values(|b: u8| ascii_lower(b))
}

/// The lower-case ASCII form of a byte.
pub fn to_ascii_lower(b: u8) -> (r: u8)
    ensures
        r == ascii_lower(b),
{
    if 65 <= b && b <= 90 {
        b + 32
    } else {
        b
    }
}

/// Whether `b` spells `name` with any case of letters; `name` is lower case.
pub fn eq_ignore_case(b: &[u8], name: &[u8]) -> (r: bool)
    ensures
        r == (lower_bytes(b@) == name@),
{
    if b.len() != name.len() {
        assert(lower_bytes(b@).len() != name@.len());
        return false;
    }
    let mut i: usize = 0;
    while i < b.len()
        invariant
            i <= b@.len(),
            b@.len() == name@.len(),
            forall|j: int| 0 <= j < i ==> ascii_lower(#[trigger] b@[j]) == name@[j],
        decreases b@.len() - i,
    {
        if to_ascii_lower(b[i]) != name[i] {
            assert(lower_bytes(b@)[i as int] != name@[i as int]);
            return false;
        }
        i = i + 1;
    }
    assert(lower_bytes(b@) =~= name@);
    true
}

impl Register {
    /// The number of each register.
    pub open spec fn spec_index(self) -> nat {
        match self {
            Register::Acc => 0,
            Register::IP => 1,
            Register::R1 => 2,
            Register::R2 => 3,
            Register::R3 => 4,
            Register::R4 => 5,
            Register::R5 => 6,
            Register::R6 => 7,
            Register::R7 => 8,
            Register::R8 => 9,
            Register::SP => 10,
            Register::FP => 11,
            Register::IM => 12,
        }
    }

    /// The number of this register.
    pub fn index(&self) -> (i: usize)
        ensures
            i == self.spec_index(),
    {
        match self {
            Register::Acc => 0,
            Register::IP => 1,
            Register::R1 => 2,
            Register::R2 => 3,
            Register::R3 => 4,
            Register::R4 => 5,
            Register::R5 => 6,
            Register::R6 => 7,
            Register::R7 => 8,
            Register::R8 => 9,
            Register::SP => 10,
            Register::FP => 11,
            Register::IM => 12,
        }
    }

    /// The number of this register as a byte of machine code.
    pub fn byte(&self) -> (b: u8)
        ensures
            b == self.spec_index(),
    {
        self.index() as u8
    }

    /// The register that machine code names by `value`; the instruction pointer
    /// and the numbers eleven and twelve are refused, as is every number past them.
    pub open spec fn spec_try_from(value: u16) -> Result<Register, Error> {
        if value == 0 { Ok(Register::Acc) }
        else if value == 2 { Ok(Register::R1) }
        else if value == 3 { Ok(Register::R2) }
        else if value == 4 { Ok(Register::R3) }
        else if value == 5 { Ok(Register::R4) }
        else if value == 6 { Ok(Register::R5) }
        else if value == 7 { Ok(Register::R6) }
        else if value == 8 { Ok(Register::R7) }
        else if value == 9 { Ok(Register::R8) }
        else if value == 1 { Err(Error::ForbiddenRegister(Register::IP)) }
        else if value == 11 { Err(Error::ForbiddenRegister(Register::SP)) }
        else if value == 12 { Err(Error::ForbiddenRegister(Register::FP)) }
        else { Err(Error::InvalidRegister(value)) }
    }

    /// The register that machine code names by `value`, or the reason it may not.
    pub fn try_from(value: u16) -> (r: Result<Register, Error>)
        ensures
            r == Self::spec_try_from(value),
    {
        match value {
            0 => Ok(Register::Acc),
            2 => Ok(Register::R1),
            3 => Ok(Register::R2),
            4 => Ok(Register::R3),
            5 => Ok(Register::R4),
            6 => Ok(Register::R5),
            7 => Ok(Register::R6),
            8 => Ok(Register::R7),
            9 => Ok(Register::R8),
            1 => Err(Error::ForbiddenRegister(Register::IP)),
            11 => Err(Error::ForbiddenRegister(Register::SP)),
            12 => Err(Error::ForbiddenRegister(Register::FP)),
            v => Err(Error::InvalidRegister(v)),
        }
    }

    /// The name of each register in assembly, lower case.
    pub open spec fn spec_name(self) -> Seq<u8> {
        match self {
            Register::Acc => seq![97u8, 99u8, 99u8],
            Register::IP => seq![105u8, 112u8],
            Register::R1 => seq![114u8, 49u8],
            Register::R2 => seq![114u8, 50u8],
            Register::R3 => seq![114u8, 51u8],
            Register::R4 => seq![114u8, 52u8],
            Register::R5 => seq![114u8, 53u8],
            Register::R6 => seq![114u8, 54u8],
            Register::R7 => seq![114u8, 55u8],
            Register::R8 => seq![114u8, 56u8],
            Register::SP => seq![115u8, 112u8],
            Register::FP => seq![102u8, 112u8],
            Register::IM => seq![105u8, 109u8],
        }
    }

    /// The register spelt `name` in any case of letters, where there is one.
    pub open spec fn spec_from_name(name: Seq<u8>) -> Option<Register> {
        let l = lower_bytes(name);
        if l == Register::Acc.spec_name() { Some(Register::Acc) }
        else if l == Register::IP.spec_name() { Some(Register::IP) }
        else if l == Register::R1.spec_name() { Some(Register::R1) }
        else if l == Register::R2.spec_name() { Some(Register::R2) }
        else if l == Register::R3.spec_name() { Some(Register::R3) }
        else if l == Register::R4.spec_name() { Some(Register::R4) }
        else if l == Register::R5.spec_name() { Some(Register::R5) }
        else if l == Register::R6.spec_name() { Some(Register::R6) }
        else if l == Register::R7.spec_name() { Some(Register::R7) }
        else if l == Register::R8.spec_name() { Some(Register::R8) }
        else if l == Register::SP.spec_name() { Some(Register::SP) }
        else if l == Register::FP.spec_name() { Some(Register::FP) }
        else if l == Register::IM.spec_name() { Some(Register::IM) }
        else { None }
    }

    /// The register that assembly names `name` (`r1`, `ACC`, ...), or `UnknownName`.
    pub fn from_name(name: &[u8]) -> (r: Result<Register, Error>)
        ensures
            match Self::spec_from_name(name@) {
                Some(reg) => r == Ok::<Register, Error>(reg),
                None => r == Err::<Register, Error>(Error::UnknownName),
            },
    {
        if eq_ignore_case(name, &[97u8, 99u8, 99u8]) {
            return Ok(Register::Acc);
        }
        if eq_ignore_case(name, &[105u8, 112u8]) {
            return Ok(Register::IP);
        }
        if eq_ignore_case(name, &[114u8, 49u8]) {
            return Ok(Register::R1);
        }
        if eq_ignore_case(name, &[114u8, 50u8]) {
            return Ok(Register::R2);
        }
        if eq_ignore_case(name, &[114u8, 51u8]) {
            return Ok(Register::R3);
        }
        if eq_ignore_case(name, &[114u8, 52u8]) {
            return Ok(Register::R4);
        }
        if eq_ignore_case(name, &[114u8, 53u8]) {
            return Ok(Register::R5);
        }
        if eq_ignore_case(name, &[114u8, 54u8]) {
            return Ok(Register::R6);
        }
        if eq_ignore_case(name, &[114u8, 55u8]) {
            return Ok(Register::R7);
        }
        if eq_ignore_case(name, &[114u8, 56u8]) {
            return Ok(Register::R8);
        }
        if eq_ignore_case(name, &[115u8, 112u8]) {
            return Ok(Register::SP);
        }
        if eq_ignore_case(name, &[102u8, 112u8]) {
            return Ok(Register::FP);
        }
        if eq_ignore_case(name, &[105u8, 109u8]) {
            return Ok(Register::IM);
        }
        Err(Error::UnknownName)
    }
}

} // verus!
