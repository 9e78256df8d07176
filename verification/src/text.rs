//! Assembly text as bytes: the names of registers and operations, and the
//! shapes of the lines that the code generator writes.
use vstd::prelude::*;

use crate::parser::ast::Operator;
use crate::assembler::register::Register;

verus! {

/// The upper-case ASCII form of a byte.
pub open spec fn ascii_upper(b: u8) -> u8 {
    if 97 <= b <= 122 {
        (b - 32) as u8
    } else {
        b
    }
}

/// The upper-case ASCII form of a byte string.
pub open spec fn upper(s: Seq<u8>) -> Seq<u8> {
    s.map_values(|b: u8| ascii_upper(b))
}

/// The name of a register in generated code.
pub open spec fn reg_name(r: Register) -> Seq<u8> {
    match r {
        Register::Acc => seq![65u8, 67u8, 67u8],
        Register::IP => seq![73u8, 80u8],
        Register::R1 => seq![82u8, 49u8],
        Register::R2 => seq![82u8, 50u8],
        Register::R3 => seq![82u8, 51u8],
        Register::R4 => seq![82u8, 52u8],
        Register::R5 => seq![82u8, 53u8],
        Register::R6 => seq![82u8, 54u8],
        Register::R7 => seq![82u8, 55u8],
        Register::R8 => seq![82u8, 56u8],
        Register::SP => seq![83u8, 80u8],
        Register::FP => seq![70u8, 80u8],
        Register::IM => seq![73u8, 77u8],
    }
}

/// The name of an operator in generated code.
pub open spec fn op_name(o: Operator) -> Seq<u8> {
    match o {
        Operator::Add => seq![65u8, 68u8, 68u8],
        Operator::Sub => seq![83u8, 85u8, 66u8],
        Operator::Mul => seq![77u8, 85u8, 76u8],
    }
}

/// `p a, b`.
pub open spec fn line2(p: Seq<u8>, a: Seq<u8>, b: Seq<u8>) -> Seq<u8> {
    p + seq![32u8] + a + seq![44u8, 32u8] + b
}

/// `p a`.
pub open spec fn line1(p: Seq<u8>, a: Seq<u8>) -> Seq<u8> {
    p + seq![32u8] + a
}

/// `&[a]`.
pub open spec fn bracket(a: Seq<u8>) -> Seq<u8> {
    seq![38u8, 91u8] + a + seq![93u8]
}

/// Whether every byte is ASCII.
pub open spec fn ascii(s: Seq<u8>) -> bool {
    forall|i: int| 0 <= i < s.len() ==> #[trigger] s[i] < 128
}

/// Joining two ASCII strings gives an ASCII string.
pub proof fn lemma_ascii_add(a: Seq<u8>, b: Seq<u8>)
    requires
        ascii(a),
        ascii(b),
    ensures
        ascii(a + b),
{
    assert forall|i: int| 0 <= i < (a + b).len() implies #[trigger] (a + b)[i] < 128 by {
        if i < a.len() {
            assert((a + b)[i] == a[i]);
        } else {
            assert((a + b)[i] == b[i - a.len()]);
        }
    }
}

/// The upper-case form of an ASCII string is ASCII.
pub proof fn lemma_ascii_upper(s: Seq<u8>)
    requires
        ascii(s),
    ensures
        ascii(upper(s)),
{
    assert forall|i: int| 0 <= i < upper(s).len() implies #[trigger] upper(s)[i] < 128 by {
        assert(s[i] < 128);
    }
}

/// The names of registers and operators are ASCII.
pub proof fn lemma_names_ascii(r: Register, o: Operator)
    ensures
        ascii(reg_name(r)),
        ascii(op_name(o)),
{
}

/// The shapes of lines keep ASCII text ASCII.
pub proof fn lemma_lines_ascii(p: Seq<u8>, a: Seq<u8>, b: Seq<u8>)
    requires
        ascii(p),
        ascii(a),
        ascii(b),
    ensures
        ascii(line1(p, a)),
        ascii(line2(p, a, b)),
        ascii(bracket(a)),
{
    assert(ascii(seq![32u8]));
    assert(ascii(seq![44u8, 32u8]));
    assert(ascii(seq![38u8, 91u8]));
    assert(ascii(seq![93u8]));
    lemma_ascii_add(p, seq![32u8]);
    lemma_ascii_add(p + seq![32u8], a);
    lemma_ascii_add(p + seq![32u8] + a, seq![44u8, 32u8]);
    lemma_ascii_add(p + seq![32u8] + a + seq![44u8, 32u8], b);
    lemma_ascii_add(seq![38u8, 91u8], a);
    lemma_ascii_add(seq![38u8, 91u8] + a, seq![93u8]);
}

/// ASCII text is valid UTF-8.
pub proof fn lemma_ascii_utf8(s: Seq<u8>)
    requires
        ascii(s),
    ensures
        vstd::utf8::valid_utf8(s),
    decreases s.len(),
{
    if s.len() > 0 {
        let b = s[0];
        assert(b < 128);
        assert(b & 0x7F == b) by (bit_vector)
            requires
                b < 128,
        ;
        let rest = s.subrange(1, s.len() as int);
        assert(vstd::utf8::pop_first_scalar(s) =~= rest);
        lemma_ascii_utf8(rest);
    }
}

/// Appends `s` to `v`.
pub fn push_all(v: &mut Vec<u8>, s: &[u8])
    ensures
        final(v)@ == old(v)@ + s@,
        ascii(old(v)@) && ascii(s@) ==> ascii(final(v)@),
{
    proof {
        if ascii(old(v)@) && ascii(s@) {
            lemma_ascii_add(old(v)@, s@);
        }
    }
    let mut i: usize = 0;
    while i < s.len()
        invariant
            i <= s@.len(),
            v@ == old(v)@ + s@.subrange(0, i as int),
        decreases s@.len() - i,
    {
        v.push(s[i]);
        i = i + 1;
        assert(v@ =~= old(v)@ + s@.subrange(0, i as int));
    }
    assert(s@.subrange(0, s@.len() as int) =~= s@);
}

/// The upper-case ASCII form of a byte string.
pub fn to_upper(s: &[u8]) -> (r: Vec<u8>)
    ensures
        r@ == upper(s@),
{
    let mut r: Vec<u8> = Vec::new();
    let mut i: usize = 0;
    while i < s.len()
        invariant
            i <= s@.len(),
            r@ == upper(s@.subrange(0, i as int)),
        decreases s@.len() - i,
    {
        let b = s[i];
        r.push(if 97 <= b && b <= 122 { b - 32 } else { b });
        i = i + 1;
        assert(r@ =~= upper(s@.subrange(0, i as int)));
    }
    assert(s@.subrange(0, s@.len() as int) =~= s@);
    r
}

/// The name of a register in generated code.
pub fn register_name(r: Register) -> (s: &'static [u8])
    ensures
        s@ == reg_name(r),
        ascii(s@),
{
    proof {
        lemma_names_ascii(r, Operator::Add);
    }
    match r {
        Register::Acc => &[65u8, 67u8, 67u8],
        Register::IP => &[73u8, 80u8],
        Register::R1 => &[82u8, 49u8],
        Register::R2 => &[82u8, 50u8],
        Register::R3 => &[82u8, 51u8],
        Register::R4 => &[82u8, 52u8],
        Register::R5 => &[82u8, 53u8],
        Register::R6 => &[82u8, 54u8],
        Register::R7 => &[82u8, 55u8],
        Register::R8 => &[82u8, 56u8],
        Register::SP => &[83u8, 80u8],
        Register::FP => &[70u8, 80u8],
        Register::IM => &[73u8, 77u8],
    }
}

/// The name of an operator in generated code.
pub fn operator_name(o: Operator) -> (s: &'static [u8])
    ensures
        s@ == op_name(o),
        ascii(s@),
{
    proof {
        lemma_names_ascii(Register::Acc, o);
    }
    match o {
        Operator::Add => &[65u8, 68u8, 68u8],
        Operator::Sub => &[83u8, 85u8, 66u8],
        Operator::Mul => &[77u8, 85u8, 76u8],
    }
}

/// The line `p a, b`.
pub fn make_line2(p: &[u8], a: &[u8], b: &[u8]) -> (l: Vec<u8>)
    ensures
        l@ == line2(p@, a@, b@),
        ascii(p@) && ascii(a@) && ascii(b@) ==> ascii(l@),
{
    proof {
        if ascii(p@) && ascii(a@) && ascii(b@) {
            lemma_lines_ascii(p@, a@, b@);
        }
    }
    let mut l: Vec<u8> = Vec::new();
    push_all(&mut l, p);
    l.push(32);
    push_all(&mut l, a);
    l.push(44);
    l.push(32);
    push_all(&mut l, b);
    assert(l@ =~= line2(p@, a@, b@));
    l
}

/// The line `p a`.
pub fn make_line1(p: &[u8], a: &[u8]) -> (l: Vec<u8>)
    ensures
        l@ == line1(p@, a@),
        ascii(p@) && ascii(a@) ==> ascii(l@),
{
    proof {
        if ascii(p@) && ascii(a@) {
            lemma_lines_ascii(p@, a@, a@);
        }
    }
    let mut l: Vec<u8> = Vec::new();
    push_all(&mut l, p);
    l.push(32);
    push_all(&mut l, a);
    assert(l@ =~= line1(p@, a@));
    l
}

/// The text `&[a]`.
pub fn make_bracket(a: &[u8]) -> (l: Vec<u8>)
    ensures
        l@ == bracket(a@),
        ascii(a@) ==> ascii(l@),
{
    proof {
        if ascii(a@) {
            lemma_lines_ascii(a@, a@, a@);
        }
    }
    let mut l: Vec<u8> = Vec::new();
    l.push(38);
    l.push(91);
    push_all(&mut l, a);
    l.push(93);
    assert(l@ =~= bracket(a@));
    l
}

} // verus!
