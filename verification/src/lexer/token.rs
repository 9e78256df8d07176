use vstd::prelude::*;
use vstd::string::StringExecFns;

use crate::parser::ast::ByteOffset;
use crate::assembler::register::{eq_ignore_case, lower_bytes};

verus! {

/// What a token is.
#[derive(Debug, PartialEq, Eq, Clone, Copy, Structural)]
pub enum Kind {
    Ident,
    String,
    HexNumber,
    Bang,
    Ampersand,
    LBracket,
    RBracket,
    LParen,
    RParen,
    LBrace,
    RBrace,
    Colon,
    Comma,
    Dot,
    Equal,
    Const,
    Data8,
    Data16,
    Import,
    Mov,
    Add,
    Sub,
    Mul,
    Lsh,
    Rsh,
    And,
    Or,
    Xor,
    Inc,
    Dec,
    Not,
    Jmp,
    Jeq,
    Jgt,
    Jne,
    Jge,
    Jle,
    Jlt,
    Psh,
    Pop,
    Call,
    Ret,
    Hlt,
    Int,
    Rti,
    Plus,
    Minus,
    Star,
    Eof,
}

impl Kind {
    /// Whether the kind names an instruction of the machine.
    pub open spec fn spec_is_instruction(self) -> bool {
        match self {
            Kind::Mov
            | Kind::Add
            | Kind::Sub
            | Kind::Mul
            | Kind::Lsh
            | Kind::Rsh
            | Kind::And
            | Kind::Or
            | Kind::Xor
            | Kind::Inc
            | Kind::Dec
            | Kind::Not
            | Kind::Jmp
            | Kind::Jeq
            | Kind::Jgt
            | Kind::Jne
            | Kind::Jge
            | Kind::Jle
            | Kind::Jlt
            | Kind::Psh
            | Kind::Pop
            | Kind::Call
            | Kind::Ret
            | Kind::Hlt
            | Kind::Int
            | Kind::Rti => true,
            _ => false,
        }
    }

    /// Whether the kind is an operator of an expression.
    pub open spec fn spec_is_operator(self) -> bool {
        match self {
            Kind::Plus | Kind::Minus | Kind::Star => true,
            _ => false,
        }
    }

    /// Whether the kind names an instruction of the machine.
    pub fn is_instruction(&self) -> (b: bool)
        ensures
            b == self.spec_is_instruction(),
    {
        match self {
            Kind::Mov
            | Kind::Add
            | Kind::Sub
            | Kind::Mul
            | Kind::Lsh
            | Kind::Rsh
            | Kind::And
            | Kind::Or
            | Kind::Xor
            | Kind::Inc
            | Kind::Dec
            | Kind::Not
            | Kind::Jmp
            | Kind::Jeq
            | Kind::Jgt
            | Kind::Jne
            | Kind::Jge
            | Kind::Jle
            | Kind::Jlt
            | Kind::Psh
            | Kind::Pop
            | Kind::Call
            | Kind::Ret
            | Kind::Hlt
            | Kind::Int
            | Kind::Rti => true,
            _ => false,
        }
    }

    /// Whether the kind is an operator of an expression.
    pub fn is_operator(&self) -> (b: bool)
        ensures
            b == self.spec_is_operator(),
    {
        match self {
            Kind::Plus | Kind::Minus | Kind::Star => true,
            _ => false,
        }
    }
}

/// The kind of a word: a keyword in any case of letters, else an identifier.
pub open spec fn keyword_kind(word: Seq<u8>) -> Kind {
    let l = lower_bytes(word);
    if l == seq![99u8, 111u8, 110u8, 115u8, 116u8] { Kind::Const }
    else if l == seq![105u8, 109u8, 112u8, 111u8, 114u8, 116u8] { Kind::Import }
    else if l == seq![100u8, 97u8, 116u8, 97u8, 56u8] { Kind::Data8 }
    else if l == seq![100u8, 97u8, 116u8, 97u8, 49u8, 54u8] { Kind::Data16 }
    else if l == seq![109u8, 111u8, 118u8] { Kind::Mov }
    else if l == seq![97u8, 100u8, 100u8] { Kind::Add }
    else if l == seq![115u8, 117u8, 98u8] { Kind::Sub }
    else if l == seq![109u8, 117u8, 108u8] { Kind::Mul }
    else if l == seq![108u8, 115u8, 104u8] { Kind::Lsh }
    else if l == seq![114u8, 115u8, 104u8] { Kind::Rsh }
    else if l == seq![97u8, 110u8, 100u8] { Kind::And }
    else if l == seq![111u8, 114u8] { Kind::Or }
    else if l == seq![120u8, 111u8, 114u8] { Kind::Xor }
    else if l == seq![105u8, 110u8, 99u8] { Kind::Inc }
    else if l == seq![100u8, 101u8, 99u8] { Kind::Dec }
    else if l == seq![110u8, 111u8, 116u8] { Kind::Not }
    else if l == seq![106u8, 109u8, 112u8] { Kind::Jmp }
    else if l == seq![106u8, 101u8, 113u8] { Kind::Jeq }
    else if l == seq![106u8, 103u8, 116u8] { Kind::Jgt }
    else if l == seq![106u8, 110u8, 101u8] { Kind::Jne }
    else if l == seq![106u8, 103u8, 101u8] { Kind::Jge }
    else if l == seq![106u8, 108u8, 101u8] { Kind::Jle }
    else if l == seq![106u8, 108u8, 116u8] { Kind::Jlt }
    else if l == seq![112u8, 115u8, 104u8] { Kind::Psh }
    else if l == seq![112u8, 111u8, 112u8] { Kind::Pop }
    else if l == seq![99u8, 97u8, 108u8, 108u8] { Kind::Call }
    else if l == seq![114u8, 101u8, 116u8] { Kind::Ret }
    else if l == seq![104u8, 108u8, 116u8] { Kind::Hlt }
    else if l == seq![105u8, 110u8, 116u8] { Kind::Int }
    else if l == seq![114u8, 116u8, 105u8] { Kind::Rti }
    else { Kind::Ident }
}

/// A token: its kind and where it stands in the source, in bytes.
#[derive(Debug, Clone, Copy, PartialEq, Eq, Structural)]
pub struct Token {
    pub kind: Kind,
    pub offset: ByteOffset,
}

impl Kind {
    /// The name of the kind in messages.
    pub open spec fn spec_label(self) -> &'static str {
        match self {
            Kind::Ident => "IDENT",
            Kind::String => "STRING",
            Kind::HexNumber => "HEX_NUMBER",
            Kind::Const => "CONST",
            Kind::Data8 => "DATA8",
            Kind::Data16 => "DATA16",
            Kind::Import => "IMPORT",
            Kind::Bang => "BANG",
            Kind::LBracket => "LEFT_BRACKET",
            Kind::RBracket => "RIGHT_BRACKET",
            Kind::LParen => "LEFT_PAREN",
            Kind::RParen => "RIGHT_PAREN",
            Kind::LBrace => "LEFT_CURLY",
            Kind::RBrace => "RIGHT_CURLY",
            Kind::Equal => "EQUAL",
            Kind::Colon => "COLON",
            Kind::Comma => "COMMA",
            Kind::Ampersand => "AMPERSAND",
            Kind::Dot => "DOT",
            Kind::Mov => "MOV",
            Kind::Add => "ADD",
            Kind::Sub => "SUB",
            Kind::Mul => "MUL",
            Kind::Lsh => "LSH",
            Kind::Rsh => "RSH",
            Kind::And => "AND",
            Kind::Or => "OR",
            Kind::Xor => "XOR",
            Kind::Inc => "INC",
            Kind::Dec => "DEC",
            Kind::Not => "NOT",
            Kind::Jmp => "JMP",
            Kind::Jeq => "JEQ",
            Kind::Jgt => "JGT",
            Kind::Jne => "JNE",
            Kind::Jge => "JGE",
            Kind::Jle => "JLE",
            Kind::Jlt => "JLT",
            Kind::Psh => "PSH",
            Kind::Pop => "POP",
            Kind::Call => "CALL",
            Kind::Ret => "RET",
            Kind::Hlt => "HLT",
            Kind::Int => "INT",
            Kind::Rti => "RTI",
            Kind::Plus => "PLUS",
            Kind::Minus => "MINUS",
            Kind::Star => "STAR",
            Kind::Eof => "EOF",
        }
    }

    /// The name of the kind in messages (see `spec_label`).
    pub fn label(&self) -> (s: &'static str)
        ensures
            s == self.spec_label(),
    {
        match self {
            Kind::Ident => "IDENT",
            Kind::String => "STRING",
            Kind::HexNumber => "HEX_NUMBER",
            Kind::Const => "CONST",
            Kind::Data8 => "DATA8",
            Kind::Data16 => "DATA16",
            Kind::Import => "IMPORT",
            Kind::Bang => "BANG",
            Kind::LBracket => "LEFT_BRACKET",
            Kind::RBracket => "RIGHT_BRACKET",
            Kind::LParen => "LEFT_PAREN",
            Kind::RParen => "RIGHT_PAREN",
            Kind::LBrace => "LEFT_CURLY",
            Kind::RBrace => "RIGHT_CURLY",
            Kind::Equal => "EQUAL",
            Kind::Colon => "COLON",
            Kind::Comma => "COMMA",
            Kind::Ampersand => "AMPERSAND",
            Kind::Dot => "DOT",
            Kind::Mov => "MOV",
            Kind::Add => "ADD",
            Kind::Sub => "SUB",
            Kind::Mul => "MUL",
            Kind::Lsh => "LSH",
            Kind::Rsh => "RSH",
            Kind::And => "AND",
            Kind::Or => "OR",
            Kind::Xor => "XOR",
            Kind::Inc => "INC",
            Kind::Dec => "DEC",
            Kind::Not => "NOT",
            Kind::Jmp => "JMP",
            Kind::Jeq => "JEQ",
            Kind::Jgt => "JGT",
            Kind::Jne => "JNE",
            Kind::Jge => "JGE",
            Kind::Jle => "JLE",
            Kind::Jlt => "JLT",
            Kind::Psh => "PSH",
            Kind::Pop => "POP",
            Kind::Call => "CALL",
            Kind::Ret => "RET",
            Kind::Hlt => "HLT",
            Kind::Int => "INT",
            Kind::Rti => "RTI",
            Kind::Plus => "PLUS",
            Kind::Minus => "MINUS",
            Kind::Star => "STAR",
            Kind::Eof => "EOF",
        }
    }
}

impl Token {
    /// The token as messages name it: the name of its kind.
    pub fn to_string(&self) -> (s: String)
        ensures
            s@ == self.kind.spec_label()@,
    {
        String::from_str(self.kind.label())
    }

    /// The token of `kind` at `offset`.
    pub fn new(kind: Kind, offset: ByteOffset) -> (t: Token)
        ensures
            t == (Token { kind, offset }),
    {
        Token { kind, offset }
    }

    /// The token of the word `ident` found from `start` to `end`: a keyword
    /// where the word spells one in any case of letters, else an identifier.
    pub fn from_ident(ident: &[u8], start: usize, end: usize) -> (t: Token)
        ensures
            t == (Token { kind: keyword_kind(ident@), offset: ByteOffset { start, end } }),
    {
        let offset = ByteOffset { start, end };
        if eq_ignore_case(ident, &[99u8, 111u8, 110u8, 115u8, 116u8]) {
            return Token { kind: Kind::Const, offset };
        }
        if eq_ignore_case(ident, &[105u8, 109u8, 112u8, 111u8, 114u8, 116u8]) {
            return Token { kind: Kind::Import, offset };
        }
        if eq_ignore_case(ident, &[100u8, 97u8, 116u8, 97u8, 56u8]) {
            return Token { kind: Kind::Data8, offset };
        }
        if eq_ignore_case(ident, &[100u8, 97u8, 116u8, 97u8, 49u8, 54u8]) {
            return Token { kind: Kind::Data16, offset };
        }
        if eq_ignore_case(ident, &[109u8, 111u8, 118u8]) {
            return Token { kind: Kind::Mov, offset };
        }
        if eq_ignore_case(ident, &[97u8, 100u8, 100u8]) {
            return Token { kind: Kind::Add, offset };
        }
        if eq_ignore_case(ident, &[115u8, 117u8, 98u8]) {
            return Token { kind: Kind::Sub, offset };
        }
        if eq_ignore_case(ident, &[109u8, 117u8, 108u8]) {
            return Token { kind: Kind::Mul, offset };
        }
        if eq_ignore_case(ident, &[108u8, 115u8, 104u8]) {
            return Token { kind: Kind::Lsh, offset };
        }
        if eq_ignore_case(ident, &[114u8, 115u8, 104u8]) {
            return Token { kind: Kind::Rsh, offset };
        }
        if eq_ignore_case(ident, &[97u8, 110u8, 100u8]) {
            return Token { kind: Kind::And, offset };
        }
        if eq_ignore_case(ident, &[111u8, 114u8]) {
            return Token { kind: Kind::Or, offset };
        }
        if eq_ignore_case(ident, &[120u8, 111u8, 114u8]) {
            return Token { kind: Kind::Xor, offset };
        }
        if eq_ignore_case(ident, &[105u8, 110u8, 99u8]) {
            return Token { kind: Kind::Inc, offset };
        }
        if eq_ignore_case(ident, &[100u8, 101u8, 99u8]) {
            return Token { kind: Kind::Dec, offset };
        }
        if eq_ignore_case(ident, &[110u8, 111u8, 116u8]) {
            return Token { kind: Kind::Not, offset };
        }
        if eq_ignore_case(ident, &[106u8, 109u8, 112u8]) {
            return Token { kind: Kind::Jmp, offset };
        }
        if eq_ignore_case(ident, &[106u8, 101u8, 113u8]) {
            return Token { kind: Kind::Jeq, offset };
        }
        if eq_ignore_case(ident, &[106u8, 103u8, 116u8]) {
            return Token { kind: Kind::Jgt, offset };
        }
        if eq_ignore_case(ident, &[106u8, 110u8, 101u8]) {
            return Token { kind: Kind::Jne, offset };
        }
        if eq_ignore_case(ident, &[106u8, 103u8, 101u8]) {
            return Token { kind: Kind::Jge, offset };
        }
        if eq_ignore_case(ident, &[106u8, 108u8, 101u8]) {
            return Token { kind: Kind::Jle, offset };
        }
        if eq_ignore_case(ident, &[106u8, 108u8, 116u8]) {
            return Token { kind: Kind::Jlt, offset };
        }
        if eq_ignore_case(ident, &[112u8, 115u8, 104u8]) {
            return Token { kind: Kind::Psh, offset };
        }
        if eq_ignore_case(ident, &[112u8, 111u8, 112u8]) {
            return Token { kind: Kind::Pop, offset };
        }
        if eq_ignore_case(ident, &[99u8, 97u8, 108u8, 108u8]) {
            return Token { kind: Kind::Call, offset };
        }
        if eq_ignore_case(ident, &[114u8, 101u8, 116u8]) {
            return Token { kind: Kind::Ret, offset };
        }
        if eq_ignore_case(ident, &[104u8, 108u8, 116u8]) {
            return Token { kind: Kind::Hlt, offset };
        }
        if eq_ignore_case(ident, &[105u8, 110u8, 116u8]) {
            return Token { kind: Kind::Int, offset };
        }
        if eq_ignore_case(ident, &[114u8, 116u8, 105u8]) {
            return Token { kind: Kind::Rti, offset };
        }
        Token { kind: Kind::Ident, offset }
    }

    /// Where the token stands in the source.
    pub fn offset(&self) -> (o: ByteOffset)
        ensures
            o == self.offset,
    {
        self.offset
    }
}

} // verus!
