use vstd::prelude::*;

use crate::lexer::{Kind, Token};
use crate::parser::ast::ByteOffset;

verus! {

/// Why a source does not assemble.
#[derive(Debug, PartialEq, Eq, Clone, Copy, Structural)]
pub enum Error {
    /// A string literal runs to the end of its line or of the source; the
    /// position is where its content starts.
    UnterminatedString(usize),
    /// The source ends where the grammar wants more.
    UnexpectedEof,
    /// A token that the grammar does not allow where it stands.
    UnexpectedToken(Token),
    /// A token other than the one that the grammar requires here.
    Expected(Kind, Token),
    /// A variable that is neither a symbol of the module nor one of its imports.
    UndefinedVariable(ByteOffset),
    /// A hex number that does not fit the size it is used at.
    InvalidHex(ByteOffset),
    /// A name that is no register.
    InvalidRegister(ByteOffset),
    /// A statement of another kind than the one the code generator wants here.
    UnexpectedStatement(ByteOffset),
    /// An expression that needs more temporary registers than there are.
    ExpressionTooLarge(ByteOffset),
    /// A constant, or an import variable, whose hex value does not fit 16 bits.
    InvalidConstant(ByteOffset),
    /// An import variable named twice in one import.
    DuplicateVariable(ByteOffset),
}

} // verus!
