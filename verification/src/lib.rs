//! A small 16-bit virtual machine, its assembler and the pieces of the
//! console that runs it.
pub mod assembler;
pub mod assembly;
pub mod bitmap;
pub mod bytecode;
pub mod codegen;
pub mod compiler;
pub mod console;
pub mod cpu;
pub mod generator;
pub mod graph;
pub mod hex;
pub mod instruction;
pub mod laws;
pub mod lexer;
pub mod memory;
pub mod mod_resolver;
pub mod op_code;
pub mod parser;
pub mod register;
pub mod resolver;
pub mod table;
pub mod text;
pub mod word;

use vstd::prelude::*;

verus! {

/// Number of addressable bytes of the machine.
pub const MEMORY_SIZE: usize = 65535;

} // verus!
