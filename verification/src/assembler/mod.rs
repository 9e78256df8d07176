//! The tables of the assembly language: the byte of each operation and of
//! each register in the bytecode that the assembler writes.
pub mod op_code;
pub mod register;
