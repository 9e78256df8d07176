use aya::lexer::Lexer;
use aya::parser::ast::{Instruction, Statement};
use aya::parser::error::Error;
use aya::parser::instructions::{
    parse_add, parse_and, parse_call, parse_hlt, parse_int, parse_jle, parse_jmp, parse_mov, parse_psh, parse_rti,
};

/// Runs one instruction parser over the whole input and hands back the instruction.
fn instruction(input: &str, parser: fn(&mut Lexer) -> Result<Statement, Error>) -> Instruction {
    let mut lexer = Lexer::new(input.as_bytes());
    match parser(&mut lexer).unwrap() {
        Statement::Instruction(inner) => *inner,
        other => panic!("not an instruction: {other:?}"),
    }
}

#[test]
fn add_test_add_lit_reg() {
    assert!(matches!(instruction("add r1, $c0d3", parse_add), Instruction::AddLitReg(..)));
}

#[test]
fn test_add_lit_reg_expr() {
    assert!(matches!(instruction("add r1, [$c0d3 + r2]", parse_add), Instruction::AddLitReg(..)));
}

#[test]
fn test_add_lit_reg_var() {
    assert!(matches!(instruction("add r1, !var", parse_add), Instruction::AddLitReg(..)));
}

#[test]
fn add_test_add_reg_reg() {
    assert!(matches!(instruction("add r1, r2", parse_add), Instruction::AddRegReg(..)));
}

#[test]
fn and_test_and_lit_reg() {
    assert!(matches!(instruction("and r1, $c0d3", parse_and), Instruction::AndLitReg(..)));
}

#[test]
fn test_and_lit_reg_var() {
    assert!(matches!(instruction("and r1, !var", parse_and), Instruction::AndLitReg(..)));
}

#[test]
fn test_and_lit_reg_expr() {
    assert!(matches!(instruction("and r1, [$c0d3 + r2]", parse_and), Instruction::AndLitReg(..)));
}

#[test]
fn and_test_and_reg_reg() {
    assert!(matches!(instruction("and r1, r2", parse_and), Instruction::AndRegReg(..)));
}

#[test]
fn test_call_address() {
    assert!(matches!(instruction("call &[$0303]", parse_call), Instruction::Call(..)));
}

#[test]
fn test_call_address_expr() {
    assert!(matches!(instruction("call &[$0303 + r2]", parse_call), Instruction::Call(..)));
}

#[test]
fn test_call_address_expr_var() {
    assert!(matches!(instruction("call &[!var + r2]", parse_call), Instruction::Call(..)));
}

#[test]
fn hlt_test_hlt() {
    assert!(matches!(instruction("hlt", parse_hlt), Instruction::Hlt(..)));
}

#[test]
fn test_int() {
    assert!(matches!(instruction("int $03", parse_int), Instruction::Int(..)));
}

#[test]
#[should_panic]
fn test_int_expr() {
    instruction("int [$03 + $1]", parse_int);
}

#[test]
fn test_jle_reg() {
    assert!(matches!(instruction("jle &[$c0d3], r2", parse_jle), Instruction::JleReg(..)));
}

#[test]
fn test_jle_reg_expr() {
    assert!(matches!(instruction("jle &[$c0d3 + r2], r2", parse_jle), Instruction::JleReg(..)));
}

#[test]
fn test_jle_lit() {
    assert!(matches!(instruction("jle &[$c0d3], $0303", parse_jle), Instruction::JleLit(..)));
}

#[test]
fn test_jle_lit_var() {
    assert!(matches!(instruction("jle &[$c0d3], !var", parse_jle), Instruction::JleLit(..)));
}

#[test]
fn test_jle_lit_expr() {
    assert!(matches!(instruction("jle &[$c0d3], [$0303 + r2]", parse_jle), Instruction::JleLit(..)));
}

#[test]
fn test_jle_lit_expr_both() {
    assert!(matches!(instruction("jle &[$c0d3 + r2], [$0303 + r2]", parse_jle), Instruction::JleLit(..)));
}

#[test]
fn test_jmp_simple() {
    assert!(matches!(instruction("jmp &[$c0d3]", parse_jmp), Instruction::Jmp(..)));
}

#[test]
fn test_jmp_expr() {
    assert!(matches!(instruction("jmp &[$c0d3 + r2]", parse_jmp), Instruction::Jmp(..)));
}

#[test]
fn mov_test_mov_reg_reg() {
    assert!(matches!(instruction("mov r1, r2", parse_mov), Instruction::MovRegReg(..)));
}

#[test]
fn mov_test_mov_lit_reg() {
    assert!(matches!(instruction("mov r1, $c0d3", parse_mov), Instruction::MovLitReg(..)));
}

#[test]
fn mov_test_mov_lit_reg_var() {
    assert!(matches!(instruction("mov r1, !var", parse_mov), Instruction::MovLitReg(..)));
}

#[test]
fn mov_test_mov_lit_reg_expr() {
    assert!(matches!(instruction("mov r1, [$c0d3 + r2]", parse_mov), Instruction::MovLitReg(..)));
}

#[test]
fn mov_test_mov_reg_mem() {
    assert!(matches!(instruction("mov &[$c0d3], r2", parse_mov), Instruction::MovRegMem(..)));
}

#[test]
fn mov_test_mov_reg_mem_var() {
    assert!(matches!(instruction("mov &[!var], r2", parse_mov), Instruction::MovRegMem(..)));
}

#[test]
fn mov_test_mov_reg_mem_expr() {
    assert!(matches!(instruction("mov &[$c0d3 + r2], r2", parse_mov), Instruction::MovRegMem(..)));
}

#[test]
fn mov_test_mov_mem_reg() {
    assert!(matches!(instruction("mov r2, &[$c0d3]", parse_mov), Instruction::MovMemReg(..)));
}

#[test]
fn mov_test_mov_mem_reg_var() {
    assert!(matches!(instruction("mov r2, &[!var]", parse_mov), Instruction::MovMemReg(..)));
}

#[test]
fn mov_test_mov_mem_reg_expr() {
    assert!(matches!(instruction("mov r2, &[$c0d3 + r2]", parse_mov), Instruction::MovMemReg(..)));
}

#[test]
fn mov_test_mov_lit_mem() {
    assert!(matches!(instruction("mov &[$c0d3], $c0d3", parse_mov), Instruction::MovLitMem(..)));
}

#[test]
fn mov_test_mov_lit_mem_var() {
    assert!(matches!(instruction("mov &[!var], $c0d3", parse_mov), Instruction::MovLitMem(..)));
}

#[test]
fn mov_test_mov_lit_mem_expr() {
    assert!(matches!(instruction("mov &[$c0d3 + r2], $c0d3", parse_mov), Instruction::MovLitMem(..)));
}

#[test]
fn mov_test_mov_lit_var_mem() {
    assert!(matches!(instruction("mov &[$c0d3], !var", parse_mov), Instruction::MovLitMem(..)));
}

#[test]
fn mov_test_mov_lit_expr_mem() {
    assert!(matches!(instruction("mov &[$c0d3], [$c0d3 + r2 + !var]", parse_mov), Instruction::MovLitMem(..)));
}

#[test]
fn mov_test_mov_lit_expr_mem_var() {
    assert!(matches!(instruction("mov &[!var], [$c0d3 + r2 + !var]", parse_mov), Instruction::MovLitMem(..)));
}

#[test]
fn mov_test_mov_lit_expr_mem_expr() {
    assert!(matches!(instruction("mov &[!var + $c0d3 + r2], [$c0d3 + r2 + !var]", parse_mov), Instruction::MovLitMem(..)));
}

#[test]
fn mov_test_mov_reg_ptr_reg() {
    assert!(matches!(instruction("mov &[r2], &[r3]", parse_mov), Instruction::MovRegPtrReg(..)));
}

#[test]
fn test_psh_reg() {
    assert!(matches!(instruction("psh r2", parse_psh), Instruction::PshReg(..)));
}

#[test]
fn psh_test_psh_lit() {
    assert!(matches!(instruction("psh $0303", parse_psh), Instruction::PshLit(..)));
}

#[test]
fn rti_test_hlt() {
    assert!(matches!(instruction("rti", parse_rti), Instruction::Rti(..)));
}
