use aya::generator::CodeGenerator;
use aya::parser::parse;

/// The text the code generator writes for `source`.
fn generated(source: &str) -> String {
    let ast = parse(source).unwrap();
    let mut generator = CodeGenerator::new(source.as_bytes(), &ast);
    generator.generate().unwrap();
    String::from_utf8(generator.to_text()).unwrap()
}

/// Lines joined as the generator joins them.
fn text(lines: &[&str]) -> String {
    lines.join("\n")
}

#[test]
fn test_gen_label() {
    assert_eq!(generated("label:"), "label:");
    assert_eq!(generated("+label:"), "+label:");
}

#[test]
fn test_gen_data() {
    assert_eq!(generated("data8 sample_data = { $0000, $1234, $C0D3 }"), "data8 sample_data = { $0000, $1234, $C0D3 }");
    assert_eq!(generated("data16 sample_data = { $0000, $1234, $C0D3 }"), "data16 sample_data = { $0000, $1234, $C0D3 }");
    assert_eq!(generated("+data8 sample_data = { $0000, $1234, $C0D3 }"), "+data8 sample_data = { $0000, $1234, $C0D3 }");
    assert_eq!(generated("+data16 sample_data = { $0000, $1234, $C0D3 }"), "+data16 sample_data = { $0000, $1234, $C0D3 }");
}

#[test]
fn test_gen_mov_reg_reg() {
    assert_eq!(generated("mov r1, r2"), "MOV R1, R2");
}

#[test]
fn test_gen_mov_lit_reg() {
    assert_eq!(generated("mov r1, $c0d3"), "MOV R1, $C0D3");
    assert_eq!(generated("mov r1, !var"), "MOV R1, !var");
    assert_eq!(generated("mov r1, !var"), "MOV R1, !var");
    assert_eq!(generated("mov r1, [$c0d3 + r2]"), text(&["PSH R8", "MOV R8, $C0D3", "PSH R7", "MOV R7, R2", "ADD R8, R7", "MOV R1, R8", "POP R7", "POP R8"]));
}

#[test]
fn test_gen_mov_reg_mem() {
    assert_eq!(generated("mov &[$c0d3], r2"), "MOV &[$C0D3], R2");
    assert_eq!(generated("mov &[!var], r2"), "MOV &[!var], R2");
    assert_eq!(generated("mov &[$c0d3 + r2], r2"), text(&["PSH R8", "MOV R8, $C0D3", "PSH R7", "MOV R7, R2", "ADD R8, R7", "MOV &[R8], R2", "POP R7", "POP R8"]));
}

#[test]
fn test_gen_mov_mem_reg() {
    assert_eq!(generated("mov r2, &[$c0d3]"), "MOV R2, &[$C0D3]");
    assert_eq!(generated("mov r2, &[!var]"), "MOV R2, &[!var]");
    assert_eq!(generated("mov r2, &[$c0d3 + r2]"), text(&["PSH R8", "MOV R8, $C0D3", "PSH R7", "MOV R7, R2", "ADD R8, R7", "MOV R2, &[R8]", "POP R7", "POP R8"]));
}

#[test]
fn test_gen_mov_lit_mem() {
    assert_eq!(generated("mov &[$c0d3], $c0d3"), text(&["PSH R8", "MOV R8, $C0D3", "POP R8", "MOV &[$C0D3], R8"]));
    assert_eq!(generated("mov &[!var], $c0d3"), text(&["PSH R8", "MOV R8, $C0D3", "POP R8", "MOV &[!var], R8"]));
    assert_eq!(generated("mov &[$c0d3 + r2], $c0d3"), text(&["PSH R8", "MOV R8, $C0D3", "PSH R7", "MOV R7, R2", "ADD R8, R7", "PSH R6", "MOV R6, $C0D3", "POP R6", "POP R7", "POP R8", "MOV &[R8], R6"]));
    assert_eq!(generated("mov &[$c0d3], !var"), "MOV &[$C0D3], !var");
    assert_eq!(generated("mov &[$c0d3], [$c0d3 + r2 + !var]"), text(&["PSH R8", "MOV R8, $C0D3", "PSH R7", "MOV R7, R2", "PSH R6", "MOV R6, !var", "ADD R7, R6", "ADD R8, R7", "POP R6", "POP R7", "POP R8", "MOV &[$C0D3], R8"]));
    assert_eq!(generated("mov &[!var], [$c0d3 + r2 + !var]"), text(&["PSH R8", "MOV R8, $C0D3", "PSH R7", "MOV R7, R2", "PSH R6", "MOV R6, !var", "ADD R7, R6", "ADD R8, R7", "POP R6", "POP R7", "POP R8", "MOV &[!var], R8"]));
    assert_eq!(generated("mov &[r2], &[r3]"), "MOV &[r2], &[r3]");
}

#[test]
#[should_panic]
fn test_gen_too_large() {
    assert_eq!(generated("mov &[!var + $c0d3 + r2], [$c0d3 + r2 + !var]"), text(&["PSH R8", "MOV R8, !var", "PSH R7", "MOV R7, $C0D3", "PSH R6", "MOV R6, R2", "ADD R7, R6", "ADD R8, R7", "PSH R5", "MOV R5, $C0D3", "PSH R4", "MOV R4, R2", "PSH R3", "MOV R3, !var", "ADD R4, R3", "ADD R5, R4", "POP R3", "POP R4", "POP R5", "POP R6", "POP R7", "POP R8", "MOV &[R8], R5"]));
}

#[test]
fn codegen_test_add_reg_reg() {
    assert_eq!(generated("add r2, r3"), "ADD R2, R3");
}

#[test]
fn codegen_test_add_lit_reg() {
    assert_eq!(generated("add r2, $c0d3"), "ADD R2, $C0D3");
    assert_eq!(generated("add r1, [$c0d3 + r2]"), text(&["PSH R8", "MOV R8, $C0D3", "PSH R7", "MOV R7, R2", "ADD R8, R7", "ADD R1, R8", "POP R7", "POP R8"]));
    assert_eq!(generated("add r1, !var"), "ADD R1, !var");
}

#[test]
fn test_sub_reg_reg() {
    assert_eq!(generated("sub r2, r3"), "SUB R2, R3");
}

#[test]
fn test_sub_lit_reg() {
    assert_eq!(generated("sub r2, $c0d3"), "SUB R2, $C0D3");
    assert_eq!(generated("sub r1, [$c0d3 + r2]"), text(&["PSH R8", "MOV R8, $C0D3", "PSH R7", "MOV R7, R2", "ADD R8, R7", "SUB R1, R8", "POP R7", "POP R8"]));
    assert_eq!(generated("sub r1, !var"), "SUB R1, !var");
}

#[test]
fn test_mul_reg_reg() {
    assert_eq!(generated("mul r2, r3"), "MUL R2, R3");
}

#[test]
fn test_mul_lit_reg() {
    assert_eq!(generated("mul r2, $c0d3"), "MUL R2, $C0D3");
    assert_eq!(generated("mul r1, [$c0d3 * r2]"), text(&["PSH R8", "MOV R8, $C0D3", "PSH R7", "MOV R7, R2", "MUL R8, R7", "MUL R1, R8", "POP R7", "POP R8"]));
    assert_eq!(generated("mul r1, !var"), "MUL R1, !var");
}

#[test]
fn test_gen_inc() {
    assert_eq!(generated("inc r2"), "INC R2");
}

#[test]
fn test_gen_dec() {
    assert_eq!(generated("dec r2"), "DEC R2");
}

#[test]
fn test_lsh_reg_reg() {
    assert_eq!(generated("lsh r2, r3"), "LSH R2, R3");
}

#[test]
fn test_lsh_lit_reg() {
    assert_eq!(generated("lsh r2, $c0d3"), "LSH R2, $C0D3");
    assert_eq!(generated("lsh r1, [$c0d3 - r2]"), text(&["PSH R8", "MOV R8, $C0D3", "PSH R7", "MOV R7, R2", "SUB R8, R7", "LSH R1, R8", "POP R7", "POP R8"]));
    assert_eq!(generated("lsh r1, !var"), "LSH R1, !var");
}

#[test]
fn test_rsh_reg_reg() {
    assert_eq!(generated("rsh r2, r3"), "RSH R2, R3");
}

#[test]
fn test_rsh_lit_reg() {
    assert_eq!(generated("rsh r2, $c0d3"), "RSH R2, $C0D3");
    assert_eq!(generated("rsh r1, [$c0d3 - r2]"), text(&["PSH R8", "MOV R8, $C0D3", "PSH R7", "MOV R7, R2", "SUB R8, R7", "RSH R1, R8", "POP R7", "POP R8"]));
    assert_eq!(generated("rsh r1, !var"), "RSH R1, !var");
}

#[test]
fn codegen_test_and_reg_reg() {
    assert_eq!(generated("and r2, r3"), "AND R2, R3");
}

#[test]
fn codegen_test_and_lit_reg() {
    assert_eq!(generated("and r2, $c0d3"), "AND R2, $C0D3");
    assert_eq!(generated("and r1, [$c0d3 - r2]"), text(&["PSH R8", "MOV R8, $C0D3", "PSH R7", "MOV R7, R2", "SUB R8, R7", "AND R1, R8", "POP R7", "POP R8"]));
    assert_eq!(generated("and r1, !var"), "AND R1, !var");
}

#[test]
fn test_or_reg_reg() {
    assert_eq!(generated("or r2, r3"), "OR R2, R3");
}

#[test]
fn test_or_lit_reg() {
    assert_eq!(generated("or r2, $c0d3"), "OR R2, $C0D3");
    assert_eq!(generated("or r1, [$c0d3 - r2]"), text(&["PSH R8", "MOV R8, $C0D3", "PSH R7", "MOV R7, R2", "SUB R8, R7", "OR R1, R8", "POP R7", "POP R8"]));
    assert_eq!(generated("or r1, !var"), "OR R1, !var");
}

#[test]
fn test_xor_reg_reg() {
    assert_eq!(generated("xor r2, r3"), "XOR R2, R3");
}

#[test]
fn test_xor_lit_reg() {
    assert_eq!(generated("xor r2, $c0d3"), "XOR R2, $C0D3");
    assert_eq!(generated("xor r1, [$c0d3 - r2]"), text(&["PSH R8", "MOV R8, $C0D3", "PSH R7", "MOV R7, R2", "SUB R8, R7", "XOR R1, R8", "POP R7", "POP R8"]));
    assert_eq!(generated("xor r1, !var"), "XOR R1, !var");
}

#[test]
fn test_gen_not() {
    assert_eq!(generated("not r2"), "NOT R2");
}

#[test]
fn test_push_reg() {
    assert_eq!(generated("psh r2"), "PSH R2");
}

#[test]
fn codegen_test_psh_lit() {
    assert_eq!(generated("psh $c0d3"), "PSH $C0D3");
    assert_eq!(generated("psh [$c0d3 + r2]"), text(&["PSH R8", "MOV R8, $C0D3", "PSH R7", "MOV R7, R2", "ADD R8, R7", "PSH R8", "POP R7", "POP R8"]));
    assert_eq!(generated("psh !var"), "PSH !var");
}

#[test]
fn test_gen_pop() {
    assert_eq!(generated("pop r2"), "POP R2");
}

#[test]
fn test_gen_call() {
    assert_eq!(generated("call &[$c0d3]"), "CALL &[$C0D3]");
    assert_eq!(generated("call &[$0303 + r2]"), text(&["PSH R8", "MOV R8, $0303", "PSH R7", "MOV R7, R2", "ADD R8, R7", "CALL &[R8]", "POP R7", "POP R8"]));
    assert_eq!(generated("call &[!var]"), "CALL &[!var]");
    assert_eq!(generated("call &[!var + r2]"), text(&["PSH R8", "MOV R8, !var", "PSH R7", "MOV R7, R2", "ADD R8, R7", "CALL &[R8]", "POP R7", "POP R8"]));
}

#[test]
fn test_ret() {
    assert_eq!(generated("ret"), "RET");
}

#[test]
fn test_jeq_reg() {
    assert_eq!(generated("jeq &[$c0d3], r2"), "JEQ &[$C0D3], R2");
    assert_eq!(generated("jeq &[!var], r2"), "JEQ &[!var], R2");
    assert_eq!(generated("jeq &[$c0d3 + r2], r2"), text(&["PSH R8", "MOV R8, $C0D3", "PSH R7", "MOV R7, R2", "ADD R8, R7", "JEQ &[R8], R2", "POP R7", "POP R8"]));
}

#[test]
fn test_jeq_lit() {
    assert_eq!(generated("jeq &[$c0d3], $0303"), "JEQ &[$C0D3], $0303");
    assert_eq!(generated("jeq &[$c0d3], !var"), "JEQ &[$C0D3], !var");
    assert_eq!(generated("jeq &[$c0d3], [$0303 + r2]"), text(&["PSH R8", "MOV R8, $0303", "PSH R7", "MOV R7, R2", "ADD R8, R7", "JEQ &[$C0D3], R8", "POP R7", "POP R8"]));
    assert_eq!(generated("jeq &[$c0d3 + r2], [$0303 + r2]"), text(&["PSH R8", "MOV R8, $C0D3", "PSH R7", "MOV R7, R2", "ADD R8, R7", "PSH R6", "MOV R6, $0303", "PSH R5", "MOV R5, R2", "ADD R6, R5", "JEQ &[R8], R6", "POP R5", "POP R6", "POP R7", "POP R8"]));
}

#[test]
fn test_gen_jmp() {
    assert_eq!(generated("jmp &[$c0d3]"), "JMP &[$C0D3]");
    assert_eq!(generated("jmp &[$c0d3 + r2]"), text(&["PSH R8", "MOV R8, $C0D3", "PSH R7", "MOV R7, R2", "ADD R8, R7", "JMP &[R8]", "POP R7", "POP R8"]));
    assert_eq!(generated("jmp &[!var]"), "JMP &[!var]");
}
