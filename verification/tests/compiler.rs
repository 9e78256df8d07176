use aya::codegen::CodegenModule;
use aya::compiler::compile;
use aya::table::Table;

/// A module with empty tables at `address`, its lines joined by newlines.
fn module(name: &str, address: u16, lines: &[&str]) -> CodegenModule {
    CodegenModule {
        name: name.to_string(),
        path: format!("{name}.aya"),
        address,
        imports: Vec::new(),
        symbols: Table::new(),
        variables: None,
        exports: Table::new(),
        code: lines.join("\n"),
    }
}

#[test]
fn test_compile() {
    let main_lines = [
        "before_interrupt:", "mov r1, $01", "mov r2, $02", "psh $0003", "call_interrupt:", "int $03",
        "mask_interrupt_4:", "mov r3, $01", "lsh r3, $03", "not r3", "and im, acc", "mov im, acc",
        "call_interrupt_again:", "int $03", "this_should_run_instead:", "mov r5, $05",
    ];
    let other_lines = [
        "data8 name = { $1 }", "data8 lol = { $02 }", "data16 lol2 = { $ffff }", "interrupt_code:",
        "mov r1, $FFFF", "mov r2, $FFFF", "xor r1, r2", "lsh r1, r2", "rti",
    ];
    let bytecode = compile(vec![module("main", 0x0000, &main_lines), module("other", 0x0064, &other_lines)]).unwrap();

    let mut expected: Vec<u8> = vec![
        0x11, 0x02, 0x01, 0x00, // mov r1, $01
        0x11, 0x03, 0x02, 0x00, // mov r2, $02
        0x41, 0x03, 0x00, // psh $0003
        0xFD, 0x03, 0x00, // int $03
        0x11, 0x04, 0x01, 0x00, // mov r3, $01
        0x31, 0x04, 0x03, 0x00, // lsh r3, $03
        0x3A, 0x04, // not r3
        0x34, 0x0C, 0x00, // and im, acc
        0x10, 0x0C, 0x00, // mov im, acc
        0xFD, 0x03, 0x00, // int $03
        0x11, 0x06, 0x05, 0x00, // mov r5, $05
    ];
    expected.resize(0x64, 0x00);
    expected.extend_from_slice(&[
        0x01, // name
        0x02, // lol
        0xFF, 0xFF, // lol2
        0x11, 0x02, 0xFF, 0xFF, // mov r1, $FFFF
        0x11, 0x03, 0xFF, 0xFF, // mov r2, $FFFF
        0x38, 0x02, 0x03, // xor r1, r2
        0x30, 0x02, 0x03, // lsh r1, r2
        0xFE, // rti
    ]);
    assert_eq!(bytecode, expected);
}
