use aya::assembly::{assemble, AssembleBehavior, AssembleOutput};
use aya::codegen::CodegenModule;
use aya::compiler::try_compile;
use aya::generator::{check_modules, generate, CodeGenerator};
use aya::mod_resolver::{check_constants, links_fit, order_modules, resolve_constants, Either, ResolvedModule, ResolvedModules};
use aya::resolver::{Refusal, Resolver, Step};
use aya::parser::parse;
use aya::table::Table;

/// Parses, resolves, generates and assembles a program of one module.
fn assemble_one(source: &str) -> Vec<u8> {
    let ast = parse(source).unwrap();
    let mut module = ResolvedModule {
        name: "main".to_string(),
        path: "test.aya".to_string(),
        address: 0,
        imports: Vec::new(),
        symbols: Table::new(),
        variables: None,
    };
    assert!(check_constants(source, &ast));
    resolve_constants(source, &mut module, &ast).unwrap();
    let mut sources = Table::new();
    sources.insert(b"test.aya", source.to_string());
    let modules = order_modules(vec![module], vec![ast], sources).unwrap();
    assert!(check_modules(&modules));
    let generated = generate(modules).unwrap();
    assert_eq!(generated.len(), 1);
    assert!(generated[0].code.starts_with("; main @ test.aya"));
    try_compile(generated).unwrap().unwrap()
}

#[test]
fn simple_program_assembles() {
    let program = "
        mov r1, $4200
        mov &[$0060], r1
        mov r1, $1300
        mov r2, &[$0060]
        add r1, r2
    ";
    assert_eq!(
        assemble_one(program),
        vec![
            0x11, 0x02, 0x00, 0x42, // mov r1, $4200
            0x12, 0x60, 0x00, 0x02, // mov &[$0060], r1
            0x11, 0x02, 0x00, 0x13, // mov r1, $1300
            0x13, 0x03, 0x60, 0x00, // mov r2, &[$0060]
            0x20, 0x02, 0x03, // add r1, r2
        ]
    );
}

#[test]
fn labels_name_their_addresses() {
    let program = "
        start:
            mov acc, $0A
        loop:
            dec acc
            jne &[!loop], $00
        end:
            hlt
    ";
    assert_eq!(
        assemble_one(program),
        vec![
            0x11, 0x00, 0x0A, 0x00, // mov acc, $0A
            0x26, 0x00, // dec acc
            0x55, 0x04, 0x00, 0x00, 0x00, // jne &[!loop], $00
            0xFF, // hlt
        ]
    );
}

#[test]
fn generator_names_the_module_first() {
    let source = "mov r1, r2";
    let ast = parse(source).unwrap();
    let module = ResolvedModule {
        name: "main".to_string(),
        path: "main.aya".to_string(),
        address: 0,
        imports: Vec::new(),
        symbols: Table::new(),
        variables: None,
    };
    let mut generator = CodeGenerator::new(source.as_bytes(), &ast).with_module(&module);
    generator.generate().unwrap();
    assert_eq!(String::from_utf8(generator.to_text()).unwrap(), "; main @ main.aya\nMOV R1, R2");
}

#[test]
fn assembling_past_the_end_of_memory_is_refused() {
    let module = CodegenModule {
        name: "main".to_string(),
        path: "main.aya".to_string(),
        address: 0xFFFE,
        imports: Vec::new(),
        symbols: Table::new(),
        variables: None,
        exports: Table::new(),
        code: "mov r1, $0001".to_string(),
    };
    assert!(try_compile(vec![module]).is_none());
}

/// The source of each file of a program kept in memory.
fn source_of(files: &[(&str, &str)], path: &str) -> String {
    files.iter().find(|(p, _)| *p == path).map(|(_, s)| s.to_string()).unwrap()
}

/// Reads a program of in-memory files from `main` on, then orders it.
fn resolve_files(files: &[(&str, &str)], main: &str) -> ResolvedModules {
    let mut resolver = Resolver::new();
    resolver.arrive("main".to_string(), main.to_string(), source_of(files, main), None, 0).unwrap();
    let mut steps = Vec::new();
    loop {
        match resolver.next() {
            Step::Load { name, path, variables, address } => {
                steps.push(format!("load {path}"));
                let code = source_of(files, &path);
                resolver.arrive(name, path, code, Some(variables), address).unwrap();
            },
            Step::Finished => steps.push("finished".to_string()),
            Step::Done => break,
            Step::Failed(e) => panic!("{e:?}"),
            Step::BadAddress => panic!("bad address"),
        }
    }
    assert_eq!(steps, ["load lib.aya", "finished", "load util.aya", "load lib.aya", "finished", "finished"]);
    let (modules, asts, sources) = resolver.finish();
    assert_eq!(modules.iter().map(|m| m.name.as_str()).collect::<Vec<_>>(), ["lib", "util", "main"]);
    assert!(links_fit(&modules));
    order_modules(modules, asts, sources).unwrap()
}

const PROGRAM: [(&str, &str); 3] = [
    ("main.aya", "import \"lib.aya\" lib &[$0100] { x: $0005 }\nimport \"util.aya\" util &[$0200] { }\nmov r1, $0001"),
    ("lib.aya", "data8 d = { $07 }"),
    ("util.aya", "import \"lib.aya\" lib &[$0100] { }\nhlt"),
];

#[test]
fn modules_are_read_depth_first_and_once() {
    let modules = resolve_files(&PROGRAM, "main.aya");
    let names: Vec<&str> = modules.modules.iter().map(|m| m.name.as_str()).collect();
    assert_eq!(names, ["lib", "util", "main"]);
    let lib = &modules.modules[0];
    assert_eq!(lib.address, 0x0100);
    assert!(matches!(lib.variables.as_ref().unwrap().get(b"x"), Some(Either::ResolvedValue(5))));
    assert_eq!(modules.modules[1].imports, ["lib.aya"]);
    assert_eq!(modules.modules[2].imports, ["lib.aya", "util.aya"]);
}

#[test]
fn resolved_program_assembles_to_bytecode() {
    let modules = resolve_files(&PROGRAM, "main.aya");
    let Some(Ok(AssembleOutput::Bytecode(bytes))) = assemble(modules, AssembleBehavior::Bytecode) else {
        panic!("no bytecode");
    };
    let mut expected = vec![0x11, 0x02, 0x01, 0x00];
    expected.resize(0x100, 0);
    expected.push(0x07);
    expected.resize(0x200, 0);
    expected.push(0xFF);
    assert_eq!(bytes, expected);
}

#[test]
fn resolved_program_lists_its_modules() {
    let modules = resolve_files(&PROGRAM, "main.aya");
    let Some(Ok(AssembleOutput::Codegen(text))) = assemble(modules, AssembleBehavior::Codegen) else {
        panic!("no listing");
    };
    assert_eq!(
        text,
        "; lib @ lib.aya\ndata8 d = { $07 }\n; util @ util.aya\nHLT\n; main @ main.aya\nMOV R1, $0001\n"
    );
}

#[test]
fn a_module_that_does_not_parse_is_refused() {
    let mut resolver = Resolver::new();
    assert!(matches!(
        resolver.arrive("main".to_string(), "main.aya".to_string(), "mov r1,".to_string(), None, 0),
        Err(Refusal::Parse(_))
    ));
    let mut resolver = Resolver::new();
    assert!(matches!(
        resolver.arrive("main".to_string(), "main.aya".to_string(), "const big = $10000".to_string(), None, 0),
        Err(Refusal::Constant(_))
    ));
    assert!(matches!(resolver.next(), Step::Done));
}

#[test]
fn an_import_at_a_wide_address_is_refused() {
    let mut resolver = Resolver::new();
    resolver
        .arrive("main".to_string(), "main.aya".to_string(), "import \"a.aya\" a &[$10000] { }".to_string(), None, 0)
        .unwrap();
    assert!(matches!(resolver.next(), Step::BadAddress));
}

#[test]
fn constants_and_data_blocks_assemble() {
    let program = "
            const some_const = $C0D3
            +const other_const = $FEFE

            +data8 bytes = { $01,   $02,$03  ,    $04   }
            data16 bytes = { $1234,   $5678,$9ABC  ,    $DEF0   }

            start:
                mov &[$1234], !some_const
                mov &[$5678], !other_const
    ";
    assert_eq!(
        assemble_one(program),
        vec![
            0x01, 0x02, 0x03, 0x04, // data8 bytes
            0x34, 0x12, 0x78, 0x56, 0xBC, 0x9A, 0xF0, 0xDE, // data16 bytes
            0x14, 0x34, 0x12, 0xD3, 0xC0, // mov &[$1234], !some_const
            0x14, 0x78, 0x56, 0xFE, 0xFE, // mov &[$5678], !other_const
        ]
    );
}

#[test]
fn program_with_labels_assembles() {
    // A hex literal stored to memory goes through a temporary register (see
    // `test_gen_mov_lit_mem`), so `loop` lands after those four instructions.
    let program = "
            start:
                mov &[$0050], $0A
            loop:
                mov acc, &[$0050]
                dec acc
                mov &[$0050], acc
                inc r2
                inc r2
                inc r2
                jne &[!loop], $00
            end:
                hlt
    ";
    assert_eq!(
        assemble_one(program),
        vec![
            0x40, 0x09, // psh r8
            0x11, 0x09, 0x0A, 0x00, // mov r8, $0A
            0x42, 0x09, // pop r8
            0x12, 0x50, 0x00, 0x09, // mov &[$0050], r8
            0x13, 0x00, 0x50, 0x00, // loop: mov acc, &[$0050]
            0x26, 0x00, // dec acc
            0x12, 0x50, 0x00, 0x00, // mov &[$0050], acc
            0x25, 0x03, 0x25, 0x03, 0x25, 0x03, // inc r2, three times
            0x55, 0x0C, 0x00, 0x00, 0x00, // jne &[!loop], $00
            0xFF, // hlt
        ]
    );
}
