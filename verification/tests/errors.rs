use aya::codegen::CodegenModule;
use aya::compiler::try_compile;
use aya::generator::CodeGenerator;
use aya::lexer::{Kind, Lexer};
use aya::parser::error::Error;
use aya::parser::parse;
use aya::table::Table;

/// The outcome of assembling one module of `code` at address zero.
fn compiled(code: &str) -> Result<Vec<u8>, Error> {
    let module = CodegenModule {
        name: "main".to_string(),
        path: "main.aya".to_string(),
        address: 0,
        imports: Vec::new(),
        symbols: Table::new(),
        variables: None,
        exports: Table::new(),
        code: code.to_string(),
    };
    try_compile(vec![module]).unwrap()
}

/// The outcome of generating the text of `source`.
fn generated(source: &str) -> Result<(), Error> {
    let ast = parse(source).unwrap();
    let mut generator = CodeGenerator::new(source.as_bytes(), &ast);
    generator.generate()
}

#[test]
fn a_string_without_its_end_is_refused() {
    let mut lexer = Lexer::new(b"import \"lib.aya");
    assert_eq!(lexer.next().unwrap().unwrap().kind, Kind::Import);
    assert_eq!(lexer.next().unwrap(), Err(Error::UnterminatedString(8)));
}

#[test]
fn a_program_that_stops_short_is_refused() {
    assert_eq!(parse("mov r1,").unwrap_err(), Error::UnexpectedEof);
}

#[test]
fn a_token_out_of_place_is_refused() {
    assert!(matches!(parse("mov r1 r2").unwrap_err(), Error::Expected(Kind::Comma, _)));
    assert!(matches!(parse("mov , r1").unwrap_err(), Error::UnexpectedToken(t) if t.kind == Kind::Comma));
}

#[test]
fn compiling_names_what_it_cannot_encode() {
    assert!(matches!(compiled("mov r1, !nothing"), Err(Error::UndefinedVariable(_))));
    assert!(matches!(compiled("data8 x = { $100 }"), Err(Error::InvalidHex(_))));
    assert!(matches!(compiled("mov r9, $0001"), Err(Error::InvalidRegister(_))));
}

#[test]
fn generating_an_expression_too_large_is_refused() {
    let big = "mov r1, [r1 + r2 + r3 + r4 + r5 + r6 + r7 + r8 + r1 + r2 + r3 + r4]";
    assert!(matches!(generated(big), Err(Error::ExpressionTooLarge(_))));
}
