use aya::graph::kahn_order;
use aya::mod_resolver::{
    arrange, check_constants, check_import_vars, check_imports_placed, has_dependency_order, links_fit, order_modules, resolve_constants,
    resolve_fields, resolve_import_vars, topological_sort, Either, ResolvedModule,
};
use aya::parser::ast::Statement;
use aya::parser::error::Error;
use aya::parser::parse;
use aya::table::Table;

/// A module with no constants, imports or variables.
fn module(name: &str, path: &str) -> ResolvedModule {
    ResolvedModule {
        name: name.to_string(),
        path: path.to_string(),
        address: 0,
        imports: Vec::new(),
        symbols: Table::new(),
        variables: None,
    }
}

/// The import variables of the first statement of `source`.
fn import_variables(source: &str) -> Vec<Statement> {
    let ast = parse(source).unwrap();
    match ast.statements.into_iter().next().unwrap() {
        Statement::Import { variables, .. } => variables,
        other => panic!("not an import: {other:?}"),
    }
}

#[test]
fn constants_become_symbols() {
    let code = "const size = $0010\n+const limit = $ff00\nmov r1, !size";
    let ast = parse(code).unwrap();
    assert!(check_constants(code, &ast));
    let mut m = module("main", "main.aya");
    resolve_constants(code, &mut m, &ast).unwrap();
    assert_eq!(m.symbols.get(b"size"), Some(&0x0010));
    assert_eq!(m.symbols.get(b"limit"), Some(&0xff00));
    assert_eq!(m.symbols.get(b"other"), None);
}

#[test]
fn constant_over_sixteen_bits_is_refused() {
    let code = "const big = $10000";
    let ast = parse(code).unwrap();
    let mut m = module("main", "main.aya");
    assert!(matches!(resolve_constants(code, &mut m, &ast), Err(Error::InvalidConstant(_))));
}

#[test]
fn import_variables_are_resolved() {
    let code = "import \"./lib.aya\" lib &[$1000] { a: $0042, b: !size, c: [other.field] }";
    let ast = parse(code).unwrap();
    assert!(check_imports_placed(&ast));
    let vars = import_variables(code);
    assert!(check_import_vars(code, &vars));
    let mut m = module("main", "main.aya");
    m.symbols.insert(b"size", 0x0010);
    let table = resolve_import_vars(code, &m, &vars).unwrap();
    assert!(matches!(table.get(b"a"), Some(Either::ResolvedValue(0x0042))));
    assert!(matches!(table.get(b"b"), Some(Either::ResolvedValue(0x0010))));
    match table.get(b"c") {
        Some(Either::ModuleField { module, field }) => {
            assert_eq!(module, "other");
            assert_eq!(field, "field");
        },
        other => panic!("unexpected value {other:?}"),
    }
}

#[test]
fn import_variable_errors() {
    let m = module("main", "main.aya");
    let twice = "import \"./lib.aya\" lib &[$1000] { a: $01, a: $02 }";
    assert!(matches!(resolve_import_vars(twice, &m, &import_variables(twice)), Err(Error::DuplicateVariable(_))));
    let missing = "import \"./lib.aya\" lib &[$1000] { a: !nothing }";
    assert!(matches!(resolve_import_vars(missing, &m, &import_variables(missing)), Err(Error::UndefinedVariable(_))));
    let big = "import \"./lib.aya\" lib &[$1000] { a: $12345 }";
    assert!(matches!(resolve_import_vars(big, &m, &import_variables(big)), Err(Error::InvalidConstant(_))));
}

#[test]
fn kahn_orders_before_targets() {
    let edges = vec![vec![1, 2], vec![2], vec![]];
    assert_eq!(kahn_order(&edges), Some(vec![0, 1, 2]));
    let cycle = vec![vec![1], vec![0]];
    assert_eq!(kahn_order(&cycle), None);
}

#[test]
fn modules_come_after_their_imports() {
    let mut main = module("main", "main.aya");
    main.imports.push("lib.aya".to_string());
    let mut lib = module("lib", "lib.aya");
    lib.imports.push("util.aya".to_string());
    let util = module("util", "util.aya");
    let modules = vec![util, lib, main];
    assert!(links_fit(&modules));
    assert!(has_dependency_order(&modules));
    let order = topological_sort(&modules);
    assert_eq!(order, vec![0, 1, 2]);

    let mut a = module("a", "a.aya");
    a.imports.push("b.aya".to_string());
    let mut b = module("b", "b.aya");
    b.imports.push("a.aya".to_string());
    assert!(!has_dependency_order(&vec![a, b]));
}

#[test]
fn arranging_follows_the_order() {
    assert_eq!(arrange(vec!['a', 'b', 'c'], &vec![2, 0, 1]), vec!['c', 'a', 'b']);
}

#[test]
fn fields_are_looked_up() {
    let mut lib = module("lib", "lib.aya");
    lib.symbols.insert(b"start", 0x1234);
    let mut main = module("main", "main.aya");
    let mut vars = Table::new();
    vars.insert(b"entry", Either::ModuleField { module: "lib".to_string(), field: "start".to_string() });
    vars.insert(b"plain", Either::ResolvedValue(7));
    main.variables = Some(vars);
    let out = resolve_fields(vec![lib, main]).unwrap();
    let vars = out[1].variables.as_ref().unwrap();
    assert!(matches!(vars.get(b"entry"), Some(Either::ResolvedValue(0x1234))));
    assert!(matches!(vars.get(b"plain"), Some(Either::ResolvedValue(7))));

    let mut lone = module("main", "main.aya");
    let mut vars = Table::new();
    vars.insert(b"entry", Either::ModuleField { module: "lib".to_string(), field: "nothing".to_string() });
    lone.variables = Some(vars);
    assert!(resolve_fields(vec![lone]).is_none());
}

#[test]
fn ordering_lays_out_modules_and_trees() {
    let mut main = module("main", "main.aya");
    main.imports.push("lib.aya".to_string());
    let lib = module("lib", "lib.aya");
    let asts = vec![parse("hlt").unwrap(), parse("ret").unwrap()];
    let resolved = order_modules(vec![main, lib], asts, Table::new()).unwrap();
    assert_eq!(resolved.modules[0].name, "lib");
    assert_eq!(resolved.modules[1].name, "main");
    assert_eq!(resolved.asts[0].statements.len(), 1);
}
