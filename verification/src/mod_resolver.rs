//! What the modules of a program know of each other: the constants of each
//! module, the values that an import hands a module, and the order in which
//! the modules are laid out.
use vstd::prelude::*;

use crate::compiler::{in_code, text};
use crate::generator::has_offset;
use crate::hex::{hex_number, parse_hex_u16};
use crate::parser::ast::{constants_of, imports_placed, Ast, ByteOffset, Statement};
use crate::parser::error::Error;
use crate::graph::{edge_count, edges_ok, graph_of, is_topological, kahn_order, lemma_distinct_nodes, lemma_push_contains};
use crate::table::Table;
use vstd::pervasive::VecAdditionalExecFns;
use vstd::string::StringSliceAdditionalSpecFns;

verus! {

/// The value of an import variable: a number, or a field of another module
/// that is still to be looked up.
#[derive(Debug)]
pub enum Either {
    ResolvedValue(u16),
    ModuleField { module: String, field: String },
}

impl Either {
    /// The number of a resolved value.
    pub fn to_value(&self) -> (v: u16)
        requires
            self is ResolvedValue,
        ensures
            v == self->ResolvedValue_0,
    {
        match self {
            Either::ResolvedValue(value) => *value,
            _ => unreached(),
        }
    }

    /// The low byte of a resolved value.
    pub fn to_value_small(&self) -> (v: u8)
        requires
            self is ResolvedValue,
        ensures
            v == self->ResolvedValue_0 % 256,
    {
        match self {
            Either::ResolvedValue(value) => (*value % 256) as u8,
            _ => unreached(),
        }
    }
}


/// What an import variable stands for, names as bytes: a number, or a field
/// of a module.
pub enum VarValue {
    Number(u16),
    Field(Seq<u8>, Seq<u8>),
}

impl Either {
    /// What the value stands for.
    pub open spec fn meaning(&self) -> VarValue {
        match self {
            Either::ResolvedValue(v) => VarValue::Number(*v),
            Either::ModuleField { module, field } => VarValue::Field(
                vstd::utf8::encode_utf8(module@),
                vstd::utf8::encode_utf8(field@),
            ),
        }
    }
}

/// A module of a program: its name, where it was read from and is placed,
/// the modules it imports, its constants, and the values its importer hands it.
#[derive(Debug)]
pub struct ResolvedModule {
    pub name: String,
    pub path: String,
    pub address: u16,
    pub imports: Vec<String>,
    pub symbols: Table<u16>,
    pub variables: Option<Table<Either>>,
}

/// The symbols after the constants `cs`: each constant's value under its
/// name; the first constant whose value does not fit 16 bits is an error.
pub open spec fn constants_spec(
    code: Seq<u8>,
    cs: Seq<(ByteOffset, Statement, bool)>,
    symbols: Map<Seq<u8>, u16>,
) -> (Result<(), Error>, Map<Seq<u8>, u16>)
    decreases cs.len(),
{
    if cs.len() == 0 {
        (Ok(()), symbols)
    } else {
        let (r, m) = constants_spec(code, cs.drop_last(), symbols);
        match r {
            Err(e) => (Err(e), m),
            Ok(_) => match cs.last().1 {
                Statement::HexLiteral(o) => match hex_number(text(code, o), 0xFFFF) {
                    Some(v) => (Ok(()), m.insert(text(code, cs.last().0), v as u16)),
                    None => (Err(Error::InvalidConstant(o)), m),
                },
                _ => (Ok(()), m),
            },
        }
    }
}

/// Whether every constant is a hex literal, its name and value in the source.
pub open spec fn constants_ok(code: Seq<u8>, cs: Seq<(ByteOffset, Statement, bool)>) -> bool {
    forall|i: int|
        0 <= i < cs.len() ==> {
            let (name, value, _) = #[trigger] cs[i];
            &&& in_code(code, name)
            &&& value matches Statement::HexLiteral(o) && in_code(code, o)
        }
}

/// Enters the constants of `ast` into the symbols of `module` (see
/// `constants_spec`); nothing else of the module changes.
pub fn resolve_constants(code: &str, module: &mut ResolvedModule, ast: &Ast) -> (r: Result<(), Error>)
    requires
        constants_ok(code.spec_bytes(), constants_of(ast.statements@)),
    ensures
        (r, final(module).symbols@) == constants_spec(code.spec_bytes(), constants_of(ast.statements@), old(module).symbols@),
        final(module).name == old(module).name,
        final(module).path == old(module).path,
        final(module).address == old(module).address,
        final(module).imports == old(module).imports,
        final(module).variables == old(module).variables,
{
    let bytes = code.as_bytes();
    let cs = ast.constants();
    let ghost all = constants_of(ast.statements@);
    let mut i: usize = 0;
    while i < cs.len()
        invariant
            bytes@ == code.spec_bytes(),
            all == constants_of(ast.statements@),
            i <= cs@.len(),
            cs@.len() == all.len(),
            forall|j: int|
                0 <= j < cs@.len() ==> {
                    let (n, v, e) = #[trigger] cs@[j];
                    all[j] == (*n, *v, *e)
                },
            constants_ok(bytes@, all),
            constants_spec(bytes@, all.take(i as int), old(module).symbols@) == (Ok::<(), Error>(()), module.symbols@),
            module.name == old(module).name,
            module.path == old(module).path,
            module.address == old(module).address,
            module.imports == old(module).imports,
            module.variables == old(module).variables,
        decreases cs@.len() - i,
    {
        let (name, value, _) = cs[i];
        proof {
            assert(all.take(i + 1).drop_last() =~= all.take(i as int));
            assert(all.take(i + 1).last() == all[i as int]);
            assert(all[i as int].1 == *value);
            assert(all[i as int].0 == *name);
        }
        match value {
            Statement::HexLiteral(o) => {
                match parse_hex_u16(&bytes[o.start..o.end]) {
                    Some(v) => {
                        module.symbols.insert(&bytes[name.start..name.end], v);
                    },
                    None => {
                        proof {
                            assert(bytes@.subrange(o.start as int, o.end as int) == text(bytes@, *o));
                            assert(constants_spec(bytes@, all.take(i + 1), old(module).symbols@) == (
                            Err::<(), Error>(Error::InvalidConstant(*o)), module.symbols@));
                            lemma_constants_error_stays(bytes@, all, old(module).symbols@, i + 1);
                        }
                        return Err(Error::InvalidConstant(*o));
                    },
                }
            },
            _ => {},
        }
        i = i + 1;
    }
    proof {
        assert(all.take(i as int) =~= all);
    }
    Ok(())
}

/// Once entering the constants has failed, it fails the same way to the end.
proof fn lemma_constants_error_stays(
    code: Seq<u8>,
    cs: Seq<(ByteOffset, Statement, bool)>,
    symbols: Map<Seq<u8>, u16>,
    k: int,
)
    requires
        0 <= k <= cs.len(),
        constants_spec(code, cs.take(k), symbols).0 is Err,
    ensures
        constants_spec(code, cs, symbols) == constants_spec(code, cs.take(k), symbols),
    decreases cs.len() - k,
{
    if k == cs.len() {
        assert(cs.take(k) =~= cs);
    } else {
        assert(cs.take(k + 1).drop_last() =~= cs.take(k));
        lemma_constants_error_stays(code, cs, symbols, k + 1);
    }
}


/// Whether `o` covers a piece of `code` that starts and ends between characters.
pub open spec fn piece_ok(code: Seq<u8>, o: ByteOffset) -> bool {
    &&& o.start <= o.end <= code.len()
    &&& vstd::utf8::is_char_boundary(code, o.start as int)
    &&& vstd::utf8::is_char_boundary(code, o.end as int)
}

/// The piece of `code` that `o` covers.
pub(crate) fn piece(code: &str, o: ByteOffset) -> (p: &str)
    requires
        piece_ok(code.spec_bytes(), o),
    ensures
        p.spec_bytes() == text(code.spec_bytes(), o),
{
    let (_, rest) = code.split_at(o.start);
    proof {
        let cb = code.spec_bytes();
        let rb = rest.spec_bytes();
        vstd::utf8::encode_utf8_valid_utf8(rest@);
        vstd::utf8::encode_utf8_valid_utf8(code@);
        let m = o.end - o.start;
        assert(rb =~= cb.subrange(o.start as int, cb.len() as int));
        if 0 < m < rb.len() {
            vstd::utf8::is_char_boundary_iff_not_is_continuation_byte(rb, m);
            vstd::utf8::is_char_boundary_iff_not_is_continuation_byte(cb, o.end as int);
            assert(rb[m] == cb[o.end as int]);
        } else {
            vstd::utf8::is_char_boundary_start_end_of_seq(rb);
        }
    }
    let (p, _) = rest.split_at(o.end - o.start);
    proof {
        assert(p.spec_bytes() =~= text(code.spec_bytes(), o));
    }
    p
}

/// Whether an import variable can be worked on: a name and a value that is a
/// constant's name, a hex literal or a field of a module, in the source.
pub open spec fn var_ok(code: Seq<u8>, v: Statement) -> bool {
    match v {
        Statement::ImportVar { name, value } => {
            &&& in_code(code, name)
            &&& v.spec_offset() is Some
            &&& match *value {
                Statement::Var(o) => in_code(code, o),
                Statement::HexLiteral(o) => in_code(code, o),
                Statement::FieldAccessor { module, field } => piece_ok(code, module) && piece_ok(code, field),
                _ => false,
            }
        },
        _ => false,
    }
}

/// The values an import hands the imported module, by name: a constant of
/// the importing module by its number, a hex literal by its number, a field
/// of a module as it is named. A name given twice, a name that is no
/// constant, and a number over 16 bits are errors, the first one found.
pub open spec fn import_vars_spec(
    code: Seq<u8>,
    symbols: Map<Seq<u8>, u16>,
    vars: Seq<Statement>,
) -> Result<Map<Seq<u8>, VarValue>, Error>
    decreases vars.len(),
{
    if vars.len() == 0 {
        Ok(Map::empty())
    } else {
        match import_vars_spec(code, symbols, vars.drop_last()) {
            Err(e) => Err(e),
            Ok(m) => {
                let v = vars.last();
                match v {
                    Statement::ImportVar { name, value } => {
                        let n = text(code, name);
                        if m.contains_key(n) {
                            Err(Error::DuplicateVariable(v.spec_offset()->Some_0))
                        } else {
                            match *value {
                                Statement::Var(o) => if symbols.contains_key(text(code, o)) {
                                    Ok(m.insert(n, VarValue::Number(symbols[text(code, o)])))
                                } else {
                                    Err(Error::UndefinedVariable(v.spec_offset()->Some_0))
                                },
                                Statement::HexLiteral(o) => match hex_number(text(code, o), 0xFFFF) {
                                    Some(x) => Ok(m.insert(n, VarValue::Number(x as u16))),
                                    None => Err(Error::InvalidConstant(v.spec_offset()->Some_0)),
                                },
                                Statement::FieldAccessor { module, field } => Ok(
                                    m.insert(n, VarValue::Field(text(code, module), text(code, field))),
                                ),
                                _ => Ok(m),
                            }
                        }
                    },
                    _ => Ok(m),
                }
            },
        }
    }
}

proof fn lemma_vars_error_stays(code: Seq<u8>, symbols: Map<Seq<u8>, u16>, vars: Seq<Statement>, k: int)
    requires
        0 <= k <= vars.len(),
        import_vars_spec(code, symbols, vars.take(k)) is Err,
    ensures
        import_vars_spec(code, symbols, vars) == import_vars_spec(code, symbols, vars.take(k)),
    decreases vars.len() - k,
{
    if k == vars.len() {
        assert(vars.take(k) =~= vars);
    } else {
        assert(vars.take(k + 1).drop_last() =~= vars.take(k));
        lemma_vars_error_stays(code, symbols, vars, k + 1);
    }
}

/// Whether `t` holds exactly the values of `m`.
pub open spec fn holds_values(t: Map<Seq<u8>, Either>, m: Map<Seq<u8>, VarValue>) -> bool {
    &&& t.dom() == m.dom()
    &&& forall|k: Seq<u8>| #[trigger] m.contains_key(k) ==> t[k].meaning() == m[k]
}

/// The values an import hands the imported module (see `import_vars_spec`).
pub fn resolve_import_vars(code: &str, module: &ResolvedModule, variables: &Vec<Statement>) -> (r: Result<Table<Either>, Error>)
    requires
        forall|i: int| 0 <= i < variables@.len() ==> var_ok(code.spec_bytes(), #[trigger] variables@[i]),
    ensures
        match import_vars_spec(code.spec_bytes(), module.symbols@, variables@) {
            Ok(m) => r matches Ok(t) && holds_values(t@, m),
            Err(e) => r matches Err(x) && x == e,
        },
{
    let bytes = code.as_bytes();
    let ghost vars = variables@;
    let ghost symbols = module.symbols@;
    let mut resolved: Table<Either> = Table::new();
    let mut i: usize = 0;
    while i < variables.len()
        invariant
            bytes@ == code.spec_bytes(),
            vars == variables@,
            symbols == module.symbols@,
            i <= vars.len(),
            forall|j: int| 0 <= j < vars.len() ==> var_ok(bytes@, #[trigger] vars[j]),
            import_vars_spec(bytes@, symbols, vars.take(i as int)) matches Ok(m) && holds_values(resolved@, m),
        decreases vars.len() - i,
    {
        proof {
            assert(vars.take(i + 1).drop_last() =~= vars.take(i as int));
            assert(vars.take(i + 1).last() == vars[i as int]);
        }
        let ghost m = import_vars_spec(bytes@, symbols, vars.take(i as int))->Ok_0;
        let variable = &variables[i];
        match variable {
            Statement::ImportVar { name, value } => {
                let name_bytes = &bytes[name.start..name.end];
                proof {
                    assert(name_bytes@ == text(bytes@, *name));
                }
                if resolved.get(name_bytes).is_some() {
                    proof {
                        lemma_vars_error_stays(bytes@, symbols, vars, i + 1);
                    }
                    return Err(Error::DuplicateVariable(variable.offset()));
                }
                match &**value {
                    Statement::Var(o) => {
                        let key = &bytes[o.start..o.end];
                        proof {
                            assert(key@ == text(bytes@, *o));
                        }
                        match module.symbols.get(key) {
                            Some(v) => {
                                resolved.insert(name_bytes, Either::ResolvedValue(*v));
                                proof {
                                    let m2 = m.insert(name_bytes@, VarValue::Number(*v));
                                    assert(resolved@.dom() =~= m2.dom());
                                }
                            },
                            None => {
                                proof {
                                    lemma_vars_error_stays(bytes@, symbols, vars, i + 1);
                                }
                                return Err(Error::UndefinedVariable(variable.offset()));
                            },
                        }
                    },
                    Statement::HexLiteral(o) => {
                        let digits = &bytes[o.start..o.end];
                        proof {
                            assert(digits@ == text(bytes@, *o));
                        }
                        match parse_hex_u16(digits) {
                            Some(x) => {
                                resolved.insert(name_bytes, Either::ResolvedValue(x));
                                proof {
                                    let m2 = m.insert(name_bytes@, VarValue::Number(x));
                                    assert(resolved@.dom() =~= m2.dom());
                                }
                            },
                            None => {
                                proof {
                                    lemma_vars_error_stays(bytes@, symbols, vars, i + 1);
                                }
                                return Err(Error::InvalidConstant(variable.offset()));
                            },
                        }
                    },
                    Statement::FieldAccessor { module: from, field } => {
                        let module_name = piece(code, *from).to_owned();
                        let field_name = piece(code, *field).to_owned();
                        resolved.insert(name_bytes, Either::ModuleField { module: module_name, field: field_name });
                        proof {
                            let m2 = m.insert(name_bytes@, VarValue::Field(text(bytes@, *from), text(bytes@, *field)));
                            assert(resolved@.dom() =~= m2.dom());
                        }
                    },
                    _ => {},
                }
            },
            _ => {},
        }
        i = i + 1;
    }
    proof {
        assert(vars.take(i as int) =~= vars);
    }
    Ok(resolved)
}


/// The bytes of a string.
pub open spec fn bytes_of(s: String) -> Seq<u8> {
    vstd::utf8::encode_utf8(s@)
}

/// The bytes of a string.
pub fn string_bytes(s: &String) -> (b: &[u8])
    ensures
        b@ == bytes_of(*s),
{
    s.as_str().as_bytes()
}

/// The last module below `m` read from `path`.
pub open spec fn path_index(ms: Seq<ResolvedModule>, path: Seq<u8>, m: int) -> Option<int>
    decreases m,
{
    if m <= 0 {
        None
    } else if bytes_of(ms[m - 1].path) == path {
        Some(m - 1)
    } else {
        path_index(ms, path, m - 1)
    }
}

/// The last module below `m` named `name`.
pub open spec fn name_index(ms: Seq<ResolvedModule>, name: Seq<u8>, m: int) -> Option<int>
    decreases m,
{
    if m <= 0 {
        None
    } else if bytes_of(ms[m - 1].name) == name {
        Some(m - 1)
    } else {
        name_index(ms, name, m - 1)
    }
}

proof fn lemma_index_bounds(ms: Seq<ResolvedModule>, key: Seq<u8>, m: int)
    requires
        0 <= m,
    ensures
        path_index(ms, key, m) matches Some(i) ==> 0 <= i < m && bytes_of(ms[i].path) == key,
        name_index(ms, key, m) matches Some(i) ==> 0 <= i < m && bytes_of(ms[i].name) == key,
    decreases m,
{
    if m > 0 {
        lemma_index_bounds(ms, key, m - 1);
    }
}

/// The last module read from `path`.
fn find_path(modules: &Vec<ResolvedModule>, path: &[u8]) -> (r: Option<usize>)
    ensures
        r == match path_index(modules@, path@, modules@.len() as int) {
            Some(i) => Some(i as usize),
            None => None::<usize>,
        },
{
    let mut m = modules.len();
    while m > 0
        invariant
            m <= modules@.len(),
            path_index(modules@, path@, modules@.len() as int) == path_index(modules@, path@, m as int),
        decreases m,
    {
        if crate::table::bytes_eq(string_bytes(&modules[m - 1].path), path) {
            return Some(m - 1);
        }
        m = m - 1;
    }
    None
}

/// The last module named `name`.
fn find_name(modules: &Vec<ResolvedModule>, name: &[u8]) -> (r: Option<usize>)
    ensures
        r == match name_index(modules@, name@, modules@.len() as int) {
            Some(i) => Some(i as usize),
            None => None::<usize>,
        },
{
    let mut m = modules.len();
    while m > 0
        invariant
            m <= modules@.len(),
            name_index(modules@, name@, modules@.len() as int) == name_index(modules@, name@, m as int),
        decreases m,
    {
        if crate::table::bytes_eq(string_bytes(&modules[m - 1].name), name) {
            return Some(m - 1);
        }
        m = m - 1;
    }
    None
}

/// Whether module `u` depends on module `v`: it imports the path `v` was
/// read from, or it is handed a field of the module named as `v` is (the
/// last module with that path or name counts).
pub open spec fn depends(ms: Seq<ResolvedModule>, u: int, v: int) -> bool {
    ||| exists|k: int|
        0 <= k < ms[u].imports@.len() && #[trigger] path_index(ms, bytes_of(ms[u].imports@[k]), ms.len() as int) == Some(v)
    ||| match ms[u].variables {
        Some(t) => exists|key: Seq<u8>| #[trigger] t@.contains_key(key) && field_target(ms, t@[key]) == Some(v),
        None => false,
    }
}

/// The number of imports and handed values of the modules below `m`.
pub open spec fn link_count(ms: Seq<ResolvedModule>, m: int) -> nat
    decreases m,
{
    if m <= 0 {
        0
    } else {
        link_count(ms, m - 1) + ms[m - 1].imports@.len() + match ms[m - 1].variables {
            Some(t) => t.size(),
            None => 0,
        }
    }
}

/// Whether the links of the modules can be counted in a machine word.
pub fn links_fit(modules: &Vec<ResolvedModule>) -> (b: bool)
    ensures
        b == (link_count(modules@, modules@.len() as int) <= usize::MAX),
{
    let mut total: usize = 0;
    let mut u: usize = 0;
    while u < modules.len()
        invariant
            u <= modules@.len(),
            total == link_count(modules@, u as int),
        decreases modules@.len() - u,
    {
        let vars = match &modules[u].variables {
            Some(t) => t.len(),
            None => 0,
        };
        let imports = modules[u].imports.len();
        if total > usize::MAX - imports || total + imports > usize::MAX - vars {
            proof {
                lemma_link_count_grows(modules@, u as int + 1, modules@.len() as int);
            }
            return false;
        }
        total = total + imports + vars;
        u = u + 1;
    }
    true
}

proof fn lemma_link_count_grows(ms: Seq<ResolvedModule>, a: int, b: int)
    requires
        0 <= a <= b <= ms.len(),
    ensures
        link_count(ms, a) <= link_count(ms, b),
    decreases b - a,
{
    if a < b {
        lemma_link_count_grows(ms, a, b - 1);
    }
}

/// The edges of the modules: for each module, the modules it depends on.
fn module_edges(modules: &Vec<ResolvedModule>) -> (edges: Vec<Vec<usize>>)
    ensures
        edges@.len() == modules@.len(),
        edges_ok(graph_of(edges@)),
        forall|u: int, v: usize|
            0 <= u < modules@.len() && v < modules@.len() ==> (#[trigger] graph_of(edges@)[u].contains(v)
                <==> depends(modules@, u, v as int)),
        edge_count(graph_of(edges@), edges@.len() as int) <= link_count(modules@, modules@.len() as int),
{
    let ghost ms = modules@;
    let n = modules.len();
    let mut edges: Vec<Vec<usize>> = Vec::new();
    let mut u: usize = 0;
    while u < n
        invariant
            n == ms.len(),
            ms == modules@,
            u <= n,
            edges@.len() == u,
            edges_ok_below(graph_of(edges@), n as int),
            forall|w: int, v: usize|
                0 <= w < u && v < n ==> (#[trigger] graph_of(edges@)[w].contains(v) <==> depends(ms, w, v as int)),
            edge_count(graph_of(edges@), u as int) <= link_count(ms, u as int),
        decreases n - u,
    {
        let module = &modules[u];
        let mut out: Vec<usize> = Vec::new();
        let mut k: usize = 0;
        while k < module.imports.len()
            invariant
                n == ms.len(),
                ms == modules@,
                u < n,
                *module == ms[u as int],
                k <= module.imports@.len(),
                out@.len() <= k,
                forall|j: int| 0 <= j < out@.len() ==> #[trigger] out@[j] < n,
                forall|v: usize|
                    v < n ==> (#[trigger] out@.contains(v) <==> exists|j: int|
                        0 <= j < k && #[trigger] path_index(ms, bytes_of(module.imports@[j]), n as int) == Some(v as int)),
            decreases module.imports@.len() - k,
        {
            let found = find_path(modules, string_bytes(&module.imports[k]));
            proof {
                lemma_index_bounds(ms, bytes_of(module.imports@[k as int]), n as int);
            }
            let ghost prev = out@;
            match found {
                Some(v) => {
                    out.push(v);
                },
                None => {},
            }
            proof {
                assert forall|v: usize| v < n implies (#[trigger] out@.contains(v) <==> exists|j: int|
                    0 <= j < k + 1 && #[trigger] path_index(ms, bytes_of(module.imports@[j]), n as int) == Some(v as int)) by {
                    if found is Some {
                        lemma_push_contains(prev, found->Some_0, v);
                    }
                    if exists|j: int| 0 <= j < k + 1 && #[trigger] path_index(ms, bytes_of(module.imports@[j]), n as int) == Some(v as int) {
                        let j = choose|j: int| 0 <= j < k + 1 && #[trigger] path_index(ms, bytes_of(module.imports@[j]), n as int) == Some(v as int);
                        if j < k {
                            assert(prev.contains(v));
                        }
                    }
                }
            }
            k = k + 1;
        }
        let ghost after_imports = out@;
        match &module.variables {
            Some(t) => {
                let size = t.len();
                let mut i: usize = 0;
                while i < size
                    invariant
                        n == ms.len(),
                        ms == modules@,
                        u < n,
                        *module == ms[u as int],
                        module.variables == Some(*t),
                        size == t.size(),
                        i <= size,
                        out@.len() <= module.imports@.len() + i,
                        forall|j: int| 0 <= j < out@.len() ==> #[trigger] out@[j] < n,
                        forall|a: int| 0 <= a < t.size() ==> #[trigger] t@.contains_key(t.key_at(a)),
                        forall|key: Seq<u8>| #[trigger] t@.contains_key(key) ==> exists|a: int| 0 <= a < t.size() && t.key_at(a) == key,
                        forall|v: usize|
                            v < n ==> (#[trigger] out@.contains(v) <==> (exists|j: int|
                                0 <= j < module.imports@.len() && #[trigger] path_index(ms, bytes_of(module.imports@[j]), n as int)
                                    == Some(v as int)) || exists|a: int|
                                0 <= a < i && #[trigger] field_target(ms, t@[t.key_at(a)]) == Some(v as int)),
                    decreases size - i,
                {
                    let (_, value) = t.entry_at(i);
                    let found = match value {
                        Either::ModuleField { module: m, .. } => find_name(modules, string_bytes(m)),
                        _ => None,
                    };
                    proof {
                        if let Either::ModuleField { module: m, .. } = value {
                            lemma_index_bounds(ms, bytes_of(*m), n as int);
                        }
                        assert(found == match field_target(ms, t@[t.key_at(i as int)]) {
                            Some(v) => Some(v as usize),
                            None => None::<usize>,
                        });
                    }
                    let ghost prev = out@;
                    match found {
                        Some(v) => {
                            out.push(v);
                        },
                        None => {},
                    }
                    proof {
                        assert forall|v: usize| v < n implies (#[trigger] out@.contains(v) <==> (exists|j: int|
                            0 <= j < module.imports@.len() && #[trigger] path_index(ms, bytes_of(module.imports@[j]), n as int)
                                == Some(v as int)) || exists|a: int|
                            0 <= a < i + 1 && #[trigger] field_target(ms, t@[t.key_at(a)]) == Some(v as int)) by {
                            if found is Some {
                                lemma_push_contains(prev, found->Some_0, v);
                            }
                            if exists|a: int| 0 <= a < i + 1 && #[trigger] field_target(ms, t@[t.key_at(a)]) == Some(v as int) {
                                let a = choose|a: int| 0 <= a < i + 1 && #[trigger] field_target(ms, t@[t.key_at(a)]) == Some(v as int);
                                if a < i {
                                    assert(prev.contains(v));
                                }
                            }
                        }
                    }
                    i = i + 1;
                }
                proof {
                    assert forall|v: usize| v < n implies (#[trigger] out@.contains(v) <==> depends(ms, u as int, v as int)) by {
                        let second = exists|key: Seq<u8>| #[trigger] t@.contains_key(key) && field_target(ms, t@[key]) == Some(v as int);
                        if exists|a: int| 0 <= a < size && #[trigger] field_target(ms, t@[t.key_at(a)]) == Some(v as int) {
                            let a = choose|a: int| 0 <= a < size && #[trigger] field_target(ms, t@[t.key_at(a)]) == Some(v as int);
                            assert(t@.contains_key(t.key_at(a)));
                            assert(second);
                        }
                        if second {
                            let key = choose|key: Seq<u8>| #[trigger] t@.contains_key(key) && field_target(ms, t@[key]) == Some(v as int);
                            let a = choose|a: int| 0 <= a < t.size() && t.key_at(a) == key;
                            assert(field_target(ms, t@[t.key_at(a)]) == Some(v as int));
                        }
                    }
                }
            },
            None => {
                proof {
                    assert forall|v: usize| v < n implies (#[trigger] out@.contains(v) <==> depends(ms, u as int, v as int)) by {}
                }
            },
        }
        let ghost before = edges@;
        edges.push(out);
        proof {
            assert(graph_of(edges@).drop_last() =~= graph_of(before));
            assert(graph_of(edges@)[u as int] == out@);
            assert forall|w: int, v: usize|
                0 <= w < u + 1 && v < n implies (#[trigger] graph_of(edges@)[w].contains(v) <==> depends(ms, w, v as int)) by {
                if w < u {
                    assert(graph_of(edges@)[w] == graph_of(before)[w]);
                }
            }
            assert(edges_ok_below(graph_of(edges@), n as int)) by {
                assert forall|w: int, k: int| 0 <= w < graph_of(edges@).len() && 0 <= k < graph_of(edges@)[w].len()
                    implies #[trigger] graph_of(edges@)[w][k] < n by {
                    if w < u {
                        assert(graph_of(edges@)[w] == graph_of(before)[w]);
                    }
                }
            }
            assert(edge_count(graph_of(edges@), u + 1) == edge_count(graph_of(before), u as int) + out@.len()) by {
                lemma_edge_count_prefix(graph_of(edges@), graph_of(before), u as int);
            }
        }
        u = u + 1;
    }
    edges
}

/// Where a handed value points: the module a field names.
pub open spec fn field_target(ms: Seq<ResolvedModule>, e: Either) -> Option<int> {
    match e {
        Either::ModuleField { module, .. } => name_index(ms, bytes_of(module), ms.len() as int),
        _ => None,
    }
}

/// Whether every edge points below `n`.
pub open spec fn edges_ok_below(g: Seq<Seq<usize>>, n: int) -> bool {
    forall|u: int, k: int| 0 <= u < g.len() && 0 <= k < g[u].len() ==> #[trigger] g[u][k] < n
}

proof fn lemma_edge_count_prefix(g: Seq<Seq<usize>>, front: Seq<Seq<usize>>, m: int)
    requires
        0 <= m <= front.len(),
        front.len() < g.len(),
        forall|i: int| 0 <= i < front.len() ==> g[i] == front[i],
    ensures
        edge_count(g, m) == edge_count(front, m),
        m == front.len() ==> edge_count(g, m + 1) == edge_count(front, m) + g[m].len(),
    decreases m,
{
    if m > 0 {
        lemma_edge_count_prefix(g, front, m - 1);
    }
}


/// Whether `order` lists every module once, each after the modules it
/// depends on.
pub open spec fn dependency_order(ms: Seq<ResolvedModule>, order: Seq<usize>) -> bool {
    &&& order.len() == ms.len()
    &&& order.no_duplicates()
    &&& forall|i: int| 0 <= i < order.len() ==> #[trigger] order[i] < ms.len()
    &&& forall|i: int, j: int|
        #![trigger order[i], order[j]]
        0 <= i < order.len() && 0 <= j < order.len() && depends(ms, order[i] as int, order[j] as int) ==> j < i
}

/// The list backwards.
fn backwards(v: &Vec<usize>) -> (r: Vec<usize>)
    ensures
        r@.len() == v@.len(),
        forall|i: int| 0 <= i < v@.len() ==> #[trigger] r@[i] == v@[v@.len() - 1 - i],
{
    let mut r: Vec<usize> = Vec::new();
    let mut i: usize = v.len();
    while i > 0
        invariant
            i <= v@.len(),
            r@.len() == v@.len() - i,
            forall|j: int| 0 <= j < r@.len() ==> #[trigger] r@[j] == v@[v@.len() - 1 - j],
        decreases i,
    {
        i = i - 1;
        r.push(v[i]);
    }
    r
}

/// A list and its backward list: one is a dependency order exactly where the
/// other lists each module before those it depends on.
proof fn lemma_backwards_order(ms: Seq<ResolvedModule>, g: Seq<Seq<usize>>, a: Seq<usize>, b: Seq<usize>)
    requires
        g.len() == ms.len(),
        forall|u: int, v: usize| 0 <= u < ms.len() && v < ms.len() ==> (#[trigger] g[u].contains(v) <==> depends(ms, u, v as int)),
        a.len() == b.len(),
        forall|i: int| 0 <= i < a.len() ==> #[trigger] b[i] == a[a.len() - 1 - i],
    ensures
        is_topological(g, a) <==> dependency_order(ms, b),
{
    let n = a.len() as int;
    assert forall|i: int| 0 <= i < n implies #[trigger] a[i] == b[n - 1 - i] by {
        assert(b[n - 1 - i] == a[n - 1 - (n - 1 - i)]);
    }
    if is_topological(g, a) {
        assert(b.no_duplicates()) by {
            assert forall|i: int, j: int| 0 <= i < b.len() && 0 <= j < b.len() && i != j implies b[i] != b[j] by {
                assert(b[i] == a[n - 1 - i]);
                assert(b[j] == a[n - 1 - j]);
            }
        }
        assert forall|i: int| 0 <= i < b.len() implies #[trigger] b[i] < ms.len() by {
            assert(b[i] == a[n - 1 - i]);
        }
        assert forall|i: int, j: int|
            #![trigger b[i], b[j]]
            0 <= i < b.len() && 0 <= j < b.len() && depends(ms, b[i] as int, b[j] as int) implies j < i by {
            assert(b[i] == a[n - 1 - i]);
            assert(b[j] == a[n - 1 - j]);
            assert(g[a[n - 1 - i] as int].contains(a[n - 1 - j]));
        }
    }
    if dependency_order(ms, b) {
        assert(a.no_duplicates()) by {
            assert forall|i: int, j: int| 0 <= i < a.len() && 0 <= j < a.len() && i != j implies a[i] != a[j] by {
                assert(a[i] == b[n - 1 - i]);
                assert(a[j] == b[n - 1 - j]);
            }
        }
        assert forall|i: int| 0 <= i < a.len() implies #[trigger] a[i] < g.len() by {
            assert(a[i] == b[n - 1 - i]);
        }
        assert forall|i: int, j: int|
            #![trigger a[i], a[j]]
            0 <= i < a.len() && 0 <= j < a.len() && g[a[i] as int].contains(a[j]) implies i < j by {
            assert(a[i] == b[n - 1 - i]);
            assert(a[j] == b[n - 1 - j]);
            assert(depends(ms, b[n - 1 - i] as int, b[n - 1 - j] as int));
        }
    }
}

/// Whether the modules can be laid out each after the modules it depends on:
/// false exactly where their dependencies close a cycle.
pub fn has_dependency_order(modules: &Vec<ResolvedModule>) -> (b: bool)
    requires
        link_count(modules@, modules@.len() as int) <= usize::MAX,
    ensures
        b == exists|o: Seq<usize>| dependency_order(modules@, o),
{
    let edges = module_edges(modules);
    let ghost g = graph_of(edges@);
    match kahn_order(&edges) {
        Some(order) => {
            let sorted = backwards(&order);
            proof {
                lemma_backwards_order(modules@, g, order@, sorted@);
            }
            true
        },
        None => {
            proof {
                assert forall|o: Seq<usize>| !dependency_order(modules@, o) by {
                    let n = o.len() as int;
                    let a = Seq::new(o.len(), |i: int| o[n - 1 - i]);
                    lemma_backwards_order(modules@, g, a, o);
                }
            }
            false
        },
    }
}

/// The modules in an order in which each comes after the modules it depends
/// on (Kahn's order, backwards), for modules whose dependencies close no
/// cycle (see `has_dependency_order`).
pub fn topological_sort(modules: &Vec<ResolvedModule>) -> (r: Vec<usize>)
    requires
        link_count(modules@, modules@.len() as int) <= usize::MAX,
        exists|o: Seq<usize>| dependency_order(modules@, o),
    ensures
        dependency_order(modules@, r@),
{
    let edges = module_edges(modules);
    let ghost g = graph_of(edges@);
    match kahn_order(&edges) {
        Some(order) => {
            let sorted = backwards(&order);
            proof {
                lemma_backwards_order(modules@, g, order@, sorted@);
            }
            sorted
        },
        None => {
            proof {
                let o = choose|o: Seq<usize>| dependency_order(modules@, o);
                let n = o.len() as int;
                let a = Seq::new(o.len(), |i: int| o[n - 1 - i]);
                lemma_backwards_order(modules@, g, a, o);
            }
            unreached()
        },
    }
}


/// The items in the given order: item `order[j]` at place `j`.
pub fn arrange<T>(items: Vec<T>, order: &Vec<usize>) -> (r: Vec<T>)
    requires
        order@.len() == items@.len(),
        order@.no_duplicates(),
        forall|i: int| 0 <= i < order@.len() ==> #[trigger] order@[i] < items@.len(),
    ensures
        r@.len() == items@.len(),
        forall|j: int| 0 <= j < r@.len() ==> #[trigger] r@[j] == items@[order@[j] as int],
{
    let n = items.len();
    let ghost orig = items@;
    let mut items = items;
    let mut slots: Vec<Option<T>> = Vec::new();
    while items.len() > 0
        invariant
            items@.len() + slots@.len() == n,
            n == orig.len(),
            items@ == orig.take(items@.len() as int),
            forall|k: int| 0 <= k < slots@.len() ==> #[trigger] slots@[k] == Some(orig[n - 1 - k]),
        decreases items@.len(),
    {
        let ghost before = items@;
        let x = items.pop().unwrap();
        proof {
            assert(items@ =~= orig.take(items@.len() as int));
            assert(x == orig[n - 1 - slots@.len()]);
        }
        slots.push(Some(x));
    }
    let mut r: Vec<T> = Vec::new();
    let mut j: usize = 0;
    while j < n
        invariant
            n == orig.len(),
            order@.len() == n,
            order@.no_duplicates(),
            forall|i: int| 0 <= i < n ==> #[trigger] order@[i] < n,
            slots@.len() == n,
            j <= n,
            r@.len() == j,
            forall|a: int| 0 <= a < j ==> #[trigger] r@[a] == orig[order@[a] as int],
            forall|a: int| j <= a < n ==> #[trigger] slots@[n - 1 - order@[a]] == Some(orig[order@[a] as int]),
        decreases n - j,
    {
        let k = order[j];
        let mut x: Option<T> = None;
        slots.set_and_swap(n - 1 - k, &mut x);
        proof {
            assert forall|a: int| j + 1 <= a < n implies #[trigger] slots@[n - 1 - order@[a]] == Some(orig[order@[a] as int]) by {
                assert(order@[a] != order@[j as int]);
            }
        }
        r.push(x.unwrap());
        j = j + 1;
    }
    r
}


/// The value of `field` in the last module below `m` named `module` that has
/// such a field.
pub open spec fn field_value(ms: Seq<ResolvedModule>, module: Seq<u8>, field: Seq<u8>, m: int) -> Option<u16>
    decreases m,
{
    if m <= 0 {
        None
    } else if bytes_of(ms[m - 1].name) == module && ms[m - 1].symbols@.contains_key(field) {
        Some(ms[m - 1].symbols@[field])
    } else {
        field_value(ms, module, field, m - 1)
    }
}

/// What a handed value stands for once its field is looked up.
pub open spec fn looked_up(ms: Seq<ResolvedModule>, v: VarValue) -> Option<VarValue> {
    match v {
        VarValue::Field(module, field) => match field_value(ms, module, field, ms.len() as int) {
            Some(x) => Some(VarValue::Number(x)),
            None => None,
        },
        VarValue::Number(x) => Some(VarValue::Number(x)),
    }
}

/// Whether every field handed to a module names a value.
pub open spec fn fields_known(ms: Seq<ResolvedModule>) -> bool {
    forall|u: int| 0 <= u < ms.len() ==> #[trigger] module_fields_known(ms, ms[u])
}

/// Whether every field handed to `module` names a value.
pub open spec fn module_fields_known(ms: Seq<ResolvedModule>, module: ResolvedModule) -> bool {
    match module.variables {
        Some(t) => forall|key: Seq<u8>| #[trigger] t@.contains_key(key) ==> looked_up(ms, t@[key].meaning()) is Some,
        None => true,
    }
}

/// Whether `after` is `before` with each handed field looked up in `ms`.
pub open spec fn fields_looked_up(ms: Seq<ResolvedModule>, before: ResolvedModule, after: ResolvedModule) -> bool {
    &&& after.name == before.name
    &&& after.path == before.path
    &&& after.address == before.address
    &&& after.imports == before.imports
    &&& after.symbols@ == before.symbols@
    &&& match (before.variables, after.variables) {
        (None, None) => true,
        (Some(t), Some(t2)) => t2@.dom() == t@.dom() && forall|key: Seq<u8>|
            #[trigger] t@.contains_key(key) ==> Some(t2@[key].meaning()) == looked_up(ms, t@[key].meaning()),
        _ => false,
    }
}

/// The value of `field` in the last module named `module` that has it.
fn find_field(modules: &Vec<ResolvedModule>, module: &[u8], field: &[u8]) -> (r: Option<u16>)
    ensures
        r == field_value(modules@, module@, field@, modules@.len() as int),
{
    let mut m = modules.len();
    while m > 0
        invariant
            m <= modules@.len(),
            field_value(modules@, module@, field@, modules@.len() as int) == field_value(modules@, module@, field@, m as int),
        decreases m,
    {
        if crate::table::bytes_eq(string_bytes(&modules[m - 1].name), module) {
            match modules[m - 1].symbols.get(field) {
                Some(v) => {
                    return Some(*v);
                },
                None => {},
            }
        }
        m = m - 1;
    }
    None
}

/// The list backwards.
fn into_backwards<T>(items: Vec<T>) -> (r: Vec<T>)
    ensures
        r@.len() == items@.len(),
        forall|k: int| 0 <= k < items@.len() ==> #[trigger] r@[k] == items@[items@.len() - 1 - k],
{
    let n = items.len();
    let ghost orig = items@;
    let mut items = items;
    let mut r: Vec<T> = Vec::new();
    while items.len() > 0
        invariant
            items@.len() + r@.len() == n,
            n == orig.len(),
            items@ == orig.take(items@.len() as int),
            forall|k: int| 0 <= k < r@.len() ==> #[trigger] r@[k] == orig[n - 1 - k],
        decreases items@.len(),
    {
        let x = items.pop().unwrap();
        proof {
            assert(items@ =~= orig.take(items@.len() as int));
        }
        r.push(x);
    }
    r
}

/// Whether `p` holds, entry by entry, the number of each field handed in `t`.
pub open spec fn plan_fits(ms: Seq<ResolvedModule>, t: Table<Either>, p: Option<Vec<Option<u16>>>) -> bool {
    &&& forall|i: int| 0 <= i < t.size() ==> #[trigger] t@.contains_key(t.key_at(i))
    &&& match p {
        Some(plan) => plan@.len() == t.size() && forall|i: int|
            0 <= i < t.size() ==> match #[trigger] t@[t.key_at(i)] {
                Either::ModuleField { module, field } => plan@[i] == field_value(
                    ms,
                    bytes_of(module),
                    bytes_of(field),
                    ms.len() as int,
                ),
                Either::ResolvedValue(_) => plan@[i] is None,
            },
        None => false,
    }
}

/// The numbers that the fields handed to one module stand for, entry by entry.
fn field_plan(modules: &Vec<ResolvedModule>, t: &Table<Either>) -> (r: Option<Vec<Option<u16>>>)
    ensures
        forall|i: int| 0 <= i < t.size() ==> #[trigger] t@.contains_key(t.key_at(i)),
        r is Some <==> forall|key: Seq<u8>| #[trigger] t@.contains_key(key) ==> looked_up(modules@, t@[key].meaning()) is Some,
        r matches Some(plan) ==> plan@.len() == t.size() && forall|i: int|
            0 <= i < t.size() ==> match #[trigger] t@[t.key_at(i)] {
                Either::ModuleField { module, field } => plan@[i] == field_value(
                    modules@,
                    bytes_of(module),
                    bytes_of(field),
                    modules@.len() as int,
                ),
                Either::ResolvedValue(_) => plan@[i] is None,
            },
{
    let size = t.len();
    let mut plan: Vec<Option<u16>> = Vec::new();
    let mut i: usize = 0;
    while i < size
        invariant
            size == t.size(),
            i <= size,
            plan@.len() == i,
            forall|a: int| 0 <= a < t.size() ==> #[trigger] t@.contains_key(t.key_at(a)),
            forall|key: Seq<u8>| #[trigger] t@.contains_key(key) ==> exists|a: int| 0 <= a < t.size() && t.key_at(a) == key,
            forall|a: int| 0 <= a < i ==> looked_up(modules@, #[trigger] t@[t.key_at(a)].meaning()) is Some,
            forall|a: int|
                0 <= a < i ==> match #[trigger] t@[t.key_at(a)] {
                    Either::ModuleField { module, field } => plan@[a] == field_value(
                        modules@,
                        bytes_of(module),
                        bytes_of(field),
                        modules@.len() as int,
                    ),
                    Either::ResolvedValue(_) => plan@[a] is None,
                },
        decreases size - i,
    {
        let (_, value) = t.entry_at(i);
        match value {
            Either::ModuleField { module, field } => {
                let found = find_field(modules, string_bytes(module), string_bytes(field));
                match found {
                    Some(x) => {
                        plan.push(Some(x));
                    },
                    None => {
                        proof {
                            assert(t@.contains_key(t.key_at(i as int)));
                            assert(looked_up(modules@, t@[t.key_at(i as int)].meaning()) is None);
                        }
                        return None;
                    },
                }
            },
            Either::ResolvedValue(_) => {
                plan.push(None);
            },
        }
        i = i + 1;
    }
    proof {
        assert forall|key: Seq<u8>| #[trigger] t@.contains_key(key) implies looked_up(modules@, t@[key].meaning()) is Some by {
            let a = choose|a: int| 0 <= a < t.size() && t.key_at(a) == key;
            assert(looked_up(modules@, t@[t.key_at(a)].meaning()) is Some);
        }
    }
    Some(plan)
}

/// Replaces each field handed to the module by its number, as `plan` says.
fn apply_plan(t: &mut Table<Either>, plan: &Vec<Option<u16>>)
    requires
        plan@.len() == old(t).size(),
        forall|i: int| 0 <= i < old(t).size() ==> (#[trigger] plan@[i] is Some <==> old(t)@[old(t).key_at(i)] is ModuleField),
    ensures
        final(t)@.dom() == old(t)@.dom(),
        forall|i: int|
            0 <= i < old(t).size() ==> #[trigger] final(t)@[old(t).key_at(i)] == match plan@[i] {
                Some(x) => Either::ResolvedValue(x),
                None => old(t)@[old(t).key_at(i)],
            },
        forall|key: Seq<u8>| #[trigger] old(t)@.contains_key(key) ==> exists|a: int| 0 <= a < old(t).size() && old(t).key_at(a) == key,
{
    let ghost t0 = *t;
    let size = t.len();
    let mut i: usize = 0;
    while i < size
        invariant
            size == t0.size(),
            t.size() == t0.size(),
            plan@.len() == size,
            i <= size,
            forall|j: int| 0 <= j < size ==> #[trigger] t.key_at(j) == t0.key_at(j),
            forall|a: int| 0 <= a < t0.size() ==> #[trigger] t0@.contains_key(t0.key_at(a)),
            forall|a: int, b: int| 0 <= a < b < t0.size() ==> t0.key_at(a) != t0.key_at(b),
            t@.dom() == t0@.dom(),
            forall|a: int|
                0 <= a < size ==> #[trigger] t@[t0.key_at(a)] == if a < i {
                    match plan@[a] {
                        Some(x) => Either::ResolvedValue(x),
                        None => t0@[t0.key_at(a)],
                    }
                } else {
                    t0@[t0.key_at(a)]
                },
        decreases size - i,
    {
        match plan[i] {
            Some(x) => {
                let ghost before = *t;
                t.set_at(i, Either::ResolvedValue(x));
                proof {
                    assert(t@.dom() =~= before@.dom());
                }
            },
            None => {},
        }
        i = i + 1;
    }
}

/// The modules with each handed field replaced by its number: the value of
/// the field in the last module with that name that has it. `None` where a
/// field names no value.
pub fn resolve_fields(modules: Vec<ResolvedModule>) -> (r: Option<Vec<ResolvedModule>>)
    ensures
        r is Some <==> fields_known(modules@),
        r matches Some(out) ==> out@.len() == modules@.len() && forall|u: int|
            0 <= u < modules@.len() ==> fields_looked_up(modules@, modules@[u], #[trigger] out@[u]),
{
    let n = modules.len();
    let ghost ms = modules@;
    let mut plans: Vec<Option<Vec<Option<u16>>>> = Vec::new();
    let mut u: usize = 0;
    while u < n
        invariant
            n == ms.len(),
            ms == modules@,
            u <= n,
            plans@.len() == u,
            forall|w: int| 0 <= w < u ==> #[trigger] module_fields_known(ms, ms[w]),
            forall|w: int|
                0 <= w < u ==> match ms[w].variables {
                    Some(t) => plan_fits(ms, t, #[trigger] plans@[w]),
                    None => plans@[w] is None,
                },
        decreases n - u,
    {
        match &modules[u].variables {
            Some(t) => match field_plan(&modules, t) {
                Some(plan) => {
                    plans.push(Some(plan));
                },
                None => {
                    proof {
                        assert(!module_fields_known(ms, ms[u as int]));
                    }
                    return None;
                },
            },
            None => {
                plans.push(None);
            },
        }
        u = u + 1;
    }
    let mut rest = into_backwards(modules);
    let mut out: Vec<ResolvedModule> = Vec::new();
    let mut u: usize = 0;
    while u < n
        invariant
            n == ms.len(),
            u <= n,
            rest@.len() == n - u,
            forall|k: int| 0 <= k < rest@.len() ==> #[trigger] rest@[k] == ms[n - 1 - k],
            out@.len() == u,
            plans@.len() == n,
            forall|w: int| 0 <= w < n ==> #[trigger] module_fields_known(ms, ms[w]),
            forall|w: int|
                0 <= w < n ==> match ms[w].variables {
                    Some(t) => plan_fits(ms, t, #[trigger] plans@[w]),
                    None => plans@[w] is None,
                },
            forall|w: int| 0 <= w < u ==> fields_looked_up(ms, ms[w], #[trigger] out@[w]),
        decreases n - u,
    {
        let module = rest.pop().unwrap();
        proof {
            assert(module == ms[u as int]);
        }
        let ResolvedModule { name, path, address, imports, symbols, variables } = module;
        let variables = match variables {
            Some(t) => {
                let ghost t0 = t;
                let mut t = t;
                match &plans[u] {
                    Some(plan) => {
                        proof {
                            assert(module_fields_known(ms, ms[u as int]));
                            assert forall|i: int| 0 <= i < t0.size() implies (#[trigger] plan@[i] is Some <==> t0@[t0.key_at(
                                i,
                            )] is ModuleField) by {
                                assert(t0@.contains_key(t0.key_at(i)));
                            }
                        }
                        apply_plan(&mut t, plan);
                        proof {
                            assert forall|key: Seq<u8>| #[trigger] t0@.contains_key(key) implies Some(t@[key].meaning()) == looked_up(
                                ms,
                                t0@[key].meaning(),
                            ) by {
                                let a = choose|a: int| 0 <= a < t0.size() && t0.key_at(a) == key;
                                assert(plan@[a] == match t0@[t0.key_at(a)] {
                                    Either::ModuleField { module, field } => field_value(
                                        ms,
                                        bytes_of(module),
                                        bytes_of(field),
                                        ms.len() as int,
                                    ),
                                    Either::ResolvedValue(_) => None,
                                });
                            }
                        }
                    },
                    None => {},
                }
                Some(t)
            },
            None => None,
        };
        out.push(ResolvedModule { name, path, address, imports, symbols, variables });
        u = u + 1;
    }
    Some(out)
}


/// The modules of a program, in the order they are laid out, with their
/// syntax trees (in the same order) and their sources by path.
#[derive(Debug)]
pub struct ResolvedModules {
    pub modules: Vec<ResolvedModule>,
    pub sources: Table<String>,
    pub asts: Vec<Ast>,
}

/// The modules `ms` in the order `o`.
pub open spec fn arranged<T>(ms: Seq<T>, o: Seq<usize>) -> Seq<T> {
    Seq::new(ms.len(), |j: int| ms[o[j] as int])
}

/// The last step of resolving a program: the modules, found in the order in
/// which their reading was finished, are laid out so that each comes after
/// the modules it depends on, their syntax trees alike, and each field
/// handed to a module is replaced by its number. `None` where the
/// dependencies close a cycle or a field names no value.
pub fn order_modules(modules: Vec<ResolvedModule>, asts: Vec<Ast>, sources: Table<String>) -> (r: Option<ResolvedModules>)
    requires
        asts@.len() == modules@.len(),
        link_count(modules@, modules@.len() as int) <= usize::MAX,
    ensures
        match r {
            Some(res) => exists|o: Seq<usize>|
                {
                    &&& #[trigger] dependency_order(modules@, o)
                    &&& res.asts@ == arranged(asts@, o)
                    &&& res.modules@.len() == modules@.len()
                    &&& forall|j: int|
                        0 <= j < modules@.len() ==> fields_looked_up(
                            arranged(modules@, o),
                            arranged(modules@, o)[j],
                            #[trigger] res.modules@[j],
                        )
                },
            None => (forall|o: Seq<usize>| !dependency_order(modules@, o)) || !fields_exist(modules@),
        },
        r matches Some(res) ==> res.sources@ == sources@,
{
    let ghost ms = modules@;
    let ghost ts = asts@;
    if !has_dependency_order(&modules) {
        return None;
    }
    let sorted = topological_sort(&modules);
    let laid_out = arrange(modules, &sorted);
    let trees = arrange(asts, &sorted);
    proof {
        assert(laid_out@ =~= arranged(ms, sorted@));
        assert(trees@ =~= arranged(ts, sorted@));
    }
    match resolve_fields(laid_out) {
        Some(resolved) => Some(ResolvedModules { modules: resolved, sources, asts: trees }),
        None => {
            proof {
                lemma_fields_known_any_order(ms, sorted@);
            }
            None
        },
    }
}

/// Whether some module named `module` has a symbol `field`.
pub open spec fn field_exists(ms: Seq<ResolvedModule>, module: Seq<u8>, field: Seq<u8>) -> bool {
    exists|k: int| 0 <= k < ms.len() && bytes_of(ms[k].name) == module && #[trigger] ms[k].symbols@.contains_key(field)
}

/// Whether every field handed to a module is a symbol of some module of that name.
pub open spec fn fields_exist(ms: Seq<ResolvedModule>) -> bool {
    forall|w: int|
        0 <= w < ms.len() ==> match #[trigger] ms[w].variables {
            Some(t) => forall|key: Seq<u8>|
                #[trigger] t@.contains_key(key) ==> match t@[key].meaning() {
                    VarValue::Field(module, field) => field_exists(ms, module, field),
                    VarValue::Number(_) => true,
                },
            None => true,
        }
}

proof fn lemma_field_value_some(ms: Seq<ResolvedModule>, module: Seq<u8>, field: Seq<u8>, m: int)
    requires
        0 <= m <= ms.len(),
    ensures
        field_value(ms, module, field, m) is Some <==> exists|k: int|
            0 <= k < m && bytes_of(ms[k].name) == module && #[trigger] ms[k].symbols@.contains_key(field),
    decreases m,
{
    if m > 0 {
        lemma_field_value_some(ms, module, field, m - 1);
    }
}

/// In any dependency order, the handed fields can all be looked up exactly
/// where each of them is a symbol of some module of its name.
proof fn lemma_fields_known_any_order(ms: Seq<ResolvedModule>, o: Seq<usize>)
    requires
        dependency_order(ms, o),
        ms.len() <= usize::MAX,
    ensures
        fields_known(arranged(ms, o)) <==> fields_exist(ms),
{
    let a = arranged(ms, o);
    let n = ms.len() as int;
    lemma_distinct_nodes(o, ms.len());
    assert forall|module: Seq<u8>, field: Seq<u8>| field_value(a, module, field, n) is Some <==> field_exists(ms, module, field) by {
        lemma_field_value_some(a, module, field, n);
        if field_value(a, module, field, n) is Some {
            let k = choose|k: int| 0 <= k < n && bytes_of(a[k].name) == module && #[trigger] a[k].symbols@.contains_key(field);
            assert(ms[o[k] as int].symbols@.contains_key(field));
        }
        if field_exists(ms, module, field) {
            let k = choose|k: int| 0 <= k < n && bytes_of(ms[k].name) == module && #[trigger] ms[k].symbols@.contains_key(field);
            assert(o.contains(k as usize));
            let j = choose|j: int| 0 <= j < n && o[j] == k as usize;
            assert(a[j].symbols@.contains_key(field));
        }
    }
    if fields_known(a) {
        assert forall|w: int| 0 <= w < n implies match #[trigger] ms[w].variables {
            Some(t) => forall|key: Seq<u8>|
                #[trigger] t@.contains_key(key) ==> match t@[key].meaning() {
                    VarValue::Field(module, field) => field_exists(ms, module, field),
                    VarValue::Number(_) => true,
                },
            None => true,
        } by {
            assert(o.contains(w as usize));
            let j = choose|j: int| 0 <= j < n && o[j] == w as usize;
            assert(module_fields_known(a, a[j]));
        }
    }
    if fields_exist(ms) {
        assert forall|u: int| 0 <= u < n implies #[trigger] module_fields_known(a, a[u]) by {
            let w = o[u] as int;
            assert(a[u] == ms[w]);
            match ms[w].variables {
                Some(t) => {},
                None => {},
            }
        }
    }
}


/// The modules of a program one after the other, each with its source and
/// its syntax tree.
pub struct ResolvedModulesIntoIter {
    rest: Vec<(ResolvedModule, String, Ast)>,
}

impl ResolvedModulesIntoIter {
    /// What is still to come, first first.
    pub closed spec fn remaining(&self) -> Seq<(ResolvedModule, String, Ast)> {
        self.rest@.reverse()
    }

    /// The next module, with its source and its syntax tree.
    pub fn next(&mut self) -> (r: Option<(ResolvedModule, String, Ast)>)
        ensures
            old(self).remaining().len() == 0 ==> r is None && final(self).remaining() == old(self).remaining(),
            old(self).remaining().len() > 0 ==> r == Some(old(self).remaining()[0]) && final(self).remaining()
                == old(self).remaining().drop_first(),
    {
        let r = self.rest.pop();
        proof {
            if old(self).rest@.len() > 0 {
                assert(self.rest@ =~= old(self).rest@.drop_last());
                assert(self.remaining() =~= old(self).remaining().drop_first());
            }
        }
        r
    }
}

impl ResolvedModules {
    /// Each module with its source, looked up by its path, and its syntax
    /// tree, in order. `None` where a module's source is missing or the
    /// trees are fewer than the modules.
    pub fn into_iter(self) -> (r: Option<ResolvedModulesIntoIter>)
        ensures
            r is Some <==> (self.asts@.len() == self.modules@.len() && forall|i: int|
                0 <= i < self.modules@.len() ==> self.sources@.contains_key(bytes_of(#[trigger] self.modules@[i].path))),
            r matches Some(it) ==> it.remaining().len() == self.modules@.len() && forall|i: int|
                0 <= i < self.modules@.len() ==> #[trigger] it.remaining()[i] == (
                    self.modules@[i],
                    self.sources@[bytes_of(self.modules@[i].path)],
                    self.asts@[i],
                ),
    {
        let ghost whole = self;
        let ResolvedModules { modules, sources, asts } = self;
        let n = modules.len();
        if asts.len() != n {
            return None;
        }
        let ghost ms = modules@;
        let ghost ts = asts@;
        proof {
            assert(ms.take(n as int) =~= ms);
            assert(ts.take(n as int) =~= ts);
        }
        let mut modules = modules;
        let mut asts = asts;
        let mut rest: Vec<(ResolvedModule, String, Ast)> = Vec::new();
        let mut i: usize = 0;
        while i < n
            invariant
                n == ms.len(),
                n == ts.len(),
                ms == whole.modules@,
                whole == self,
                sources@ == whole.sources@,
                i <= n,
                modules@.len() == n - i,
                asts@.len() == n - i,
                modules@ == ms.take(n - i),
                asts@ == ts.take(n - i),
                forall|k: int| 0 <= k < i ==> sources@.contains_key(bytes_of(#[trigger] ms[n - 1 - k].path)),
                rest@.len() == i,
                forall|k: int|
                    0 <= k < i ==> #[trigger] rest@[k] == (ms[n - 1 - k], sources@[bytes_of(ms[n - 1 - k].path)], ts[n
                        - 1 - k]),
            decreases n - i,
        {
            let module = modules.pop().unwrap();
            let ast = asts.pop().unwrap();
            proof {
                assert(modules@ =~= ms.take(n - i - 1));
                assert(asts@ =~= ts.take(n - i - 1));
                assert(module == ms[n - 1 - i]);
            }
            let source = match sources.get(string_bytes(&module.path)) {
                Some(source) => source.clone(),
                None => {
                    proof {
                        assert(!sources@.contains_key(bytes_of(ms[n - 1 - i].path)));
                    }
                    return None;
                },
            };
            rest.push((module, source, ast));
            i = i + 1;
        }
        let it = ResolvedModulesIntoIter { rest };
        proof {
            assert forall|i: int| 0 <= i < n implies #[trigger] it.remaining()[i] == (
                ms[i],
                sources@[bytes_of(ms[i].path)],
                ts[i],
            ) by {
                assert(it.remaining()[i] == rest@[n - 1 - i]);
            }
            assert forall|i: int| 0 <= i < n implies sources@.contains_key(bytes_of(#[trigger] ms[i].path)) by {
                assert(ms[n - 1 - (n - 1 - i)] == ms[i]);
            }
        }
        Some(it)
    }
}


/// Whether `o` covers a piece of the source (see `in_code`).
pub(crate) fn check_in_code(code: &[u8], o: ByteOffset) -> (b: bool)
    ensures
        b == in_code(code@, o),
{
    o.start <= o.end && o.end <= code.len()
}

/// Whether every constant of `ast` is a hex literal, its name and value in
/// the source (see `constants_ok`).
pub fn check_constants(code: &str, ast: &Ast) -> (b: bool)
    ensures
        b == constants_ok(code.spec_bytes(), constants_of(ast.statements@)),
{
    let bytes = code.as_bytes();
    let cs = ast.constants();
    let ghost all = constants_of(ast.statements@);
    let mut i: usize = 0;
    while i < cs.len()
        invariant
            bytes@ == code.spec_bytes(),
            all == constants_of(ast.statements@),
            cs@.len() == all.len(),
            forall|j: int|
                0 <= j < cs@.len() ==> {
                    let (n, v, e) = #[trigger] cs@[j];
                    all[j] == (*n, *v, *e)
                },
            i <= cs@.len(),
            forall|j: int|
                0 <= j < i ==> {
                    let (name, value, _) = #[trigger] all[j];
                    &&& in_code(bytes@, name)
                    &&& value matches Statement::HexLiteral(o) && in_code(bytes@, o)
                },
        decreases cs@.len() - i,
    {
        let (name, value, _) = cs[i];
        proof {
            assert(all[i as int].0 == *name);
            assert(all[i as int].1 == *value);
        }
        let ok = check_in_code(bytes, *name) && match value {
            Statement::HexLiteral(o) => check_in_code(bytes, *o),
            _ => false,
        };
        if !ok {
            return false;
        }
        i = i + 1;
    }
    true
}

/// Whether `o` covers a piece of `code` between characters (see `piece_ok`).
pub(crate) fn check_piece(code: &str, o: ByteOffset) -> (b: bool)
    ensures
        b == piece_ok(code.spec_bytes(), o),
{
    let n = code.as_bytes().len();
    o.start <= o.end && o.end <= n && code.is_char_boundary(o.start) && code.is_char_boundary(o.end)
}

/// Whether every import variable can be worked on (see `var_ok`).
pub fn check_import_vars(code: &str, variables: &Vec<Statement>) -> (b: bool)
    ensures
        b == forall|i: int| 0 <= i < variables@.len() ==> var_ok(code.spec_bytes(), #[trigger] variables@[i]),
{
    let bytes = code.as_bytes();
    let mut i: usize = 0;
    while i < variables.len()
        invariant
            bytes@ == code.spec_bytes(),
            i <= variables@.len(),
            forall|j: int| 0 <= j < i ==> var_ok(bytes@, #[trigger] variables@[j]),
        decreases variables@.len() - i,
    {
        let v = &variables[i];
        let ok = match v {
            Statement::ImportVar { name, value } => check_in_code(bytes, *name) && has_offset(v) && match &**value {
                Statement::Var(o) => check_in_code(bytes, *o),
                Statement::HexLiteral(o) => check_in_code(bytes, *o),
                Statement::FieldAccessor { module, field } => check_piece(code, *module) && check_piece(code, *field),
                _ => false,
            },
            _ => false,
        };
        if !ok {
            return false;
        }
        i = i + 1;
    }
    true
}

/// Whether every import of `ast` is placed at a hex literal (see `imports_placed`).
pub fn check_imports_placed(ast: &Ast) -> (b: bool)
    ensures
        b == imports_placed(ast.statements@),
{
    let mut i: usize = 0;
    while i < ast.statements.len()
        invariant
            i <= ast.statements@.len(),
            forall|j: int|
                0 <= j < i ==> (#[trigger] ast.statements@[j] matches Statement::Import { address, .. }
                    ==> *address is HexLiteral),
        decreases ast.statements@.len() - i,
    {
        match &ast.statements[i] {
            Statement::Import { address, .. } => match &**address {
                Statement::HexLiteral(_) => {},
                _ => {
                    return false;
                },
            },
            _ => {},
        }
        i = i + 1;
    }
    true
}

} // verus!
