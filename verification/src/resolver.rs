//! Reading a program module by module. Each module is read, its constants
//! entered, then each of its imports read in turn, depth first; a module is
//! done once all its imports are, and each path is read once. The files
//! themselves are read by the caller: the resolver says which to read next
//! and is handed each source with its syntax tree.
use vstd::prelude::*;
use vstd::string::StringSliceAdditionalSpecFns;

use crate::compiler::{in_code, text};
use crate::hex::{hex_number, parse_hex_u16};
use crate::mod_resolver::{
    bytes_of, check_import_vars, check_in_code, check_piece, constants_ok, constants_spec, holds_values,
    import_vars_spec, piece, piece_ok, resolve_constants, resolve_import_vars, string_bytes, var_ok, Either,
    ResolvedModule,
};
use crate::parser::ast::{constants_of, imports_of, imports_placed, Ast, Statement};
use crate::parser::error::Error;
use crate::parser::{parse, parse_spec};
use crate::table::{bytes_eq, Table};

verus! {

/// Whether a module can be worked on: its constants are hex literals in the
/// source, and each import is placed at a hex literal, with its name, path,
/// address and variables in the source.
pub open spec fn module_ok(code: Seq<u8>, stmts: Seq<Statement>) -> bool {
    &&& constants_ok(code, constants_of(stmts))
    &&& imports_placed(stmts)
    &&& forall|k: int| 0 <= k < imports_of(stmts).len() ==> import_ok(code, #[trigger] imports_of(stmts)[k])
}

/// Whether the pieces of an import lie in the source.
pub open spec fn import_ok(code: Seq<u8>, imp: (crate::parser::ast::ByteOffset, crate::parser::ast::ByteOffset, Seq<Statement>, crate::parser::ast::ByteOffset)) -> bool {
    let (n, p, v, a) = imp;
    &&& piece_ok(code, n)
    &&& piece_ok(code, p)
    &&& in_code(code, a)
    &&& forall|j: int| 0 <= j < v.len() ==> var_ok(code, #[trigger] v[j])
}

/// Whether a module can be worked on (see `module_ok`).
pub fn check_module(code: &str, ast: &Ast) -> (b: bool)
    ensures
        b == module_ok(code.spec_bytes(), ast.statements@),
{
    if !crate::mod_resolver::check_constants(code, ast) {
        return false;
    }
    if !crate::mod_resolver::check_imports_placed(ast) {
        return false;
    }
    let imports = ast.imports();
    let ghost all = imports_of(ast.statements@);
    let bytes = code.as_bytes();
    let mut k: usize = 0;
    while k < imports.len()
        invariant
            bytes@ == code.spec_bytes(),
            all == imports_of(ast.statements@),
            imports@.len() == all.len(),
            forall|i: int|
                0 <= i < imports@.len() ==> {
                    let (n, p, v, a) = #[trigger] imports@[i];
                    all[i] == (*n, *p, v@, *a)
                },
            k <= imports@.len(),
            forall|i: int| 0 <= i < k ==> import_ok(code.spec_bytes(), #[trigger] all[i]),
        decreases imports@.len() - k,
    {
        let (n, p, v, a) = imports[k];
        proof {
            assert(all[k as int] == (*n, *p, v@, *a));
        }
        let ok = check_piece(code, *n) && check_piece(code, *p) && check_in_code(bytes, *a) && check_import_vars(code, v);
        proof {
            let imp = all[k as int];
            assert(imp.2 == v@);
            if ok {
                assert(import_ok(code.spec_bytes(), imp));
            } else if forall|j: int| 0 <= j < v@.len() ==> var_ok(code.spec_bytes(), #[trigger] v@[j]) {
                assert(!import_ok(code.spec_bytes(), imp));
            } else {
                let j = choose|j: int| 0 <= j < v@.len() && !var_ok(code.spec_bytes(), #[trigger] v@[j]);
                assert(!var_ok(code.spec_bytes(), imp.2[j]));
            }
        }
        if !ok {
            return false;
        }
        k = k + 1;
    }
    true
}

/// A module being read: the imports before `next` have been handed out.
pub struct Frame {
    pub module: ResolvedModule,
    pub code: String,
    pub ast: Ast,
    pub next: usize,
}

/// What to do next.
#[derive(Debug)]
pub enum Step {
    /// Read the module `name` at `path`, handing it `variables`, to be placed
    /// at `address`.
    Load { name: String, path: String, variables: Table<Either>, address: u16 },
    /// The module on top is done.
    Finished,
    /// Every module is done.
    Done,
    /// An import hands a variable that cannot be resolved.
    Failed(Error),
    /// An import is placed at an address that does not fit 16 bits.
    BadAddress,
}


/// Whether `after` is `before` once the module `name` read from `path` has
/// been entered (see `Resolver::enter`), with the outcome `r`.
pub open spec fn entered(
    before: Resolver,
    after: Resolver,
    name: String,
    path: String,
    code: String,
    ast: Ast,
    variables: Option<Table<Either>>,
    address: u16,
    r: Result<(), Error>,
) -> bool {
    &&& after.visited() == before.visited().push(bytes_of(path))
    &&& after.done() == before.done()
    &&& after.done_asts() == before.done_asts()
    &&& after.sources() == before.sources()
    &&& match constants_spec(bytes_of(code), constants_of(ast.statements@), Map::empty()) {
        (Err(e), _) => r == Err::<(), Error>(e) && after.frames() == before.frames(),
        (Ok(_), symbols) => r is Ok && after.frames().len() == before.frames().len() + 1
            && after.frames().drop_last() == before.frames() && {
            let f = after.frames().last();
            &&& f.module.name == name
            &&& f.module.path == path
            &&& f.module.address == address
            &&& f.module.imports@ == Seq::<String>::empty()
            &&& f.module.symbols@ == symbols
            &&& f.module.variables == variables
            &&& f.code == code
            &&& f.ast == ast
            &&& f.next == 0
        },
    }
}

/// Whether `after` is `before` once the module on top has recorded that it
/// imports `path`, read before (see `Resolver::skip`).
pub open spec fn skipped(before: Resolver, after: Resolver, path: String) -> bool {
    &&& after.frames().len() == before.frames().len()
    &&& after.frames().drop_last() == before.frames().drop_last()
    &&& {
        let f = after.frames().last();
        let g = before.frames().last();
        &&& f.module.imports@ == g.module.imports@.push(path)
        &&& f.module.name == g.module.name
        &&& f.module.path == g.module.path
        &&& f.module.address == g.module.address
        &&& f.module.symbols == g.module.symbols
        &&& f.module.variables == g.module.variables
        &&& f.code == g.code
        &&& f.ast == g.ast
        &&& f.next == g.next
    }
    &&& after.visited() == before.visited()
    &&& after.done() == before.done()
    &&& after.done_asts() == before.done_asts()
    &&& after.sources() == before.sources()
}

/// Why the source of a module cannot be entered.
#[derive(Debug)]
pub enum Refusal {
    /// the source does not parse
    Parse(Error),
    /// the syntax tree has pieces outside the source (see `module_ok`)
    Malformed,
    /// a constant does not fit 16 bits
    Constant(Error),
}

/// The state of reading a program.
pub struct Resolver {
    frames: Vec<Frame>,
    modules: Vec<ResolvedModule>,
    asts: Vec<Ast>,
    sources: Table<String>,
    visited: Vec<String>,
}

impl Resolver {
    /// Every module being read can be worked on, and each module done has
    /// its syntax tree.
    pub closed spec fn wf(&self) -> bool {
        &&& self.modules@.len() == self.asts@.len()
        &&& forall|i: int|
            0 <= i < self.frames@.len() ==> {
                let f = #[trigger] self.frames@[i];
                &&& module_ok(bytes_of(f.code), f.ast.statements@)
                &&& f.next <= imports_of(f.ast.statements@).len()
            }
    }

    /// The modules being read, the first read at the bottom.
    pub closed spec fn frames(&self) -> Seq<Frame> {
        self.frames@
    }

    /// The modules done, in the order they were done.
    pub closed spec fn done(&self) -> Seq<ResolvedModule> {
        self.modules@
    }

    /// The syntax trees of the modules done.
    pub closed spec fn done_asts(&self) -> Seq<Ast> {
        self.asts@
    }

    /// The sources of the modules done, by path.
    pub closed spec fn sources(&self) -> Map<Seq<u8>, String> {
        self.sources@
    }

    /// The paths read so far.
    pub closed spec fn visited(&self) -> Seq<Seq<u8>> {
        self.visited@.map_values(|p: String| bytes_of(p))
    }

    /// Nothing read yet.
    pub fn new() -> (r: Self)
        ensures
            r.wf(),
            r.frames() == Seq::<Frame>::empty(),
            r.done() == Seq::<ResolvedModule>::empty(),
            r.done_asts() == Seq::<Ast>::empty(),
            r.sources() == Map::<Seq<u8>, String>::empty(),
            r.visited() == Seq::<Seq<u8>>::empty(),
    {
        let r = Resolver { frames: Vec::new(), modules: Vec::new(), asts: Vec::new(), sources: Table::new(), visited: Vec::new() };
        assert(r.visited() =~= Seq::<Seq<u8>>::empty());
        r
    }

    /// Whether `path` has been read.
    pub fn has_visited(&self, path: &String) -> (b: bool)
        ensures
            b == self.visited().contains(bytes_of(*path)),
    {
        let p = string_bytes(path);
        let mut i: usize = 0;
        while i < self.visited.len()
            invariant
                i <= self.visited@.len(),
                p@ == bytes_of(*path),
                forall|j: int| 0 <= j < i ==> bytes_of(self.visited@[j]) != bytes_of(*path),
            decreases self.visited@.len() - i,
        {
            if bytes_eq(string_bytes(&self.visited[i]), p) {
                assert(self.visited()[i as int] == bytes_of(*path));
                return true;
            }
            i = i + 1;
        }
        proof {
            if self.visited().contains(bytes_of(*path)) {
                let j = choose|j: int| 0 <= j < self.visited().len() && self.visited()[j] == bytes_of(*path);
                assert(bytes_of(self.visited@[j]) == bytes_of(*path));
            }
        }
        false
    }

    /// Starts on the module `name` read from `path`: the path counts as read,
    /// the constants of the module are entered (see `constants_spec`), and
    /// the module goes on top, none of its imports handed out yet. The
    /// error of a constant that does not fit 16 bits leaves the resolver as
    /// it was but for the path.
    pub fn enter(
        &mut self,
        name: String,
        path: String,
        code: String,
        ast: Ast,
        variables: Option<Table<Either>>,
        address: u16,
    ) -> (r: Result<(), Error>)
        requires
            old(self).wf(),
            module_ok(bytes_of(code), ast.statements@),
        ensures
            final(self).wf(),
            entered(*old(self), *final(self), name, path, code, ast, variables, address, r),
    {
        let ghost before = self.visited();
        self.visited.push(path.clone());
        assert(self.visited() =~= before.push(bytes_of(path)));
        let mut module = ResolvedModule { name, path, address, imports: Vec::new(), symbols: Table::new(), variables };
        let text = code.as_str();
        assert(text.spec_bytes() == bytes_of(code));
        match resolve_constants(text, &mut module, &ast) {
            Err(e) => return Err(e),
            Ok(()) => {},
        }
        self.frames.push(Frame { module, code, ast, next: 0 });
        assert(self.frames().drop_last() =~= old(self).frames());
        Ok(())
    }

    /// Takes the source of the module `name` read from `path`. Where the path
    /// was read before, the module on top records the import (see `skip`).
    /// Otherwise the source is parsed and, where its syntax tree can be worked
    /// on (see `module_ok`), the module is entered (see `enter`).
    pub fn arrive(
        &mut self,
        name: String,
        path: String,
        code: String,
        variables: Option<Table<Either>>,
        address: u16,
    ) -> (r: Result<(), Refusal>)
        requires
            old(self).wf(),
            old(self).visited().contains(bytes_of(path)) ==> old(self).frames().len() > 0,
        ensures
            final(self).wf(),
            old(self).visited().no_duplicates() ==> final(self).visited().no_duplicates(),
            old(self).visited().contains(bytes_of(path)) ==> r is Ok && skipped(*old(self), *final(self), path),
            !old(self).visited().contains(bytes_of(path)) ==> match parse_spec(bytes_of(code)) {
                Err(e) => r matches Err(Refusal::Parse(x)) && x == e && *final(self) == *old(self),
                Ok(vs) => exists|ast: Ast|
                    #[trigger] ast@ == vs && if module_ok(bytes_of(code), ast.statements@) {
                        exists|c: Result<(), Error>|
                            entered(*old(self), *final(self), name, path, code, ast, variables, address, c) && match c {
                                Ok(()) => r is Ok,
                                Err(e) => r matches Err(Refusal::Constant(x)) && x == e,
                            }
                    } else {
                        r matches Err(Refusal::Malformed) && *final(self) == *old(self)
                    },
            },
    {
        if self.has_visited(&path) {
            self.skip(path);
            return Ok(());
        }
        let ast = match parse(code.as_str()) {
            Ok(ast) => ast,
            Err(e) => return Err(Refusal::Parse(e)),
        };
        if !check_module(code.as_str(), &ast) {
            return Err(Refusal::Malformed);
        }
        let ghost a = ast;
        let ghost before = *self;
        let c = self.enter(name, path, code, ast, variables, address);
        assert(entered(before, *self, name, path, code, a, variables, address, c));
        match c {
            Ok(()) => Ok(()),
            Err(e) => Err(Refusal::Constant(e)),
        }
    }

    /// Records that the module on top imports `path`, which was read before.
    pub fn skip(&mut self, path: String)
        requires
            old(self).wf(),
            old(self).frames().len() > 0,
        ensures
            final(self).wf(),
            skipped(*old(self), *final(self), path),
    {
        let mut top = match self.frames.pop() {
            Some(f) => f,
            None => unreached(),
        };
        top.module.imports.push(path);
        self.frames.push(top);
        assert(self.frames().drop_last() =~= old(self).frames().drop_last());
    }

    /// The next thing to do (see `Step`). With no module being read, `Done`.
    /// Where the module on top has imports left, the next is handed out:
    /// `Load` with its name, path, resolved variables (see
    /// `import_vars_spec`) and address, or the failure of either. Otherwise
    /// the module on top is done: it leaves the stack for the modules done,
    /// its source is kept, and the module below it records the import.
    pub fn next(&mut self) -> (r: Step)
        requires
            old(self).wf(),
        ensures
            final(self).wf(),
            final(self).visited() == old(self).visited(),
            old(self).frames().len() == 0 ==> r is Done && final(self).frames() == old(self).frames()
                && final(self).done() == old(self).done() && final(self).sources() == old(self).sources(),
            old(self).frames().len() > 0 ==> {
                let t = old(self).frames().last();
                let imps = imports_of(t.ast.statements@);
                let code = bytes_of(t.code);
                if t.next < imps.len() {
                    let (n, p, v, a) = imps[t.next as int];
                    &&& final(self).frames().len() == old(self).frames().len()
                    &&& final(self).frames().drop_last() == old(self).frames().drop_last()
                    &&& final(self).frames().last() == (Frame { next: (t.next + 1) as usize, ..t })
                    &&& final(self).done() == old(self).done()
                    &&& final(self).done_asts() == old(self).done_asts()
                    &&& final(self).sources() == old(self).sources()
                    &&& match import_vars_spec(code, t.module.symbols@, v) {
                        Err(e) => r == Step::Failed(e),
                        Ok(m) => match hex_number(text(code, a), 0xFFFF) {
                            None => r is BadAddress,
                            Some(x) => r matches Step::Load { name, path, variables, address } && bytes_of(name)
                                == text(code, n) && bytes_of(path) == text(code, p) && holds_values(variables@, m)
                                && address == x as u16,
                        },
                    }
                } else {
                    &&& r is Finished
                    &&& final(self).frames().len() == old(self).frames().len() - 1
                    &&& final(self).done() == old(self).done().push(t.module)
                    &&& final(self).done_asts() == old(self).done_asts().push(t.ast)
                    &&& final(self).sources() == old(self).sources().insert(bytes_of(t.module.path), t.code)
                    &&& final(self).frames().len() > 0 ==> {
                        let below = old(self).frames().drop_last();
                        let f = final(self).frames().last();
                        let g = below.last();
                        &&& final(self).frames().drop_last() == below.drop_last()
                        &&& f.module.imports@ == g.module.imports@.push(t.module.path)
                        &&& f.module.name == g.module.name
                        &&& f.module.path == g.module.path
                        &&& f.module.address == g.module.address
                        &&& f.module.symbols == g.module.symbols
                        &&& f.module.variables == g.module.variables
                        &&& f.code == g.code
                        &&& f.ast == g.ast
                        &&& f.next == g.next
                    }
                }
            },
    {
        let mut top = match self.frames.pop() {
            Some(f) => f,
            None => return Step::Done,
        };
        let ghost t = top;
        let count = top.ast.imports().len();
        if top.next < count {
            let (n, p, v, a, vars) = {
                let imports = top.ast.imports();
                let (n, p, v, a) = imports[top.next];
                let code = top.code.as_str();
                proof {
                    assert(imports_of(t.ast.statements@)[t.next as int] == (*n, *p, v@, *a));
                    assert(import_ok(bytes_of(t.code), imports_of(t.ast.statements@)[t.next as int]));
                    assert(code.spec_bytes() == bytes_of(t.code));
                }
                let vars = resolve_import_vars(code, &top.module, v);
                (*n, *p, v.len(), *a, vars)
            };
            top.next = top.next + 1;
            self.frames.push(top);
            assert(self.frames().drop_last() =~= old(self).frames().drop_last());
            let ghost last = self.frames@.last();
            let variables = match vars {
                Ok(t) => t,
                Err(e) => return Step::Failed(e),
            };
            let code = last_code(&self.frames);
            let bytes = code.as_bytes();
            assert(bytes@ == bytes_of(t.code));
            assert(in_code(bytes@, a));
            let digits = &bytes[a.start..a.end];
            assert(digits@ == text(bytes@, a));
            let address = match parse_hex_u16(digits) {
                Some(x) => x,
                None => return Step::BadAddress,
            };
            let name = piece(code, n).to_owned();
            let path = piece(code, p).to_owned();
            Step::Load { name, path, variables, address }
        } else {
            let ghost rest = self.frames@;
            assert(rest == old(self).frames().drop_last());
            let Frame { module, code, ast, next: _ } = top;
            let path = module.path.clone();
            self.sources.insert(string_bytes(&path), code);
            self.asts.push(ast);
            self.modules.push(module);
            match self.frames.pop() {
                Some(mut below) => {
                    assert(below == rest.last());
                    assert(self.frames@ =~= rest.drop_last());
                    below.module.imports.push(path);
                    self.frames.push(below);
                    assert(self.frames().drop_last() =~= rest.drop_last());
                },
                None => {},
            }
            Step::Finished
        }
    }

    /// The modules done, their syntax trees and their sources, once no
    /// module is being read.
    pub fn finish(self) -> (r: (Vec<ResolvedModule>, Vec<Ast>, Table<String>))
        requires
            self.frames().len() == 0,
        ensures
            r.0@ == self.done(),
            r.1@ == self.done_asts(),
            r.2@ == self.sources(),
    {
        let Resolver { frames: _, modules, asts, sources, visited: _ } = self;
        (modules, asts, sources)
    }
}

/// The source of the module on top.
fn last_code(frames: &Vec<Frame>) -> (code: &str)
    requires
        frames@.len() > 0,
    ensures
        code.spec_bytes() == bytes_of(frames@.last().code),
{
    frames[frames.len() - 1].code.as_str()
}

} // verus!
