//! The last steps of assembling a program: the resolved modules are turned
//! into text, then into bytecode or into one listing.
use vstd::prelude::*;
use vstd::string::StringExecFns;

use crate::codegen::CodegenModule;
use crate::compiler::{compile_spec, models, try_compile};
use crate::generator::{generate, generated_as, modules_ok, text_of};
use crate::mod_resolver::ResolvedModules;
use crate::parser::error::Error;

verus! {

/// What assembling gives: bytecode, or the generated assembly.
#[derive(Debug, PartialEq, Eq, PartialOrd, Ord, Clone, Copy, Structural)]
pub enum AssembleBehavior {
    Bytecode,
    Codegen,
}

/// The result of assembling.
#[derive(Debug)]
pub enum AssembleOutput {
    Bytecode(Vec<u8>),
    Codegen(String),
}

/// The listing of the generated modules: the text of each module that has
/// any, each followed by a line break.
pub open spec fn listing(ms: Seq<CodegenModule>) -> Seq<char>
    decreases ms.len(),
{
    if ms.len() == 0 {
        Seq::empty()
    } else {
        let last = ms.last();
        listing(ms.drop_last()) + if last.code@.len() == 0 {
            Seq::empty()
        } else {
            last.code@ + seq!['\n']
        }
    }
}

/// Whether `out` is what generating `m` gives: each module with its text.
pub open spec fn generated_all(m: ResolvedModules, out: Seq<CodegenModule>) -> bool {
    &&& out.len() == m.modules@.len()
    &&& forall|i: int| 0 <= i < out.len() ==> generated_as(#[trigger] out[i], m.modules@[i], text_of(m, i)->Ok_0)
}

/// Whether every module can be turned into text.
pub open spec fn texts_ok(m: ResolvedModules) -> bool {
    forall|i: int| 0 <= i < m.modules@.len() ==> #[trigger] text_of(m, i) is Ok
}

/// Whether `e` is the error of the first module that cannot be turned into text.
pub open spec fn first_error(m: ResolvedModules, e: Error) -> bool {
    exists|i: int|
        0 <= i < m.modules@.len() && #[trigger] text_of(m, i) == Err::<Seq<u8>, Error>(e) && forall|j: int|
            0 <= j < i ==> #[trigger] text_of(m, j) is Ok
}

/// The listing of the generated modules.
pub fn codegen_listing(modules: &Vec<CodegenModule>) -> (s: String)
    ensures
        s@ == listing(modules@),
{
    let mut acc = String::new();
    let mut i: usize = 0;
    while i < modules.len()
        invariant
            i <= modules@.len(),
            acc@ == listing(modules@.take(i as int)),
        decreases modules@.len() - i,
    {
        proof {
            assert(modules@.take(i + 1).drop_last() =~= modules@.take(i as int));
            assert(modules@.take(i + 1).last() == modules@[i as int]);
        }
        if !modules[i].code.as_str().is_empty() {
            acc.append(modules[i].code.as_str());
            let newline = "\n";
            proof {
                reveal_strlit("\n");
            }
            acc.append(newline);
            assert(acc@ =~= listing(modules@.take(i + 1)));
        } else {
            assert(acc@ =~= listing(modules@.take(i + 1)));
        }
        i = i + 1;
    }
    assert(modules@.take(i as int) =~= modules@);
    acc
}

/// Assembles resolved modules: each is turned into text (see `generate`);
/// then either the listing of the texts or the bytecode they assemble to
/// (see `compile_spec`). The first module whose text fails gives its error;
/// `None` where the bytecode cannot be encoded.
pub fn assemble(modules: ResolvedModules, behavior: AssembleBehavior) -> (r: Option<Result<AssembleOutput, Error>>)
    requires
        modules_ok(modules),
    ensures
        texts_ok(modules) ==> exists|out: Seq<CodegenModule>|
            #[trigger] generated_all(modules, out) && match behavior {
                AssembleBehavior::Codegen => r matches Some(Ok(AssembleOutput::Codegen(s))) && s@ == listing(out),
                AssembleBehavior::Bytecode => match compile_spec(models(out)) {
                    Some(Ok(b)) => r matches Some(Ok(AssembleOutput::Bytecode(v))) && v@ == b,
                    Some(Err(e)) => r == Some(Err::<AssembleOutput, Error>(e)),
                    None => r is None,
                },
            },
        !texts_ok(modules) ==> (r matches Some(Err(e)) && first_error(modules, e)),
{
    let ghost whole = modules;
    let generated = match generate(modules) {
        Ok(g) => g,
        Err(e) => return Some(Err(e)),
    };
    assert(generated_all(whole, generated@));
    match behavior {
        AssembleBehavior::Codegen => Some(Ok(AssembleOutput::Codegen(codegen_listing(&generated)))),
        AssembleBehavior::Bytecode => match try_compile(generated) {
            Some(Ok(v)) => Some(Ok(AssembleOutput::Bytecode(v))),
            Some(Err(e)) => Some(Err(e)),
            None => None,
        },
    }
}

} // verus!
