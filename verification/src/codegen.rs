//! A module ready to be assembled: its source and what it knows of names.
use vstd::prelude::*;

use crate::mod_resolver::Either;
use crate::table::Table;

verus! {

/// A module of a program: its source, where it is placed in memory, and the
/// tables of its names.
#[derive(Debug)]
pub struct CodegenModule {
    pub name: String,
    pub code: String,
    pub path: String,
    pub address: u16,
    pub imports: Vec<String>,
    pub symbols: Table<u16>,
    pub variables: Option<Table<Either>>,
    pub exports: Table<u16>,
}

/// A module as mathematics: the bytes of its source, its address, and its tables.
pub struct ModuleModel {
    pub code: Seq<u8>,
    pub address: u16,
    pub symbols: Map<Seq<u8>, u16>,
    pub variables: Option<Map<Seq<u8>, Either>>,
    pub exports: Map<Seq<u8>, u16>,
}

impl View for CodegenModule {
    type V = ModuleModel;

    open spec fn view(&self) -> ModuleModel {
        ModuleModel {
            code: vstd::utf8::encode_utf8(self.code@),
            address: self.address,
            symbols: self.symbols@,
            variables: match self.variables {
                Some(t) => Some(t@),
                None => None,
            },
            exports: self.exports@,
        }
    }
}

} // verus!
