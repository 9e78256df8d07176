//! The assembler's last step: modules, parsed, to bytecode. Each module is
//! placed at its address; labels and data blocks name the addresses where
//! they land, and instructions and data are written as bytes.
use vstd::prelude::*;
use vstd::string::StringSliceAdditionalSpecFns;

use crate::codegen::{CodegenModule, ModuleModel};
use crate::hex::{hex_number, parse_hex_u16, parse_hex_u8};
use crate::memory::{high_byte, low_byte};
use crate::mod_resolver::Either;
use crate::parser::ast::{Ast, ByteOffset, Instruction, InstructionKind, Statement, StatementView};
use crate::parser::error::Error;
use crate::parser::{parse, parse_spec};
use crate::assembler::register::Register;

verus! {

/// The size of the bytecode image.
pub const IMAGE_SIZE: usize = 65535;

/// What encoding gives: `None` where the assembler stops on a statement it
/// cannot encode, else the bytes or the error.
pub type Encoded<T> = Option<Result<T, Error>>;

/// The bytes of the source that an offset covers.
pub open spec fn text(code: Seq<u8>, o: ByteOffset) -> Seq<u8> {
    code.subrange(o.start as int, o.end as int)
}

/// Whether an offset lies in the source.
pub open spec fn in_code(code: Seq<u8>, o: ByteOffset) -> bool {
    o.start <= o.end <= code.len()
}

/// The value of a literal, a variable or an address of one: a variable is a
/// symbol of the module, else a resolved import variable.
pub open spec fn value_spec(m: ModuleModel, node: Statement) -> Encoded<u16>
    decreases node,
{
    match node {
        Statement::Var(name) => if !in_code(m.code, name) {
            None
        } else {
            let n = text(m.code, name);
            if m.symbols.contains_key(n) {
                Some(Ok(m.symbols[n]))
            } else if m.variables is Some && m.variables->Some_0.contains_key(n) {
                match m.variables->Some_0[n] {
                    Either::ResolvedValue(v) => Some(Ok(v)),
                    _ => None,
                }
            } else {
                Some(Err(Error::UndefinedVariable(name)))
            }
        },
        Statement::HexLiteral(o) => if !in_code(m.code, o) {
            None
        } else {
            match hex_number(text(m.code, o), 0xFFFF) {
                Some(v) => Some(Ok(v as u16)),
                None => Some(Err(Error::InvalidHex(o))),
            }
        },
        Statement::Address(inner) => value_spec(m, *inner),
        _ => None,
    }
}

/// The number of a register operand.
pub open spec fn register_spec(code: Seq<u8>, node: Statement) -> Encoded<u8> {
    match node {
        Statement::Register(o) => if !in_code(code, o) {
            None
        } else {
            match Register::spec_from_name(text(code, o)) {
                Some(r) => Some(Ok(r.spec_index() as u8)),
                None => Some(Err(Error::InvalidRegister(o))),
            }
        },
        _ => None,
    }
}

/// Two encodings in turn: the second counts only where the first succeeds.
pub open spec fn then2<A, B>(a: Encoded<A>, b: Encoded<B>) -> Encoded<(A, B)> {
    match a {
        None => None,
        Some(Err(e)) => Some(Err(e)),
        Some(Ok(x)) => match b {
            None => None,
            Some(Err(e)) => Some(Err(e)),
            Some(Ok(y)) => Some(Ok((x, y))),
        },
    }
}

/// The bytes of a word, the low one first.
pub open spec fn word_bytes(w: u16) -> Seq<u8> {
    seq![low_byte(w), high_byte(w)]
}

/// The operand bytes of an instruction, by the shape of its operands.
pub open spec fn operands_spec(m: ModuleModel, i: Instruction) -> Encoded<Seq<u8>> {
    let k = i.spec_kind();
    if k == InstructionKind::LitReg || k == InstructionKind::MemReg {
        match then2(register_spec(m.code, i.spec_lhs()), value_spec(m, i.spec_rhs())) {
            None => None,
            Some(Err(e)) => Some(Err(e)),
            Some(Ok((r, v))) => Some(Ok(seq![r] + word_bytes(v))),
        }
    } else if k == InstructionKind::RegMem {
        match i.spec_lhs() {
            Statement::Address(inner) => if *inner is Register {
                match then2(register_spec(m.code, *inner), register_spec(m.code, i.spec_rhs())) {
                    None => None,
                    Some(Err(e)) => Some(Err(e)),
                    Some(Ok((a, r))) => Some(Ok(seq![a, 0u8, r])),
                }
            } else {
                match then2(value_spec(m, i.spec_lhs()), register_spec(m.code, i.spec_rhs())) {
                    None => None,
                    Some(Err(e)) => Some(Err(e)),
                    Some(Ok((v, r))) => Some(Ok(word_bytes(v) + seq![r])),
                }
            },
            _ => None,
        }
    } else if k == InstructionKind::RegReg || k == InstructionKind::RegPtrReg {
        match then2(register_spec(m.code, i.spec_lhs()), register_spec(m.code, i.spec_rhs())) {
            None => None,
            Some(Err(e)) => Some(Err(e)),
            Some(Ok((d, f))) => Some(Ok(seq![d, f])),
        }
    } else if k == InstructionKind::LitMem {
        match then2(value_spec(m, i.spec_lhs()), value_spec(m, i.spec_rhs())) {
            None => None,
            Some(Err(e)) => Some(Err(e)),
            Some(Ok((a, v))) => Some(Ok(word_bytes(a) + word_bytes(v))),
        }
    } else if k == InstructionKind::SingleReg {
        match register_spec(m.code, i.spec_lhs()) {
            None => None,
            Some(Err(e)) => Some(Err(e)),
            Some(Ok(r)) => Some(Ok(seq![r])),
        }
    } else if k == InstructionKind::SingleLit {
        match value_spec(m, i.spec_lhs()) {
            None => None,
            Some(Err(e)) => Some(Err(e)),
            Some(Ok(v)) => Some(Ok(word_bytes(v))),
        }
    } else {
        Some(Ok(Seq::empty()))
    }
}

/// The bytes of an instruction: its operation, then its operands.
pub open spec fn instruction_spec(m: ModuleModel, i: Instruction) -> Encoded<Seq<u8>> {
    match operands_spec(m, i) {
        None => None,
        Some(Err(e)) => Some(Err(e)),
        Some(Ok(b)) => Some(Ok(seq![i.spec_opcode().spec_byte()] + b)),
    }
}

/// The bytes of the values of a data block of `size` bits, each a hex literal.
pub open spec fn data_values_bytes(m: ModuleModel, size: u8, values: Seq<Statement>) -> Encoded<Seq<u8>>
    decreases values.len(),
{
    if values.len() == 0 {
        Some(Ok(Seq::empty()))
    } else {
        let first: Encoded<Seq<u8>> = match values[0] {
            Statement::HexLiteral(o) => if !in_code(m.code, o) {
                None
            } else if size == 8 {
                match hex_number(text(m.code, o), 0xFF) {
                    Some(x) => Some(Ok(seq![x as u8])),
                    None => Some(Err(Error::InvalidHex(o))),
                }
            } else {
                match hex_number(text(m.code, o), 0xFFFF) {
                    Some(x) => Some(Ok(word_bytes(x as u16))),
                    None => Some(Err(Error::InvalidHex(o))),
                }
            },
            _ => None,
        };
        match then2(first, data_values_bytes(m, size, values.drop_first())) {
            None => None,
            Some(Err(e)) => Some(Err(e)),
            Some(Ok((a, b))) => Some(Ok(a + b)),
        }
    }
}

/// The bytes of a data block: its values in order.
pub open spec fn data_spec(m: ModuleModel, size: u8, values: Seq<Statement>) -> Encoded<Seq<u8>> {
    if size == 8 || size == 16 {
        data_values_bytes(m, size, values)
    } else {
        None
    }
}

/// The bytes of a statement: data blocks and instructions have some, other
/// statements none.
pub open spec fn statement_bytes(m: ModuleModel, s: StatementView) -> Encoded<Seq<u8>> {
    match s {
        StatementView::Data { size, values, .. } => data_spec(m, size, values),
        StatementView::Plain(Statement::Instruction(i)) => instruction_spec(m, *i),
        _ => Some(Ok(Seq::empty())),
    }
}

/// The bytes of a list of statements, one after the other.
pub open spec fn statements_bytes(m: ModuleModel, stmts: Seq<StatementView>) -> Encoded<Seq<u8>>
    decreases stmts.len(),
{
    if stmts.len() == 0 {
        Some(Ok(Seq::empty()))
    } else {
        match then2(statement_bytes(m, stmts[0]), statements_bytes(m, stmts.drop_first())) {
            None => None,
            Some(Err(e)) => Some(Err(e)),
            Some(Ok((a, b))) => Some(Ok(a + b)),
        }
    }
}

/// The number of bytes a statement takes in the bytecode.
pub open spec fn statement_size(s: StatementView) -> int {
    match s {
        StatementView::Data { size, values, .. } => values.len() * (if size == 8 { 1int } else { 2int }),
        StatementView::Plain(Statement::Instruction(i)) => i.spec_kind().spec_byte_size() as int,
        _ => 0,
    }
}

/// The number of bytes a list of statements takes.
pub open spec fn total_size(stmts: Seq<StatementView>) -> int
    decreases stmts.len(),
{
    if stmts.len() == 0 {
        0
    } else {
        statement_size(stmts[0]) + total_size(stmts.drop_first())
    }
}

/// No list of statements takes a negative number of bytes.
pub proof fn lemma_total_size(stmts: Seq<StatementView>)
    ensures
        total_size(stmts) >= 0,
        stmts.len() > 0 ==> total_size(stmts) == statement_size(stmts[0]) + total_size(stmts.drop_first()),
        stmts.len() > 0 ==> statement_size(stmts[0]) >= 0,
    decreases stmts.len(),
{
    if stmts.len() > 0 {
        lemma_total_size(stmts.drop_first());
        match stmts[0] {
            StatementView::Data { size, values, .. } => {
                assert(values.len() * (if size == 8 { 1int } else { 2int }) >= 0) by (nonlinear_arith);
            },
            _ => {},
        }
    }
}

/// The symbols and exports after naming, from `address` on, the labels and
/// data blocks of a list of statements. A data block is exported with the
/// address right after its values.
pub open spec fn collect_spec(
    code: Seq<u8>,
    stmts: Seq<StatementView>,
    address: int,
    symbols: Map<Seq<u8>, u16>,
    exports: Map<Seq<u8>, u16>,
) -> (Map<Seq<u8>, u16>, Map<Seq<u8>, u16>)
    decreases stmts.len(),
{
    if stmts.len() == 0 {
        (symbols, exports)
    } else {
        let rest = stmts.drop_first();
        match stmts[0] {
            StatementView::Plain(Statement::Label { name, exported }) => {
                let n = text(code, name);
                collect_spec(code, rest, address, symbols.insert(n, address as u16),
                    if exported { exports.insert(n, address as u16) } else { exports })
            },
            StatementView::Data { name, size, exported, values } => {
                let n = text(code, name);
                let next = address + values.len() * (if size == 8 { 1int } else { 2int });
                collect_spec(code, rest, next, symbols.insert(n, address as u16),
                    if exported { exports.insert(n, next as u16) } else { exports })
            },
            StatementView::Plain(Statement::Instruction(i)) => collect_spec(code, rest,
                address + i.spec_kind().spec_byte_size(), symbols, exports),
            _ => collect_spec(code, rest, address, symbols, exports),
        }
    }
}

/// Whether the name of every label and data block lies in the source.
pub open spec fn names_in(code: Seq<u8>, stmts: Seq<StatementView>) -> bool {
    forall|i: int| 0 <= i < stmts.len() ==> match #[trigger] stmts[i] {
        StatementView::Plain(Statement::Label { name, .. }) => in_code(code, name),
        StatementView::Data { name, .. } => in_code(code, name),
        _ => true,
    }
}

/// An image with `bytes` written from `address` on.
pub open spec fn write_bytes(image: Seq<u8>, address: int, bytes: Seq<u8>) -> Seq<u8> {
    Seq::new(image.len(), |j: int| if address <= j < address + bytes.len() { bytes[j - address] } else { image[j] })
}

/// A module with the tables that naming its statements gives.
pub open spec fn named(m: ModuleModel, stmts: Seq<StatementView>) -> ModuleModel {
    let (symbols, exports) = collect_spec(m.code, stmts, m.address as int, m.symbols, m.exports);
    ModuleModel { symbols, exports, ..m }
}

/// Assembling one module into `image`: it is parsed, named and written at its
/// address; `None` where it does not fit below the end of the image, names a
/// label or data block outside its source, or has a statement the assembler
/// cannot encode.
pub open spec fn compile_one_spec(m: ModuleModel, image: Seq<u8>) -> Encoded<Seq<u8>> {
    match parse_spec(m.code) {
        Err(e) => Some(Err(e)),
        Ok(stmts) => if m.address + total_size(stmts) > IMAGE_SIZE || !names_in(m.code, stmts) {
            None
        } else {
            match statements_bytes(named(m, stmts), stmts) {
                None => None,
                Some(Err(e)) => Some(Err(e)),
                Some(Ok(b)) => Some(Ok(write_bytes(image, m.address as int, b))),
            }
        },
    }
}

/// Assembling the modules in turn into `image`.
pub open spec fn compile_modules(ms: Seq<ModuleModel>, image: Seq<u8>) -> Encoded<Seq<u8>>
    decreases ms.len(),
{
    if ms.len() == 0 {
        Some(Ok(image))
    } else {
        match compile_one_spec(ms[0], image) {
            Some(Ok(next)) => compile_modules(ms.drop_first(), next),
            other => other,
        }
    }
}

/// The first `n` bytes of the image without the zeros that end them; the
/// whole image where they are all zero.
pub open spec fn trim_from(image: Seq<u8>, n: int) -> Seq<u8>
    decreases n,
{
    if n <= 0 {
        image
    } else if image[n - 1] != 0 {
        image.subrange(0, n)
    } else {
        trim_from(image, n - 1)
    }
}

/// The image before any module is written: all zeros.
pub open spec fn blank_image() -> Seq<u8> {
    Seq::new(IMAGE_SIZE as nat, |i: int| 0u8)
}

/// The bytecode of a program: the image of its modules up to its last byte
/// that is not zero.
pub open spec fn compile_spec(ms: Seq<ModuleModel>) -> Encoded<Seq<u8>> {
    match compile_modules(ms, blank_image()) {
        None => None,
        Some(Err(e)) => Some(Err(e)),
        Some(Ok(image)) => Some(Ok(trim_from(image, image.len() as int))),
    }
}

/// The bytes of a module's source.
fn code_of(module: &CodegenModule) -> (code: &[u8])
    ensures
        code@ == module@.code,
{
    module.code.as_str().as_bytes()
}

/// Writes `byte` at `address` and moves the address on.
fn put(bytecode: &mut Vec<u8>, address: &mut u16, byte: u8)
    requires
        (*old(address) as int) < old(bytecode)@.len(),
        old(bytecode)@.len() == IMAGE_SIZE,
    ensures
        final(bytecode)@ == old(bytecode)@.update(*old(address) as int, byte),
        *final(address) == *old(address) + 1,
{
    bytecode.set(*address as usize, byte);
    *address = *address + 1;
}

/// The value of a literal, a variable or an address of one (see `value_spec`).
fn encode_literal_or_address(module: &CodegenModule, node: &Statement) -> (r: Encoded<u16>)
    ensures
        r == value_spec(module@, *node),
    decreases node,
{
    match node {
        Statement::Var(name) => {
            let code = code_of(module);
            if !(name.start <= name.end && name.end <= code.len()) {
                return None;
            }
            let name_str = &code[name.start..name.end];
            if let Some(value) = module.symbols.get(name_str) {
                return Some(Ok(*value));
            }
            if let Some(variables) = &module.variables {
                if let Some(value) = variables.get(name_str) {
                    return match value {
                        Either::ResolvedValue(v) => Some(Ok(*v)),
                        _ => None,
                    };
                }
            }
            Some(Err(Error::UndefinedVariable(*name)))
        },
        Statement::HexLiteral(value) => {
            let code = code_of(module);
            if !(value.start <= value.end && value.end <= code.len()) {
                return None;
            }
            match parse_hex_u16(&code[value.start..value.end]) {
                Some(v) => Some(Ok(v)),
                None => Some(Err(Error::InvalidHex(*value))),
            }
        },
        Statement::Address(inner) => encode_literal_or_address(module, &**inner),
        _ => None,
    }
}

/// The number of a register operand (see `register_spec`).
fn encode_register(source: &[u8], value: &Statement) -> (r: Encoded<u8>)
    ensures
        r == register_spec(source@, *value),
{
    match value {
        Statement::Register(name) => {
            if !(name.start <= name.end && name.end <= source.len()) {
                return None;
            }
            match Register::from_name(&source[name.start..name.end]) {
                Ok(register) => Some(Ok(register.byte())),
                Err(_) => Some(Err(Error::InvalidRegister(*name))),
            }
        },
        _ => None,
    }
}

/// Writes the two bytes of a word, the low one first.
fn put_word(bytecode: &mut Vec<u8>, address: &mut u16, word: u16)
    requires
        *old(address) + 2 <= old(bytecode)@.len(),
        old(bytecode)@.len() == IMAGE_SIZE,
    ensures
        final(bytecode)@ == write_bytes(old(bytecode)@, *old(address) as int, word_bytes(word)),
        *final(address) == *old(address) + 2,
{
    let ghost before = bytecode@;
    let ghost a = *address as int;
    put(bytecode, address, (word % 256) as u8);
    put(bytecode, address, (word / 256) as u8);
    assert(bytecode@ =~= write_bytes(before, a, word_bytes(word)));
}

/// Writes an instruction at `address`: its operation, then its operands
/// (see `instruction_spec`). `None` where the instruction cannot be encoded.
#[verifier::rlimit(60)]
fn compile_instruction(module: &CodegenModule, inst: &Instruction, bytecode: &mut Vec<u8>, address: &mut u16) -> (r: Encoded<()>)
    requires
        old(bytecode)@.len() == IMAGE_SIZE,
        *old(address) + inst.spec_kind().spec_byte_size() <= IMAGE_SIZE,
    ensures
        final(bytecode)@.len() == IMAGE_SIZE,
        match instruction_spec(module@, *inst) {
            Some(Ok(b)) => r == Some(Ok::<(), Error>(())) && final(bytecode)@ == write_bytes(old(bytecode)@, *old(address) as int, b)
                && *final(address) == *old(address) + b.len() && b.len() == inst.spec_kind().spec_byte_size(),
            Some(Err(e)) => r == Some(Err::<(), Error>(e)),
            None => r is None,
        },
{
    let code = code_of(module);
    let ghost before = bytecode@;
    let ghost start = *address as int;
    let op = inst.opcode().byte();
    put(bytecode, address, op);
    let kind = inst.kind();
    let ghost ops: Seq<u8>;
    match kind {
        InstructionKind::LitReg | InstructionKind::MemReg => {
            let register = match encode_register(code, inst.lhs()) {
                Some(Ok(x)) => x,
                Some(Err(e)) => return Some(Err(e)),
                None => return None,
            };
            let value = match encode_literal_or_address(module, inst.rhs()) {
                Some(Ok(x)) => x,
                Some(Err(e)) => return Some(Err(e)),
                None => return None,
            };
            put(bytecode, address, register);
            put_word(bytecode, address, value);
            proof { ops = seq![register] + word_bytes(value); }
        },
        InstructionKind::RegMem => {
            let lhs = inst.lhs();
            let rhs = inst.rhs();
            match lhs {
                Statement::Address(inner) => {
                    if let Statement::Register(_) = &**inner {
                        let value = match encode_register(code, &**inner) {
                            Some(Ok(x)) => x,
                            Some(Err(e)) => return Some(Err(e)),
                            None => return None,
                        };
                        let register = match encode_register(code, rhs) {
                            Some(Ok(x)) => x,
                            Some(Err(e)) => return Some(Err(e)),
                            None => return None,
                        };
                        put(bytecode, address, value);
                        put(bytecode, address, 0);
                        put(bytecode, address, register);
                        proof { ops = seq![value, 0u8, register]; }
                    } else {
                        let value = match encode_literal_or_address(module, lhs) {
                            Some(Ok(x)) => x,
                            Some(Err(e)) => return Some(Err(e)),
                            None => return None,
                        };
                        let register = match encode_register(code, rhs) {
                            Some(Ok(x)) => x,
                            Some(Err(e)) => return Some(Err(e)),
                            None => return None,
                        };
                        put_word(bytecode, address, value);
                        put(bytecode, address, register);
                        proof { ops = word_bytes(value) + seq![register]; }
                    }
                },
                _ => {
                    return None;
                },
            }
        },
        InstructionKind::RegReg | InstructionKind::RegPtrReg => {
            let dest = match encode_register(code, inst.lhs()) {
                Some(Ok(x)) => x,
                Some(Err(e)) => return Some(Err(e)),
                None => return None,
            };
            let from = match encode_register(code, inst.rhs()) {
                Some(Ok(x)) => x,
                Some(Err(e)) => return Some(Err(e)),
                None => return None,
            };
            put(bytecode, address, dest);
            put(bytecode, address, from);
            proof { ops = seq![dest, from]; }
        },
        InstructionKind::LitMem => {
            let value = match encode_literal_or_address(module, inst.lhs()) {
                Some(Ok(x)) => x,
                Some(Err(e)) => return Some(Err(e)),
                None => return None,
            };
            let literal = match encode_literal_or_address(module, inst.rhs()) {
                Some(Ok(x)) => x,
                Some(Err(e)) => return Some(Err(e)),
                None => return None,
            };
            put_word(bytecode, address, value);
            put_word(bytecode, address, literal);
            proof { ops = word_bytes(value) + word_bytes(literal); }
        },
        InstructionKind::SingleReg => {
            let register = match encode_register(code, inst.lhs()) {
                Some(Ok(x)) => x,
                Some(Err(e)) => return Some(Err(e)),
                None => return None,
            };
            put(bytecode, address, register);
            proof { ops = seq![register]; }
        },
        InstructionKind::SingleLit => {
            let value = match encode_literal_or_address(module, inst.lhs()) {
                Some(Ok(x)) => x,
                Some(Err(e)) => return Some(Err(e)),
                None => return None,
            };
            put_word(bytecode, address, value);
            proof { ops = word_bytes(value); }
        },
        InstructionKind::NoArgs => {
            proof { ops = Seq::empty(); }
        },
    }
    assert(bytecode@ =~= write_bytes(before, start, seq![op] + ops));
    Some(Ok(()))
}

/// Writes the values of a data block from the `i`-th on (see `data_values_bytes`).
fn compile_data_values(
    module: &CodegenModule,
    size: u8,
    values: &Vec<Statement>,
    i: usize,
    bytecode: &mut Vec<u8>,
    address: &mut u16,
) -> (r: Encoded<()>)
    requires
        i <= values@.len(),
        size == 8 || size == 16,
        old(bytecode)@.len() == IMAGE_SIZE,
        *old(address) + (values@.len() - i) * (if size == 8 { 1int } else { 2int }) <= IMAGE_SIZE,
    ensures
        final(bytecode)@.len() == IMAGE_SIZE,
        match data_values_bytes(module@, size, values@.subrange(i as int, values@.len() as int)) {
            Some(Ok(b)) => r == Some(Ok::<(), Error>(())) && final(bytecode)@ == write_bytes(old(bytecode)@, *old(address) as int, b)
                && *final(address) == *old(address) + b.len()
                && b.len() == (values@.len() - i) * (if size == 8 { 1int } else { 2int }),
            Some(Err(e)) => r == Some(Err::<(), Error>(e)),
            None => r is None,
        },
    decreases values@.len() - i,
{
    let ghost rest = values@.subrange(i as int, values@.len() as int);
    if i >= values.len() {
        assert(bytecode@ =~= write_bytes(bytecode@, *address as int, Seq::empty()));
        return Some(Ok(()));
    }
    assert(rest[0] == values@[i as int]);
    assert(rest.drop_first() =~= values@.subrange(i + 1, values@.len() as int));
    let ghost before = bytecode@;
    let ghost start = *address as int;
    let code = code_of(module);
    let ghost first: Seq<u8>;
    match &values[i] {
        Statement::HexLiteral(value) => {
            if !(value.start <= value.end && value.end <= code.len()) {
                return None;
            }
            if size == 8 {
                let byte = match parse_hex_u8(&code[value.start..value.end]) {
                    Some(b) => b,
                    None => return Some(Err(Error::InvalidHex(*value))),
                };
                put(bytecode, address, byte);
                proof { first = seq![byte]; }
                assert(bytecode@ =~= write_bytes(before, start, first));
            } else {
                let word = match parse_hex_u16(&code[value.start..value.end]) {
                    Some(w) => w,
                    None => return Some(Err(Error::InvalidHex(*value))),
                };
                put_word(bytecode, address, word);
                proof { first = word_bytes(word); }
            }
        },
        _ => {
            return None;
        },
    }
    let ghost middle = bytecode@;
    match compile_data_values(module, size, values, i + 1, bytecode, address) {
        Some(Ok(())) => {},
        other => {
            return other;
        },
    }
    proof {
        let later = data_values_bytes(module@, size, values@.subrange(i + 1, values@.len() as int))->Some_0->Ok_0;
        assert(bytecode@ =~= write_bytes(before, start, first + later));
    }
    Some(Ok(()))
}

/// Writes a data block at `address` (see `data_spec`).
fn compile_data_block(module: &CodegenModule, stat: &Statement, bytecode: &mut Vec<u8>, address: &mut u16) -> (r: Encoded<()>)
    requires
        stat is Data,
        old(bytecode)@.len() == IMAGE_SIZE,
        *old(address) + statement_size(stat@) <= IMAGE_SIZE,
    ensures
        final(bytecode)@.len() == IMAGE_SIZE,
        match statement_bytes(module@, stat@) {
            Some(Ok(b)) => r == Some(Ok::<(), Error>(())) && final(bytecode)@ == write_bytes(old(bytecode)@, *old(address) as int, b)
                && *final(address) == *old(address) + b.len() && b.len() == statement_size(stat@),
            Some(Err(e)) => r == Some(Err::<(), Error>(e)),
            None => r is None,
        },
{
    match stat {
        Statement::Data { size, values, .. } => {
            if *size != 8 && *size != 16 {
                return None;
            }
            assert(values@.subrange(0, values@.len() as int) =~= values@);
            compile_data_values(module, *size, values, 0, bytecode, address)
        },
        _ => None,
    }
}

/// Writes the statements from the `i`-th on (see `statements_bytes`).
fn compile_statements(
    module: &CodegenModule,
    statements: &Vec<Statement>,
    i: usize,
    bytecode: &mut Vec<u8>,
    address: &mut u16,
) -> (r: Encoded<()>)
    requires
        i <= statements@.len(),
        old(bytecode)@.len() == IMAGE_SIZE,
        *old(address) + total_size(statements@.subrange(i as int, statements@.len() as int).map_values(|s: Statement| s@)) <= IMAGE_SIZE,
    ensures
        final(bytecode)@.len() == IMAGE_SIZE,
        match statements_bytes(module@, statements@.subrange(i as int, statements@.len() as int).map_values(|s: Statement| s@)) {
            Some(Ok(b)) => r == Some(Ok::<(), Error>(())) && final(bytecode)@ == write_bytes(old(bytecode)@, *old(address) as int, b)
                && *final(address) == *old(address) + b.len(),
            Some(Err(e)) => r == Some(Err::<(), Error>(e)),
            None => r is None,
        },
    decreases statements@.len() - i,
{
    let ghost rest = statements@.subrange(i as int, statements@.len() as int).map_values(|s: Statement| s@);
    if i >= statements.len() {
        assert(rest =~= Seq::<StatementView>::empty());
        assert(bytecode@ =~= write_bytes(bytecode@, *address as int, Seq::empty()));
        return Some(Ok(()));
    }
    assert(rest[0] == statements@[i as int]@);
    assert(rest.drop_first() =~= statements@.subrange(i + 1, statements@.len() as int).map_values(|s: Statement| s@));
    let ghost before = bytecode@;
    let ghost start = *address as int;
    let ghost first = statement_bytes(module@, rest[0]);
    proof {
        lemma_total_size(rest);
        lemma_total_size(rest.drop_first());
    }
    match &statements[i] {
        Statement::Data { .. } => {
            match compile_data_block(module, &statements[i], bytecode, address) {
                Some(Ok(())) => {},
                other => {
                    return other;
                },
            }
        },
        Statement::Instruction(inst) => {
            match compile_instruction(module, &**inst, bytecode, address) {
                Some(Ok(())) => {},
                other => {
                    return other;
                },
            }
        },
        _ => {
            assert(bytecode@ =~= write_bytes(before, start, Seq::empty()));
        },
    }
    match compile_statements(module, statements, i + 1, bytecode, address) {
        Some(Ok(())) => {},
        other => {
            return other;
        },
    }
    proof {
        let a = first->Some_0->Ok_0;
        let later = statements_bytes(module@, rest.drop_first())->Some_0->Ok_0;
        assert(bytecode@ =~= write_bytes(before, start, a + later));
    }
    Some(Ok(()))
}

/// Writes the statements of a module from its address on.
fn compile_module(module: &CodegenModule, ast: &Ast, bytecode: &mut Vec<u8>) -> (r: Encoded<()>)
    requires
        old(bytecode)@.len() == IMAGE_SIZE,
        module.address + total_size(ast@) <= IMAGE_SIZE,
    ensures
        final(bytecode)@.len() == IMAGE_SIZE,
        match statements_bytes(module@, ast@) {
            Some(Ok(b)) => r == Some(Ok::<(), Error>(())) && final(bytecode)@ == write_bytes(old(bytecode)@, module.address as int, b),
            Some(Err(e)) => r == Some(Err::<(), Error>(e)),
            None => r is None,
        },
{
    let mut start_address = module.address;
    assert(ast.statements@.subrange(0, ast.statements@.len() as int) =~= ast.statements@);
    compile_statements(module, &ast.statements, 0, bytecode, &mut start_address)
}

/// Names the labels and data blocks from the `i`-th statement on (see `collect_spec`).
fn collect_from(module: &mut CodegenModule, statements: &Vec<Statement>, i: usize, address: &mut u16)
    requires
        i <= statements@.len(),
        names_in(old(module)@.code, statements@.subrange(i as int, statements@.len() as int).map_values(|s: Statement| s@)),
        *old(address) + total_size(statements@.subrange(i as int, statements@.len() as int).map_values(|s: Statement| s@)) <= IMAGE_SIZE,
    ensures
        ({
            let rest = statements@.subrange(i as int, statements@.len() as int).map_values(|s: Statement| s@);
            let (symbols, exports) = collect_spec(old(module)@.code, rest, *old(address) as int, old(module)@.symbols, old(module)@.exports);
            &&& final(module)@ == (ModuleModel { symbols, exports, ..old(module)@ })
            &&& *final(address) == *old(address) + total_size(rest)
        }),
    decreases statements@.len() - i,
{
    let ghost rest = statements@.subrange(i as int, statements@.len() as int).map_values(|s: Statement| s@);
    if i >= statements.len() {
        assert(rest =~= Seq::<StatementView>::empty());
        return;
    }
    assert(rest[0] == statements@[i as int]@);
    assert(rest.drop_first() =~= statements@.subrange(i + 1, statements@.len() as int).map_values(|s: Statement| s@));
    proof {
        lemma_total_size(rest);
        lemma_total_size(rest.drop_first());
        assert(names_in(old(module)@.code, rest.drop_first())) by {
            assert forall|j: int| 0 <= j < rest.drop_first().len() implies match #[trigger] rest.drop_first()[j] {
                StatementView::Plain(Statement::Label { name, .. }) => in_code(old(module)@.code, name),
                StatementView::Data { name, .. } => in_code(old(module)@.code, name),
                _ => true,
            } by {
                assert(rest.drop_first()[j] == rest[j + 1]);
            }
        }
        assert(match rest[0] {
            StatementView::Plain(Statement::Label { name, .. }) => in_code(old(module)@.code, name),
            StatementView::Data { name, .. } => in_code(old(module)@.code, name),
            _ => true,
        });
    }
    match &statements[i] {
        Statement::Label { name, exported } => {
            let code = module.code.as_str().as_bytes();
            let n = &code[name.start..name.end];
            module.symbols.insert(n, *address);
            if *exported {
                module.exports.insert(n, *address);
            }
        },
        Statement::Data { name, values, size, exported } => {
            let code = module.code.as_str().as_bytes();
            let n = &code[name.start..name.end];
            module.symbols.insert(n, *address);
            let byte_size: usize = if *size == 8 { 1 } else { 2 };
            let total_size = values.len() * byte_size;
            *address = *address + total_size as u16;
            if *exported {
                module.exports.insert(n, *address);
            }
        },
        Statement::Instruction(instr) => {
            *address = *address + instr.kind().byte_size() as u16;
        },
        _ => {},
    }
    collect_from(module, statements, i + 1, address);
}

/// Names the labels and data blocks of a module from `address` on: each label
/// the address where it stands, each data block that of its first value.
pub fn collect_symbols(module: &mut CodegenModule, ast: &Ast, address: &mut u16)
    requires
        names_in(old(module)@.code, ast@),
        *old(address) + total_size(ast@) <= IMAGE_SIZE,
    ensures
        ({
            let (symbols, exports) = collect_spec(old(module)@.code, ast@, *old(address) as int, old(module)@.symbols, old(module)@.exports);
            &&& final(module)@ == (ModuleModel { symbols, exports, ..old(module)@ })
            &&& *final(address) == *old(address) + total_size(ast@)
        }),
{
    assert(ast.statements@.subrange(0, ast.statements@.len() as int) =~= ast.statements@);
    collect_from(module, &ast.statements, 0, address);
}

/// Whether the name of every label and data block lies in the source (see `names_in`).
fn check_names(code: &[u8], statements: &Vec<Statement>) -> (b: bool)
    ensures
        b == names_in(code@, statements@.map_values(|s: Statement| s@)),
{
    let ghost views = statements@.map_values(|s: Statement| s@);
    let mut i: usize = 0;
    while i < statements.len()
        invariant
            views == statements@.map_values(|s: Statement| s@),
            i <= statements@.len(),
            forall|j: int| 0 <= j < i ==> match #[trigger] views[j] {
                StatementView::Plain(Statement::Label { name, .. }) => in_code(code@, name),
                StatementView::Data { name, .. } => in_code(code@, name),
                _ => true,
            },
        decreases statements@.len() - i,
    {
        assert(views[i as int] == statements@[i as int]@);
        let ok = match &statements[i] {
            Statement::Label { name, .. } => name.start <= name.end && name.end <= code.len(),
            Statement::Data { name, .. } => name.start <= name.end && name.end <= code.len(),
            _ => true,
        };
        if !ok {
            return false;
        }
        i = i + 1;
    }
    true
}

/// The size of the statements before `k` as a sum from the front.
proof fn lemma_total_size_take(stmts: Seq<StatementView>, k: int)
    requires
        0 <= k < stmts.len(),
    ensures
        total_size(stmts.take(k + 1)) == total_size(stmts.take(k)) + statement_size(stmts[k]),
    decreases k,
{
    lemma_total_size(stmts.take(k + 1));
    lemma_total_size(stmts.take(k));
    if k == 0 {
        assert(stmts.take(1).drop_first() =~= Seq::<StatementView>::empty());
        assert(stmts.take(0) =~= Seq::<StatementView>::empty());
    } else {
        lemma_total_size_take(stmts.drop_first(), k - 1);
        assert(stmts.take(k + 1).drop_first() =~= stmts.drop_first().take(k));
        assert(stmts.take(k).drop_first() =~= stmts.drop_first().take(k - 1));
    }
}

/// Whether the statements fit in the image from `address` on.
fn check_fits(address: u16, statements: &Vec<Statement>) -> (b: bool)
    ensures
        b == (address + total_size(statements@.map_values(|s: Statement| s@)) <= IMAGE_SIZE),
{
    let ghost views = statements@.map_values(|s: Statement| s@);
    let mut end: usize = address as usize;
    let mut i: usize = 0;
    while i < statements.len()
        invariant
            views == statements@.map_values(|s: Statement| s@),
            i <= statements@.len(),
            end == address + total_size(views.take(i as int)),
            end <= IMAGE_SIZE,
        decreases statements@.len() - i,
    {
        proof {
            lemma_total_size_take(views, i as int);
            assert(views[i as int] == statements@[i as int]@);
        }
        let size: usize = match &statements[i] {
            Statement::Data { size, values, .. } => {
                let unit: usize = if *size == 8 { 1 } else { 2 };
                if values.len() > IMAGE_SIZE {
                    proof {
                        lemma_rest_size(views, i as int);
                        assert(values@.len() * (if *size == 8 { 1int } else { 2int }) >= values@.len()) by (nonlinear_arith)
                            requires values@.len() >= 0;
                    }
                    return false;
                }
                values.len() * unit
            },
            Statement::Instruction(inst) => inst.kind().byte_size() as usize,
            _ => 0,
        };
        if size > IMAGE_SIZE - end {
            proof {
                lemma_rest_size(views, i as int);
            }
            return false;
        }
        end = end + size;
        i = i + 1;
    }
    proof {
        assert(views.take(i as int) =~= views);
    }
    true
}

/// The statements from `k` on take no less than statement `k`, and the
/// whole takes the front and the rest.
proof fn lemma_rest_size(stmts: Seq<StatementView>, k: int)
    requires
        0 <= k < stmts.len(),
    ensures
        total_size(stmts) >= total_size(stmts.take(k)) + statement_size(stmts[k]),
    decreases stmts.len(),
{
    lemma_total_size(stmts);
    if k == 0 {
        lemma_total_size(stmts.drop_first());
        assert(stmts.take(0) =~= Seq::<StatementView>::empty());
    } else {
        lemma_rest_size(stmts.drop_first(), k - 1);
        lemma_total_size(stmts.take(k));
        assert(stmts.take(k).drop_first() =~= stmts.drop_first().take(k - 1));
        assert(stmts.take(k)[0] == stmts[0]);
    }
}

/// Assembles one module into the bytecode (see `compile_one_spec`).
fn compile_one(module: &mut CodegenModule, bytecode: &mut Vec<u8>) -> (r: Encoded<()>)
    requires
        old(bytecode)@.len() == IMAGE_SIZE,
    ensures
        final(bytecode)@.len() == IMAGE_SIZE,
        match compile_one_spec(old(module)@, old(bytecode)@) {
            Some(Ok(image)) => r == Some(Ok::<(), Error>(())) && final(bytecode)@ == image,
            Some(Err(e)) => r == Some(Err::<(), Error>(e)),
            None => r is None,
        },
{
    let ast = match parse(module.code.as_str()) {
        Ok(ast) => ast,
        Err(e) => return Some(Err(e)),
    };
    if !check_names(code_of(module), &ast.statements) || !check_fits(module.address, &ast.statements) {
        return None;
    }
    let mut module_address = module.address;
    collect_symbols(module, &ast, &mut module_address);
    compile_module(module, &ast, bytecode)
}

/// The modules as mathematics.
pub open spec fn models(modules: Seq<CodegenModule>) -> Seq<ModuleModel> {
    modules.map_values(|m: CodegenModule| m@)
}

/// Assembles the modules into bytecode (see `compile_spec`): each module is
/// parsed, its labels and data blocks named, and its statements written at
/// its address; the bytecode ends at the last byte that is not zero. `None`
/// where a module cannot be encoded: it does not fit below the end of the
/// image, names outside its source, or holds a statement the assembler has
/// no encoding for.
pub fn try_compile(modules: Vec<CodegenModule>) -> (r: Encoded<Vec<u8>>)
    ensures
        match compile_spec(models(modules@)) {
            Some(Ok(b)) => r matches Some(Ok(v)) && v@ == b,
            Some(Err(e)) => r == Some(Err::<Vec<u8>, Error>(e)),
            None => r is None,
        },
{
    let ghost ms = models(modules@);
    let mut mods = modules;
    let mut bytecode: Vec<u8> = vec![0u8; IMAGE_SIZE];
    assert(bytecode@ =~= blank_image());
    assert(ms.subrange(0, ms.len() as int) =~= ms);
    let mut i: usize = 0;
    while i < mods.len()
        invariant
            i <= mods@.len(),
            mods@.len() == ms.len(),
            ms == models(modules@),
            forall|j: int| i <= j < ms.len() ==> mods@[j]@ == ms[j],
            bytecode@.len() == IMAGE_SIZE,
            compile_modules(ms, blank_image())
                == compile_modules(ms.subrange(i as int, ms.len() as int), bytecode@),
        decreases mods@.len() - i,
    {
        let ghost rest = ms.subrange(i as int, ms.len() as int);
        let ghost before = bytecode@;
        proof {
            assert(rest[0] == ms[i as int]);
            assert(rest.drop_first() =~= ms.subrange(i + 1, ms.len() as int));
            assert(mods@[i as int]@ == rest[0]);
        }
        let r = compile_one(&mut mods[i], &mut bytecode);
        match r {
            Some(Ok(())) => {},
            Some(Err(e)) => {
                assert(compile_modules(rest, before) == Some(Err::<Seq<u8>, Error>(e)));
                return Some(Err(e));
            },
            None => {
                assert(compile_modules(rest, before) is None);
                return None;
            },
        }
        i = i + 1;
    }
    let ghost image = bytecode@;
    assert(ms.subrange(i as int, ms.len() as int) =~= Seq::<ModuleModel>::empty());
    let mut n: usize = IMAGE_SIZE;
    while n > 0 && bytecode[n - 1] == 0
        invariant
            n <= IMAGE_SIZE,
            bytecode@ == image,
            image.len() == IMAGE_SIZE,
            trim_from(image, n as int) == trim_from(image, IMAGE_SIZE as int),
        decreases n,
    {
        n = n - 1;
    }
    if n == 0 {
        return Some(Ok(bytecode));
    }
    let trimmed = vstd::slice::slice_to_vec(&bytecode.as_slice()[0..n]);
    Some(Ok(trimmed))
}

/// Assembles the modules into bytecode (see `compile_spec`), for modules that
/// the assembler can encode.
pub fn compile(modules: Vec<CodegenModule>) -> (r: Result<Vec<u8>, Error>)
    requires
        compile_spec(models(modules@)) is Some,
    ensures
        match compile_spec(models(modules@)) {
            Some(Ok(b)) => r matches Ok(v) && v@ == b,
            Some(Err(e)) => r == Err::<Vec<u8>, Error>(e),
            None => false,
        },
{
    match try_compile(modules) {
        Some(r) => r,
        None => unreached(),
    }
}

} // verus!
