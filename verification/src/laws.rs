//! What the machine and the assembler promise across operations: reads give
//! back what writes wrote, a pop undoes a push, a return undoes a call, and a
//! label names the address at which the code after it is written.
use vstd::prelude::*;

use crate::cpu::{spec_call, spec_fetch, spec_pop, spec_push, spec_ret, spec_run, spec_step, regs_wf, ExecutionFlow, FP, IP, SP};
use crate::memory::bytes_to_word;
use crate::word::Word;
use crate::codegen::ModuleModel;
use crate::compiler::{
    collect_spec, data_values_bytes, instruction_spec, operands_spec, value_spec, lemma_total_size, statement_bytes, statement_size,
    statements_bytes, text, total_size,
};
use crate::memory::{fits, lemma_word_bytes, Addressable, LinearMemory};
use crate::generator::{
    dest_spec, evaluate_spec, expr_ok, gen_instruction_spec, generate_code_spec, generate_spec, instruction_ok,
    int_spec, jump_spec, lit_mem_spec, lit_reg_spec, mem_reg_spec, psh_lit_spec, reg_mem_spec, reg_ptr_reg_spec,
    reg_reg_spec, release_all_spec, single_spec, statement_ok, statement_spec, temp_spec, GenState, InstructionPrefix,
    lemma_operand_offset, address_ok,
};
use crate::parser::ast::{Instruction, InstructionKind, Operator, Statement, StatementView};
use crate::lexer::{keyword_kind, Kind};
use crate::parser::common::peek_spec;
use crate::parser::expressions::{expr_loop_spec, precedence, BASE};
use crate::text::{op_name, reg_name};

verus! {

/// A byte written to a linear memory reads back, and no other byte changes.
pub proof fn lemma_linear_write_read<const SIZE: usize>(memory: LinearMemory<SIZE>, address: u16, byte: u8, other: u16)
    requires
        (address as int) < SIZE,
    ensures
        ({
            let (m, r) = LinearMemory::<SIZE>::model_write(memory@, address, byte);
            &&& r is Ok
            &&& m.len() == SIZE
            &&& LinearMemory::<SIZE>::model_read(m, address) == Ok::<u8, crate::memory::Error<SIZE>>(byte)
            &&& other != address ==> LinearMemory::<SIZE>::model_read(m, other) == LinearMemory::<SIZE>::model_read(memory@, other)
        }),
{
    LinearMemory::<SIZE>::lemma_len(memory);
}

/// A word written to a linear memory reads back, and bytes outside its two
/// bytes do not change.
pub proof fn lemma_linear_write_word_read_word<const SIZE: usize>(memory: LinearMemory<SIZE>, address: u16, word: u16)
    requires
        fits::<SIZE>(address, 1),
    ensures
        ({
            let (m, r) = LinearMemory::<SIZE>::model_write_word(memory@, address, word);
            &&& r is Ok
            &&& m.len() == SIZE
            &&& LinearMemory::<SIZE>::model_read(m, address) == Ok::<u8, crate::memory::Error<SIZE>>((word % 256) as u8)
            &&& LinearMemory::<SIZE>::model_read(m, (address + 1) as u16) == Ok::<u8, crate::memory::Error<SIZE>>((word / 256) as u8)
            &&& LinearMemory::<SIZE>::model_read_word(m, address) == Ok::<u16, crate::memory::Error<SIZE>>(word)
            &&& forall|i: int| 0 <= i < SIZE && i != address && i != address + 1 ==> m[i] == memory@[i]
        }),
{
    LinearMemory::<SIZE>::lemma_len(memory);
    lemma_word_model::<SIZE>(memory@, address, word);
}

proof fn lemma_word_model<const SIZE: usize>(mem: Seq<u8>, address: u16, word: u16)
    requires
        mem.len() == SIZE,
        fits::<SIZE>(address, 1),
    ensures
        ({
            let (m, r) = LinearMemory::<SIZE>::model_write_word(mem, address, word);
            &&& r is Ok
            &&& m.len() == SIZE
            &&& m[address as int] == (word % 256) as u8
            &&& m[address + 1] == (word / 256) as u8
            &&& LinearMemory::<SIZE>::model_read_word(m, address) == Ok::<u16, crate::memory::Error<SIZE>>(word)
            &&& forall|i: int| 0 <= i < SIZE && i != address && i != address + 1 ==> m[i] == mem[i]
        }),
{
    lemma_word_bytes(word);
}

/// On a linear memory, a pop right after a push gives back the pushed value
/// and leaves the registers as they were before the push.
pub proof fn lemma_push_pop<const SIZE: usize>(regs: Seq<u16>, memory: LinearMemory<SIZE>, val: u16)
    requires
        regs_wf::<SIZE>(regs),
        regs[SP()] >= 2,
        fits::<SIZE>(regs[SP()], 1),
    ensures
        ({
            let (g, m, r) = spec_push::<SIZE, LinearMemory<SIZE>>(regs, memory@, val);
            &&& r is Ok
            &&& spec_pop::<SIZE, LinearMemory<SIZE>>(g, m) == (regs, Ok::<u16, crate::cpu::Error<SIZE>>(val))
        }),
{
    LinearMemory::<SIZE>::lemma_len(memory);
    let mem = memory@;
    lemma_word_model::<SIZE>(mem, regs[SP()], val);
    let (g, m, r) = spec_push::<SIZE, LinearMemory<SIZE>>(regs, mem, val);
    assert(g.update(SP(), regs[SP()]) =~= regs);
}

/// On a linear memory, a return right after a call gives back every register
/// as it was before the call: `R1` to `R4`, the instruction pointer, and the
/// stack and frame pointers.
pub proof fn lemma_call_ret<const SIZE: usize>(regs: Seq<u16>, memory: LinearMemory<SIZE>, address: u16)
    requires
        regs_wf::<SIZE>(regs),
        regs[SP()] >= 12,
        fits::<SIZE>(regs[SP()], 1),
        regs[FP()] + 12 >= regs[SP()],
    ensures
        ({
            let (g, m, r) = spec_call::<SIZE, LinearMemory<SIZE>>(regs, memory@, address);
            &&& r is Ok
            &&& g[IP()] == address
            &&& spec_ret::<SIZE, LinearMemory<SIZE>>(g, m) == (regs, Ok::<(), crate::cpu::Error<SIZE>>(()))
        }),
{
    LinearMemory::<SIZE>::lemma_len(memory);
    lemma_call_ret_model::<SIZE>(regs, memory@, address);
}

#[verifier::rlimit(40)]
proof fn lemma_call_ret_model<const SIZE: usize>(regs: Seq<u16>, mem: Seq<u8>, address: u16)
    requires
        regs_wf::<SIZE>(regs),
        mem.len() == SIZE,
        regs[SP()] >= 12,
        fits::<SIZE>(regs[SP()], 1),
        regs[FP()] + 12 >= regs[SP()],
    ensures
        ({
            let (g, m, r) = spec_call::<SIZE, LinearMemory<SIZE>>(regs, mem, address);
            &&& r is Ok
            &&& g[IP()] == address
            &&& spec_ret::<SIZE, LinearMemory<SIZE>>(g, m) == (regs, Ok::<(), crate::cpu::Error<SIZE>>(()))
            &&& m.len() == SIZE
            &&& forall|i: int| 0 <= i < SIZE && (i < regs[SP()] - 10 || i > regs[SP()] + 1) ==> #[trigger] m[i] == mem[i]
        }),
{
    let sp = regs[SP()];
    let fp = regs[FP()];
    let (g1, m1, x1) = spec_push::<SIZE, LinearMemory<SIZE>>(regs, mem, regs[2]);
    lemma_word_model::<SIZE>(mem, sp, regs[2]);
    let (g2, m2, x2) = spec_push::<SIZE, LinearMemory<SIZE>>(g1, m1, regs[3]);
    lemma_word_model::<SIZE>(m1, (sp - 2) as u16, regs[3]);
    let (g3, m3, x3) = spec_push::<SIZE, LinearMemory<SIZE>>(g2, m2, regs[4]);
    lemma_word_model::<SIZE>(m2, (sp - 4) as u16, regs[4]);
    let (g4, m4, x4) = spec_push::<SIZE, LinearMemory<SIZE>>(g3, m3, regs[5]);
    lemma_word_model::<SIZE>(m3, (sp - 6) as u16, regs[5]);
    let (g5, m5, x5) = spec_push::<SIZE, LinearMemory<SIZE>>(g4, m4, regs[IP()]);
    lemma_word_model::<SIZE>(m4, (sp - 8) as u16, regs[IP()]);
    let next = (sp - 12) as u16;
    let size = (fp - next) as u16;
    let (m6, x6) = LinearMemory::<SIZE>::model_write_word(m5, (sp - 10) as u16, size);
    lemma_word_model::<SIZE>(m5, (sp - 10) as u16, size);
    assert(g5[SP()] == sp - 10);
    let (g, m, r) = spec_call::<SIZE, LinearMemory<SIZE>>(regs, mem, address);
    assert(m == m6);
    assert(g == g5.update(SP(), next).update(FP(), next).update(IP(), address));
    // Each word pushed still holds its value at the end of the call.
    assert(LinearMemory::<SIZE>::model_read_word(m, (sp - 8) as u16) == Ok::<u16, crate::memory::Error<SIZE>>(regs[IP()]));
    assert(LinearMemory::<SIZE>::model_read_word(m, (sp - 6) as u16) == Ok::<u16, crate::memory::Error<SIZE>>(regs[5]));
    assert(LinearMemory::<SIZE>::model_read_word(m, (sp - 4) as u16) == Ok::<u16, crate::memory::Error<SIZE>>(regs[4]));
    assert(LinearMemory::<SIZE>::model_read_word(m, (sp - 2) as u16) == Ok::<u16, crate::memory::Error<SIZE>>(regs[3]));
    assert(LinearMemory::<SIZE>::model_read_word(m, sp) == Ok::<u16, crate::memory::Error<SIZE>>(regs[2]));
    let (h, rr) = spec_ret::<SIZE, LinearMemory<SIZE>>(g, m);
    assert(h =~= regs);
}


/// On a linear memory, a `CALL` to a `RET`, run as two steps of the machine,
/// gives back every register as it was before the call but the instruction
/// pointer, which moves past the `CALL`: the return undoes the frame the call
/// built. The `RET` lies outside the bytes the frame is written to.
#[verifier::rlimit(60)]
pub proof fn lemma_call_then_ret_steps<const SIZE: usize>(regs: Seq<u16>, memory: LinearMemory<SIZE>)
    requires
        regs_wf::<SIZE>(regs),
        regs[SP()] >= 12,
        fits::<SIZE>(regs[SP()], 1),
        regs[FP()] + 12 >= regs[SP()],
        fits::<SIZE>(regs[IP()], 3),
        memory@[regs[IP()] as int] == 0x43,
        ({
            let t = memory@[regs[IP()] + 1] + memory@[regs[IP()] + 2] * 256;
            &&& fits::<SIZE>(t as u16, 1)
            &&& memory@[t] == 0x45
            &&& (t < regs[SP()] - 10 || t > regs[SP()] + 1)
        }),
    ensures
        ({
            let p = regs[IP()];
            let t = (memory@[p + 1] + memory@[p + 2] * 256) as u16;
            let (r1, m1, x1) = spec_step::<SIZE, LinearMemory<SIZE>>(regs, memory@);
            let (r2, m2, x2) = spec_step::<SIZE, LinearMemory<SIZE>>(r1, m1);
            &&& x1 == Ok::<ExecutionFlow, crate::cpu::Error<SIZE>>(ExecutionFlow::Continue)
            &&& r1[IP()] == t
            &&& x2 == Ok::<ExecutionFlow, crate::cpu::Error<SIZE>>(ExecutionFlow::Continue)
            &&& r2 == regs.update(IP(), (p + 3) as u16)
            &&& m2 == m1
        }),
{
    LinearMemory::<SIZE>::lemma_len(memory);
    let mem = memory@;
    let p = regs[IP()];
    let t = (mem[p + 1] + mem[p + 2] * 256) as u16;
    assert(bytes_to_word(mem[p + 1], mem[p + 2]) == t);
    let fetched = regs.update(IP(), (p + 3) as u16);
    assert(spec_fetch::<SIZE, LinearMemory<SIZE>>(regs, mem) == ((p + 3) as u16, Ok::<crate::instruction::Instruction<SIZE>, crate::cpu::Error<SIZE>>(crate::instruction::Instruction::Call(Word::<SIZE>::spec_new(t)))));
    Word::<SIZE>::lemma_spec_new_value(t);
    lemma_call_ret_model::<SIZE>(fetched, mem, t);
    let (g, m, r) = spec_call::<SIZE, LinearMemory<SIZE>>(fetched, mem, t);
    assert(m[t as int] == mem[t as int]);
    assert(spec_fetch::<SIZE, LinearMemory<SIZE>>(g, m) == ((t + 1) as u16, Ok::<crate::instruction::Instruction<SIZE>, crate::cpu::Error<SIZE>>(crate::instruction::Instruction::Ret)));
    let (h, rr) = spec_ret::<SIZE, LinearMemory<SIZE>>(g.update(IP(), (t + 1) as u16), m);
    let (h0, rr0) = spec_ret::<SIZE, LinearMemory<SIZE>>(g, m);
    assert(h =~= h0);
}

/// An instruction is encoded exactly where its operands are; its bytes are
/// then the byte of its operation followed by its operands, and they take
/// exactly the bytes that its shape counts: the first pass and the second
/// agree on it.
pub proof fn lemma_instruction_size(m: ModuleModel, i: Instruction)
    ensures
        (instruction_spec(m, i) matches Some(Ok(_))) <==> (operands_spec(m, i) matches Some(Ok(_))),
        instruction_spec(m, i) matches Some(Ok(b)) ==> {
            &&& b.len() == i.spec_kind().spec_byte_size()
            &&& b[0] == i.spec_opcode().spec_byte()
            &&& b.drop_first() == operands_spec(m, i)->Some_0->Ok_0
        },
{
    if let Some(Ok(b)) = instruction_spec(m, i) {
        let ops = operands_spec(m, i)->Some_0->Ok_0;
        assert(b == seq![i.spec_opcode().spec_byte()] + ops);
        assert(b.drop_first() =~= ops);
    }
}

/// The values of a data block take one byte each, or two where the block
/// is of 16 bits.
pub proof fn lemma_data_size(m: ModuleModel, size: u8, values: Seq<Statement>)
    requires
        data_values_bytes(m, size, values) matches Some(Ok(_)),
    ensures
        data_values_bytes(m, size, values)->Some_0->Ok_0.len() == values.len() * (if size == 8 {
            1int
        } else {
            2int
        }),
    decreases values.len(),
{
    if values.len() > 0 {
        lemma_data_size(m, size, values.drop_first());
        assert(values.len() * (if size == 8 { 1int } else { 2int }) == (if size == 8 { 1int } else { 2int }) + (
        values.len() - 1) * (if size == 8 { 1int } else { 2int })) by (nonlinear_arith);
    }
}

/// A statement takes exactly the bytes that the first pass counts.
pub proof fn lemma_statement_size(m: ModuleModel, s: StatementView)
    requires
        statement_bytes(m, s) matches Some(Ok(_)),
    ensures
        statement_bytes(m, s)->Some_0->Ok_0.len() == statement_size(s),
{
    match s {
        StatementView::Data { size, values, .. } => lemma_data_size(m, size, values),
        StatementView::Plain(Statement::Instruction(i)) => lemma_instruction_size(m, *i),
        _ => {},
    }
}

/// The statements from `k` on are written right after the bytes of the
/// statements before `k`, which take the size the first pass counts; all of
/// them together take the size of the whole.
pub proof fn lemma_statements_layout(m: ModuleModel, stmts: Seq<StatementView>, k: int)
    requires
        statements_bytes(m, stmts) matches Some(Ok(_)),
        0 <= k <= stmts.len(),
    ensures
        ({
            let b = statements_bytes(m, stmts)->Some_0->Ok_0;
            &&& b.len() == total_size(stmts)
            &&& 0 <= total_size(stmts.take(k)) <= b.len()
            &&& statements_bytes(m, stmts.skip(k)) == Some(Ok::<Seq<u8>, crate::parser::error::Error>(b.subrange(total_size(stmts.take(k)), b.len() as int)))
        }),
    decreases stmts.len(),
{
    let b = statements_bytes(m, stmts)->Some_0->Ok_0;
    if stmts.len() == 0 {
        assert(stmts.take(k) =~= stmts);
        assert(stmts.skip(k) =~= stmts);
        assert(b.subrange(0, 0) =~= b);
    } else {
        let first = statement_bytes(m, stmts[0])->Some_0->Ok_0;
        let rest = stmts.drop_first();
        let rb = statements_bytes(m, rest)->Some_0->Ok_0;
        lemma_statement_size(m, stmts[0]);
        lemma_total_size(stmts);
        assert(b == first + rb);
        if k == 0 {
            lemma_statements_layout(m, rest, 0);
            assert(stmts.take(0) =~= Seq::<StatementView>::empty());
            assert(stmts.skip(0) =~= stmts);
            assert(b.subrange(0, b.len() as int) =~= b);
        } else {
            lemma_statements_layout(m, rest, k - 1);
            assert(stmts.take(k).drop_first() =~= rest.take(k - 1));
            assert(stmts.take(k)[0] == stmts[0]);
            lemma_total_size(stmts.take(k));
            assert(stmts.skip(k) =~= rest.skip(k - 1));
            assert(b.subrange(total_size(stmts.take(k)), b.len() as int) =~= rb.subrange(
                total_size(rest.take(k - 1)),
                rb.len() as int,
            ));
        }
    }
}

/// Whether statement `s` names `n`: a label or a data block of that name.
pub open spec fn defines(code: Seq<u8>, s: StatementView, n: Seq<u8>) -> bool {
    match s {
        StatementView::Plain(Statement::Label { name, .. }) => text(code, name) == n,
        StatementView::Data { name, .. } => text(code, name) == n,
        _ => false,
    }
}

/// A label names the address at which the statements after it are
/// written: the module's address plus the size of the statements before it
/// (the last definition of a name counts).
pub proof fn lemma_label_address(
    code: Seq<u8>,
    stmts: Seq<StatementView>,
    address: int,
    symbols: Map<Seq<u8>, u16>,
    exports: Map<Seq<u8>, u16>,
    k: int,
)
    requires
        0 <= k < stmts.len(),
        stmts[k] matches StatementView::Plain(Statement::Label { .. }),
        forall|j: int| k < j < stmts.len() ==> !defines(code, #[trigger] stmts[j], text(code, stmts[k]->Plain_0->Label_name)),
    ensures
        ({
            let n = text(code, stmts[k]->Plain_0->Label_name);
            let table = collect_spec(code, stmts, address, symbols, exports).0;
            &&& table.contains_key(n)
            &&& table[n] == (address + total_size(stmts.take(k))) as u16
        }),
    decreases stmts.len(),
{
    let n = text(code, stmts[k]->Plain_0->Label_name);
    let rest = stmts.drop_first();
    lemma_total_size(stmts.take(k));
    if k == 0 {
        assert(stmts.take(0) =~= Seq::<StatementView>::empty());
        lemma_collect_keeps(code, rest, address, symbols.insert(n, address as u16),
            if stmts[0]->Plain_0->Label_exported { exports.insert(n, address as u16) } else { exports }, n);
    } else {
        let next = address + statement_size(stmts[0]);
        assert forall|j: int| k - 1 < j < rest.len() implies !defines(code, #[trigger] rest[j], n) by {
            assert(rest[j] == stmts[j + 1]);
        }
        assert(rest[k - 1] == stmts[k]);
        match stmts[0] {
            StatementView::Plain(Statement::Label { name, exported }) => {
                lemma_label_address(code, rest, address, symbols.insert(text(code, name), address as u16),
                    if exported { exports.insert(text(code, name), address as u16) } else { exports }, k - 1);
            },
            StatementView::Data { name, size, exported, values } => {
                let after = address + values.len() * (if size == 8 { 1int } else { 2int });
                lemma_label_address(code, rest, after, symbols.insert(text(code, name), address as u16),
                    if exported { exports.insert(text(code, name), after as u16) } else { exports }, k - 1);
            },
            StatementView::Plain(Statement::Instruction(i)) => {
                lemma_label_address(code, rest, address + i.spec_kind().spec_byte_size(), symbols, exports, k - 1);
            },
            _ => {
                lemma_label_address(code, rest, address, symbols, exports, k - 1);
            },
        }
        assert(stmts.take(k).drop_first() =~= rest.take(k - 1));
        assert(stmts.take(k)[0] == stmts[0]);
    }
}

/// A name that no later statement defines keeps its value through naming.
proof fn lemma_collect_keeps(
    code: Seq<u8>,
    stmts: Seq<StatementView>,
    address: int,
    symbols: Map<Seq<u8>, u16>,
    exports: Map<Seq<u8>, u16>,
    n: Seq<u8>,
)
    requires
        symbols.contains_key(n),
        forall|j: int| 0 <= j < stmts.len() ==> !defines(code, #[trigger] stmts[j], n),
    ensures
        collect_spec(code, stmts, address, symbols, exports).0.contains_key(n),
        collect_spec(code, stmts, address, symbols, exports).0[n] == symbols[n],
    decreases stmts.len(),
{
    if stmts.len() > 0 {
        let rest = stmts.drop_first();
        assert(!defines(code, stmts[0], n));
        assert forall|j: int| 0 <= j < rest.len() implies !defines(code, #[trigger] rest[j], n) by {
            assert(rest[j] == stmts[j + 1]);
        }
        match stmts[0] {
            StatementView::Plain(Statement::Label { name, exported }) => {
                lemma_collect_keeps(code, rest, address, symbols.insert(text(code, name), address as u16),
                    if exported { exports.insert(text(code, name), address as u16) } else { exports }, n);
            },
            StatementView::Data { name, size, exported, values } => {
                let after = address + values.len() * (if size == 8 { 1int } else { 2int });
                lemma_collect_keeps(code, rest, after, symbols.insert(text(code, name), address as u16),
                    if exported { exports.insert(text(code, name), after as u16) } else { exports }, n);
            },
            StatementView::Plain(Statement::Instruction(i)) => {
                lemma_collect_keeps(code, rest, address + i.spec_kind().spec_byte_size(), symbols, exports, n);
            },
            _ => {
                lemma_collect_keeps(code, rest, address, symbols, exports, n);
            },
        }
    }
}


/// The temporary registers of a generator, free or in use: the free ones,
/// then those in use from the last taken to the first.
pub open spec fn pool(st: GenState) -> Seq<crate::assembler::register::Register> {
    st.temp + st.used.reverse()
}

/// Taking a temporary register keeps the pool and marks the register in use.
proof fn lemma_temp_pool(st: GenState, node: Statement)
    requires
        temp_spec(st, node).0 is Ok,
    ensures
        pool(temp_spec(st, node).1) == pool(st),
        temp_spec(st, node).1.used == st.used.push(temp_spec(st, node).0->Ok_0),
{
    let x = st.temp.last();
    let after = temp_spec(st, node).1;
    assert(after.used.reverse() =~= seq![x] + st.used.reverse());
    assert(st.temp =~= st.temp.drop_last().push(x));
    assert(pool(after) =~= pool(st));
}

/// Restoring every temporary register empties the registers in use and
/// frees the pool, in its order.
proof fn lemma_release_all_pool(st: GenState)
    ensures
        release_all_spec(st).used.len() == 0,
        release_all_spec(st).temp == pool(st),
    decreases st.used.len(),
{
    if st.used.len() == 0 {
        assert(st.used.reverse() =~= Seq::<crate::assembler::register::Register>::empty());
        assert(pool(st) =~= st.temp);
    } else {
        let r = st.used.last();
        let next = GenState {
            code: st.code.push(crate::text::line1(InstructionPrefix::Pop.spec_name(), crate::text::reg_name(r))),
            temp: st.temp.push(r),
            used: st.used.drop_last(),
        };
        lemma_release_all_pool(next);
        assert(st.used.reverse() =~= seq![r] + st.used.drop_last().reverse());
        assert(pool(next) =~= pool(st));
    }
}

/// Working out an expression keeps the pool, only adds registers in use,
/// and leaves the register it returns in use where it had no target.
proof fn lemma_generate_code_pool(
    src: Seq<u8>,
    st: GenState,
    prefix: Seq<u8>,
    node: Statement,
    target: Option<crate::assembler::register::Register>,
)
    requires
        expr_ok(src, node),
        generate_code_spec(src, st, prefix, node, target).0 is Ok,
    ensures
        ({
            let (r, after) = generate_code_spec(src, st, prefix, node, target);
            &&& pool(after) == pool(st)
            &&& st.used.len() <= after.used.len()
            &&& after.used.take(st.used.len() as int) == st.used
            &&& target is None ==> after.used.contains(r->Ok_0)
        }),
    decreases node,
{
    lemma_operand_offset(src, node);
    let (r, after) = generate_code_spec(src, st, prefix, node, target);
    match evaluate_spec(src, node) {
        Ok(Some(v)) => {
            lemma_dest_pool(st, node, target);
        },
        Ok(None) => match node {
            Statement::Register(o) => {
                lemma_dest_pool(st, node, target);
            },
            Statement::Var(o) => {
                lemma_dest_pool(st, node, target);
            },
            Statement::BinaryOp { lhs, operator, rhs } => {
                let mov = InstructionPrefix::Mov.spec_name();
                let (l, s1) = generate_code_spec(src, st, mov, *lhs, None);
                lemma_generate_code_pool(src, st, mov, *lhs, None);
                let (rr, s2) = generate_code_spec(src, s1, mov, *rhs, None);
                lemma_generate_code_pool(src, s1, mov, *rhs, None);
                assert(s2.used.take(st.used.len() as int) =~= s1.used.take(s1.used.len() as int).take(
                    st.used.len() as int,
                ));
                assert(s1.used.take(s1.used.len() as int) =~= s1.used);
                let li = choose|i: int| 0 <= i < s1.used.len() && s1.used[i] == l->Ok_0;
                assert(s2.used[li] == s1.used[li]) by {
                    assert(s2.used.take(s1.used.len() as int)[li] == s2.used[li]);
                }
            },
            _ => {},
        },
        _ => {},
    }
}

/// The register a value goes to: the pool is kept, and a temporary register
/// taken is in use.
proof fn lemma_dest_pool(st: GenState, node: Statement, target: Option<crate::assembler::register::Register>)
    requires
        dest_spec(st, node, target).0 is Ok,
    ensures
        pool(dest_spec(st, node, target).1) == pool(st),
        dest_spec(st, node, target).1.used.take(st.used.len() as int) == st.used,
        st.used.len() <= dest_spec(st, node, target).1.used.len(),
        target is None ==> dest_spec(st, node, target).1.used.contains(dest_spec(st, node, target).0->Ok_0),
{
    if target is None {
        lemma_temp_pool(st, node);
        let after = temp_spec(st, node).1;
        assert(after.used.take(st.used.len() as int) =~= st.used);
        assert(after.used[st.used.len() as int] == temp_spec(st, node).0->Ok_0);
    } else {
        assert(st.used.take(st.used.len() as int) =~= st.used);
    }
}

/// Whether an instruction stores, at an address worked out from an
/// expression, a value written as it stands: the generator leaves the
/// registers of such an address on the stack.
pub open spec fn keeps_registers(i: Instruction) -> bool {
    match i {
        Instruction::MovLitMem(l, r) => l matches Statement::Address(inner) && *inner is BinaryOp && r is Var,
        Instruction::JeqLit(l, r) | Instruction::JgtLit(l, r) | Instruction::JneLit(l, r) | Instruction::JgeLit(l, r)
        | Instruction::JleLit(l, r) | Instruction::JltLit(l, r) => l matches Statement::Address(inner)
            && *inner is BinaryOp && (r is Var || r is HexLiteral),
        _ => false,
    }
}

/// Whether a generator has no temporary register in use and its free ones
/// are `temp`.
pub open spec fn all_free(st: GenState, temp: Seq<crate::assembler::register::Register>) -> bool {
    st.used.len() == 0 && st.temp == temp
}

/// Working out a value, writing lines, and restoring every temporary
/// register gives them all back.
proof fn lemma_worked_out_back(src: Seq<u8>, st: GenState, p: Seq<u8>, v: Statement, t: Option<crate::assembler::register::Register>)
    requires
        st.used.len() == 0,
        expr_ok(src, v),
        generate_code_spec(src, st, p, v, t).0 is Ok,
    ensures
        pool(generate_code_spec(src, st, p, v, t).1) == st.temp,
        forall|line: Seq<u8>| all_free(#[trigger] release_all_spec(crate::generator::emit(generate_code_spec(src, st, p, v, t).1, line)), st.temp),
        forall|line: Seq<u8>| all_free(#[trigger] crate::generator::emit(release_all_spec(generate_code_spec(src, st, p, v, t).1), line), st.temp),
        all_free(release_all_spec(generate_code_spec(src, st, p, v, t).1), st.temp),
{
    assert(st.used.reverse() =~= Seq::<crate::assembler::register::Register>::empty());
    assert(pool(st) =~= st.temp);
    let s1 = generate_code_spec(src, st, p, v, t).1;
    lemma_generate_code_pool(src, st, p, v, t);
    lemma_release_all_pool(s1);
    assert forall|line: Seq<u8>| all_free(#[trigger] release_all_spec(crate::generator::emit(s1, line)), st.temp) by {
        lemma_release_all_pool(crate::generator::emit(s1, line));
    }
}

proof fn lemma_lit_reg_back(src: Seq<u8>, st: GenState, p: Seq<u8>, l: Statement, r: Statement)
    requires
        st.used.len() == 0,
        expr_ok(src, r),
        lit_reg_spec(src, st, p, l, r).0 is Ok,
    ensures
        all_free(lit_reg_spec(src, st, p, l, r).1, st.temp),
{
    reveal(lit_reg_spec);
    if !(r is Var) {
        let lr = crate::generator::get_register_spec(src, l)->Ok_0;
        lemma_worked_out_back(src, st, p, r, Some(lr));
    }
}

proof fn lemma_reg_mem_back(src: Seq<u8>, st: GenState, p: Seq<u8>, l: Statement, r: Statement)
    requires
        st.used.len() == 0,
        address_ok(src, l),
        reg_mem_spec(src, st, p, l, r).0 is Ok,
    ensures
        all_free(reg_mem_spec(src, st, p, l, r).1, st.temp),
{
    reveal(reg_mem_spec);
    if l matches Statement::Address(inner) && *inner is BinaryOp {
        lemma_worked_out_back(src, st, InstructionPrefix::Mov.spec_name(), *l->Address_0, None);
    }
}

proof fn lemma_mem_reg_back(src: Seq<u8>, st: GenState, p: Seq<u8>, l: Statement, r: Statement)
    requires
        st.used.len() == 0,
        address_ok(src, r),
        mem_reg_spec(src, st, p, l, r).0 is Ok,
    ensures
        all_free(mem_reg_spec(src, st, p, l, r).1, st.temp),
{
    reveal(mem_reg_spec);
    if r matches Statement::Address(inner) && *inner is BinaryOp {
        lemma_worked_out_back(src, st, InstructionPrefix::Mov.spec_name(), *r->Address_0, None);
    }
}

proof fn lemma_lit_mem_back(
    src: Seq<u8>,
    st: GenState,
    p: Seq<u8>,
    vp: Seq<u8>,
    mov_form: bool,
    l: Statement,
    r: Statement,
)
    requires
        st.used.len() == 0,
        address_ok(src, l),
        expr_ok(src, r),
        !(l matches Statement::Address(inner) && *inner is BinaryOp && (r is Var || (r is HexLiteral && !mov_form))),
        lit_mem_spec(src, st, p, vp, mov_form, l, r).0 is Ok,
    ensures
        all_free(lit_mem_spec(src, st, p, vp, mov_form, l, r).1, st.temp),
{
    reveal(lit_mem_spec);
    assert(st.used.reverse() =~= Seq::<crate::assembler::register::Register>::empty());
    assert(pool(st) =~= st.temp);
    let mov = InstructionPrefix::Mov.spec_name();
    if l matches Statement::Address(inner) && *inner is BinaryOp {
        let s1 = generate_code_spec(src, st, mov, *l->Address_0, None).1;
        lemma_generate_code_pool(src, st, mov, *l->Address_0, None);
        if generate_code_spec(src, s1, vp, r, None).0 is Ok {
            let s2 = generate_code_spec(src, s1, vp, r, None).1;
            lemma_generate_code_pool(src, s1, vp, r, None);
            lemma_release_all_pool(s2);
            assert forall|line: Seq<u8>| all_free(#[trigger] release_all_spec(crate::generator::emit(s2, line)), st.temp) by {
                lemma_release_all_pool(crate::generator::emit(s2, line));
            }
        }
    } else if !(r is Var) && !(r is HexLiteral && !mov_form) {
        lemma_worked_out_back(src, st, vp, r, None);
    }
}

proof fn lemma_psh_lit_back(src: Seq<u8>, st: GenState, v: Statement)
    requires
        st.used.len() == 0,
        expr_ok(src, v),
        psh_lit_spec(src, st, v).0 is Ok,
    ensures
        all_free(psh_lit_spec(src, st, v).1, st.temp),
{
    reveal(psh_lit_spec);
    if !(v is Var) && !(v is HexLiteral) {
        lemma_worked_out_back(src, st, InstructionPrefix::Psh.spec_name(), v, None);
    }
}

proof fn lemma_jump_back(src: Seq<u8>, st: GenState, p: Seq<u8>, a: Statement, release_plain: bool)
    requires
        st.used.len() == 0,
        address_ok(src, a),
        jump_spec(src, st, p, a, release_plain).0 is Ok,
    ensures
        all_free(jump_spec(src, st, p, a, release_plain).1, st.temp),
{
    reveal(jump_spec);
    assert(st.used.reverse() =~= Seq::<crate::assembler::register::Register>::empty());
    assert(pool(st) =~= st.temp);
    if a matches Statement::Address(inner) && *inner is BinaryOp {
        lemma_worked_out_back(src, st, InstructionPrefix::Mov.spec_name(), *a->Address_0, None);
    } else {
        assert forall|line: Seq<u8>| all_free(#[trigger] release_all_spec(crate::generator::emit(st, line)), st.temp) by {
            lemma_release_all_pool(crate::generator::emit(st, line));
        }
    }
}

/// Every instruction but those that `keeps_registers` names gives back the
/// temporary registers it borrows: from a generator with none in use, it
/// ends with none in use and the free ones in the order they were in.
pub proof fn lemma_instruction_gives_back(src: Seq<u8>, st: GenState, i: Instruction)
    requires
        st.used.len() == 0,
        instruction_ok(src, i),
        !keeps_registers(i),
        gen_instruction_spec(src, st, i).0 is Ok,
    ensures
        all_free(gen_instruction_spec(src, st, i).1, st.temp),
{
    reveal(reg_reg_spec);
    reveal(reg_ptr_reg_spec);
    reveal(single_spec);
    reveal(int_spec);
    match i {
        Instruction::MovLitReg(l, r) => lemma_lit_reg_back(src, st, InstructionPrefix::Mov.spec_name(), l, r),
        Instruction::AddLitReg(l, r) => lemma_lit_reg_back(src, st, InstructionPrefix::Add.spec_name(), l, r),
        Instruction::SubLitReg(l, r) => lemma_lit_reg_back(src, st, InstructionPrefix::Sub.spec_name(), l, r),
        Instruction::MulLitReg(l, r) => lemma_lit_reg_back(src, st, InstructionPrefix::Mul.spec_name(), l, r),
        Instruction::LshLitReg(l, r) => lemma_lit_reg_back(src, st, InstructionPrefix::Lsh.spec_name(), l, r),
        Instruction::RshLitReg(l, r) => lemma_lit_reg_back(src, st, InstructionPrefix::Rsh.spec_name(), l, r),
        Instruction::AndLitReg(l, r) => lemma_lit_reg_back(src, st, InstructionPrefix::And.spec_name(), l, r),
        Instruction::OrLitReg(l, r) => lemma_lit_reg_back(src, st, InstructionPrefix::Or.spec_name(), l, r),
        Instruction::XorLitReg(l, r) => lemma_lit_reg_back(src, st, InstructionPrefix::Xor.spec_name(), l, r),
        Instruction::MovRegMem(l, r) => lemma_reg_mem_back(src, st, InstructionPrefix::Mov.spec_name(), l, r),
        Instruction::JeqReg(l, r) => lemma_reg_mem_back(src, st, InstructionPrefix::Jeq.spec_name(), l, r),
        Instruction::JgtReg(l, r) => lemma_reg_mem_back(src, st, InstructionPrefix::Jgt.spec_name(), l, r),
        Instruction::JneReg(l, r) => lemma_reg_mem_back(src, st, InstructionPrefix::Jne.spec_name(), l, r),
        Instruction::JgeReg(l, r) => lemma_reg_mem_back(src, st, InstructionPrefix::Jge.spec_name(), l, r),
        Instruction::JleReg(l, r) => lemma_reg_mem_back(src, st, InstructionPrefix::Jle.spec_name(), l, r),
        Instruction::JltReg(l, r) => lemma_reg_mem_back(src, st, InstructionPrefix::Jlt.spec_name(), l, r),
        Instruction::MovMemReg(l, r) => lemma_mem_reg_back(src, st, InstructionPrefix::Mov.spec_name(), l, r),
        Instruction::MovLitMem(l, r) => lemma_lit_mem_back(src, st, InstructionPrefix::Mov.spec_name(), InstructionPrefix::Mov.spec_name(), true, l, r),
        Instruction::JeqLit(l, r) => lemma_lit_mem_back(src, st, InstructionPrefix::Jeq.spec_name(), InstructionPrefix::Jeq.spec_name(), false, l, r),
        Instruction::JgtLit(l, r) => lemma_lit_mem_back(src, st, InstructionPrefix::Jgt.spec_name(), InstructionPrefix::Jgt.spec_name(), false, l, r),
        Instruction::JneLit(l, r) => lemma_lit_mem_back(src, st, InstructionPrefix::Jne.spec_name(), InstructionPrefix::Jne.spec_name(), false, l, r),
        Instruction::JgeLit(l, r) => lemma_lit_mem_back(src, st, InstructionPrefix::Jge.spec_name(), InstructionPrefix::Jge.spec_name(), false, l, r),
        Instruction::JleLit(l, r) => lemma_lit_mem_back(src, st, InstructionPrefix::Jle.spec_name(), InstructionPrefix::Jle.spec_name(), false, l, r),
        Instruction::JltLit(l, r) => lemma_lit_mem_back(src, st, InstructionPrefix::Jlt.spec_name(), InstructionPrefix::Jlt.spec_name(), false, l, r),
        Instruction::PshLit(v) => lemma_psh_lit_back(src, st, v),
        Instruction::Call(a) => lemma_jump_back(src, st, InstructionPrefix::Call.spec_name(), a, false),
        Instruction::Jmp(a) => lemma_jump_back(src, st, InstructionPrefix::Jmp.spec_name(), a, true),
        _ => {},
    }
}

/// Whether no statement is an instruction that `keeps_registers` names.
pub open spec fn gives_back_all(stmts: Seq<Statement>) -> bool {
    forall|j: int|
        0 <= j < stmts.len() ==> !(#[trigger] stmts[j] matches Statement::Instruction(i) && keeps_registers(*i))
}

/// Over the statements of a module, the generator gives back every
/// temporary register it borrows: it ends, as it starts, with none in use
/// and the free ones in their first order.
pub proof fn lemma_statements_give_back(src: Seq<u8>, st: GenState, stmts: Seq<Statement>)
    requires
        st.used.len() == 0,
        forall|j: int| 0 <= j < stmts.len() ==> statement_ok(src, #[trigger] stmts[j]),
        gives_back_all(stmts),
        generate_spec(src, st, stmts).0 is Ok,
    ensures
        all_free(generate_spec(src, st, stmts).1, st.temp),
    decreases stmts.len(),
{
    if stmts.len() > 0 {
        let front = stmts.drop_last();
        assert forall|j: int| 0 <= j < front.len() implies statement_ok(src, #[trigger] front[j]) by {
            assert(front[j] == stmts[j]);
        }
        assert forall|j: int| 0 <= j < front.len() implies !(#[trigger] front[j] matches Statement::Instruction(i)
            && keeps_registers(*i)) by {
            assert(front[j] == stmts[j]);
        }
        lemma_statements_give_back(src, st, front);
        let s1 = generate_spec(src, st, front).1;
        reveal(statement_spec);
        assert(statement_ok(src, stmts[stmts.len() - 1]));
        match stmts.last() {
            Statement::Instruction(i) => {
                assert(!keeps_registers(*i)) by {
                    assert(stmts[stmts.len() - 1] == stmts.last());
                }
                lemma_instruction_gives_back(src, s1, *i);
            },
            _ => {},
        }
    }
}

/// Running the machine in slices gives what one run of as many steps gives:
/// after a run of `n` steps that used them all, `m` more steps end where a
/// run of `n + m` steps ends.
pub proof fn lemma_run_in_slices<const SIZE: usize, A: Addressable<SIZE>>(regs: Seq<u16>, mem: A::V, n: nat, m: nat)
    requires
        spec_run::<SIZE, A>(regs, mem, n).2 is OutOfSteps,
    ensures
        ({
            let (r, x, _) = spec_run::<SIZE, A>(regs, mem, n);
            spec_run::<SIZE, A>(r, x, m) == spec_run::<SIZE, A>(regs, mem, n + m)
        }),
    decreases n,
{
    if n > 0 {
        let (r, x, _) = crate::cpu::spec_step::<SIZE, A>(regs, mem);
        assert((n - 1) as nat + m == (n + m - 1) as nat);
        lemma_run_in_slices::<SIZE, A>(r, x, (n - 1) as nat, m);
    }
}

// ----------------------------------------------------------------------------
// Names and numbers: what the generator writes reads back as what it stands
// for, and the bytes of an instruction keep the order of its operands.
// ----------------------------------------------------------------------------

/// The keyword that the lexer reads for each operation the generator writes.
pub open spec fn prefix_keyword(p: InstructionPrefix) -> Kind {
    match p {
        InstructionPrefix::Mov => Kind::Mov,
        InstructionPrefix::Add => Kind::Add,
        InstructionPrefix::Sub => Kind::Sub,
        InstructionPrefix::Mul => Kind::Mul,
        InstructionPrefix::Inc => Kind::Inc,
        InstructionPrefix::Dec => Kind::Dec,
        InstructionPrefix::Lsh => Kind::Lsh,
        InstructionPrefix::Rsh => Kind::Rsh,
        InstructionPrefix::And => Kind::And,
        InstructionPrefix::Or => Kind::Or,
        InstructionPrefix::Xor => Kind::Xor,
        InstructionPrefix::Not => Kind::Not,
        InstructionPrefix::Psh => Kind::Psh,
        InstructionPrefix::Pop => Kind::Pop,
        InstructionPrefix::Call => Kind::Call,
        InstructionPrefix::Ret => Kind::Ret,
        InstructionPrefix::Jeq => Kind::Jeq,
        InstructionPrefix::Jgt => Kind::Jgt,
        InstructionPrefix::Jne => Kind::Jne,
        InstructionPrefix::Jge => Kind::Jge,
        InstructionPrefix::Jle => Kind::Jle,
        InstructionPrefix::Jlt => Kind::Jlt,
        InstructionPrefix::Jmp => Kind::Jmp,
        InstructionPrefix::Hlt => Kind::Hlt,
        InstructionPrefix::Int => Kind::Int,
        InstructionPrefix::Rti => Kind::Rti,
    }
}

/// The mnemonic the generator writes for an operation is read back by the
/// lexer as that operation's own keyword (`JGT` as `jgt`, never `jlt`), and
/// no two operations share a mnemonic.
pub proof fn lemma_prefix_names_read_back(p: InstructionPrefix, q: InstructionPrefix)
    ensures
        keyword_kind(p.spec_name()) == prefix_keyword(p),
        p != q ==> p.spec_name() != q.spec_name(),
{
    lemma_prefix_name_reads_back(p);
    lemma_prefix_name_reads_back(q);
}

proof fn lemma_prefix_name_reads_back(p: InstructionPrefix)
    ensures
        keyword_kind(p.spec_name()) == prefix_keyword(p),
{
    let n = p.spec_name();
    let l = crate::assembler::register::lower_bytes(n);
    assert(l =~= n.map_values(|b: u8| crate::assembler::register::ascii_lower(b)));
    match p {
        InstructionPrefix::Mov => { assert(l =~= seq![109u8, 111u8, 118u8]); },
        InstructionPrefix::Add => { assert(l =~= seq![97u8, 100u8, 100u8]); },
        InstructionPrefix::Sub => { assert(l =~= seq![115u8, 117u8, 98u8]); },
        InstructionPrefix::Mul => { assert(l =~= seq![109u8, 117u8, 108u8]); },
        InstructionPrefix::Inc => { assert(l =~= seq![105u8, 110u8, 99u8]); },
        InstructionPrefix::Dec => { assert(l =~= seq![100u8, 101u8, 99u8]); },
        InstructionPrefix::Lsh => { assert(l =~= seq![108u8, 115u8, 104u8]); },
        InstructionPrefix::Rsh => { assert(l =~= seq![114u8, 115u8, 104u8]); },
        InstructionPrefix::And => { assert(l =~= seq![97u8, 110u8, 100u8]); },
        InstructionPrefix::Or => { assert(l =~= seq![111u8, 114u8]); },
        InstructionPrefix::Xor => { assert(l =~= seq![120u8, 111u8, 114u8]); },
        InstructionPrefix::Not => { assert(l =~= seq![110u8, 111u8, 116u8]); },
        InstructionPrefix::Psh => { assert(l =~= seq![112u8, 115u8, 104u8]); },
        InstructionPrefix::Pop => { assert(l =~= seq![112u8, 111u8, 112u8]); },
        InstructionPrefix::Call => { assert(l =~= seq![99u8, 97u8, 108u8, 108u8]); },
        InstructionPrefix::Ret => { assert(l =~= seq![114u8, 101u8, 116u8]); },
        InstructionPrefix::Jeq => { assert(l =~= seq![106u8, 101u8, 113u8]); },
        InstructionPrefix::Jgt => { assert(l =~= seq![106u8, 103u8, 116u8]); },
        InstructionPrefix::Jne => { assert(l =~= seq![106u8, 110u8, 101u8]); },
        InstructionPrefix::Jge => { assert(l =~= seq![106u8, 103u8, 101u8]); },
        InstructionPrefix::Jle => { assert(l =~= seq![106u8, 108u8, 101u8]); },
        InstructionPrefix::Jlt => { assert(l =~= seq![106u8, 108u8, 116u8]); },
        InstructionPrefix::Jmp => { assert(l =~= seq![106u8, 109u8, 112u8]); },
        InstructionPrefix::Hlt => { assert(l =~= seq![104u8, 108u8, 116u8]); },
        InstructionPrefix::Int => { assert(l =~= seq![105u8, 110u8, 116u8]); },
        InstructionPrefix::Rti => { assert(l =~= seq![114u8, 116u8, 105u8]); },
    }
}

/// The name the generator writes for a register is read back as that
/// register, and the name it writes for an operator of an expression is the
/// keyword of that operator's instruction.
pub proof fn lemma_register_and_operator_names_read_back(r: crate::assembler::register::Register, o: Operator)
    ensures
        crate::assembler::register::Register::spec_from_name(reg_name(r)) == Some(r),
        keyword_kind(op_name(o)) == match o {
            Operator::Add => Kind::Add,
            Operator::Sub => Kind::Sub,
            Operator::Mul => Kind::Mul,
        },
{
    let n = reg_name(r);
    let l = crate::assembler::register::lower_bytes(n);
    assert(l =~= n.map_values(|b: u8| crate::assembler::register::ascii_lower(b)));
    assert(l =~= r.spec_name());
    let m = op_name(o);
    let k = crate::assembler::register::lower_bytes(m);
    assert(k =~= m.map_values(|b: u8| crate::assembler::register::ascii_lower(b)));
    match o {
        Operator::Add => { assert(k =~= seq![97u8, 100u8, 100u8]); },
        Operator::Sub => { assert(k =~= seq![115u8, 117u8, 98u8]); },
        Operator::Mul => { assert(k =~= seq![109u8, 117u8, 108u8]); },
    }
}

/// Whether the next token from `pos` on is `+` or `-`.
pub open spec fn sum_next(src: Seq<u8>, pos: nat) -> bool {
    peek_spec(src, pos).0 matches Ok(t) && (t.kind == Kind::Plus || t.kind == Kind::Minus)
}

/// Whether an operand is an address held in a register.
pub open spec fn register_address(node: Statement) -> bool {
    node matches Statement::Address(a) && *a is Register
}

/// `*` binds more strongly than `+` and `-`, which bind alike, and every
/// operator more strongly than an expression starts from; so the right
/// operand of a product ends at the `+` or `-` after it, and `a + b * c` and
/// `a * b + c` both keep the product whole inside the sum.
pub proof fn lemma_product_binds_tighter(src: Seq<u8>, lhs: Statement, pos: nat)
    ensures
        precedence(Operator::Mul) > precedence(Operator::Add),
        precedence(Operator::Mul) > precedence(Operator::Sub),
        precedence(Operator::Add) == precedence(Operator::Sub),
        precedence(Operator::Add) > BASE,
        pos <= src.len() <= usize::MAX && sum_next(src, pos) ==> expr_loop_spec(src, lhs, pos, precedence(Operator::Mul)) == (
            Ok::<Statement, crate::parser::error::Error>(lhs),
            pos,
        ),
{
}

/// The number of the register a register operand names.
pub open spec fn reg_number(code: Seq<u8>, node: Statement) -> Option<u8> {
    match node {
        Statement::Register(o) => match crate::assembler::register::Register::spec_from_name(text(code, o)) {
            Some(r) => Some(r.spec_index() as u8),
            None => None,
        },
        _ => None,
    }
}

/// The bytes of an encoded instruction keep the order of its operands in
/// the source: the destination or address first, then what is stored or
/// read; a register stored at an address held in a register is written as
/// the address register, a zero, then the stored register.
pub proof fn lemma_operand_order(m: ModuleModel, i: Instruction)
    ensures
        instruction_spec(m, i) matches Some(Ok(b)) ==> {
            let k = i.spec_kind();
            let l = i.spec_lhs();
            let r = i.spec_rhs();
            &&& (k == InstructionKind::LitReg || k == InstructionKind::MemReg) ==> Some(b[1]) == reg_number(m.code, l)
                && value_spec(m, r) == Some(Ok::<u16, crate::parser::error::Error>(bytes_to_word(b[2], b[3])))
            &&& (k == InstructionKind::RegReg || k == InstructionKind::RegPtrReg) ==> Some(b[1]) == reg_number(m.code, l)
                && Some(b[2]) == reg_number(m.code, r)
            &&& (k == InstructionKind::RegMem && register_address(l)) ==> Some(b[1])
                == reg_number(m.code, *(l->Address_0)) && b[2] == 0 && Some(b[3]) == reg_number(m.code, r)
            &&& (k == InstructionKind::RegMem && !register_address(l)) ==> value_spec(m, l)
                == Some(Ok::<u16, crate::parser::error::Error>(bytes_to_word(b[1], b[2]))) && Some(b[3]) == reg_number(m.code, r)
            &&& k == InstructionKind::LitMem ==> value_spec(m, l) == Some(Ok::<u16, crate::parser::error::Error>(bytes_to_word(b[1], b[2])))
                && value_spec(m, r) == Some(Ok::<u16, crate::parser::error::Error>(bytes_to_word(b[3], b[4])))
        },
{
    if let Some(Ok(b)) = instruction_spec(m, i) {
        let ops = operands_spec(m, i)->Some_0->Ok_0;
        assert(b == seq![i.spec_opcode().spec_byte()] + ops);
        let k = i.spec_kind();
        if k == InstructionKind::LitReg || k == InstructionKind::MemReg {
            let v = value_spec(m, i.spec_rhs())->Some_0->Ok_0;
            lemma_word_bytes(v);
        } else if k == InstructionKind::RegMem {
            if !register_address(i.spec_lhs()) {
                let v = value_spec(m, i.spec_lhs())->Some_0->Ok_0;
                lemma_word_bytes(v);
            }
        } else if k == InstructionKind::LitMem {
            let v = value_spec(m, i.spec_lhs())->Some_0->Ok_0;
            let w = value_spec(m, i.spec_rhs())->Some_0->Ok_0;
            lemma_word_bytes(v);
            lemma_word_bytes(w);
        }
    }
}

/// Decoding a register byte of machine code gives the register of that
/// number, and every register but the instruction, stack and frame pointers
/// is decoded from its own number.
pub proof fn lemma_register_decode(r: crate::register::Register, v: u16)
    ensures
        r != crate::register::Register::IP && r != crate::register::Register::SP && r != crate::register::Register::FP
            ==> crate::register::Register::spec_try_from(r.spec_index() as u16) == Ok::<crate::register::Register, crate::register::Error>(r),
        crate::register::Register::spec_try_from(v) matches Ok(x) ==> x.spec_index() == v,
{
}

/// In the assembler's table too, a register number reads back as the
/// register of that number, and every register reads back from its name.
pub proof fn lemma_assembly_register_numbers(r: crate::assembler::register::Register, v: u16)
    ensures
        crate::assembler::register::Register::spec_try_from(v) matches Ok(x) ==> x.spec_index() == v,
        crate::assembler::register::Register::spec_from_name(r.spec_name()) == Some(r),
{
    let l = crate::assembler::register::lower_bytes(r.spec_name());
    assert(l =~= r.spec_name());
}


/// Whether `line` begins with the word `w` followed by a space.
pub open spec fn opens_with(line: Seq<u8>, w: Seq<u8>) -> bool {
    &&& w.len() < line.len()
    &&& line.subrange(0, w.len() as int) == w
    &&& line[w.len() as int] == 32u8
}

/// Whether the lines `b` keep the lines `a` and may add more after them.
pub open spec fn keeps_lines(a: Seq<Seq<u8>>, b: Seq<Seq<u8>>) -> bool {
    a.len() <= b.len() && forall|j: int| 0 <= j < a.len() ==> #[trigger] b[j] == a[j]
}

/// Whether a line that begins with `w` was written from `before` to `after`.
pub open spec fn wrote_line_opening(before: GenState, after: GenState, w: Seq<u8>) -> bool {
    exists|k: int| before.code.len() <= k < after.code.len() && opens_with(#[trigger] after.code[k], w)
}

/// The keyword the source gives a jump or a call.
pub open spec fn jump_keyword(i: Instruction) -> Option<Kind> {
    match i {
        Instruction::JeqReg(_, _) | Instruction::JeqLit(_, _) => Some(Kind::Jeq),
        Instruction::JgtReg(_, _) | Instruction::JgtLit(_, _) => Some(Kind::Jgt),
        Instruction::JneReg(_, _) | Instruction::JneLit(_, _) => Some(Kind::Jne),
        Instruction::JgeReg(_, _) | Instruction::JgeLit(_, _) => Some(Kind::Jge),
        Instruction::JleReg(_, _) | Instruction::JleLit(_, _) => Some(Kind::Jle),
        Instruction::JltReg(_, _) | Instruction::JltLit(_, _) => Some(Kind::Jlt),
        Instruction::Jmp(_) => Some(Kind::Jmp),
        Instruction::Call(_) => Some(Kind::Call),
        _ => None,
    }
}

proof fn lemma_lines_open(p: Seq<u8>, a: Seq<u8>, b: Seq<u8>)
    ensures
        opens_with(crate::text::line1(p, a), p),
        opens_with(crate::text::line2(p, a, b), p),
{
    let l1 = crate::text::line1(p, a);
    let l2 = crate::text::line2(p, a, b);
    assert(l1.subrange(0, p.len() as int) =~= p);
    assert(l2.subrange(0, p.len() as int) =~= p);
}

proof fn lemma_release_all_keeps(st: GenState)
    ensures
        keeps_lines(st.code, release_all_spec(st).code),
    decreases st.used.len(),
{
    if st.used.len() > 0 {
        let r = st.used.last();
        let next = GenState {
            code: st.code.push(crate::text::line1(InstructionPrefix::Pop.spec_name(), crate::text::reg_name(r))),
            temp: st.temp.push(r),
            used: st.used.drop_last(),
        };
        lemma_release_all_keeps(next);
        assert forall|j: int| 0 <= j < st.code.len() implies #[trigger] release_all_spec(st).code[j] == st.code[j] by {
            assert(next.code[j] == st.code[j]);
        }
    }
}

proof fn lemma_generate_code_keeps(
    src: Seq<u8>,
    st: GenState,
    prefix: Seq<u8>,
    node: Statement,
    target: Option<crate::assembler::register::Register>,
)
    ensures
        keeps_lines(st.code, generate_code_spec(src, st, prefix, node, target).1.code),
    decreases node,
{
    match evaluate_spec(src, node) {
        Ok(None) => match node {
            Statement::BinaryOp { lhs, operator, rhs } => {
                let mov = InstructionPrefix::Mov.spec_name();
                let s1 = generate_code_spec(src, st, mov, *lhs, None).1;
                lemma_generate_code_keeps(src, st, mov, *lhs, None);
                lemma_generate_code_keeps(src, s1, mov, *rhs, None);
            },
            _ => {},
        },
        _ => {},
    }
}

proof fn lemma_emit_then_release(before: GenState, mid: GenState, line: Seq<u8>, w: Seq<u8>)
    requires
        keeps_lines(before.code, mid.code),
        opens_with(line, w),
    ensures
        wrote_line_opening(before, release_all_spec(crate::generator::emit(mid, line)), w),
        wrote_line_opening(before, crate::generator::emit(mid, line), w),
        wrote_line_opening(before, crate::generator::emit(release_all_spec(mid), line), w),
{
    let k = mid.code.len() as int;
    let e = crate::generator::emit(mid, line);
    lemma_release_all_keeps(e);
    assert(release_all_spec(e).code[k] == line);
    assert(e.code[k] == line);
    lemma_release_all_keeps(mid);
    let r = crate::generator::emit(release_all_spec(mid), line);
    assert(r.code[release_all_spec(mid).code.len() as int] == line);
}

proof fn lemma_jump_forms_open(src: Seq<u8>, st: GenState, i: Instruction, p: InstructionPrefix)
    requires
        gen_instruction_spec(src, st, i).0 is Ok,
        match i {
            Instruction::JeqReg(_, _) | Instruction::JeqLit(_, _) => p == InstructionPrefix::Jeq,
            Instruction::JgtReg(_, _) | Instruction::JgtLit(_, _) => p == InstructionPrefix::Jgt,
            Instruction::JneReg(_, _) | Instruction::JneLit(_, _) => p == InstructionPrefix::Jne,
            Instruction::JgeReg(_, _) | Instruction::JgeLit(_, _) => p == InstructionPrefix::Jge,
            Instruction::JleReg(_, _) | Instruction::JleLit(_, _) => p == InstructionPrefix::Jle,
            Instruction::JltReg(_, _) | Instruction::JltLit(_, _) => p == InstructionPrefix::Jlt,
            Instruction::Jmp(_) => p == InstructionPrefix::Jmp,
            Instruction::Call(_) => p == InstructionPrefix::Call,
            _ => false,
        },
    ensures
        wrote_line_opening(st, gen_instruction_spec(src, st, i).1, p.spec_name()),
{
    let w = p.spec_name();
    let mov = InstructionPrefix::Mov.spec_name();
    assert(keeps_lines(st.code, st.code));
    match i {
        Instruction::JeqReg(l, r) | Instruction::JgtReg(l, r) | Instruction::JneReg(l, r)
        | Instruction::JgeReg(l, r) | Instruction::JleReg(l, r) | Instruction::JltReg(l, r) => {
            reveal(reg_mem_spec);
            if let Statement::Address(inner) = l {
                if *inner is BinaryOp {
                    let (t, s1) = generate_code_spec(src, st, mov, *inner, None);
                    lemma_generate_code_keeps(src, st, mov, *inner, None);
                    let rr = crate::generator::get_register_spec(src, r)->Ok_0;
                    lemma_lines_open(w, crate::text::bracket(reg_name(t->Ok_0)), reg_name(rr));
                    lemma_emit_then_release(st, s1, crate::text::line2(w, crate::text::bracket(reg_name(t->Ok_0)), reg_name(rr)), w);
                } else {
                    let a = crate::generator::get_address_spec(src, l)->Ok_0;
                    let rr = crate::generator::get_register_spec(src, r)->Ok_0;
                    lemma_lines_open(w, crate::text::bracket(a), reg_name(rr));
                    lemma_emit_then_release(st, st, crate::text::line2(w, crate::text::bracket(a), reg_name(rr)), w);
                }
            }
        },
        Instruction::JeqLit(l, r) | Instruction::JgtLit(l, r) | Instruction::JneLit(l, r)
        | Instruction::JgeLit(l, r) | Instruction::JleLit(l, r) | Instruction::JltLit(l, r) => {
            reveal(lit_mem_spec);
            if let Statement::Address(inner) = l {
                let (lt, s1) = if *inner is BinaryOp {
                    let (t, s) = generate_code_spec(src, st, mov, *inner, None);
                    lemma_generate_code_keeps(src, st, mov, *inner, None);
                    (match t {
                        Ok(t) => Ok(reg_name(t)),
                        Err(e) => Err(e),
                    }, s)
                } else {
                    (crate::generator::get_address_spec(src, l), st)
                };
                let b = crate::text::bracket(lt->Ok_0);
                if r is Var {
                    let v = crate::generator::var_text(src, r->Var_0);
                    lemma_lines_open(w, b, v);
                    lemma_emit_then_release(st, s1, crate::text::line2(w, b, v), w);
                } else if r is HexLiteral {
                    let v = crate::generator::hex_text(src, r->HexLiteral_0);
                    lemma_lines_open(w, b, v);
                    lemma_emit_then_release(st, s1, crate::text::line2(w, b, v), w);
                } else {
                    let (rv, s2) = generate_code_spec(src, s1, w, r, None);
                    lemma_generate_code_keeps(src, s1, w, r, None);
                    let v = reg_name(rv->Ok_0);
                    lemma_lines_open(w, b, v);
                    lemma_emit_then_release(st, s2, crate::text::line2(w, b, v), w);
                }
            }
        },
        Instruction::Jmp(a) | Instruction::Call(a) => {
            reveal(jump_spec);
            if let Statement::Address(inner) = a {
                if *inner is BinaryOp {
                    let (t, s1) = generate_code_spec(src, st, mov, *inner, None);
                    lemma_generate_code_keeps(src, st, mov, *inner, None);
                    let b = crate::text::bracket(reg_name(t->Ok_0));
                    lemma_lines_open(w, b, b);
                    lemma_emit_then_release(st, s1, crate::text::line1(w, b), w);
                } else {
                    let b = crate::text::bracket(crate::generator::get_address_spec(src, a)->Ok_0);
                    lemma_lines_open(w, b, b);
                    lemma_emit_then_release(st, st, crate::text::line1(w, b), w);
                }
            }
        },
        _ => {},
    }
}

/// A jump or a call that the generator writes out is written under its own
/// mnemonic: among the lines it adds is one whose first word the lexer reads
/// back as the keyword that the source gave it (`jgt` gives a `JGT` line).
pub proof fn lemma_jump_written_as_itself(src: Seq<u8>, st: GenState, i: Instruction)
    requires
        jump_keyword(i) is Some,
        gen_instruction_spec(src, st, i).0 is Ok,
    ensures
        exists|k: int, q: InstructionPrefix|
            #![trigger opens_with(gen_instruction_spec(src, st, i).1.code[k], q.spec_name())]
            st.code.len() <= k < gen_instruction_spec(src, st, i).1.code.len()
                && opens_with(gen_instruction_spec(src, st, i).1.code[k], q.spec_name())
                && keyword_kind(q.spec_name()) == jump_keyword(i)->Some_0,
{
    let p = match i {
        Instruction::JeqReg(_, _) | Instruction::JeqLit(_, _) => InstructionPrefix::Jeq,
        Instruction::JgtReg(_, _) | Instruction::JgtLit(_, _) => InstructionPrefix::Jgt,
        Instruction::JneReg(_, _) | Instruction::JneLit(_, _) => InstructionPrefix::Jne,
        Instruction::JgeReg(_, _) | Instruction::JgeLit(_, _) => InstructionPrefix::Jge,
        Instruction::JleReg(_, _) | Instruction::JleLit(_, _) => InstructionPrefix::Jle,
        Instruction::JltReg(_, _) | Instruction::JltLit(_, _) => InstructionPrefix::Jlt,
        Instruction::Jmp(_) => InstructionPrefix::Jmp,
        _ => InstructionPrefix::Call,
    };
    lemma_jump_forms_open(src, st, i, p);
    lemma_prefix_name_reads_back(p);
    let after = gen_instruction_spec(src, st, i).1;
    let k = choose|k: int| st.code.len() <= k < after.code.len() && opens_with(#[trigger] after.code[k], p.spec_name());
    assert(opens_with(after.code[k], p.spec_name()));
}

} // verus!
