use vstd::prelude::*;

use crate::assembler::op_code::OpCode;

verus! {

/// An operator of an expression.
#[derive(Debug, PartialEq, Eq, Clone, Copy, Structural)]
pub enum Operator {
    Add,
    Sub,
    Mul,
}

/// Where a piece of the source stands, in bytes: from `start` up to `end`.
#[derive(Debug, PartialEq, Eq, Clone, Copy, Hash, Structural)]
pub struct ByteOffset {
    pub start: usize,
    pub end: usize,
}

impl ByteOffset {
    /// The bytes of `source` that this offset covers.
    pub fn get_source<'a>(&self, source: &'a [u8]) -> (s: &'a [u8])
        requires
            self.start <= self.end <= source@.len(),
        ensures
            s@ == source@.subrange(self.start as int, self.end as int),
    {
        &source[self.start..self.end]
    }
}

/// A parsed program: its statements in order.
#[derive(Debug)]
pub struct Ast {
    pub statements: Vec<Statement>,
}

/// The constants among `stmts`, in order: name, value and whether exported.
pub open spec fn constants_of(stmts: Seq<Statement>) -> Seq<(ByteOffset, Statement, bool)>
    decreases stmts.len(),
{
    if stmts.len() == 0 {
        Seq::empty()
    } else {
        let front = constants_of(stmts.drop_last());
        match stmts.last() {
            Statement::Const { name, value, exported } => front.push((name, *value, exported)),
            _ => front,
        }
    }
}

/// Whether every import among `stmts` is placed at a hex literal.
pub open spec fn imports_placed(stmts: Seq<Statement>) -> bool {
    forall|i: int|
        0 <= i < stmts.len() ==> (#[trigger] stmts[i] matches Statement::Import { address, .. } ==> *address is HexLiteral)
}

/// The imports among `stmts`, in order: name, path, variables and the place
/// of the hex literal they are loaded at.
pub open spec fn imports_of(stmts: Seq<Statement>) -> Seq<(ByteOffset, ByteOffset, Seq<Statement>, ByteOffset)>
    decreases stmts.len(),
{
    if stmts.len() == 0 {
        Seq::empty()
    } else {
        let front = imports_of(stmts.drop_last());
        match stmts.last() {
            Statement::Import { name, path, variables, address } => match *address {
                Statement::HexLiteral(a) => front.push((name, path, variables@, a)),
                _ => front,
            },
            _ => front,
        }
    }
}

impl Ast {
    /// The imports of the program, in order.
    pub fn imports(&self) -> (r: Vec<(&ByteOffset, &ByteOffset, &Vec<Statement>, &ByteOffset)>)
        requires
            imports_placed(self.statements@),
        ensures
            r@.len() == imports_of(self.statements@).len(),
            forall|i: int|
                0 <= i < r@.len() ==> {
                    let (n, p, v, a) = #[trigger] r@[i];
                    imports_of(self.statements@)[i] == (*n, *p, v@, *a)
                },
    {
        let mut r: Vec<(&ByteOffset, &ByteOffset, &Vec<Statement>, &ByteOffset)> = Vec::new();
        let mut i: usize = 0;
        while i < self.statements.len()
            invariant
                i <= self.statements@.len(),
                imports_placed(self.statements@),
                r@.len() == imports_of(self.statements@.take(i as int)).len(),
                forall|j: int|
                    0 <= j < r@.len() ==> {
                        let (n, p, v, a) = #[trigger] r@[j];
                        imports_of(self.statements@.take(i as int))[j] == (*n, *p, v@, *a)
                    },
            decreases self.statements@.len() - i,
        {
            proof {
                assert(self.statements@.take(i + 1).drop_last() =~= self.statements@.take(i as int));
                assert(self.statements@.take(i + 1).last() == self.statements@[i as int]);
            }
            match &self.statements[i] {
                Statement::Import { name, path, variables, address } => {
                    proof {
                        assert(self.statements@[i as int] matches Statement::Import { address, .. });
                    }
                    match &**address {
                        Statement::HexLiteral(a) => {
                            r.push((name, path, variables, a));
                        },
                        _ => {},
                    }
                },
                _ => {},
            }
            i = i + 1;
        }
        proof {
            assert(self.statements@.take(i as int) =~= self.statements@);
        }
        r
    }

    /// The constants of the program, in order.
    pub fn constants(&self) -> (r: Vec<(&ByteOffset, &Statement, &bool)>)
        ensures
            r@.len() == constants_of(self.statements@).len(),
            forall|i: int|
                0 <= i < r@.len() ==> {
                    let (n, v, e) = #[trigger] r@[i];
                    constants_of(self.statements@)[i] == (*n, *v, *e)
                },
    {
        let mut r: Vec<(&ByteOffset, &Statement, &bool)> = Vec::new();
        let mut i: usize = 0;
        while i < self.statements.len()
            invariant
                i <= self.statements@.len(),
                r@.len() == constants_of(self.statements@.take(i as int)).len(),
                forall|j: int|
                    0 <= j < r@.len() ==> {
                        let (n, v, e) = #[trigger] r@[j];
                        constants_of(self.statements@.take(i as int))[j] == (*n, *v, *e)
                    },
            decreases self.statements@.len() - i,
        {
            proof {
                assert(self.statements@.take(i + 1).drop_last() =~= self.statements@.take(i as int));
                assert(self.statements@.take(i + 1).last() == self.statements@[i as int]);
            }
            match &self.statements[i] {
                Statement::Const { name, value, exported } => {
                    r.push((name, &**value, exported));
                },
                _ => {},
            }
            i = i + 1;
        }
        proof {
            assert(self.statements@.take(i as int) =~= self.statements@);
        }
        r
    }
}

/// A statement of the assembly language, or a part of one.
#[derive(Debug, PartialEq, Eq)]
pub enum Statement {
    Instruction(Box<Instruction>),
    HexLiteral(ByteOffset),
    Address(Box<Statement>),
    Register(ByteOffset),
    Var(ByteOffset),
    Label { name: ByteOffset, exported: bool },
    FieldAccessor { module: ByteOffset, field: ByteOffset },
    Import { name: ByteOffset, path: ByteOffset, address: Box<Statement>, variables: Vec<Statement> },
    ImportVar { name: ByteOffset, value: Box<Statement> },
    Data { name: ByteOffset, size: u8, exported: bool, values: Vec<Statement> },
    Const { name: ByteOffset, exported: bool, value: Box<Statement> },
    BinaryOp { lhs: Box<Statement>, operator: Operator, rhs: Box<Statement> },
}

/// From `back` bytes before the start of `first` to the end of `last`; `None`
/// where `first` or `last` has no offset or the start would fall before zero.
pub open spec fn span_back(first: Option<ByteOffset>, last: Option<ByteOffset>, back: usize) -> Option<ByteOffset> {
    match (first, last) {
        (Some(f), Some(l)) => if f.start >= back {
            Some(ByteOffset { start: (f.start - back) as usize, end: l.end })
        } else {
            None
        },
        _ => None,
    }
}

/// From `back` bytes before the start of `first` to the end of `last`.
fn span_back_exec(first: ByteOffset, last: ByteOffset, back: usize) -> (o: ByteOffset)
    requires
        first.start >= back,
    ensures
        Some(o) == span_back(Some(first), Some(last), back),
{
    ByteOffset { start: first.start - back, end: last.end }
}

impl Statement {
    /// Where the statement stands in the source; `None` where working it out
    /// would reach before the start of the source.
    pub open spec fn spec_offset(&self) -> Option<ByteOffset>
        decreases self,
    {
        match self {
            Statement::Instruction(inst) => inst.spec_offset(),
            Statement::HexLiteral(o) => Some(*o),
            Statement::Address(stat) => stat.spec_offset(),
            Statement::Register(o) => Some(*o),
            Statement::Var(o) => Some(*o),
            Statement::Label { name, .. } => Some(*name),
            Statement::FieldAccessor { module, field } => Some(ByteOffset { start: module.start, end: field.end }),
            Statement::Import { name, address, variables, .. } => {
                let last = if variables@.len() > 0 {
                    variables@[variables@.len() - 1].spec_offset()
                } else {
                    address.spec_offset()
                };
                match last {
                    Some(l) => Some(ByteOffset { start: name.start, end: l.end }),
                    None => None,
                }
            },
            Statement::ImportVar { name, value } => match value.spec_offset() {
                Some(v) => Some(ByteOffset { start: name.start, end: v.end }),
                None => None,
            },
            Statement::Data { name, values, size, .. } => {
                let back: usize = if *size == 8 { 6 } else { 7 };
                let last = if values@.len() > 0 {
                    values@[values@.len() - 1].spec_offset()
                } else {
                    Some(*name)
                };
                span_back(Some(*name), last, back)
            },
            Statement::Const { name, value, .. } => match value.spec_offset() {
                Some(v) => Some(ByteOffset { start: name.start, end: v.end }),
                None => None,
            },
            Statement::BinaryOp { lhs, rhs, .. } => match (lhs.spec_offset(), rhs.spec_offset()) {
                (Some(l), Some(r)) => Some(ByteOffset { start: l.start, end: r.end }),
                _ => None,
            },
        }
    }

    /// Where the statement stands in the source.
    pub fn offset(&self) -> (o: ByteOffset)
        requires
            self.spec_offset() is Some,
        ensures
            Some(o) == self.spec_offset(),
        decreases self,
    {
        match self {
            Statement::Instruction(inst) => inst.offset(),
            Statement::HexLiteral(o) => *o,
            Statement::Address(stat) => stat.offset(),
            Statement::Register(o) => *o,
            Statement::Var(o) => *o,
            Statement::Label { name, .. } => *name,
            Statement::FieldAccessor { module, field } => ByteOffset { start: module.start, end: field.end },
            Statement::Import { name, address, variables, .. } => {
                let last = if variables.len() > 0 {
                    variables[variables.len() - 1].offset().end
                } else {
                    address.offset().end
                };
                ByteOffset { start: name.start, end: last }
            },
            Statement::ImportVar { name, value } => ByteOffset { start: name.start, end: value.offset().end },
            Statement::Data { name, values, size, .. } => {
                let back: usize = if *size == 8 { 6 } else { 7 };
                let last = if values.len() > 0 {
                    values[values.len() - 1].offset()
                } else {
                    *name
                };
                span_back_exec(*name, last, back)
            },
            Statement::Const { name, value, .. } => ByteOffset { start: name.start, end: value.offset().end },
            Statement::BinaryOp { lhs, rhs, .. } => ByteOffset { start: lhs.offset().start, end: rhs.offset().end },
        }
    }
}

impl Instruction {
    /// Where the instruction stands in the source, its keyword included:
    /// four bytes before its first operand (three for `or`, five for
    /// `call`) to the end of its last.
    pub open spec fn spec_offset(&self) -> Option<ByteOffset>
        decreases self,
    {
        match self {
            Instruction::MovLitReg(lhs, rhs) => span_back(lhs.spec_offset(), rhs.spec_offset(), 4),
            Instruction::MovRegReg(lhs, rhs) => span_back(lhs.spec_offset(), rhs.spec_offset(), 4),
            Instruction::MovRegMem(lhs, rhs) => span_back(lhs.spec_offset(), rhs.spec_offset(), 4),
            Instruction::MovMemReg(lhs, rhs) => span_back(lhs.spec_offset(), rhs.spec_offset(), 4),
            Instruction::MovLitMem(lhs, rhs) => span_back(lhs.spec_offset(), rhs.spec_offset(), 4),
            Instruction::MovRegPtrReg(lhs, rhs) => span_back(lhs.spec_offset(), rhs.spec_offset(), 4),
            Instruction::AddRegReg(lhs, rhs) => span_back(lhs.spec_offset(), rhs.spec_offset(), 4),
            Instruction::AddLitReg(lhs, rhs) => span_back(lhs.spec_offset(), rhs.spec_offset(), 4),
            Instruction::SubRegReg(lhs, rhs) => span_back(lhs.spec_offset(), rhs.spec_offset(), 4),
            Instruction::SubLitReg(lhs, rhs) => span_back(lhs.spec_offset(), rhs.spec_offset(), 4),
            Instruction::MulRegReg(lhs, rhs) => span_back(lhs.spec_offset(), rhs.spec_offset(), 4),
            Instruction::MulLitReg(lhs, rhs) => span_back(lhs.spec_offset(), rhs.spec_offset(), 4),
            Instruction::LshRegReg(lhs, rhs) => span_back(lhs.spec_offset(), rhs.spec_offset(), 4),
            Instruction::LshLitReg(lhs, rhs) => span_back(lhs.spec_offset(), rhs.spec_offset(), 4),
            Instruction::RshRegReg(lhs, rhs) => span_back(lhs.spec_offset(), rhs.spec_offset(), 4),
            Instruction::RshLitReg(lhs, rhs) => span_back(lhs.spec_offset(), rhs.spec_offset(), 4),
            Instruction::AndRegReg(lhs, rhs) => span_back(lhs.spec_offset(), rhs.spec_offset(), 4),
            Instruction::AndLitReg(lhs, rhs) => span_back(lhs.spec_offset(), rhs.spec_offset(), 4),
            Instruction::OrLitReg(lhs, rhs) => span_back(lhs.spec_offset(), rhs.spec_offset(), 3),
            Instruction::OrRegReg(lhs, rhs) => span_back(lhs.spec_offset(), rhs.spec_offset(), 3),
            Instruction::XorLitReg(lhs, rhs) => span_back(lhs.spec_offset(), rhs.spec_offset(), 4),
            Instruction::XorRegReg(lhs, rhs) => span_back(lhs.spec_offset(), rhs.spec_offset(), 4),
            Instruction::JeqLit(lhs, rhs) => span_back(lhs.spec_offset(), rhs.spec_offset(), 4),
            Instruction::JeqReg(lhs, rhs) => span_back(lhs.spec_offset(), rhs.spec_offset(), 4),
            Instruction::JgtLit(lhs, rhs) => span_back(lhs.spec_offset(), rhs.spec_offset(), 4),
            Instruction::JgtReg(lhs, rhs) => span_back(lhs.spec_offset(), rhs.spec_offset(), 4),
            Instruction::JneLit(lhs, rhs) => span_back(lhs.spec_offset(), rhs.spec_offset(), 4),
            Instruction::JneReg(lhs, rhs) => span_back(lhs.spec_offset(), rhs.spec_offset(), 4),
            Instruction::JgeLit(lhs, rhs) => span_back(lhs.spec_offset(), rhs.spec_offset(), 4),
            Instruction::JgeReg(lhs, rhs) => span_back(lhs.spec_offset(), rhs.spec_offset(), 4),
            Instruction::JleLit(lhs, rhs) => span_back(lhs.spec_offset(), rhs.spec_offset(), 4),
            Instruction::JleReg(lhs, rhs) => span_back(lhs.spec_offset(), rhs.spec_offset(), 4),
            Instruction::JltLit(lhs, rhs) => span_back(lhs.spec_offset(), rhs.spec_offset(), 4),
            Instruction::JltReg(lhs, rhs) => span_back(lhs.spec_offset(), rhs.spec_offset(), 4),
            Instruction::Inc(stat) => span_back(stat.spec_offset(), stat.spec_offset(), 4),
            Instruction::Dec(stat) => span_back(stat.spec_offset(), stat.spec_offset(), 4),
            Instruction::Not(stat) => span_back(stat.spec_offset(), stat.spec_offset(), 4),
            Instruction::Jmp(stat) => span_back(stat.spec_offset(), stat.spec_offset(), 4),
            Instruction::PshLit(stat) => span_back(stat.spec_offset(), stat.spec_offset(), 4),
            Instruction::PshReg(stat) => span_back(stat.spec_offset(), stat.spec_offset(), 4),
            Instruction::Pop(stat) => span_back(stat.spec_offset(), stat.spec_offset(), 4),
            Instruction::Int(stat) => span_back(stat.spec_offset(), stat.spec_offset(), 4),
            Instruction::Call(stat) => span_back(stat.spec_offset(), stat.spec_offset(), 5),
            Instruction::Ret(o) => Some(*o),
            Instruction::Hlt(o) => Some(*o),
            Instruction::Rti(o) => Some(*o),
        }
    }

    /// Where the instruction stands in the source (see `spec_offset`).
    pub fn offset(&self) -> (o: ByteOffset)
        requires
            self.spec_offset() is Some,
        ensures
            Some(o) == self.spec_offset(),
        decreases self,
    {
        match self {
            Instruction::MovLitReg(lhs, rhs) => span_back_exec(lhs.offset(), rhs.offset(), 4),
            Instruction::MovRegReg(lhs, rhs) => span_back_exec(lhs.offset(), rhs.offset(), 4),
            Instruction::MovRegMem(lhs, rhs) => span_back_exec(lhs.offset(), rhs.offset(), 4),
            Instruction::MovMemReg(lhs, rhs) => span_back_exec(lhs.offset(), rhs.offset(), 4),
            Instruction::MovLitMem(lhs, rhs) => span_back_exec(lhs.offset(), rhs.offset(), 4),
            Instruction::MovRegPtrReg(lhs, rhs) => span_back_exec(lhs.offset(), rhs.offset(), 4),
            Instruction::AddRegReg(lhs, rhs) => span_back_exec(lhs.offset(), rhs.offset(), 4),
            Instruction::AddLitReg(lhs, rhs) => span_back_exec(lhs.offset(), rhs.offset(), 4),
            Instruction::SubRegReg(lhs, rhs) => span_back_exec(lhs.offset(), rhs.offset(), 4),
            Instruction::SubLitReg(lhs, rhs) => span_back_exec(lhs.offset(), rhs.offset(), 4),
            Instruction::MulRegReg(lhs, rhs) => span_back_exec(lhs.offset(), rhs.offset(), 4),
            Instruction::MulLitReg(lhs, rhs) => span_back_exec(lhs.offset(), rhs.offset(), 4),
            Instruction::LshRegReg(lhs, rhs) => span_back_exec(lhs.offset(), rhs.offset(), 4),
            Instruction::LshLitReg(lhs, rhs) => span_back_exec(lhs.offset(), rhs.offset(), 4),
            Instruction::RshRegReg(lhs, rhs) => span_back_exec(lhs.offset(), rhs.offset(), 4),
            Instruction::RshLitReg(lhs, rhs) => span_back_exec(lhs.offset(), rhs.offset(), 4),
            Instruction::AndRegReg(lhs, rhs) => span_back_exec(lhs.offset(), rhs.offset(), 4),
            Instruction::AndLitReg(lhs, rhs) => span_back_exec(lhs.offset(), rhs.offset(), 4),
            Instruction::OrLitReg(lhs, rhs) => span_back_exec(lhs.offset(), rhs.offset(), 3),
            Instruction::OrRegReg(lhs, rhs) => span_back_exec(lhs.offset(), rhs.offset(), 3),
            Instruction::XorLitReg(lhs, rhs) => span_back_exec(lhs.offset(), rhs.offset(), 4),
            Instruction::XorRegReg(lhs, rhs) => span_back_exec(lhs.offset(), rhs.offset(), 4),
            Instruction::JeqLit(lhs, rhs) => span_back_exec(lhs.offset(), rhs.offset(), 4),
            Instruction::JeqReg(lhs, rhs) => span_back_exec(lhs.offset(), rhs.offset(), 4),
            Instruction::JgtLit(lhs, rhs) => span_back_exec(lhs.offset(), rhs.offset(), 4),
            Instruction::JgtReg(lhs, rhs) => span_back_exec(lhs.offset(), rhs.offset(), 4),
            Instruction::JneLit(lhs, rhs) => span_back_exec(lhs.offset(), rhs.offset(), 4),
            Instruction::JneReg(lhs, rhs) => span_back_exec(lhs.offset(), rhs.offset(), 4),
            Instruction::JgeLit(lhs, rhs) => span_back_exec(lhs.offset(), rhs.offset(), 4),
            Instruction::JgeReg(lhs, rhs) => span_back_exec(lhs.offset(), rhs.offset(), 4),
            Instruction::JleLit(lhs, rhs) => span_back_exec(lhs.offset(), rhs.offset(), 4),
            Instruction::JleReg(lhs, rhs) => span_back_exec(lhs.offset(), rhs.offset(), 4),
            Instruction::JltLit(lhs, rhs) => span_back_exec(lhs.offset(), rhs.offset(), 4),
            Instruction::JltReg(lhs, rhs) => span_back_exec(lhs.offset(), rhs.offset(), 4),
            Instruction::Inc(stat) => { let o = stat.offset(); span_back_exec(o, o, 4) },
            Instruction::Dec(stat) => { let o = stat.offset(); span_back_exec(o, o, 4) },
            Instruction::Not(stat) => { let o = stat.offset(); span_back_exec(o, o, 4) },
            Instruction::Jmp(stat) => { let o = stat.offset(); span_back_exec(o, o, 4) },
            Instruction::PshLit(stat) => { let o = stat.offset(); span_back_exec(o, o, 4) },
            Instruction::PshReg(stat) => { let o = stat.offset(); span_back_exec(o, o, 4) },
            Instruction::Pop(stat) => { let o = stat.offset(); span_back_exec(o, o, 4) },
            Instruction::Int(stat) => { let o = stat.offset(); span_back_exec(o, o, 4) },
            Instruction::Call(stat) => { let o = stat.offset(); span_back_exec(o, o, 5) },
            Instruction::Ret(o) => *o,
            Instruction::Hlt(o) => *o,
            Instruction::Rti(o) => *o,
        }
    }
}

/// A statement as mathematics: the lists of data values and of import
/// variables become sequences; every other statement stands for itself.
pub enum StatementView {
    Plain(Statement),
    Data { name: ByteOffset, size: u8, exported: bool, values: Seq<Statement> },
    Import { name: ByteOffset, path: ByteOffset, address: Statement, variables: Seq<Statement> },
}

impl View for Statement {
    type V = StatementView;

    open spec fn view(&self) -> StatementView {
        match self {
            Statement::Data { name, size, exported, values } => StatementView::Data {
                name: *name,
                size: *size,
                exported: *exported,
                values: values@,
            },
            Statement::Import { name, path, address, variables } => StatementView::Import {
                name: *name,
                path: *path,
                address: **address,
                variables: variables@,
            },
            _ => StatementView::Plain(*self),
        }
    }
}

impl View for Ast {
    type V = Seq<StatementView>;

    open spec fn view(&self) -> Seq<StatementView> {
        self.statements@.map_values(|s: Statement| s@)
    }
}

/// The shape of an instruction's operands, which fixes its size in bytecode.
#[derive(Debug, PartialEq, Eq, Clone, Copy, Structural)]
pub enum InstructionKind {
    LitReg,
    RegReg,
    RegMem,
    MemReg,
    LitMem,
    RegPtrReg,
    NoArgs,
    SingleReg,
    SingleLit,
}

impl InstructionKind {
    /// The size in bytes of an instruction of this shape, operation included.
    pub open spec fn spec_byte_size(self) -> u8 {
        match self {
            InstructionKind::LitReg => 4,
            InstructionKind::RegReg => 3,
            InstructionKind::RegMem => 4,
            InstructionKind::MemReg => 4,
            InstructionKind::LitMem => 5,
            InstructionKind::RegPtrReg => 3,
            InstructionKind::NoArgs => 1,
            InstructionKind::SingleReg => 2,
            InstructionKind::SingleLit => 3,
        }
    }

    /// The size in bytes of an instruction of this shape, operation included.
    pub fn byte_size(&self) -> (n: u8)
        ensures
            n == self.spec_byte_size(),
    {
        match self {
            InstructionKind::LitReg => 4,
            InstructionKind::RegReg => 3,
            InstructionKind::RegMem => 4,
            InstructionKind::MemReg => 4,
            InstructionKind::LitMem => 5,
            InstructionKind::RegPtrReg => 3,
            InstructionKind::NoArgs => 1,
            InstructionKind::SingleReg => 2,
            InstructionKind::SingleLit => 3,
        }
    }
}

/// An instruction as written, its operands as statements.
#[derive(Debug, PartialEq, Eq)]
pub enum Instruction {
    MovLitReg(Statement, Statement),
    MovRegReg(Statement, Statement),
    MovRegMem(Statement, Statement),
    MovMemReg(Statement, Statement),
    MovLitMem(Statement, Statement),
    MovRegPtrReg(Statement, Statement),
    AddRegReg(Statement, Statement),
    AddLitReg(Statement, Statement),
    SubRegReg(Statement, Statement),
    SubLitReg(Statement, Statement),
    MulRegReg(Statement, Statement),
    MulLitReg(Statement, Statement),
    LshRegReg(Statement, Statement),
    LshLitReg(Statement, Statement),
    RshRegReg(Statement, Statement),
    RshLitReg(Statement, Statement),
    AndRegReg(Statement, Statement),
    AndLitReg(Statement, Statement),
    OrLitReg(Statement, Statement),
    OrRegReg(Statement, Statement),
    XorLitReg(Statement, Statement),
    XorRegReg(Statement, Statement),
    Inc(Statement),
    Dec(Statement),
    Not(Statement),
    JeqLit(Statement, Statement),
    JeqReg(Statement, Statement),
    JgtLit(Statement, Statement),
    JgtReg(Statement, Statement),
    JneLit(Statement, Statement),
    JneReg(Statement, Statement),
    JgeLit(Statement, Statement),
    JgeReg(Statement, Statement),
    JleLit(Statement, Statement),
    JleReg(Statement, Statement),
    JltLit(Statement, Statement),
    JltReg(Statement, Statement),
    Jmp(Statement),
    PshLit(Statement),
    PshReg(Statement),
    Pop(Statement),
    Call(Statement),
    Ret(ByteOffset),
    Hlt(ByteOffset),
    Int(Statement),
    Rti(ByteOffset),
}

impl Instruction {
    /// Whether the instruction has a first operand.
    pub open spec fn has_lhs(&self) -> bool {
        !(self is Ret || self is Hlt || self is Rti)
    }

    /// Whether the instruction has a second operand.
    pub open spec fn has_rhs(&self) -> bool {
        match self {
            Instruction::MovLitReg(..)
            | Instruction::MovRegReg(..)
            | Instruction::MovRegMem(..)
            | Instruction::MovMemReg(..)
            | Instruction::MovLitMem(..)
            | Instruction::MovRegPtrReg(..)
            | Instruction::AddRegReg(..)
            | Instruction::AddLitReg(..)
            | Instruction::SubRegReg(..)
            | Instruction::SubLitReg(..)
            | Instruction::MulRegReg(..)
            | Instruction::MulLitReg(..)
            | Instruction::LshRegReg(..)
            | Instruction::LshLitReg(..)
            | Instruction::RshRegReg(..)
            | Instruction::RshLitReg(..)
            | Instruction::AndRegReg(..)
            | Instruction::AndLitReg(..)
            | Instruction::OrLitReg(..)
            | Instruction::OrRegReg(..)
            | Instruction::XorLitReg(..)
            | Instruction::XorRegReg(..)
            | Instruction::JeqLit(..)
            | Instruction::JeqReg(..)
            | Instruction::JgtLit(..)
            | Instruction::JgtReg(..)
            | Instruction::JneLit(..)
            | Instruction::JneReg(..)
            | Instruction::JgeLit(..)
            | Instruction::JgeReg(..)
            | Instruction::JleLit(..)
            | Instruction::JleReg(..)
            | Instruction::JltLit(..)
            | Instruction::JltReg(..) => true,
            _ => false,
        }
    }

    /// The first operand.
    pub open spec fn spec_lhs(&self) -> Statement
        recommends
            self.has_lhs(),
    {
        match self {
            Instruction::MovLitReg(lhs, _)
            | Instruction::MovRegReg(lhs, _)
            | Instruction::MovRegMem(lhs, _)
            | Instruction::MovMemReg(lhs, _)
            | Instruction::MovLitMem(lhs, _)
            | Instruction::MovRegPtrReg(lhs, _)
            | Instruction::AddRegReg(lhs, _)
            | Instruction::AddLitReg(lhs, _)
            | Instruction::SubRegReg(lhs, _)
            | Instruction::SubLitReg(lhs, _)
            | Instruction::MulRegReg(lhs, _)
            | Instruction::MulLitReg(lhs, _)
            | Instruction::LshRegReg(lhs, _)
            | Instruction::LshLitReg(lhs, _)
            | Instruction::RshRegReg(lhs, _)
            | Instruction::RshLitReg(lhs, _)
            | Instruction::AndRegReg(lhs, _)
            | Instruction::AndLitReg(lhs, _)
            | Instruction::OrLitReg(lhs, _)
            | Instruction::OrRegReg(lhs, _)
            | Instruction::XorLitReg(lhs, _)
            | Instruction::XorRegReg(lhs, _)
            | Instruction::JeqLit(lhs, _)
            | Instruction::JeqReg(lhs, _)
            | Instruction::JgtLit(lhs, _)
            | Instruction::JgtReg(lhs, _)
            | Instruction::JneLit(lhs, _)
            | Instruction::JneReg(lhs, _)
            | Instruction::JgeLit(lhs, _)
            | Instruction::JgeReg(lhs, _)
            | Instruction::JleLit(lhs, _)
            | Instruction::JleReg(lhs, _)
            | Instruction::JltLit(lhs, _)
            | Instruction::JltReg(lhs, _)
            | Instruction::Inc(lhs)
            | Instruction::Dec(lhs)
            | Instruction::Not(lhs)
            | Instruction::Jmp(lhs)
            | Instruction::PshLit(lhs)
            | Instruction::PshReg(lhs)
            | Instruction::Pop(lhs)
            | Instruction::Call(lhs)
            | Instruction::Int(lhs) => *lhs,
            _ => arbitrary(),
        }
    }

    /// The second operand.
    pub open spec fn spec_rhs(&self) -> Statement
        recommends
            self.has_rhs(),
    {
        match self {
            Instruction::MovLitReg(_, rhs)
            | Instruction::MovRegReg(_, rhs)
            | Instruction::MovRegMem(_, rhs)
            | Instruction::MovMemReg(_, rhs)
            | Instruction::MovLitMem(_, rhs)
            | Instruction::MovRegPtrReg(_, rhs)
            | Instruction::AddRegReg(_, rhs)
            | Instruction::AddLitReg(_, rhs)
            | Instruction::SubRegReg(_, rhs)
            | Instruction::SubLitReg(_, rhs)
            | Instruction::MulRegReg(_, rhs)
            | Instruction::MulLitReg(_, rhs)
            | Instruction::LshRegReg(_, rhs)
            | Instruction::LshLitReg(_, rhs)
            | Instruction::RshRegReg(_, rhs)
            | Instruction::RshLitReg(_, rhs)
            | Instruction::AndRegReg(_, rhs)
            | Instruction::AndLitReg(_, rhs)
            | Instruction::OrLitReg(_, rhs)
            | Instruction::OrRegReg(_, rhs)
            | Instruction::XorLitReg(_, rhs)
            | Instruction::XorRegReg(_, rhs)
            | Instruction::JeqLit(_, rhs)
            | Instruction::JeqReg(_, rhs)
            | Instruction::JgtLit(_, rhs)
            | Instruction::JgtReg(_, rhs)
            | Instruction::JneLit(_, rhs)
            | Instruction::JneReg(_, rhs)
            | Instruction::JgeLit(_, rhs)
            | Instruction::JgeReg(_, rhs)
            | Instruction::JleLit(_, rhs)
            | Instruction::JleReg(_, rhs)
            | Instruction::JltLit(_, rhs)
            | Instruction::JltReg(_, rhs) => *rhs,
            _ => arbitrary(),
        }
    }

    /// The first operand.
    pub fn lhs(&self) -> (s: &Statement)
        requires
            self.has_lhs(),
        ensures
            *s == self.spec_lhs(),
    {
        match self {
            Instruction::MovLitReg(lhs, _)
            | Instruction::MovRegReg(lhs, _)
            | Instruction::MovRegMem(lhs, _)
            | Instruction::MovMemReg(lhs, _)
            | Instruction::MovLitMem(lhs, _)
            | Instruction::MovRegPtrReg(lhs, _)
            | Instruction::AddRegReg(lhs, _)
            | Instruction::AddLitReg(lhs, _)
            | Instruction::SubRegReg(lhs, _)
            | Instruction::SubLitReg(lhs, _)
            | Instruction::MulRegReg(lhs, _)
            | Instruction::MulLitReg(lhs, _)
            | Instruction::LshRegReg(lhs, _)
            | Instruction::LshLitReg(lhs, _)
            | Instruction::RshRegReg(lhs, _)
            | Instruction::RshLitReg(lhs, _)
            | Instruction::AndRegReg(lhs, _)
            | Instruction::AndLitReg(lhs, _)
            | Instruction::OrLitReg(lhs, _)
            | Instruction::OrRegReg(lhs, _)
            | Instruction::XorLitReg(lhs, _)
            | Instruction::XorRegReg(lhs, _)
            | Instruction::JeqLit(lhs, _)
            | Instruction::JeqReg(lhs, _)
            | Instruction::JgtLit(lhs, _)
            | Instruction::JgtReg(lhs, _)
            | Instruction::JneLit(lhs, _)
            | Instruction::JneReg(lhs, _)
            | Instruction::JgeLit(lhs, _)
            | Instruction::JgeReg(lhs, _)
            | Instruction::JleLit(lhs, _)
            | Instruction::JleReg(lhs, _)
            | Instruction::JltLit(lhs, _)
            | Instruction::JltReg(lhs, _)
            | Instruction::Inc(lhs)
            | Instruction::Dec(lhs)
            | Instruction::Not(lhs)
            | Instruction::Jmp(lhs)
            | Instruction::PshLit(lhs)
            | Instruction::PshReg(lhs)
            | Instruction::Pop(lhs)
            | Instruction::Call(lhs)
            | Instruction::Int(lhs) => lhs,
            _ => unreached(),
        }
    }

    /// The second operand.
    pub fn rhs(&self) -> (s: &Statement)
        requires
            self.has_rhs(),
        ensures
            *s == self.spec_rhs(),
    {
        match self {
            Instruction::MovLitReg(_, rhs)
            | Instruction::MovRegReg(_, rhs)
            | Instruction::MovRegMem(_, rhs)
            | Instruction::MovMemReg(_, rhs)
            | Instruction::MovLitMem(_, rhs)
            | Instruction::MovRegPtrReg(_, rhs)
            | Instruction::AddRegReg(_, rhs)
            | Instruction::AddLitReg(_, rhs)
            | Instruction::SubRegReg(_, rhs)
            | Instruction::SubLitReg(_, rhs)
            | Instruction::MulRegReg(_, rhs)
            | Instruction::MulLitReg(_, rhs)
            | Instruction::LshRegReg(_, rhs)
            | Instruction::LshLitReg(_, rhs)
            | Instruction::RshRegReg(_, rhs)
            | Instruction::RshLitReg(_, rhs)
            | Instruction::AndRegReg(_, rhs)
            | Instruction::AndLitReg(_, rhs)
            | Instruction::OrLitReg(_, rhs)
            | Instruction::OrRegReg(_, rhs)
            | Instruction::XorLitReg(_, rhs)
            | Instruction::XorRegReg(_, rhs)
            | Instruction::JeqLit(_, rhs)
            | Instruction::JeqReg(_, rhs)
            | Instruction::JgtLit(_, rhs)
            | Instruction::JgtReg(_, rhs)
            | Instruction::JneLit(_, rhs)
            | Instruction::JneReg(_, rhs)
            | Instruction::JgeLit(_, rhs)
            | Instruction::JgeReg(_, rhs)
            | Instruction::JleLit(_, rhs)
            | Instruction::JleReg(_, rhs)
            | Instruction::JltLit(_, rhs)
            | Instruction::JltReg(_, rhs) => rhs,
            _ => unreached(),
        }
    }

    /// The operation of the machine that the instruction assembles to.
    pub open spec fn spec_opcode(&self) -> OpCode {
        match self {
            Instruction::MovLitReg(..) => OpCode::MovLitReg,
            Instruction::MovRegReg(..) => OpCode::MovRegReg,
            Instruction::MovRegMem(..) => OpCode::MovRegMem,
            Instruction::MovMemReg(..) => OpCode::MovMemReg,
            Instruction::MovLitMem(..) => OpCode::MovLitMem,
            Instruction::MovRegPtrReg(..) => OpCode::MovRegPtrReg,
            Instruction::AddRegReg(..) => OpCode::AddRegReg,
            Instruction::AddLitReg(..) => OpCode::AddLitReg,
            Instruction::SubRegReg(..) => OpCode::SubRegReg,
            Instruction::SubLitReg(..) => OpCode::SubLitReg,
            Instruction::MulRegReg(..) => OpCode::MulRegReg,
            Instruction::MulLitReg(..) => OpCode::MulLitReg,
            Instruction::LshRegReg(..) => OpCode::LshRegReg,
            Instruction::LshLitReg(..) => OpCode::LshLitReg,
            Instruction::RshRegReg(..) => OpCode::RshRegReg,
            Instruction::RshLitReg(..) => OpCode::RshLitReg,
            Instruction::AndRegReg(..) => OpCode::AndRegReg,
            Instruction::AndLitReg(..) => OpCode::AndLitReg,
            Instruction::OrLitReg(..) => OpCode::OrLitReg,
            Instruction::OrRegReg(..) => OpCode::OrRegReg,
            Instruction::XorLitReg(..) => OpCode::XorLitReg,
            Instruction::XorRegReg(..) => OpCode::XorRegReg,
            Instruction::Inc(..) => OpCode::IncReg,
            Instruction::Dec(..) => OpCode::DecReg,
            Instruction::Not(..) => OpCode::Not,
            Instruction::JeqLit(..) => OpCode::JeqLit,
            Instruction::JeqReg(..) => OpCode::JeqReg,
            Instruction::JgtLit(..) => OpCode::JgtLit,
            Instruction::JgtReg(..) => OpCode::JgtReg,
            Instruction::JneLit(..) => OpCode::JneLit,
            Instruction::JneReg(..) => OpCode::JneReg,
            Instruction::JgeLit(..) => OpCode::JgeLit,
            Instruction::JgeReg(..) => OpCode::JgeReg,
            Instruction::JleLit(..) => OpCode::JleLit,
            Instruction::JleReg(..) => OpCode::JleReg,
            Instruction::JltLit(..) => OpCode::JltLit,
            Instruction::JltReg(..) => OpCode::JltReg,
            Instruction::Jmp(..) => OpCode::Jmp,
            Instruction::PshLit(..) => OpCode::PushLit,
            Instruction::PshReg(..) => OpCode::PushReg,
            Instruction::Pop(..) => OpCode::Pop,
            Instruction::Call(..) => OpCode::Call,
            Instruction::Ret(..) => OpCode::Ret,
            Instruction::Hlt(..) => OpCode::Halt,
            Instruction::Int(..) => OpCode::Int,
            Instruction::Rti(..) => OpCode::Rti,
        }
    }

    /// The operation of the machine that the instruction assembles to.
    pub fn opcode(&self) -> (op: OpCode)
        ensures
            op == self.spec_opcode(),
    {
        match self {
            Instruction::MovLitReg(..) => OpCode::MovLitReg,
            Instruction::MovRegReg(..) => OpCode::MovRegReg,
            Instruction::MovRegMem(..) => OpCode::MovRegMem,
            Instruction::MovMemReg(..) => OpCode::MovMemReg,
            Instruction::MovLitMem(..) => OpCode::MovLitMem,
            Instruction::MovRegPtrReg(..) => OpCode::MovRegPtrReg,
            Instruction::AddRegReg(..) => OpCode::AddRegReg,
            Instruction::AddLitReg(..) => OpCode::AddLitReg,
            Instruction::SubRegReg(..) => OpCode::SubRegReg,
            Instruction::SubLitReg(..) => OpCode::SubLitReg,
            Instruction::MulRegReg(..) => OpCode::MulRegReg,
            Instruction::MulLitReg(..) => OpCode::MulLitReg,
            Instruction::LshRegReg(..) => OpCode::LshRegReg,
            Instruction::LshLitReg(..) => OpCode::LshLitReg,
            Instruction::RshRegReg(..) => OpCode::RshRegReg,
            Instruction::RshLitReg(..) => OpCode::RshLitReg,
            Instruction::AndRegReg(..) => OpCode::AndRegReg,
            Instruction::AndLitReg(..) => OpCode::AndLitReg,
            Instruction::OrLitReg(..) => OpCode::OrLitReg,
            Instruction::OrRegReg(..) => OpCode::OrRegReg,
            Instruction::XorLitReg(..) => OpCode::XorLitReg,
            Instruction::XorRegReg(..) => OpCode::XorRegReg,
            Instruction::Inc(..) => OpCode::IncReg,
            Instruction::Dec(..) => OpCode::DecReg,
            Instruction::Not(..) => OpCode::Not,
            Instruction::JeqLit(..) => OpCode::JeqLit,
            Instruction::JeqReg(..) => OpCode::JeqReg,
            Instruction::JgtLit(..) => OpCode::JgtLit,
            Instruction::JgtReg(..) => OpCode::JgtReg,
            Instruction::JneLit(..) => OpCode::JneLit,
            Instruction::JneReg(..) => OpCode::JneReg,
            Instruction::JgeLit(..) => OpCode::JgeLit,
            Instruction::JgeReg(..) => OpCode::JgeReg,
            Instruction::JleLit(..) => OpCode::JleLit,
            Instruction::JleReg(..) => OpCode::JleReg,
            Instruction::JltLit(..) => OpCode::JltLit,
            Instruction::JltReg(..) => OpCode::JltReg,
            Instruction::Jmp(..) => OpCode::Jmp,
            Instruction::PshLit(..) => OpCode::PushLit,
            Instruction::PshReg(..) => OpCode::PushReg,
            Instruction::Pop(..) => OpCode::Pop,
            Instruction::Call(..) => OpCode::Call,
            Instruction::Ret(..) => OpCode::Ret,
            Instruction::Hlt(..) => OpCode::Halt,
            Instruction::Int(..) => OpCode::Int,
            Instruction::Rti(..) => OpCode::Rti,
        }
    }

    /// The shape of the operands.
    pub open spec fn spec_kind(&self) -> InstructionKind {
        match self {
            Instruction::MovLitReg(..) => InstructionKind::LitReg,
            Instruction::MovRegReg(..) => InstructionKind::RegReg,
            Instruction::MovRegMem(..) => InstructionKind::RegMem,
            Instruction::MovMemReg(..) => InstructionKind::MemReg,
            Instruction::MovLitMem(..) => InstructionKind::LitMem,
            Instruction::MovRegPtrReg(..) => InstructionKind::RegPtrReg,
            Instruction::AddRegReg(..) => InstructionKind::RegReg,
            Instruction::AddLitReg(..) => InstructionKind::LitReg,
            Instruction::SubRegReg(..) => InstructionKind::RegReg,
            Instruction::SubLitReg(..) => InstructionKind::LitReg,
            Instruction::MulRegReg(..) => InstructionKind::RegReg,
            Instruction::MulLitReg(..) => InstructionKind::LitReg,
            Instruction::LshRegReg(..) => InstructionKind::RegReg,
            Instruction::LshLitReg(..) => InstructionKind::LitReg,
            Instruction::RshRegReg(..) => InstructionKind::RegReg,
            Instruction::RshLitReg(..) => InstructionKind::LitReg,
            Instruction::AndRegReg(..) => InstructionKind::RegReg,
            Instruction::AndLitReg(..) => InstructionKind::LitReg,
            Instruction::OrLitReg(..) => InstructionKind::LitReg,
            Instruction::OrRegReg(..) => InstructionKind::RegReg,
            Instruction::XorLitReg(..) => InstructionKind::LitReg,
            Instruction::XorRegReg(..) => InstructionKind::RegReg,
            Instruction::Inc(..) => InstructionKind::SingleReg,
            Instruction::Dec(..) => InstructionKind::SingleReg,
            Instruction::Not(..) => InstructionKind::SingleReg,
            Instruction::JeqLit(..) => InstructionKind::LitMem,
            Instruction::JeqReg(..) => InstructionKind::RegMem,
            Instruction::JgtLit(..) => InstructionKind::LitMem,
            Instruction::JgtReg(..) => InstructionKind::RegMem,
            Instruction::JneLit(..) => InstructionKind::LitMem,
            Instruction::JneReg(..) => InstructionKind::RegMem,
            Instruction::JgeLit(..) => InstructionKind::LitMem,
            Instruction::JgeReg(..) => InstructionKind::RegMem,
            Instruction::JleLit(..) => InstructionKind::LitMem,
            Instruction::JleReg(..) => InstructionKind::RegMem,
            Instruction::JltLit(..) => InstructionKind::LitMem,
            Instruction::JltReg(..) => InstructionKind::RegMem,
            Instruction::Jmp(..) => InstructionKind::SingleLit,
            Instruction::PshLit(..) => InstructionKind::SingleLit,
            Instruction::PshReg(..) => InstructionKind::SingleReg,
            Instruction::Pop(..) => InstructionKind::SingleReg,
            Instruction::Call(..) => InstructionKind::SingleLit,
            Instruction::Ret(..) => InstructionKind::NoArgs,
            Instruction::Hlt(..) => InstructionKind::NoArgs,
            Instruction::Int(..) => InstructionKind::SingleLit,
            Instruction::Rti(..) => InstructionKind::NoArgs,
        }
    }

    /// The shape of the operands.
    pub fn kind(&self) -> (k: InstructionKind)
        ensures
            k == self.spec_kind(),
    {
        match self {
            Instruction::MovLitReg(..) => InstructionKind::LitReg,
            Instruction::MovRegReg(..) => InstructionKind::RegReg,
            Instruction::MovRegMem(..) => InstructionKind::RegMem,
            Instruction::MovMemReg(..) => InstructionKind::MemReg,
            Instruction::MovLitMem(..) => InstructionKind::LitMem,
            Instruction::MovRegPtrReg(..) => InstructionKind::RegPtrReg,
            Instruction::AddRegReg(..) => InstructionKind::RegReg,
            Instruction::AddLitReg(..) => InstructionKind::LitReg,
            Instruction::SubRegReg(..) => InstructionKind::RegReg,
            Instruction::SubLitReg(..) => InstructionKind::LitReg,
            Instruction::MulRegReg(..) => InstructionKind::RegReg,
            Instruction::MulLitReg(..) => InstructionKind::LitReg,
            Instruction::LshRegReg(..) => InstructionKind::RegReg,
            Instruction::LshLitReg(..) => InstructionKind::LitReg,
            Instruction::RshRegReg(..) => InstructionKind::RegReg,
            Instruction::RshLitReg(..) => InstructionKind::LitReg,
            Instruction::AndRegReg(..) => InstructionKind::RegReg,
            Instruction::AndLitReg(..) => InstructionKind::LitReg,
            Instruction::OrLitReg(..) => InstructionKind::LitReg,
            Instruction::OrRegReg(..) => InstructionKind::RegReg,
            Instruction::XorLitReg(..) => InstructionKind::LitReg,
            Instruction::XorRegReg(..) => InstructionKind::RegReg,
            Instruction::Inc(..) => InstructionKind::SingleReg,
            Instruction::Dec(..) => InstructionKind::SingleReg,
            Instruction::Not(..) => InstructionKind::SingleReg,
            Instruction::JeqLit(..) => InstructionKind::LitMem,
            Instruction::JeqReg(..) => InstructionKind::RegMem,
            Instruction::JgtLit(..) => InstructionKind::LitMem,
            Instruction::JgtReg(..) => InstructionKind::RegMem,
            Instruction::JneLit(..) => InstructionKind::LitMem,
            Instruction::JneReg(..) => InstructionKind::RegMem,
            Instruction::JgeLit(..) => InstructionKind::LitMem,
            Instruction::JgeReg(..) => InstructionKind::RegMem,
            Instruction::JleLit(..) => InstructionKind::LitMem,
            Instruction::JleReg(..) => InstructionKind::RegMem,
            Instruction::JltLit(..) => InstructionKind::LitMem,
            Instruction::JltReg(..) => InstructionKind::RegMem,
            Instruction::Jmp(..) => InstructionKind::SingleLit,
            Instruction::PshLit(..) => InstructionKind::SingleLit,
            Instruction::PshReg(..) => InstructionKind::SingleReg,
            Instruction::Pop(..) => InstructionKind::SingleReg,
            Instruction::Call(..) => InstructionKind::SingleLit,
            Instruction::Ret(..) => InstructionKind::NoArgs,
            Instruction::Hlt(..) => InstructionKind::NoArgs,
            Instruction::Int(..) => InstructionKind::SingleLit,
            Instruction::Rti(..) => InstructionKind::NoArgs,
        }
    }
}

} // verus!
