//! The MIR shape: functions made of basic blocks, each a list of statements
//! ended by exactly one terminator, over numbered locals.

use vstd::prelude::*;

use crate::types::{
    LiteralV, BinaryOperatorKind, FunctionId, Literal, SoulType, Span, TypeModifier, UnaryOperatorKind,
};
use crate::vec_map::VecMap;

verus! {

#[derive(Debug, Clone, Copy, PartialEq, Eq, Structural)]
pub struct LocalId(pub usize);

#[derive(Debug, Clone, Copy, PartialEq, Eq, Structural)]
pub struct BlockId(pub usize);

/// A constant value baked into MIR.
pub type ConstValue = Literal;

#[derive(Debug, Clone, Copy, PartialEq, Eq, Structural)]
pub enum PlaceElem {
    Field(usize),
    Index(LocalId),
    Deref,
}

/// A local plus a chain of projections into it.
#[derive(Debug, PartialEq, Eq)]
pub struct Place {
    pub local: LocalId,
    pub projection: Vec<PlaceElem>,
}

impl Place {
    /// A bare local with no projection.
    pub fn local(local: LocalId) -> (res: Place)
        ensures
            res.local == local,
            res.projection@ == Seq::<PlaceElem>::empty(),
    {
        Place { local, projection: Vec::new() }
    }

    pub fn duplicate(&self) -> (res: Place)
        ensures
            res.local == self.local,
            res.projection@ == self.projection@,
            res@ == self@,
    {
        let mut projection: Vec<PlaceElem> = Vec::new();
        let mut i: usize = 0;
        while i < self.projection.len()
            invariant
                i <= self.projection@.len(),
                projection@ == self.projection@.take(i as int),
            decreases self.projection.len() - i,
        {
            projection.push(self.projection[i]);
            i = i + 1;
            assert(projection@ =~= self.projection@.take(i as int));
        }
        assert(self.projection@.take(i as int) =~= self.projection@);
        Place { local: self.local, projection }
    }

    /// This place with `elem` appended to its projection.
    pub fn project(self, elem: PlaceElem) -> (res: Place)
        ensures
            res.local == self.local,
            res.projection@ == self.projection@.push(elem),
    {
        let mut place = self;
        place.projection.push(elem);
        place
    }
}

impl Clone for Place {
    fn clone(&self) -> (res: Self)
        ensures
            res.local == self.local,
            res.projection@ == self.projection@,
    {
        self.duplicate()
    }
}

#[derive(Debug, PartialEq, Eq)]
pub enum Operand {
    /// Reading does not invalidate the source.
    Copy(Place),
    /// Reading invalidates the source.
    Move(Place),
    Constant(ConstValue),
}

impl Operand {
    pub fn duplicate(&self) -> (res: Operand)
        ensures
            operand_same(res, *self),
            res@ == self@,
    {
        match self {
            Operand::Copy(p) => Operand::Copy(p.duplicate()),
            Operand::Move(p) => Operand::Move(p.duplicate()),
            Operand::Constant(c) => Operand::Constant(c.clone()),
        }
    }
}

/// Two places name the same storage.
pub open spec fn place_same(a: Place, b: Place) -> bool {
    a.local == b.local && a.projection@ == b.projection@
}

/// Two operands read the same value the same way.
pub open spec fn operand_same(a: Operand, b: Operand) -> bool {
    match (a, b) {
        (Operand::Copy(p), Operand::Copy(q)) => place_same(p, q),
        (Operand::Move(p), Operand::Move(q)) => place_same(p, q),
        (Operand::Constant(c), Operand::Constant(d)) => c == d,
        _ => false,
    }
}

#[derive(Debug, Clone, Copy, PartialEq, Eq, Structural)]
pub enum AggregateKind {
    Struct,
    Tuple,
    Array,
}

#[derive(Debug, PartialEq, Eq)]
pub enum Rvalue {
    Use(Operand),
    BinaryOp(BinaryOperatorKind, Operand, Operand),
    /// An `Add`/`Sub`/`Mul` producing a `(result, overflowed)` tuple.
    CheckedBinaryOp(BinaryOperatorKind, Operand, Operand),
    UnaryOp(UnaryOperatorKind, Operand),
    Ref { mutable: bool, place: Place },
    Aggregate(AggregateKind, Vec<Operand>),
    Cast(Operand, SoulType),
    /// The runtime length of a slice-typed place, always `uint`-typed.
    Len(Place),
}

#[derive(Debug, PartialEq, Eq)]
pub enum Statement {
    Assign(Place, Rvalue),
    MarkMoved(LocalId),
    SetDropFlag(LocalId, bool),
    StorageDead(LocalId),
}

#[derive(Debug, PartialEq, Eq)]
pub enum Terminator {
    Goto(BlockId),
    SwitchInt { discriminant: Operand, targets: Vec<(ConstValue, BlockId)>, otherwise: BlockId },
    Call {
        id: FunctionId,
        arguments: Vec<Operand>,
        destination: Option<Place>,
        target: Option<BlockId>,
    },
    Drop { place: Place, target: BlockId },
    /// Continues at `target` when `cond == expected`, panics with `msg` otherwise.
    Assert { cond: Operand, expected: bool, msg: Operand, target: BlockId, span: Span },
    Return,
    Unreachable,
}

#[derive(Debug, PartialEq, Eq)]
pub struct BasicBlock {
    pub statements: Vec<Statement>,
    pub terminator: Terminator,
}

#[derive(Debug, PartialEq, Eq)]
pub struct LocalDecl {
    pub ty: SoulType,
    pub mutability: TypeModifier,
    pub span: Span,
}

#[derive(Debug, PartialEq, Eq)]
pub struct Function {
    pub id: FunctionId,
    pub locals: Vec<LocalDecl>,
    /// Indexed by block id; a block id that was allocated but never reached holds `None`.
    pub blocks: Vec<Option<BasicBlock>>,
    /// `locals[0..arg_count]` are the parameters.
    pub arg_count: usize,
    /// The local holding the return value; `None` for a `none`-returning function.
    pub return_local: Option<LocalId>,
}

/// An `extern "C"` declaration: a signature with no body.
#[derive(Debug, PartialEq, Eq)]
pub struct ExternFunction {
    pub id: FunctionId,
    pub params: Vec<SoulType>,
    pub return_type: Option<SoulType>,
}

pub struct MirProgram {
    pub functions: VecMap<Function>,
    pub externs: VecMap<ExternFunction>,
}

impl MirProgram {
    pub fn empty() -> (res: MirProgram)
        ensures
            res.functions.slots@.len() == 0,
            res.externs.slots@.len() == 0,
    {
        MirProgram { functions: VecMap::new(), externs: VecMap::new() }
    }
}

// ---------------------------------------------------------------------------
// Mathematical views: the same shapes with sequences in place of vectors.

pub struct PlaceV {
    pub local: LocalId,
    pub projection: Seq<PlaceElem>,
}

pub enum OperandV {
    Copy(PlaceV),
    Move(PlaceV),
    Constant(LiteralV),
}

pub enum RvalueV {
    Use(OperandV),
    BinaryOp(BinaryOperatorKind, OperandV, OperandV),
    CheckedBinaryOp(BinaryOperatorKind, OperandV, OperandV),
    UnaryOp(UnaryOperatorKind, OperandV),
    Ref { mutable: bool, place: PlaceV },
    Aggregate(AggregateKind, Seq<OperandV>),
    Cast(OperandV, SoulType),
    Len(PlaceV),
}

pub enum StatementV {
    Assign(PlaceV, RvalueV),
    MarkMoved(LocalId),
    SetDropFlag(LocalId, bool),
    StorageDead(LocalId),
}

pub enum TerminatorV {
    Goto(BlockId),
    SwitchInt { discriminant: OperandV, targets: Seq<(ConstValue, BlockId)>, otherwise: BlockId },
    Call { id: FunctionId, arguments: Seq<OperandV>, destination: Option<PlaceV>, target: Option<BlockId> },
    Drop { place: PlaceV, target: BlockId },
    Assert { cond: OperandV, expected: bool, msg: OperandV, target: BlockId, span: Span },
    Return,
    Unreachable,
}

pub struct BasicBlockV {
    pub statements: Seq<StatementV>,
    pub terminator: TerminatorV,
}

impl View for Place {
    type V = PlaceV;

    open spec fn view(&self) -> PlaceV {
        PlaceV { local: self.local, projection: self.projection@ }
    }
}

impl View for Operand {
    type V = OperandV;

    open spec fn view(&self) -> OperandV {
        match self {
            Operand::Copy(p) => OperandV::Copy(p@),
            Operand::Move(p) => OperandV::Move(p@),
            Operand::Constant(c) => OperandV::Constant(c@),
        }
    }
}

pub open spec fn operands_view(os: Seq<Operand>) -> Seq<OperandV> {
    os.map_values(|o: Operand| o@)
}

impl View for Rvalue {
    type V = RvalueV;

    open spec fn view(&self) -> RvalueV {
        match self {
            Rvalue::Use(o) => RvalueV::Use(o@),
            Rvalue::BinaryOp(op, a, b) => RvalueV::BinaryOp(*op, a@, b@),
            Rvalue::CheckedBinaryOp(op, a, b) => RvalueV::CheckedBinaryOp(*op, a@, b@),
            Rvalue::UnaryOp(op, a) => RvalueV::UnaryOp(*op, a@),
            Rvalue::Ref { mutable, place } => RvalueV::Ref { mutable: *mutable, place: place@ },
            Rvalue::Aggregate(kind, os) => RvalueV::Aggregate(*kind, operands_view(os@)),
            Rvalue::Cast(o, ty) => RvalueV::Cast(o@, *ty),
            Rvalue::Len(p) => RvalueV::Len(p@),
        }
    }
}

impl View for Statement {
    type V = StatementV;

    open spec fn view(&self) -> StatementV {
        match self {
            Statement::Assign(p, r) => StatementV::Assign(p@, r@),
            Statement::MarkMoved(l) => StatementV::MarkMoved(*l),
            Statement::SetDropFlag(l, b) => StatementV::SetDropFlag(*l, *b),
            Statement::StorageDead(l) => StatementV::StorageDead(*l),
        }
    }
}

pub open spec fn statements_view(ss: Seq<Statement>) -> Seq<StatementV> {
    ss.map_values(|s: Statement| s@)
}

impl View for Terminator {
    type V = TerminatorV;

    open spec fn view(&self) -> TerminatorV {
        match self {
            Terminator::Goto(b) => TerminatorV::Goto(*b),
            Terminator::SwitchInt { discriminant, targets, otherwise } => TerminatorV::SwitchInt {
                discriminant: discriminant@,
                targets: targets@,
                otherwise: *otherwise,
            },
            Terminator::Call { id, arguments, destination, target } => TerminatorV::Call {
                id: *id,
                arguments: operands_view(arguments@),
                destination: match destination {
                    Some(p) => Some(p@),
                    None => None,
                },
                target: *target,
            },
            Terminator::Drop { place, target } => TerminatorV::Drop { place: place@, target: *target },
            Terminator::Assert { cond, expected, msg, target, span } => TerminatorV::Assert {
                cond: cond@,
                expected: *expected,
                msg: msg@,
                target: *target,
                span: *span,
            },
            Terminator::Return => TerminatorV::Return,
            Terminator::Unreachable => TerminatorV::Unreachable,
        }
    }
}

impl View for BasicBlock {
    type V = BasicBlockV;

    open spec fn view(&self) -> BasicBlockV {
        BasicBlockV { statements: statements_view(self.statements@), terminator: self.terminator@ }
    }
}

/// A bare local as a place.
pub open spec fn local_place(l: LocalId) -> PlaceV {
    PlaceV { local: l, projection: Seq::empty() }
}

// ---------------------------------------------------------------------------
// Well-formedness: every local and block a piece of MIR names exists.

pub open spec fn place_wf(p: Place, nlocals: nat) -> bool {
    &&& p.local.0 < nlocals
    &&& forall|i: int|
        0 <= i < p.projection@.len() ==> match #[trigger] p.projection@[i] {
            PlaceElem::Index(l) => l.0 < nlocals,
            _ => true,
        }
}

pub open spec fn operand_wf(o: Operand, nlocals: nat) -> bool {
    match o {
        Operand::Copy(p) => place_wf(p, nlocals),
        Operand::Move(p) => place_wf(p, nlocals),
        Operand::Constant(_) => true,
    }
}

pub open spec fn operands_wf(os: Seq<Operand>, nlocals: nat) -> bool {
    forall|i: int| 0 <= i < os.len() ==> operand_wf(#[trigger] os[i], nlocals)
}

pub open spec fn rvalue_wf(r: Rvalue, nlocals: nat) -> bool {
    match r {
        Rvalue::Use(o) => operand_wf(o, nlocals),
        Rvalue::BinaryOp(_, a, b) => operand_wf(a, nlocals) && operand_wf(b, nlocals),
        Rvalue::CheckedBinaryOp(_, a, b) => operand_wf(a, nlocals) && operand_wf(b, nlocals),
        Rvalue::UnaryOp(_, a) => operand_wf(a, nlocals),
        Rvalue::Ref { place, .. } => place_wf(place, nlocals),
        Rvalue::Aggregate(_, os) => operands_wf(os@, nlocals),
        Rvalue::Cast(o, _) => operand_wf(o, nlocals),
        Rvalue::Len(p) => place_wf(p, nlocals),
    }
}

pub open spec fn statement_wf(s: Statement, nlocals: nat) -> bool {
    match s {
        Statement::Assign(p, r) => place_wf(p, nlocals) && rvalue_wf(r, nlocals),
        Statement::MarkMoved(l) => l.0 < nlocals,
        Statement::SetDropFlag(l, _) => l.0 < nlocals,
        Statement::StorageDead(l) => l.0 < nlocals,
    }
}

pub open spec fn statements_wf(ss: Seq<Statement>, nlocals: nat) -> bool {
    forall|i: int| 0 <= i < ss.len() ==> statement_wf(#[trigger] ss[i], nlocals)
}

pub open spec fn terminator_wf(t: Terminator, nlocals: nat, nblocks: nat) -> bool {
    match t {
        Terminator::Goto(b) => b.0 < nblocks,
        Terminator::SwitchInt { discriminant, targets, otherwise } => {
            &&& operand_wf(discriminant, nlocals)
            &&& otherwise.0 < nblocks
            &&& forall|i: int| 0 <= i < targets@.len() ==> (#[trigger] targets@[i]).1.0 < nblocks
        },
        Terminator::Call { arguments, destination, target, .. } => {
            &&& operands_wf(arguments@, nlocals)
            &&& (destination matches Some(p) ==> place_wf(p, nlocals))
            &&& (target matches Some(b) ==> b.0 < nblocks)
        },
        Terminator::Drop { place, target } => place_wf(place, nlocals) && target.0 < nblocks,
        Terminator::Assert { cond, msg, target, .. } => {
            &&& operand_wf(cond, nlocals)
            &&& operand_wf(msg, nlocals)
            &&& target.0 < nblocks
        },
        Terminator::Return => true,
        Terminator::Unreachable => true,
    }
}

pub open spec fn block_wf(b: BasicBlock, nlocals: nat, nblocks: nat) -> bool {
    statements_wf(b.statements@, nlocals) && terminator_wf(b.terminator, nlocals, nblocks)
}

pub open spec fn blocks_wf(bs: Seq<Option<BasicBlock>>, nlocals: nat) -> bool {
    forall|i: int|
        0 <= i < bs.len() ==> (#[trigger] bs[i] matches Some(b) ==> block_wf(b, nlocals, bs.len()))
}

impl Function {
    /// Every local and block this function's code names is declared, the
    /// return local is one of its locals, and the entry block `bb0` exists.
    pub open spec fn wf(&self) -> bool {
        &&& self.arg_count <= self.locals@.len()
        &&& (self.return_local matches Some(l) ==> l.0 < self.locals@.len())
        &&& self.blocks@.len() > 0
        &&& self.blocks@[0] is Some
        &&& blocks_wf(self.blocks@, self.locals@.len())
    }
}

// ---------------------------------------------------------------------------
// Well-formedness only depends on lower bounds: it survives more locals and blocks.

pub proof fn lemma_place_wf_mono(p: Place, n: nat, m: nat)
    requires
        place_wf(p, n),
        n <= m,
    ensures
        place_wf(p, m),
{
    assert forall|i: int| 0 <= i < p.projection@.len() implies match #[trigger] p.projection@[i] {
        PlaceElem::Index(l) => l.0 < m,
        _ => true,
    } by {
        match p.projection@[i] {
            PlaceElem::Index(l) => {},
            _ => {},
        }
    }
}

pub proof fn lemma_operand_wf_mono(o: Operand, n: nat, m: nat)
    requires
        operand_wf(o, n),
        n <= m,
    ensures
        operand_wf(o, m),
{
    match o {
        Operand::Copy(p) => lemma_place_wf_mono(p, n, m),
        Operand::Move(p) => lemma_place_wf_mono(p, n, m),
        Operand::Constant(_) => {},
    }
}

pub proof fn lemma_operands_wf_mono(os: Seq<Operand>, n: nat, m: nat)
    requires
        operands_wf(os, n),
        n <= m,
    ensures
        operands_wf(os, m),
{
    assert forall|i: int| 0 <= i < os.len() implies operand_wf(#[trigger] os[i], m) by {
        lemma_operand_wf_mono(os[i], n, m);
    }
}

pub proof fn lemma_rvalue_wf_mono(r: Rvalue, n: nat, m: nat)
    requires
        rvalue_wf(r, n),
        n <= m,
    ensures
        rvalue_wf(r, m),
{
    match r {
        Rvalue::Use(o) => lemma_operand_wf_mono(o, n, m),
        Rvalue::BinaryOp(_, a, b) => {
            lemma_operand_wf_mono(a, n, m);
            lemma_operand_wf_mono(b, n, m);
        },
        Rvalue::CheckedBinaryOp(_, a, b) => {
            lemma_operand_wf_mono(a, n, m);
            lemma_operand_wf_mono(b, n, m);
        },
        Rvalue::UnaryOp(_, a) => lemma_operand_wf_mono(a, n, m),
        Rvalue::Ref { place, .. } => lemma_place_wf_mono(place, n, m),
        Rvalue::Aggregate(_, os) => lemma_operands_wf_mono(os@, n, m),
        Rvalue::Cast(o, _) => lemma_operand_wf_mono(o, n, m),
        Rvalue::Len(p) => lemma_place_wf_mono(p, n, m),
    }
}

pub proof fn lemma_statement_wf_mono(s: Statement, n: nat, m: nat)
    requires
        statement_wf(s, n),
        n <= m,
    ensures
        statement_wf(s, m),
{
    match s {
        Statement::Assign(p, r) => {
            lemma_place_wf_mono(p, n, m);
            lemma_rvalue_wf_mono(r, n, m);
        },
        _ => {},
    }
}

pub proof fn lemma_statements_wf_mono(ss: Seq<Statement>, n: nat, m: nat)
    requires
        statements_wf(ss, n),
        n <= m,
    ensures
        statements_wf(ss, m),
{
    assert forall|i: int| 0 <= i < ss.len() implies statement_wf(#[trigger] ss[i], m) by {
        lemma_statement_wf_mono(ss[i], n, m);
    }
}

pub proof fn lemma_terminator_wf_mono(t: Terminator, n: nat, m: nat, nb: nat, mb: nat)
    requires
        terminator_wf(t, n, nb),
        n <= m,
        nb <= mb,
    ensures
        terminator_wf(t, m, mb),
{
    match t {
        Terminator::SwitchInt { discriminant, targets, otherwise } => {
            lemma_operand_wf_mono(discriminant, n, m);
            assert forall|i: int| 0 <= i < targets@.len() implies (#[trigger] targets@[i]).1.0 < mb by {
            }
        },
        Terminator::Call { arguments, destination, target, .. } => {
            lemma_operands_wf_mono(arguments@, n, m);
            if let Some(p) = destination {
                lemma_place_wf_mono(p, n, m);
            }
        },
        Terminator::Drop { place, target } => lemma_place_wf_mono(place, n, m),
        Terminator::Assert { cond, msg, target, .. } => {
            lemma_operand_wf_mono(cond, n, m);
            lemma_operand_wf_mono(msg, n, m);
        },
        _ => {},
    }
}

pub proof fn lemma_block_wf_mono(b: BasicBlock, n: nat, m: nat, nb: nat, mb: nat)
    requires
        block_wf(b, n, nb),
        n <= m,
        nb <= mb,
    ensures
        block_wf(b, m, mb),
{
    lemma_statements_wf_mono(b.statements@, n, m);
    lemma_terminator_wf_mono(b.terminator, n, m, nb, mb);
}

/// Growing the local count, and the block table by slots that are still
/// empty, keeps every recorded block well-formed.
pub proof fn lemma_blocks_wf_grow(bs: Seq<Option<BasicBlock>>, cs: Seq<Option<BasicBlock>>, n: nat, m: nat)
    requires
        blocks_wf(bs, n),
        n <= m,
        bs.len() <= cs.len(),
        forall|i: int| 0 <= i < bs.len() ==> cs[i] == bs[i],
        forall|i: int| bs.len() <= i < cs.len() ==> cs[i] is None,
    ensures
        blocks_wf(cs, m),
{
    assert forall|i: int| 0 <= i < cs.len() implies (#[trigger] cs[i] matches Some(b) ==> block_wf(b, m, cs.len())) by {
        if i < bs.len() {
            if let Some(b) = bs[i] {
                lemma_block_wf_mono(b, n, m, bs.len(), cs.len());
            }
        }
    }
}

} // verus!
