//! Lowering one type-checked function body into MIR.
//!
//! Only a slice of the language is supported; everything outside it is
//! reported as a `Fault` rather than mis-lowered. A call is a block
//! terminator, so lowering keeps a cursor on the block currently being
//! filled (`current`) and seals it whenever control flow leaves it.

use vstd::prelude::*;

use crate::ast::{find_struct, DeclareStore, Struct};
use crate::fault::{body_fault, severity_ok, Fault, MirErrorKind, MirResult};
use crate::lower::semantics::{blocks_view, st_alloc, st_bind, st_new_block, st_push, st_seal, LowerState};
use crate::mir::{
    statements_view, BasicBlockV, StatementV, block_wf, blocks_wf, lemma_blocks_wf_grow, statement_wf, lemma_statements_wf_mono, statements_wf, terminator_wf, BasicBlock,
    BlockId, LocalDecl, LocalId, Operand, Place, PlaceElem, Statement, Terminator,
};
use crate::types::{ArrayKind, PrimitiveTypes, SoulType, Span, TypeModifier};

pub mod control;
pub mod expression;
pub mod place;
pub mod semantics;
pub mod statement;

verus! {

/// What the caller configured about checks and the target platform.
#[derive(Debug, Clone, Copy, PartialEq, Eq, Structural)]
pub struct LoweringOptions {
    /// Guard every slice index with a bounds check.
    pub check_index_out_of_bounds: bool,
    /// Trap on integer overflow and on division by zero.
    pub check_overflow: bool,
    /// The width of `int`/`uint` on the target.
    pub pointer_bits: u32,
    /// The width of C's `int` on the target.
    pub c_int_bits: u32,
}

/// The `(header, exit)` blocks of an enclosing loop.
#[derive(Debug, Clone, Copy, PartialEq, Eq, Structural)]
pub struct LoopTargets {
    pub header: BlockId,
    pub exit: BlockId,
}

pub struct FunctionLowerer<'a> {
    pub declares: &'a DeclareStore,
    pub options: LoweringOptions,
    /// The module the function being lowered is declared in.
    pub module: Option<usize>,
    /// Which local each parameter or variable binding (by node id) lives in.
    pub node_to_local: Vec<(usize, LocalId)>,
    pub locals: Vec<LocalDecl>,
    /// One slot per allocated block id; filled when the block is sealed.
    pub blocks: Vec<Option<BasicBlock>>,
    /// The block being filled, or `None` once every path has left it.
    pub current: Option<BlockId>,
    /// The statements of `current` so far.
    pub statements: Vec<Statement>,
    pub loops: Vec<LoopTargets>,
}

/// The local a node id was last bound to.
pub open spec fn spec_lookup(pairs: Seq<(usize, LocalId)>, node: usize) -> Option<LocalId>
    decreases pairs.len(),
{
    if pairs.len() == 0 {
        None
    } else if pairs.last().0 == node {
        Some(pairs.last().1)
    } else {
        spec_lookup(pairs.drop_last(), node)
    }
}

pub proof fn lemma_lookup_bounded(pairs: Seq<(usize, LocalId)>, node: usize, n: nat)
    requires
        forall|i: int| 0 <= i < pairs.len() ==> (#[trigger] pairs[i]).1.0 < n,
    ensures
        spec_lookup(pairs, node) matches Some(l) ==> l.0 < n,
    decreases pairs.len(),
{
    if pairs.len() > 0 && pairs.last().0 != node {
        lemma_lookup_bounded(pairs.drop_last(), node, n);
    }
}

/// A type this lowering slice can give a local: a primitive, a struct
/// declared in the function's module, a fixed-size array or a slice.
pub open spec fn lowerable(declares: DeclareStore, module: Option<usize>, ty: SoulType) -> bool {
    match ty {
        SoulType::Primitive(_) => true,
        SoulType::Array(kind, _) => kind is StackArray || kind is MutSlice || kind is ConstSlice,
        SoulType::Stub(name) => module matches Some(m) && find_struct(
            declares.structs@,
            name@,
            m,
            0,
        ) is Some,
        _ => false,
    }
}

/// The struct declaration a `Stub` type names in `module`.
pub open spec fn spec_resolve_struct(declares: DeclareStore, module: Option<usize>, ty: SoulType) -> Option<Struct> {
    match ty {
        SoulType::Stub(name) => match module {
            Some(m) => match find_struct(declares.structs@, name@, m, 0) {
                Some(i) => Some(declares.structs@[i].decl),
                None => None,
            },
            None => None,
        },
        _ => None,
    }
}

/// The type reached by one projection step from `ty`.
pub open spec fn project_step(declares: DeclareStore, module: Option<usize>, ty: Option<SoulType>, elem: PlaceElem) -> Option<SoulType> {
    match ty {
        None => None,
        Some(t) => match elem {
            PlaceElem::Field(index) => match t {
                SoulType::Tuple(list) => if index < list.types().len() {
                    Some(list.types()[index as int])
                } else {
                    None
                },
                _ => match spec_resolve_struct(declares, module, t) {
                    Some(s) => if index < s.fields@.len() {
                        s.fields@[index as int].ty
                    } else {
                        None
                    },
                    None => None,
                },
            },
            PlaceElem::Index(_) => match t {
                SoulType::Array(_, of) => Some(*of),
                _ => None,
            },
            PlaceElem::Deref => None,
        },
    }
}

/// The type reached by following `proj` from `ty`.
pub open spec fn project_type(declares: DeclareStore, module: Option<usize>, ty: Option<SoulType>, proj: Seq<PlaceElem>) -> Option<SoulType>
    decreases proj.len(),
{
    if proj.len() == 0 {
        ty
    } else {
        project_step(declares, module, project_type(declares, module, ty, proj.drop_last()), proj.last())
    }
}

pub proof fn lemma_project_none(declares: DeclareStore, module: Option<usize>, proj: Seq<PlaceElem>)
    ensures
        project_type(declares, module, None, proj) is None,
    decreases proj.len(),
{
    if proj.len() > 0 {
        lemma_project_none(declares, module, proj.drop_last());
    }
}

pub proof fn lemma_project_suffix_none(declares: DeclareStore, module: Option<usize>, ty: Option<SoulType>, proj: Seq<PlaceElem>, i: int)
    requires
        0 <= i <= proj.len(),
        project_type(declares, module, ty, proj.take(i)) is None,
    ensures
        project_type(declares, module, ty, proj) is None,
    decreases proj.len() - i,
{
    if i < proj.len() {
        assert(proj.take(i + 1).drop_last() =~= proj.take(i));
        lemma_project_suffix_none(declares, module, ty, proj, i + 1);
    } else {
        assert(proj.take(i) =~= proj);
    }
}

impl<'a> FunctionLowerer<'a> {
    /// The lowering state is consistent: everything recorded names an
    /// existing local or block, the cursor points at an allocated block that
    /// has not been sealed yet, and the entry block is either sealed or the
    /// cursor.
    pub open spec fn inv(&self) -> bool {
        &&& forall|i: int|
            0 <= i < self.node_to_local@.len() ==> (#[trigger] self.node_to_local@[i]).1.0
                < self.locals@.len()
        &&& (self.current matches Some(b) ==> b.0 < self.blocks@.len() && self.blocks@[b.0 as int] is None)
        &&& forall|i: int|
            0 <= i < self.loops@.len() ==> (#[trigger] self.loops@[i]).header.0 < self.blocks@.len()
                && self.loops@[i].exit.0 < self.blocks@.len()
        &&& blocks_wf(self.blocks@, self.locals@.len())
        &&& statements_wf(self.statements@, self.locals@.len())
        &&& (self.blocks@.len() > 0 ==> (self.blocks@[0] is Some || self.current == Some(BlockId(0))))
    }

    pub open spec fn spec_lookup_local(&self, node: usize) -> Option<LocalId> {
        spec_lookup(self.node_to_local@, node)
    }

    /// The declared type of the local a place starts from.
    pub open spec fn spec_start_type(&self, place: Place) -> Option<SoulType> {
        if place.local.0 < self.locals@.len() {
            Some(self.locals@[place.local.0 as int].ty)
        } else {
            None
        }
    }

    pub open spec fn spec_place_type(&self, place: Place) -> Option<SoulType> {
        project_type(*self.declares, self.module, self.spec_start_type(place), place.projection@)
    }

    pub open spec fn spec_operand_type(&self, operand: Operand) -> Option<SoulType> {
        match operand {
            Operand::Copy(p) => self.spec_place_type(p),
            Operand::Move(p) => self.spec_place_type(p),
            Operand::Constant(_) => None,
        }
    }
}

/// How one lowering step may change the state: it stays consistent, keeps
/// its configuration and loop stack, only appends locals and blocks, never
/// rewrites a sealed block, and never seals an allocated block other than
/// the cursor.
pub open spec fn evolves_base(old: FunctionLowerer, new: FunctionLowerer) -> bool {
    &&& new.inv()
    &&& new.declares == old.declares
    &&& new.options == old.options
    &&& new.module == old.module
    &&& new.loops@ == old.loops@
    &&& old.locals@.len() <= new.locals@.len()
    &&& forall|i: int| 0 <= i < old.locals@.len() ==> new.locals@[i] == old.locals@[i]
    &&& old.blocks@.len() <= new.blocks@.len()
    &&& forall|i: int|
        0 <= i < old.blocks@.len() && old.blocks@[i] is None && old.current != Some(BlockId(i as usize))
            ==> new.blocks@[i] is None
    &&& forall|i: int| 0 <= i < old.blocks@.len() && old.blocks@[i] is Some ==> new.blocks@[i] == old.blocks@[i]
}

/// The cursor ends where it started, nowhere, or on a block allocated since.
pub open spec fn cursor_ok(old: FunctionLowerer, new: FunctionLowerer) -> bool {
    match new.current {
        None => true,
        Some(c) => new.current == old.current || c.0 >= old.blocks@.len(),
    }
}

pub open spec fn evolves(old: FunctionLowerer, new: FunctionLowerer) -> bool {
    evolves_base(old, new) && cursor_ok(old, new)
}

pub broadcast proof fn lemma_evolves_trans(a: FunctionLowerer, b: FunctionLowerer, c: FunctionLowerer)
    requires
        #[trigger] evolves(a, b),
        #[trigger] evolves(b, c),
    ensures
        evolves(a, c),
{
}

/// A step that may move the cursor to a block its caller allocated (sealing)
/// still composes, as long as the caller's overall cursor move is allowed.
pub proof fn lemma_evolves_then_base(a: FunctionLowerer, b: FunctionLowerer, c: FunctionLowerer)
    requires
        evolves(a, b),
        evolves_base(b, c),
        cursor_ok(a, c),
    ensures
        evolves(a, c),
{
}

pub proof fn lemma_evolves_refl(a: FunctionLowerer)
    requires
        a.inv(),
    ensures
        evolves(a, a),
{
}

impl<'a> FunctionLowerer<'a> {
    pub fn new(declares: &'a DeclareStore, options: LoweringOptions) -> (res: FunctionLowerer<'a>)
        ensures
            res.inv(),
            res.declares == declares,
            res.options == options,
            res.blocks@.len() == 0,
            res.locals@.len() == 0,
            res.current is None,
            res.loops@.len() == 0,
    {
        FunctionLowerer {
            declares,
            options,
            module: None,
            node_to_local: Vec::new(),
            locals: Vec::new(),
            blocks: Vec::new(),
            current: None,
            statements: Vec::new(),
            loops: Vec::new(),
        }
    }

    /// Allocates a fresh, not yet sealed block id.
    pub fn new_block(&mut self) -> (id: BlockId)
        requires
            old(self).inv(),
            old(self).blocks@.len() > 0,
        ensures
            evolves(*old(self), *final(self)),
            id.0 == old(self).blocks@.len(),
            final(self).blocks@ == old(self).blocks@.push(None),
            final(self).locals@ == old(self).locals@,
            final(self).current == old(self).current,
            final(self).statements@ == old(self).statements@,
            final(self).node_to_local@ == old(self).node_to_local@,
            (final(self).st(), id) == st_new_block(old(self).st()),
    {
        let id = BlockId(self.blocks.len());
        let ghost before = self.blocks@;
        self.blocks.push(None);
        proof {
            lemma_blocks_wf_grow(before, self.blocks@, self.locals@.len(), self.locals@.len());
            assert(blocks_view(self.blocks@) =~= blocks_view(before).push(None));
        }
        id
    }

    /// Allocates the entry block `bb0` and puts the cursor on it.
    pub fn open_entry_block(&mut self) -> (id: BlockId)
        requires
            old(self).inv(),
            old(self).blocks@.len() == 0,
            old(self).statements@.len() == 0,
        ensures
            evolves(*old(self), *final(self)),
            id == BlockId(0),
            final(self).blocks@ == seq![None::<BasicBlock>],
            final(self).current == Some(id),
            final(self).locals@ == old(self).locals@,
            final(self).statements@ == old(self).statements@,
            final(self).node_to_local@ == old(self).node_to_local@,
            final(self).st() == (LowerState { blocks: seq![None], current: Some(BlockId(0)), ..old(self).st() }),
    {
        let id = BlockId(self.blocks.len());
        self.blocks.push(None);
        self.current = Some(id);
        assert(self.blocks@ =~= seq![None::<BasicBlock>]);
        assert(blocks_view(self.blocks@) =~= seq![None::<BasicBlockV>]);
        id
    }

    pub fn is_terminated(&self) -> (res: bool)
        ensures
            res == self.current is None,
    {
        self.current.is_none()
    }

    /// Ends the block under the cursor with `terminator` (if there is one)
    /// and moves the cursor to `next`.
    pub fn seal(&mut self, terminator: Terminator, next: Option<BlockId>)
        requires
            old(self).inv(),
            terminator_wf(terminator, old(self).locals@.len(), old(self).blocks@.len()),
            next matches Some(b) ==> b.0 < old(self).blocks@.len() && old(self).blocks@[b.0 as int] is None
                && old(self).current != next,
        ensures
            evolves_base(*old(self), *final(self)),
            final(self).current == next,
            final(self).statements@.len() == 0,
            final(self).locals@ == old(self).locals@,
            final(self).blocks@.len() == old(self).blocks@.len(),
            final(self).node_to_local@ == old(self).node_to_local@,
            old(self).current matches Some(c) ==> final(self).blocks@ == old(self).blocks@.update(
                c.0 as int,
                Some(BasicBlock { statements: old(self).statements, terminator }),
            ),
            old(self).current is None ==> final(self).blocks@ == old(self).blocks@,
            final(self).st() == st_seal(old(self).st(), terminator@, next),
    {
        if let Some(current) = self.current {
            let mut statements: Vec<Statement> = Vec::new();
            std::mem::swap(&mut statements, &mut self.statements);
            let ghost before = self.blocks@;
            let block = BasicBlock { statements, terminator };
            proof {
                assert(block_wf(block, self.locals@.len(), before.len()));
            }
            self.blocks.set(current.0, Some(block));
            proof {
                assert(blocks_view(self.blocks@) =~= blocks_view(before).update(
                    current.0 as int,
                    Some(BasicBlockV { statements: statements_view(old(self).statements@), terminator: terminator@ }),
                ));
                assert forall|i: int| 0 <= i < self.blocks@.len() implies (#[trigger] self.blocks@[i] matches Some(b)
                    ==> block_wf(b, self.locals@.len(), self.blocks@.len())) by {
                    if i != current.0 {
                        assert(self.blocks@[i] == before[i]);
                    }
                }
            }
        } else {
            self.statements = Vec::new();
        }
        self.current = next;
        assert(statements_view(self.statements@) =~= Seq::<StatementV>::empty());
    }

    /// Declares a new local of type `ty`.
    pub fn alloc_local(&mut self, ty: SoulType, mutability: TypeModifier, span: Span) -> (id: LocalId)
        requires
            old(self).inv(),
        ensures
            evolves(*old(self), *final(self)),
            id.0 == old(self).locals@.len(),
            final(self).locals@ == old(self).locals@.push(LocalDecl { ty, mutability, span }),
            final(self).blocks@ == old(self).blocks@,
            final(self).current == old(self).current,
            final(self).statements@ == old(self).statements@,
            final(self).node_to_local@ == old(self).node_to_local@,
            (final(self).st(), id) == st_alloc(old(self).st(), LocalDecl { ty, mutability, span }),
    {
        let id = LocalId(self.locals.len());
        self.locals.push(LocalDecl { ty, mutability, span });
        proof {
            let n = old(self).locals@.len();
            let m = self.locals@.len();
            lemma_blocks_wf_grow(self.blocks@, self.blocks@, n, m);
            lemma_statements_wf_mono(self.statements@, n, m);
        }
        id
    }

    /// Appends `statement` to the block under the cursor.
    pub fn push_statement(&mut self, statement: Statement)
        requires
            old(self).inv(),
            statement_wf(statement, old(self).locals@.len()),
        ensures
            evolves(*old(self), *final(self)),
            final(self).statements@ == old(self).statements@.push(statement),
            final(self).locals@ == old(self).locals@,
            final(self).blocks@ == old(self).blocks@,
            final(self).current == old(self).current,
            final(self).node_to_local@ == old(self).node_to_local@,
            final(self).st() == st_push(old(self).st(), statement@),
    {
        self.statements.push(statement);
        assert(statements_view(self.statements@) =~= statements_view(old(self).statements@).push(statement@));
    }

    /// Records that the binding `node` lives in `local`.
    pub fn bind(&mut self, node: usize, local: LocalId)
        requires
            old(self).inv(),
            local.0 < old(self).locals@.len(),
        ensures
            evolves(*old(self), *final(self)),
            final(self).node_to_local@ == old(self).node_to_local@.push((node, local)),
            final(self).locals@ == old(self).locals@,
            final(self).blocks@ == old(self).blocks@,
            final(self).current == old(self).current,
            final(self).statements@ == old(self).statements@,
            final(self).st() == st_bind(old(self).st(), node, local),
    {
        self.node_to_local.push((node, local));
    }

    /// The local the binding `node` was last bound to.
    pub fn lookup_local(&self, node: usize) -> (res: Option<LocalId>)
        requires
            self.inv(),
        ensures
            res == self.spec_lookup_local(node),
            res matches Some(l) ==> l.0 < self.locals@.len(),
    {
        proof {
            lemma_lookup_bounded(self.node_to_local@, node, self.locals@.len());
        }
        let mut i: usize = self.node_to_local.len();
        assert(self.node_to_local@.take(i as int) =~= self.node_to_local@);
        while i > 0
            invariant
                self.inv(),
                i <= self.node_to_local@.len(),
                spec_lookup(self.node_to_local@, node) == spec_lookup(self.node_to_local@.take(i as int), node),
            decreases i,
        {
            let entry = self.node_to_local[i - 1];
            assert(self.node_to_local@.take(i as int).drop_last() =~= self.node_to_local@.take(i - 1));
            if entry.0 == node {
                assert(self.node_to_local@.take(i as int).last() == entry);
                assert(self.node_to_local@[i - 1].1.0 < self.locals@.len());
                return Some(entry.1);
            }
            i = i - 1;
        }
        None
    }

    /// The struct declaration a `Stub` type names in this function's module.
    pub fn resolve_struct(&self, ty: &SoulType) -> (res: Option<&'a Struct>)
        ensures
            res matches Some(s) ==> spec_resolve_struct(*self.declares, self.module, *ty) == Some(*s),
            res is None ==> spec_resolve_struct(*self.declares, self.module, *ty) is None,
    {
        let declares: &'a DeclareStore = self.declares;
        match ty {
            SoulType::Stub(name) => match self.module {
                Some(m) => declares.get_struct_by_name(name, m),
                None => None,
            },
            _ => None,
        }
    }

    /// Accepts the types this slice can give a local; anything else is a
    /// `NonPrimitiveType` fault at `span`.
    pub fn require_lowerable(&self, ty: &SoulType, span: Span) -> (res: MirResult<()>)
        ensures
            severity_ok(res),
            body_fault(res),
            res is Ok <==> lowerable(*self.declares, self.module, *ty),
            res matches Err(f) ==> f == Fault::error(MirErrorKind::NonPrimitiveType { ty: *ty }, Some(span)),
    {
        let is_lowerable_array = match ty {
            SoulType::Array(kind, _) => match kind {
                ArrayKind::StackArray(_) | ArrayKind::MutSlice | ArrayKind::ConstSlice => true,
                _ => false,
            },
            _ => false,
        };
        let is_primitive = match ty {
            SoulType::Primitive(_) => true,
            _ => false,
        };
        if is_primitive || self.resolve_struct(ty).is_some() || is_lowerable_array {
            return Ok(());
        }
        Err(Fault::error_with_kind(MirErrorKind::NonPrimitiveType { ty: ty.clone() }, Some(span)))
    }

    /// The type held at `place`, following its projection.
    pub fn place_type(&self, place: &Place) -> (res: Option<SoulType>)
        ensures
            res == self.spec_place_type(*place),
    {
        let ghost start = if place.local.0 < self.locals@.len() {
            Some(self.locals@[place.local.0 as int].ty)
        } else {
            None
        };
        if place.local.0 >= self.locals.len() {
            proof {
                lemma_project_none(*self.declares, self.module, place.projection@);
            }
            return None;
        }
        let mut ty: SoulType = self.locals[place.local.0].ty.clone();
        let mut i: usize = 0;
        assert(place.projection@.take(0) =~= Seq::<PlaceElem>::empty());
        while i < place.projection.len()
            invariant
                i <= place.projection@.len(),
                place.local.0 < self.locals@.len(),
                start == Some(self.locals@[place.local.0 as int].ty),
                Some(ty) == project_type(*self.declares, self.module, start, place.projection@.take(i as int)),
            decreases place.projection.len() - i,
        {
            let elem = place.projection[i];
            assert(place.projection@.take(i + 1).drop_last() =~= place.projection@.take(i as int));
            let next: Option<SoulType> = match elem {
                PlaceElem::Field(index) => match &ty {
                    SoulType::Tuple(list) => match list.get(index) {
                        Some(t) => Some(t.clone()),
                        None => None,
                    },
                    _ => match self.resolve_struct(&ty) {
                        Some(s) => if index < s.fields.len() {
                            match &s.fields[index].ty {
                                Some(t) => Some(t.clone()),
                                None => None,
                            }
                        } else {
                            None
                        },
                        None => None,
                    },
                },
                PlaceElem::Index(_) => match &ty {
                    SoulType::Array(_, of) => Some((**of).clone()),
                    _ => None,
                },
                PlaceElem::Deref => None,
            };
            match next {
                Some(t) => {
                    ty = t;
                },
                None => {
                    proof {
                        lemma_project_suffix_none(*self.declares, self.module, start, place.projection@, i + 1);
                    }
                    return None;
                },
            }
            i = i + 1;
        }
        assert(place.projection@.take(i as int) =~= place.projection@);
        Some(ty)
    }

    /// The type an already-lowered operand carries; a bare constant carries none.
    pub fn operand_type(&self, operand: &Operand) -> (res: Option<SoulType>)
        ensures
            res == self.spec_operand_type(*operand),
    {
        match operand {
            Operand::Copy(place) | Operand::Move(place) => self.place_type(place),
            Operand::Constant(_) => None,
        }
    }
}

/// Rejects anything but a primitive scalar type.
pub fn require_primitive(ty: &SoulType, span: Span) -> (res: MirResult<()>)
    ensures
        severity_ok(res),
        body_fault(res),
        res is Ok <==> ty is Primitive,
        res matches Err(f) ==> f == Fault::error(MirErrorKind::NonPrimitiveType { ty: *ty }, Some(span)),
{
    match ty {
        SoulType::Primitive(_) => Ok(()),
        _ => Err(Fault::error_with_kind(MirErrorKind::NonPrimitiveType { ty: ty.clone() }, Some(span))),
    }
}

/// Whether `prim` is a floating-point type.
pub open spec fn spec_is_float_primitive(prim: PrimitiveTypes) -> bool {
    prim is Float16 || prim is Float32 || prim is Float64 || prim is UntypedFloat
}

pub fn is_float_primitive(prim: PrimitiveTypes) -> (res: bool)
    ensures
        res == spec_is_float_primitive(prim),
{
    match prim {
        PrimitiveTypes::Float16 | PrimitiveTypes::Float32 | PrimitiveTypes::Float64
        | PrimitiveTypes::UntypedFloat => true,
        _ => false,
    }
}

} // verus!
