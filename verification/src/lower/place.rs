//! Places: variables, struct fields and slice elements, as MIR `Place`s.

use vstd::prelude::*;
use vstd::string::*;

use crate::ast::{seq_get, Expression, ExpressionKind, StructField, VarPattern};
use crate::fault::{body_fault, res_view, severity_ok, Fault, FaultV, MirErrorKind, MirResult};
use crate::lower::{
    evolves, evolves_base, cursor_ok, lemma_evolves_refl, lemma_evolves_then_base, lemma_evolves_trans, project_step,
    project_type, spec_resolve_struct, FunctionLowerer,
};
use crate::lower::semantics::{place_res_view, sp_bounds_check, sp_operand_local, sp_place};
use crate::mir::{
    lemma_place_wf_mono, local_place, place_wf, statement_wf, terminator_wf, BlockId, LocalId,
    Operand, OperandV, Place, PlaceElem, PlaceV, Rvalue, RvalueV, Statement, StatementV,
    Terminator, TerminatorV,
};
use crate::types::{LiteralV, ArrayKind, BinaryOperatorKind, Literal, PrimitiveTypes, SoulType, Span, TypeModifier};

verus! {

broadcast use lemma_evolves_trans;

/// The first field of a struct declared with the simple binding `name`,
/// searching from index `i`.
pub open spec fn find_field(fields: Seq<StructField>, name: Seq<char>, i: int) -> Option<int>
    decreases fields.len() - i,
{
    if i < 0 || i >= fields.len() {
        None
    } else if fields[i].pattern matches VarPattern::Simple { binding, .. } && binding.ident@ == name {
        Some(i)
    } else {
        find_field(fields, name, i + 1)
    }
}

pub fn find_field_index(fields: &Vec<StructField>, name: &String) -> (res: Option<usize>)
    ensures
        res matches Some(i) ==> i < fields@.len() && find_field(fields@, name@, 0) == Some(i as int),
        match find_field(fields@, name@, 0) {
            Some(i) => res == Some(i as usize),
            None => res is None,
        },
{
    let mut i: usize = 0;
    while i < fields.len()
        invariant
            i <= fields@.len(),
            find_field(fields@, name@, 0) == find_field(fields@, name@, i as int),
        decreases fields.len() - i,
    {
        match &fields[i].pattern {
            VarPattern::Simple { binding, .. } => {
                if binding.ident == *name {
                    return Some(i);
                }
            },
            VarPattern::Destructure => {},
        }
        i = i + 1;
    }
    None
}

/// `project_type` of an extended projection takes one more step.
pub proof fn lemma_project_push(
    declares: crate::ast::DeclareStore,
    module: Option<usize>,
    ty: Option<SoulType>,
    proj: Seq<PlaceElem>,
    elem: PlaceElem,
)
    ensures
        project_type(declares, module, ty, proj.push(elem)) == project_step(
            declares,
            module,
            project_type(declares, module, ty, proj),
            elem,
        ),
{
    assert(proj.push(elem).drop_last() =~= proj);
}

impl<'a> FunctionLowerer<'a> {
    /// The local a variable use (keyed by `var_id`) lives in.
    pub fn resolve_local(&self, var_id: usize, span: Span) -> (res: MirResult<LocalId>)
        requires
            self.inv(),
        ensures
            severity_ok(res),
            body_fault(res),
            res == self.resolve_local_result(var_id, span),
            res matches Ok(l) ==> l.0 < self.locals@.len(),
    {
        let resolved = match self.declares.get_variable_resolve(var_id) {
            Some(r) => r,
            None => {
                return Err(Fault::error_with_kind(MirErrorKind::VariableHasNoResolvedBinding, Some(span)));
            },
        };
        match self.lookup_local(resolved) {
            Some(local) => Ok(local),
            None => Err(Fault::error_with_kind(MirErrorKind::VariableNotBoundToLocal, Some(span))),
        }
    }

    /// Resolves a variable, a field access, an index, or any nesting of
    /// those into one `Place` with a projection, plus the type held there.
    pub fn resolve_place_expression(&mut self, e: &Expression, span: Span) -> (res: MirResult<(Place, SoulType)>)
        requires
            old(self).inv(),
            old(self).blocks@.len() > 0,
        ensures
            severity_ok(res),
            body_fault(res),
            res is Ok && old(self).current is Some ==> final(self).current is Some,
            evolves(*old(self), *final(self)),
            res matches Ok((p, ty)) ==> place_wf(p, final(self).locals@.len()) && final(self).spec_place_type(p) == Some(ty),
            e.kind is Variable ==> (res matches Ok((p, _)) ==> p.projection@.len() == 0),
            e.kind matches ExpressionKind::Variable { id } ==> *final(self) == *old(self) && match old(self).resolve_local_result(
                id,
                e.span,
            ) {
                Ok(l) => res matches Ok((p, ty)) && p@ == local_place(l) && ty == old(self).locals@[l.0 as int].ty,
                Err(f) => res == Err::<(Place, SoulType), Fault>(f),
            },
            !(e.kind is Variable || e.kind is FieldAccess || e.kind is Index) ==> res == Err::<(Place, SoulType), Fault>(
                Fault::error(MirErrorKind::UnsupportedPlaceExpression, Some(span)),
            ) && *final(self) == *old(self),
            sp_place(old(self).ctx(), old(self).st(), *e, span) == Some((final(self).st(), place_res_view(res))),
        decreases e, 3int,
    {
        match &e.kind {
            ExpressionKind::Variable { id } => {
                let local = self.resolve_local(*id, e.span)?;
                let ty = self.locals[local.0].ty.clone();
                let place = Place::local(local);
                proof {
                    lemma_evolves_refl(*self);
                    assert(place.projection@ =~= Seq::<PlaceElem>::empty());
                }
                Ok((place, ty))
            },
            ExpressionKind::FieldAccess { .. } => self.resolve_field_place(e),
            ExpressionKind::Index { .. } => self.resolve_index_place(e),
            _ => Err(Fault::error_with_kind(MirErrorKind::UnsupportedPlaceExpression, Some(span))),
        }
    }

    /// `object.field` as a place: the object's place with a `Field` projection
    /// appended, plus the field's declared type.
    pub fn resolve_field_place(&mut self, e: &Expression) -> (res: MirResult<(Place, SoulType)>)
        requires
            old(self).inv(),
            old(self).blocks@.len() > 0,
            e.kind is FieldAccess,
        ensures
            severity_ok(res),
            body_fault(res),
            res is Ok && old(self).current is Some ==> final(self).current is Some,
            evolves(*old(self), *final(self)),
            res matches Ok((p, ty)) ==> place_wf(p, final(self).locals@.len()) && final(self).spec_place_type(p) == Some(ty)
                && p.projection@.len() > 0 && p.projection@.last() is Field,
            e.kind matches ExpressionKind::FieldAccess { object, field } ==> (object.kind matches ExpressionKind::Variable {
                id,
            } ==> match old(self).resolve_local_result(id, object.span) {
                Err(f) => res == Err::<(Place, SoulType), Fault>(f),
                Ok(l) => field_result(*old(self), l, field@, e.span, res),
            }),
            sp_place(old(self).ctx(), old(self).st(), *e, e.span) == Some((final(self).st(), place_res_view(res))),
        decreases e, 2int,
    {
        let ExpressionKind::FieldAccess { object, field } = &e.kind else {
            proof { assert(false); }
            return Err(Fault::error_with_kind(MirErrorKind::UnsupportedFieldAccessObject, Some(e.span)));
        };
        let span = e.span;
        let (place, object_ty) = self.resolve_place_expression(&**object, object.span)?;

        let struct_ = match self.resolve_struct(&object_ty) {
            Some(s) => s,
            None => {
                return Err(Fault::error_with_kind(MirErrorKind::NonPrimitiveType { ty: object_ty }, Some(span)));
            },
        };

        let index = match find_field_index(&struct_.fields, field) {
            Some(i) => i,
            None => {
                return Err(Fault::error_with_kind(
                    MirErrorKind::StructFieldNotFound { struct_name: struct_.name.clone(), field: field.clone() },
                    Some(span),
                ));
            },
        };
        let field_ty = match &struct_.fields[index].ty {
            Some(t) => t.clone(),
            None => {
                return Err(Fault::error_with_kind(MirErrorKind::VariableHasNoResolvedType, Some(span)));
            },
        };
        let ghost base = place;
        let place = place.project(PlaceElem::Field(index));
        proof {
            lemma_project_push(*self.declares, self.module, self.spec_start_type(base), base.projection@, PlaceElem::Field(index));
            assert(place.projection@ =~= base.projection@.push(PlaceElem::Field(index)));
            assert(place.projection@.last() == PlaceElem::Field(index));
        }
        Ok((place, field_ty))
    }

    /// `collection[index]` as a place: the slice's place with an `Index`
    /// projection on a local holding the index, plus the element type.
    /// With bounds checking on, the index is checked against the slice's
    /// length first.
    pub fn resolve_index_place(&mut self, e: &Expression) -> (res: MirResult<(Place, SoulType)>)
        requires
            old(self).inv(),
            old(self).blocks@.len() > 0,
            e.kind is Index,
        ensures
            severity_ok(res),
            body_fault(res),
            res is Ok && old(self).current is Some ==> final(self).current is Some,
            evolves(*old(self), *final(self)),
            res matches Ok((p, ty)) ==> place_wf(p, final(self).locals@.len()) && final(self).spec_place_type(p) == Some(ty)
                && p.projection@.len() > 0 && p.projection@.last() is Index,
            e.kind matches ExpressionKind::Index { collection, .. } ==> (collection.kind matches ExpressionKind::Variable {
                id,
            } ==> match old(self).resolve_local_result(id, collection.span) {
                Err(f) => res == Err::<(Place, SoulType), Fault>(f),
                Ok(l) => index_result(old(self).locals@[l.0 as int].ty, l, e.span, res),
            }),
            sp_place(old(self).ctx(), old(self).st(), *e, e.span) == Some((final(self).st(), place_res_view(res))),
        decreases e, 2int,
    {
        let ExpressionKind::Index { collection, index } = &e.kind else {
            proof { assert(false); }
            return Err(Fault::error_with_kind(MirErrorKind::UnsupportedPlaceExpression, Some(e.span)));
        };
        let span = e.span;
        let ghost s0 = *self;
        let (place, collection_ty) = self.resolve_place_expression(&**collection, collection.span)?;
        let ghost s1 = *self;

        let element_ty = match &collection_ty {
            SoulType::Array(kind, of) => match kind {
                ArrayKind::MutSlice | ArrayKind::ConstSlice => (**of).clone(),
                _ => {
                    return Err(Fault::error_with_kind(
                        MirErrorKind::IndexTargetNotASlice { ty: collection_ty },
                        Some(span),
                    ));
                },
            },
            _ => {
                return Err(Fault::error_with_kind(
                    MirErrorKind::IndexTargetNotASlice { ty: collection_ty },
                    Some(span),
                ));
            },
        };

        let index_local = self.operand_local(&**index, SoulType::Primitive(PrimitiveTypes::Uint), span)?;
        let ghost s2 = *self;
        proof {
            lemma_place_wf_mono(place, s1.locals@.len(), s2.locals@.len());
        }

        if self.options.check_index_out_of_bounds {
            self.emit_bounds_check(&place, index_local, span);
        }
        let ghost s3 = *self;
        proof {
            lemma_place_wf_mono(place, s1.locals@.len(), s3.locals@.len());
            assert(s3.spec_start_type(place) == s1.spec_start_type(place));
        }
        let ghost base = place;
        let place = place.project(PlaceElem::Index(index_local));
        proof {
            lemma_project_push(*self.declares, self.module, self.spec_start_type(base), base.projection@, PlaceElem::Index(index_local));
            assert(place.projection@ =~= base.projection@.push(PlaceElem::Index(index_local)));
            assert(place.projection@.last() == PlaceElem::Index(index_local));
            assert forall|i: int| 0 <= i < place.projection@.len() implies match #[trigger] place.projection@[i] {
                PlaceElem::Index(l) => l.0 < self.locals@.len(),
                _ => true,
            } by {
                if i < base.projection@.len() {
                    assert(place.projection@[i] == base.projection@[i]);
                }
            }
        }
        Ok((place, element_ty))
    }

    /// `assert(index < collection.len())`: reads the slice's length into a
    /// `uint` temp, casts the index to `uint` if it is not one already,
    /// compares, and ends the block with an `Assert` that continues into a
    /// fresh block.
    pub fn emit_bounds_check(&mut self, collection: &Place, index_local: LocalId, span: Span)
        requires
            old(self).inv(),
            old(self).blocks@.len() > 0,
            place_wf(*collection, old(self).locals@.len()),
            index_local.0 < old(self).locals@.len(),
        ensures
            evolves(*old(self), *final(self)),
            final(self).locals@.len() == bounds_cond_local(*old(self), index_local).0 + 1,
            final(self).locals@.len() >= old(self).locals@.len() + 2,
            final(self).blocks@.len() == old(self).blocks@.len() + 1,
            final(self).current == Some(BlockId(old(self).blocks@.len() as usize)),
            final(self).statements@.len() == 0,
            old(self).current matches Some(c) ==> (final(self).blocks@[c.0 as int] matches Some(b)
                && b@.statements == crate::mir::statements_view(old(self).statements@) + bounds_check_statements(
                *old(self),
                *collection,
                index_local,
            ) && b@.terminator == TerminatorV::Assert {
                cond: OperandV::Copy(local_place(bounds_cond_local(*old(self), index_local))),
                expected: true,
                msg: b@.terminator->msg,
                target: BlockId(old(self).blocks@.len() as usize),
                span,
            } && is_text_constant(b@.terminator->msg, "index out of bounds"@)),
            final(self).st() == sp_bounds_check(old(self).st(), collection@, index_local, span),
    {
        let ghost s0 = *self;
        let uint = SoulType::Primitive(PrimitiveTypes::Uint);
        let len_local = self.alloc_local(SoulType::Primitive(PrimitiveTypes::Uint), TypeModifier::Immut, span);
        proof {
            lemma_place_wf_mono(*collection, s0.locals@.len(), self.locals@.len());
        }
        self.push_statement(Statement::Assign(Place::local(len_local), Rvalue::Len(collection.duplicate())));

        let index_is_uint = self.locals[index_local.0].ty.is_primitive_kind(PrimitiveTypes::Uint);
        let checked = if index_is_uint {
            index_local
        } else {
            let cast = self.alloc_local(SoulType::Primitive(PrimitiveTypes::Uint), TypeModifier::Immut, span);
            self.push_statement(Statement::Assign(
                Place::local(cast),
                Rvalue::Cast(Operand::Copy(Place::local(index_local)), SoulType::Primitive(PrimitiveTypes::Uint)),
            ));
            cast
        };

        let cond_local = self.alloc_local(SoulType::Primitive(PrimitiveTypes::Boolean), TypeModifier::Immut, span);
        self.push_statement(Statement::Assign(
            Place::local(cond_local),
            Rvalue::BinaryOp(
                BinaryOperatorKind::Lt,
                Operand::Copy(Place::local(checked)),
                Operand::Copy(Place::local(len_local)),
            ),
        ));

        let msg = Operand::Constant(Literal::Str(String::from_str("index out of bounds")));
        let next = self.new_block();
        let ghost s4 = *self;
        self.seal(
            Terminator::Assert {
                cond: Operand::Copy(Place::local(cond_local)),
                expected: true,
                msg,
                target: next,
                span,
            },
            Some(next),
        );
        proof {
            lemma_evolves_then_base(s0, s4, *self);
            assert(self.statements@.len() == 0);
        }
    }

    /// Materializes an expression into a local: a bare variable is used
    /// as-is, anything else is assigned into a fresh temp of type `ty`.
    pub fn operand_local(&mut self, e: &Expression, ty: SoulType, span: Span) -> (res: MirResult<LocalId>)
        requires
            old(self).inv(),
            old(self).blocks@.len() > 0,
        ensures
            severity_ok(res),
            body_fault(res),
            res is Ok && old(self).current is Some ==> final(self).current is Some,
            evolves(*old(self), *final(self)),
            res matches Ok(l) ==> l.0 < final(self).locals@.len(),
            e.kind matches ExpressionKind::Variable { id } ==> res == old(self).resolve_local_result(id, e.span)
                && *final(self) == *old(self),
            sp_operand_local(old(self).ctx(), old(self).st(), *e, ty, span) == Some((final(self).st(), res_view(res))),
        decreases e, 5int,
    {
        if let ExpressionKind::Variable { id } = &e.kind {
            let r = self.resolve_local(*id, e.span);
            proof {
                lemma_evolves_refl(*self);
            }
            return r;
        }
        let rvalue = self.lower_rvalue(e)?;
        let ghost s1 = *self;
        let temp = self.alloc_local(ty, TypeModifier::Immut, span);
        proof {
            crate::mir::lemma_rvalue_wf_mono(rvalue, s1.locals@.len(), self.locals@.len());
        }
        let target = Place::local(temp);
        assert(target@ =~= local_place(temp));
        self.push_statement(Statement::Assign(target, rvalue));
        Ok(temp)
    }
}

/// What reading `field` of the local `l` gives: a `Field` projection of
/// the local onto the field's position and type, or the fault for a local
/// that is not a struct, a struct without that field, or a field without a
/// declared type.
pub open spec fn field_result(
    s: FunctionLowerer,
    l: LocalId,
    field: Seq<char>,
    span: Span,
    res: MirResult<(Place, SoulType)>,
) -> bool {
    let ty = s.locals@[l.0 as int].ty;
    match spec_resolve_struct(*s.declares, s.module, ty) {
        None => res == Err::<(Place, SoulType), Fault>(Fault::error(MirErrorKind::NonPrimitiveType { ty }, Some(span))),
        Some(st) => match find_field(st.fields@, field, 0) {
            None => res matches Err(f) && f.severity is Error && f.span == Some(span) && (f.kind matches MirErrorKind::StructFieldNotFound {
                struct_name,
                field: name,
            } && struct_name@ == st.name@ && name@ == field),
            Some(k) => match st.fields@[k].ty {
                None => res == Err::<(Place, SoulType), Fault>(
                    Fault::error(MirErrorKind::VariableHasNoResolvedType, Some(span)),
                ),
                Some(fty) => res matches Ok((p, t)) && t == fty && p@ == PlaceV {
                    local: l,
                    projection: seq![PlaceElem::Field(k as usize)],
                },
            },
        },
    }
}

/// What indexing the local `l` of type `ty` gives: an `Index` projection of
/// the local with the slice's element type, or, when `ty` is not a slice,
/// the fault saying so.
pub open spec fn index_result(ty: SoulType, l: LocalId, span: Span, res: MirResult<(Place, SoulType)>) -> bool {
    match ty {
        SoulType::Array(kind, of) if kind is MutSlice || kind is ConstSlice => res matches Ok((p, t)) ==> (t == *of
            && p.local == l && p.projection@.len() == 1 && p.projection@[0] is Index),
        _ => res == Err::<(Place, SoulType), Fault>(Fault::error(MirErrorKind::IndexTargetNotASlice { ty }, Some(span))),
    }
}

/// Whether the local holding an index is already `uint`-typed.
pub open spec fn index_is_uint(s: FunctionLowerer, index_local: LocalId) -> bool {
    s.locals@[index_local.0 as int].ty == SoulType::Primitive(PrimitiveTypes::Uint)
}

/// The `uint` local a bounds check compares: the index itself, or a cast of it.
pub open spec fn bounds_checked_local(s: FunctionLowerer, index_local: LocalId) -> LocalId {
    if index_is_uint(s, index_local) {
        index_local
    } else {
        LocalId((s.locals@.len() + 1) as usize)
    }
}

/// The `bool` local a bounds check asserts.
pub open spec fn bounds_cond_local(s: FunctionLowerer, index_local: LocalId) -> LocalId {
    if index_is_uint(s, index_local) {
        LocalId((s.locals@.len() + 1) as usize)
    } else {
        LocalId((s.locals@.len() + 2) as usize)
    }
}

/// The statements a bounds check appends: the slice's length, the cast
/// index (when it is not `uint` already), and the comparison.
pub open spec fn bounds_check_statements(s: FunctionLowerer, collection: Place, index_local: LocalId) -> Seq<StatementV> {
    let len_local = LocalId(s.locals@.len() as usize);
    let checked = bounds_checked_local(s, index_local);
    seq![StatementV::Assign(local_place(len_local), RvalueV::Len(collection@))] + (if index_is_uint(s, index_local) {
        Seq::<StatementV>::empty()
    } else {
        seq![StatementV::Assign(
            local_place(checked),
            RvalueV::Cast(OperandV::Copy(local_place(index_local)), SoulType::Primitive(PrimitiveTypes::Uint)),
        )]
    }) + seq![StatementV::Assign(
        local_place(bounds_cond_local(s, index_local)),
        RvalueV::BinaryOp(
            BinaryOperatorKind::Lt,
            OperandV::Copy(local_place(checked)),
            OperandV::Copy(local_place(LocalId(s.locals@.len() as usize))),
        ),
    )]
}

/// A string constant operand holding `text`.
pub open spec fn is_text_constant(o: OperandV, text: Seq<char>) -> bool {
    o matches OperandV::Constant(LiteralV::Str(s)) && s == text
}

impl<'a> FunctionLowerer<'a> {
    /// What `resolve_local` gives for the variable use `var_id`.
    pub open spec fn resolve_local_result(&self, var_id: usize, span: Span) -> MirResult<LocalId> {
        match seq_get(self.declares.variable_resolves@, var_id as int) {
            None => Err(Fault::error(MirErrorKind::VariableHasNoResolvedBinding, Some(span))),
            Some(node) => match self.spec_lookup_local(node) {
                None => Err(Fault::error(MirErrorKind::VariableNotBoundToLocal, Some(span))),
                Some(l) => Ok(l),
            },
        }
    }
}

} // verus!
