//! What lowering produces, stated as spec functions over an abstract
//! lowering state.
//!
//! Each `sp_*` function follows one lowering routine step by step and gives
//! the state after it together with its result, faults included (fault
//! and constant texts as character sequences). The option around the result
//! only carries the recursion through; each lowering routine proves that
//! its spec function gives `Some` of exactly what it did, so `sp_lower`
//! determines the result of lowering every function from the declarations,
//! the options and the function alone.

use vstd::prelude::*;

use crate::ast::{
    seq_get, Argument, FunctionCall, IntrinsicFunction, DeclareStore, Expression, ExpressionKind, For, ForCondition, Function as AstFunction, FunctionKind, If, IfBranch,
    IfCondition, MatchArm, MatchPattern, Parameter, StructField, Statement as AstStatement, StatementKind, VarPattern,
};
use crate::fault::{Fault, FaultV, MirErrorKind, MirErrorKindV, MirResult, ResV};
use crate::lower::control::{first_unlowerable, parameter_decl, spec_module};
use crate::lower::expression::{
    div_overflow_message, min_of_bits, overflow_message, signed_bits, spec_is_supported_binary_op, value_position,
    zero_divisor_message,
};
use crate::lower::place::find_field;
use crate::lower::{
    lowerable, project_type, spec_is_float_primitive, spec_lookup, spec_resolve_struct, FunctionLowerer, LoopTargets,
    LoweringOptions,
};
use crate::mir::{
    local_place, statements_view, AggregateKind, BasicBlock, BasicBlockV, BlockId, Function, LocalDecl, LocalId, OperandV, PlaceElem,
    PlaceV,
    RvalueV, StatementV, TerminatorV,
};
use crate::types::{BinaryOperatorKind, TypeList, ArrayKind, LiteralV, Literal, PrimitiveTypes, SoulType, Span, TypeModifier};

verus! {

/// The lowering state with sequences for vectors and block views for blocks.
pub struct LowerState {
    pub locals: Seq<LocalDecl>,
    pub blocks: Seq<Option<BasicBlockV>>,
    pub statements: Seq<StatementV>,
    pub current: Option<BlockId>,
    pub bindings: Seq<(usize, LocalId)>,
    pub loops: Seq<LoopTargets>,
}

/// What stays fixed while one function is lowered.
pub struct LowerCtx {
    pub declares: DeclareStore,
    pub options: LoweringOptions,
    pub module: Option<usize>,
}

/// A lowered function with sequences for vectors.
pub struct FunctionV {
    pub id: crate::types::FunctionId,
    pub locals: Seq<LocalDecl>,
    pub blocks: Seq<Option<BasicBlockV>>,
    pub arg_count: usize,
    pub return_local: Option<LocalId>,
}

pub open spec fn blocks_view(bs: Seq<Option<BasicBlock>>) -> Seq<Option<BasicBlockV>> {
    bs.map_values(|b: Option<BasicBlock>| match b {
        Some(x) => Some(x@),
        None => None,
    })
}

pub open spec fn function_view(f: Function) -> FunctionV {
    FunctionV {
        id: f.id,
        locals: f.locals@,
        blocks: blocks_view(f.blocks@),
        arg_count: f.arg_count,
        return_local: f.return_local,
    }
}

impl<'a> FunctionLowerer<'a> {
    pub open spec fn st(&self) -> LowerState {
        LowerState {
            locals: self.locals@,
            blocks: blocks_view(self.blocks@),
            statements: statements_view(self.statements@),
            current: self.current,
            bindings: self.node_to_local@,
            loops: self.loops@,
        }
    }

    pub open spec fn ctx(&self) -> LowerCtx {
        LowerCtx { declares: *self.declares, options: self.options, module: self.module }
    }
}

// ---------------------------------------------------------------------------
// Elementary steps.

pub open spec fn st_alloc(s: LowerState, decl: LocalDecl) -> (LowerState, LocalId) {
    (LowerState { locals: s.locals.push(decl), ..s }, LocalId(s.locals.len() as usize))
}

pub open spec fn st_push(s: LowerState, stmt: StatementV) -> LowerState {
    LowerState { statements: s.statements.push(stmt), ..s }
}

pub open spec fn st_bind(s: LowerState, node: usize, local: LocalId) -> LowerState {
    LowerState { bindings: s.bindings.push((node, local)), ..s }
}

pub open spec fn st_new_block(s: LowerState) -> (LowerState, BlockId) {
    (LowerState { blocks: s.blocks.push(None), ..s }, BlockId(s.blocks.len() as usize))
}

/// Ends the block under the cursor with `t` and moves the cursor to `next`.
pub open spec fn st_seal(s: LowerState, t: TerminatorV, next: Option<BlockId>) -> LowerState {
    LowerState {
        blocks: match s.current {
            Some(c) => s.blocks.update(c.0 as int, Some(BasicBlockV { statements: s.statements, terminator: t })),
            None => s.blocks,
        },
        statements: Seq::empty(),
        current: next,
        ..s
    }
}

pub open spec fn st_move(s: LowerState, to: Option<BlockId>) -> LowerState {
    LowerState { current: to, ..s }
}

/// A fresh temp of type `ty` assigned `r`, read back as an operand.
pub open spec fn st_temp(s: LowerState, ty: SoulType, span: Span, r: RvalueV) -> (LowerState, OperandV) {
    let (s1, t) = st_alloc(s, LocalDecl { ty, mutability: TypeModifier::Immut, span });
    (st_push(s1, StatementV::Assign(local_place(t), r)), OperandV::Copy(local_place(t)))
}

pub open spec fn sp_resolve_local(c: LowerCtx, s: LowerState, var_id: usize, span: Span) -> ResV<LocalId> {
    match seq_get(c.declares.variable_resolves@, var_id as int) {
        None => Err(FaultV::error(MirErrorKindV::VariableHasNoResolvedBinding, Some(span))),
        Some(node) => match spec_lookup(s.bindings, node) {
            None => Err(FaultV::error(MirErrorKindV::VariableNotBoundToLocal, Some(span))),
            Some(l) => Ok(l),
        },
    }
}

/// Resolving a variable, a field access or an index (any nesting of them)
/// to a place and the type held there. A field the struct does not declare
/// is a `StructFieldNotFound` fault; with bounds checking on, an index is
/// checked against the slice's length first.
pub open spec fn sp_place(c: LowerCtx, s: LowerState, e: Expression, span: Span) -> Option<
    (LowerState, ResV<(PlaceV, SoulType)>),
>
    decreases e, 2int,
{
    match e.kind {
        ExpressionKind::Variable { id } => Some((s, match sp_resolve_local(c, s, id, e.span) {
            Ok(l) => Ok((local_place(l), s.locals[l.0 as int].ty)),
            Err(f) => Err(f),
        })),
        ExpressionKind::FieldAccess { object, field } => match sp_place(c, s, *object, object.span) {
            None => None,
            Some((s1, Err(f))) => Some((s1, Err(f))),
            Some((s1, Ok((p, ty)))) => match spec_resolve_struct(c.declares, c.module, ty) {
                None => Some((s1, Err(FaultV::error(MirErrorKindV::NonPrimitiveType { ty }, Some(e.span))))),
                Some(st) => match find_field(st.fields@, field@, 0) {
                    None => Some(
                        (
                            s1,
                            Err(
                                FaultV::error(
                                    MirErrorKindV::StructFieldNotFound { struct_name: st.name@, field: field@ },
                                    Some(e.span),
                                ),
                            ),
                        ),
                    ),
                    Some(k) => match st.fields@[k].ty {
                        None => Some((s1, Err(FaultV::error(MirErrorKindV::VariableHasNoResolvedType, Some(e.span))))),
                        Some(fty) => Some(
                            (s1, Ok((PlaceV { local: p.local, projection: p.projection.push(PlaceElem::Field(k as usize)) }, fty))),
                        ),
                    },
                },
            },
        },
        ExpressionKind::Index { collection, index } => match sp_place(c, s, *collection, collection.span) {
            None => None,
            Some((s1, Err(f))) => Some((s1, Err(f))),
            Some((s1, Ok((p, ty)))) => match ty {
                SoulType::Array(kind, of) if kind is MutSlice || kind is ConstSlice => match sp_operand_local(
                    c,
                    s1,
                    *index,
                    SoulType::Primitive(PrimitiveTypes::Uint),
                    e.span,
                ) {
                    None => None,
                    Some((s2, Err(f))) => Some((s2, Err(f))),
                    Some((s2, Ok(l))) => {
                        let s3 = if c.options.check_index_out_of_bounds {
                            sp_bounds_check(s2, p, l, e.span)
                        } else {
                            s2
                        };
                        Some((s3, Ok((PlaceV { local: p.local, projection: p.projection.push(PlaceElem::Index(l)) }, *of))))
                    },
                },
                _ => Some((s1, Err(FaultV::error(MirErrorKindV::IndexTargetNotASlice { ty }, Some(e.span))))),
            },
        },
        _ => Some((s, Err(FaultV::error(MirErrorKindV::UnsupportedPlaceExpression, Some(span))))),
    }
}

/// Materializing `e` into a local: a variable is used as it is, anything
/// else is assigned into a fresh temp of type `ty`.
pub open spec fn sp_operand_local(c: LowerCtx, s: LowerState, e: Expression, ty: SoulType, span: Span) -> Option<
    (LowerState, ResV<LocalId>),
>
    decreases e, 5int,
{
    match e.kind {
        ExpressionKind::Variable { id } => Some((s, sp_resolve_local(c, s, id, e.span))),
        _ => match sp_rvalue(c, s, e) {
            None => None,
            Some((s1, Err(f))) => Some((s1, Err(f))),
            Some((s1, Ok(r))) => {
                let (s2, t) = st_alloc(s1, LocalDecl { ty, mutability: TypeModifier::Immut, span });
                Some((st_push(s2, StatementV::Assign(local_place(t), r)), Ok(t)))
            },
        },
    }
}

pub open spec fn place_res_view(r: MirResult<(crate::mir::Place, SoulType)>) -> ResV<(PlaceV, SoulType)> {
    match r {
        Ok((p, t)) => Ok((p@, t)),
        Err(e) => Err(e@),
    }
}

/// The condition shapes `if`, `while` and `assert` accept.
pub open spec fn sp_is_bool(d: DeclareStore, e: Expression) -> bool {
    match e.kind {
        ExpressionKind::Literal(Literal::Bool(_)) => true,
        ExpressionKind::Variable { id } => match seq_get(d.variable_resolves@, id as int) {
            Some(node) => seq_get(d.variable_types@, node as int) == Some(SoulType::Primitive(PrimitiveTypes::Boolean)),
            None => false,
        },
        ExpressionKind::Unary { op, .. } => op is Not,
        ExpressionKind::Binary { .. } => seq_get(d.expression_types@, e.id as int) == Some(
            SoulType::Primitive(PrimitiveTypes::Boolean),
        ),
        _ => false,
    }
}

/// The arithmetic the `check_overflow` option guards with extra blocks.
pub open spec fn is_guarded_arith(c: LowerCtx, op: crate::types::BinaryOperatorKind) -> bool {
    c.options.check_overflow && (op is Add || op is Sub || op is Mul || op is Div || op is Mod)
}

// ---------------------------------------------------------------------------
// Expressions.

/// Lowering `e` to an operand.
pub open spec fn sp_operand(c: LowerCtx, s: LowerState, e: Expression) -> Option<(LowerState, ResV<OperandV>)>
    decreases e, 3int,
{
    match e.kind {
        ExpressionKind::Literal(lit) => Some((s, Ok(OperandV::Constant(lit@)))),
        ExpressionKind::Variable { id } => Some((s, match sp_resolve_local(c, s, id, e.span) {
            Ok(l) => Ok(OperandV::Copy(local_place(l))),
            Err(f) => Err(f),
        })),
        ExpressionKind::Binary { .. } => match seq_get(c.declares.expression_types@, e.id as int) {
            None => Some((s, Err(FaultV::error(MirErrorKindV::NestedExpressionHasNoResolvedType, Some(e.span))))),
            Some(ty) => if !(ty is Primitive) {
                Some((s, Err(FaultV::error(MirErrorKindV::NonPrimitiveType { ty }, Some(e.span)))))
            } else {
                match sp_rvalue(c, s, e) {
                    None => None,
                    Some((s1, Err(f))) => Some((s1, Err(f))),
                    Some((s1, Ok(r))) => {
                        let (s2, o) = st_temp(s1, ty, e.span, r);
                        Some((s2, Ok(o)))
                    },
                }
            },
        },
        ExpressionKind::Unary { .. } => match sp_rvalue(c, s, e) {
            None => None,
            Some((s1, Err(f))) => Some((s1, Err(f))),
            Some((s1, Ok(r))) => {
                let (s2, o) = st_temp(s1, SoulType::Primitive(PrimitiveTypes::Boolean), e.span, r);
                Some((s2, Ok(o)))
            },
        },
        ExpressionKind::FieldAccess { .. } => match sp_place(c, s, e, e.span) {
            None => None,
            Some((s1, Err(f))) => Some((s1, Err(f))),
            Some((s1, Ok((p, _)))) => Some((s1, Ok(OperandV::Copy(p)))),
        },
        ExpressionKind::Index { .. } => match sp_place(c, s, e, e.span) {
            None => None,
            Some((s1, Err(f))) => Some((s1, Err(f))),
            Some((s1, Ok((p, _)))) => Some((s1, Ok(OperandV::Copy(p)))),
        },
        ExpressionKind::FunctionCall(call) => match seq_get(c.declares.intrinsic_resolves@, call.id as int) {
            Some(k) => if k is Other {
                Some((s, Err(FaultV::error(MirErrorKindV::UnsupportedIntrinsic { name: k.spec_name() }, Some(e.span)))))
            } else {
                Some((s, Err(FaultV::error(MirErrorKindV::CannotUseNoneValueAsOperand, Some(e.span)))))
            },
            None => match sp_call(c, s, call, e.span, true) {
                None => None,
                Some((s1, Err(f))) => Some((s1, Err(f))),
                Some((s1, Ok(Some(o)))) => Some((s1, Ok(o))),
                Some((s1, Ok(None))) => Some(
                    (s1, Err(FaultV::error(MirErrorKindV::CannotUseNoneValueAsOperand, Some(e.span)))),
                ),
            },
        },
        _ => Some((s, Err(FaultV::error(MirErrorKindV::UnsupportedOperandExpression, Some(e.span))))),
    }
}

/// Lowering the first `n` call arguments in order into operands; a named
/// argument is an `UnsupportedCallShape` fault at the call.
pub open spec fn sp_args(c: LowerCtx, s: LowerState, args: Seq<Argument>, n: int, span: Span) -> Option<
    (LowerState, ResV<Seq<OperandV>>),
>
    decreases args, n,
{
    if n <= 0 || n > args.len() {
        Some((s, Ok(Seq::empty())))
    } else {
        match sp_args(c, s, args, n - 1, span) {
            None => None,
            Some((s1, Err(f))) => Some((s1, Err(f))),
            Some((s1, Ok(prev))) => if args[n - 1].named {
                Some((s1, Err(FaultV::error(MirErrorKindV::UnsupportedCallShape, Some(span)))))
            } else {
                match sp_operand(c, s1, args[n - 1].value) {
                    None => None,
                    Some((s2, Err(f))) => Some((s2, Err(f))),
                    Some((s2, Ok(o))) => Some((s2, Ok(prev.push(o)))),
                }
            },
        }
    }
}

/// A call: the arguments are lowered in order, a destination temp is
/// allocated when a result is wanted and the callee returns one, and the
/// current block ends in `Call` continuing in a fresh block, which becomes
/// the cursor.
pub open spec fn sp_call(c: LowerCtx, s: LowerState, call: FunctionCall, span: Span, want: bool) -> Option<
    (LowerState, ResV<Option<OperandV>>),
>
    decreases call, 1int,
{
    if call.has_callee || call.has_generics {
        Some((s, Err(FaultV::error(MirErrorKindV::UnsupportedCallShape, Some(span)))))
    } else {
        match seq_get(c.declares.function_resolves@, call.id as int) {
            None => Some((s, Err(FaultV::error(MirErrorKindV::FunctionCallHasNoResolvedTarget, Some(span))))),
            Some(r) => if r.is_defer {
                Some((s, Err(FaultV::error(MirErrorKindV::UnsupportedCallShape, Some(span)))))
            } else {
                match c.declares.functions.spec_get(r.id.0 as int) {
                    None => Some((s, Err(FaultV::error(MirErrorKindV::FunctionCallHasNoResolvedTarget, Some(span))))),
                    Some(decl) => match sp_args(c, s, call.arguments@, call.arguments@.len() as int, span) {
                        None => None,
                        Some((s1, Err(f))) => Some((s1, Err(f))),
                        Some((s1, Ok(ops))) => if want && !(decl.return_type is NoneType) {
                            if !lowerable(c.declares, c.module, decl.return_type) {
                                Some((s1, Err(FaultV::error(MirErrorKindV::NonPrimitiveType { ty: decl.return_type }, Some(span)))))
                            } else {
                                let (s2, l) = st_alloc(
                                    s1,
                                    LocalDecl { ty: decl.return_type, mutability: TypeModifier::Immut, span },
                                );
                                let (s3, next) = st_new_block(s2);
                                let t = TerminatorV::Call {
                                    id: r.id,
                                    arguments: ops,
                                    destination: Some(local_place(l)),
                                    target: Some(next),
                                };
                                Some((st_seal(s3, t, Some(next)), Ok(Some(OperandV::Copy(local_place(l))))))
                            }
                        } else {
                            let (s3, next) = st_new_block(s1);
                            let t = TerminatorV::Call { id: r.id, arguments: ops, destination: None, target: Some(next) };
                            Some((st_seal(s3, t, Some(next)), Ok(None)))
                        },
                    },
                }
            },
        }
    }
}

/// Once the first `k` arguments have failed (or not come out),
/// lowering more of them gives the same.
pub proof fn lemma_args_stop(c: LowerCtx, s: LowerState, args: Seq<Argument>, k: int, n: int, span: Span)
    requires
        0 <= k <= n <= args.len(),
        !(sp_args(c, s, args, k, span) matches Some((_, r)) && r is Ok),
    ensures
        sp_args(c, s, args, n, span) == sp_args(c, s, args, k, span),
    decreases n - k,
{
    if k < n {
        lemma_args_stop(c, s, args, k, n - 1, span);
    }
}

pub open spec fn call_res_view(r: MirResult<Option<crate::mir::Operand>>) -> ResV<Option<OperandV>> {
    match r {
        Ok(Some(o)) => Ok(Some(o@)),
        Ok(None) => Ok(None),
        Err(e) => Err(e@),
    }
}

/// Lowering `e` to the right-hand side of an assignment.
pub open spec fn sp_rvalue(c: LowerCtx, s: LowerState, e: Expression) -> Option<(LowerState, ResV<RvalueV>)>
    decreases e, (if e.kind is Binary || e.kind is Unary { 2int } else { 4int }),
{
    match e.kind {
        ExpressionKind::Binary { op, left, right } => if !spec_is_supported_binary_op(op) {
            Some((s, Err(FaultV::error(MirErrorKindV::UnsupportedBinaryOperator, Some(e.span)))))
        } else {
            match sp_operand(c, s, *left) {
                None => None,
                Some((s1, Err(f))) => Some((s1, Err(f))),
                Some((s1, Ok(l))) => match sp_operand(c, s1, *right) {
                    None => None,
                    Some((s2, Err(f))) => Some((s2, Err(f))),
                    Some((s2, Ok(r))) => if is_guarded_arith(c, op) && !is_float_type(
                        sp_operation_type(c, s2, l, r, e.id),
                    ) {
                        if op is Add || op is Sub || op is Mul {
                            Some(sp_checked_arith(c, s2, op, l, r, e.id, e.span))
                        } else {
                            Some(sp_checked_div(c, s2, op, l, r, e.id, e.span))
                        }
                    } else {
                        Some((s2, Ok(RvalueV::BinaryOp(op, l, r))))
                    },
                },
            }
        },
        ExpressionKind::Unary { op, value } => if !(op is Not) {
            Some((s, Err(FaultV::error(MirErrorKindV::UnsupportedUnaryOperator, Some(e.span)))))
        } else {
            match sp_operand(c, s, *value) {
                None => None,
                Some((s1, Err(f))) => Some((s1, Err(f))),
                Some((s1, Ok(o))) => Some((s1, Ok(RvalueV::UnaryOp(op, o)))),
            }
        },
        ExpressionKind::StructConstructor { struct_type, values, defaults } => if defaults {
            Some((s, Err(FaultV::error(MirErrorKindV::StructConstructorDefaultsUnsupported, Some(e.span)))))
        } else {
            match spec_resolve_struct(c.declares, c.module, struct_type) {
                None => Some((s, Err(FaultV::error(MirErrorKindV::NonPrimitiveType { ty: struct_type }, Some(e.span))))),
                Some(st) => match sp_fields(c, s, st.name@, st.fields@, values@, st.fields@.len() as int, e.span) {
                    None => None,
                    Some((s1, Err(f))) => Some((s1, Err(f))),
                    Some((s1, Ok(ops))) => Some((s1, Ok(RvalueV::Aggregate(AggregateKind::Struct, ops)))),
                },
            }
        },
        ExpressionKind::Ref { value, is_mutable } => match sp_place(c, s, *value, e.span) {
            None => None,
            Some((s1, Err(f))) => Some((s1, Err(f))),
            Some((s1, Ok((p, ty)))) => match ty {
                SoulType::Array(kind, of) => match kind {
                    ArrayKind::StackArray(len) => {
                        let (s2, o) = st_temp_ref(s1, SoulType::Reference(of, is_mutable), e.span, is_mutable, p);
                        Some((s2, Ok(RvalueV::Aggregate(AggregateKind::Array, seq![o, OperandV::Constant(LiteralV::Uint(len as u128))]))))
                    },
                    _ => Some((s1, Err(FaultV::error(MirErrorKindV::ArrayReferenceUnsupported { ty }, Some(e.span))))),
                },
                _ => Some((s1, Ok(RvalueV::Ref { mutable: is_mutable, place: p }))),
            },
        },
        ExpressionKind::ArrayLiteral(values) => match sp_elems(c, s, values@, values@.len() as int) {
            None => None,
            Some((s1, Err(f))) => Some((s1, Err(f))),
            Some((s1, Ok(ops))) => Some((s1, Ok(RvalueV::Aggregate(AggregateKind::Array, ops)))),
        },
        _ => match sp_operand(c, s, e) {
            None => None,
            Some((s1, Err(f))) => Some((s1, Err(f))),
            Some((s1, Ok(o))) => Some((s1, Ok(RvalueV::Use(o)))),
        },
    }
}

/// A fresh temp of type `ty` assigned a reference to `p`, read back as an
/// operand.
pub open spec fn st_temp_ref(s: LowerState, ty: SoulType, span: Span, mutable: bool, p: PlaceV) -> (LowerState, OperandV) {
    st_temp(s, ty, span, RvalueV::Ref { mutable, place: p })
}

/// Lowering the first `n` elements of an array literal, in order.
pub open spec fn sp_elems(c: LowerCtx, s: LowerState, values: Seq<Expression>, n: int) -> Option<
    (LowerState, ResV<Seq<OperandV>>),
>
    decreases values, n,
{
    if n <= 0 || n > values.len() {
        Some((s, Ok(Seq::empty())))
    } else {
        match sp_elems(c, s, values, n - 1) {
            None => None,
            Some((s1, Err(f))) => Some((s1, Err(f))),
            Some((s1, Ok(prev))) => match sp_operand(c, s1, values[n - 1]) {
                None => None,
                Some((s2, Err(f))) => Some((s2, Err(f))),
                Some((s2, Ok(o))) => Some((s2, Ok(prev.push(o)))),
            },
        }
    }
}

/// Lowering, for the first `n` declared fields in declaration order, the
/// value the constructor gives that field; a field the constructor leaves
/// out is a `StructFieldNotFound` fault.
pub open spec fn sp_fields(
    c: LowerCtx,
    s: LowerState,
    struct_name: Seq<char>,
    fields: Seq<StructField>,
    values: Seq<(String, Expression)>,
    n: int,
    span: Span,
) -> Option<(LowerState, ResV<Seq<OperandV>>)>
    decreases values, n,
{
    if n <= 0 || n > fields.len() {
        Some((s, Ok(Seq::empty())))
    } else {
        match sp_fields(c, s, struct_name, fields, values, n - 1, span) {
            None => None,
            Some((s1, Err(f))) => Some((s1, Err(f))),
            Some((s1, Ok(prev))) => match fields[n - 1].pattern {
                VarPattern::Destructure => Some(
                    (s1, Err(FaultV::error(MirErrorKindV::NonSimpleVariablePatternUnsupported, Some(span)))),
                ),
                VarPattern::Simple { binding, .. } => match value_position(values, binding.ident@, 0) {
                    None => Some(
                        (
                            s1,
                            Err(
                                FaultV::error(
                                    MirErrorKindV::StructFieldNotFound { struct_name, field: binding.ident@ },
                                    Some(span),
                                ),
                            ),
                        ),
                    ),
                    Some(k) => if 0 <= k < values.len() {
                        match sp_operand(c, s1, values[k].1) {
                            None => None,
                            Some((s2, Err(f))) => Some((s2, Err(f))),
                            Some((s2, Ok(o))) => Some((s2, Ok(prev.push(o)))),
                        }
                    } else {
                        Some((s1, Ok(prev)))
                    },
                },
            },
        }
    }
}

/// Once the first `k` elements have failed (or not come out),
/// lowering more of them gives the same.
pub proof fn lemma_elems_stop(c: LowerCtx, s: LowerState, values: Seq<Expression>, k: int, n: int)
    requires
        0 <= k <= n <= values.len(),
        !(sp_elems(c, s, values, k) matches Some((_, r)) && r is Ok),
    ensures
        sp_elems(c, s, values, n) == sp_elems(c, s, values, k),
    decreases n - k,
{
    if k < n {
        lemma_elems_stop(c, s, values, k, n - 1);
    }
}

/// Once the first `k` fields have failed (or not come out),
/// lowering more of them gives the same.
pub proof fn lemma_fields_stop(
    c: LowerCtx,
    s: LowerState,
    struct_name: Seq<char>,
    fields: Seq<StructField>,
    values: Seq<(String, Expression)>,
    k: int,
    n: int,
    span: Span,
)
    requires
        0 <= k <= n <= fields.len(),
        !(sp_fields(c, s, struct_name, fields, values, k, span) matches Some((_, r)) && r is Ok),
    ensures
        sp_fields(c, s, struct_name, fields, values, n, span) == sp_fields(c, s, struct_name, fields, values, k, span),
    decreases n - k,
{
    if k < n {
        lemma_fields_stop(c, s, struct_name, fields, values, k, n - 1, span);
    }
}

/// The type held at a viewed place.
pub open spec fn sp_place_type(c: LowerCtx, s: LowerState, p: PlaceV) -> Option<SoulType> {
    let start = if p.local.0 < s.locals.len() {
        Some(s.locals[p.local.0 as int].ty)
    } else {
        None
    };
    project_type(c.declares, c.module, start, p.projection)
}

pub open spec fn sp_operand_type(c: LowerCtx, s: LowerState, o: OperandV) -> Option<SoulType> {
    match o {
        OperandV::Copy(p) => sp_place_type(c, s, p),
        OperandV::Move(p) => sp_place_type(c, s, p),
        OperandV::Constant(_) => None,
    }
}

/// The type an operand pair is computed at: the first operand that is a
/// place, else the resolver's type for the whole expression.
pub open spec fn sp_operation_type(c: LowerCtx, s: LowerState, l: OperandV, r: OperandV, expr_id: usize) -> Option<SoulType> {
    match sp_operand_type(c, s, l) {
        Some(t) => Some(t),
        None => match sp_operand_type(c, s, r) {
            Some(t) => Some(t),
            None => seq_get(c.declares.expression_types@, expr_id as int),
        },
    }
}

pub open spec fn is_float_type(t: Option<SoulType>) -> bool {
    t matches Some(SoulType::Primitive(p)) && spec_is_float_primitive(p)
}

/// A fresh `bool` temp assigned `r`.
pub open spec fn st_bool_temp(s: LowerState, span: Span, r: RvalueV) -> (LowerState, LocalId) {
    let (s1, t) = st_alloc(
        s,
        LocalDecl { ty: SoulType::Primitive(PrimitiveTypes::Boolean), mutability: TypeModifier::Immut, span },
    );
    (st_push(s1, StatementV::Assign(local_place(t), r)), t)
}

/// Ends the current block with an assert that `cond` is false, trapping
/// with `text`, and continues in a fresh block.
pub open spec fn st_assert_false(s: LowerState, cond: OperandV, text: Seq<char>, span: Span) -> LowerState {
    let (s1, next) = st_new_block(s);
    st_seal(
        s1,
        TerminatorV::Assert { cond, expected: false, msg: OperandV::Constant(LiteralV::Str(text)), target: next, span },
        Some(next),
    )
}

/// Checked `Add`/`Sub`/`Mul`: a `(result, overflowed)` tuple temp, an assert
/// that `overflowed` is false, and the result half.
pub open spec fn sp_checked_arith(
    c: LowerCtx,
    s: LowerState,
    op: BinaryOperatorKind,
    l: OperandV,
    r: OperandV,
    expr_id: usize,
    span: Span,
) -> (LowerState, ResV<RvalueV>) {
    match sp_operation_type(c, s, l, r, expr_id) {
        None => (s, Err(FaultV::error(MirErrorKindV::NestedExpressionHasNoResolvedType, Some(span)))),
        Some(ty) => if !(ty is Primitive) {
            (s, Err(FaultV::error(MirErrorKindV::NonPrimitiveType { ty }, Some(span))))
        } else {
            let tuple_ty = SoulType::Tuple(
                TypeList::Cons(
                    Box::new(ty),
                    Box::new(TypeList::Cons(Box::new(SoulType::Primitive(PrimitiveTypes::Boolean)), Box::new(TypeList::Empty))),
                ),
            );
            let (s1, t) = st_alloc(s, LocalDecl { ty: tuple_ty, mutability: TypeModifier::Immut, span });
            let s2 = st_push(s1, StatementV::Assign(local_place(t), RvalueV::CheckedBinaryOp(op, l, r)));
            let s3 = st_assert_false(
                s2,
                OperandV::Copy(PlaceV { local: t, projection: seq![PlaceElem::Field(1)] }),
                overflow_message(op),
                span,
            );
            (s3, Ok(RvalueV::Use(OperandV::Copy(PlaceV { local: t, projection: seq![PlaceElem::Field(0)] }))))
        },
    }
}

/// Checked `Div`/`Mod`: an assert that the divisor is not zero and, for a
/// signed type, one that this is not `MIN` divided by `-1`.
pub open spec fn sp_checked_div(
    c: LowerCtx,
    s: LowerState,
    op: BinaryOperatorKind,
    l: OperandV,
    r: OperandV,
    expr_id: usize,
    span: Span,
) -> (LowerState, ResV<RvalueV>) {
    match sp_operation_type(c, s, l, r, expr_id) {
        None => (s, Err(FaultV::error(MirErrorKindV::NestedExpressionHasNoResolvedType, Some(span)))),
        Some(ty) => match ty {
            SoulType::Primitive(p) => {
                let (s1, z) = st_bool_temp(
                    s,
                    span,
                    RvalueV::BinaryOp(BinaryOperatorKind::Eq, r, OperandV::Constant(LiteralV::Int(0))),
                );
                let s2 = st_assert_false(s1, OperandV::Copy(local_place(z)), zero_divisor_message(op), span);
                let s3 = match signed_bits(p, c.options) {
                    None => s2,
                    Some(bits) => {
                        let (a, m) = st_bool_temp(
                            s2,
                            span,
                            RvalueV::BinaryOp(BinaryOperatorKind::Eq, l, OperandV::Constant(LiteralV::Int(min_of_bits(bits)))),
                        );
                        let (b, n) = st_bool_temp(
                            a,
                            span,
                            RvalueV::BinaryOp(BinaryOperatorKind::Eq, r, OperandV::Constant(LiteralV::Int(-1i128))),
                        );
                        let (d, o) = st_bool_temp(
                            b,
                            span,
                            RvalueV::BinaryOp(
                                BinaryOperatorKind::LogAnd,
                                OperandV::Copy(local_place(m)),
                                OperandV::Copy(local_place(n)),
                            ),
                        );
                        st_assert_false(d, OperandV::Copy(local_place(o)), div_overflow_message(op), span)
                    },
                };
                (s3, Ok(RvalueV::BinaryOp(op, l, r)))
            },
            _ => (s, Err(FaultV::error(MirErrorKindV::NonPrimitiveType { ty }, Some(span)))),
        },
    }
}

/// The bounds check of an index: the slice's length and, unless the index
/// local is `uint` already, its cast, are compared into a `bool` temp, and
/// the block ends in an assert that it holds, continuing in a fresh block.
pub open spec fn sp_bounds_check(s: LowerState, collection: PlaceV, index_local: LocalId, span: Span) -> LowerState {
    let uint = SoulType::Primitive(PrimitiveTypes::Uint);
    let (s1, len) = st_alloc(s, LocalDecl { ty: uint, mutability: TypeModifier::Immut, span });
    let s2 = st_push(s1, StatementV::Assign(local_place(len), RvalueV::Len(collection)));
    let (s4, checked) = if s.locals[index_local.0 as int].ty == uint {
        (s2, index_local)
    } else {
        let (s3, cast) = st_alloc(s2, LocalDecl { ty: uint, mutability: TypeModifier::Immut, span });
        (
            st_push(s3, StatementV::Assign(local_place(cast), RvalueV::Cast(OperandV::Copy(local_place(index_local)), uint))),
            cast,
        )
    };
    let (s5, cond) = st_bool_temp(
        s4,
        span,
        RvalueV::BinaryOp(BinaryOperatorKind::Lt, OperandV::Copy(local_place(checked)), OperandV::Copy(local_place(len))),
    );
    let (s6, next) = st_new_block(s5);
    st_seal(
        s6,
        TerminatorV::Assert {
            cond: OperandV::Copy(local_place(cond)),
            expected: true,
            msg: OperandV::Constant(LiteralV::Str("index out of bounds"@)),
            target: next,
            span,
        },
        Some(next),
    )
}

/// `assert(cond)` in statement position: the one argument is lowered as a
/// condition and the block ends in an assert that it holds, continuing in
/// a fresh block that becomes the cursor.
pub open spec fn sp_assert(c: LowerCtx, s: LowerState, call: FunctionCall, span: Span) -> Option<(LowerState, ResV<()>)> {
    if call.arguments@.len() != 1 {
        Some(
            (
                s,
                Err(
                    FaultV::error(
                        MirErrorKindV::IntrinsicArityMismatch {
                            name: IntrinsicFunction::Assert.spec_name(),
                            expected: IntrinsicFunction::Assert.spec_arity(),
                            got: call.arguments@.len() as usize,
                        },
                        Some(span),
                    ),
                ),
            ),
        )
    } else {
        match sp_condition(c, s, call.arguments@[0].value) {
            None => None,
            Some((s1, Err(f))) => Some((s1, Err(f))),
            Some((s1, Ok(d))) => {
                let (s2, next) = st_new_block(s1);
                Some(
                    (
                        st_seal(
                            s2,
                            TerminatorV::Assert {
                                cond: d,
                                expected: true,
                                msg: OperandV::Constant(LiteralV::Str("assertion failed"@)),
                                target: next,
                                span,
                            },
                            Some(next),
                        ),
                        Ok(()),
                    ),
                )
            },
        }
    }
}

/// `panic(msg)` in statement position: the block ends in an assert of the
/// constant `false` carrying the lowered message, whose continuation block
/// is never filled; nothing is under the cursor afterwards.
pub open spec fn sp_panic(c: LowerCtx, s: LowerState, call: FunctionCall, span: Span) -> Option<(LowerState, ResV<()>)> {
    if call.arguments@.len() != 1 {
        Some(
            (
                s,
                Err(
                    FaultV::error(
                        MirErrorKindV::IntrinsicArityMismatch {
                            name: IntrinsicFunction::Panic.spec_name(),
                            expected: IntrinsicFunction::Panic.spec_arity(),
                            got: call.arguments@.len() as usize,
                        },
                        Some(span),
                    ),
                ),
            ),
        )
    } else {
        match sp_operand(c, s, call.arguments@[0].value) {
            None => None,
            Some((s1, Err(f))) => Some((s1, Err(f))),
            Some((s1, Ok(m))) => {
                let (s2, dead) = st_new_block(s1);
                Some(
                    (
                        st_seal(
                            s2,
                            TerminatorV::Assert {
                                cond: OperandV::Constant(LiteralV::Bool(false)),
                                expected: true,
                                msg: m,
                                target: dead,
                                span,
                            },
                            None,
                        ),
                        Ok(()),
                    ),
                )
            },
        }
    }
}

/// Lowering a condition: an accepted shape lowered as an operand.
pub open spec fn sp_condition(c: LowerCtx, s: LowerState, e: Expression) -> Option<(LowerState, ResV<OperandV>)> {
    if !sp_is_bool(c.declares, e) {
        Some((s, Err(FaultV::error(MirErrorKindV::UnsupportedConditionExpression, Some(e.span)))))
    } else {
        sp_operand(c, s, e)
    }
}

// ---------------------------------------------------------------------------
// Statements and control flow.

/// Lowering `stmts[i..]` in order, stopping at the first fault; a statement
/// reached once every path has left the block is an `UnreachableStatement`
/// warning.
pub open spec fn sp_body(
    c: LowerCtx,
    s: LowerState,
    rl: Option<LocalId>,
    stmts: Seq<AstStatement>,
    i: int,
) -> Option<(LowerState, ResV<()>)>
    decreases stmts, 6int, stmts.len() - i,
{
    if i < 0 || i >= stmts.len() {
        Some((s, Ok(())))
    } else if s.current is None {
        Some((s, Err(FaultV::warning(MirErrorKindV::UnreachableStatement, Some(stmts[i].span)))))
    } else {
        match sp_statement(c, s, rl, stmts[i]) {
            None => None,
            Some((s1, Err(f))) => Some((s1, Err(f))),
            Some((s1, Ok(()))) => sp_body(c, s1, rl, stmts, i + 1),
        }
    }
}

pub open spec fn sp_statement(c: LowerCtx, s: LowerState, rl: Option<LocalId>, st: AstStatement) -> Option<
    (LowerState, ResV<()>),
>
    decreases st, 5int, 0int,
{
    match st.kind {
        StatementKind::Variable(var) => match var.pattern {
            VarPattern::Destructure => Some(
                (s, Err(FaultV::error(MirErrorKindV::NonSimpleVariablePatternUnsupported, Some(st.span)))),
            ),
            VarPattern::Simple { binding, modifier } => match var.initialize_value {
                None => Some((s, Err(FaultV::error(MirErrorKindV::UninitializedVariableUnsupported, Some(st.span))))),
                Some(init) => match seq_get(c.declares.variable_types@, binding.id as int) {
                    None => Some((s, Err(FaultV::error(MirErrorKindV::VariableHasNoResolvedType, Some(binding.span))))),
                    Some(ty) => if !lowerable(c.declares, c.module, ty) {
                        Some((s, Err(FaultV::error(MirErrorKindV::NonPrimitiveType { ty }, Some(binding.span)))))
                    } else {
                        match sp_rvalue(c, s, init) {
                            None => None,
                            Some((s1, Err(f))) => Some((s1, Err(f))),
                            Some((s1, Ok(r))) => {
                                let (s2, l) = st_alloc(s1, LocalDecl { ty, mutability: modifier, span: binding.span });
                                let s3 = st_bind(s2, binding.id, l);
                                Some((st_push(s3, StatementV::Assign(local_place(l), r)), Ok(())))
                            },
                        }
                    },
                },
            },
        },
        StatementKind::Assignment { left, right } => match left.kind {
            ExpressionKind::Variable { id } => match sp_resolve_local(c, s, id, left.span) {
                Err(f) => Some((s, Err(f))),
                Ok(l) => match sp_rvalue(c, s, right) {
                    None => None,
                    Some((s1, Err(f))) => Some((s1, Err(f))),
                    Some((s1, Ok(r))) => Some((st_push(s1, StatementV::Assign(local_place(l), r)), Ok(()))),
                },
            },
            ExpressionKind::FieldAccess { .. } | ExpressionKind::Index { .. } => match sp_place(c, s, left, left.span) {
                None => None,
                Some((s1, Err(f))) => Some((s1, Err(f))),
                Some((s1, Ok((p, _)))) => match sp_rvalue(c, s1, right) {
                    None => None,
                    Some((s2, Err(f))) => Some((s2, Err(f))),
                    Some((s2, Ok(r))) => Some((st_push(s2, StatementV::Assign(p, r)), Ok(()))),
                },
            },
            _ => Some((s, Err(FaultV::error(MirErrorKindV::AssignmentTargetUnsupported, Some(left.span))))),
        },
        StatementKind::Expression(expr) => match expr.kind {
            ExpressionKind::Return(Some(value)) => match rl {
                None => Some((s, Err(FaultV::error(MirErrorKindV::UnexpectedReturnValue, Some(expr.span))))),
                Some(l) => match sp_rvalue(c, s, *value) {
                    None => None,
                    Some((s1, Err(f))) => Some((s1, Err(f))),
                    Some((s1, Ok(r))) => Some(
                        (st_seal(st_push(s1, StatementV::Assign(local_place(l), r)), TerminatorV::Return, None), Ok(())),
                    ),
                },
            },
            ExpressionKind::Return(None) => Some((st_seal(s, TerminatorV::Return, None), Ok(()))),
            ExpressionKind::If(ie) => sp_if(c, s, rl, ie, expr.span),
            ExpressionKind::Match { scrutinee, arms } => sp_match(c, s, rl, *scrutinee, arms@, expr.span),
            ExpressionKind::For(fe) => sp_for(c, s, rl, fe, expr.span),
            ExpressionKind::Break => if s.loops.len() == 0 {
                Some((s, Err(FaultV::error(MirErrorKindV::BreakOutsideLoop, Some(expr.span)))))
            } else {
                Some((st_seal(s, TerminatorV::Goto(s.loops.last().exit), None), Ok(())))
            },
            ExpressionKind::Continue => if s.loops.len() == 0 {
                Some((s, Err(FaultV::error(MirErrorKindV::ContinueOutsideLoop, Some(expr.span)))))
            } else {
                Some((st_seal(s, TerminatorV::Goto(s.loops.last().header), None), Ok(())))
            },
            ExpressionKind::FunctionCall(call) => match seq_get(c.declares.intrinsic_resolves@, call.id as int) {
                Some(IntrinsicFunction::Assert) => sp_assert(c, s, call, expr.span),
                Some(IntrinsicFunction::Panic) => sp_panic(c, s, call, expr.span),
                Some(k) => Some(
                    (s, Err(FaultV::error(MirErrorKindV::UnsupportedIntrinsic { name: k.spec_name() }, Some(expr.span)))),
                ),
                None => match sp_call(c, s, call, expr.span, false) {
                    None => None,
                    Some((s1, Err(f))) => Some((s1, Err(f))),
                    Some((s1, Ok(_))) => Some((s1, Ok(()))),
                }
            },
            _ => Some((s, Err(FaultV::error(MirErrorKindV::NonReturnTerminalStatementUnsupported, Some(st.span))))),
        },
        StatementKind::Other => Some((s, Err(FaultV::error(MirErrorKindV::UnsupportedStatementKind, Some(st.span))))),
    }
}

/// A pattern `match` lowering accepts: a literal other than a string, `_`,
/// or a binding.
pub open spec fn pattern_supported(p: MatchPattern) -> bool {
    match p {
        MatchPattern::Literal(lit) => !(lit is Str),
        MatchPattern::Wildcard => true,
        MatchPattern::Binding(_) => true,
        MatchPattern::Other => false,
    }
}

pub open spec fn patterns_supported(arms: Seq<MatchArm>) -> bool {
    forall|i: int| 0 <= i < arms.len() ==> pattern_supported(#[trigger] arms[i].pattern)
}

/// An integer or character literal: a value the switch compares against.
pub open spec fn is_switch_literal(p: MatchPattern) -> bool {
    p matches MatchPattern::Literal(lit) && (lit is Int || lit is Uint || lit is Char)
}

/// A `bool` or float literal pattern: its arm gets a block that no switch
/// target names and whose body is not lowered.
pub open spec fn is_dropped_arm(p: MatchPattern) -> bool {
    p matches MatchPattern::Literal(lit) && (lit is Bool || lit is Float)
}

/// `_` or a binding: the arm the switch falls back to.
pub open spec fn is_catch_all(p: MatchPattern) -> bool {
    p is Wildcard || p is Binding
}

/// The switch targets of the first `n` arms, whose blocks are allocated in
/// arm order from `first`: one `(value, arm block)` per literal arm.
pub open spec fn match_targets(arms: Seq<MatchArm>, first: int, n: int) -> Seq<(Literal, BlockId)>
    decreases n,
{
    if n <= 0 {
        Seq::empty()
    } else {
        let prev = match_targets(arms, first, n - 1);
        if is_switch_literal(arms[n - 1].pattern) {
            prev.push((arms[n - 1].pattern->Literal_0, BlockId((first + n - 1) as usize)))
        } else {
            prev
        }
    }
}

/// The block of the last `_` or binding arm among the first `n`.
pub open spec fn match_catch_all(arms: Seq<MatchArm>, first: int, n: int) -> Option<BlockId>
    decreases n,
{
    if n <= 0 {
        None
    } else if is_catch_all(arms[n - 1].pattern) {
        Some(BlockId((first + n - 1) as usize))
    } else {
        match_catch_all(arms, first, n - 1)
    }
}

/// `n` fresh blocks allocated at once.
pub open spec fn st_new_blocks(s: LowerState, n: nat) -> LowerState {
    LowerState { blocks: s.blocks + Seq::new(n, |j: int| None::<BasicBlockV>), ..s }
}

/// `match`: the scrutinee is lowered to an operand; each arm gets a block in
/// arm order, then the join block is allocated. The current block ends in a
/// switch on the scrutinee with one `(value, arm block)` target per integer
/// or character literal arm, in arm order, falling back to the last `_` or
/// binding arm; without one, a fresh block that is `Unreachable` takes
/// value `0` and the fallback. Each arm is then lowered in its block (a
/// binding arm first assigns the scrutinee to a new local for the binding),
/// and one that falls through ends in `Goto(join)`. The join block is the
/// cursor afterwards.
#[verifier::opaque]
pub open spec fn sp_match(
    c: LowerCtx,
    s: LowerState,
    rl: Option<LocalId>,
    scrutinee: Expression,
    arms: Seq<MatchArm>,
    span: Span,
) -> Option<(LowerState, ResV<()>)>
    decreases arms, 7int, 0int,
{
    if !patterns_supported(arms) {
        Some((s, Err(FaultV::error(MirErrorKindV::UnsupportedMatchPattern, Some(span)))))
    } else {
        match sp_operand(c, s, scrutinee) {
            None => None,
            Some((s1, Err(f))) => Some((s1, Err(f))),
            Some((s1, Ok(d))) => {
                let first = s1.blocks.len() as int;
                let (s2, join) = st_new_block(st_new_blocks(s1, arms.len()));
                let targets = match_targets(arms, first, arms.len() as int);
                let s3 = match match_catch_all(arms, first, arms.len() as int) {
                    Some(other) => st_seal(
                        s2,
                        TerminatorV::SwitchInt { discriminant: d, targets, otherwise: other },
                        None,
                    ),
                    None => {
                        let (x, e) = st_new_block(s2);
                        let y = st_seal(
                            x,
                            TerminatorV::SwitchInt { discriminant: d, targets: targets.push((Literal::Int(0), e)), otherwise: e },
                            None,
                        );
                        st_seal(st_move(y, Some(e)), TerminatorV::Unreachable, None)
                    },
                };
                finish_match(sp_match_arms(c, s3, rl, d, arms, 0, first, join), join)
            },
        }
    }
}

/// Once the arms are lowered, the join block becomes the cursor.
pub open spec fn finish_match(r: Option<(LowerState, ResV<()>)>, join: BlockId) -> Option<
    (LowerState, ResV<()>),
> {
    match r {
        None => None,
        Some((s, Err(f))) => Some((s, Err(f))),
        Some((s, Ok(()))) => Some((st_move(s, Some(join)), Ok(()))),
    }
}

/// Lowering the arms of a `match` from arm `i`, arm `j` in block `first + j`.
pub open spec fn sp_match_arms(
    c: LowerCtx,
    s: LowerState,
    rl: Option<LocalId>,
    d: OperandV,
    arms: Seq<MatchArm>,
    i: int,
    first: int,
    join: BlockId,
) -> Option<(LowerState, ResV<()>)>
    decreases arms, 6int, arms.len() - i,
{
    if i < 0 || i >= arms.len() {
        Some((s, Ok(())))
    } else if is_dropped_arm(arms[i].pattern) {
        sp_match_arms(c, s, rl, d, arms, i + 1, first, join)
    } else {
        match sp_match_arm(c, st_move(s, Some(BlockId((first + i) as usize))), rl, d, arms[i], join) {
            None => None,
            Some((s1, Err(f))) => Some((s1, Err(f))),
            Some((s1, Ok(()))) => sp_match_arms(c, s1, rl, d, arms, i + 1, first, join),
        }
    }
}

/// Lowering one arm whose block is under the cursor: a binding arm first
/// assigns the scrutinee `d` to a new local for the binding; the body
/// follows, and a body that falls through ends in `Goto(join)`.
pub open spec fn sp_match_arm(c: LowerCtx, s: LowerState, rl: Option<LocalId>, d: OperandV, arm: MatchArm, join: BlockId) -> Option<
    (LowerState, ResV<()>),
>
    decreases arm, 5int, 0int,
{
    let bound: (LowerState, ResV<()>) = match arm.pattern {
        MatchPattern::Binding(b) => match seq_get(c.declares.variable_types@, b.id as int) {
            None => (s, Err(FaultV::error(MirErrorKindV::VariableHasNoResolvedType, Some(b.span)))),
            Some(ty) => if !lowerable(c.declares, c.module, ty) {
                (s, Err(FaultV::error(MirErrorKindV::NonPrimitiveType { ty }, Some(b.span))))
            } else {
                let (x, l) = st_alloc(s, LocalDecl { ty, mutability: TypeModifier::Immut, span: b.span });
                (st_push(st_bind(x, b.id, l), StatementV::Assign(local_place(l), RvalueV::Use(d))), Ok(()))
            },
        },
        _ => (s, Ok(())),
    };
    match bound {
        (s2, Err(f)) => Some((s2, Err(f))),
        (s2, Ok(())) => match sp_body(c, s2, rl, arm.block.statements@, 0) {
            None => None,
            Some((s3, Err(f))) => Some((s3, Err(f))),
            Some((s3, Ok(()))) => Some(
                (
                    if s3.current is Some {
                        st_seal(s3, TerminatorV::Goto(join), None)
                    } else {
                        s3
                    },
                    Ok(()),
                ),
            ),
        },
    }
}

/// The branch of an `if`: the else block's statements or a nested `if`.
pub open spec fn sp_else(c: LowerCtx, s: LowerState, rl: Option<LocalId>, br: IfBranch, span: Span) -> Option<
    (LowerState, ResV<()>),
>
    decreases br, 1int, 0int,
{
    match br {
        IfBranch::Else(block) => sp_body(c, s, rl, block.statements@, 0),
        IfBranch::ElseIf(nested) => sp_if(c, s, rl, nested, span),
    }
}

/// `if`: the condition's block ends in a two-way switch to the then block
/// (first new block) and the else block (third) or, without an else, the
/// join block (second); a branch that falls through ends in `Goto(join)`,
/// and the join block is the cursor afterwards if any branch reaches it.
pub open spec fn sp_if(c: LowerCtx, s: LowerState, rl: Option<LocalId>, ie: If, span: Span) -> Option<
    (LowerState, ResV<()>),
>
    decreases ie, 0int, 0int,
{
    match ie.condition {
        IfCondition::Other => Some((s, Err(FaultV::error(MirErrorKindV::UnsupportedConditionExpression, Some(span))))),
        IfCondition::Expression(cond) => match sp_condition(c, s, *cond) {
            None => None,
            Some((s1, Err(f))) => Some((s1, Err(f))),
            Some((s1, Ok(d))) => {
                let (s2, then_id) = st_new_block(s1);
                let (s3, join_id) = st_new_block(s2);
                let (s4, false_id) = if ie.branch is Some {
                    st_new_block(s3)
                } else {
                    (s3, join_id)
                };
                let s5 = st_seal(
                    s4,
                    TerminatorV::SwitchInt { discriminant: d, targets: seq![(Literal::Bool(true), then_id)], otherwise: false_id },
                    Some(then_id),
                );
                match sp_body(c, s5, rl, ie.block.statements@, 0) {
                    None => None,
                    Some((s6, Err(f))) => Some((s6, Err(f))),
                    Some((s6, Ok(()))) => {
                        let then_reaches = s6.current is Some;
                        let s7 = if then_reaches {
                            st_seal(s6, TerminatorV::Goto(join_id), None)
                        } else {
                            s6
                        };
                        match ie.branch {
                            None => Some((st_move(s7, Some(join_id)), Ok(()))),
                            Some(br) => match sp_else(c, st_move(s7, Some(false_id)), rl, *br, span) {
                                None => None,
                                Some((s8, Err(f))) => Some((s8, Err(f))),
                                Some((s8, Ok(()))) => {
                                    let else_reaches = s8.current is Some;
                                    let s9 = if else_reaches {
                                        st_seal(s8, TerminatorV::Goto(join_id), None)
                                    } else {
                                        s8
                                    };
                                    let next = if then_reaches || else_reaches {
                                        Some(join_id)
                                    } else {
                                        None
                                    };
                                    Some((st_move(s9, next), Ok(())))
                                },
                            },
                        }
                    },
                }
            },
        },
    }
}

/// A while-loop: the current block jumps to a header (first new block) that
/// tests the condition and switches to the body (second) or the exit
/// (third); the body runs with the loop on the loop stack and falls back to
/// the header; the exit block is the cursor afterwards.
pub open spec fn sp_for(c: LowerCtx, s: LowerState, rl: Option<LocalId>, fe: For, span: Span) -> Option<
    (LowerState, ResV<()>),
>
    decreases fe, 0int, 0int,
{
    match fe.condition {
        ForCondition::Other => Some((s, Err(FaultV::error(MirErrorKindV::UnsupportedLoopCondition, Some(span))))),
        ForCondition::While(cond) => {
            let (s1, header) = st_new_block(s);
            let (s2, body) = st_new_block(s1);
            let (s3, exit) = st_new_block(s2);
            let s4 = st_seal(s3, TerminatorV::Goto(header), Some(header));
            match sp_condition(c, s4, *cond) {
                None => None,
                Some((s5, Err(f))) => Some((s5, Err(f))),
                Some((s5, Ok(d))) => {
                    let s6 = st_seal(
                        s5,
                        TerminatorV::SwitchInt { discriminant: d, targets: seq![(Literal::Bool(true), body)], otherwise: exit },
                        Some(body),
                    );
                    let s7 = LowerState { loops: s6.loops.push(LoopTargets { header, exit }), ..s6 };
                    match sp_body(c, s7, rl, fe.block.statements@, 0) {
                        None => None,
                        Some((s8, r)) => {
                            let s9 = LowerState { loops: s8.loops.drop_last(), ..s8 };
                            match r {
                                Err(f) => Some((s9, Err(f))),
                                Ok(()) => {
                                    let s10 = if s9.current is Some {
                                        st_seal(s9, TerminatorV::Goto(header), None)
                                    } else {
                                        s9
                                    };
                                    Some((st_move(s10, Some(exit)), Ok(())))
                                },
                            }
                        },
                    }
                },
            }
        },
    }
}

// ---------------------------------------------------------------------------
// Whole functions.

/// The state once the parameters are bound: parameter `j` is local `j`.
pub open spec fn param_state(params: Seq<Parameter>, n: int) -> LowerState {
    LowerState {
        locals: Seq::new(n as nat, |j: int| parameter_decl(params[j])),
        blocks: Seq::empty(),
        statements: Seq::empty(),
        current: None,
        bindings: Seq::new(n as nat, |j: int| (params[j].id, LocalId(j as usize))),
        loops: Seq::empty(),
    }
}

/// What a function's lowering works under: its declarations, options and
/// module.
pub open spec fn function_ctx(d: DeclareStore, o: LoweringOptions, f: AstFunction) -> LowerCtx {
    LowerCtx { declares: d, options: o, module: spec_module(d, f.signature.id) }
}

/// The local holding a function's result: the one after the parameters,
/// unless it returns `none`.
pub open spec fn return_local_of(f: AstFunction) -> Option<LocalId> {
    if f.signature.return_type is NoneType {
        None
    } else {
        Some(LocalId(f.signature.parameters@.len() as usize))
    }
}

/// The state the body is lowered from: parameters, the return local if any,
/// and the entry block `bb0` under the cursor.
pub open spec fn entry_state(f: AstFunction) -> LowerState {
    let sig = f.signature;
    let params = sig.parameters@;
    let s0 = param_state(params, params.len() as int);
    let s1 = if sig.return_type is NoneType {
        s0
    } else {
        st_alloc(s0, LocalDecl { ty: sig.return_type, mutability: TypeModifier::Mut, span: sig.name_span }).0
    };
    LowerState { blocks: seq![None], current: Some(BlockId(0)), ..s1 }
}

/// Lowering a whole function with a body: parameters first, then the
/// return local, then the body from the entry block `bb0`; falling off the
/// end returns from a `none` function and is `MissingReturnStatement` in
/// any other.
pub open spec fn sp_lower(d: DeclareStore, o: LoweringOptions, f: AstFunction) -> Option<ResV<FunctionV>> {
    let sig = f.signature;
    let params = sig.parameters@;
    let module = spec_module(d, sig.id);
    let is_none = sig.return_type is NoneType;
    match first_unlowerable(d, module, params, 0) {
        Some(k) => Some(Err(FaultV::error(MirErrorKindV::NonPrimitiveType { ty: params[k].ty }, Some(params[k].name_span)))),
        None => if !is_none && !lowerable(d, module, sig.return_type) {
            Some(Err(FaultV::error(MirErrorKindV::NonPrimitiveType { ty: sig.return_type }, Some(sig.name_span))))
        } else {
            match sp_body(function_ctx(d, o, f), entry_state(f), return_local_of(f), f.body.statements@, 0) {
                None => None,
                Some((_, Err(e))) => Some(Err(e)),
                Some((s3, Ok(()))) => if s3.current is Some && !is_none {
                    Some(Err(FaultV::error(MirErrorKindV::MissingReturnStatement, Some(sig.span))))
                } else {
                    let s4 = if s3.current is Some {
                        st_seal(s3, TerminatorV::Return, None)
                    } else {
                        s3
                    };
                    Some(Ok(FunctionV {
                        id: sig.id,
                        locals: s4.locals,
                        blocks: s4.blocks,
                        arg_count: params.len() as usize,
                        return_local: return_local_of(f),
                    }))
                },
            }
        },
    }
}

/// A statement that follows a `return` in the same body is reported as an
/// `UnreachableStatement` warning at that statement, once the `return`
/// itself lowers.
pub proof fn law_statement_after_return_is_unreachable(
    c: LowerCtx,
    s: LowerState,
    rl: Option<LocalId>,
    stmts: Seq<AstStatement>,
    i: int,
)
    requires
        0 <= i,
        i + 1 < stmts.len(),
        s.current is Some,
        stmts[i].kind matches StatementKind::Expression(e) && e.kind is Return,
        sp_statement(c, s, rl, stmts[i]) matches Some((_, r)) && r is Ok,
    ensures
        sp_body(c, s, rl, stmts, i) matches Some((_, Err(f))) && f == FaultV::warning(
            MirErrorKindV::UnreachableStatement,
            Some(stmts[i + 1].span),
        ),
{
    let (s1, _) = sp_statement(c, s, rl, stmts[i])->Some_0;
    assert(s1.current is None);
    assert(sp_body(c, s1, rl, stmts, i + 1) == Some(
        (s1, Err::<(), FaultV>(FaultV::warning(MirErrorKindV::UnreachableStatement, Some(stmts[i + 1].span)))),
    ));
}

/// A function that does not return `none` and whose body lowers but lets
/// control fall off its end is refused with `MissingReturnStatement` at its
/// signature.
pub proof fn law_falling_off_a_valued_function_is_missing_return(d: DeclareStore, o: LoweringOptions, f: AstFunction)
    requires
        first_unlowerable(d, spec_module(d, f.signature.id), f.signature.parameters@, 0) is None,
        !(f.signature.return_type is NoneType),
        lowerable(d, spec_module(d, f.signature.id), f.signature.return_type),
        sp_body(function_ctx(d, o, f), entry_state(f), return_local_of(f), f.body.statements@, 0) matches Some(
            (s, r),
        ) && r is Ok && s.current is Some,
    ensures
        sp_lower(d, o, f) == Some(
            Err::<FunctionV, FaultV>(FaultV::error(MirErrorKindV::MissingReturnStatement, Some(f.signature.span))),
        ),
{
}

/// In a `none` function, falling off the end of the body is an implicit
/// `return`: the last open block is sealed with `Return` and the function
/// has no return local.
pub proof fn law_none_function_falls_off_into_return(d: DeclareStore, o: LoweringOptions, f: AstFunction)
    requires
        first_unlowerable(d, spec_module(d, f.signature.id), f.signature.parameters@, 0) is None,
        f.signature.return_type is NoneType,
        sp_body(function_ctx(d, o, f), entry_state(f), None, f.body.statements@, 0) matches Some((s, r)) && r is Ok
            && s.current is Some,
    ensures
        sp_lower(d, o, f) matches Some(Ok(fv)) && {
            let (s, _) = sp_body(function_ctx(d, o, f), entry_state(f), None, f.body.statements@, 0)->Some_0;
            &&& fv.return_local is None
            &&& fv.blocks == s.blocks.update(
                s.current->Some_0.0 as int,
                Some(BasicBlockV { statements: s.statements, terminator: TerminatorV::Return }),
            )
        },
{
}

/// The faults lowering every function with a body in `slots` reports, in
/// slot order.
pub open spec fn sp_program_faults(d: DeclareStore, o: LoweringOptions, slots: Seq<Option<FunctionKind>>) -> Option<
    Seq<FaultV>,
>
    decreases slots.len(),
{
    if slots.len() == 0 {
        Some(Seq::empty())
    } else {
        match sp_program_faults(d, o, slots.drop_last()) {
            None => None,
            Some(prev) => match slots.last() {
                Some(FunctionKind::Normal(f)) => match sp_lower(d, o, f) {
                    None => None,
                    Some(Ok(_)) => Some(prev),
                    Some(Err(e)) => Some(prev.push(e)),
                },
                _ => Some(prev),
            },
        }
    }
}

pub open spec fn intrinsic_res_view(r: MirResult<bool>) -> ResV<()> {
    match r {
        Ok(_) => Ok(()),
        Err(e) => Err(e@),
    }
}

pub open spec fn operand_res_view(r: MirResult<crate::mir::Operand>) -> ResV<OperandV> {
    match r {
        Ok(o) => Ok(o@),
        Err(e) => Err(e@),
    }
}

pub open spec fn rvalue_res_view(r: MirResult<crate::mir::Rvalue>) -> ResV<RvalueV> {
    match r {
        Ok(v) => Ok(v@),
        Err(e) => Err(e@),
    }
}

pub open spec fn function_result_view(r: MirResult<Function>) -> ResV<FunctionV> {
    match r {
        Ok(f) => Ok(function_view(f)),
        Err(e) => Err(e@),
    }
}

} // verus!

verus! {

/// A result that is not a refused condition.
pub open spec fn not_cond_fault<T>(r: Option<(LowerState, ResV<T>)>) -> bool {
    !(r matches Some((_, Err(f))) && f.kind is UnsupportedConditionExpression)
}

pub proof fn lemma_operand_not_cond(c: LowerCtx, s: LowerState, e: Expression)
    ensures
        not_cond_fault(sp_operand(c, s, e)),
    decreases e, 3int,
{
    match e.kind {
        ExpressionKind::Binary { .. } => {
            lemma_rvalue_not_cond(c, s, e);
        },
        ExpressionKind::Unary { .. } => {
            lemma_rvalue_not_cond(c, s, e);
        },
        ExpressionKind::FieldAccess { .. } => {
            lemma_place_not_cond(c, s, e, e.span);
        },
        ExpressionKind::Index { .. } => {
            lemma_place_not_cond(c, s, e, e.span);
        },
        ExpressionKind::FunctionCall(call) => {
            lemma_call_not_cond(c, s, call, e.span, true);
        },
        _ => {},
    }
}

pub proof fn lemma_rvalue_not_cond(c: LowerCtx, s: LowerState, e: Expression)
    ensures
        not_cond_fault(sp_rvalue(c, s, e)),
    decreases e, (if e.kind is Binary || e.kind is Unary { 2int } else { 4int }),
{
    match e.kind {
        ExpressionKind::Binary { op, left, right } => {
            lemma_operand_not_cond(c, s, *left);
            if let Some((s1, Ok(_))) = sp_operand(c, s, *left) {
                lemma_operand_not_cond(c, s1, *right);
            }
        },
        ExpressionKind::Unary { value, .. } => {
            lemma_operand_not_cond(c, s, *value);
        },
        ExpressionKind::StructConstructor { struct_type, values, .. } => {
            if let Some(st) = spec_resolve_struct(c.declares, c.module, struct_type) {
                lemma_fields_not_cond(c, s, st.name@, st.fields@, values@, st.fields@.len() as int, e.span);
            }
        },
        ExpressionKind::Ref { value, .. } => {
            lemma_place_not_cond(c, s, *value, e.span);
        },
        ExpressionKind::ArrayLiteral(values) => {
            lemma_elems_not_cond(c, s, values@, values@.len() as int);
        },
        _ => {
            lemma_operand_not_cond(c, s, e);
        },
    }
}

pub proof fn lemma_place_not_cond(c: LowerCtx, s: LowerState, e: Expression, span: Span)
    ensures
        not_cond_fault(sp_place(c, s, e, span)),
    decreases e, 2int,
{
    match e.kind {
        ExpressionKind::FieldAccess { object, .. } => {
            lemma_place_not_cond(c, s, *object, object.span);
        },
        ExpressionKind::Index { collection, index } => {
            lemma_place_not_cond(c, s, *collection, collection.span);
            if let Some((s1, Ok(_))) = sp_place(c, s, *collection, collection.span) {
                lemma_operand_local_not_cond(c, s1, *index, SoulType::Primitive(PrimitiveTypes::Uint), e.span);
            }
        },
        _ => {},
    }
}

pub proof fn lemma_operand_local_not_cond(c: LowerCtx, s: LowerState, e: Expression, ty: SoulType, span: Span)
    ensures
        not_cond_fault(sp_operand_local(c, s, e, ty, span)),
    decreases e, 5int,
{
    if !(e.kind is Variable) {
        lemma_rvalue_not_cond(c, s, e);
    }
}

pub proof fn lemma_call_not_cond(c: LowerCtx, s: LowerState, call: FunctionCall, span: Span, want: bool)
    ensures
        not_cond_fault(sp_call(c, s, call, span, want)),
    decreases call, 1int,
{
    lemma_args_not_cond(c, s, call.arguments@, call.arguments@.len() as int, span);
}

pub proof fn lemma_args_not_cond(c: LowerCtx, s: LowerState, args: Seq<Argument>, n: int, span: Span)
    ensures
        not_cond_fault(sp_args(c, s, args, n, span)),
    decreases args, n,
{
    if 0 < n <= args.len() {
        lemma_args_not_cond(c, s, args, n - 1, span);
        if let Some((s1, Ok(_))) = sp_args(c, s, args, n - 1, span) {
            lemma_operand_not_cond(c, s1, args[n - 1].value);
        }
    }
}

pub proof fn lemma_elems_not_cond(c: LowerCtx, s: LowerState, values: Seq<Expression>, n: int)
    ensures
        not_cond_fault(sp_elems(c, s, values, n)),
    decreases values, n,
{
    if 0 < n <= values.len() {
        lemma_elems_not_cond(c, s, values, n - 1);
        if let Some((s1, Ok(_))) = sp_elems(c, s, values, n - 1) {
            lemma_operand_not_cond(c, s1, values[n - 1]);
        }
    }
}

pub proof fn lemma_fields_not_cond(
    c: LowerCtx,
    s: LowerState,
    struct_name: Seq<char>,
    fields: Seq<StructField>,
    values: Seq<(String, Expression)>,
    n: int,
    span: Span,
)
    ensures
        not_cond_fault(sp_fields(c, s, struct_name, fields, values, n, span)),
    decreases values, n,
{
    if 0 < n <= fields.len() {
        lemma_fields_not_cond(c, s, struct_name, fields, values, n - 1, span);
        if let Some((s1, Ok(_))) = sp_fields(c, s, struct_name, fields, values, n - 1, span) {
            if let VarPattern::Simple { binding, .. } = fields[n - 1].pattern {
                if let Some(k) = value_position(values, binding.ident@, 0) {
                    if 0 <= k < values.len() {
                        lemma_operand_not_cond(c, s1, values[k].1);
                    }
                }
            }
        }
    }
}

/// A condition of an accepted shape (a `bool` literal or variable, a `!`,
/// or a `bool`-typed binary expression) is never refused as a condition.
pub proof fn law_accepted_condition_is_not_refused(c: LowerCtx, s: LowerState, e: Expression)
    requires
        sp_is_bool(c.declares, e),
    ensures
        not_cond_fault(sp_condition(c, s, e)),
{
    lemma_operand_not_cond(c, s, e);
}

} // verus!
