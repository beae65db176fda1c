//! Operands and rvalues: flattening nested expressions into temporaries,
//! checked arithmetic, aggregates, references and calls.

use vstd::prelude::*;
use vstd::string::*;

use crate::ast::{seq_get, Expression, ExpressionKind, FunctionCall, FunctionResolve, IntrinsicFunction, VarPattern};
use crate::fault::{body_fault, res_view, severity_ok, Fault, FaultV, MirErrorKind, MirResult};
use crate::lower::place::is_text_constant;
use crate::lower::{
    cursor_ok, evolves, is_float_primitive, lemma_evolves_refl, lemma_evolves_then_base,
    lemma_evolves_trans, lowerable, require_primitive, spec_is_float_primitive, spec_resolve_struct,
    FunctionLowerer, LoweringOptions,
};
use crate::lower::semantics::{
    law_accepted_condition_is_not_refused, sp_checked_arith, sp_checked_div, st_assert_false, st_bool_temp, call_res_view, lemma_args_stop, lemma_elems_stop, lemma_fields_stop, operand_res_view, rvalue_res_view, sp_args,
    sp_call, sp_condition, sp_elems, sp_fields, sp_operand, sp_rvalue,
};
use crate::mir::{
    lemma_operand_wf_mono, lemma_operands_wf_mono, lemma_place_wf_mono, lemma_rvalue_wf_mono,
    local_place, operand_wf, LocalDecl, operands_wf, place_wf, rvalue_wf, AggregateKind, BlockId, LocalId,
    operands_view, Operand, OperandV, Place, PlaceElem, PlaceV, Rvalue, RvalueV, Statement, StatementV,
    Terminator, TerminatorV,
};
use crate::types::{
    LiteralV, ArrayKind, BinaryOperatorKind, Literal, PrimitiveTypes, SoulType, Span, TypeList, TypeModifier,
    UnaryOperatorKind,
};

verus! {

broadcast use lemma_evolves_trans, vstd::std_specs::vec::group_vec_axioms;

/// The binary operators this lowering slice accepts.
pub open spec fn spec_is_supported_binary_op(op: BinaryOperatorKind) -> bool {
    op is Add || op is Sub || op is Mul || op is Div || op is Mod || op is Eq || op is NotEq || op is Lt
        || op is Gt || op is Le || op is Ge || op is LogAnd || op is LogOr
}

pub fn is_supported_binary_op(op: BinaryOperatorKind) -> (res: bool)
    ensures
        res == spec_is_supported_binary_op(op),
{
    match op {
        BinaryOperatorKind::Add | BinaryOperatorKind::Sub | BinaryOperatorKind::Mul
        | BinaryOperatorKind::Div | BinaryOperatorKind::Mod | BinaryOperatorKind::Eq
        | BinaryOperatorKind::NotEq | BinaryOperatorKind::Lt | BinaryOperatorKind::Gt
        | BinaryOperatorKind::Le | BinaryOperatorKind::Ge | BinaryOperatorKind::LogAnd
        | BinaryOperatorKind::LogOr => true,
        _ => false,
    }
}

/// `Add`/`Sub`/`Mul`: the operators whose overflow is trapped through a
/// `(result, overflowed)` tuple.
pub fn is_checked_arith_op(op: BinaryOperatorKind) -> (res: bool)
    ensures
        res == (op is Add || op is Sub || op is Mul),
{
    match op {
        BinaryOperatorKind::Add | BinaryOperatorKind::Sub | BinaryOperatorKind::Mul => true,
        _ => false,
    }
}

/// `Div`/`Mod`: the operators guarded by explicit asserts.
pub fn is_checked_div_op(op: BinaryOperatorKind) -> (res: bool)
    ensures
        res == (op is Div || op is Mod),
{
    match op {
        BinaryOperatorKind::Div | BinaryOperatorKind::Mod => true,
        _ => false,
    }
}

/// The bit width of a signed integer primitive, if `prim` is one.
pub open spec fn signed_bits(prim: PrimitiveTypes, options: LoweringOptions) -> Option<u32> {
    match prim {
        PrimitiveTypes::Int8 => Some(8),
        PrimitiveTypes::Int16 => Some(16),
        PrimitiveTypes::Int32 => Some(32),
        PrimitiveTypes::Int64 => Some(64),
        PrimitiveTypes::Int128 => Some(128),
        PrimitiveTypes::Int => Some(options.pointer_bits),
        PrimitiveTypes::UntypedInt => Some(options.pointer_bits),
        PrimitiveTypes::CInt => Some(options.c_int_bits),
        _ => None,
    }
}

/// The minimum of a two's complement integer of `bits` bits; widths other
/// than 8, 16, 32, 64 and 128 are taken as 64.
pub open spec fn min_of_bits(bits: u32) -> i128 {
    if bits == 8 {
        -128i128
    } else if bits == 16 {
        -32768i128
    } else if bits == 32 {
        -2147483648i128
    } else if bits == 128 {
        -170141183460469231731687303715884105728i128
    } else {
        -9223372036854775808i128
    }
}

/// The minimum value of a signed integer primitive, or `None` if `prim` is
/// not a signed integer; platform-sized ones take the target's width.
pub fn signed_primitive_min(prim: PrimitiveTypes, options: &LoweringOptions) -> (res: Option<i128>)
    ensures
        res == (match signed_bits(prim, *options) {
            Some(bits) => Some(min_of_bits(bits)),
            None => None::<i128>,
        }),
{
    let bits: u32 = match prim {
        PrimitiveTypes::Int8 => 8,
        PrimitiveTypes::Int16 => 16,
        PrimitiveTypes::Int32 => 32,
        PrimitiveTypes::Int64 => 64,
        PrimitiveTypes::Int128 => 128,
        PrimitiveTypes::Int | PrimitiveTypes::UntypedInt => options.pointer_bits,
        PrimitiveTypes::CInt => options.c_int_bits,
        _ => {
            return None;
        },
    };
    Some(
        match bits {
            8 => -128i128,
            16 => -32768i128,
            32 => -2147483648i128,
            64 => -9223372036854775808i128,
            128 => -170141183460469231731687303715884105728i128,
            _ => -9223372036854775808i128,
        },
    )
}

/// The text of the overflow trap for a checked `Add`/`Sub`/`Mul`.
pub open spec fn overflow_message(op: BinaryOperatorKind) -> Seq<char> {
    match op {
        BinaryOperatorKind::Add => "attempt to add with overflow"@,
        BinaryOperatorKind::Sub => "attempt to subtract with overflow"@,
        _ => "attempt to multiply with overflow"@,
    }
}

impl<'a> FunctionLowerer<'a> {
    /// The type an operand pair is computed at: the first operand that is a
    /// place, else the resolver's type for the whole expression.
    pub open spec fn spec_operation_type(&self, left: Operand, right: Operand, expr_id: usize) -> Option<SoulType> {
        match self.spec_operand_type(left) {
            Some(t) => Some(t),
            None => match self.spec_operand_type(right) {
                Some(t) => Some(t),
                None => seq_get(self.declares.expression_types@, expr_id as int),
            },
        }
    }

    pub fn operation_type(&self, left: &Operand, right: &Operand, expr_id: usize) -> (res: Option<SoulType>)
        ensures
            res == self.spec_operation_type(*left, *right, expr_id),
    {
        match self.operand_type(left) {
            Some(t) => Some(t),
            None => match self.operand_type(right) {
                Some(t) => Some(t),
                None => match self.declares.get_expression_type(expr_id) {
                    Some(t) => Some(t.clone()),
                    None => None,
                },
            },
        }
    }

    /// Whether a binary operation's operands are float-typed.
    pub fn is_float_operand(&self, left: &Operand, right: &Operand, expr_id: usize) -> (res: bool)
        ensures
            res == (self.spec_operation_type(*left, *right, expr_id) matches Some(SoulType::Primitive(p))
                && spec_is_float_primitive(p)),
    {
        match self.operation_type(left, right, expr_id) {
            Some(SoulType::Primitive(p)) => is_float_primitive(p),
            _ => false,
        }
    }

    /// Whether the binding a variable use resolves to is `bool`-typed.
    pub open spec fn spec_is_type_boolean(&self, var_id: usize) -> bool {
        match seq_get(self.declares.variable_resolves@, var_id as int) {
            Some(node) => seq_get(self.declares.variable_types@, node as int) == Some(
                SoulType::Primitive(PrimitiveTypes::Boolean),
            ),
            None => false,
        }
    }

    pub fn is_type_boolean(&self, var_id: usize) -> (res: bool)
        ensures
            res == self.spec_is_type_boolean(var_id),
    {
        let resolved = match self.declares.get_variable_resolve(var_id) {
            Some(r) => r,
            None => {
                return false;
            },
        };
        match self.declares.get_variable_type(resolved) {
            Some(ty) => ty.is_primitive_kind(PrimitiveTypes::Boolean),
            None => false,
        }
    }

    /// The expressions accepted as an `if`/`while`/`assert` condition: a
    /// `bool` literal or variable, a `!`, or a `bool`-typed binary expression.
    pub open spec fn spec_expression_is_bool(&self, e: Expression) -> bool {
        match e.kind {
            ExpressionKind::Literal(Literal::Bool(_)) => true,
            ExpressionKind::Variable { id } => self.spec_is_type_boolean(id),
            ExpressionKind::Unary { op, .. } => op is Not,
            ExpressionKind::Binary { .. } => seq_get(self.declares.expression_types@, e.id as int) == Some(
                SoulType::Primitive(PrimitiveTypes::Boolean),
            ),
            _ => false,
        }
    }

    pub fn expression_is_bool(&self, e: &Expression) -> (res: bool)
        ensures
            res == self.spec_expression_is_bool(*e),
    {
        match &e.kind {
            ExpressionKind::Literal(Literal::Bool(_)) => true,
            ExpressionKind::Variable { id } => self.is_type_boolean(*id),
            ExpressionKind::Unary { op, .. } => match op {
                UnaryOperatorKind::Not => true,
                _ => false,
            },
            ExpressionKind::Binary { .. } => match self.declares.get_expression_type(e.id) {
                Some(ty) => ty.is_primitive_kind(PrimitiveTypes::Boolean),
                None => false,
            },
            _ => false,
        }
    }

    /// Lowers a condition: rejects anything that is not a `bool` expression
    /// of an accepted shape, then lowers it as an operand.
    pub fn lower_bool_condition(&mut self, e: &Expression) -> (res: MirResult<Operand>)
        requires
            old(self).inv(),
            old(self).blocks@.len() > 0,
        ensures
            severity_ok(res),
            body_fault(res),
            res is Ok && old(self).current is Some ==> final(self).current is Some,
            evolves(*old(self), *final(self)),
            res matches Ok(o) ==> operand_wf(o, final(self).locals@.len()),
            !old(self).spec_expression_is_bool(*e) ==> res == Err::<Operand, Fault>(
                Fault::error(MirErrorKind::UnsupportedConditionExpression, Some(e.span)),
            ) && *final(self) == *old(self),
            e.kind matches ExpressionKind::Literal(lit) ==> (lit is Bool ==> (res matches Ok(o) && o@
                == OperandV::Constant(lit@) && *final(self) == *old(self))),
            e.kind matches ExpressionKind::Variable { id } ==> (old(self).spec_is_type_boolean(id) ==> *final(self)
                == *old(self) && match old(self).resolve_local_result(id, e.span) {
                Ok(l) => res matches Ok(o) && o@ == OperandV::Copy(local_place(l)),
                Err(f) => res == Err::<Operand, Fault>(f),
            }),
            sp_condition(old(self).ctx(), old(self).st(), *e) == Some((final(self).st(), operand_res_view(res))),
            old(self).spec_expression_is_bool(*e) ==> !(res matches Err(f) && f.kind is UnsupportedConditionExpression),
        decreases e, 6int,
    {
        if !self.expression_is_bool(e) {
            proof {
                lemma_evolves_refl(*self);
            }
            return Err(Fault::error_with_kind(MirErrorKind::UnsupportedConditionExpression, Some(e.span)));
        }
        proof {
            law_accepted_condition_is_not_refused(self.ctx(), self.st(), *e);
        }
        self.lower_operand(e)
    }

    /// Lowers an expression to an operand: literals become constants,
    /// variables and places are read in place, and nested compound
    /// expressions are computed into a fresh temp first.
    pub fn lower_operand(&mut self, e: &Expression) -> (res: MirResult<Operand>)
        requires
            old(self).inv(),
            old(self).blocks@.len() > 0,
        ensures
            severity_ok(res),
            body_fault(res),
            res is Ok && old(self).current is Some ==> final(self).current is Some,
            evolves(*old(self), *final(self)),
            res matches Ok(o) ==> operand_wf(o, final(self).locals@.len()),
            e.kind matches ExpressionKind::Literal(lit) ==> res matches Ok(o) && o@ == OperandV::Constant(lit@)
                && *final(self) == *old(self),
            e.kind matches ExpressionKind::Variable { id } ==> *final(self) == *old(self) && match old(self).resolve_local_result(id, e.span) {
                Ok(l) => res matches Ok(o) && o@ == OperandV::Copy(local_place(l)),
                Err(f) => res == Err::<Operand, Fault>(f),
            },
            e.kind is Binary ==> match seq_get(old(self).declares.expression_types@, e.id as int) {
                None => res == Err::<Operand, Fault>(
                    Fault::error(MirErrorKind::NestedExpressionHasNoResolvedType, Some(e.span)),
                ) && *final(self) == *old(self),
                Some(ty) => res matches Ok(o) ==> {
                    &&& final(self).locals@.len() > old(self).locals@.len()
                    &&& o@ == OperandV::Copy(local_place(LocalId((final(self).locals@.len() - 1) as usize)))
                    &&& final(self).locals@.last() == LocalDecl { ty, mutability: TypeModifier::Immut, span: e.span }
                    &&& final(self).statements@.last() matches Statement::Assign(p, _) && p@ == local_place(
                        LocalId((final(self).locals@.len() - 1) as usize),
                    )
                },
            },
            e.kind is Unary ==> (res matches Ok(o) ==> {
                &&& final(self).locals@.len() > old(self).locals@.len()
                &&& o@ == OperandV::Copy(local_place(LocalId((final(self).locals@.len() - 1) as usize)))
                &&& final(self).locals@.last() == LocalDecl {
                    ty: SoulType::Primitive(PrimitiveTypes::Boolean),
                    mutability: TypeModifier::Immut,
                    span: e.span,
                }
            }),
            e.kind matches ExpressionKind::FunctionCall(call) ==> (seq_get(old(self).declares.intrinsic_resolves@, call.id as int) is Some
                ==> res is Err && *final(self) == *old(self)),
            e.kind is FieldAccess ==> (res matches Ok(o) ==> (o matches Operand::Copy(p) && p.projection@.len() > 0
                && p.projection@.last() is Field)),
            e.kind is Index ==> (res matches Ok(o) ==> (o matches Operand::Copy(p) && p.projection@.len() > 0
                && p.projection@.last() is Index)),
            !(e.kind is Literal || e.kind is Variable || e.kind is FieldAccess || e.kind is Index || e.kind is Binary
                || e.kind is Unary || e.kind is FunctionCall) ==> res == Err::<Operand, Fault>(
                Fault::error(MirErrorKind::UnsupportedOperandExpression, Some(e.span)),
            ) && *final(self) == *old(self),
            sp_operand(old(self).ctx(), old(self).st(), *e) == Some((final(self).st(), operand_res_view(res))),
        decreases e, 3int,
    {
        match &e.kind {
            ExpressionKind::Literal(lit) => {
                proof {
                    lemma_evolves_refl(*self);
                }
                Ok(Operand::Constant(lit.clone()))
            },
            ExpressionKind::Variable { id } => {
                proof {
                    lemma_evolves_refl(*self);
                }
                let local = self.resolve_local(*id, e.span)?;
                let place = Place::local(local);
                assert(place@ =~= local_place(local));
                Ok(Operand::Copy(place))
            },
            ExpressionKind::FieldAccess { .. } => {
                let (place, _) = self.resolve_field_place(e)?;
                Ok(Operand::Copy(place))
            },
            ExpressionKind::Index { .. } => {
                let (place, _) = self.resolve_index_place(e)?;
                Ok(Operand::Copy(place))
            },
            ExpressionKind::Binary { .. } => {
                let span = e.span;
                let ty = match self.declares.get_expression_type(e.id) {
                    Some(t) => t.clone(),
                    None => {
                        proof {
                            lemma_evolves_refl(*self);
                        }
                        return Err(Fault::error_with_kind(MirErrorKind::NestedExpressionHasNoResolvedType, Some(span)));
                    },
                };
                proof {
                    lemma_evolves_refl(*self);
                }
                require_primitive(&ty, span)?;
                let rvalue = self.lower_rvalue(e)?;
                let ghost s1 = *self;
                let temp = self.alloc_local(ty, TypeModifier::Immut, span);
                proof {
                    lemma_rvalue_wf_mono(rvalue, s1.locals@.len(), self.locals@.len());
                }
                self.push_statement(Statement::Assign(Place::local(temp), rvalue));
                Ok(Operand::Copy(Place::local(temp)))
            },
            ExpressionKind::Unary { .. } => {
                let span = e.span;
                let rvalue = self.lower_rvalue(e)?;
                let ghost s1 = *self;
                let temp = self.alloc_local(SoulType::Primitive(PrimitiveTypes::Boolean), TypeModifier::Immut, span);
                proof {
                    lemma_rvalue_wf_mono(rvalue, s1.locals@.len(), self.locals@.len());
                }
                self.push_statement(Statement::Assign(Place::local(temp), rvalue));
                Ok(Operand::Copy(Place::local(temp)))
            },
            ExpressionKind::FunctionCall(call) => {
                let span = e.span;
                match self.declares.get_intrinsic_resolve(call.id) {
                    Some(kind) => {
                        proof {
                            lemma_evolves_refl(*self);
                        }
                        let error = match kind {
                            IntrinsicFunction::Assert | IntrinsicFunction::Panic => MirErrorKind::CannotUseNoneValueAsOperand,
                            IntrinsicFunction::Other { .. } => MirErrorKind::UnsupportedIntrinsic { name: kind.as_string() },
                        };
                        return Err(Fault::error_with_kind(error, Some(span)));
                    },
                    None => {},
                }
                match self.lower_call(call, span, true)? {
                    Some(operand) => Ok(operand),
                    None => Err(Fault::error_with_kind(MirErrorKind::CannotUseNoneValueAsOperand, Some(span))),
                }
            },
            _ => {
                proof {
                    lemma_evolves_refl(*self);
                }
                Err(Fault::error_with_kind(MirErrorKind::UnsupportedOperandExpression, Some(e.span)))
            },
        }
    }

    /// Lowers an expression to the right-hand side of an assignment.
    #[verifier::rlimit(50)]
    pub fn lower_rvalue(&mut self, e: &Expression) -> (res: MirResult<Rvalue>)
        requires
            old(self).inv(),
            old(self).blocks@.len() > 0,
        ensures
            severity_ok(res),
            body_fault(res),
            res is Ok && old(self).current is Some ==> final(self).current is Some,
            evolves(*old(self), *final(self)),
            res matches Ok(r) ==> rvalue_wf(r, final(self).locals@.len()),
            e.kind matches ExpressionKind::Binary { op, .. } ==> (!spec_is_supported_binary_op(op) ==> res
                == Err::<Rvalue, Fault>(Fault::error(MirErrorKind::UnsupportedBinaryOperator, Some(e.span)))),
            e.kind matches ExpressionKind::Unary { op, .. } ==> (!(op is Not) ==> res == Err::<Rvalue, Fault>(
                Fault::error(MirErrorKind::UnsupportedUnaryOperator, Some(e.span)),
            )),
            e.kind matches ExpressionKind::Binary { op, .. } ==> (res matches Ok(r) ==> ((r matches Rvalue::BinaryOp(
                op2,
                _,
                _,
            ) && op2 == op) || (old(self).options.check_overflow && (op is Add || op is Sub || op is Mul)
                && r is Use))),
            e.kind matches ExpressionKind::Unary { op, .. } ==> (res matches Ok(r) ==> (r matches Rvalue::UnaryOp(op2, _)
                && op2 == op)),
            e.kind is StructConstructor ==> (res matches Ok(r) ==> r matches Rvalue::Aggregate(AggregateKind::Struct, _)),
            e.kind is ArrayLiteral ==> (res matches Ok(r) ==> r matches Rvalue::Aggregate(AggregateKind::Array, _)),
            e.kind is Ref ==> (res matches Ok(r) ==> (r is Ref || r matches Rvalue::Aggregate(AggregateKind::Array, _))),
            !(e.kind is Binary || e.kind is Unary || e.kind is StructConstructor || e.kind is ArrayLiteral
                || e.kind is Ref) ==> (res matches Ok(r) ==> r is Use),
            sp_rvalue(old(self).ctx(), old(self).st(), *e) == Some((final(self).st(), rvalue_res_view(res))),
        decreases e, (if e.kind is Binary || e.kind is Unary { 2int } else { 4int }),
    {
        match &e.kind {
            ExpressionKind::Binary { op, left, right } => {
                let op = *op;
                if !is_supported_binary_op(op) {
                    proof {
                        lemma_evolves_refl(*self);
                    }
                    return Err(Fault::error_with_kind(MirErrorKind::UnsupportedBinaryOperator, Some(e.span)));
                }
                let left = self.lower_operand(&**left)?;
                let ghost s1 = *self;
                let right = self.lower_operand(&**right)?;
                proof {
                    lemma_operand_wf_mono(left, s1.locals@.len(), self.locals@.len());
                }
                let is_float = self.is_float_operand(&left, &right, e.id);
                if !is_float && is_checked_arith_op(op) && self.options.check_overflow {
                    return self.lower_checked_binary_op(op, left, right, e.id, e.span);
                }
                if !is_float && is_checked_div_op(op) && self.options.check_overflow {
                    return self.lower_checked_div(op, left, right, e.id, e.span);
                }
                Ok(Rvalue::BinaryOp(op, left, right))
            },
            ExpressionKind::Unary { op, value } => {
                match op {
                    UnaryOperatorKind::Not => {},
                    _ => {
                        proof {
                            lemma_evolves_refl(*self);
                        }
                        return Err(Fault::error_with_kind(MirErrorKind::UnsupportedUnaryOperator, Some(e.span)));
                    },
                }
                let operand = self.lower_operand(&**value)?;
                Ok(Rvalue::UnaryOp(*op, operand))
            },
            ExpressionKind::StructConstructor { .. } => self.lower_struct_constructor(e),
            ExpressionKind::Ref { .. } => self.lower_ref(e),
            ExpressionKind::ArrayLiteral(_) => self.lower_array_literal(e),
            _ => {
                let operand = self.lower_operand(e)?;
                Ok(Rvalue::Use(operand))
            },
        }
    }

    /// Checked `Add`/`Sub`/`Mul`: computes a `(result, overflowed)` tuple
    /// into a fresh temp, asserts `overflowed` is false (continuing in a
    /// fresh block), and yields the result half.
    pub fn lower_checked_binary_op(
        &mut self,
        op: BinaryOperatorKind,
        left: Operand,
        right: Operand,
        expr_id: usize,
        span: Span,
    ) -> (res: MirResult<Rvalue>)
        requires
            old(self).inv(),
            old(self).blocks@.len() > 0,
            op is Add || op is Sub || op is Mul,
            operand_wf(left, old(self).locals@.len()),
            operand_wf(right, old(self).locals@.len()),
        ensures
            (final(self).st(), rvalue_res_view(res)) == sp_checked_arith(
                old(self).ctx(),
                old(self).st(),
                op,
                left@,
                right@,
                expr_id,
                span,
            ),
            severity_ok(res),
            body_fault(res),
            evolves(*old(self), *final(self)),
            res matches Ok(r) ==> rvalue_wf(r, final(self).locals@.len()),
            old(self).spec_operation_type(left, right, expr_id) is None ==> res == Err::<Rvalue, Fault>(
                Fault::error(MirErrorKind::NestedExpressionHasNoResolvedType, Some(span)),
            ) && *final(self) == *old(self),
            old(self).spec_operation_type(left, right, expr_id) matches Some(ty) ==> (!(ty is Primitive) ==> res
                == Err::<Rvalue, Fault>(Fault::error(MirErrorKind::NonPrimitiveType { ty }, Some(span)))
                && *final(self) == *old(self)),
            old(self).spec_operation_type(left, right, expr_id) matches Some(ty) ==> (ty is Primitive ==> {
                &&& res matches Ok(r) && r@ == RvalueV::Use(OperandV::Copy(PlaceV {
                    local: LocalId(old(self).locals@.len() as usize),
                    projection: seq![PlaceElem::Field(0)],
                }))
                &&& final(self).locals@.len() == old(self).locals@.len() + 1
                &&& final(self).locals@.last().mutability == TypeModifier::Immut
                &&& final(self).locals@.last().ty == SoulType::Tuple(TypeList::Cons(
                    Box::new(ty),
                    Box::new(TypeList::Cons(Box::new(SoulType::Primitive(PrimitiveTypes::Boolean)), Box::new(TypeList::Empty))),
                ))
            }),
            res is Ok ==> final(self).blocks@.len() == old(self).blocks@.len() + 1,
            res is Ok ==> final(self).current == Some(BlockId(old(self).blocks@.len() as usize)),
            res is Ok ==> (old(self).current matches Some(c) ==> (final(self).blocks@[c.0 as int] matches Some(b)
                && b@.statements == crate::mir::statements_view(old(self).statements@).push(StatementV::Assign(
                local_place(LocalId(old(self).locals@.len() as usize)),
                RvalueV::CheckedBinaryOp(op, left@, right@),
            )) && b@.terminator == TerminatorV::Assert {
                cond: OperandV::Copy(PlaceV { local: LocalId(old(self).locals@.len() as usize), projection: seq![PlaceElem::Field(1)] }),
                expected: false,
                msg: b@.terminator->msg,
                target: BlockId(old(self).blocks@.len() as usize),
                span,
            } && is_text_constant(b@.terminator->msg, overflow_message(op)))),
    {
        let ghost s0 = *self;
        let result_ty = match self.operation_type(&left, &right, expr_id) {
            Some(t) => t,
            None => {
                proof {
                    lemma_evolves_refl(*self);
                }
                return Err(Fault::error_with_kind(MirErrorKind::NestedExpressionHasNoResolvedType, Some(span)));
            },
        };
        proof {
            lemma_evolves_refl(*self);
        }
        require_primitive(&result_ty, span)?;

        let tuple_ty = SoulType::Tuple(TypeList::pair(result_ty, SoulType::Primitive(PrimitiveTypes::Boolean)));
        let tuple_local = self.alloc_local(tuple_ty, TypeModifier::Immut, span);
        proof {
            lemma_operand_wf_mono(left, s0.locals@.len(), self.locals@.len());
            lemma_operand_wf_mono(right, s0.locals@.len(), self.locals@.len());
        }
        self.push_statement(Statement::Assign(Place::local(tuple_local), Rvalue::CheckedBinaryOp(op, left, right)));

        let overflowed = Place::local(tuple_local).project(PlaceElem::Field(1));
        let text = match op {
            BinaryOperatorKind::Add => String::from_str("attempt to add with overflow"),
            BinaryOperatorKind::Sub => String::from_str("attempt to subtract with overflow"),
            _ => String::from_str("attempt to multiply with overflow"),
        };
        let msg = Operand::Constant(Literal::Str(text));
        let next = self.new_block();
        let ghost s4 = *self;
        proof {
            assert(overflowed.projection@ =~= seq![PlaceElem::Field(1)]);
        }
        self.seal(
            Terminator::Assert { cond: Operand::Copy(overflowed), expected: false, msg, target: next, span },
            Some(next),
        );
        proof {
            lemma_evolves_then_base(s0, s4, *self);
        }
        let result = Place::local(tuple_local).project(PlaceElem::Field(0));
        proof {
            assert(result.projection@ =~= seq![PlaceElem::Field(0)]);
        }
        Ok(Rvalue::Use(Operand::Copy(result)))
    }

    /// Assigns `rvalue` into a fresh `bool` temp and returns its place.
    pub fn bool_temp(&mut self, rvalue: Rvalue, span: Span) -> (res: Place)
        requires
            old(self).inv(),
            rvalue_wf(rvalue, old(self).locals@.len()),
        ensures
            evolves(*old(self), *final(self)),
            res@ == local_place(LocalId(old(self).locals@.len() as usize)),
            res.local.0 == old(self).locals@.len(),
            final(self).locals@.len() == old(self).locals@.len() + 1,
            final(self).locals@.last().ty == SoulType::Primitive(PrimitiveTypes::Boolean),
            final(self).statements@.len() == old(self).statements@.len() + 1,
            final(self).statements@.last()@ == StatementV::Assign(res@, rvalue@),
            final(self).statements@ == old(self).statements@.push(final(self).statements@.last()),
            (final(self).st(), res.local) == st_bool_temp(old(self).st(), span, rvalue@),
            final(self).blocks@ == old(self).blocks@,
            final(self).current == old(self).current,
    {
        let ghost s0 = *self;
        let temp = self.alloc_local(SoulType::Primitive(PrimitiveTypes::Boolean), TypeModifier::Immut, span);
        proof {
            lemma_rvalue_wf_mono(rvalue, s0.locals@.len(), self.locals@.len());
        }
        self.push_statement(Statement::Assign(Place::local(temp), rvalue));
        let res = Place::local(temp);
        assert(res@ =~= local_place(temp));
        res
    }

    /// Ends the current block with an `Assert` that traps when `cond` is
    /// `true`, continuing in a fresh block.
    pub fn assert_false(&mut self, cond: Operand, text: &str, span: Span)
        requires
            old(self).inv(),
            old(self).blocks@.len() > 0,
            operand_wf(cond, old(self).locals@.len()),
        ensures
            evolves(*old(self), *final(self)),
            final(self).locals@ == old(self).locals@,
            final(self).blocks@.len() == old(self).blocks@.len() + 1,
            final(self).statements@.len() == 0,
            final(self).current == Some(BlockId(old(self).blocks@.len() as usize)),
            old(self).current matches Some(c) ==> (final(self).blocks@[c.0 as int] matches Some(b)
                && b@.statements == crate::mir::statements_view(old(self).statements@)
                && b@.terminator == TerminatorV::Assert {
                    cond: cond@,
                    expected: false,
                    msg: b@.terminator->msg,
                    target: BlockId(old(self).blocks@.len() as usize),
                    span,
                } && is_text_constant(b@.terminator->msg, text@)),
            final(self).st() == st_assert_false(old(self).st(), cond@, text@, span),
    {
        let ghost s0 = *self;
        let msg = Operand::Constant(Literal::Str(String::from_str(text)));
        let next = self.new_block();
        let ghost s1 = *self;
        self.seal(Terminator::Assert { cond, expected: false, msg, target: next, span }, Some(next));
        proof {
            lemma_evolves_then_base(s0, s1, *self);
        }
    }

    /// Checked `Div`/`Mod`: asserts the divisor is not zero and, for a
    /// signed operand type, that this is not `MIN / -1`, then performs the
    /// now-safe operation.
    pub fn lower_checked_div(
        &mut self,
        op: BinaryOperatorKind,
        left: Operand,
        right: Operand,
        expr_id: usize,
        span: Span,
    ) -> (res: MirResult<Rvalue>)
        requires
            old(self).inv(),
            old(self).blocks@.len() > 0,
            op is Div || op is Mod,
            operand_wf(left, old(self).locals@.len()),
            operand_wf(right, old(self).locals@.len()),
        ensures
            (final(self).st(), rvalue_res_view(res)) == sp_checked_div(
                old(self).ctx(),
                old(self).st(),
                op,
                left@,
                right@,
                expr_id,
                span,
            ),
            severity_ok(res),
            body_fault(res),
            evolves(*old(self), *final(self)),
            res matches Ok(r) ==> rvalue_wf(r, final(self).locals@.len()),
            old(self).spec_operation_type(left, right, expr_id) is None ==> res == Err::<Rvalue, Fault>(
                Fault::error(MirErrorKind::NestedExpressionHasNoResolvedType, Some(span)),
            ) && *final(self) == *old(self),
            old(self).spec_operation_type(left, right, expr_id) matches Some(ty) ==> (!(ty is Primitive) ==> res
                == Err::<Rvalue, Fault>(Fault::error(MirErrorKind::NonPrimitiveType { ty }, Some(span)))
                && *final(self) == *old(self)),
            old(self).spec_operation_type(left, right, expr_id) matches Some(ty) ==> (ty is Primitive ==> {
                let signed = signed_bits(ty->Primitive_0, old(self).options) is Some;
                &&& res matches Ok(r) && r@ == RvalueV::BinaryOp(op, left@, right@)
                &&& final(self).locals@.len() == old(self).locals@.len() + if signed { 4nat } else { 1nat }
                &&& final(self).blocks@.len() == old(self).blocks@.len() + if signed { 2nat } else { 1nat }
            }),
            res is Ok ==> final(self).current is Some,
            res is Ok ==> (old(self).current matches Some(c) ==> checks_zero_divisor(
                final(self).blocks@[c.0 as int],
                old(self).statements@,
                right,
                LocalId(old(self).locals@.len() as usize),
                BlockId(old(self).blocks@.len() as usize),
                op,
            )),
            res is Ok ==> (old(self).spec_operation_type(left, right, expr_id) matches Some(SoulType::Primitive(p)) ==> (
            signed_bits(p, old(self).options) matches Some(bits) ==> checks_min_by_minus_one(
                final(self).blocks@[old(self).blocks@.len() as int],
                left,
                right,
                (old(self).locals@.len() + 1) as usize,
                min_of_bits(bits),
                BlockId((old(self).blocks@.len() + 1) as usize),
                op,
            ))),
    {
        let ghost s0 = *self;
        let operand_ty = match self.operation_type(&left, &right, expr_id) {
            Some(t) => t,
            None => {
                proof {
                    lemma_evolves_refl(*self);
                }
                return Err(Fault::error_with_kind(MirErrorKind::NestedExpressionHasNoResolvedType, Some(span)));
            },
        };
        proof {
            lemma_evolves_refl(*self);
        }
        require_primitive(&operand_ty, span)?;
        let prim = match operand_ty {
            SoulType::Primitive(p) => p,
            _ => {
                proof {
                    assert(false);
                }
                return Err(Fault::error_with_kind(MirErrorKind::NonPrimitiveType { ty: operand_ty }, Some(span)));
            },
        };

        let zero_text: &str = match op {
            BinaryOperatorKind::Div => "attempt to divide by zero",
            _ => "attempt to calculate the remainder with a divisor of zero",
        };
        proof {
            if op is Div {
                reveal_strlit("attempt to divide by zero");
            } else {
                reveal_strlit("attempt to calculate the remainder with a divisor of zero");
            }
        }
        let is_zero = self.bool_temp(
            Rvalue::BinaryOp(BinaryOperatorKind::Eq, right.duplicate(), Operand::Constant(Literal::Int(0))),
            span,
        );
        proof {
            assert(crate::mir::statements_view(self.statements@) =~= crate::mir::statements_view(s0.statements@).push(
                self.statements@.last()@,
            ));
        }
        self.assert_false(Operand::Copy(is_zero), zero_text, span);
        let ghost s1 = *self;

        match signed_primitive_min(prim, &self.options) {
            Some(min_value) => {
                let overflow_text: &str = match op {
                    BinaryOperatorKind::Div => "attempt to divide with overflow",
                    _ => "attempt to calculate the remainder with overflow",
                };
                let ghost s2 = *self;
                proof {
                    lemma_operand_wf_mono(left, s0.locals@.len(), s2.locals@.len());
                    lemma_operand_wf_mono(right, s0.locals@.len(), s2.locals@.len());
                }
                proof {
                    if op is Div {
                        reveal_strlit("attempt to divide with overflow");
                    } else {
                        reveal_strlit("attempt to calculate the remainder with overflow");
                    }
                }
                let is_min = self.bool_temp(
                    Rvalue::BinaryOp(BinaryOperatorKind::Eq, left.duplicate(), Operand::Constant(Literal::Int(min_value))),
                    span,
                );
                let ghost t1 = self.statements@;
                proof {
                    lemma_operand_wf_mono(right, s0.locals@.len(), self.locals@.len());
                }
                let is_neg_one = self.bool_temp(
                    Rvalue::BinaryOp(BinaryOperatorKind::Eq, right.duplicate(), Operand::Constant(Literal::Int(-1))),
                    span,
                );
                let ghost t2 = self.statements@;
                let overflows = self.bool_temp(
                    Rvalue::BinaryOp(BinaryOperatorKind::LogAnd, Operand::Copy(is_min), Operand::Copy(is_neg_one)),
                    span,
                );
                proof {
                    assert(crate::mir::statements_view(self.statements@) =~= seq![
                        t1[0]@,
                        t2[1]@,
                        self.statements@[2]@,
                    ]);
                }
                let ghost s3 = *self;
                self.assert_false(Operand::Copy(overflows), overflow_text, span);
                proof {
                    let b = self.blocks@[s0.blocks@.len() as int];
                    assert(is_min.local == LocalId((s0.locals@.len() + 1) as usize));
                    assert(is_neg_one.local == LocalId((s0.locals@.len() + 2) as usize));
                    assert(overflows.local == LocalId((s0.locals@.len() + 3) as usize));
                    assert(checks_min_by_minus_one(
                        b,
                        left,
                        right,
                        (s0.locals@.len() + 1) as usize,
                        min_value,
                        BlockId((s0.blocks@.len() + 1) as usize),
                        op,
                    ));
                }
            },
            None => {},
        }
        proof {
            lemma_operand_wf_mono(left, s0.locals@.len(), self.locals@.len());
            lemma_operand_wf_mono(right, s0.locals@.len(), self.locals@.len());
        }
        Ok(Rvalue::BinaryOp(op, left, right))
    }

    /// `Struct{field: value, ...}` as an aggregate whose operands follow the
    /// struct's declared field order, not the order written.
    pub fn lower_struct_constructor(&mut self, e: &Expression) -> (res: MirResult<Rvalue>)
        requires
            old(self).inv(),
            old(self).blocks@.len() > 0,
            e.kind is StructConstructor,
        ensures
            severity_ok(res),
            body_fault(res),
            res is Ok && old(self).current is Some ==> final(self).current is Some,
            evolves(*old(self), *final(self)),
            res matches Ok(r) ==> rvalue_wf(r, final(self).locals@.len()),
            e.kind matches ExpressionKind::StructConstructor { struct_type, defaults, .. } ==> {
                &&& defaults ==> res == Err::<Rvalue, Fault>(Fault::error(MirErrorKind::StructConstructorDefaultsUnsupported, Some(e.span)))
                &&& !defaults && spec_resolve_struct(*old(self).declares, old(self).module, struct_type) is None ==> res
                    == Err::<Rvalue, Fault>(Fault::error(MirErrorKind::NonPrimitiveType { ty: struct_type }, Some(e.span)))
                &&& res matches Ok(r) ==> (r matches Rvalue::Aggregate(AggregateKind::Struct, os) && spec_resolve_struct(
                    *old(self).declares,
                    old(self).module,
                    struct_type,
                ) matches Some(s) && os@.len() == s.fields@.len() && forall|f: int|
                    0 <= f < s.fields@.len() ==> #[trigger] field_has_value(s.fields@[f], e.kind->values@))
            },
            sp_rvalue(old(self).ctx(), old(self).st(), *e) == Some((final(self).st(), rvalue_res_view(res))),
        decreases e, 2int,
    {
        let ExpressionKind::StructConstructor { struct_type, values, defaults } = &e.kind else {
            proof { assert(false); }
            return Err(Fault::error_with_kind(MirErrorKind::UnsupportedOperandExpression, Some(e.span)));
        };
        let span = e.span;
        proof {
            lemma_evolves_refl(*self);
        }
        if *defaults {
            return Err(Fault::error_with_kind(MirErrorKind::StructConstructorDefaultsUnsupported, Some(span)));
        }
        let struct_ = match self.resolve_struct(struct_type) {
            Some(s) => s,
            None => {
                return Err(Fault::error_with_kind(MirErrorKind::NonPrimitiveType { ty: struct_type.clone() }, Some(span)));
            },
        };
        let ghost s0 = *self;
        let ghost c0 = self.ctx();
        let ghost total = sp_fields(c0, s0.st(), struct_.name@, struct_.fields@, values@, struct_.fields@.len() as int, span);
        let mut operands: Vec<Operand> = Vec::new();
        assert(operands_view(operands@) =~= Seq::<OperandV>::empty());
        let mut i: usize = 0;
        while i < struct_.fields.len()
            invariant
                s0 == *old(self),
                c0 == old(self).ctx(),
                self.ctx() == c0,
                span == e.span,
                total == sp_fields(c0, s0.st(), struct_.name@, struct_.fields@, values@, struct_.fields@.len() as int, span),
                sp_fields(c0, s0.st(), struct_.name@, struct_.fields@, values@, i as int, span) == Some(
                    (self.st(), Ok::<Seq<OperandV>, FaultV>(operands_view(operands@))),
                ),
                evolves(*old(self), *self),
                old(self).current is Some ==> self.current is Some,
                self.blocks@.len() > 0,
                e.kind matches ExpressionKind::StructConstructor { defaults: d, .. } && !d,
                e.kind->values == *values,
                spec_resolve_struct(*old(self).declares, old(self).module, e.kind->struct_type) == Some(*struct_),
                i <= struct_.fields@.len(),
                operands@.len() == i,
                operands_wf(operands@, self.locals@.len()),
                forall|f: int| 0 <= f < i ==> #[trigger] field_has_value(struct_.fields@[f], values@),
            decreases struct_.fields.len() - i,
        {
            let field = &struct_.fields[i];
            let field_name = match &field.pattern {
                VarPattern::Simple { binding, .. } => &binding.ident,
                VarPattern::Destructure => {
                    proof {
                        lemma_fields_stop(c0, s0.st(), struct_.name@, struct_.fields@, values@, i + 1, struct_.fields@.len() as int, span);
                    }
                    return Err(Fault::error_with_kind(MirErrorKind::NonSimpleVariablePatternUnsupported, Some(span)));
                },
            };
            let mut j: usize = 0;
            let mut found: Option<usize> = None;
            while j < values.len() && found.is_none()
                invariant
                    j <= values@.len(),
                    found is None ==> value_position(values@, field_name@, 0) == value_position(
                        values@,
                        field_name@,
                        j as int,
                    ),
                    found matches Some(k) ==> k < values@.len() && value_position(values@, field_name@, 0) == Some(
                        k as int,
                    ),
                decreases values.len() - j, if found is None { 1int } else { 0int },
            {
                if values[j].0 == *field_name {
                    found = Some(j);
                } else {
                    j = j + 1;
                }
            }
            let k = match found {
                Some(k) => k,
                None => {
                    proof {
                        lemma_fields_stop(c0, s0.st(), struct_.name@, struct_.fields@, values@, i + 1, struct_.fields@.len() as int, span);
                    }
                    return Err(Fault::error_with_kind(
                        MirErrorKind::StructFieldNotFound { struct_name: struct_.name.clone(), field: field_name.clone() },
                        Some(span),
                    ));
                },
            };
            let ghost before = *self;
            proof {
                assert(decreases_to!(e.kind => *values));
                assert(decreases_to!(*values => values@));
                assert(decreases_to!(values@ => values@[k as int]));
                assert(decreases_to!(values@[k as int] => values@[k as int].1));
            }
            let result = self.lower_operand(&values[k].1);
            let operand = match result {
                Ok(o) => o,
                Err(f) => {
                    proof {
                        lemma_fields_stop(c0, s0.st(), struct_.name@, struct_.fields@, values@, i + 1, struct_.fields@.len() as int, span);
                    }
                    return Err(f);
                },
            };
            proof {
                lemma_operands_wf_mono(operands@, before.locals@.len(), self.locals@.len());
            }
            let ghost prev = operands@;
            operands.push(operand);
            proof {
                assert(operands_view(operands@) =~= operands_view(prev).push(operand@));
            }
            i = i + 1;
        }
        Ok(Rvalue::Aggregate(AggregateKind::Struct, operands))
    }

    /// `[v1, v2, ...]` as an array aggregate, in order.
    pub fn lower_array_literal(&mut self, e: &Expression) -> (res: MirResult<Rvalue>)
        requires
            old(self).inv(),
            old(self).blocks@.len() > 0,
            e.kind is ArrayLiteral,
        ensures
            severity_ok(res),
            body_fault(res),
            res is Ok && old(self).current is Some ==> final(self).current is Some,
            evolves(*old(self), *final(self)),
            res matches Ok(r) ==> rvalue_wf(r, final(self).locals@.len()),
            res matches Ok(r) ==> (r matches Rvalue::Aggregate(AggregateKind::Array, os) && os@.len()
                == e.kind->ArrayLiteral_0@.len()),
            sp_rvalue(old(self).ctx(), old(self).st(), *e) == Some((final(self).st(), rvalue_res_view(res))),
        decreases e, 2int,
    {
        let ExpressionKind::ArrayLiteral(values) = &e.kind else {
            proof { assert(false); }
            return Err(Fault::error_with_kind(MirErrorKind::UnsupportedOperandExpression, Some(e.span)));
        };
        proof {
            lemma_evolves_refl(*self);
        }
        let ghost s0 = *self;
        let ghost c0 = self.ctx();
        let ghost total = sp_elems(c0, s0.st(), values@, values@.len() as int);
        let mut operands: Vec<Operand> = Vec::new();
        assert(operands_view(operands@) =~= Seq::<OperandV>::empty());
        let mut i: usize = 0;
        while i < values.len()
            invariant
                s0 == *old(self),
                c0 == old(self).ctx(),
                self.ctx() == c0,
                total == sp_elems(c0, s0.st(), values@, values@.len() as int),
                sp_elems(c0, s0.st(), values@, i as int) == Some(
                    (self.st(), Ok::<Seq<OperandV>, FaultV>(operands_view(operands@))),
                ),
                evolves(*old(self), *self),
                old(self).current is Some ==> self.current is Some,
                self.blocks@.len() > 0,
                e.kind is ArrayLiteral && e.kind->ArrayLiteral_0 == *values,
                i <= values@.len(),
                operands@.len() == i,
                operands_wf(operands@, self.locals@.len()),
            decreases values.len() - i,
        {
            let ghost before = *self;
            proof {
                assert(decreases_to!(e.kind => *values));
                assert(decreases_to!(*values => values@));
                assert(decreases_to!(values@ => values@[i as int]));
            }
            let result = self.lower_operand(&values[i]);
            let operand = match result {
                Ok(o) => o,
                Err(f) => {
                    proof {
                        lemma_elems_stop(c0, s0.st(), values@, i + 1, values@.len() as int);
                    }
                    return Err(f);
                },
            };
            proof {
                lemma_operands_wf_mono(operands@, before.locals@.len(), self.locals@.len());
            }
            let ghost prev = operands@;
            operands.push(operand);
            proof {
                assert(operands_view(operands@) =~= operands_view(prev).push(operand@));
            }
            i = i + 1;
        }
        Ok(Rvalue::Aggregate(AggregateKind::Array, operands))
    }

    /// `&value`/`@value`. A fixed-size array is referenced as a `{ptr, len}`
    /// slice (the pointer computed into a temp, the length a constant);
    /// any other place as a plain reference.
    pub fn lower_ref(&mut self, e: &Expression) -> (res: MirResult<Rvalue>)
        requires
            old(self).inv(),
            old(self).blocks@.len() > 0,
            e.kind is Ref,
        ensures
            severity_ok(res),
            body_fault(res),
            res is Ok && old(self).current is Some ==> final(self).current is Some,
            evolves(*old(self), *final(self)),
            res matches Ok(r) ==> rvalue_wf(r, final(self).locals@.len()),
            e.kind matches ExpressionKind::Ref { is_mutable, .. } ==> (res matches Ok(r) ==> ((r matches Rvalue::Ref {
                mutable,
                ..
            } && mutable == is_mutable) || (r matches Rvalue::Aggregate(AggregateKind::Array, os) && os@.len() == 2))),
            sp_rvalue(old(self).ctx(), old(self).st(), *e) == Some((final(self).st(), rvalue_res_view(res))),
        decreases e, 2int,
    {
        let ExpressionKind::Ref { value, is_mutable } = &e.kind else {
            proof { assert(false); }
            return Err(Fault::error_with_kind(MirErrorKind::UnsupportedOperandExpression, Some(e.span)));
        };
        let span = e.span;
        let mutable = *is_mutable;
        let (place, value_ty) = self.resolve_place_expression(&**value, span)?;
        match &value_ty {
            SoulType::Array(kind, of) => match kind {
                ArrayKind::StackArray(len) => {
                    let len = *len;
                    let element_ty = (**of).clone();
                    let ptr_ty = SoulType::Reference(Box::new(element_ty), mutable);
                    let ghost s1 = *self;
                    let ptr_temp = self.alloc_local(ptr_ty, TypeModifier::Immut, span);
                    proof {
                        lemma_place_wf_mono(place, s1.locals@.len(), self.locals@.len());
                    }
                    let target = Place::local(ptr_temp);
                    assert(target@ =~= local_place(ptr_temp));
                    self.push_statement(Statement::Assign(target, Rvalue::Ref { mutable, place }));
                    let mut operands: Vec<Operand> = Vec::new();
                    let read = Place::local(ptr_temp);
                    assert(read@ =~= local_place(ptr_temp));
                    operands.push(Operand::Copy(read));
                    operands.push(Operand::Constant(Literal::Uint(len as u128)));
                    assert(operands_view(operands@) =~= seq![
                        OperandV::Copy(local_place(ptr_temp)),
                        OperandV::Constant(LiteralV::Uint(len as u128)),
                    ]);
                    proof {
                        assert(operand_wf(operands@[0], self.locals@.len()));
                        assert(operand_wf(operands@[1], self.locals@.len()));
                    }
                    Ok(Rvalue::Aggregate(AggregateKind::Array, operands))
                },
                _ => Err(Fault::error_with_kind(MirErrorKind::ArrayReferenceUnsupported { ty: value_ty.clone() }, Some(span))),
            },
            _ => Ok(Rvalue::Ref { mutable, place }),
        }
    }

    /// A free-function call `name(args...)`: lowers the arguments, then ends
    /// the current block with a `Call` continuing in a fresh block. With
    /// `want_result`, a non-`none` result lands in a fresh temp that the
    /// returned operand reads.
    pub fn lower_call(&mut self, call: &FunctionCall, span: Span, want_result: bool) -> (res: MirResult<Option<Operand>>)
        requires
            old(self).inv(),
            old(self).blocks@.len() > 0,
        ensures
            severity_ok(res),
            body_fault(res),
            res is Ok && old(self).current is Some ==> final(self).current is Some,
            evolves(*old(self), *final(self)),
            res matches Ok(Some(o)) ==> operand_wf(o, final(self).locals@.len()),
            !want_result ==> (res matches Ok(r) ==> r is None),
            call.has_callee || call.has_generics ==> res == Err::<Option<Operand>, Fault>(
                Fault::error(MirErrorKind::UnsupportedCallShape, Some(span)),
            ),
            res is Ok ==> final(self).blocks@.len() > old(self).blocks@.len()
                && final(self).current == Some(BlockId((final(self).blocks@.len() - 1) as usize)),
            res is Ok && old(self).current is Some ==> exists|c: int|
                0 <= c < final(self).blocks@.len() && #[trigger] final(self).blocks@[c] is Some && seals_call(
                    *old(self),
                    *final(self),
                    *call,
                    want_result,
                    res,
                    final(self).blocks@[c]->Some_0,
                ),
            sp_call(old(self).ctx(), old(self).st(), *call, span, want_result) == Some((final(self).st(), call_res_view(res))),
        decreases call, 0int,
    {
        proof {
            lemma_evolves_refl(*self);
        }
        if call.has_callee || call.has_generics {
            return Err(Fault::error_with_kind(MirErrorKind::UnsupportedCallShape, Some(span)));
        }
        let resolve = match self.declares.get_function_resolve(call.id) {
            Some(r) => r,
            None => {
                return Err(Fault::error_with_kind(MirErrorKind::FunctionCallHasNoResolvedTarget, Some(span)));
            },
        };
        if resolve.is_defer {
            return Err(Fault::error_with_kind(MirErrorKind::UnsupportedCallShape, Some(span)));
        }
        let declares = self.declares;
        let decl = match declares.get_function(resolve.id) {
            Some(d) => d,
            None => {
                return Err(Fault::error_with_kind(MirErrorKind::FunctionCallHasNoResolvedTarget, Some(span)));
            },
        };
        let return_type = &decl.return_type;

        let ghost s0 = *self;
        let ghost c0 = self.ctx();
        let ghost total = sp_args(c0, s0.st(), call.arguments@, call.arguments@.len() as int, span);
        let mut args: Vec<Operand> = Vec::new();
        assert(operands_view(args@) =~= Seq::<OperandV>::empty());
        let mut i: usize = 0;
        while i < call.arguments.len()
            invariant
                evolves(*old(self), *self),
                s0 == *old(self),
                seq_get(old(self).declares.function_resolves@, call.id as int) == Some(resolve),
                !resolve.is_defer,
                old(self).declares.functions.spec_get(resolve.id.0 as int) == Some(*decl),
                c0 == old(self).ctx(),
                self.ctx() == c0,
                total == sp_args(c0, s0.st(), call.arguments@, call.arguments@.len() as int, span),
                sp_args(c0, s0.st(), call.arguments@, i as int, span) == Some(
                    (self.st(), Ok::<Seq<OperandV>, FaultV>(operands_view(args@))),
                ),
                old(self).current is Some ==> self.current is Some,
                self.blocks@.len() > 0,
                !call.has_callee && !call.has_generics,
                i <= call.arguments@.len(),
                args@.len() == i,
                operands_wf(args@, self.locals@.len()),
            decreases call.arguments.len() - i,
        {
            let argument = &call.arguments[i];
            if argument.named {
                proof {
                    lemma_args_stop(c0, s0.st(), call.arguments@, i + 1, call.arguments@.len() as int, span);
                }
                return Err(Fault::error_with_kind(MirErrorKind::UnsupportedCallShape, Some(span)));
            }
            let ghost before = *self;
            let result = self.lower_operand(&argument.value);
            let operand = match result {
                Ok(o) => o,
                Err(f) => {
                    proof {
                        lemma_args_stop(c0, s0.st(), call.arguments@, i + 1, call.arguments@.len() as int, span);
                    }
                    return Err(f);
                },
            };
            proof {
            }
            proof {
                lemma_operands_wf_mono(args@, before.locals@.len(), self.locals@.len());
            }
            let ghost prev = args@;
            args.push(operand);
            proof {
                assert(operands_view(args@) =~= operands_view(prev).push(operand@));
            }
            i = i + 1;
        }
        proof {
            assert(total is Some ==> total == Some((self.st(), Ok::<Seq<OperandV>, FaultV>(operands_view(args@)))));
        }

        let is_none_return = match return_type {
            SoulType::NoneType => true,
            _ => false,
        };
        let destination_local = if want_result && !is_none_return {
            self.require_lowerable(return_type, span)?;
            let ghost before = *self;
            let local = self.alloc_local(return_type.clone(), TypeModifier::Immut, span);
            proof {
                lemma_operands_wf_mono(args@, before.locals@.len(), self.locals@.len());
            }
            Some(local)
        } else {
            None
        };
        let destination = match destination_local {
            Some(l) => Some(Place::local(l)),
            None => None,
        };
        proof {
            if let Some(l) = destination_local {
                assert(destination->Some_0@ =~= local_place(l));
            }
        }

        let next = self.new_block();
        let ghost s1 = *self;
        let ghost cur = self.current;
        self.seal(Terminator::Call { id: resolve.id, arguments: args, destination, target: Some(next) }, Some(next));
        let result: MirResult<Option<Operand>> = match destination_local {
            Some(l) => Ok(Some(Operand::Copy(Place::local(l)))),
            None => Ok(None),
        };
        proof {
            lemma_evolves_then_base(s0, s1, *self);
            if let Some(c) = cur {
                assert(seals_call(*old(self), *self, *call, want_result, result, self.blocks@[c.0 as int]->Some_0));
            }
        }
        result
    }
}

/// The first value at or after `j` given for the field `name`.
pub open spec fn value_position(values: Seq<(String, Expression)>, name: Seq<char>, j: int) -> Option<int>
    decreases values.len() - j,
{
    if j < 0 || j >= values.len() {
        None
    } else if values[j].0@ == name {
        Some(j)
    } else {
        value_position(values, name, j + 1)
    }
}

/// The declared field is a plain name that the constructor gives a value.
pub open spec fn field_has_value(field: crate::ast::StructField, values: Seq<(String, Expression)>) -> bool {
    field.pattern matches VarPattern::Simple { binding, .. } && value_position(values, binding.ident@, 0) is Some
}

/// The text of the trap on a zero divisor.
pub open spec fn zero_divisor_message(op: BinaryOperatorKind) -> Seq<char> {
    if op is Div {
        "attempt to divide by zero"@
    } else {
        "attempt to calculate the remainder with a divisor of zero"@
    }
}

/// The text of the trap on `MIN / -1`.
pub open spec fn div_overflow_message(op: BinaryOperatorKind) -> Seq<char> {
    if op is Div {
        "attempt to divide with overflow"@
    } else {
        "attempt to calculate the remainder with overflow"@
    }
}

/// `b` ends with `t = (right == 0)` after the statements it had, and an
/// assert that `t` is false continuing at `next`, which traps with the
/// zero-divisor message.
pub open spec fn checks_zero_divisor(
    b: Option<crate::mir::BasicBlock>,
    before: Seq<Statement>,
    right: Operand,
    t: LocalId,
    next: BlockId,
    op: BinaryOperatorKind,
) -> bool {
    b matches Some(bb) && bb@.statements == crate::mir::statements_view(before).push(
        StatementV::Assign(local_place(t), RvalueV::BinaryOp(BinaryOperatorKind::Eq, right@, OperandV::Constant(LiteralV::Int(0)))),
    ) && (bb@.terminator matches TerminatorV::Assert { cond, expected, msg, target, .. } && cond == OperandV::Copy(
        local_place(t),
    ) && !expected && target == next && is_text_constant(msg, zero_divisor_message(op)))
}

/// `b` holds exactly `m = (left == min)`, `n = (right == -1)` and
/// `o = m && n` in the locals from `first` on, and ends in an assert that
/// `o` is false continuing at `next`, which traps with the overflow message.
pub open spec fn checks_min_by_minus_one(
    b: Option<crate::mir::BasicBlock>,
    left: Operand,
    right: Operand,
    first: usize,
    min: i128,
    next: BlockId,
    op: BinaryOperatorKind,
) -> bool {
    let m = local_place(LocalId(first));
    let n = local_place(LocalId((first + 1) as usize));
    let o = local_place(LocalId((first + 2) as usize));
    b matches Some(bb) && bb@.statements == seq![
        StatementV::Assign(m, RvalueV::BinaryOp(BinaryOperatorKind::Eq, left@, OperandV::Constant(LiteralV::Int(min)))),
        StatementV::Assign(n, RvalueV::BinaryOp(BinaryOperatorKind::Eq, right@, OperandV::Constant(LiteralV::Int(-1i128)))),
        StatementV::Assign(o, RvalueV::BinaryOp(BinaryOperatorKind::LogAnd, OperandV::Copy(m), OperandV::Copy(n))),
    ] && (bb@.terminator matches TerminatorV::Assert { cond, expected, msg, target, .. } && cond == OperandV::Copy(o)
        && !expected && target == next && is_text_constant(msg, div_overflow_message(op)))
}

/// `b` ends in the call that lowering `call` emits: to the function the
/// resolver recorded, with one operand per argument, continuing at the
/// cursor, and with a destination exactly when a result is wanted and the
/// callee returns one, which the returned operand then reads.
pub open spec fn seals_call(
    s0: FunctionLowerer,
    s1: FunctionLowerer,
    call: FunctionCall,
    want_result: bool,
    res: MirResult<Option<Operand>>,
    b: crate::mir::BasicBlock,
) -> bool {
    match b.terminator {
        Terminator::Call { id, arguments, destination, target } => {
            &&& seq_get(s0.declares.function_resolves@, call.id as int) == Some(FunctionResolve { id, is_defer: false })
            &&& arguments@.len() == call.arguments@.len()
            &&& target == s1.current
            &&& match s0.declares.functions.spec_get(id.0 as int) {
                Some(d) => destination is Some <==> (want_result && !(d.return_type is NoneType)),
                None => false,
            }
            &&& match res {
                Ok(Some(o)) => match destination {
                    Some(p) => o@ == OperandV::Copy(p@),
                    None => false,
                },
                Ok(None) => destination is None,
                Err(_) => true,
            }
        },
        _ => false,
    }
}

} // verus!
