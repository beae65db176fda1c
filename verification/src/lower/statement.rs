//! Statements: variable declarations, assignments, returns, calls and the
//! `assert`/`panic` intrinsics.

use vstd::prelude::*;
use vstd::string::*;

use crate::ast::{
    seq_get, Expression, ExpressionKind, FunctionCall, IntrinsicFunction, Statement as AstStatement,
    StatementKind, VarPattern,
};
use crate::fault::{body_fault, res_view, severity_ok, Fault, FaultV, MirErrorKind, MirResult};
use crate::lower::place::is_text_constant;
use crate::lower::{
    cursor_ok, evolves, evolves_base, lemma_evolves_refl, lemma_evolves_then_base, lemma_evolves_trans,
    lowerable, FunctionLowerer,
};
use crate::lower::semantics::{intrinsic_res_view, sp_assert, sp_body, sp_panic, sp_rvalue, sp_statement, st_push};
use crate::mir::{
    BasicBlock, lemma_operand_wf_mono, lemma_place_wf_mono, lemma_rvalue_wf_mono, local_place, operand_wf, place_wf,
    BlockId, LocalDecl, LocalId, Operand, OperandV, Place, Rvalue, Statement, StatementV, Terminator, TerminatorV,
};
use crate::types::{Literal, SoulType, Span};

verus! {

broadcast use lemma_evolves_trans, vstd::std_specs::vec::group_vec_axioms;

/// The return local, if any, is one of the locals.
pub open spec fn return_local_ok(return_local: Option<LocalId>, s: FunctionLowerer) -> bool {
    return_local matches Some(l) ==> l.0 < s.locals@.len()
}

impl<'a> FunctionLowerer<'a> {
    /// Lowers the statements of a block in order. A statement reached after
    /// every path has already returned, broken or continued is reported as
    /// an `UnreachableStatement` warning.
    pub fn lower_body(&mut self, return_local: Option<LocalId>, statements: &Vec<AstStatement>) -> (res: MirResult<()>)
        requires
            old(self).inv(),
            old(self).blocks@.len() > 0,
            return_local_ok(return_local, *old(self)),
        ensures
            severity_ok(res),
            body_fault(res),
            evolves(*old(self), *final(self)),
            statements@.len() == 0 ==> res is Ok && *final(self) == *old(self),
            statements@.len() > 0 && old(self).current is None ==> res == Err::<(), Fault>(
                Fault::warning(MirErrorKind::UnreachableStatement, Some(statements@[0].span)),
            ) && *final(self) == *old(self),
            sp_body(old(self).ctx(), old(self).st(), return_local, statements@, 0) == Some((final(self).st(), res_view(res))),
        decreases statements, 0int,
    {
        proof {
            lemma_evolves_refl(*self);
        }
        let ghost c0 = self.ctx();
        let ghost total = sp_body(c0, self.st(), return_local, statements@, 0);
        let mut i: usize = 0;
        while i < statements.len()
            invariant
                evolves(*old(self), *self),
                c0 == old(self).ctx(),
                self.ctx() == c0,
                total == sp_body(c0, old(self).st(), return_local, statements@, 0),
                sp_body(c0, self.st(), return_local, statements@, i as int) == total,
                self.blocks@.len() > 0,
                return_local_ok(return_local, *self),
                i <= statements@.len(),
                i == 0 ==> *self == *old(self),
                old(self).current is None ==> i == 0,
            decreases statements.len() - i,
        {
            let statement = &statements[i];
            if self.is_terminated() {
                return Err(Fault::warning_with_kind(MirErrorKind::UnreachableStatement, Some(statement.span)));
            }
            proof {
                assert(decreases_to!(*statements => statements@));
                assert(decreases_to!(statements@ => statements@[i as int]));
            }
            self.lower_statement(return_local, statement)?;
            i = i + 1;
        }
        proof {
            assert(sp_body(c0, self.st(), return_local, statements@, i as int) == Some((self.st(), Ok::<(), FaultV>(()))));
        }
        Ok(())
    }

    pub fn lower_statement(&mut self, return_local: Option<LocalId>, statement: &AstStatement) -> (res: MirResult<()>)
        requires
            old(self).inv(),
            old(self).blocks@.len() > 0,
            old(self).current is Some,
            return_local_ok(return_local, *old(self)),
        ensures
            severity_ok(res),
            body_fault(res),
            evolves(*old(self), *final(self)),
            statement.kind is Other ==> res == Err::<(), Fault>(
                Fault::error(MirErrorKind::UnsupportedStatementKind, Some(statement.span)),
            ) && *final(self) == *old(self),
            sp_statement(old(self).ctx(), old(self).st(), return_local, *statement) == Some((final(self).st(), res_view(res))),
        decreases statement, 5int,
    {
        match &statement.kind {
            StatementKind::Variable(_) => self.lower_variable(statement),
            StatementKind::Assignment { .. } => self.lower_assignment(statement),
            StatementKind::Expression(_) => self.lower_expression_statement(return_local, statement),
            StatementKind::Other => {
                proof {
                    lemma_evolves_refl(*self);
                }
                Err(Fault::error_with_kind(MirErrorKind::UnsupportedStatementKind, Some(statement.span)))
            },
        }
    }

    /// `name := value`: the value is lowered first, then the binding gets a
    /// fresh local of its resolved type that the value is assigned into.
    pub fn lower_variable(&mut self, statement: &AstStatement) -> (res: MirResult<()>)
        requires
            old(self).inv(),
            old(self).blocks@.len() > 0,
            statement.kind is Variable,
        ensures
            severity_ok(res),
            body_fault(res),
            evolves(*old(self), *final(self)),
            statement.kind matches StatementKind::Variable(var) ==> {
                &&& var.pattern is Destructure ==> res == Err::<(), Fault>(
                    Fault::error(MirErrorKind::NonSimpleVariablePatternUnsupported, Some(statement.span)),
                )
                &&& var.pattern is Simple && var.initialize_value is None ==> res == Err::<(), Fault>(
                    Fault::error(MirErrorKind::UninitializedVariableUnsupported, Some(statement.span)),
                )
                &&& var.pattern matches VarPattern::Simple { binding, modifier } ==> (res is Ok ==> {
                    &&& seq_get(old(self).declares.variable_types@, binding.id as int) matches Some(ty)
                    &&& lowerable(*old(self).declares, old(self).module, ty)
                    &&& final(self).locals@.len() > old(self).locals@.len()
                    &&& final(self).locals@.last() == LocalDecl { ty, mutability: modifier, span: binding.span }
                    &&& final(self).spec_lookup_local(binding.id) == Some(LocalId((final(self).locals@.len() - 1) as usize))
                    &&& final(self).statements@.last() matches Statement::Assign(p, _) && p@ == local_place(
                        LocalId((final(self).locals@.len() - 1) as usize),
                    )
                })
                &&& var.pattern matches VarPattern::Simple { binding, .. } ==> (var.initialize_value is Some && seq_get(
                    old(self).declares.variable_types@,
                    binding.id as int,
                ) is None ==> res == Err::<(), Fault>(
                    Fault::error(MirErrorKind::VariableHasNoResolvedType, Some(binding.span)),
                ))
            },
            sp_statement(old(self).ctx(), old(self).st(), None, *statement) == Some((final(self).st(), res_view(res))),
        decreases statement, 4int,
    {
        let StatementKind::Variable(var) = &statement.kind else {
            proof { assert(false); }
            return Err(Fault::error_with_kind(MirErrorKind::UnsupportedStatementKind, Some(statement.span)));
        };
        proof {
            lemma_evolves_refl(*self);
        }
        let (binding, modifier) = match &var.pattern {
            VarPattern::Simple { binding, modifier } => (binding, *modifier),
            VarPattern::Destructure => {
                return Err(Fault::error_with_kind(MirErrorKind::NonSimpleVariablePatternUnsupported, Some(statement.span)));
            },
        };
        let init = match &var.initialize_value {
            Some(v) => v,
            None => {
                return Err(Fault::error_with_kind(MirErrorKind::UninitializedVariableUnsupported, Some(statement.span)));
            },
        };
        let ty = match self.declares.get_variable_type(binding.id) {
            Some(t) => t.clone(),
            None => {
                return Err(Fault::error_with_kind(MirErrorKind::VariableHasNoResolvedType, Some(binding.span)));
            },
        };
        self.require_lowerable(&ty, binding.span)?;
        let rvalue = self.lower_rvalue(init)?;
        let ghost s1 = *self;
        let local = self.alloc_local(ty, modifier, binding.span);
        self.bind(binding.id, local);
        proof {
            lemma_rvalue_wf_mono(rvalue, s1.locals@.len(), self.locals@.len());
        }
        self.push_statement(Statement::Assign(Place::local(local), rvalue));
        Ok(())
    }

    /// `left = right`, where `left` is a declared variable, a struct field or
    /// a slice element.
    pub fn lower_assignment(&mut self, statement: &AstStatement) -> (res: MirResult<()>)
        requires
            old(self).inv(),
            old(self).blocks@.len() > 0,
            statement.kind is Assignment,
        ensures
            severity_ok(res),
            body_fault(res),
            evolves(*old(self), *final(self)),
            statement.kind matches StatementKind::Assignment { left, .. } ==> (!(left.kind is Variable
                || left.kind is FieldAccess || left.kind is Index) ==> res == Err::<(), Fault>(
                Fault::error(MirErrorKind::AssignmentTargetUnsupported, Some(left.span)),
            )),
            res is Ok ==> final(self).statements@.len() > 0,
            statement.kind matches StatementKind::Assignment { left, .. } ==> (left.kind matches ExpressionKind::Variable {
                id,
            } ==> match old(self).resolve_local_result(id, left.span) {
                Err(f) => res == Err::<(), Fault>(f) && *final(self) == *old(self),
                Ok(l) => res is Ok ==> (final(self).statements@.last() matches Statement::Assign(p, _) && p@
                    == local_place(l)),
            }),
            sp_statement(old(self).ctx(), old(self).st(), None, *statement) == Some((final(self).st(), res_view(res))),
        decreases statement, 4int,
    {
        let StatementKind::Assignment { left, right } = &statement.kind else {
            proof { assert(false); }
            return Err(Fault::error_with_kind(MirErrorKind::UnsupportedStatementKind, Some(statement.span)));
        };
        proof {
            lemma_evolves_refl(*self);
        }
        let place = match &left.kind {
            ExpressionKind::Variable { id } => Place::local(self.resolve_local(*id, left.span)?),
            ExpressionKind::FieldAccess { .. } | ExpressionKind::Index { .. } => {
                let (p, _) = self.resolve_place_expression(left, left.span)?;
                p
            },
            _ => {
                return Err(Fault::error_with_kind(MirErrorKind::AssignmentTargetUnsupported, Some(left.span)));
            },
        };
        let ghost s1 = *self;
        let rvalue = self.lower_rvalue(right)?;
        proof {
            lemma_place_wf_mono(place, s1.locals@.len(), self.locals@.len());
        }
        self.push_statement(Statement::Assign(place, rvalue));
        Ok(())
    }

    /// An expression in statement position: `return`, `if`, a loop,
    /// `match`, `break`/`continue`, or a call whose result is discarded.
    #[verifier::rlimit(60)]
    pub fn lower_expression_statement(&mut self, return_local: Option<LocalId>, statement: &AstStatement) -> (res: MirResult<()>)
        requires
            old(self).inv(),
            old(self).blocks@.len() > 0,
            old(self).current is Some,
            return_local_ok(return_local, *old(self)),
            statement.kind is Expression,
        ensures
            severity_ok(res),
            body_fault(res),
            evolves(*old(self), *final(self)),
            statement.kind matches StatementKind::Expression(expr) ==> {
                &&& expr.kind matches ExpressionKind::Return(value) ==> (value is Some && return_local is None
                    ==> res == Err::<(), Fault>(Fault::error(MirErrorKind::UnexpectedReturnValue, Some(expr.span))))
                &&& expr.kind is Return ==> (res is Ok ==> final(self).current is None)
                &&& expr.kind is Return ==> (res is Ok ==> exists|c: int|
                    0 <= c < final(self).blocks@.len() && returns_from(
                        #[trigger] final(self).blocks@[c],
                        if expr.kind->Return_0 is Some {
                            return_local
                        } else {
                            None
                        },
                    ))
                &&& !(expr.kind is Return || expr.kind is If || expr.kind is For || expr.kind is Match
                    || expr.kind is Break || expr.kind is Continue || expr.kind is FunctionCall) ==> res == Err::<(), Fault>(
                    Fault::error(MirErrorKind::NonReturnTerminalStatementUnsupported, Some(statement.span)),
                )
            },
            sp_statement(old(self).ctx(), old(self).st(), return_local, *statement) == Some((final(self).st(), res_view(res))),
        decreases statement, 4int,
    {
        let StatementKind::Expression(expr) = &statement.kind else {
            proof { assert(false); }
            return Err(Fault::error_with_kind(MirErrorKind::UnsupportedStatementKind, Some(statement.span)));
        };
        proof {
            lemma_evolves_refl(*self);
        }
        match &expr.kind {
            ExpressionKind::Return(Some(value)) => {
                let return_local = match return_local {
                    Some(l) => l,
                    None => {
                        return Err(Fault::error_with_kind(MirErrorKind::UnexpectedReturnValue, Some(expr.span)));
                    },
                };
                let ghost s0 = *self;
                let rvalue = self.lower_rvalue(&**value)?;
                let target = Place::local(return_local);
                assert(target@ =~= local_place(return_local));
                self.push_statement(Statement::Assign(target, rvalue));
                let ghost s1 = *self;
                let ghost cur = self.current;
                self.seal(Terminator::Return, None);
                proof {
                    lemma_evolves_then_base(s0, s1, *self);
                    assert(returns_from(self.blocks@[cur->Some_0.0 as int], Some(return_local)));
                    assert(sp_rvalue(s0.ctx(), s0.st(), **value) matches Some((x, Ok(r))) ==> s1.st() == st_push(x, StatementV::Assign(local_place(return_local), r)));
                }
                Ok(())
            },
            ExpressionKind::Return(None) => {
                let ghost s0 = *self;
                let ghost cur = self.current;
                self.seal(Terminator::Return, None);
                proof {
                    lemma_evolves_then_base(s0, s0, *self);
                    assert(returns_from(self.blocks@[cur->Some_0.0 as int], None));
                }
                Ok(())
            },
            ExpressionKind::If(if_expr) => self.lower_if(return_local, if_expr, expr.span),
            ExpressionKind::For(for_expr) => self.lower_for(return_local, for_expr, expr.span),
            ExpressionKind::Match { scrutinee, arms } => self.lower_match(return_local, scrutinee, arms, expr.span),
            ExpressionKind::Break => self.lower_break(expr.span),
            ExpressionKind::Continue => self.lower_continue(expr.span),
            ExpressionKind::FunctionCall(call) => {
                if self.try_lower_intrinsic_statement(call, expr.span)? {
                    return Ok(());
                }
                self.lower_call(call, expr.span, false)?;
                Ok(())
            },
            _ => Err(Fault::error_with_kind(MirErrorKind::NonReturnTerminalStatementUnsupported, Some(statement.span))),
        }
    }

    /// Lowers an intrinsic call in statement position. `Ok(false)` means the
    /// call does not name an intrinsic at all and is an ordinary call.
    pub fn try_lower_intrinsic_statement(&mut self, call: &FunctionCall, span: Span) -> (res: MirResult<bool>)
        requires
            old(self).inv(),
            old(self).blocks@.len() > 0,
        ensures
            severity_ok(res),
            body_fault(res),
            evolves(*old(self), *final(self)),
            seq_get(old(self).declares.intrinsic_resolves@, call.id as int) is None ==> res == Ok::<bool, Fault>(false)
                && *final(self) == *old(self),
            seq_get(old(self).declares.intrinsic_resolves@, call.id as int) matches Some(k) ==> ((k is Other ==> res
                == Err::<bool, Fault>(Fault::error(MirErrorKind::UnsupportedIntrinsic { name: k->name }, Some(span)))
                && *final(self) == *old(self)) && (res is Ok ==> res == Ok::<bool, Fault>(true))),
            seq_get(old(self).declares.intrinsic_resolves@, call.id as int) == Some(IntrinsicFunction::Assert) ==> sp_assert(
                old(self).ctx(),
                old(self).st(),
                *call,
                span,
            ) == Some((final(self).st(), intrinsic_res_view(res))),
            seq_get(old(self).declares.intrinsic_resolves@, call.id as int) == Some(IntrinsicFunction::Panic) ==> sp_panic(
                old(self).ctx(),
                old(self).st(),
                *call,
                span,
            ) == Some((final(self).st(), intrinsic_res_view(res))),
        decreases call, 3int,
    {
        proof {
            lemma_evolves_refl(*self);
        }
        let kind = match self.declares.get_intrinsic_resolve(call.id) {
            Some(k) => k,
            None => {
                return Ok(false);
            },
        };
        match kind {
            IntrinsicFunction::Assert => self.lower_assert_intrinsic(call, span)?,
            IntrinsicFunction::Panic => self.lower_panic_intrinsic(call, span)?,
            IntrinsicFunction::Other { name, .. } => {
                return Err(Fault::error_with_kind(MirErrorKind::UnsupportedIntrinsic { name: name.clone() }, Some(span)));
            },
        }
        Ok(true)
    }

    /// The single argument of an `assert`/`panic` call; any other count is
    /// an `IntrinsicArityMismatch`.
    pub fn intrinsic_sole_argument<'c>(&self, call: &'c FunctionCall, kind: &IntrinsicFunction, span: Span) -> (res: MirResult<&'c Expression>)
        ensures
            severity_ok(res),
            body_fault(res),
            call.arguments@.len() == 1 ==> (res matches Ok(a) && *a == call.arguments@[0].value),
            call.arguments@.len() != 1 ==> (res matches Err(f) && (f.severity is Error && f.span == Some(span)
                && (f.kind matches MirErrorKind::IntrinsicArityMismatch { name, expected, got } && name@ == kind.spec_name()
                && expected == kind.spec_arity() && got == call.arguments@.len()))),
    {
        if call.arguments.len() == 1 {
            Ok(&call.arguments[0].value)
        } else {
            let name = kind.as_string();
            Err(Fault::error_with_kind(
                MirErrorKind::IntrinsicArityMismatch { name, expected: kind.arity(), got: call.arguments.len() },
                Some(span),
            ))
        }
    }

    /// `assert(cond)`: ends the block with an `Assert` that continues in a
    /// fresh block when `cond` holds and panics otherwise.
    pub fn lower_assert_intrinsic(&mut self, call: &FunctionCall, span: Span) -> (res: MirResult<()>)
        requires
            old(self).inv(),
            old(self).blocks@.len() > 0,
        ensures
            severity_ok(res),
            body_fault(res),
            evolves(*old(self), *final(self)),
            res is Ok ==> final(self).current == Some(BlockId((final(self).blocks@.len() - 1) as usize)),
            call.arguments@.len() != 1 ==> (res matches Err(f) && (f.kind matches MirErrorKind::IntrinsicArityMismatch {
                expected,
                got,
                ..
            } && expected == 1 && got == call.arguments@.len())),
            res is Ok && old(self).current is Some ==> exists|c: int|
                0 <= c < final(self).blocks@.len() && #[trigger] ends_in_assert(
                    final(self).blocks@[c],
                    final(self).current->Some_0,
                    "assertion failed"@,
                ),
            sp_assert(old(self).ctx(), old(self).st(), *call, span) == Some((final(self).st(), res_view(res))),
        decreases call, 2int,
    {
        let cond_expr = self.intrinsic_sole_argument(call, &IntrinsicFunction::Assert, span);
        proof {
            lemma_evolves_refl(*self);
        }
        let cond_expr = cond_expr?;
        proof {
            assert(decreases_to!(*call => call.arguments));
            assert(decreases_to!(call.arguments => call.arguments@));
            assert(decreases_to!(call.arguments@ => call.arguments@[0]));
            assert(decreases_to!(call.arguments@[0] => call.arguments@[0].value));
        }
        let ghost s0 = *self;
        let cond = self.lower_bool_condition(cond_expr)?;
        let msg = Operand::Constant(Literal::Str(String::from_str("assertion failed")));
        let next = self.new_block();
        let ghost s1 = *self;
        let ghost cur = self.current;
        self.seal(Terminator::Assert { cond, expected: true, msg, target: next, span }, Some(next));
        proof {
            lemma_evolves_then_base(s0, s1, *self);
            if let Some(c) = cur {
                assert(ends_in_assert(self.blocks@[c.0 as int], next, "assertion failed"@));
            }
        }
        Ok(())
    }

    /// `panic(msg)`: ends the block with an `Assert` on the constant `false`,
    /// which always takes the panic path; nothing after it is reachable, so
    /// its continuation block is never filled.
    pub fn lower_panic_intrinsic(&mut self, call: &FunctionCall, span: Span) -> (res: MirResult<()>)
        requires
            old(self).inv(),
            old(self).blocks@.len() > 0,
        ensures
            severity_ok(res),
            body_fault(res),
            evolves(*old(self), *final(self)),
            res is Ok ==> final(self).current is None,
            call.arguments@.len() != 1 ==> (res matches Err(f) && (f.kind matches MirErrorKind::IntrinsicArityMismatch {
                expected,
                got,
                ..
            } && expected == 1 && got == call.arguments@.len())),
            res is Ok && old(self).current is Some ==> exists|c: int|
                0 <= c < final(self).blocks@.len() && #[trigger] always_panics(final(self).blocks@[c]),
            sp_panic(old(self).ctx(), old(self).st(), *call, span) == Some((final(self).st(), res_view(res))),
        decreases call, 2int,
    {
        let msg_expr = self.intrinsic_sole_argument(call, &IntrinsicFunction::Panic, span);
        proof {
            lemma_evolves_refl(*self);
        }
        let msg_expr = msg_expr?;
        proof {
            assert(decreases_to!(*call => call.arguments));
            assert(decreases_to!(call.arguments => call.arguments@));
            assert(decreases_to!(call.arguments@ => call.arguments@[0]));
            assert(decreases_to!(call.arguments@[0] => call.arguments@[0].value));
        }
        let ghost s0 = *self;
        let msg = self.lower_operand(msg_expr)?;
        let dead = self.new_block();
        let ghost s1 = *self;
        let ghost cur = self.current;
        self.seal(
            Terminator::Assert { cond: Operand::Constant(Literal::Bool(false)), expected: true, msg, target: dead, span },
            None,
        );
        proof {
            lemma_evolves_then_base(s0, s1, *self);
            if let Some(c) = cur {
                assert(always_panics(self.blocks@[c.0 as int]));
            }
        }
        Ok(())
    }
}

/// `b` ends in an assert that its condition holds, continuing at `target`,
/// whose message is the text `msg`.
pub open spec fn ends_in_assert(b: Option<BasicBlock>, target: BlockId, msg: Seq<char>) -> bool {
    b matches Some(bb) && (bb.terminator matches Terminator::Assert { expected, msg: m, target: t, .. } && expected
        && t == target && is_text_constant(m@, msg))
}

/// `b` ends in an assert of the constant `false`: it always panics.
pub open spec fn always_panics(b: Option<BasicBlock>) -> bool {
    b matches Some(bb) && (bb.terminator matches Terminator::Assert { cond, expected, .. } && expected && cond
        == Operand::Constant(Literal::Bool(false)))
}

/// `b` ends in `return`; with a return local, its last statement assigns
/// the returned value to it.
pub open spec fn returns_from(b: Option<BasicBlock>, return_local: Option<LocalId>) -> bool {
    b matches Some(bb) && bb.terminator is Return && match return_local {
        Some(l) => bb.statements@.len() > 0 && (bb.statements@.last() matches Statement::Assign(p, _) && p@
            == local_place(l)),
        None => true,
    }
}

} // verus!
