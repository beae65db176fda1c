//! Control flow (`if`, while-loops, `break`, `continue`) and lowering a
//! whole function.

use vstd::prelude::*;

use crate::ast::{
    MatchArm, MatchPattern, AstStore, DeclareStore, Expression, For, ForCondition, Function as AstFunction, FunctionKind, If, IfBranch,
    IfCondition, Signature,
};
use crate::fault::{body_fault, res_view, severity_ok, Fault, FaultV, MirErrorKind, MirResult};
use crate::lower::statement::return_local_ok;
use crate::lower::{
    cursor_ok, evolves, evolves_base, lemma_evolves_refl, lemma_evolves_then_base, lemma_evolves_trans,
    lowerable, FunctionLowerer, LoopTargets, LoweringOptions,
};
use crate::lower::semantics::{
    function_result_view, function_view, match_catch_all, match_targets, param_state, pattern_supported,
    patterns_supported, finish_match, sp_match_arm, sp_match_arms, sp_for, sp_if, sp_lower, sp_match, sp_program_faults, st_move, st_new_blocks, st_seal,
    LowerState,
};
use crate::mir::{
    blocks_wf, terminator_wf, BasicBlock, BlockId, ExternFunction, Function, LocalDecl, LocalId, MirProgram,
    local_place, operand_wf, BasicBlockV, Operand, Place, Rvalue, Statement, Terminator, TerminatorV,
};
use crate::types::{FunctionId, Literal, SoulType, Span, TypeModifier};
use crate::vec_map::VecMap;

verus! {

broadcast use lemma_evolves_trans, vstd::std_specs::vec::group_vec_axioms;

/// `b` is sealed with a two-way branch on a `bool`: `true` goes to
/// `on_true`, anything else to `otherwise`.
pub open spec fn ends_in_switch(b: Option<BasicBlock>, on_true: BlockId, otherwise: BlockId) -> bool {
    b matches Some(bb) && (bb.terminator matches Terminator::SwitchInt { targets, otherwise: o, .. } && targets@
        == seq![(Literal::Bool(true), on_true)] && o == otherwise)
}

/// Block `c` branches to the then-block `k` and, when false, to the else
/// block `k + 2` if there is one and to the join block `k + 1` if not.
pub open spec fn branches_at(blocks: Seq<Option<BasicBlock>>, c: int, k: int, has_else: bool) -> bool {
    ends_in_switch(
        blocks[c],
        BlockId(k as usize),
        if has_else {
            BlockId((k + 2) as usize)
        } else {
            BlockId((k + 1) as usize)
        },
    )
}

impl<'a> FunctionLowerer<'a> {
    /// Moves a cursor that every path has left onto an allocated block that
    /// is not sealed yet.
    pub fn move_cursor(&mut self, to: Option<BlockId>)
        requires
            old(self).inv(),
            old(self).current is None,
            to matches Some(b) ==> b.0 < old(self).blocks@.len() && old(self).blocks@[b.0 as int] is None,
        ensures
            evolves_base(*old(self), *final(self)),
            final(self).current == to,
            final(self).blocks@ == old(self).blocks@,
            final(self).locals@ == old(self).locals@,
            final(self).statements@ == old(self).statements@,
            final(self).node_to_local@ == old(self).node_to_local@,
            final(self).st() == st_move(old(self).st(), to),
    {
        self.current = to;
    }

    /// `if cond { .. } [else { .. } | else if ..]`: the condition picks the
    /// then-block or the else-block (the join block when there is no else);
    /// each branch that does not leave by itself jumps to the join block,
    /// which becomes the cursor when at least one branch reaches it.
    pub fn lower_if(&mut self, return_local: Option<LocalId>, if_expr: &If, span: Span) -> (res: MirResult<()>)
        requires
            old(self).inv(),
            old(self).blocks@.len() > 0,
            old(self).current is Some,
            return_local_ok(return_local, *old(self)),
        ensures
            severity_ok(res),
            body_fault(res),
            evolves(*old(self), *final(self)),
            if_expr.condition is Other ==> res == Err::<(), Fault>(
                Fault::error(MirErrorKind::UnsupportedConditionExpression, Some(span)),
            ),
            res is Ok ==> exists|c: int, k: int|
                0 <= c < final(self).blocks@.len() && old(self).blocks@.len() <= k && #[trigger] branches_at(
                    final(self).blocks@,
                    c,
                    k,
                    if_expr.branch is Some,
                ),
            sp_if(old(self).ctx(), old(self).st(), return_local, *if_expr, span) == Some((final(self).st(), res_view(res))),
        decreases if_expr, 0int,
    {
        proof {
            lemma_evolves_refl(*self);
        }
        let condition = match &if_expr.condition {
            IfCondition::Expression(c) => c,
            IfCondition::Other => {
                return Err(Fault::error_with_kind(MirErrorKind::UnsupportedConditionExpression, Some(span)));
            },
        };
        let ghost s0 = *self;
        let discriminant = self.lower_bool_condition(&**condition)?;

        let then_id = self.new_block();
        let join_id = self.new_block();
        let else_id = match &if_expr.branch {
            Some(_) => Some(self.new_block()),
            None => None,
        };
        let false_target = match else_id {
            Some(b) => b,
            None => join_id,
        };
        let ghost s1 = *self;
        let ghost cond_block = self.current;
        let mut targets: Vec<(Literal, BlockId)> = Vec::new();
        targets.push((Literal::Bool(true), then_id));
        assert(targets@ =~= seq![(Literal::Bool(true), then_id)]);
        proof {
            crate::mir::lemma_operand_wf_mono(discriminant, s1.locals@.len(), self.locals@.len());
            assert(terminator_wf(
                Terminator::SwitchInt { discriminant, targets, otherwise: false_target },
                self.locals@.len(),
                self.blocks@.len(),
            ));
        }
        self.seal(Terminator::SwitchInt { discriminant, targets, otherwise: false_target }, Some(then_id));
        proof {
            lemma_evolves_then_base(s0, s1, *self);
            assert(ends_in_switch(self.blocks@[cond_block->Some_0.0 as int], then_id, false_target));
        }
        let ghost s2 = *self;

        self.lower_body(return_local, &if_expr.block.statements)?;
        let then_reaches_join = !self.is_terminated();
        if then_reaches_join {
            let ghost s3 = *self;
            self.seal(Terminator::Goto(join_id), None);
            proof {
                lemma_evolves_then_base(s0, s3, *self);
            }
        }
        let ghost s4 = *self;
        proof {
            assert(self.blocks@[join_id.0 as int] is None);
            assert(else_id matches Some(e) ==> self.blocks@[e.0 as int] is None);
        }

        let else_reaches_join = match &if_expr.branch {
            None => true,
            Some(branch) => {
                self.move_cursor(else_id);
                proof {
                    lemma_evolves_then_base(s0, s4, *self);
                }
                match &**branch {
                    IfBranch::Else(block) => {
                        self.lower_body(return_local, &block.statements)?;
                    },
                    IfBranch::ElseIf(nested) => {
                        self.lower_if(return_local, nested, span)?;
                    },
                }
                let reaches = !self.is_terminated();
                if reaches {
                    let ghost s6 = *self;
                    self.seal(Terminator::Goto(join_id), None);
                    proof {
                        lemma_evolves_then_base(s0, s6, *self);
                    }
                }
                proof {
                    assert(self.blocks@[join_id.0 as int] is None);
                }
                reaches
            },
        };
        let ghost s7 = *self;
        let next = if then_reaches_join || else_reaches_join {
            Some(join_id)
        } else {
            None
        };
        self.move_cursor(next);
        proof {
            lemma_evolves_then_base(s0, s7, *self);
            assert(self.blocks@[cond_block->Some_0.0 as int] == s2.blocks@[cond_block->Some_0.0 as int]);
            assert(branches_at(self.blocks@, cond_block->Some_0.0 as int, then_id.0 as int, if_expr.branch is Some));
        }
        Ok(())
    }

    /// `match scrutinee { .. }` in statement position: the scrutinee becomes
    /// an operand, each arm gets a block (in arm order) and then the join
    /// block is allocated; the current block switches on the scrutinee to
    /// the integer and character literal arms and falls back to the last `_`
    /// or binding arm (or, without one, to a fresh `Unreachable` block that
    /// also takes the value `0`). A `bool` or float literal arm is never
    /// taken and its body is not lowered. A binding arm assigns the scrutinee
    /// to a new local for the binding before its body; an arm that falls
    /// through jumps to the join block, which is the cursor afterwards.
    #[verifier::rlimit(50)]
    pub fn lower_match(
        &mut self,
        return_local: Option<LocalId>,
        scrutinee: &Expression,
        arms: &Vec<MatchArm>,
        span: Span,
    ) -> (res: MirResult<()>)
        requires
            old(self).inv(),
            old(self).blocks@.len() > 0,
            old(self).current is Some,
            return_local_ok(return_local, *old(self)),
        ensures
            severity_ok(res),
            body_fault(res),
            evolves(*old(self), *final(self)),
            sp_match(old(self).ctx(), old(self).st(), return_local, *scrutinee, arms@, span) == Some((final(self).st(), res_view(res))),
            !patterns_supported(arms@) ==> res == Err::<(), Fault>(
                Fault::error(MirErrorKind::UnsupportedMatchPattern, Some(span)),
            ) && *final(self) == *old(self),
        decreases arms, 1int,
    {
        proof {
            lemma_evolves_refl(*self);
        }
        let mut k: usize = 0;
        while k < arms.len()
            invariant
                *self == *old(self),
                evolves(*old(self), *self),
                k <= arms@.len(),
                forall|j: int| 0 <= j < k ==> pattern_supported(#[trigger] arms@[j].pattern),
            decreases arms.len() - k,
        {
            let supported = match &arms[k].pattern {
                MatchPattern::Literal(Literal::Str(_)) => false,
                MatchPattern::Other => false,
                _ => true,
            };
            if !supported {
                proof {
                    reveal(sp_match);
                }
                return Err(Fault::error_with_kind(MirErrorKind::UnsupportedMatchPattern, Some(span)));
            }
            k = k + 1;
        }
        let ghost c0 = self.ctx();
        let discriminant = match self.lower_operand(scrutinee) {
            Ok(d) => d,
            Err(f) => {
                proof {
                    reveal(sp_match);
                }
                return Err(f);
            },
        };
        let ghost s1 = *self;
        let first = self.blocks.len();
        let mut targets: Vec<(Literal, BlockId)> = Vec::new();
        let mut catch_all: Option<BlockId> = None;
        let mut i: usize = 0;
        assert(s1.st().blocks + Seq::new(0, |j: int| None::<BasicBlockV>) =~= s1.st().blocks);
        while i < arms.len()
            invariant
                patterns_supported(arms@),
                evolves(*old(self), s1),
                evolves(s1, *self),
                s1.inv(),
                s1.current is Some,
                self.current == s1.current,
                first == s1.blocks@.len(),
                i <= arms@.len(),
                self.blocks@.len() == first + i,
                forall|j: int| first <= j < self.blocks@.len() ==> (#[trigger] self.blocks@[j]) is None,
                self.st() == st_new_blocks(s1.st(), i as nat),
                targets@ == match_targets(arms@, first as int, i as int),
                catch_all == match_catch_all(arms@, first as int, i as int),
                forall|k: int| 0 <= k < targets@.len() ==> (#[trigger] targets@[k]).1.0 < self.blocks@.len(),
                catch_all matches Some(b) ==> b.0 < self.blocks@.len(),
            decreases arms.len() - i,
        {
            let id = self.new_block();
            proof {
                assert(self.st().blocks =~= s1.st().blocks + Seq::new((i + 1) as nat, |j: int| None::<BasicBlockV>));
            }
            match &arms[i].pattern {
                MatchPattern::Literal(lit) => match lit {
                    Literal::Int(_) | Literal::Uint(_) | Literal::Char(_) => {
                        targets.push((lit.clone(), id));
                    },
                    _ => {},
                },
                MatchPattern::Wildcard | MatchPattern::Binding(_) => {
                    catch_all = Some(id);
                },
                MatchPattern::Other => {},
            }
            i = i + 1;
        }
        let join = self.new_block();
        proof {
            crate::mir::lemma_operand_wf_mono(discriminant, s1.locals@.len(), self.locals@.len());
        }
        match catch_all {
            Some(other) => {
                proof {
                    assert(terminator_wf(
                        Terminator::SwitchInt { discriminant, targets, otherwise: other },
                        self.locals@.len(),
                        self.blocks@.len(),
                    ));
                }
                let ghost s2 = *self;
                self.seal(Terminator::SwitchInt { discriminant: discriminant.duplicate(), targets, otherwise: other }, None);
                proof {
                    lemma_evolves_then_base(s1, s2, *self);
                }
            },
            None => {
                let unreachable = self.new_block();
                targets.push((Literal::Int(0), unreachable));
                proof {
                    assert(terminator_wf(
                        Terminator::SwitchInt { discriminant, targets, otherwise: unreachable },
                        self.locals@.len(),
                        self.blocks@.len(),
                    ));
                }
                let ghost s2 = *self;
                self.seal(
                    Terminator::SwitchInt { discriminant: discriminant.duplicate(), targets, otherwise: unreachable },
                    None,
                );
                proof {
                    lemma_evolves_then_base(s1, s2, *self);
                }
                let ghost s3 = *self;
                self.move_cursor(Some(unreachable));
                proof {
                    lemma_evolves_then_base(s1, s3, *self);
                }
                let ghost s4 = *self;
                self.seal(Terminator::Unreachable, None);
                proof {
                    lemma_evolves_then_base(s1, s4, *self);
                }
            },
        }
        let ghost total = sp_match_arms(c0, self.st(), return_local, discriminant@, arms@, 0, first as int, join);
        proof {
            reveal(sp_match);
            assert(sp_match(c0, old(self).st(), return_local, *scrutinee, arms@, span) == finish_match(total, join));
        }
        let mut a: usize = 0;
        while a < arms.len()
            invariant
                patterns_supported(arms@),
                evolves(*old(self), s1),
                evolves(s1, *self),
                self.ctx() == c0,
                c0 == old(self).ctx(),
                self.current is None,
                first == s1.blocks@.len(),
                join.0 == first + arms@.len(),
                join.0 < self.blocks@.len(),
                self.blocks@[join.0 as int] is None,
                a <= arms@.len(),
                forall|j: int| a <= j < arms@.len() ==> (#[trigger] self.blocks@[first + j]) is None,
                return_local_ok(return_local, *self),
                operand_wf(discriminant, self.locals@.len()),
                sp_match(c0, old(self).st(), return_local, *scrutinee, arms@, span) == finish_match(total, join),
                sp_match_arms(c0, self.st(), return_local, discriminant@, arms@, a as int, first as int, join)
                    == total,
            decreases arms.len() - a,
        {
            let arm = &arms[a];
            let dropped = match &arm.pattern {
                MatchPattern::Literal(Literal::Bool(_)) | MatchPattern::Literal(Literal::Float(_)) => true,
                _ => false,
            };
            if !dropped {
                let ghost head = *self;
                self.move_cursor(Some(BlockId(first + a)));
                proof {
                    lemma_evolves_then_base(s1, head, *self);
                    assert(decreases_to!(*arms => arms@));
                    assert(decreases_to!(arms@ => arms@[a as int]));
                }
                let ghost moved = *self;
                self.lower_match_arm(return_local, &discriminant, arm, join)?;
                proof {
                    assert forall|j: int| a < j < arms@.len() implies (#[trigger] self.blocks@[first + j]) is None by {
                        assert(head.blocks@[first + j] is None);
                        assert(moved.blocks@[first + j] is None);
                    }
                    assert(moved.blocks@[join.0 as int] is None);
                }
            }
            a = a + 1;
        }
        let ghost s7 = *self;
        self.move_cursor(Some(join));
        proof {
            lemma_evolves_then_base(s1, s7, *self);
        }
        Ok(())
    }

    /// Lowers one `match` arm into the block under the cursor: a binding
    /// arm first assigns the scrutinee to a new local for the binding, and a
    /// body that falls through jumps to `join`.
    #[verifier::rlimit(40)]
    pub fn lower_match_arm(&mut self, return_local: Option<LocalId>, discriminant: &Operand, arm: &MatchArm, join: BlockId) -> (res: MirResult<()>)
        requires
            old(self).inv(),
            old(self).blocks@.len() > 0,
            old(self).current is Some,
            join.0 < old(self).blocks@.len(),
            old(self).blocks@[join.0 as int] is None,
            old(self).current != Some(join),
            operand_wf(*discriminant, old(self).locals@.len()),
            return_local_ok(return_local, *old(self)),
        ensures
            severity_ok(res),
            body_fault(res),
            evolves(*old(self), *final(self)),
            res is Ok ==> final(self).current is None,
            operand_wf(*discriminant, final(self).locals@.len()),
            return_local_ok(return_local, *final(self)),
            sp_match_arm(old(self).ctx(), old(self).st(), return_local, discriminant@, *arm, join) == Some((final(self).st(), res_view(res))),
        decreases arm, 1int,
    {
        proof {
            lemma_evolves_refl(*self);
        }
        let ghost s0 = *self;
        match &arm.pattern {
            MatchPattern::Binding(binding) => {
                let ty = match self.declares.get_variable_type(binding.id) {
                    Some(t) => t.clone(),
                    None => {
                        return Err(Fault::error_with_kind(MirErrorKind::VariableHasNoResolvedType, Some(binding.span)));
                    },
                };
                self.require_lowerable(&ty, binding.span)?;
                let local = self.alloc_local(ty, TypeModifier::Immut, binding.span);
                self.bind(binding.id, local);
                proof {
                    crate::mir::lemma_operand_wf_mono(*discriminant, s0.locals@.len(), self.locals@.len());
                }
                let place = Place::local(local);
                assert(place@ =~= local_place(local));
                self.push_statement(Statement::Assign(place, Rvalue::Use(discriminant.duplicate())));
            },
            _ => {},
        }
        let ghost before_body = *self;
        self.lower_body(return_local, &arm.block.statements)?;
        proof {
            crate::mir::lemma_operand_wf_mono(*discriminant, before_body.locals@.len(), self.locals@.len());
        }
        if !self.is_terminated() {
            let ghost s6 = *self;
            proof {
                assert(self.blocks@[join.0 as int] is None);
            }
            self.seal(Terminator::Goto(join), None);
            proof {
                lemma_evolves_then_base(s0, s6, *self);
            }
        }
        Ok(())
    }

    pub fn push_loop(&mut self, targets: LoopTargets)
        requires
            old(self).inv(),
            targets.header.0 < old(self).blocks@.len(),
            targets.exit.0 < old(self).blocks@.len(),
        ensures
            final(self).inv(),
            final(self).loops@ == old(self).loops@.push(targets),
            *final(self) == (FunctionLowerer { loops: final(self).loops, ..*old(self) }),
            final(self).st() == (LowerState { loops: old(self).st().loops.push(targets), ..old(self).st() }),
    {
        self.loops.push(targets);
    }

    pub fn pop_loop(&mut self)
        requires
            old(self).inv(),
            old(self).loops@.len() > 0,
        ensures
            final(self).inv(),
            final(self).loops@ == old(self).loops@.drop_last(),
            *final(self) == (FunctionLowerer { loops: final(self).loops, ..*old(self) }),
            final(self).st() == (LowerState { loops: old(self).st().loops.drop_last(), ..old(self).st() }),
    {
        self.loops.pop();
    }

    /// `for cond { .. }`, a while-loop: a header block tests the condition
    /// and either enters the body or leaves to the exit block; the body
    /// jumps back to the header, and `break`/`continue` inside it target the
    /// exit and the header. The exit block is always the cursor afterwards.
    #[verifier::rlimit(60)]
    pub fn lower_for(&mut self, return_local: Option<LocalId>, for_expr: &For, span: Span) -> (res: MirResult<()>)
        requires
            old(self).inv(),
            old(self).blocks@.len() > 0,
            old(self).current is Some,
            return_local_ok(return_local, *old(self)),
        ensures
            severity_ok(res),
            body_fault(res),
            evolves(*old(self), *final(self)),
            for_expr.condition is Other ==> res == Err::<(), Fault>(
                Fault::error(MirErrorKind::UnsupportedLoopCondition, Some(span)),
            ),
            res is Ok ==> final(self).current == Some(BlockId((old(self).blocks@.len() + 2) as usize)),
            res is Ok ==> (old(self).current matches Some(c) ==> (final(self).blocks@[c.0 as int] matches Some(b)
                && b.statements@ == old(self).statements@ && b.terminator == Terminator::Goto(
                BlockId(old(self).blocks@.len() as usize),
            ))),
            res is Ok ==> exists|c: int|
                old(self).blocks@.len() <= c < final(self).blocks@.len() && ends_in_switch(
                    #[trigger] final(self).blocks@[c],
                    BlockId((old(self).blocks@.len() + 1) as usize),
                    BlockId((old(self).blocks@.len() + 2) as usize),
                ),
            sp_for(old(self).ctx(), old(self).st(), return_local, *for_expr, span) == Some((final(self).st(), res_view(res))),
        decreases for_expr, 0int,
    {
        proof {
            lemma_evolves_refl(*self);
        }
        let condition = match &for_expr.condition {
            ForCondition::While(c) => c,
            ForCondition::Other => {
                return Err(Fault::error_with_kind(MirErrorKind::UnsupportedLoopCondition, Some(span)));
            },
        };
        let ghost s0 = *self;
        let header_id = self.new_block();
        let body_id = self.new_block();
        let exit_id = self.new_block();
        let ghost s1 = *self;
        self.seal(Terminator::Goto(header_id), Some(header_id));
        proof {
            lemma_evolves_then_base(s0, s1, *self);
        }

        let discriminant = self.lower_bool_condition(&**condition)?;
        let ghost s2 = *self;
        let ghost test_block = self.current;
        let mut targets: Vec<(Literal, BlockId)> = Vec::new();
        targets.push((Literal::Bool(true), body_id));
        assert(targets@ =~= seq![(Literal::Bool(true), body_id)]);
        proof {
            assert(terminator_wf(
                Terminator::SwitchInt { discriminant, targets, otherwise: exit_id },
                self.locals@.len(),
                self.blocks@.len(),
            ));
        }
        self.seal(Terminator::SwitchInt { discriminant, targets, otherwise: exit_id }, Some(body_id));
        proof {
            lemma_evolves_then_base(s0, s2, *self);
            assert(ends_in_switch(self.blocks@[test_block->Some_0.0 as int], body_id, exit_id));
        }
        let ghost s3 = *self;

        self.push_loop(LoopTargets { header: header_id, exit: exit_id });
        let body_result = self.lower_body(return_local, &for_expr.block.statements);
        self.pop_loop();
        proof {
            assert(self.loops@ =~= s3.loops@);
            assert(evolves(s3, *self));
        }
        body_result?;

        if !self.is_terminated() {
            let ghost s6 = *self;
            self.seal(Terminator::Goto(header_id), None);
            proof {
                lemma_evolves_then_base(s0, s6, *self);
            }
        }
        let ghost s7 = *self;
        proof {
            assert(self.blocks@[exit_id.0 as int] is None);
        }
        self.move_cursor(Some(exit_id));
        proof {
            lemma_evolves_then_base(s0, s7, *self);
            assert(self.blocks@[test_block->Some_0.0 as int] == s3.blocks@[test_block->Some_0.0 as int]);
        }
        Ok(())
    }

    /// `break`: jumps to the innermost loop's exit block.
    pub fn lower_break(&mut self, span: Span) -> (res: MirResult<()>)
        requires
            old(self).inv(),
        ensures
            severity_ok(res),
            body_fault(res),
            evolves(*old(self), *final(self)),
            old(self).loops@.len() == 0 ==> res == Err::<(), Fault>(Fault::error(MirErrorKind::BreakOutsideLoop, Some(span)))
                && *final(self) == *old(self),
            old(self).loops@.len() > 0 ==> res == Ok::<(), Fault>(()) && final(self).current is None && (old(self).current matches Some(c)
                ==> final(self).blocks@[c.0 as int] == Some(BasicBlock {
                statements: old(self).statements,
                terminator: Terminator::Goto(old(self).loops@.last().exit),
            })),
            old(self).loops@.len() > 0 ==> final(self).st() == st_seal(
                old(self).st(),
                TerminatorV::Goto(old(self).loops@.last().exit),
                None,
            ),
    {
        proof {
            lemma_evolves_refl(*self);
        }
        if self.loops.len() == 0 {
            return Err(Fault::error_with_kind(MirErrorKind::BreakOutsideLoop, Some(span)));
        }
        let target = self.loops[self.loops.len() - 1].exit;
        let ghost s0 = *self;
        self.seal(Terminator::Goto(target), None);
        proof {
            lemma_evolves_then_base(s0, s0, *self);
        }
        Ok(())
    }

    /// `continue`: jumps to the innermost loop's header block.
    pub fn lower_continue(&mut self, span: Span) -> (res: MirResult<()>)
        requires
            old(self).inv(),
        ensures
            severity_ok(res),
            body_fault(res),
            evolves(*old(self), *final(self)),
            old(self).loops@.len() == 0 ==> res == Err::<(), Fault>(Fault::error(MirErrorKind::ContinueOutsideLoop, Some(span)))
                && *final(self) == *old(self),
            old(self).loops@.len() > 0 ==> res == Ok::<(), Fault>(()) && final(self).current is None && (old(self).current matches Some(c)
                ==> final(self).blocks@[c.0 as int] == Some(BasicBlock {
                statements: old(self).statements,
                terminator: Terminator::Goto(old(self).loops@.last().header),
            })),
            old(self).loops@.len() > 0 ==> final(self).st() == st_seal(
                old(self).st(),
                TerminatorV::Goto(old(self).loops@.last().header),
                None,
            ),
    {
        proof {
            lemma_evolves_refl(*self);
        }
        if self.loops.len() == 0 {
            return Err(Fault::error_with_kind(MirErrorKind::ContinueOutsideLoop, Some(span)));
        }
        let target = self.loops[self.loops.len() - 1].header;
        let ghost s0 = *self;
        self.seal(Terminator::Goto(target), None);
        proof {
            lemma_evolves_then_base(s0, s0, *self);
        }
        Ok(())
    }
}

/// The module a function is declared in, per the declarations.
pub open spec fn spec_module(declares: DeclareStore, id: FunctionId) -> Option<usize> {
    match declares.functions.spec_get(id.0 as int) {
        Some(d) => Some(d.module),
        None => None,
    }
}

/// The first parameter, from index `i`, whose type this slice cannot lower.
pub open spec fn first_unlowerable(
    declares: DeclareStore,
    module: Option<usize>,
    params: Seq<crate::ast::Parameter>,
    i: int,
) -> Option<int>
    decreases params.len() - i,
{
    if i < 0 || i >= params.len() {
        None
    } else if !lowerable(declares, module, params[i].ty) {
        Some(i)
    } else {
        first_unlowerable(declares, module, params, i + 1)
    }
}

/// What `first_unlowerable` finds lies in `i..params.len()`, and every
/// parameter before it can be lowered.
pub proof fn lemma_first_unlowerable_range(
    declares: DeclareStore,
    module: Option<usize>,
    params: Seq<crate::ast::Parameter>,
    i: int,
)
    requires
        0 <= i,
    ensures
        first_unlowerable(declares, module, params, i) matches Some(k) ==> (i <= k < params.len()
            && !lowerable(declares, module, params[k].ty)),
        first_unlowerable(declares, module, params, i) is None ==> forall|j: int|
            i <= j < params.len() ==> lowerable(declares, module, #[trigger] params[j].ty),
    decreases params.len() - i,
{
    if i < params.len() {
        lemma_first_unlowerable_range(declares, module, params, i + 1);
    }
}

/// The local a parameter is given.
pub open spec fn parameter_decl(p: crate::ast::Parameter) -> LocalDecl {
    LocalDecl { ty: p.ty, mutability: p.modifier, span: p.name_span }
}

impl<'a> FunctionLowerer<'a> {
    /// Forgets everything about the previously lowered function.
    pub fn reset(&mut self)
        ensures
            final(self).inv(),
            final(self).declares == old(self).declares,
            final(self).options == old(self).options,
            final(self).module is None,
            final(self).locals@.len() == 0,
            final(self).blocks@.len() == 0,
            final(self).statements@.len() == 0,
            final(self).node_to_local@.len() == 0,
            final(self).loops@.len() == 0,
            final(self).current is None,
    {
        self.loops = Vec::new();
        self.current = None;
        self.module = None;
        self.blocks = Vec::new();
        self.locals = Vec::new();
        self.statements = Vec::new();
        self.node_to_local = Vec::new();
    }

    /// Lowers one function: its parameters become `locals[0..arg_count]`, a
    /// non-`none` return type gets the next local to hold the result, and
    /// the body is lowered from the entry block `bb0`. Falling off the end
    /// is an implicit `return` in a `none`-returning function and a
    /// `MissingReturnStatement` fault in any other. What comes out depends
    /// on the declarations, the options and `function` alone: a lowerer that
    /// has lowered other functions before gives what a fresh one gives.
    pub fn lower(&mut self, function: &AstFunction) -> (res: MirResult<Function>)
        ensures
            severity_ok(res),
            res matches Err(f) ==> (f.kind is MissingReturnStatement ==> !(function.signature.return_type is NoneType)
                && f == Fault::error(MirErrorKind::MissingReturnStatement, Some(function.signature.span))),
            final(self).inv(),
            final(self).declares == old(self).declares,
            final(self).options == old(self).options,
            ({
                let sig = function.signature;
                let params = sig.parameters@;
                let module = spec_module(*old(self).declares, sig.id);
                &&& first_unlowerable(*old(self).declares, module, params, 0) matches Some(k) ==> res
                    == Err::<Function, Fault>(Fault::error(MirErrorKind::NonPrimitiveType { ty: params[k].ty }, Some(params[k].name_span)))
                &&& first_unlowerable(*old(self).declares, module, params, 0) is None && !(sig.return_type is NoneType)
                    && !lowerable(*old(self).declares, module, sig.return_type) ==> res == Err::<Function, Fault>(
                    Fault::error(MirErrorKind::NonPrimitiveType { ty: sig.return_type }, Some(sig.name_span)),
                )
                &&& res matches Ok(f) ==> {
                    &&& f.wf()
                    &&& f.id == sig.id
                    &&& f.arg_count == params.len()
                    &&& forall|i: int| 0 <= i < params.len() ==> f.locals@[i] == parameter_decl(#[trigger] params[i])
                    &&& f.return_local == (if sig.return_type is NoneType { None::<LocalId> } else { Some(LocalId(params.len() as usize)) })
                    &&& !(sig.return_type is NoneType) ==> f.locals@[params.len() as int] == LocalDecl {
                        ty: sig.return_type,
                        mutability: TypeModifier::Mut,
                        span: sig.name_span,
                    }
                }
            }),
            sp_lower(*old(self).declares, old(self).options, *function) == Some(function_result_view(res)),
    {
        self.reset();
        let sig = &function.signature;
        proof {
            let start = param_state(sig.parameters@, 0);
            assert(self.st().locals =~= start.locals);
            assert(self.st().bindings =~= start.bindings);
            assert(self.st().blocks =~= start.blocks);
            assert(self.st().statements =~= start.statements);
            assert(self.st().loops =~= start.loops);
        }
        proof {
            lemma_first_unlowerable_range(*self.declares, spec_module(*self.declares, sig.id), sig.parameters@, 0);
        }
        self.module = match self.declares.get_function(sig.id) {
            Some(d) => Some(d.module),
            None => None,
        };
        let ghost module = self.module;
        assert(module == spec_module(*self.declares, sig.id));

        let mut i: usize = 0;
        while i < sig.parameters.len()
            invariant
                self.inv(),
                self.declares == old(self).declares,
                self.options == old(self).options,
                self.module == module,
                module == spec_module(*old(self).declares, function.signature.id),
                sig == &function.signature,
                i <= sig.parameters@.len(),
                self.locals@.len() == i,
                self.blocks@.len() == 0,
                self.statements@.len() == 0,
                self.current is None,
                self.loops@.len() == 0,
                forall|j: int| 0 <= j < i ==> self.locals@[j] == parameter_decl(#[trigger] sig.parameters@[j]),
                self.st() == param_state(sig.parameters@, i as int),
                first_unlowerable(*self.declares, module, sig.parameters@, 0) == first_unlowerable(
                    *self.declares,
                    module,
                    sig.parameters@,
                    i as int,
                ),
            decreases sig.parameters.len() - i,
        {
            let parameter = &sig.parameters[i];
            match self.require_lowerable(&parameter.ty, parameter.name_span) {
                Ok(()) => {},
                Err(fault) => {
                    proof {
                        assert(first_unlowerable(*self.declares, module, sig.parameters@, i as int) == Some(i as int));
                    }
                    return Err(fault);
                },
            }
            let ghost before = self.st();
            let local = self.alloc_local(parameter.ty.clone(), parameter.modifier, parameter.name_span);
            self.bind(parameter.id, local);
            proof {
                let next = param_state(sig.parameters@, i + 1);
                assert(self.st().locals =~= next.locals);
                assert(self.st().bindings =~= next.bindings);
            }
            i = i + 1;
        }

        let arg_count = sig.parameters.len();
        let is_none_return = match &sig.return_type {
            SoulType::NoneType => true,
            _ => false,
        };
        let return_local = if is_none_return {
            None
        } else {
            self.require_lowerable(&sig.return_type, sig.name_span)?;
            Some(self.alloc_local(sig.return_type.clone(), TypeModifier::Mut, sig.name_span))
        };
        let ghost header = self.locals@;

        self.open_entry_block();
        self.lower_body(return_local, &function.body.statements)?;

        if self.current.is_some() {
            if is_none_return {
                self.seal(Terminator::Return, None);
            } else {
                return Err(Fault::error_with_kind(MirErrorKind::MissingReturnStatement, Some(sig.span)));
            }
        }
        proof {
            assert(forall|j: int| 0 <= j < header.len() ==> self.locals@[j] == header[j]);
        }
        let ghost fin = self.st();
        let mut locals: Vec<LocalDecl> = Vec::new();
        let mut blocks: Vec<Option<BasicBlock>> = Vec::new();
        std::mem::swap(&mut locals, &mut self.locals);
        std::mem::swap(&mut blocks, &mut self.blocks);
        self.reset();
        Ok(Function { id: sig.id, locals, blocks, arg_count, return_local })
    }
}

/// An `extern "C"` signature as an `ExternFunction`: its parameter types in
/// order, and its return type unless that is `none`.
pub fn lower_extern_signature(signature: &Signature) -> (res: ExternFunction)
    ensures
        res.id == signature.id,
        res.params@.len() == signature.parameters@.len(),
        forall|i: int| 0 <= i < signature.parameters@.len() ==> res.params@[i] == (#[trigger] signature.parameters@[i]).ty,
        res.return_type == (if signature.return_type is NoneType { None::<SoulType> } else { Some(signature.return_type) }),
{
    let mut params: Vec<SoulType> = Vec::new();
    let mut i: usize = 0;
    while i < signature.parameters.len()
        invariant
            i <= signature.parameters@.len(),
            params@.len() == i,
            forall|j: int| 0 <= j < i ==> params@[j] == (#[trigger] signature.parameters@[j]).ty,
        decreases signature.parameters.len() - i,
    {
        params.push(signature.parameters[i].ty.clone());
        i = i + 1;
    }
    let return_type = match &signature.return_type {
        SoulType::NoneType => None,
        other => Some(other.clone()),
    };
    ExternFunction { id: signature.id, params, return_type }
}

/// Lowers the functions of a program one at a time, keeping the bodied
/// ones and the `extern "C"` declarations apart.
pub struct MirLowerer<'a> {
    pub store: &'a AstStore,
    pub function_lowerer: FunctionLowerer<'a>,
    pub functions: VecMap<Function>,
    pub externs: VecMap<ExternFunction>,
}

impl<'a> MirLowerer<'a> {
    pub fn new(store: &'a AstStore, declares: &'a DeclareStore, options: LoweringOptions) -> (res: MirLowerer<'a>)
        ensures
            res.store == store,
            res.function_lowerer.declares == declares,
            res.function_lowerer.options == options,
            res.functions.slots@.len() == 0,
            res.externs.slots@.len() == 0,
    {
        MirLowerer {
            store,
            functions: VecMap::new(),
            externs: VecMap::new(),
            function_lowerer: FunctionLowerer::new(declares, options),
        }
    }

    pub fn into_functions_and_externs(self) -> (res: (VecMap<Function>, VecMap<ExternFunction>))
        ensures
            res.0 == self.functions,
            res.1 == self.externs,
    {
        (self.functions, self.externs)
    }

    /// Lowers the function `id`: a bodied function into `functions`, an
    /// `extern "C"` declaration into `externs`. Any other bodiless
    /// declaration has nothing to lower and is a fault.
    pub fn lower_function(&mut self, id: FunctionId) -> (res: MirResult<()>)
        requires
            old(self).store.functions.spec_get(id.0 as int) is Some,
        ensures
            severity_ok(res),
            final(self).store == old(self).store,
            final(self).function_lowerer.declares == old(self).function_lowerer.declares,
            final(self).function_lowerer.options == old(self).function_lowerer.options,
            match old(self).store.functions.spec_get(id.0 as int) {
                Some(FunctionKind::Signature(sig)) => if sig.external_c {
                    &&& res is Ok
                    &&& final(self).functions == old(self).functions
                    &&& final(self).externs.spec_get(sig.id.0 as int) matches Some(ext)
                    &&& ext.id == sig.id
                    &&& ext.params@.len() == sig.parameters@.len()
                    &&& forall|i: int| 0 <= i < sig.parameters@.len() ==> ext.params@[i] == (#[trigger] sig.parameters@[i]).ty
                    &&& ext.return_type == (if sig.return_type is NoneType { None::<SoulType> } else { Some(sig.return_type) })
                    &&& forall|k: int| k != sig.id.0 ==> #[trigger] final(self).externs.spec_get(k) == old(self).externs.spec_get(k)
                } else {
                    &&& res == Err::<(), Fault>(Fault::error(MirErrorKind::SignatureOnlyFunctionHasNoBody, Some(sig.span)))
                    &&& final(self).functions == old(self).functions
                    &&& final(self).externs == old(self).externs
                },
                Some(FunctionKind::Normal(f)) => {
                    &&& match sp_lower(*old(self).function_lowerer.declares, old(self).function_lowerer.options, f) {
                        Some(Ok(fv)) => res == Ok::<(), Fault>(()) && (final(self).functions.spec_get(f.signature.id.0 as int) matches Some(mf)
                            && function_view(mf) == fv),
                        Some(Err(e)) => res_view(res) == Err::<(), FaultV>(e),
                        None => false,
                    }
                    &&& final(self).externs == old(self).externs
                    &&& res is Err ==> final(self).functions == old(self).functions
                    &&& res is Ok ==> (final(self).functions.spec_get(f.signature.id.0 as int) matches Some(mf)
                        && mf.wf() && mf.id == f.signature.id && mf.arg_count == f.signature.parameters@.len())
                    &&& forall|k: int| k != f.signature.id.0 ==> #[trigger] final(self).functions.spec_get(k)
                        == old(self).functions.spec_get(k)
                },
                None => false,
            },
    {
        let store: &'a AstStore = self.store;
        let kind = match store.functions.get(id.0) {
            Some(k) => k,
            None => {
                proof {
                    assert(false);
                }
                return Err(Fault::error_with_kind(MirErrorKind::SignatureOnlyFunctionHasNoBody, None));
            },
        };
        match kind {
            FunctionKind::Normal(function) => {
                let mir_function = self.function_lowerer.lower(function)?;
                self.functions.insert(function.signature.id.0, mir_function);
                Ok(())
            },
            FunctionKind::Signature(signature) => {
                if !signature.external_c {
                    return Err(Fault::error_with_kind(MirErrorKind::SignatureOnlyFunctionHasNoBody, Some(signature.span)));
                }
                let extern_fn = lower_extern_signature(signature);
                self.externs.insert(signature.id.0, extern_fn);
                Ok(())
            },
        }
    }
}

/// How many of the slots hold a function with a body.
pub open spec fn normal_count(slots: Seq<Option<FunctionKind>>) -> nat
    decreases slots.len(),
{
    if slots.len() == 0 {
        0
    } else {
        normal_count(slots.drop_last()) + if slots.last() matches Some(FunctionKind::Normal(_)) {
            1nat
        } else {
            0nat
        }
    }
}

/// Lowers every function with a body in `store`, under its own id. A
/// function that this slice cannot lower is left out and its fault is
/// collected instead; an `extern "C"` declaration becomes an extern under
/// its id, and any other declaration without a body is skipped.
pub fn to_mir(store: &AstStore, declares: &DeclareStore, options: LoweringOptions) -> (res: (MirProgram, Vec<Fault>))
    ensures
        forall|k: int|
            0 <= k < res.1@.len() ==> (#[trigger] res.1@[k].severity is Warning <==> res.1@[k].kind is UnreachableStatement),
        forall|id: int|
            #[trigger] res.0.externs.spec_get(id) is Some <==> (store.functions.spec_get(id) matches Some(
                FunctionKind::Signature(sig),
            ) && sig.external_c),
        forall|id: int|
            #[trigger] res.0.externs.spec_get(id) matches Some(ext) ==> (store.functions.spec_get(id) matches Some(
                FunctionKind::Signature(sig),
            ) && ext.id == sig.id && ext.params@.len() == sig.parameters@.len() && (forall|k: int|
                0 <= k < sig.parameters@.len() ==> ext.params@[k] == (#[trigger] sig.parameters@[k]).ty)
                && ext.return_type == (if sig.return_type is NoneType {
                None::<SoulType>
            } else {
                Some(sig.return_type)
            })),
        VecMap::<Function>::spec_count_from(res.0.functions.slots@) + res.1@.len() == normal_count(
            store.functions.slots@,
        ),
        forall|id: int|
            #[trigger] res.0.functions.spec_get(id) matches Some(mf) ==> (store.functions.spec_get(id) matches Some(
                FunctionKind::Normal(f),
            ) && mf.wf() && mf.id == f.signature.id && mf.arg_count == f.signature.parameters@.len()),
        forall|id: int|
            #[trigger] store.functions.spec_get(id) matches Some(FunctionKind::Normal(f)) ==> (first_unlowerable(
                *declares,
                spec_module(*declares, f.signature.id),
                f.signature.parameters@,
                0,
            ) is Some ==> res.0.functions.spec_get(id) is None),
        forall|id: int|
            #[trigger] store.functions.spec_get(id) matches Some(FunctionKind::Normal(f)) ==> (sp_lower(
                *declares,
                options,
                f,
            ) matches Some(r) && match r {
                Ok(fv) => res.0.functions.spec_get(id) matches Some(mf) && function_view(mf) == fv,
                Err(_) => res.0.functions.spec_get(id) is None,
            }),
        sp_program_faults(*declares, options, store.functions.slots@) == Some(res.1@.map_values(|f: Fault| f@)),
{
    let mut lowerer = FunctionLowerer::new(declares, options);
    let mut slots: Vec<Option<Function>> = Vec::new();
    let mut extern_slots: Vec<Option<ExternFunction>> = Vec::new();
    let mut faults: Vec<Fault> = Vec::new();
    let mut i: usize = 0;
    while i < store.functions.slots.len()
        invariant
            i <= store.functions.slots@.len(),
            slots@.len() == i,
            extern_slots@.len() == i,
            forall|k: int|
                0 <= k < faults@.len() ==> (#[trigger] faults@[k].severity is Warning <==> faults@[k].kind is UnreachableStatement),
            lowerer.declares == declares,
            forall|j: int|
                0 <= j < i ==> ((#[trigger] extern_slots@[j]) is Some <==> (store.functions.slots@[j] matches Some(
                    FunctionKind::Signature(sig),
                ) && sig.external_c)),
            forall|j: int|
                0 <= j < i ==> (#[trigger] extern_slots@[j] matches Some(ext) ==> (store.functions.slots@[j] matches Some(
                    FunctionKind::Signature(sig),
                ) && ext.id == sig.id && ext.params@.len() == sig.parameters@.len() && (forall|k: int|
                    0 <= k < sig.parameters@.len() ==> ext.params@[k] == (#[trigger] sig.parameters@[k]).ty)
                    && ext.return_type == (if sig.return_type is NoneType {
                    None::<SoulType>
                } else {
                    Some(sig.return_type)
                }))),
            VecMap::<Function>::spec_count_from(slots@) + faults@.len() == normal_count(
                store.functions.slots@.take(i as int),
            ),
            forall|j: int|
                0 <= j < i ==> (#[trigger] slots@[j] matches Some(mf) ==> (store.functions.slots@[j] matches Some(
                    FunctionKind::Normal(f),
                ) && mf.wf() && mf.id == f.signature.id && mf.arg_count == f.signature.parameters@.len())),
            forall|j: int|
                0 <= j < i ==> (#[trigger] store.functions.slots@[j] matches Some(FunctionKind::Normal(f)) ==> (
                first_unlowerable(
                    *declares,
                    spec_module(*declares, f.signature.id),
                    f.signature.parameters@,
                    0,
                ) is Some ==> slots@[j] is None)),
            lowerer.options == options,
            forall|j: int|
                0 <= j < i ==> (#[trigger] store.functions.slots@[j] matches Some(FunctionKind::Normal(f)) ==> (sp_lower(
                    *declares,
                    options,
                    f,
                ) matches Some(r) && match r {
                    Ok(fv) => slots@[j] matches Some(mf) && function_view(mf) == fv,
                    Err(_) => slots@[j] is None,
                })),
            sp_program_faults(*declares, options, store.functions.slots@.take(i as int)) == Some(faults@.map_values(|f: Fault| f@)),
        decreases store.functions.slots.len() - i,
    {
        let ghost prev = slots@;
        let entry: Option<Function> = match &store.functions.slots[i] {
            Some(FunctionKind::Normal(function)) => {
                proof {
                    lemma_first_unlowerable_range(
                        *declares,
                        spec_module(*declares, function.signature.id),
                        function.signature.parameters@,
                        0,
                    );
                }
                match lowerer.lower(function) {
                    Ok(mir_function) => Some(mir_function),
                    Err(fault) => {
                        let ghost before = faults@;
                        faults.push(fault);
                        proof {
                            assert(faults@.map_values(|f: Fault| f@) =~= before.map_values(|f: Fault| f@).push(fault@));
                        }
                        None
                    },
                }
            },
            _ => None,
        };
        let extern_entry: Option<ExternFunction> = match &store.functions.slots[i] {
            Some(FunctionKind::Signature(signature)) => if signature.external_c {
                Some(lower_extern_signature(signature))
            } else {
                None
            },
            _ => None,
        };
        slots.push(entry);
        extern_slots.push(extern_entry);
        proof {
            assert(slots@.drop_last() =~= prev);
            assert(store.functions.slots@.take(i + 1).drop_last() =~= store.functions.slots@.take(i as int));
        }
        i = i + 1;
    }
    proof {
        assert(store.functions.slots@.take(i as int) =~= store.functions.slots@);
    }
    (MirProgram { functions: VecMap { slots }, externs: VecMap { slots: extern_slots } }, faults)
}

} // verus!
