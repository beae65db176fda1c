//! The decisions MIR-to-LLVM code generation makes before it builds an
//! instruction: the machine type of a source type, whether an operand is
//! signed, which instruction a binary operator becomes, how a terminator is
//! built, and how `main`'s result becomes the process exit code.

use vstd::prelude::*;

use crate::ir_rules::IntPredicate;
use crate::mir::{BlockId, ExternFunction, Function, LocalDecl, LocalId, Operand, Terminator};
use crate::types::{BinaryOperatorKind, FunctionId, Literal, PrimitiveTypes, SoulType, UnaryOperatorKind};
use crate::vec_map::VecMap;

verus! {

/// Why code generation refuses a program.
#[derive(Debug, PartialEq, Eq)]
pub enum CodegenErrorKind {
    Unclassified(String),
    MissingAstEntry { id: FunctionId },
    NonPrimitiveType { ty: SoulType },
    UnsupportedPrimitiveType { ty: PrimitiveTypes },
    PlaceProjectionUnsupported,
    SwitchIntTargetCountUnsupported,
    SwitchIntTargetValueUnsupported,
    CallHasNoMirBody { id: FunctionId },
    CallNeverDeclared { id: FunctionId },
    CallArgumentCountMismatch { id: FunctionId },
    CallResultIsNone,
    ExpectedIntOperand,
    ExpectedFloatOperand,
    ExpectedPointerOperand,
    UnsupportedUnaryOperator { op: UnaryOperatorKind },
    UnsupportedBinaryOperator { op: BinaryOperatorKind },
    UnsupportedRvalue,
    UnsupportedConstant { value: Literal },
    DropUnsupported,
    OverflowIntrinsicUnavailable { name: String },
    FunctionHasNoBlocks,
    MissingParameterValue { index: usize },
    EntryPointReturnTypeTooWide,
    LlvmBuilderError { message: String },
}

/// The integer widths of the target.
#[derive(Debug, Clone, Copy, PartialEq, Eq, Structural)]
pub struct PlatformInfo {
    pub pointer_bits: u32,
    pub c_int_bits: u32,
}

/// A machine type: an integer of some width, or an (opaque) pointer.
#[derive(Debug, Clone, Copy, PartialEq, Eq, Structural)]
pub enum IrType {
    Int { bits: u32 },
    Ptr,
}

/// The integer width of a primitive, if it has one: `bool` is one bit,
/// `int`/`uint` and untyped integers are pointer-wide, C's `int` has the
/// target's width.
pub open spec fn spec_primitive_type(platform: PlatformInfo, prim: PrimitiveTypes) -> Option<IrType> {
    match prim {
        PrimitiveTypes::Boolean => Some(IrType::Int { bits: 1 }),
        PrimitiveTypes::Int8 | PrimitiveTypes::Uint8 | PrimitiveTypes::Char8 => Some(IrType::Int { bits: 8 }),
        PrimitiveTypes::Int16 | PrimitiveTypes::Uint16 | PrimitiveTypes::Char16 => Some(IrType::Int { bits: 16 }),
        PrimitiveTypes::Int32 | PrimitiveTypes::Uint32 | PrimitiveTypes::Char | PrimitiveTypes::Char32 => Some(
            IrType::Int { bits: 32 },
        ),
        PrimitiveTypes::Int64 | PrimitiveTypes::Uint64 | PrimitiveTypes::Char64 => Some(IrType::Int { bits: 64 }),
        PrimitiveTypes::Int128 | PrimitiveTypes::Uint128 => Some(IrType::Int { bits: 128 }),
        PrimitiveTypes::Int | PrimitiveTypes::Uint | PrimitiveTypes::UntypedInt | PrimitiveTypes::UntypedUint => Some(
            IrType::Int { bits: platform.pointer_bits },
        ),
        PrimitiveTypes::CInt | PrimitiveTypes::CUint => Some(IrType::Int { bits: platform.c_int_bits }),
        PrimitiveTypes::CStr => Some(IrType::Ptr),
        _ => None,
    }
}

/// The machine type of a source type: primitives by width, references and
/// pointers as pointers; everything else (floats, aggregates, ...) is not
/// supported.
pub open spec fn spec_llvm_type(platform: PlatformInfo, ty: SoulType) -> Result<IrType, CodegenErrorKind> {
    match ty {
        SoulType::Primitive(p) => match spec_primitive_type(platform, p) {
            Some(t) => Ok(t),
            None => Err(CodegenErrorKind::UnsupportedPrimitiveType { ty: p }),
        },
        SoulType::Reference(..) | SoulType::Pointer(_) => Ok(IrType::Ptr),
        _ => Err(CodegenErrorKind::NonPrimitiveType { ty }),
    }
}

pub fn llvm_type(platform: &PlatformInfo, ty: &SoulType) -> (res: Result<IrType, CodegenErrorKind>)
    ensures
        res == spec_llvm_type(*platform, *ty),
{
    match ty {
        SoulType::Primitive(prim) => {
            let t = match prim {
                PrimitiveTypes::Boolean => IrType::Int { bits: 1 },
                PrimitiveTypes::Int8 | PrimitiveTypes::Uint8 | PrimitiveTypes::Char8 => IrType::Int { bits: 8 },
                PrimitiveTypes::Int16 | PrimitiveTypes::Uint16 | PrimitiveTypes::Char16 => IrType::Int { bits: 16 },
                PrimitiveTypes::Int32 | PrimitiveTypes::Uint32 | PrimitiveTypes::Char | PrimitiveTypes::Char32 => {
                    IrType::Int { bits: 32 }
                },
                PrimitiveTypes::Int64 | PrimitiveTypes::Uint64 | PrimitiveTypes::Char64 => IrType::Int { bits: 64 },
                PrimitiveTypes::Int128 | PrimitiveTypes::Uint128 => IrType::Int { bits: 128 },
                PrimitiveTypes::Int | PrimitiveTypes::Uint | PrimitiveTypes::UntypedInt | PrimitiveTypes::UntypedUint => {
                    IrType::Int { bits: platform.pointer_bits }
                },
                PrimitiveTypes::CInt | PrimitiveTypes::CUint => IrType::Int { bits: platform.c_int_bits },
                PrimitiveTypes::CStr => IrType::Ptr,
                other => {
                    return Err(CodegenErrorKind::UnsupportedPrimitiveType { ty: *other });
                },
            };
            Ok(t)
        },
        SoulType::Reference(..) | SoulType::Pointer(_) => Ok(IrType::Ptr),
        other => Err(CodegenErrorKind::NonPrimitiveType { ty: other.clone() }),
    }
}

/// The signed integer primitives.
pub open spec fn spec_is_signed(prim: PrimitiveTypes) -> bool {
    prim is CInt || prim is UntypedInt || prim is Int || prim is Int8 || prim is Int16 || prim is Int32 || prim is Int64
        || prim is Int128
}

pub fn is_signed(prim: PrimitiveTypes) -> (res: bool)
    ensures
        res == spec_is_signed(prim),
{
    match prim {
        PrimitiveTypes::CInt | PrimitiveTypes::UntypedInt | PrimitiveTypes::Int | PrimitiveTypes::Int8
        | PrimitiveTypes::Int16 | PrimitiveTypes::Int32 | PrimitiveTypes::Int64 | PrimitiveTypes::Int128 => true,
        _ => false,
    }
}

/// An operand is signed when it reads a whole local of a signed primitive
/// type, or is a signed integer constant.
pub open spec fn spec_operand_is_signed(locals: Seq<LocalDecl>, operand: Operand) -> bool {
    match operand {
        Operand::Copy(p) | Operand::Move(p) => p.projection@.len() == 0 && p.local.0 < locals.len() && (
        locals[p.local.0 as int].ty matches SoulType::Primitive(prim) && spec_is_signed(prim)),
        Operand::Constant(c) => c is Int,
    }
}

pub fn operand_is_signed(locals: &Vec<LocalDecl>, operand: &Operand) -> (res: bool)
    requires
        operand matches Operand::Copy(p) ==> p.local.0 < locals@.len(),
        operand matches Operand::Move(p) ==> p.local.0 < locals@.len(),
    ensures
        res == spec_operand_is_signed(locals@, *operand),
{
    match operand {
        Operand::Copy(place) | Operand::Move(place) => {
            if place.projection.len() != 0 {
                return false;
            }
            match &locals[place.local.0].ty {
                SoulType::Primitive(p) => is_signed(*p),
                _ => false,
            }
        },
        Operand::Constant(c) => match c {
            Literal::Int(_) => true,
            _ => false,
        },
    }
}

/// The integer instruction a binary operator becomes.
#[derive(Debug, Clone, Copy, PartialEq, Eq, Structural)]
pub enum IntInstruction {
    Add,
    Sub,
    Mul,
    SignedDiv,
    UnsignedDiv,
    SignedRem,
    UnsignedRem,
    Compare(IntPredicate),
    And,
    Or,
}

/// Division, remainder and ordering follow the operands' signedness; the
/// other supported operators do not depend on it.
pub open spec fn spec_binary_instruction(op: BinaryOperatorKind, signed: bool) -> Result<
    IntInstruction,
    CodegenErrorKind,
> {
    match op {
        BinaryOperatorKind::Add => Ok(IntInstruction::Add),
        BinaryOperatorKind::Sub => Ok(IntInstruction::Sub),
        BinaryOperatorKind::Mul => Ok(IntInstruction::Mul),
        BinaryOperatorKind::Div => Ok(
            if signed {
                IntInstruction::SignedDiv
            } else {
                IntInstruction::UnsignedDiv
            },
        ),
        BinaryOperatorKind::Mod => Ok(
            if signed {
                IntInstruction::SignedRem
            } else {
                IntInstruction::UnsignedRem
            },
        ),
        BinaryOperatorKind::Eq => Ok(IntInstruction::Compare(IntPredicate::EQ)),
        BinaryOperatorKind::NotEq => Ok(IntInstruction::Compare(IntPredicate::NE)),
        BinaryOperatorKind::Lt => Ok(IntInstruction::Compare(if signed { IntPredicate::SLT } else { IntPredicate::ULT })),
        BinaryOperatorKind::Gt => Ok(IntInstruction::Compare(if signed { IntPredicate::SGT } else { IntPredicate::UGT })),
        BinaryOperatorKind::Le => Ok(IntInstruction::Compare(if signed { IntPredicate::SLE } else { IntPredicate::ULE })),
        BinaryOperatorKind::Ge => Ok(IntInstruction::Compare(if signed { IntPredicate::SGE } else { IntPredicate::UGE })),
        BinaryOperatorKind::LogAnd => Ok(IntInstruction::And),
        BinaryOperatorKind::LogOr => Ok(IntInstruction::Or),
        _ => Err(CodegenErrorKind::UnsupportedBinaryOperator { op }),
    }
}

pub fn binary_instruction(op: BinaryOperatorKind, signed: bool) -> (res: Result<IntInstruction, CodegenErrorKind>)
    ensures
        res == spec_binary_instruction(op, signed),
{
    match op {
        BinaryOperatorKind::Add => Ok(IntInstruction::Add),
        BinaryOperatorKind::Sub => Ok(IntInstruction::Sub),
        BinaryOperatorKind::Mul => Ok(IntInstruction::Mul),
        BinaryOperatorKind::Div => Ok(
            if signed {
                IntInstruction::SignedDiv
            } else {
                IntInstruction::UnsignedDiv
            },
        ),
        BinaryOperatorKind::Mod => Ok(
            if signed {
                IntInstruction::SignedRem
            } else {
                IntInstruction::UnsignedRem
            },
        ),
        BinaryOperatorKind::Eq => Ok(IntInstruction::Compare(IntPredicate::EQ)),
        BinaryOperatorKind::NotEq => Ok(IntInstruction::Compare(IntPredicate::NE)),
        BinaryOperatorKind::Lt => Ok(IntInstruction::Compare(if signed { IntPredicate::SLT } else { IntPredicate::ULT })),
        BinaryOperatorKind::Gt => Ok(IntInstruction::Compare(if signed { IntPredicate::SGT } else { IntPredicate::UGT })),
        BinaryOperatorKind::Le => Ok(IntInstruction::Compare(if signed { IntPredicate::SLE } else { IntPredicate::ULE })),
        BinaryOperatorKind::Ge => Ok(IntInstruction::Compare(if signed { IntPredicate::SGE } else { IntPredicate::UGE })),
        BinaryOperatorKind::LogAnd => Ok(IntInstruction::And),
        BinaryOperatorKind::LogOr => Ok(IntInstruction::Or),
        _ => Err(CodegenErrorKind::UnsupportedBinaryOperator { op }),
    }
}

/// How `main`'s integer result of `bits` bits becomes a 32-bit exit code.
#[derive(Debug, Clone, Copy, PartialEq, Eq, Structural)]
pub enum ExitCodeConversion {
    ZeroExtend,
    Keep,
}

/// `main`'s result must be an integer: a narrower one is zero-extended, a
/// 32-bit one kept, a wider one refused rather than truncated.
pub fn entry_point_return(value_type: IrType) -> (res: Result<ExitCodeConversion, CodegenErrorKind>)
    ensures
        value_type is Ptr ==> res == Err::<ExitCodeConversion, CodegenErrorKind>(CodegenErrorKind::ExpectedIntOperand),
        value_type matches IrType::Int { bits } ==> (bits < 32 ==> res == Ok::<ExitCodeConversion, CodegenErrorKind>(
            ExitCodeConversion::ZeroExtend,
        )) && (bits == 32 ==> res == Ok::<ExitCodeConversion, CodegenErrorKind>(ExitCodeConversion::Keep)) && (bits
            > 32 ==> res == Err::<ExitCodeConversion, CodegenErrorKind>(CodegenErrorKind::EntryPointReturnTypeTooWide)),
{
    let bits = match value_type {
        IrType::Int { bits } => bits,
        IrType::Ptr => {
            return Err(CodegenErrorKind::ExpectedIntOperand);
        },
    };
    if bits < 32 {
        Ok(ExitCodeConversion::ZeroExtend)
    } else if bits == 32 {
        Ok(ExitCodeConversion::Keep)
    } else {
        Err(CodegenErrorKind::EntryPointReturnTypeTooWide)
    }
}

/// An ordering comparison compares with a signed predicate exactly when
/// its operands are signed.
pub proof fn law_comparisons_follow_signedness(op: BinaryOperatorKind, signed: bool)
    requires
        op is Lt || op is Gt || op is Le || op is Ge,
    ensures
        spec_binary_instruction(op, signed) matches Ok(IntInstruction::Compare(p)) && (signed <==> (p is SLT || p is SGT
            || p is SLE || p is SGE)),
{
}

} // verus!

verus! {

/// What a terminator becomes in the IR, decided before any instruction is
/// built.
pub enum TerminatorPlan {
    /// An unconditional branch.
    Branch(BlockId),
    /// A two-way branch on the `bool` discriminant.
    CondBranch { then_block: BlockId, else_block: BlockId },
    /// A call, its arguments converted to the callee's parameter types; the
    /// result is stored into the destination local when there is one, and
    /// control continues at `target` (or nowhere).
    Call { param_types: Vec<IrType>, store_result: bool, target: Option<BlockId> },
    /// Compares the condition with `expected`: continues at `target` on a
    /// match and aborts otherwise.
    Assert { expected: bool, target: BlockId },
    /// Returns the value of the return local; in the entry point it goes
    /// through the exit-code conversion first.
    ReturnValue { local: LocalId, exit_code: bool },
    /// The entry point without a return local returns the exit code `0`.
    ReturnExitZero,
    /// Any other function without a return local returns nothing.
    ReturnVoid,
    Unreachable,
}

/// The machine types of the first `n` of `tys`, stopping at the first that
/// has none.
pub open spec fn spec_param_types(platform: PlatformInfo, tys: Seq<SoulType>, n: int) -> Result<Seq<IrType>, CodegenErrorKind>
    decreases n,
{
    if n <= 0 || n > tys.len() {
        Ok(Seq::empty())
    } else {
        match spec_param_types(platform, tys, n - 1) {
            Err(e) => Err(e),
            Ok(prev) => match spec_llvm_type(platform, tys[n - 1]) {
                Err(e) => Err(e),
                Ok(t) => Ok(prev.push(t)),
            },
        }
    }
}

/// The parameter types of the callee `id`: the first `arg_count` locals of
/// a function with a body, else the parameters of an `extern "C"`
/// declaration; `None` when `id` is neither.
pub open spec fn callee_params(functions: VecMap<Function>, externs: VecMap<ExternFunction>, id: FunctionId) -> Option<
    Seq<SoulType>,
> {
    match functions.spec_get(id.0 as int) {
        Some(f) => Some(
            f.locals@.take(if f.arg_count <= f.locals@.len() { f.arg_count as int } else { f.locals@.len() as int }).map_values(
                |d: LocalDecl| d.ty,
            ),
        ),
        None => match externs.spec_get(id.0 as int) {
            Some(x) => Some(x.params@),
            None => None,
        },
    }
}

/// Decides how `terminator` is built in a function with `return_local`
/// (`is_entry_point` for `main`): a switch is a two-way branch on one
/// `bool` target; a call finds its callee among the functions with a body
/// and then the externs, takes the callee's parameter types, refuses more
/// arguments than parameters and a destination with a projection; a return
/// returns the return local, or the exit code `0` from `main` and nothing
/// from any other function; a `Drop` is refused.
pub fn plan_terminator(
    platform: &PlatformInfo,
    return_local: Option<LocalId>,
    is_entry_point: bool,
    terminator: &Terminator,
    functions: &VecMap<Function>,
    externs: &VecMap<ExternFunction>,
) -> (res: Result<TerminatorPlan, CodegenErrorKind>)
    ensures
        match *terminator {
            Terminator::Goto(b) => res == Ok::<TerminatorPlan, CodegenErrorKind>(TerminatorPlan::Branch(b)),
            Terminator::SwitchInt { targets, otherwise, .. } => if targets@.len() != 1 {
                res == Err::<TerminatorPlan, CodegenErrorKind>(CodegenErrorKind::SwitchIntTargetCountUnsupported)
            } else {
                match targets@[0].0 {
                    Literal::Bool(true) => res == Ok::<TerminatorPlan, CodegenErrorKind>(
                        TerminatorPlan::CondBranch { then_block: targets@[0].1, else_block: otherwise },
                    ),
                    Literal::Bool(false) => res == Ok::<TerminatorPlan, CodegenErrorKind>(
                        TerminatorPlan::CondBranch { then_block: otherwise, else_block: targets@[0].1 },
                    ),
                    _ => res == Err::<TerminatorPlan, CodegenErrorKind>(CodegenErrorKind::SwitchIntTargetValueUnsupported),
                }
            },
            Terminator::Call { id, arguments, destination, target } => match callee_params(*functions, *externs, id) {
                None => res == Err::<TerminatorPlan, CodegenErrorKind>(CodegenErrorKind::CallHasNoMirBody { id }),
                Some(tys) => match spec_param_types(*platform, tys, tys.len() as int) {
                    Err(e) => res == Err::<TerminatorPlan, CodegenErrorKind>(e),
                    Ok(pts) => if arguments@.len() > pts.len() {
                        res == Err::<TerminatorPlan, CodegenErrorKind>(CodegenErrorKind::CallArgumentCountMismatch { id })
                    } else if destination matches Some(p) && p.projection@.len() > 0 {
                        res == Err::<TerminatorPlan, CodegenErrorKind>(CodegenErrorKind::PlaceProjectionUnsupported)
                    } else {
                        res matches Ok(TerminatorPlan::Call { param_types, store_result, target: t }) && param_types@
                            == pts && store_result == destination is Some && t == target
                    },
                },
            },
            Terminator::Assert { expected, target, .. } => res == Ok::<TerminatorPlan, CodegenErrorKind>(
                TerminatorPlan::Assert { expected, target },
            ),
            Terminator::Return => res == Ok::<TerminatorPlan, CodegenErrorKind>(
                match return_local {
                    Some(local) => TerminatorPlan::ReturnValue { local, exit_code: is_entry_point },
                    None => if is_entry_point {
                        TerminatorPlan::ReturnExitZero
                    } else {
                        TerminatorPlan::ReturnVoid
                    },
                },
            ),
            Terminator::Unreachable => res == Ok::<TerminatorPlan, CodegenErrorKind>(TerminatorPlan::Unreachable),
            Terminator::Drop { .. } => res == Err::<TerminatorPlan, CodegenErrorKind>(CodegenErrorKind::DropUnsupported),
        },
{
    match terminator {
        Terminator::Goto(b) => Ok(TerminatorPlan::Branch(*b)),
        Terminator::SwitchInt { targets, otherwise, .. } => {
            if targets.len() != 1 {
                return Err(CodegenErrorKind::SwitchIntTargetCountUnsupported);
            }
            let target = targets[0].1;
            match &targets[0].0 {
                Literal::Bool(expect_true) => if *expect_true {
                    Ok(TerminatorPlan::CondBranch { then_block: target, else_block: *otherwise })
                } else {
                    Ok(TerminatorPlan::CondBranch { then_block: *otherwise, else_block: target })
                },
                _ => Err(CodegenErrorKind::SwitchIntTargetValueUnsupported),
            }
        },
        Terminator::Call { id, arguments, destination, target } => {
            let mut tys: Vec<SoulType> = Vec::new();
            match functions.get(id.0) {
                Some(f) => {
                    let n = if f.arg_count <= f.locals.len() {
                        f.arg_count
                    } else {
                        f.locals.len()
                    };
                    let mut i: usize = 0;
                    while i < n
                        invariant
                            n <= f.locals@.len(),
                            i <= n,
                            tys@ == f.locals@.take(i as int).map_values(|d: LocalDecl| d.ty),
                        decreases n - i,
                    {
                        tys.push(f.locals[i].ty.clone());
                        proof {
                            assert(f.locals@.take(i + 1).map_values(|d: LocalDecl| d.ty) =~= f.locals@.take(
                                i as int,
                            ).map_values(|d: LocalDecl| d.ty).push(f.locals@[i as int].ty));
                        }
                        i = i + 1;
                    }
                },
                None => match externs.get(id.0) {
                    Some(x) => {
                        let mut i: usize = 0;
                        while i < x.params.len()
                            invariant
                                i <= x.params@.len(),
                                tys@ == x.params@.take(i as int),
                            decreases x.params.len() - i,
                        {
                            tys.push(x.params[i].clone());
                            proof {
                                assert(x.params@.take(i + 1) =~= x.params@.take(i as int).push(x.params@[i as int]));
                            }
                            i = i + 1;
                        }
                        proof {
                            assert(x.params@.take(x.params@.len() as int) =~= x.params@);
                        }
                    },
                    None => {
                        return Err(CodegenErrorKind::CallHasNoMirBody { id: *id });
                    },
                },
            }
            let ghost all = tys@;
            assert(callee_params(*functions, *externs, *id) == Some(all));
            let mut param_types: Vec<IrType> = Vec::new();
            let mut i: usize = 0;
            while i < tys.len()
                invariant
                    tys@ == all,
                    callee_params(*functions, *externs, *id) == Some(all),
                    *terminator == (Terminator::Call {
                        id: *id,
                        arguments: *arguments,
                        destination: *destination,
                        target: *target,
                    }),
                    i <= all.len(),
                    spec_param_types(*platform, all, i as int) == Ok::<Seq<IrType>, CodegenErrorKind>(param_types@),
                decreases tys.len() - i,
            {
                match llvm_type(platform, &tys[i]) {
                    Ok(t) => {
                        param_types.push(t);
                    },
                    Err(e) => {
                        proof {
                            lemma_param_types_stop(*platform, all, i + 1, all.len() as int);
                        }
                        return Err(e);
                    },
                }
                i = i + 1;
            }
            if arguments.len() > param_types.len() {
                return Err(CodegenErrorKind::CallArgumentCountMismatch { id: *id });
            }
            let store_result = match destination {
                Some(place) => {
                    if place.projection.len() > 0 {
                        return Err(CodegenErrorKind::PlaceProjectionUnsupported);
                    }
                    true
                },
                None => false,
            };
            Ok(TerminatorPlan::Call { param_types, store_result, target: *target })
        },
        Terminator::Assert { expected, target, .. } => Ok(TerminatorPlan::Assert { expected: *expected, target: *target }),
        Terminator::Return => match return_local {
            Some(local) => Ok(TerminatorPlan::ReturnValue { local, exit_code: is_entry_point }),
            None => if is_entry_point {
                Ok(TerminatorPlan::ReturnExitZero)
            } else {
                Ok(TerminatorPlan::ReturnVoid)
            },
        },
        Terminator::Unreachable => Ok(TerminatorPlan::Unreachable),
        Terminator::Drop { .. } => Err(CodegenErrorKind::DropUnsupported),
    }
}

/// Once a parameter type has none, taking more parameters gives the same
/// fault.
pub proof fn lemma_param_types_stop(platform: PlatformInfo, tys: Seq<SoulType>, k: int, n: int)
    requires
        0 <= k <= n <= tys.len(),
        spec_param_types(platform, tys, k) is Err,
    ensures
        spec_param_types(platform, tys, n) == spec_param_types(platform, tys, k),
    decreases n - k,
{
    if k < n {
        lemma_param_types_stop(platform, tys, k, n - 1);
    }
}

} // verus!

verus! {

/// The values a fixed-width integer primitive holds: the range of the Rust
/// integer type of the same width and signedness (characters are unsigned).
pub open spec fn fixed_width_range(p: PrimitiveTypes) -> Option<(int, int)> {
    match p {
        PrimitiveTypes::Int8 => Some((i8::MIN as int, i8::MAX as int)),
        PrimitiveTypes::Int16 => Some((i16::MIN as int, i16::MAX as int)),
        PrimitiveTypes::Int32 => Some((i32::MIN as int, i32::MAX as int)),
        PrimitiveTypes::Int64 => Some((i64::MIN as int, i64::MAX as int)),
        PrimitiveTypes::Int128 => Some((i128::MIN as int, i128::MAX as int)),
        PrimitiveTypes::Uint8 | PrimitiveTypes::Char8 => Some((0, u8::MAX as int)),
        PrimitiveTypes::Uint16 | PrimitiveTypes::Char16 => Some((0, u16::MAX as int)),
        PrimitiveTypes::Uint32 | PrimitiveTypes::Char32 => Some((0, u32::MAX as int)),
        PrimitiveTypes::Uint64 | PrimitiveTypes::Char64 => Some((0, u64::MAX as int)),
        PrimitiveTypes::Uint128 => Some((0, u128::MAX as int)),
        _ => None,
    }
}

/// A fixed-width integer primitive gets a machine integer with exactly as
/// many values as the primitive holds (its declared width), and is signed
/// exactly when it holds negative values.
pub proof fn law_fixed_width_machine_types(platform: PlatformInfo, p: PrimitiveTypes)
    requires
        fixed_width_range(p) is Some,
    ensures
        fixed_width_range(p) matches Some((lo, hi)) && spec_llvm_type(platform, SoulType::Primitive(p)) matches Ok(
            IrType::Int { bits },
        ) && vstd::arithmetic::power2::pow2(bits as nat) == hi - lo + 1 && (spec_is_signed(p) <==> lo < 0),
{
    vstd::arithmetic::power2::lemma2_to64();
    vstd::arithmetic::power2::lemma_pow2_adds(64, 64);
    assert(vstd::arithmetic::power2::pow2(128) == 0x1_0000_0000_0000_0000_0000_0000_0000_0000) by (nonlinear_arith)
        requires
            vstd::arithmetic::power2::pow2(64) == 0x1_0000_0000_0000_0000,
            vstd::arithmetic::power2::pow2(128) == vstd::arithmetic::power2::pow2(64) * vstd::arithmetic::power2::pow2(
                64,
            ),
    ;
}

/// The signed primitives are exactly those with a signed width for the
/// overflow checks of lowering, and the machine integer of each has that
/// width on the same target.
pub proof fn law_signed_primitives_agree_with_lowering(
    platform: PlatformInfo,
    options: crate::lower::LoweringOptions,
    p: PrimitiveTypes,
)
    requires
        options.pointer_bits == platform.pointer_bits,
        options.c_int_bits == platform.c_int_bits,
    ensures
        spec_is_signed(p) <==> crate::lower::expression::signed_bits(p, options) is Some,
        crate::lower::expression::signed_bits(p, options) matches Some(b) ==> spec_llvm_type(
            platform,
            SoulType::Primitive(p),
        ) == Ok::<IrType, CodegenErrorKind>(IrType::Int { bits: b }),
{
}

/// The unsigned integer primitive of the same width as a signed one.
pub open spec fn unsigned_counterpart(p: PrimitiveTypes) -> Option<PrimitiveTypes> {
    match p {
        PrimitiveTypes::Int8 => Some(PrimitiveTypes::Uint8),
        PrimitiveTypes::Int16 => Some(PrimitiveTypes::Uint16),
        PrimitiveTypes::Int32 => Some(PrimitiveTypes::Uint32),
        PrimitiveTypes::Int64 => Some(PrimitiveTypes::Uint64),
        PrimitiveTypes::Int128 => Some(PrimitiveTypes::Uint128),
        PrimitiveTypes::Int => Some(PrimitiveTypes::Uint),
        PrimitiveTypes::UntypedInt => Some(PrimitiveTypes::UntypedUint),
        PrimitiveTypes::CInt => Some(PrimitiveTypes::CUint),
        _ => None,
    }
}

/// Each signed integer primitive is signed and its unsigned counterpart is
/// not; the two share one machine integer, which for the target-sized
/// integers has the target's pointer width (or its C `int` width).
pub proof fn law_signed_and_unsigned_pairs(platform: PlatformInfo, p: PrimitiveTypes)
    requires
        unsigned_counterpart(p) is Some,
    ensures
        unsigned_counterpart(p) matches Some(u) && spec_is_signed(p) && !spec_is_signed(u) && spec_llvm_type(
            platform,
            SoulType::Primitive(p),
        ) == spec_llvm_type(platform, SoulType::Primitive(u)) && spec_llvm_type(platform, SoulType::Primitive(p))
            is Ok,
        p is Int || p is UntypedInt ==> spec_llvm_type(platform, SoulType::Primitive(p)) == Ok::<
            IrType,
            CodegenErrorKind,
        >(IrType::Int { bits: platform.pointer_bits }),
        p is CInt ==> spec_llvm_type(platform, SoulType::Primitive(p)) == Ok::<IrType, CodegenErrorKind>(
            IrType::Int { bits: platform.c_int_bits },
        ),
{
}

/// What an integer predicate of the IR says of two machine words of a
/// word size with `modulus` values: unsigned predicates compare the words,
/// signed ones compare their two's complement readings.
pub open spec fn predicate_holds(p: IntPredicate, x: int, y: int, modulus: int) -> bool {
    let sx = if x >= modulus / 2 { x - modulus } else { x };
    let sy = if y >= modulus / 2 { y - modulus } else { y };
    match p {
        IntPredicate::EQ => x == y,
        IntPredicate::NE => x != y,
        IntPredicate::UGT => x > y,
        IntPredicate::UGE => x >= y,
        IntPredicate::ULT => x < y,
        IntPredicate::ULE => x <= y,
        IntPredicate::SGT => sx > sy,
        IntPredicate::SGE => sx >= sy,
        IntPredicate::SLT => sx < sy,
        IntPredicate::SLE => sx <= sy,
    }
}

/// The machine word of a value: negative values wrap around.
pub open spec fn word_of(a: int, modulus: int) -> int {
    if a < 0 {
        a + modulus
    } else {
        a
    }
}

/// What a source comparison operator says of two values.
pub open spec fn operator_holds(op: BinaryOperatorKind, a: int, b: int) -> bool {
    match op {
        BinaryOperatorKind::Eq => a == b,
        BinaryOperatorKind::NotEq => a != b,
        BinaryOperatorKind::Lt => a < b,
        BinaryOperatorKind::Gt => a > b,
        BinaryOperatorKind::Le => a <= b,
        BinaryOperatorKind::Ge => a >= b,
        _ => false,
    }
}

/// A comparison becomes a predicate that, on the machine words of any two
/// values of the operand type (signed or unsigned, of any even word size),
/// holds exactly when the comparison holds of the values.
pub proof fn law_comparison_predicates_compare_values(
    op: BinaryOperatorKind,
    signed: bool,
    modulus: int,
    a: int,
    b: int,
)
    requires
        op is Eq || op is NotEq || op is Lt || op is Gt || op is Le || op is Ge,
        modulus >= 2,
        modulus % 2 == 0,
        signed ==> -(modulus / 2) <= a < modulus / 2 && -(modulus / 2) <= b < modulus / 2,
        !signed ==> 0 <= a < modulus && 0 <= b < modulus,
    ensures
        spec_binary_instruction(op, signed) matches Ok(IntInstruction::Compare(p)) && (predicate_holds(
            p,
            word_of(a, modulus),
            word_of(b, modulus),
            modulus,
        ) <==> operator_holds(op, a, b)),
{
}

/// Division and remainder read their operands as signed exactly when the
/// operand type is signed.
pub proof fn law_division_follows_signedness(op: BinaryOperatorKind, signed: bool)
    requires
        op is Div || op is Mod,
    ensures
        spec_binary_instruction(op, signed) matches Ok(i) && ((i is SignedDiv || i is SignedRem) <==> signed) && (op
            is Div <==> (i is SignedDiv || i is UnsignedDiv)),
{
}

} // verus!
