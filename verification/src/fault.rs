//! The faults MIR lowering reports: every one means "not supported by this
//! lowering slice", not "the input program is invalid".

use vstd::prelude::*;

use crate::types::{SoulType, Span};

verus! {

#[derive(Debug, PartialEq, Eq)]
pub enum MirErrorKind {
    Unclassified(String),
    SignatureOnlyFunctionHasNoBody,
    NonSimpleVariablePatternUnsupported,
    UninitializedVariableUnsupported,
    VariableHasNoResolvedType,
    NonReturnTerminalStatementUnsupported,
    UnsupportedStatementKind,
    MissingReturnStatement,
    NonPrimitiveType { ty: SoulType },
    UnsupportedBinaryOperator,
    UnsupportedUnaryOperator,
    VariableHasNoResolvedBinding,
    VariableNotBoundToLocal,
    NestedExpressionHasNoResolvedType,
    UnsupportedOperandExpression,
    UnsupportedConditionExpression,
    UnsupportedLoopCondition,
    BreakOutsideLoop,
    ContinueOutsideLoop,
    UnreachableStatement,
    AssignmentTargetUnsupported,
    UnsupportedPlaceExpression,
    IndexTargetNotASlice { ty: SoulType },
    ArrayReferenceUnsupported { ty: SoulType },
    FunctionCallHasNoResolvedTarget,
    UnsupportedCallShape,
    CannotUseNoneValueAsOperand,
    UnexpectedReturnValue,
    UnsupportedIntrinsic { name: String },
    IntrinsicArityMismatch { name: String, expected: usize, got: usize },
    UnsupportedFieldAccessObject,
    StructConstructorDefaultsUnsupported,
    StructFieldNotFound { struct_name: String, field: String },
    UnsupportedMatchPattern,
}

#[derive(Debug, Clone, Copy, PartialEq, Eq, Structural)]
pub enum Severity {
    Error,
    Warning,
}

/// A lowering fault: what went wrong, how serious it is, and where.
#[derive(Debug, PartialEq, Eq)]
pub struct Fault {
    pub kind: MirErrorKind,
    pub severity: Severity,
    pub span: Option<Span>,
}

impl Fault {
    pub open spec fn error(kind: MirErrorKind, span: Option<Span>) -> Fault {
        Fault { kind, severity: Severity::Error, span }
    }

    pub open spec fn warning(kind: MirErrorKind, span: Option<Span>) -> Fault {
        Fault { kind, severity: Severity::Warning, span }
    }

    pub fn error_with_kind(kind: MirErrorKind, span: Option<Span>) -> (res: Fault)
        ensures
            res == (Fault { kind, severity: Severity::Error, span }),
    {
        Fault { kind, severity: Severity::Error, span }
    }

    pub fn warning_with_kind(kind: MirErrorKind, span: Option<Span>) -> (res: Fault)
        ensures
            res == (Fault { kind, severity: Severity::Warning, span }),
    {
        Fault { kind, severity: Severity::Warning, span }
    }
}

pub type MirResult<T> = Result<T, Fault>;

/// A fault kind with its texts as sequences of characters.
pub enum MirErrorKindV {
    Unclassified(Seq<char>),
    SignatureOnlyFunctionHasNoBody,
    NonSimpleVariablePatternUnsupported,
    UninitializedVariableUnsupported,
    VariableHasNoResolvedType,
    NonReturnTerminalStatementUnsupported,
    UnsupportedStatementKind,
    MissingReturnStatement,
    NonPrimitiveType { ty: SoulType },
    UnsupportedBinaryOperator,
    UnsupportedUnaryOperator,
    VariableHasNoResolvedBinding,
    VariableNotBoundToLocal,
    NestedExpressionHasNoResolvedType,
    UnsupportedOperandExpression,
    UnsupportedConditionExpression,
    UnsupportedLoopCondition,
    BreakOutsideLoop,
    ContinueOutsideLoop,
    UnreachableStatement,
    AssignmentTargetUnsupported,
    UnsupportedPlaceExpression,
    IndexTargetNotASlice { ty: SoulType },
    ArrayReferenceUnsupported { ty: SoulType },
    FunctionCallHasNoResolvedTarget,
    UnsupportedCallShape,
    CannotUseNoneValueAsOperand,
    UnexpectedReturnValue,
    UnsupportedIntrinsic { name: Seq<char> },
    IntrinsicArityMismatch { name: Seq<char>, expected: usize, got: usize },
    UnsupportedFieldAccessObject,
    StructConstructorDefaultsUnsupported,
    StructFieldNotFound { struct_name: Seq<char>, field: Seq<char> },
    UnsupportedMatchPattern,
}

impl View for MirErrorKind {
    type V = MirErrorKindV;

    open spec fn view(&self) -> MirErrorKindV {
        match self {
            MirErrorKind::Unclassified(t) => MirErrorKindV::Unclassified(t@),
            MirErrorKind::SignatureOnlyFunctionHasNoBody => MirErrorKindV::SignatureOnlyFunctionHasNoBody,
            MirErrorKind::NonSimpleVariablePatternUnsupported => MirErrorKindV::NonSimpleVariablePatternUnsupported,
            MirErrorKind::UninitializedVariableUnsupported => MirErrorKindV::UninitializedVariableUnsupported,
            MirErrorKind::VariableHasNoResolvedType => MirErrorKindV::VariableHasNoResolvedType,
            MirErrorKind::NonReturnTerminalStatementUnsupported => MirErrorKindV::NonReturnTerminalStatementUnsupported,
            MirErrorKind::UnsupportedStatementKind => MirErrorKindV::UnsupportedStatementKind,
            MirErrorKind::MissingReturnStatement => MirErrorKindV::MissingReturnStatement,
            MirErrorKind::NonPrimitiveType { ty } => MirErrorKindV::NonPrimitiveType { ty: *ty },
            MirErrorKind::UnsupportedBinaryOperator => MirErrorKindV::UnsupportedBinaryOperator,
            MirErrorKind::UnsupportedUnaryOperator => MirErrorKindV::UnsupportedUnaryOperator,
            MirErrorKind::VariableHasNoResolvedBinding => MirErrorKindV::VariableHasNoResolvedBinding,
            MirErrorKind::VariableNotBoundToLocal => MirErrorKindV::VariableNotBoundToLocal,
            MirErrorKind::NestedExpressionHasNoResolvedType => MirErrorKindV::NestedExpressionHasNoResolvedType,
            MirErrorKind::UnsupportedOperandExpression => MirErrorKindV::UnsupportedOperandExpression,
            MirErrorKind::UnsupportedConditionExpression => MirErrorKindV::UnsupportedConditionExpression,
            MirErrorKind::UnsupportedLoopCondition => MirErrorKindV::UnsupportedLoopCondition,
            MirErrorKind::BreakOutsideLoop => MirErrorKindV::BreakOutsideLoop,
            MirErrorKind::ContinueOutsideLoop => MirErrorKindV::ContinueOutsideLoop,
            MirErrorKind::UnreachableStatement => MirErrorKindV::UnreachableStatement,
            MirErrorKind::AssignmentTargetUnsupported => MirErrorKindV::AssignmentTargetUnsupported,
            MirErrorKind::UnsupportedPlaceExpression => MirErrorKindV::UnsupportedPlaceExpression,
            MirErrorKind::IndexTargetNotASlice { ty } => MirErrorKindV::IndexTargetNotASlice { ty: *ty },
            MirErrorKind::ArrayReferenceUnsupported { ty } => MirErrorKindV::ArrayReferenceUnsupported { ty: *ty },
            MirErrorKind::FunctionCallHasNoResolvedTarget => MirErrorKindV::FunctionCallHasNoResolvedTarget,
            MirErrorKind::UnsupportedCallShape => MirErrorKindV::UnsupportedCallShape,
            MirErrorKind::CannotUseNoneValueAsOperand => MirErrorKindV::CannotUseNoneValueAsOperand,
            MirErrorKind::UnexpectedReturnValue => MirErrorKindV::UnexpectedReturnValue,
            MirErrorKind::UnsupportedIntrinsic { name } => MirErrorKindV::UnsupportedIntrinsic { name: name@ },
            MirErrorKind::IntrinsicArityMismatch { name, expected, got } => MirErrorKindV::IntrinsicArityMismatch {
                name: name@,
                expected: *expected,
                got: *got,
            },
            MirErrorKind::UnsupportedFieldAccessObject => MirErrorKindV::UnsupportedFieldAccessObject,
            MirErrorKind::StructConstructorDefaultsUnsupported => MirErrorKindV::StructConstructorDefaultsUnsupported,
            MirErrorKind::StructFieldNotFound { struct_name, field } => MirErrorKindV::StructFieldNotFound {
                struct_name: struct_name@,
                field: field@,
            },
            MirErrorKind::UnsupportedMatchPattern => MirErrorKindV::UnsupportedMatchPattern,
        }
    }
}

/// A fault with its texts as sequences of characters.
pub struct FaultV {
    pub kind: MirErrorKindV,
    pub severity: Severity,
    pub span: Option<Span>,
}

impl View for Fault {
    type V = FaultV;

    open spec fn view(&self) -> FaultV {
        FaultV { kind: self.kind@, severity: self.severity, span: self.span }
    }
}

impl FaultV {
    pub open spec fn error(kind: MirErrorKindV, span: Option<Span>) -> FaultV {
        FaultV { kind, severity: Severity::Error, span }
    }

    pub open spec fn warning(kind: MirErrorKindV, span: Option<Span>) -> FaultV {
        FaultV { kind, severity: Severity::Warning, span }
    }
}

/// A lowering result with its fault viewed.
pub type ResV<T> = Result<T, FaultV>;

pub open spec fn res_view<T>(r: MirResult<T>) -> ResV<T> {
    match r {
        Ok(v) => Ok(v),
        Err(e) => Err(e@),
    }
}

/// A fault that lowering a function body can report: anything but a
/// missing final `return`, which only the function as a whole can tell.
pub open spec fn body_fault<T>(res: MirResult<T>) -> bool {
    !(res matches Err(f) && f.kind is MissingReturnStatement)
}

/// Only an unreachable statement is reported as a warning; every other
/// fault is an error.
pub open spec fn severity_ok<T>(res: MirResult<T>) -> bool {
    res matches Err(f) ==> (f.severity is Warning <==> f.kind is UnreachableStatement)
}

} // verus!
