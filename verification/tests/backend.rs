use soul_mir::backend::{
    get_module_path, mangle, name_block, Current, FunctionKey, FunctionKeyId, FunctionKeyStore,
    GenericSubstitute, ModuleInfo,
};
use soul_mir::ir_rules::{cast_primitives, CastOp, FloatPredicate, IntPredicate, IrCompare, PrimCastInfo};
use soul_mir::mir::BlockId;
use soul_mir::types::FunctionId;
use soul_mir::vec_map::VecMap;

#[test]
fn generic_substitute_pairs_positions() {
    let g = GenericSubstitute::new(&[1, 2, 3], &[10, 20]);
    assert_eq!(g.resolve(1), Some(10));
    assert_eq!(g.resolve(2), Some(20));
    assert_eq!(g.resolve(3), None);
    let g = GenericSubstitute::new(&[1, 1], &[10, 30]);
    assert_eq!(g.resolve(1), Some(30));
}

#[test]
fn generic_substitute_insert_then_resolve() {
    let mut g = GenericSubstitute::new(&[], &[]);
    g.insert(4, 7);
    g.insert(2, 9);
    assert_eq!(g.resolve(4), Some(7));
    assert_eq!(g.resolve(2), Some(9));
    g.insert(4, 8);
    assert_eq!(g.resolve(4), Some(8));
    assert_eq!(g.resolve(0), None);
}

#[test]
fn current_starts_in_the_global_context_at_no_block() {
    let mut c = Current::start(FunctionKeyId(0));
    assert_eq!(c.function_key(), FunctionKeyId(0));
    assert_eq!(c.block(), BlockId(usize::MAX));
    c.set_block(BlockId(3));
    c.set_function_key(FunctionKeyId(2));
    assert_eq!(c.block(), BlockId(3));
    assert_eq!(c.function_key(), FunctionKeyId(2));
}

#[test]
fn function_keys_get_one_id_each() {
    let mut store = FunctionKeyStore::new();
    assert_eq!(store.global_key(), FunctionKeyId(0));
    let a = store.insert(FunctionKey::new(FunctionId(5), vec![]));
    let b = store.insert(FunctionKey::new(FunctionId(5), vec![1, 2]));
    let a_again = store.insert(FunctionKey::new(FunctionId(5), vec![]));
    assert_eq!(a, FunctionKeyId(1));
    assert_eq!(b, FunctionKeyId(2));
    assert_eq!(a_again, a);
    assert_eq!(store.key_to_id(&FunctionKey::new(FunctionId(5), vec![1, 2])), Some(b));
    assert_eq!(store.key_to_id(&FunctionKey::new(FunctionId(6), vec![])), None);
    let key = store.id_to_key(b).unwrap();
    assert_eq!(key.function_id(), FunctionId(5));
    assert_eq!(key.type_args(), &vec![1, 2]);
    assert!(store.id_to_key(store.global_key()).is_none());
    assert!(store.id_to_key(FunctionKeyId(3)).is_none());
}

#[test]
fn keys_compare_by_function_and_type_arguments() {
    let k = FunctionKey::new(FunctionId(1), vec![3, 4]);
    assert!(k.same_key(&k.duplicate()));
    assert!(!k.same_key(&FunctionKey::new(FunctionId(1), vec![3])));
    assert!(!k.same_key(&FunctionKey::new(FunctionId(2), vec![3, 4])));
}

#[test]
fn block_names_are_bb_and_the_index() {
    assert_eq!(name_block(BlockId(0)), "bb_0");
    assert_eq!(name_block(BlockId(42)), "bb_42");
    assert_eq!(name_block(BlockId(1907)), "bb_1907");
}

fn modules() -> VecMap<ModuleInfo> {
    let mut m = VecMap::new();
    m.insert(0, ModuleInfo { name: "crate".to_string(), parent: None });
    m.insert(1, ModuleInfo { name: "math".to_string(), parent: Some(0) });
    m.insert(2, ModuleInfo { name: "vec".to_string(), parent: Some(1) });
    m
}

#[test]
fn mangled_names_carry_the_module_path_owner_and_type_arguments() {
    let m = modules();
    assert_eq!(mangle(&m, 0, 0, "main", None, &vec![]), "main");
    assert_eq!(mangle(&m, 0, 2, "len", None, &vec![]), "vec_math___len");
    assert_eq!(
        mangle(&m, 0, 1, "push", Some("Vec"), &vec!["int".to_string(), "bool".to_string()]),
        "math___push___t_Vec___g_int_bool"
    );
}

#[test]
fn export_paths_are_dotted_from_the_root_down() {
    let m = modules();
    assert_eq!(get_module_path(0, &m, 0), "");
    assert_eq!(get_module_path(1, &m, 0), "math");
    assert_eq!(get_module_path(2, &m, 0), "math.vec");
    assert_eq!(get_module_path(9, &m, 0), "");
}

#[test]
fn comparison_predicates() {
    assert!(IrCompare::Lt.is_order_kind());
    assert!(!IrCompare::Eq.is_order_kind());
    assert!(!IrCompare::NotEq.is_order_kind());
    assert_eq!(IrCompare::Ge.to_signed_int_cmp(), IntPredicate::SGE);
    assert_eq!(IrCompare::Ge.to_unsigned_int_cmp(), IntPredicate::UGE);
    assert_eq!(IrCompare::NotEq.to_unsigned_int_cmp(), IntPredicate::NE);
    assert_eq!(IrCompare::Lt.to_float_cmp_no_nan(), FloatPredicate::OLT);
    assert_eq!(IrCompare::NotEq.to_float_cmp_no_nan(), FloatPredicate::ONE);
}

fn cast(source_size: u8, cast_size: u8, source_is_float: bool, cast_is_float: bool, source_signed: bool, cast_signed: bool) -> CastOp {
    cast_primitives(&PrimCastInfo { source_size, cast_size, source_is_float, cast_is_float, source_signed, cast_signed })
}

#[test]
fn cast_conversions() {
    assert_eq!(cast(32, 32, false, false, true, false), CastOp::Keep);
    assert_eq!(cast(32, 32, false, true, true, true), CastOp::Bitcast);
    assert_eq!(cast(32, 64, true, true, true, true), CastOp::FloatExtend);
    assert_eq!(cast(64, 32, true, true, true, true), CastOp::FloatTruncate);
    assert_eq!(cast(64, 32, true, false, true, true), CastOp::FloatToSigned);
    assert_eq!(cast(64, 32, true, false, true, false), CastOp::FloatToUnsigned);
    assert_eq!(cast(32, 64, false, true, true, true), CastOp::SignedToFloat);
    assert_eq!(cast(32, 64, false, true, false, true), CastOp::UnsignedToFloat);
    assert_eq!(cast(8, 32, false, false, true, true), CastOp::SignExtend);
    assert_eq!(cast(8, 32, false, false, false, true), CastOp::ZeroExtend);
    assert_eq!(cast(64, 8, false, false, true, true), CastOp::Truncate);
}

use soul_mir::codegen::{
    binary_instruction, entry_point_return, is_signed, llvm_type, operand_is_signed, CodegenErrorKind,
    ExitCodeConversion, IntInstruction, IrType, PlatformInfo,
};
use soul_mir::mir::{LocalDecl, LocalId, Operand, Place};
use soul_mir::types::{BinaryOperatorKind, Literal, PrimitiveTypes, SoulType, Span, TypeModifier};

fn platform() -> PlatformInfo {
    PlatformInfo { pointer_bits: 64, c_int_bits: 32 }
}

#[test]
fn machine_types_of_source_types() {
    let p = platform();
    assert_eq!(llvm_type(&p, &SoulType::Primitive(PrimitiveTypes::Boolean)), Ok(IrType::Int { bits: 1 }));
    assert_eq!(llvm_type(&p, &SoulType::Primitive(PrimitiveTypes::Char)), Ok(IrType::Int { bits: 32 }));
    assert_eq!(llvm_type(&p, &SoulType::Primitive(PrimitiveTypes::Int)), Ok(IrType::Int { bits: 64 }));
    assert_eq!(llvm_type(&p, &SoulType::Primitive(PrimitiveTypes::CUint)), Ok(IrType::Int { bits: 32 }));
    assert_eq!(llvm_type(&p, &SoulType::Primitive(PrimitiveTypes::Uint128)), Ok(IrType::Int { bits: 128 }));
    assert_eq!(llvm_type(&p, &SoulType::Primitive(PrimitiveTypes::CStr)), Ok(IrType::Ptr));
    assert_eq!(
        llvm_type(&p, &SoulType::Reference(Box::new(SoulType::Primitive(PrimitiveTypes::Char)), false)),
        Ok(IrType::Ptr)
    );
    assert_eq!(
        llvm_type(&p, &SoulType::Primitive(PrimitiveTypes::Float32)),
        Err(CodegenErrorKind::UnsupportedPrimitiveType { ty: PrimitiveTypes::Float32 })
    );
    assert_eq!(
        llvm_type(&p, &SoulType::Stub("Point".to_string())),
        Err(CodegenErrorKind::NonPrimitiveType { ty: SoulType::Stub("Point".to_string()) })
    );
}

#[test]
fn signedness_of_primitives_and_operands() {
    assert!(is_signed(PrimitiveTypes::Int8));
    assert!(is_signed(PrimitiveTypes::CInt));
    assert!(!is_signed(PrimitiveTypes::Uint));
    assert!(!is_signed(PrimitiveTypes::Boolean));
    let locals = vec![
        LocalDecl { ty: SoulType::Primitive(PrimitiveTypes::Int32), mutability: TypeModifier::Immut, span: Span { module: 0, start: 0, end: 1 } },
        LocalDecl { ty: SoulType::Primitive(PrimitiveTypes::Uint32), mutability: TypeModifier::Immut, span: Span { module: 0, start: 0, end: 1 } },
    ];
    assert!(operand_is_signed(&locals, &Operand::Copy(Place::local(LocalId(0)))));
    assert!(!operand_is_signed(&locals, &Operand::Move(Place::local(LocalId(1)))));
    assert!(operand_is_signed(&locals, &Operand::Constant(Literal::Int(-1))));
    assert!(!operand_is_signed(&locals, &Operand::Constant(Literal::Uint(1))));
}

#[test]
fn binary_operators_become_integer_instructions() {
    assert_eq!(binary_instruction(BinaryOperatorKind::Div, true), Ok(IntInstruction::SignedDiv));
    assert_eq!(binary_instruction(BinaryOperatorKind::Div, false), Ok(IntInstruction::UnsignedDiv));
    assert_eq!(binary_instruction(BinaryOperatorKind::Mod, false), Ok(IntInstruction::UnsignedRem));
    assert_eq!(binary_instruction(BinaryOperatorKind::Lt, true), Ok(IntInstruction::Compare(IntPredicate::SLT)));
    assert_eq!(binary_instruction(BinaryOperatorKind::Ge, false), Ok(IntInstruction::Compare(IntPredicate::UGE)));
    assert_eq!(binary_instruction(BinaryOperatorKind::LogOr, true), Ok(IntInstruction::Or));
    assert_eq!(
        binary_instruction(BinaryOperatorKind::Pow, true),
        Err(CodegenErrorKind::UnsupportedBinaryOperator { op: BinaryOperatorKind::Pow })
    );
}

#[test]
fn entry_point_exit_code() {
    assert_eq!(entry_point_return(IrType::Int { bits: 1 }), Ok(ExitCodeConversion::ZeroExtend));
    assert_eq!(entry_point_return(IrType::Int { bits: 32 }), Ok(ExitCodeConversion::Keep));
    assert_eq!(entry_point_return(IrType::Int { bits: 64 }), Err(CodegenErrorKind::EntryPointReturnTypeTooWide));
    assert_eq!(entry_point_return(IrType::Ptr), Err(CodegenErrorKind::ExpectedIntOperand));
}

use soul_mir::backend::{extract_exports, FunctionInfo};

#[test]
fn exports_are_named_by_their_dotted_module_path() {
    let m = modules();
    let mut functions = VecMap::new();
    functions.insert(0, FunctionInfo { name: "main".to_string(), from_module: 0 });
    functions.insert(3, FunctionInfo { name: "dot".to_string(), from_module: 2 });
    functions.insert(4, FunctionInfo { name: "main".to_string(), from_module: 0 });
    let exports = extract_exports(&vec![0, 3, 7, 4], &functions, &m, 0);
    // id 7 has no function entry; the second `main` replaces the first.
    assert_eq!(exports, vec![("main".to_string(), 4), ("math.vec.dot".to_string(), 3)]);
}

use soul_mir::codegen::{plan_terminator, TerminatorPlan};
use soul_mir::mir::{ExternFunction, Function, Terminator};

fn platform64() -> PlatformInfo {
    PlatformInfo { pointer_bits: 64, c_int_bits: 32 }
}

fn int_local(n: usize) -> LocalDecl {
    LocalDecl { ty: SoulType::Primitive(PrimitiveTypes::Int), mutability: TypeModifier::Immut, span: Span { module: 0, start: n, end: n + 1 } }
}

fn two_param_function() -> VecMap<Function> {
    let mut functions = VecMap::new();
    functions.insert(
        3,
        Function { id: FunctionId(3), locals: vec![int_local(0), int_local(1), int_local(2)], blocks: vec![], arg_count: 2, return_local: Some(LocalId(2)) },
    );
    functions
}

#[test]
fn switch_on_true_branches_to_the_target_and_otherwise_to_the_fallback() {
    let t = Terminator::SwitchInt {
        discriminant: Operand::Constant(Literal::Bool(true)),
        targets: vec![(Literal::Bool(true), BlockId(1))],
        otherwise: BlockId(2),
    };
    let plan = plan_terminator(&platform64(), None, false, &t, &VecMap::new(), &VecMap::new()).unwrap();
    assert!(matches!(plan, TerminatorPlan::CondBranch { then_block: BlockId(1), else_block: BlockId(2) }));

    let f = Terminator::SwitchInt {
        discriminant: Operand::Constant(Literal::Bool(true)),
        targets: vec![(Literal::Bool(false), BlockId(1))],
        otherwise: BlockId(2),
    };
    let plan = plan_terminator(&platform64(), None, false, &f, &VecMap::new(), &VecMap::new()).unwrap();
    assert!(matches!(plan, TerminatorPlan::CondBranch { then_block: BlockId(2), else_block: BlockId(1) }));
}

#[test]
fn switch_with_other_than_one_bool_target_is_refused() {
    let two = Terminator::SwitchInt {
        discriminant: Operand::Constant(Literal::Int(0)),
        targets: vec![(Literal::Int(1), BlockId(1)), (Literal::Int(2), BlockId(2))],
        otherwise: BlockId(3),
    };
    assert_eq!(
        plan_terminator(&platform64(), None, false, &two, &VecMap::new(), &VecMap::new()).err(),
        Some(CodegenErrorKind::SwitchIntTargetCountUnsupported)
    );
    let int = Terminator::SwitchInt {
        discriminant: Operand::Constant(Literal::Int(0)),
        targets: vec![(Literal::Int(1), BlockId(1))],
        otherwise: BlockId(3),
    };
    assert_eq!(
        plan_terminator(&platform64(), None, false, &int, &VecMap::new(), &VecMap::new()).err(),
        Some(CodegenErrorKind::SwitchIntTargetValueUnsupported)
    );
}

#[test]
fn call_takes_the_parameter_types_of_the_callee() {
    let call = Terminator::Call {
        id: FunctionId(3),
        arguments: vec![Operand::Constant(Literal::Int(1)), Operand::Constant(Literal::Int(2))],
        destination: Some(Place::local(LocalId(0))),
        target: Some(BlockId(1)),
    };
    let plan = plan_terminator(&platform64(), None, false, &call, &two_param_function(), &VecMap::new()).unwrap();
    let TerminatorPlan::Call { param_types, store_result, target } = plan else {
        panic!("expected a call plan");
    };
    assert_eq!(param_types, vec![IrType::Int { bits: 64 }, IrType::Int { bits: 64 }]);
    assert!(store_result);
    assert_eq!(target, Some(BlockId(1)));

    let mut externs = VecMap::new();
    externs.insert(
        4,
        ExternFunction {
            id: FunctionId(4),
            params: vec![SoulType::Reference(Box::new(SoulType::Primitive(PrimitiveTypes::Char)), false)],
            return_type: None,
        },
    );
    let ext = Terminator::Call { id: FunctionId(4), arguments: vec![], destination: None, target: None };
    let plan = plan_terminator(&platform64(), None, false, &ext, &VecMap::new(), &externs).unwrap();
    let TerminatorPlan::Call { param_types, store_result, target } = plan else {
        panic!("expected a call plan");
    };
    assert_eq!(param_types, vec![IrType::Ptr]);
    assert!(!store_result);
    assert_eq!(target, None);
}

#[test]
fn call_faults_on_a_missing_callee_extra_arguments_and_projected_destinations() {
    let missing = Terminator::Call { id: FunctionId(9), arguments: vec![], destination: None, target: None };
    assert_eq!(
        plan_terminator(&platform64(), None, false, &missing, &two_param_function(), &VecMap::new()).err(),
        Some(CodegenErrorKind::CallHasNoMirBody { id: FunctionId(9) })
    );
    let three = Terminator::Call {
        id: FunctionId(3),
        arguments: vec![Operand::Constant(Literal::Int(1)), Operand::Constant(Literal::Int(2)), Operand::Constant(Literal::Int(3))],
        destination: None,
        target: None,
    };
    assert_eq!(
        plan_terminator(&platform64(), None, false, &three, &two_param_function(), &VecMap::new()).err(),
        Some(CodegenErrorKind::CallArgumentCountMismatch { id: FunctionId(3) })
    );
    let projected = Terminator::Call {
        id: FunctionId(3),
        arguments: vec![],
        destination: Some(Place::local(LocalId(0)).project(soul_mir::mir::PlaceElem::Field(0))),
        target: None,
    };
    assert_eq!(
        plan_terminator(&platform64(), None, false, &projected, &two_param_function(), &VecMap::new()).err(),
        Some(CodegenErrorKind::PlaceProjectionUnsupported)
    );
}

#[test]
fn drop_is_refused_and_the_rest_map_one_to_one() {
    let drop = Terminator::Drop { place: Place::local(LocalId(0)), target: BlockId(1) };
    assert_eq!(
        plan_terminator(&platform64(), None, false, &drop, &VecMap::new(), &VecMap::new()).err(),
        Some(CodegenErrorKind::DropUnsupported)
    );
    let goto = plan_terminator(&platform64(), None, false, &Terminator::Goto(BlockId(5)), &VecMap::new(), &VecMap::new()).unwrap();
    assert!(matches!(goto, TerminatorPlan::Branch(BlockId(5))));
    let ret = plan_terminator(&platform64(), None, false, &Terminator::Return, &VecMap::new(), &VecMap::new()).unwrap();
    assert!(matches!(ret, TerminatorPlan::ReturnVoid));
    let main_ret = plan_terminator(&platform64(), None, true, &Terminator::Return, &VecMap::new(), &VecMap::new()).unwrap();
    assert!(matches!(main_ret, TerminatorPlan::ReturnExitZero));
    let valued = plan_terminator(&platform64(), Some(LocalId(2)), true, &Terminator::Return, &VecMap::new(), &VecMap::new()).unwrap();
    assert!(matches!(valued, TerminatorPlan::ReturnValue { local: LocalId(2), exit_code: true }));
}
