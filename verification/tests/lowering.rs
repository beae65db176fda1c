use soul_mir::ast::{
    AstStore, Block, DeclareStore, Expression, ExpressionKind, For, ForCondition, Function as AstFunction,
    FunctionCall, FunctionDeclaration, FunctionKind, FunctionResolve, If, IfBranch, IfCondition, Parameter,
    Signature, Statement as AstStatement, StatementKind, StructDeclaration, Struct, StructField, VarPattern,
    Binding, Variable, Argument,
};
use soul_mir::fault::{MirErrorKind, MirResult, Severity};
use soul_mir::lower::control::{to_mir, MirLowerer};
use soul_mir::lower::LoweringOptions;
use soul_mir::mir::{Function, LocalId, Operand, Rvalue, Statement, Terminator};
use soul_mir::types::{BinaryOperatorKind, FunctionId, Literal, PrimitiveTypes, SoulType, Span, TypeModifier, UnaryOperatorKind};
use soul_mir::vec_map::VecMap;

fn span(start: usize) -> Span {
    Span { module: 0, start, end: start + 1 }
}

fn int_ty() -> SoulType {
    SoulType::Primitive(PrimitiveTypes::Int)
}

fn boolean() -> SoulType {
    SoulType::Primitive(PrimitiveTypes::Boolean)
}

fn set<T>(v: &mut Vec<Option<T>>, i: usize, x: T) {
    while v.len() <= i {
        v.push(None);
    }
    v[i] = Some(x);
}

fn options() -> LoweringOptions {
    LoweringOptions { check_index_out_of_bounds: false, check_overflow: false, pointer_bits: 64, c_int_bits: 32 }
}

/// Builds a resolved program by hand: every expression, variable use and
/// call gets a fresh id, every binding a fresh node id, and the resolver's
/// records are filled in as the parts are made.
struct Fixture {
    declares: DeclareStore,
    store: AstStore,
    next_id: usize,
    next_node: usize,
}

impl Fixture {
    fn new() -> Self {
        Fixture {
            declares: DeclareStore {
                variable_resolves: Vec::new(),
                variable_types: Vec::new(),
                expression_types: Vec::new(),
                functions: VecMap::new(),
                function_resolves: Vec::new(),
                intrinsic_resolves: Vec::new(),
                structs: Vec::new(),
            },
            store: AstStore { functions: VecMap::new() },
            next_id: 0,
            next_node: 0,
        }
    }

    fn id(&mut self) -> usize {
        self.next_id += 1;
        self.next_id
    }

    fn node(&mut self, ty: SoulType) -> usize {
        self.next_node += 1;
        set(&mut self.declares.variable_types, self.next_node, ty);
        self.next_node
    }

    fn param(&mut self, ty: SoulType, modifier: TypeModifier) -> (Parameter, usize) {
        let node = self.node(ty.clone());
        (Parameter { id: node, name_span: span(node), ty, modifier }, node)
    }

    fn expr(&mut self, kind: ExpressionKind) -> Expression {
        let id = self.id();
        Expression { id, span: span(id), kind }
    }

    fn var(&mut self, node: usize) -> Expression {
        let id = self.id();
        set(&mut self.declares.variable_resolves, id, node);
        Expression { id, span: span(id), kind: ExpressionKind::Variable { id } }
    }

    fn lit(&mut self, l: Literal) -> Expression {
        self.expr(ExpressionKind::Literal(l))
    }

    fn bin(&mut self, op: BinaryOperatorKind, left: Expression, right: Expression, ty: SoulType) -> Expression {
        let e = self.expr(ExpressionKind::Binary { op, left: Box::new(left), right: Box::new(right) });
        set(&mut self.declares.expression_types, e.id, ty);
        e
    }

    fn un(&mut self, op: UnaryOperatorKind, value: Expression, ty: SoulType) -> Expression {
        let e = self.expr(ExpressionKind::Unary { op, value: Box::new(value) });
        set(&mut self.declares.expression_types, e.id, ty);
        e
    }

    fn call(&mut self, target: usize, args: Vec<Expression>) -> Expression {
        let id = self.id();
        set(&mut self.declares.function_resolves, id, FunctionResolve { id: FunctionId(target), is_defer: false });
        let arguments = args.into_iter().map(|value| Argument { named: false, value }).collect();
        Expression {
            id,
            span: span(id),
            kind: ExpressionKind::FunctionCall(FunctionCall { id, has_callee: false, has_generics: false, arguments }),
        }
    }

    fn stmt(&mut self, e: Expression) -> AstStatement {
        AstStatement { span: e.span, kind: StatementKind::Expression(e) }
    }

    fn ret(&mut self, value: Option<Expression>) -> AstStatement {
        let e = self.expr(ExpressionKind::Return(value.map(Box::new)));
        self.stmt(e)
    }

    fn let_var(&mut self, ty: SoulType, modifier: TypeModifier, init: Expression) -> (AstStatement, usize) {
        let node = self.node(ty);
        let binding = Binding { id: node, ident: format!("v{node}"), span: span(node) };
        let statement = AstStatement {
            span: span(node),
            kind: StatementKind::Variable(Variable {
                pattern: VarPattern::Simple { binding, modifier },
                initialize_value: Some(init),
            }),
        };
        (statement, node)
    }

    fn assign(&mut self, left: Expression, right: Expression) -> AstStatement {
        AstStatement { span: left.span, kind: StatementKind::Assignment { left, right } }
    }

    fn if_stmt(&mut self, cond: Expression, then: Vec<AstStatement>, otherwise: Option<Vec<AstStatement>>) -> AstStatement {
        let branch = otherwise.map(|statements| Box::new(IfBranch::Else(Block { statements })));
        let e = self.expr(ExpressionKind::If(If {
            condition: IfCondition::Expression(Box::new(cond)),
            block: Block { statements: then },
            branch,
        }));
        self.stmt(e)
    }

    fn while_stmt(&mut self, cond: Option<Expression>, body: Vec<AstStatement>) -> AstStatement {
        let condition = match cond {
            Some(c) => ForCondition::While(Box::new(c)),
            None => ForCondition::Other,
        };
        let e = self.expr(ExpressionKind::For(For { condition, block: Block { statements: body } }));
        self.stmt(e)
    }

    fn brk(&mut self) -> AstStatement {
        let e = self.expr(ExpressionKind::Break);
        self.stmt(e)
    }

    fn cont(&mut self) -> AstStatement {
        let e = self.expr(ExpressionKind::Continue);
        self.stmt(e)
    }

    fn signature(&mut self, id: usize, params: Vec<Parameter>, return_type: SoulType, external_c: bool) -> Signature {
        self.declares.functions.insert(id, FunctionDeclaration { module: 0, return_type: return_type.clone() });
        Signature {
            id: FunctionId(id),
            name: format!("f{id}"),
            name_span: span(1000 + id),
            span: span(2000 + id),
            parameters: params,
            return_type,
            external_c,
        }
    }

    fn function(&mut self, id: usize, params: Vec<Parameter>, return_type: SoulType, body: Vec<AstStatement>) {
        let signature = self.signature(id, params, return_type, false);
        self.store.functions.insert(id, FunctionKind::Normal(AstFunction { signature, body: Block { statements: body } }));
    }

    fn declaration(&mut self, id: usize, params: Vec<Parameter>, return_type: SoulType, external_c: bool) {
        let signature = self.signature(id, params, return_type, external_c);
        self.store.functions.insert(id, FunctionKind::Signature(signature));
    }

    fn declare_struct(&mut self, name: &str, module: usize, fields: Vec<SoulType>) {
        let named = fields.into_iter().enumerate().map(|(i, ty)| (format!("x{i}"), ty)).collect();
        self.declare_struct_named(name, module, named);
    }

    fn declare_struct_named(&mut self, name: &str, module: usize, fields: Vec<(String, SoulType)>) {
        let fields = fields
            .into_iter()
            .map(|(ident, ty)| StructField {
                pattern: VarPattern::Simple {
                    binding: Binding { id: 0, ident, span: span(0) },
                    modifier: TypeModifier::Immut,
                },
                ty: Some(ty),
            })
            .collect();
        self.declares.structs.push(StructDeclaration { module, decl: Struct { name: name.to_string(), fields } });
    }

    /// `struct Point { x: int }`, declared in the module the fixture's
    /// functions are declared in.
    fn declare_point(&mut self) {
        self.declare_struct_named("Point", 0, vec![("x".to_string(), int_ty())]);
    }

    fn lower(&self, id: usize) -> MirResult<Function> {
        let mut lowerer = MirLowerer::new(&self.store, &self.declares, options());
        lowerer.lower_function(FunctionId(id))?;
        let (mut functions, _) = lowerer.into_functions_and_externs();
        Ok(functions.slots[id].take().expect("a lowered function is stored under its id"))
    }
}

fn blocks(mir: &Function) -> Vec<&soul_mir::mir::BasicBlock> {
    mir.blocks.iter().filter_map(|b| b.as_ref()).collect()
}

fn entry(mir: &Function) -> &soul_mir::mir::BasicBlock {
    mir.blocks[0].as_ref().expect("expected an entry block")
}

fn assert_rejected_with(result: &MirResult<Function>, expected: MirErrorKind) {
    let fault = match result {
        Err(fault) => fault,
        Ok(_) => panic!("expected lowering to fail"),
    };
    assert_eq!(fault.kind, expected);
    assert!(fault.span.is_some(), "expected the fault to carry a span");
}

fn assert_rejected_non_primitive(result: &MirResult<Function>) {
    let fault = match result {
        Err(fault) => fault,
        Ok(_) => panic!("expected lowering to fail"),
    };
    assert!(matches!(fault.kind, MirErrorKind::NonPrimitiveType { .. }), "{:?}", fault.kind);
    assert!(fault.span.is_some());
}

// add(a: int, b: int): int { c := a + b; return c }
fn add_function(fx: &mut Fixture, id: usize) {
    let (a, na) = fx.param(int_ty(), TypeModifier::Immut);
    let (b, nb) = fx.param(int_ty(), TypeModifier::Immut);
    let va = fx.var(na);
    let vb = fx.var(nb);
    let sum = fx.bin(BinaryOperatorKind::Add, va, vb, int_ty());
    let (decl, nc) = fx.let_var(int_ty(), TypeModifier::Immut, sum);
    let vc = fx.var(nc);
    let r = fx.ret(Some(vc));
    fx.function(id, vec![a, b], int_ty(), vec![decl, r]);
}

#[test]
fn lowers_arithmetic_with_a_variable_and_a_return() {
    let mut fx = Fixture::new();
    add_function(&mut fx, 1);
    let mir = fx.lower(1).expect("expected successful lowering");

    assert_eq!(mir.arg_count, 2);
    assert_eq!(mir.locals.len(), 4);
    assert_eq!(blocks(&mir).len(), 1);

    let block = entry(&mir);
    assert_eq!(block.statements.len(), 2);
    assert!(matches!(block.terminator, Terminator::Return));

    let Statement::Assign(_, Rvalue::BinaryOp(op, left, right)) = &block.statements[0] else {
        panic!("expected first statement to assign a BinaryOp");
    };
    assert_eq!(*op, BinaryOperatorKind::Add);
    assert!(matches!(left, Operand::Copy(_)));
    assert!(matches!(right, Operand::Copy(_)));

    let Statement::Assign(place, Rvalue::Use(Operand::Copy(_))) = &block.statements[1] else {
        panic!("expected second statement to assign a bare Use(Copy(..))");
    };
    assert_eq!(Some(place.local), mir.return_local);
}

#[test]
fn lowers_a_bare_literal_return() {
    let mut fx = Fixture::new();
    let v = fx.lit(Literal::Uint(42));
    let r = fx.ret(Some(v));
    fx.function(1, vec![], int_ty(), vec![r]);
    let mir = fx.lower(1).expect("expected success");

    let block = entry(&mir);
    assert_eq!(block.statements.len(), 1);
    assert!(matches!(
        &block.statements[0],
        Statement::Assign(_, Rvalue::Use(Operand::Constant(Literal::Uint(42))))
    ));
}

#[test]
fn missing_return_is_rejected() {
    let mut fx = Fixture::new();
    let one = fx.lit(Literal::Uint(1));
    let (decl, _) = fx.let_var(int_ty(), TypeModifier::Immut, one);
    fx.function(1, vec![], int_ty(), vec![decl]);
    assert_rejected_with(&fx.lower(1), MirErrorKind::MissingReturnStatement);
}

// `struct Point { x: int }` with `f(): Point { return Point{x: 1} }`. A
// struct declared in the function's own module is a type this lowering gives
// a local, so the function lowers: the return local is assigned the struct
// aggregate built from the field values.
#[test]
fn non_primitive_return_type_is_rejected() {
    let mut fx = Fixture::new();
    fx.declare_point();
    let one = fx.lit(Literal::Uint(1));
    let value = fx.expr(ExpressionKind::StructConstructor {
        struct_type: SoulType::Stub("Point".to_string()),
        values: vec![("x".to_string(), one)],
        defaults: false,
    });
    let r = fx.ret(Some(value));
    fx.function(1, vec![], SoulType::Stub("Point".to_string()), vec![r]);
    let mir = fx.lower(1).expect("a struct of the function's module is accepted as the return type");
    assert_eq!(mir.return_local, Some(LocalId(0)));
    assert_eq!(mir.locals[0].ty, SoulType::Stub("Point".to_string()));
    let Statement::Assign(target, Rvalue::Aggregate(AggregateKind::Struct, operands)) = &entry(&mir).statements[0] else {
        panic!("expected a struct aggregate");
    };
    assert_eq!(target.local, LocalId(0));
    assert_eq!(operands, &vec![Operand::Constant(Literal::Uint(1))]);
    assert_eq!(entry(&mir).terminator, Terminator::Return);
}

#[test]
fn destructuring_variable_pattern_is_rejected() {
    let mut fx = Fixture::new();
    let node = fx.node(int_ty());
    let init = fx.call(2, vec![]);
    let decl = AstStatement {
        span: span(node),
        kind: StatementKind::Variable(Variable { pattern: VarPattern::Destructure, initialize_value: Some(init) }),
    };
    let va = fx.var(node);
    let r = fx.ret(Some(va));
    fx.function(1, vec![], int_ty(), vec![decl, r]);
    assert_rejected_with(&fx.lower(1), MirErrorKind::NonSimpleVariablePatternUnsupported);
}

// `struct Point { x: int }` with `f(p: Point): int { return p.x }`. The
// struct parameter is accepted (it is declared in the function's module) and
// `p.x` reads field 0 of the parameter's local.
#[test]
fn struct_typed_parameter_is_rejected() {
    let mut fx = Fixture::new();
    fx.declare_point();
    let (p, np) = fx.param(SoulType::Stub("Point".to_string()), TypeModifier::Immut);
    let vp = fx.var(np);
    let field = fx.expr(ExpressionKind::FieldAccess { object: Box::new(vp), field: "x".to_string() });
    let r = fx.ret(Some(field));
    fx.function(1, vec![p], int_ty(), vec![r]);
    let mir = fx.lower(1).expect("a struct parameter of the function's module is accepted");
    assert_eq!(mir.arg_count, 1);
    assert_eq!(mir.locals[0].ty, SoulType::Stub("Point".to_string()));
    let Statement::Assign(target, Rvalue::Use(Operand::Copy(read))) = &entry(&mir).statements[0] else {
        panic!("expected the field to be read");
    };
    assert_eq!(Some(target.local), mir.return_local);
    assert_eq!(read.local, LocalId(0));
    assert_eq!(read.projection, vec![PlaceElem::Field(0)]);
}

#[test]
fn nested_compound_expression_is_lowered_via_a_temporary() {
    let mut fx = Fixture::new();
    let (a, na) = fx.param(int_ty(), TypeModifier::Immut);
    let (b, nb) = fx.param(int_ty(), TypeModifier::Immut);
    let (c, nc) = fx.param(int_ty(), TypeModifier::Immut);
    let va = fx.var(na);
    let vb = fx.var(nb);
    let vc = fx.var(nc);
    let product = fx.bin(BinaryOperatorKind::Mul, vb, vc, int_ty());
    let sum = fx.bin(BinaryOperatorKind::Add, va, product, int_ty());
    let r = fx.ret(Some(sum));
    fx.function(1, vec![a, b, c], int_ty(), vec![r]);
    let mir = fx.lower(1).expect("expected successful lowering");

    assert_eq!(mir.locals.len(), 5);
    let block = entry(&mir);
    assert_eq!(block.statements.len(), 2);

    let Statement::Assign(temp_place, Rvalue::BinaryOp(op, _, _)) = &block.statements[0] else {
        panic!("expected first statement to assign the nested `b * c` to a temp");
    };
    assert_eq!(*op, BinaryOperatorKind::Mul);

    let Statement::Assign(ret_place, Rvalue::BinaryOp(op, _, right)) = &block.statements[1] else {
        panic!("expected second statement to assign the outer `a + ..` to the return local");
    };
    assert_eq!(*op, BinaryOperatorKind::Add);
    assert_eq!(Some(ret_place.local), mir.return_local);
    assert!(matches!(right, Operand::Copy(place) if place.local == temp_place.local));

    let temp_decl = &mir.locals[temp_place.local.0];
    assert_eq!(temp_decl.mutability, TypeModifier::Immut);
}

// g(): int { return 1 }
fn g_returning_one(fx: &mut Fixture, id: usize) {
    let one = fx.lit(Literal::Uint(1));
    let r = fx.ret(Some(one));
    fx.function(id, vec![], int_ty(), vec![r]);
}

#[test]
fn return_of_a_call_result_lowers_via_the_call_terminator() {
    let mut fx = Fixture::new();
    g_returning_one(&mut fx, 2);
    let call = fx.call(2, vec![]);
    let r = fx.ret(Some(call));
    fx.function(1, vec![], int_ty(), vec![r]);
    let mir = fx.lower(1).expect("expected successful lowering");

    assert_eq!(blocks(&mir).len(), 2);
    let first = entry(&mir);
    assert!(first.statements.is_empty());
    let Terminator::Call { arguments, destination, target, .. } = &first.terminator else {
        panic!("expected the entry block to end in a Call");
    };
    assert!(arguments.is_empty());
    let destination_local = destination.as_ref().expect("expected a destination since the call's result is used").local;
    let continuation_id = target.expect("expected a continuation block");
    let continuation = mir.blocks[continuation_id.0].as_ref().expect("expected the continuation block to exist");
    let Statement::Assign(ret_place, Rvalue::Use(Operand::Copy(read_place))) = &continuation.statements[0] else {
        panic!("expected the continuation to read the call's result back");
    };
    assert_eq!(read_place.local, destination_local);
    assert_eq!(Some(ret_place.local), mir.return_local);
    assert!(matches!(continuation.terminator, Terminator::Return));
}

#[test]
fn call_embedded_in_a_larger_expression_splits_the_block() {
    let mut fx = Fixture::new();
    g_returning_one(&mut fx, 2);
    let (a, na) = fx.param(int_ty(), TypeModifier::Immut);
    let va = fx.var(na);
    let call = fx.call(2, vec![]);
    let sum = fx.bin(BinaryOperatorKind::Add, va, call, int_ty());
    let r = fx.ret(Some(sum));
    fx.function(1, vec![a], int_ty(), vec![r]);
    let mir = fx.lower(1).expect("expected successful lowering");

    let all = blocks(&mir);
    assert_eq!(all.len(), 2);
    assert!(matches!(all[0].terminator, Terminator::Call { .. }));
    let Statement::Assign(_, Rvalue::BinaryOp(op, ..)) = &all[1].statements[0] else {
        panic!("expected the continuation to compute `a + <call result>`");
    };
    assert_eq!(*op, BinaryOperatorKind::Add);
    assert!(matches!(all[1].terminator, Terminator::Return));
}

#[test]
fn call_with_multiple_arguments_lowers_each_before_the_call() {
    let mut fx = Fixture::new();
    let (x, nx) = fx.param(int_ty(), TypeModifier::Immut);
    let (y, _) = fx.param(int_ty(), TypeModifier::Immut);
    let vx = fx.var(nx);
    let rg = fx.ret(Some(vx));
    fx.function(2, vec![x, y], int_ty(), vec![rg]);

    let (a, na) = fx.param(int_ty(), TypeModifier::Immut);
    let (b, nb) = fx.param(int_ty(), TypeModifier::Immut);
    let va = fx.var(na);
    let vb = fx.var(nb);
    let one = fx.lit(Literal::Uint(1));
    let b1 = fx.bin(BinaryOperatorKind::Add, vb, one, int_ty());
    let call = fx.call(2, vec![va, b1]);
    let r = fx.ret(Some(call));
    fx.function(1, vec![a, b], int_ty(), vec![r]);
    let mir = fx.lower(1).expect("expected successful lowering");

    let first = entry(&mir);
    assert_eq!(first.statements.len(), 1);
    let Terminator::Call { arguments, .. } = &first.terminator else {
        panic!("expected the entry block to end in a Call");
    };
    assert_eq!(arguments.len(), 2);
}

#[test]
fn bare_statement_call_discards_the_result_even_when_non_none() {
    let mut fx = Fixture::new();
    g_returning_one(&mut fx, 2);
    let call = fx.call(2, vec![]);
    let s = fx.stmt(call);
    fx.function(1, vec![], SoulType::NoneType, vec![s]);
    let mir = fx.lower(1).expect("expected successful lowering");

    let Terminator::Call { destination, .. } = &entry(&mir).terminator else {
        panic!("expected the entry block to end in a Call");
    };
    assert!(destination.is_none());
}

#[test]
fn none_returning_function_can_fall_off_the_end() {
    let mut fx = Fixture::new();
    let one = fx.lit(Literal::Uint(1));
    let (decl, _) = fx.let_var(int_ty(), TypeModifier::Immut, one);
    fx.function(1, vec![], SoulType::NoneType, vec![decl]);
    let mir = fx.lower(1).expect("expected successful lowering");

    assert_eq!(mir.return_local, None);
    assert!(matches!(entry(&mir).terminator, Terminator::Return));
}

#[test]
fn none_returning_function_with_a_bare_return() {
    let mut fx = Fixture::new();
    let t = fx.lit(Literal::Bool(true));
    let r = fx.ret(None);
    let s = fx.if_stmt(t, vec![r], None);
    fx.function(1, vec![], SoulType::NoneType, vec![s]);
    let mir = fx.lower(1).expect("expected successful lowering");
    assert_eq!(mir.return_local, None);
}

#[test]
fn calling_a_none_returning_function_as_a_statement() {
    let mut fx = Fixture::new();
    fx.function(2, vec![], SoulType::NoneType, vec![]);
    let call = fx.call(2, vec![]);
    let s = fx.stmt(call);
    fx.function(1, vec![], SoulType::NoneType, vec![s]);
    let mir = fx.lower(1).expect("expected successful lowering");

    let Terminator::Call { destination, .. } = &entry(&mir).terminator else {
        panic!("expected the entry block to end in a Call");
    };
    assert!(destination.is_none());
}

// `extern "C" printf(fmt: &char): int {}`. An `extern "C"` declaration is
// lowered into the externs, with its parameter and return types, and no
// function with a body is produced for it.
#[test]
fn non_normal_function_is_rejected() {
    let mut fx = Fixture::new();
    let fmt_ty = SoulType::Reference(Box::new(SoulType::Primitive(PrimitiveTypes::Char)), false);
    let (p, _) = fx.param(fmt_ty.clone(), TypeModifier::Immut);
    fx.declaration(1, vec![p], int_ty(), true);
    let mut lowerer = MirLowerer::new(&fx.store, &fx.declares, options());
    let result = lowerer.lower_function(FunctionId(1));
    assert!(result.is_ok(), "{result:?}");
    let (functions, externs) = lowerer.into_functions_and_externs();
    assert_eq!(functions.count(), 0);
    let printf = externs.slots[1].as_ref().expect("the extern is stored under its id");
    assert_eq!(printf.params, vec![fmt_ty]);
    assert_eq!(printf.return_type, Some(int_ty()));
}

fn if_true_return(fx: &mut Fixture, value: u128) -> AstStatement {
    let t = fx.lit(Literal::Bool(true));
    let v = fx.lit(Literal::Uint(value));
    let r = fx.ret(Some(v));
    fx.if_stmt(t, vec![r], None)
}

#[test]
fn if_without_else_joins_after_the_then_branch() {
    let mut fx = Fixture::new();
    let s = if_true_return(&mut fx, 1);
    let two = fx.lit(Literal::Uint(2));
    let r = fx.ret(Some(two));
    fx.function(1, vec![], int_ty(), vec![s, r]);
    let mir = fx.lower(1).expect("expected successful lowering");

    let all = blocks(&mir);
    assert_eq!(all.len(), 3);
    assert_eq!(all.iter().filter(|b| matches!(b.terminator, Terminator::SwitchInt { .. })).count(), 1);
    assert_eq!(all.iter().filter(|b| matches!(b.terminator, Terminator::Return)).count(), 2);
}

fn if_else_both_return(fx: &mut Fixture) -> AstStatement {
    let t = fx.lit(Literal::Bool(true));
    let one = fx.lit(Literal::Uint(1));
    let r1 = fx.ret(Some(one));
    let two = fx.lit(Literal::Uint(2));
    let r2 = fx.ret(Some(two));
    fx.if_stmt(t, vec![r1], Some(vec![r2]))
}

#[test]
fn if_else_where_both_branches_return_has_no_join_block() {
    let mut fx = Fixture::new();
    let s = if_else_both_return(&mut fx);
    fx.function(1, vec![], int_ty(), vec![s]);
    let mir = fx.lower(1).expect("expected successful lowering");
    assert_eq!(blocks(&mir).len(), 3);
}

#[test]
fn statement_after_an_if_else_that_always_returns_is_unreachable() {
    let mut fx = Fixture::new();
    let s = if_else_both_return(&mut fx);
    let three = fx.lit(Literal::Uint(3));
    let r = fx.ret(Some(three));
    fx.function(1, vec![], int_ty(), vec![s, r]);
    assert_rejected_with(&fx.lower(1), MirErrorKind::UnreachableStatement);
}

#[test]
fn unreachable_statement_is_a_warning() {
    let mut fx = Fixture::new();
    let one = fx.lit(Literal::Uint(1));
    let r1 = fx.ret(Some(one));
    let two = fx.lit(Literal::Uint(2));
    let r2 = fx.ret(Some(two));
    fx.function(1, vec![], int_ty(), vec![r1, r2]);
    let fault = fx.lower(1).expect_err("expected lowering to fail");
    assert_eq!(fault.severity, Severity::Warning);
}

#[test]
fn statement_after_a_return_is_unreachable() {
    let mut fx = Fixture::new();
    let one = fx.lit(Literal::Uint(1));
    let r1 = fx.ret(Some(one));
    let two = fx.lit(Literal::Uint(2));
    let r2 = fx.ret(Some(two));
    fx.function(1, vec![], int_ty(), vec![r1, r2]);
    assert_rejected_with(&fx.lower(1), MirErrorKind::UnreachableStatement);
}

#[test]
fn non_bool_if_condition_is_rejected() {
    let mut fx = Fixture::new();
    let c = fx.lit(Literal::Uint(1));
    let one = fx.lit(Literal::Uint(1));
    let r1 = fx.ret(Some(one));
    let s = fx.if_stmt(c, vec![r1], None);
    let two = fx.lit(Literal::Uint(2));
    let r2 = fx.ret(Some(two));
    fx.function(1, vec![], int_ty(), vec![s, r2]);
    assert_rejected_with(&fx.lower(1), MirErrorKind::UnsupportedConditionExpression);
}

fn loop_then_return(fx: &mut Fixture, cond: Option<Expression>, body: Vec<AstStatement>) {
    let w = fx.while_stmt(cond, body);
    let one = fx.lit(Literal::Uint(1));
    let r = fx.ret(Some(one));
    fx.function(1, vec![], int_ty(), vec![w, r]);
}

#[test]
fn while_loop_with_break_reaches_the_exit_block() {
    let mut fx = Fixture::new();
    let t = fx.lit(Literal::Bool(true));
    let b = fx.brk();
    loop_then_return(&mut fx, Some(t), vec![b]);
    let mir = fx.lower(1).expect("expected successful lowering");
    assert_eq!(blocks(&mir).len(), 4);
}

#[test]
fn continue_in_while_body_jumps_back_to_the_header() {
    let mut fx = Fixture::new();
    let t = fx.lit(Literal::Bool(true));
    let c = fx.cont();
    loop_then_return(&mut fx, Some(t), vec![c]);
    let mir = fx.lower(1).expect("expected successful lowering");

    let header_id = mir
        .blocks
        .iter()
        .position(|b| matches!(b, Some(block) if matches!(block.terminator, Terminator::SwitchInt { .. })))
        .expect("expected a header block with a switchInt terminator");
    let continues_to_header = blocks(&mir)
        .iter()
        .any(|b| matches!(b.terminator, Terminator::Goto(target) if target.0 == header_id));
    assert!(continues_to_header);
}

#[test]
fn break_nested_inside_an_if_targets_the_enclosing_loops_exit_block() {
    let mut fx = Fixture::new();
    let t = fx.lit(Literal::Bool(true));
    let inner = fx.lit(Literal::Bool(true));
    let b = fx.brk();
    let s = fx.if_stmt(inner, vec![b], None);
    loop_then_return(&mut fx, Some(t), vec![s]);
    let mir = fx.lower(1).expect("expected successful lowering");

    let header = blocks(&mir)
        .into_iter()
        .find(|b| matches!(b.terminator, Terminator::SwitchInt { .. }))
        .expect("expected a loop header block");
    let Terminator::SwitchInt { otherwise: exit_id, .. } = header.terminator else {
        unreachable!("just matched on SwitchInt above")
    };
    assert!(blocks(&mir).iter().any(|b| matches!(b.terminator, Terminator::Goto(target) if target == exit_id)));
}

#[test]
fn break_outside_a_loop_is_rejected() {
    let mut fx = Fixture::new();
    let b = fx.brk();
    let one = fx.lit(Literal::Uint(1));
    let r = fx.ret(Some(one));
    fx.function(1, vec![], int_ty(), vec![b, r]);
    assert_rejected_with(&fx.lower(1), MirErrorKind::BreakOutsideLoop);
}

#[test]
fn continue_outside_a_loop_is_rejected() {
    let mut fx = Fixture::new();
    let c = fx.cont();
    let one = fx.lit(Literal::Uint(1));
    let r = fx.ret(Some(one));
    fx.function(1, vec![], int_ty(), vec![c, r]);
    assert_rejected_with(&fx.lower(1), MirErrorKind::ContinueOutsideLoop);
}

#[test]
fn bare_for_loop_without_a_condition_is_rejected() {
    let mut fx = Fixture::new();
    let b = fx.brk();
    loop_then_return(&mut fx, None, vec![b]);
    assert_rejected_with(&fx.lower(1), MirErrorKind::UnsupportedLoopCondition);
}

fn if_cond_return(fx: &mut Fixture, params: Vec<Parameter>, cond: Expression) {
    let one = fx.lit(Literal::Uint(1));
    let r1 = fx.ret(Some(one));
    let s = fx.if_stmt(cond, vec![r1], None);
    let two = fx.lit(Literal::Uint(2));
    let r2 = fx.ret(Some(two));
    fx.function(1, params, int_ty(), vec![s, r2]);
}

#[test]
fn comparison_condition_lowers_via_a_temp_into_switch_int() {
    let mut fx = Fixture::new();
    let (a, na) = fx.param(int_ty(), TypeModifier::Immut);
    let (b, nb) = fx.param(int_ty(), TypeModifier::Immut);
    let va = fx.var(na);
    let vb = fx.var(nb);
    let cond = fx.bin(BinaryOperatorKind::Gt, va, vb, boolean());
    if_cond_return(&mut fx, vec![a, b], cond);
    let mir = fx.lower(1).expect("expected successful lowering");

    let first = entry(&mir);
    assert_eq!(first.statements.len(), 1);
    let Statement::Assign(cond_place, Rvalue::BinaryOp(op, _, _)) = &first.statements[0] else {
        panic!("expected the comparison to be assigned to a temp");
    };
    assert_eq!(*op, BinaryOperatorKind::Gt);
    let Terminator::SwitchInt { discriminant, .. } = &first.terminator else {
        panic!("expected the entry block to end in a switchInt");
    };
    assert!(matches!(discriminant, Operand::Copy(place) if place.local == cond_place.local));
}

#[test]
fn logical_and_of_two_comparisons_is_lowered_as_nested_temps() {
    let mut fx = Fixture::new();
    let (a, na) = fx.param(int_ty(), TypeModifier::Immut);
    let (b, nb) = fx.param(int_ty(), TypeModifier::Immut);
    let (c, nc) = fx.param(int_ty(), TypeModifier::Immut);
    let (d, nd) = fx.param(int_ty(), TypeModifier::Immut);
    let va = fx.var(na);
    let vb = fx.var(nb);
    let vc = fx.var(nc);
    let vd = fx.var(nd);
    let gt = fx.bin(BinaryOperatorKind::Gt, va, vb, boolean());
    let lt = fx.bin(BinaryOperatorKind::Lt, vc, vd, boolean());
    let both = fx.bin(BinaryOperatorKind::LogAnd, gt, lt, boolean());
    if_cond_return(&mut fx, vec![a, b, c, d], both);
    let mir = fx.lower(1).expect("expected successful lowering");

    let first = entry(&mir);
    assert_eq!(first.statements.len(), 3);
    let Statement::Assign(_, Rvalue::BinaryOp(op, ..)) = &first.statements[2] else {
        panic!("expected the third statement to combine the two comparisons");
    };
    assert_eq!(*op, BinaryOperatorKind::LogAnd);
}

#[test]
fn bitwise_and_condition_is_rejected_as_non_bool() {
    let mut fx = Fixture::new();
    let (a, na) = fx.param(int_ty(), TypeModifier::Immut);
    let (b, nb) = fx.param(int_ty(), TypeModifier::Immut);
    let va = fx.var(na);
    let vb = fx.var(nb);
    let cond = fx.bin(BinaryOperatorKind::BitAnd, va, vb, int_ty());
    if_cond_return(&mut fx, vec![a, b], cond);
    assert_rejected_with(&fx.lower(1), MirErrorKind::UnsupportedConditionExpression);
}

#[test]
fn bool_variable_condition_lowers_directly_with_no_temp() {
    let mut fx = Fixture::new();
    let (flag, nf) = fx.param(boolean(), TypeModifier::Immut);
    let vf = fx.var(nf);
    if_cond_return(&mut fx, vec![flag], vf);
    let mir = fx.lower(1).expect("expected successful lowering");

    assert_eq!(mir.locals.len(), 2);
    let first = entry(&mir);
    assert_eq!(first.statements.len(), 0);
    let Terminator::SwitchInt { discriminant, .. } = &first.terminator else {
        panic!("expected the entry block to end in a switchInt");
    };
    assert!(matches!(discriminant, Operand::Copy(_)));
}

#[test]
fn non_bool_variable_condition_is_rejected() {
    let mut fx = Fixture::new();
    let (a, na) = fx.param(int_ty(), TypeModifier::Immut);
    let va = fx.var(na);
    if_cond_return(&mut fx, vec![a], va);
    assert_rejected_with(&fx.lower(1), MirErrorKind::UnsupportedConditionExpression);
}

#[test]
fn unary_not_condition_lowers_via_a_temp() {
    let mut fx = Fixture::new();
    let (flag, nf) = fx.param(boolean(), TypeModifier::Immut);
    let vf = fx.var(nf);
    let not = fx.un(UnaryOperatorKind::Not, vf, boolean());
    if_cond_return(&mut fx, vec![flag], not);
    let mir = fx.lower(1).expect("expected successful lowering");

    let first = entry(&mir);
    assert_eq!(first.statements.len(), 1);
    let Statement::Assign(cond_place, Rvalue::UnaryOp(op, _)) = &first.statements[0] else {
        panic!("expected the `!` to be assigned to a temp");
    };
    assert_eq!(*op, UnaryOperatorKind::Not);
    let Terminator::SwitchInt { discriminant, .. } = &first.terminator else {
        panic!("expected the entry block to end in a switchInt");
    };
    assert!(matches!(discriminant, Operand::Copy(place) if place.local == cond_place.local));
}

#[test]
fn not_of_a_comparison_composes_with_the_existing_temp_flattening() {
    let mut fx = Fixture::new();
    let (a, na) = fx.param(int_ty(), TypeModifier::Immut);
    let (b, nb) = fx.param(int_ty(), TypeModifier::Immut);
    let va = fx.var(na);
    let vb = fx.var(nb);
    let gt = fx.bin(BinaryOperatorKind::Gt, va, vb, boolean());
    let not = fx.un(UnaryOperatorKind::Not, gt, boolean());
    if_cond_return(&mut fx, vec![a, b], not);
    let mir = fx.lower(1).expect("expected successful lowering");
    assert_eq!(entry(&mir).statements.len(), 2);
}

#[test]
fn unary_negation_is_rejected() {
    let mut fx = Fixture::new();
    let (a, na) = fx.param(int_ty(), TypeModifier::Immut);
    let va = fx.var(na);
    let neg = fx.un(UnaryOperatorKind::Neg, va, int_ty());
    let r = fx.ret(Some(neg));
    fx.function(1, vec![a], int_ty(), vec![r]);
    assert_rejected_with(&fx.lower(1), MirErrorKind::UnsupportedUnaryOperator);
}

#[test]
fn assignment_to_a_mutable_parameter_reuses_its_existing_local() {
    let mut fx = Fixture::new();
    let (a, na) = fx.param(int_ty(), TypeModifier::Mut);
    let target = fx.var(na);
    let five = fx.lit(Literal::Uint(5));
    let s = fx.assign(target, five);
    let va = fx.var(na);
    let r = fx.ret(Some(va));
    fx.function(1, vec![a], int_ty(), vec![s, r]);
    let mir = fx.lower(1).expect("expected successful lowering");

    assert_eq!(mir.locals.len(), 2);
    let block = entry(&mir);
    assert_eq!(block.statements.len(), 2);
    let Statement::Assign(assign_place, Rvalue::Use(Operand::Constant(_))) = &block.statements[0] else {
        panic!("expected the first statement to assign the constant into `a`'s local");
    };
    let Statement::Assign(_, Rvalue::Use(Operand::Copy(read_place))) = &block.statements[1] else {
        panic!("expected the second statement to read `a` back for the return");
    };
    assert_eq!(assign_place.local, read_place.local);
}

#[test]
fn compound_assignment_is_desugared_into_a_binary_read_of_the_same_local() {
    let mut fx = Fixture::new();
    let (n, nn) = fx.param(int_ty(), TypeModifier::Mut);
    let target = fx.var(nn);
    let current = fx.var(nn);
    let one = fx.lit(Literal::Uint(1));
    let minus = fx.bin(BinaryOperatorKind::Sub, current, one, int_ty());
    let s = fx.assign(target, minus);
    let vn = fx.var(nn);
    let r = fx.ret(Some(vn));
    fx.function(1, vec![n], int_ty(), vec![s, r]);
    let mir = fx.lower(1).expect("expected successful lowering");

    let block = entry(&mir);
    assert_eq!(block.statements.len(), 2);
    let Statement::Assign(assign_place, Rvalue::BinaryOp(op, left, _)) = &block.statements[0] else {
        panic!("expected `n -= 1` to lower to a BinaryOp assignment");
    };
    assert_eq!(*op, BinaryOperatorKind::Sub);
    assert!(matches!(left, Operand::Copy(place) if place.local == assign_place.local));
}

#[test]
fn assignment_to_a_let_declared_local_reuses_its_local() {
    let mut fx = Fixture::new();
    let one = fx.lit(Literal::Uint(1));
    let (decl, nx) = fx.let_var(int_ty(), TypeModifier::Mut, one);
    let target = fx.var(nx);
    let two = fx.lit(Literal::Uint(2));
    let s = fx.assign(target, two);
    let vx = fx.var(nx);
    let r = fx.ret(Some(vx));
    fx.function(1, vec![], int_ty(), vec![decl, s, r]);
    let mir = fx.lower(1).expect("expected successful lowering");
    assert_eq!(mir.locals.len(), 2);
}

// ---------------------------------------------------------------------------
// Lowering a whole program
// ---------------------------------------------------------------------------

#[test]
fn lowers_every_lowerable_function_with_no_errors() {
    let mut fx = Fixture::new();
    add_function(&mut fx, 1);
    let (program, faults) = to_mir(&fx.store, &fx.declares, options());
    assert_eq!(program.functions.count(), 1);
    assert_eq!(faults.len(), 0);
}

fn point_field_function(fx: &mut Fixture, id: usize) {
    let (p, np) = fx.param(SoulType::Stub("Point".to_string()), TypeModifier::Immut);
    let vp = fx.var(np);
    let field = fx.expr(ExpressionKind::FieldAccess { object: Box::new(vp), field: "x".to_string() });
    let r = fx.ret(Some(field));
    fx.function(id, vec![p], int_ty(), vec![r]);
}

// `struct Point { x: int }` with `f(p: Point): int { return p.x }`: the
// struct parameter is accepted, so the whole program lowers without a fault
// and without a panic.
#[test]
fn out_of_scope_function_pushes_a_fault_into_the_context_not_a_panic() {
    let mut fx = Fixture::new();
    fx.declare_point();
    point_field_function(&mut fx, 1);
    let (program, faults) = to_mir(&fx.store, &fx.declares, options());
    assert_eq!(program.functions.count(), 1);
    assert_eq!(faults.iter().filter(|f| f.severity == Severity::Error).count(), 0);
    assert!(faults.is_empty(), "{faults:?}");
}

#[test]
fn extern_c_function_lowers_into_externs_not_functions() {
    let mut fx = Fixture::new();
    let (p, _) = fx.param(SoulType::Reference(Box::new(SoulType::Primitive(PrimitiveTypes::Char)), false), TypeModifier::Immut);
    fx.declaration(1, vec![p], int_ty(), true);
    let (program, faults) = to_mir(&fx.store, &fx.declares, options());
    assert_eq!(program.functions.count(), 0);
    assert_eq!(program.externs.count(), 1);
    assert_eq!(faults.len(), 0);
}

// `struct Point { x: int }`, `okFn(a: int, b: int): int { return a + b }`
// and `badFn(p: Point): int { return p.x }`: both functions are inside the
// slice this lowering supports, so both lower and no fault is reported.
#[test]
fn mixed_program_lowers_what_it_can_and_faults_on_the_rest() {
    let mut fx = Fixture::new();
    fx.declare_point();
    let (a, na) = fx.param(int_ty(), TypeModifier::Immut);
    let (b, nb) = fx.param(int_ty(), TypeModifier::Immut);
    let va = fx.var(na);
    let vb = fx.var(nb);
    let sum = fx.bin(BinaryOperatorKind::Add, va, vb, int_ty());
    let r = fx.ret(Some(sum));
    fx.function(1, vec![a, b], int_ty(), vec![r]);
    point_field_function(&mut fx, 2);
    let (program, faults) = to_mir(&fx.store, &fx.declares, options());
    assert_eq!(program.functions.count(), 2);
    assert_eq!(faults.iter().filter(|f| f.severity == Severity::Error).count(), 0);
}

// ---------------------------------------------------------------------------
// Checks, aggregates, places and the remaining faults
// ---------------------------------------------------------------------------

use soul_mir::ast::IntrinsicFunction;
use soul_mir::mir::{AggregateKind, PlaceElem};
use soul_mir::types::ArrayKind;

fn lower_with(fx: &Fixture, id: usize, options: LoweringOptions) -> MirResult<Function> {
    let mut lowerer = MirLowerer::new(&fx.store, &fx.declares, options);
    lowerer.lower_function(FunctionId(id))?;
    let (mut functions, _) = lowerer.into_functions_and_externs();
    Ok(functions.slots[id].take().unwrap())
}

fn checked() -> LoweringOptions {
    LoweringOptions { check_index_out_of_bounds: true, check_overflow: true, pointer_bits: 64, c_int_bits: 32 }
}

fn binary_return(fx: &mut Fixture, op: BinaryOperatorKind, ty: SoulType) {
    let (a, na) = fx.param(ty.clone(), TypeModifier::Immut);
    let (b, nb) = fx.param(ty.clone(), TypeModifier::Immut);
    let va = fx.var(na);
    let vb = fx.var(nb);
    let e = fx.bin(op, va, vb, ty.clone());
    let r = fx.ret(Some(e));
    fx.function(1, vec![a, b], ty, vec![r]);
}

#[test]
fn checked_addition_asserts_no_overflow_and_reads_the_result_half() {
    let mut fx = Fixture::new();
    binary_return(&mut fx, BinaryOperatorKind::Add, int_ty());
    let mir = lower_with(&fx, 1, checked()).expect("expected successful lowering");

    let all = blocks(&mir);
    assert_eq!(all.len(), 2);
    let Statement::Assign(pair, Rvalue::CheckedBinaryOp(op, _, _)) = &all[0].statements[0] else {
        panic!("expected the sum and its overflow flag computed together");
    };
    assert_eq!(*op, BinaryOperatorKind::Add);
    let Terminator::Assert { cond, expected, msg, .. } = &all[0].terminator else {
        panic!("expected an overflow assert");
    };
    assert!(!expected);
    assert!(matches!(cond, Operand::Copy(p) if p.local == pair.local && p.projection == vec![PlaceElem::Field(1)]));
    assert!(matches!(msg, Operand::Constant(Literal::Str(s)) if s == "attempt to add with overflow"));
    let Statement::Assign(ret, Rvalue::Use(Operand::Copy(read))) = &all[1].statements[0] else {
        panic!("expected the continuation to read the result half");
    };
    assert_eq!(Some(ret.local), mir.return_local);
    assert_eq!(read.local, pair.local);
    assert_eq!(read.projection, vec![PlaceElem::Field(0)]);
}

#[test]
fn unchecked_options_keep_plain_arithmetic() {
    let mut fx = Fixture::new();
    binary_return(&mut fx, BinaryOperatorKind::Mul, int_ty());
    let mir = fx.lower(1).expect("expected successful lowering");
    assert!(matches!(&entry(&mir).statements[0], Statement::Assign(_, Rvalue::BinaryOp(BinaryOperatorKind::Mul, _, _))));
}

#[test]
fn float_arithmetic_is_never_checked() {
    let mut fx = Fixture::new();
    binary_return(&mut fx, BinaryOperatorKind::Add, SoulType::Primitive(PrimitiveTypes::Float64));
    let mir = lower_with(&fx, 1, checked()).expect("expected successful lowering");
    assert_eq!(blocks(&mir).len(), 1);
    assert!(matches!(&entry(&mir).statements[0], Statement::Assign(_, Rvalue::BinaryOp(BinaryOperatorKind::Add, _, _))));
}

#[test]
fn unsigned_division_asserts_a_nonzero_divisor() {
    let mut fx = Fixture::new();
    binary_return(&mut fx, BinaryOperatorKind::Div, SoulType::Primitive(PrimitiveTypes::Uint32));
    let mir = lower_with(&fx, 1, checked()).expect("expected successful lowering");
    // a, b, the return local and the `b == 0` flag.
    assert_eq!(mir.locals.len(), 4);
    assert_eq!(blocks(&mir).len(), 2);
    let Terminator::Assert { expected, msg, .. } = &entry(&mir).terminator else {
        panic!("expected a division-by-zero assert");
    };
    assert!(!expected);
    assert!(matches!(msg, Operand::Constant(Literal::Str(s)) if s == "attempt to divide by zero"));
    let continuation = blocks(&mir)[1];
    assert!(matches!(&continuation.statements[0], Statement::Assign(_, Rvalue::BinaryOp(BinaryOperatorKind::Div, _, _))));
}

#[test]
fn signed_remainder_also_guards_min_by_minus_one() {
    let mut fx = Fixture::new();
    binary_return(&mut fx, BinaryOperatorKind::Mod, SoulType::Primitive(PrimitiveTypes::Int32));
    let mir = lower_with(&fx, 1, checked()).expect("expected successful lowering");
    // a, b, the return local, and four flags.
    assert_eq!(mir.locals.len(), 7);
    assert_eq!(blocks(&mir).len(), 3);
    let asserts = blocks(&mir).iter().filter(|b| matches!(b.terminator, Terminator::Assert { expected: false, .. })).count();
    assert_eq!(asserts, 2);
}

#[test]
fn struct_constructor_follows_the_declared_field_order() {
    let mut fx = Fixture::new();
    fx.declare_struct("Pair", 0, vec![int_ty(), boolean()]);
    let one = fx.lit(Literal::Uint(1));
    let t = fx.lit(Literal::Bool(true));
    let value = fx.expr(ExpressionKind::StructConstructor {
        struct_type: SoulType::Stub("Pair".to_string()),
        values: vec![("x1".to_string(), t), ("x0".to_string(), one)],
        defaults: false,
    });
    let r = fx.ret(Some(value));
    fx.function(1, vec![], SoulType::Stub("Pair".to_string()), vec![r]);
    let mir = fx.lower(1).expect("expected successful lowering");
    let Statement::Assign(_, Rvalue::Aggregate(AggregateKind::Struct, operands)) = &entry(&mir).statements[0] else {
        panic!("expected a struct aggregate");
    };
    assert_eq!(
        operands,
        &vec![Operand::Constant(Literal::Uint(1)), Operand::Constant(Literal::Bool(true))]
    );
}

#[test]
fn struct_constructor_with_defaults_is_rejected() {
    let mut fx = Fixture::new();
    fx.declare_struct("Pair", 0, vec![int_ty(), boolean()]);
    let value = fx.expr(ExpressionKind::StructConstructor {
        struct_type: SoulType::Stub("Pair".to_string()),
        values: vec![],
        defaults: true,
    });
    let r = fx.ret(Some(value));
    fx.function(1, vec![], SoulType::Stub("Pair".to_string()), vec![r]);
    assert_rejected_with(&fx.lower(1), MirErrorKind::StructConstructorDefaultsUnsupported);
}

#[test]
fn field_access_reads_through_a_field_projection() {
    let mut fx = Fixture::new();
    fx.declare_struct_named("Point", 0, vec![("x".to_string(), int_ty()), ("y".to_string(), int_ty())]);
    point_field_function(&mut fx, 1);
    let mir = fx.lower(1).expect("expected successful lowering");
    let Statement::Assign(_, Rvalue::Use(Operand::Copy(read))) = &entry(&mir).statements[0] else {
        panic!("expected the field to be read");
    };
    assert_eq!(read.local.0, 0);
    assert_eq!(read.projection, vec![PlaceElem::Field(0)]);
}

#[test]
fn field_access_of_a_missing_field_is_rejected() {
    let mut fx = Fixture::new();
    fx.declare_struct("Point", 0, vec![int_ty()]);
    let (p, np) = fx.param(SoulType::Stub("Point".to_string()), TypeModifier::Immut);
    let vp = fx.var(np);
    let field = fx.expr(ExpressionKind::FieldAccess { object: Box::new(vp), field: "y".to_string() });
    let r = fx.ret(Some(field));
    fx.function(1, vec![p], int_ty(), vec![r]);
    assert_rejected_with(
        &fx.lower(1),
        MirErrorKind::StructFieldNotFound { struct_name: "Point".to_string(), field: "y".to_string() },
    );
}

fn slice_of_int() -> SoulType {
    SoulType::Array(ArrayKind::ConstSlice, Box::new(int_ty()))
}

#[test]
fn index_with_bounds_checking_asserts_the_index_is_below_the_length() {
    let mut fx = Fixture::new();
    let (s, ns) = fx.param(slice_of_int(), TypeModifier::Immut);
    let (i, ni) = fx.param(SoulType::Primitive(PrimitiveTypes::Uint), TypeModifier::Immut);
    let vs = fx.var(ns);
    let vi = fx.var(ni);
    let index = fx.expr(ExpressionKind::Index { collection: Box::new(vs), index: Box::new(vi) });
    let r = fx.ret(Some(index));
    fx.function(1, vec![s, i], int_ty(), vec![r]);
    let mir = lower_with(&fx, 1, checked()).expect("expected successful lowering");

    let first = entry(&mir);
    assert!(matches!(&first.statements[0], Statement::Assign(_, Rvalue::Len(p)) if p.local.0 == 0));
    assert!(matches!(&first.statements[1], Statement::Assign(_, Rvalue::BinaryOp(BinaryOperatorKind::Lt, _, _))));
    let Terminator::Assert { expected, msg, .. } = &first.terminator else {
        panic!("expected a bounds check");
    };
    assert!(*expected);
    assert!(matches!(msg, Operand::Constant(Literal::Str(s)) if s == "index out of bounds"));
    let read = &blocks(&mir)[1].statements[0];
    assert!(matches!(read, Statement::Assign(_, Rvalue::Use(Operand::Copy(p)))
        if p.local.0 == 0 && p.projection == vec![PlaceElem::Index(soul_mir::mir::LocalId(1))]));
}

#[test]
fn indexing_a_non_slice_is_rejected() {
    let mut fx = Fixture::new();
    let (a, na) = fx.param(int_ty(), TypeModifier::Immut);
    let va = fx.var(na);
    let zero = fx.lit(Literal::Uint(0));
    let index = fx.expr(ExpressionKind::Index { collection: Box::new(va), index: Box::new(zero) });
    let r = fx.ret(Some(index));
    fx.function(1, vec![a], int_ty(), vec![r]);
    assert_rejected_with(&fx.lower(1), MirErrorKind::IndexTargetNotASlice { ty: int_ty() });
}

#[test]
fn array_literal_becomes_an_array_aggregate() {
    let mut fx = Fixture::new();
    let array_ty = SoulType::Array(ArrayKind::StackArray(3), Box::new(int_ty()));
    let items = vec![fx.lit(Literal::Uint(1)), fx.lit(Literal::Uint(2)), fx.lit(Literal::Uint(3))];
    let value = fx.expr(ExpressionKind::ArrayLiteral(items));
    let (decl, _) = fx.let_var(array_ty, TypeModifier::Immut, value);
    let zero = fx.lit(Literal::Uint(0));
    let r = fx.ret(Some(zero));
    fx.function(1, vec![], int_ty(), vec![decl, r]);
    let mir = fx.lower(1).expect("expected successful lowering");
    let Statement::Assign(_, Rvalue::Aggregate(AggregateKind::Array, operands)) = &entry(&mir).statements[0] else {
        panic!("expected an array aggregate");
    };
    assert_eq!(operands.len(), 3);
}

#[test]
fn reference_to_a_fixed_array_is_a_pointer_and_length_pair() {
    let mut fx = Fixture::new();
    let array_ty = SoulType::Array(ArrayKind::StackArray(4), Box::new(int_ty()));
    let (a, na) = fx.param(array_ty, TypeModifier::Immut);
    let va = fx.var(na);
    let r = fx.expr(ExpressionKind::Ref { value: Box::new(va), is_mutable: false });
    let (decl, _) = fx.let_var(slice_of_int(), TypeModifier::Immut, r);
    let zero = fx.lit(Literal::Uint(0));
    let ret = fx.ret(Some(zero));
    fx.function(1, vec![a], int_ty(), vec![decl, ret]);
    let mir = fx.lower(1).expect("expected successful lowering");
    let first = entry(&mir);
    assert!(matches!(&first.statements[0], Statement::Assign(_, Rvalue::Ref { mutable: false, .. })));
    let Statement::Assign(_, Rvalue::Aggregate(AggregateKind::Array, operands)) = &first.statements[1] else {
        panic!("expected the slice pair");
    };
    assert_eq!(operands.len(), 2);
    assert_eq!(operands[1], Operand::Constant(Literal::Uint(4)));
}

#[test]
fn reference_to_a_heap_array_is_rejected() {
    let mut fx = Fixture::new();
    let heap = SoulType::Array(ArrayKind::MutSlice, Box::new(int_ty()));
    let (a, na) = fx.param(heap.clone(), TypeModifier::Immut);
    let va = fx.var(na);
    let r = fx.expr(ExpressionKind::Ref { value: Box::new(va), is_mutable: true });
    let (decl, _) = fx.let_var(heap.clone(), TypeModifier::Immut, r);
    let zero = fx.lit(Literal::Uint(0));
    let ret = fx.ret(Some(zero));
    fx.function(1, vec![a], int_ty(), vec![decl, ret]);
    assert_rejected_with(&fx.lower(1), MirErrorKind::ArrayReferenceUnsupported { ty: heap });
}

fn intrinsic_call(fx: &mut Fixture, kind: IntrinsicFunction, args: Vec<Expression>) -> Expression {
    let e = fx.call(0, args);
    let id = e.id;
    fx.declares.function_resolves[id] = None;
    set(&mut fx.declares.intrinsic_resolves, id, kind);
    e
}

#[test]
fn assert_intrinsic_ends_the_block_with_an_assert() {
    let mut fx = Fixture::new();
    let (flag, nf) = fx.param(boolean(), TypeModifier::Immut);
    let vf = fx.var(nf);
    let call = intrinsic_call(&mut fx, IntrinsicFunction::Assert, vec![vf]);
    let s = fx.stmt(call);
    fx.function(1, vec![flag], SoulType::NoneType, vec![s]);
    let mir = fx.lower(1).expect("expected successful lowering");
    let Terminator::Assert { expected, msg, target, .. } = &entry(&mir).terminator else {
        panic!("expected an assert");
    };
    assert!(*expected);
    assert!(matches!(msg, Operand::Constant(Literal::Str(s)) if s == "assertion failed"));
    assert!(matches!(mir.blocks[target.0].as_ref().unwrap().terminator, Terminator::Return));
}

#[test]
fn panic_intrinsic_always_takes_the_panic_path() {
    let mut fx = Fixture::new();
    let text = fx.lit(Literal::Str("boom".to_string()));
    let call = intrinsic_call(&mut fx, IntrinsicFunction::Panic, vec![text]);
    let s = fx.stmt(call);
    fx.function(1, vec![], SoulType::NoneType, vec![s]);
    let mir = fx.lower(1).expect("expected successful lowering");
    let Terminator::Assert { cond, expected, msg, .. } = &entry(&mir).terminator else {
        panic!("expected an assert");
    };
    assert_eq!(cond, &Operand::Constant(Literal::Bool(false)));
    assert!(*expected);
    assert_eq!(msg, &Operand::Constant(Literal::Str("boom".to_string())));
}

#[test]
fn intrinsic_with_the_wrong_argument_count_is_rejected() {
    let mut fx = Fixture::new();
    let call = intrinsic_call(&mut fx, IntrinsicFunction::Assert, vec![]);
    let s = fx.stmt(call);
    fx.function(1, vec![], SoulType::NoneType, vec![s]);
    assert_rejected_with(
        &fx.lower(1),
        MirErrorKind::IntrinsicArityMismatch { name: "assert".to_string(), expected: 1, got: 0 },
    );
}

#[test]
fn unknown_intrinsic_is_rejected() {
    let mut fx = Fixture::new();
    let call = intrinsic_call(&mut fx, IntrinsicFunction::Other { name: "sizeof".to_string(), arity: 1 }, vec![]);
    let s = fx.stmt(call);
    fx.function(1, vec![], SoulType::NoneType, vec![s]);
    assert_rejected_with(&fx.lower(1), MirErrorKind::UnsupportedIntrinsic { name: "sizeof".to_string() });
}

#[test]
fn return_value_in_a_none_function_is_rejected() {
    let mut fx = Fixture::new();
    let one = fx.lit(Literal::Uint(1));
    let r = fx.ret(Some(one));
    fx.function(1, vec![], SoulType::NoneType, vec![r]);
    assert_rejected_with(&fx.lower(1), MirErrorKind::UnexpectedReturnValue);
}

#[test]
fn uninitialized_variable_is_rejected() {
    let mut fx = Fixture::new();
    let node = fx.node(int_ty());
    let decl = AstStatement {
        span: span(node),
        kind: StatementKind::Variable(Variable {
            pattern: VarPattern::Simple { binding: Binding { id: node, ident: "x".to_string(), span: span(node) }, modifier: TypeModifier::Mut },
            initialize_value: None,
        }),
    };
    fx.function(1, vec![], SoulType::NoneType, vec![decl]);
    assert_rejected_with(&fx.lower(1), MirErrorKind::UninitializedVariableUnsupported);
}

#[test]
fn other_statement_kinds_are_rejected() {
    let mut fx = Fixture::new();
    let s = AstStatement { span: span(5), kind: StatementKind::Other };
    fx.function(1, vec![], SoulType::NoneType, vec![s]);
    assert_rejected_with(&fx.lower(1), MirErrorKind::UnsupportedStatementKind);
}

#[test]
fn call_without_a_resolved_target_is_rejected() {
    let mut fx = Fixture::new();
    let call = fx.call(2, vec![]);
    let id = call.id;
    fx.declares.function_resolves[id] = None;
    let s = fx.stmt(call);
    fx.function(1, vec![], SoulType::NoneType, vec![s]);
    assert_rejected_with(&fx.lower(1), MirErrorKind::FunctionCallHasNoResolvedTarget);
}

#[test]
fn method_call_shape_is_rejected() {
    let mut fx = Fixture::new();
    g_returning_one(&mut fx, 2);
    let mut call = fx.call(2, vec![]);
    if let ExpressionKind::FunctionCall(c) = &mut call.kind {
        c.has_callee = true;
    }
    let s = fx.stmt(call);
    fx.function(1, vec![], SoulType::NoneType, vec![s]);
    assert_rejected_with(&fx.lower(1), MirErrorKind::UnsupportedCallShape);
}

#[test]
fn none_call_used_as_a_value_is_rejected() {
    let mut fx = Fixture::new();
    fx.function(2, vec![], SoulType::NoneType, vec![]);
    let call = fx.call(2, vec![]);
    let one = fx.lit(Literal::Uint(1));
    let sum = fx.bin(BinaryOperatorKind::Add, call, one, int_ty());
    let r = fx.ret(Some(sum));
    fx.function(1, vec![], int_ty(), vec![r]);
    assert_rejected_with(&fx.lower(1), MirErrorKind::CannotUseNoneValueAsOperand);
}

#[test]
fn variable_without_a_binding_is_rejected() {
    let mut fx = Fixture::new();
    let v = fx.var(9);
    let id = v.id;
    fx.declares.variable_resolves[id] = None;
    let r = fx.ret(Some(v));
    fx.function(1, vec![], int_ty(), vec![r]);
    assert_rejected_with(&fx.lower(1), MirErrorKind::VariableHasNoResolvedBinding);
}

#[test]
fn variable_bound_outside_the_function_is_rejected() {
    let mut fx = Fixture::new();
    let node = fx.node(int_ty());
    let v = fx.var(node);
    let r = fx.ret(Some(v));
    fx.function(1, vec![], int_ty(), vec![r]);
    assert_rejected_with(&fx.lower(1), MirErrorKind::VariableNotBoundToLocal);
}

#[test]
fn unsupported_binary_operator_is_rejected() {
    let mut fx = Fixture::new();
    binary_return(&mut fx, BinaryOperatorKind::Pow, int_ty());
    assert_rejected_with(&fx.lower(1), MirErrorKind::UnsupportedBinaryOperator);
}

#[test]
fn nested_expression_without_a_type_is_rejected() {
    let mut fx = Fixture::new();
    let (a, na) = fx.param(int_ty(), TypeModifier::Immut);
    let (b, nb) = fx.param(int_ty(), TypeModifier::Immut);
    let va = fx.var(na);
    let vb = fx.var(nb);
    let inner = fx.bin(BinaryOperatorKind::Mul, va, vb, int_ty());
    let inner_id = inner.id;
    fx.declares.expression_types[inner_id] = None;
    let one = fx.lit(Literal::Uint(1));
    let outer = fx.bin(BinaryOperatorKind::Add, inner, one, int_ty());
    let r = fx.ret(Some(outer));
    fx.function(1, vec![a, b], int_ty(), vec![r]);
    assert_rejected_with(&fx.lower(1), MirErrorKind::NestedExpressionHasNoResolvedType);
}

#[test]
fn assignment_to_a_literal_is_rejected() {
    let mut fx = Fixture::new();
    let target = fx.lit(Literal::Uint(1));
    let two = fx.lit(Literal::Uint(2));
    let s = fx.assign(target, two);
    fx.function(1, vec![], SoulType::NoneType, vec![s]);
    assert_rejected_with(&fx.lower(1), MirErrorKind::AssignmentTargetUnsupported);
}

#[test]
fn a_bare_expression_statement_is_rejected() {
    let mut fx = Fixture::new();
    let one = fx.lit(Literal::Uint(1));
    let s = fx.stmt(one);
    fx.function(1, vec![], SoulType::NoneType, vec![s]);
    assert_rejected_with(&fx.lower(1), MirErrorKind::NonReturnTerminalStatementUnsupported);
}

#[test]
fn parameters_become_the_first_locals_in_order() {
    let mut fx = Fixture::new();
    add_function(&mut fx, 1);
    let mir = fx.lower(1).unwrap();
    assert_eq!(mir.locals[0].ty, int_ty());
    assert_eq!(mir.locals[0].mutability, TypeModifier::Immut);
    assert_eq!(mir.return_local, Some(soul_mir::mir::LocalId(2)));
    assert_eq!(mir.locals[2].mutability, TypeModifier::Mut);
}

// ---------------------------------------------------------------------------
// `match`
// ---------------------------------------------------------------------------

use soul_mir::ast::{MatchArm, MatchPattern};
use soul_mir::mir::BlockId;

fn match_stmt(fx: &mut Fixture, scrutinee: Expression, arms: Vec<(MatchPattern, Vec<AstStatement>)>) -> AstStatement {
    let arms = arms.into_iter().map(|(pattern, statements)| MatchArm { pattern, block: Block { statements } }).collect();
    let e = fx.expr(ExpressionKind::Match { scrutinee: Box::new(scrutinee), arms });
    fx.stmt(e)
}

fn ret_uint(fx: &mut Fixture, value: u128) -> AstStatement {
    let v = fx.lit(Literal::Uint(value));
    fx.ret(Some(v))
}

#[test]
fn match_switches_on_the_scrutinee_to_literal_arms_and_falls_back_to_the_wildcard() {
    let mut fx = Fixture::new();
    let (x, nx) = fx.param(int_ty(), TypeModifier::Immut);
    let vx = fx.var(nx);
    let r10 = ret_uint(&mut fx, 10);
    let r20 = ret_uint(&mut fx, 20);
    let r0 = ret_uint(&mut fx, 0);
    let m = match_stmt(
        &mut fx,
        vx,
        vec![
            (MatchPattern::Literal(Literal::Uint(1)), vec![r10]),
            (MatchPattern::Literal(Literal::Uint(2)), vec![r20]),
            (MatchPattern::Wildcard, vec![r0]),
        ],
    );
    let tail = ret_uint(&mut fx, 7);
    fx.function(1, vec![x], int_ty(), vec![m, tail]);
    let mir = fx.lower(1).expect("expected successful lowering");

    let Terminator::SwitchInt { discriminant, targets, otherwise } = &entry(&mir).terminator else {
        panic!("expected the entry block to end in a SwitchInt");
    };
    assert!(matches!(discriminant, Operand::Copy(p) if p.local == LocalId(0) && p.projection.is_empty()));
    assert_eq!(targets, &vec![(Literal::Uint(1), BlockId(1)), (Literal::Uint(2), BlockId(2))]);
    assert_eq!(*otherwise, BlockId(3));
    for arm in 1..=3 {
        assert_eq!(mir.blocks[arm].as_ref().unwrap().terminator, Terminator::Return);
    }
    // The join block (bb4) is the cursor afterwards and holds the tail.
    assert_eq!(mir.blocks.len(), 5);
    assert_eq!(mir.blocks[4].as_ref().unwrap().terminator, Terminator::Return);
}

#[test]
fn match_arm_that_falls_through_jumps_to_the_join_block() {
    let mut fx = Fixture::new();
    let (x, nx) = fx.param(int_ty(), TypeModifier::Immut);
    let vx = fx.var(nx);
    let m = match_stmt(&mut fx, vx, vec![(MatchPattern::Literal(Literal::Int(-1)), vec![]), (MatchPattern::Wildcard, vec![])]);
    fx.function(1, vec![x], SoulType::NoneType, vec![m]);
    let mir = fx.lower(1).expect("expected successful lowering");
    // bb1 and bb2 are the arms, bb3 the join block.
    assert_eq!(mir.blocks[1].as_ref().unwrap().terminator, Terminator::Goto(BlockId(3)));
    assert_eq!(mir.blocks[2].as_ref().unwrap().terminator, Terminator::Goto(BlockId(3)));
    assert_eq!(mir.blocks[3].as_ref().unwrap().terminator, Terminator::Return);
}

#[test]
fn match_without_a_catch_all_arm_falls_back_to_an_unreachable_block() {
    let mut fx = Fixture::new();
    let (x, nx) = fx.param(int_ty(), TypeModifier::Immut);
    let vx = fx.var(nx);
    let r1 = ret_uint(&mut fx, 1);
    let m = match_stmt(&mut fx, vx, vec![(MatchPattern::Literal(Literal::Char('a')), vec![r1])]);
    let tail = ret_uint(&mut fx, 2);
    fx.function(1, vec![x], int_ty(), vec![m, tail]);
    let mir = fx.lower(1).expect("expected successful lowering");
    // bb1 is the arm, bb2 the join block, bb3 the fallback.
    let Terminator::SwitchInt { targets, otherwise, .. } = &entry(&mir).terminator else {
        panic!("expected the entry block to end in a SwitchInt");
    };
    assert_eq!(targets, &vec![(Literal::Char('a'), BlockId(1)), (Literal::Int(0), BlockId(3))]);
    assert_eq!(*otherwise, BlockId(3));
    assert_eq!(mir.blocks[3].as_ref().unwrap().terminator, Terminator::Unreachable);
}

#[test]
fn match_binding_arm_copies_the_scrutinee_into_a_new_local() {
    let mut fx = Fixture::new();
    let (x, nx) = fx.param(int_ty(), TypeModifier::Immut);
    let vx = fx.var(nx);
    let nb = fx.node(int_ty());
    let binding = Binding { id: nb, ident: "n".to_string(), span: span(nb) };
    let vn = fx.var(nb);
    let r = fx.ret(Some(vn));
    let m = match_stmt(&mut fx, vx, vec![(MatchPattern::Binding(binding), vec![r])]);
    fx.function(1, vec![x], int_ty(), vec![m]);
    // A valued function must not fall off the end: the join block stays
    // the cursor after the match, so this one is refused.
    assert_rejected_with(&fx.lower(1), MirErrorKind::MissingReturnStatement);

    let mut fx = Fixture::new();
    let (x, nx) = fx.param(int_ty(), TypeModifier::Immut);
    let vx = fx.var(nx);
    let nb = fx.node(int_ty());
    let binding = Binding { id: nb, ident: "n".to_string(), span: span(nb) };
    let vn = fx.var(nb);
    let r = fx.ret(Some(vn));
    let m = match_stmt(&mut fx, vx, vec![(MatchPattern::Binding(binding), vec![r])]);
    let tail = ret_uint(&mut fx, 0);
    fx.function(1, vec![x], int_ty(), vec![m, tail]);
    let mir = fx.lower(1).expect("expected successful lowering");
    let Terminator::SwitchInt { targets, otherwise, .. } = &entry(&mir).terminator else {
        panic!("expected the entry block to end in a SwitchInt");
    };
    assert!(targets.is_empty());
    assert_eq!(*otherwise, BlockId(1));
    let arm = mir.blocks[1].as_ref().unwrap();
    // Locals: x, the return local, then n.
    assert_eq!(mir.locals.len(), 3);
    let Statement::Assign(bound, Rvalue::Use(Operand::Copy(from))) = &arm.statements[0] else {
        panic!("expected the binding to be assigned the scrutinee");
    };
    assert_eq!(bound.local, LocalId(2));
    assert_eq!(from.local, LocalId(0));
    let Statement::Assign(ret, Rvalue::Use(Operand::Copy(read))) = &arm.statements[1] else {
        panic!("expected the arm to return the binding");
    };
    assert_eq!(Some(ret.local), mir.return_local);
    assert_eq!(read.local, LocalId(2));
}

#[test]
fn match_on_an_unsupported_pattern_is_rejected() {
    let mut fx = Fixture::new();
    let (x, nx) = fx.param(int_ty(), TypeModifier::Immut);
    let vx = fx.var(nx);
    let m = match_stmt(&mut fx, vx, vec![(MatchPattern::Other, vec![]), (MatchPattern::Wildcard, vec![])]);
    fx.function(1, vec![x], SoulType::NoneType, vec![m]);
    assert_rejected_with(&fx.lower(1), MirErrorKind::UnsupportedMatchPattern);

    let mut fx = Fixture::new();
    let (x, nx) = fx.param(int_ty(), TypeModifier::Immut);
    let vx = fx.var(nx);
    let m = match_stmt(&mut fx, vx, vec![(MatchPattern::Literal(Literal::Str("a".to_string())), vec![])]);
    fx.function(1, vec![x], SoulType::NoneType, vec![m]);
    assert_rejected_with(&fx.lower(1), MirErrorKind::UnsupportedMatchPattern);
}

#[test]
fn match_bool_literal_arm_is_never_taken() {
    let mut fx = Fixture::new();
    let (x, nx) = fx.param(int_ty(), TypeModifier::Immut);
    let vx = fx.var(nx);
    let r = ret_uint(&mut fx, 1);
    let m = match_stmt(&mut fx, vx, vec![(MatchPattern::Literal(Literal::Bool(true)), vec![r]), (MatchPattern::Wildcard, vec![])]);
    fx.function(1, vec![x], SoulType::NoneType, vec![m]);
    let mir = fx.lower(1).expect("expected successful lowering");
    let Terminator::SwitchInt { targets, otherwise, .. } = &entry(&mir).terminator else {
        panic!("expected the entry block to end in a SwitchInt");
    };
    assert!(targets.is_empty());
    assert_eq!(*otherwise, BlockId(2));
    assert!(mir.blocks[1].is_none());
}

#[test]
fn struct_constructor_without_a_value_for_a_field_is_rejected() {
    let mut fx = Fixture::new();
    fx.declare_struct_named("Pair", 0, vec![("a".to_string(), int_ty()), ("b".to_string(), boolean())]);
    let one = fx.lit(Literal::Uint(1));
    let value = fx.expr(ExpressionKind::StructConstructor {
        struct_type: SoulType::Stub("Pair".to_string()),
        values: vec![("a".to_string(), one)],
        defaults: false,
    });
    let r = fx.ret(Some(value));
    fx.function(1, vec![], SoulType::Stub("Pair".to_string()), vec![r]);
    assert_rejected_with(
        &fx.lower(1),
        MirErrorKind::StructFieldNotFound { struct_name: "Pair".to_string(), field: "b".to_string() },
    );
}

#[test]
fn signed_division_checks_the_divisor_and_min_by_minus_one_in_order() {
    let mut fx = Fixture::new();
    let (a, na) = fx.param(SoulType::Primitive(PrimitiveTypes::Int32), TypeModifier::Immut);
    let (b, nb) = fx.param(SoulType::Primitive(PrimitiveTypes::Int32), TypeModifier::Immut);
    let va = fx.var(na);
    let vb = fx.var(nb);
    let q = fx.bin(BinaryOperatorKind::Div, va, vb, SoulType::Primitive(PrimitiveTypes::Int32));
    let r = fx.ret(Some(q));
    fx.function(1, vec![a, b], SoulType::Primitive(PrimitiveTypes::Int32), vec![r]);
    let checked = LoweringOptions { check_overflow: true, ..options() };
    let mir = lower_with(&fx, 1, checked).expect("expected successful lowering");
    // Entry: `b == 0` then an assert; bb1: the MIN / -1 test then an assert;
    // bb2: the division itself and the return.
    let Statement::Assign(_, Rvalue::BinaryOp(BinaryOperatorKind::Eq, Operand::Copy(divisor), Operand::Constant(Literal::Int(0)))) =
        &entry(&mir).statements[0]
    else {
        panic!("expected the zero test of the divisor");
    };
    assert_eq!(divisor.local, LocalId(1));
    assert!(matches!(entry(&mir).terminator, Terminator::Assert { expected: false, target: BlockId(1), .. }));
    let second = mir.blocks[1].as_ref().unwrap();
    assert!(matches!(
        &second.statements[0],
        Statement::Assign(_, Rvalue::BinaryOp(BinaryOperatorKind::Eq, _, Operand::Constant(Literal::Int(-2147483648))))
    ));
    assert!(matches!(second.terminator, Terminator::Assert { expected: false, target: BlockId(2), .. }));
    let last = mir.blocks[2].as_ref().unwrap();
    assert!(matches!(&last.statements[0], Statement::Assign(_, Rvalue::BinaryOp(BinaryOperatorKind::Div, _, _))));
    assert_eq!(last.terminator, Terminator::Return);
}
