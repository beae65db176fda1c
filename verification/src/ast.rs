//! The name-resolved, type-checked source tree that MIR lowering reads, and
//! the declarations the resolver recorded about it.

use vstd::prelude::*;
use vstd::string::*;

use crate::types::{
    BinaryOperatorKind, FunctionId, Literal, SoulType, Span, TypeModifier, UnaryOperatorKind,
};
use crate::vec_map::VecMap;

verus! {

pub struct Expression {
    /// The id the resolver keys this expression's recorded type by.
    pub id: usize,
    pub span: Span,
    pub kind: ExpressionKind,
}

pub enum ExpressionKind {
    Literal(Literal),
    /// A use of a variable; `id` keys the resolver's binding for it.
    Variable { id: usize },
    FieldAccess { object: Box<Expression>, field: String },
    Index { collection: Box<Expression>, index: Box<Expression> },
    Binary { op: BinaryOperatorKind, left: Box<Expression>, right: Box<Expression> },
    Unary { op: UnaryOperatorKind, value: Box<Expression> },
    FunctionCall(FunctionCall),
    StructConstructor { struct_type: SoulType, values: Vec<(String, Expression)>, defaults: bool },
    /// `&value` (mutable) or `@value`.
    Ref { value: Box<Expression>, is_mutable: bool },
    ArrayLiteral(Vec<Expression>),
    Return(Option<Box<Expression>>),
    If(If),
    For(For),
    /// `match scrutinee { pattern => { .. } .. }`.
    Match { scrutinee: Box<Expression>, arms: Vec<MatchArm> },
    Break,
    Continue,
    /// Every other expression form.
    Other,
}

pub struct FunctionCall {
    /// The id the resolver keys this call's target by.
    pub id: usize,
    /// `receiver.name(..)` rather than a free call.
    pub has_callee: bool,
    pub has_generics: bool,
    pub arguments: Vec<Argument>,
}

pub struct Argument {
    /// `name: value` rather than a positional argument.
    pub named: bool,
    pub value: Expression,
}

pub struct If {
    pub condition: IfCondition,
    pub block: Block,
    pub branch: Option<Box<IfBranch>>,
}

pub enum IfCondition {
    Expression(Box<Expression>),
    /// A pattern-matching condition.
    Other,
}

pub enum IfBranch {
    Else(Block),
    ElseIf(If),
}

pub struct MatchArm {
    pub pattern: MatchPattern,
    pub block: Block,
}

pub enum MatchPattern {
    /// A literal value to compare the scrutinee with.
    Literal(Literal),
    /// `_`: matches anything.
    Wildcard,
    /// A name that matches anything and is bound to the scrutinee.
    Binding(Binding),
    /// Every other pattern form (arrays, union constructors).
    Other,
}

pub struct For {
    pub condition: ForCondition,
    pub block: Block,
}

pub enum ForCondition {
    /// `for <cond> { .. }`, a while-loop.
    While(Box<Expression>),
    /// A bare `for { .. }` or a `for x in ..` loop.
    Other,
}

pub struct Block {
    pub statements: Vec<Statement>,
}

pub struct Statement {
    pub span: Span,
    pub kind: StatementKind,
}

pub enum StatementKind {
    Variable(Variable),
    Assignment { left: Expression, right: Expression },
    Expression(Expression),
    /// Every other statement form.
    Other,
}

pub struct Variable {
    pub pattern: VarPattern,
    pub initialize_value: Option<Expression>,
}

pub struct Binding {
    /// The node id variable uses resolve to.
    pub id: usize,
    pub ident: String,
    pub span: Span,
}

pub enum VarPattern {
    Simple { binding: Binding, modifier: TypeModifier },
    /// A destructuring pattern.
    Destructure,
}

pub struct Parameter {
    /// The node id variable uses resolve to.
    pub id: usize,
    pub name_span: Span,
    pub ty: SoulType,
    pub modifier: TypeModifier,
}

pub struct Signature {
    pub id: FunctionId,
    pub name: String,
    pub name_span: Span,
    pub span: Span,
    pub parameters: Vec<Parameter>,
    pub return_type: SoulType,
    /// Declared `extern "C"`.
    pub external_c: bool,
}

pub struct Function {
    pub signature: Signature,
    pub body: Block,
}

pub enum FunctionKind {
    Normal(Function),
    /// A declaration with no body.
    Signature(Signature),
}

pub struct StructField {
    pub pattern: VarPattern,
    pub ty: Option<SoulType>,
}

pub struct Struct {
    pub name: String,
    pub fields: Vec<StructField>,
}

pub struct StructDeclaration {
    pub module: usize,
    pub decl: Struct,
}

pub struct FunctionDeclaration {
    pub module: usize,
    pub return_type: SoulType,
}

#[derive(Debug, Clone, Copy, PartialEq, Eq, Structural)]
pub struct FunctionResolve {
    pub id: FunctionId,
    pub is_defer: bool,
}

pub enum IntrinsicFunction {
    Assert,
    Panic,
    /// Any other intrinsic, with its name and argument count.
    Other { name: String, arity: usize },
}

impl IntrinsicFunction {
    pub open spec fn spec_name(&self) -> Seq<char> {
        match self {
            IntrinsicFunction::Assert => seq!['a', 's', 's', 'e', 'r', 't'],
            IntrinsicFunction::Panic => seq!['p', 'a', 'n', 'i', 'c'],
            IntrinsicFunction::Other { name, .. } => name@,
        }
    }

    pub open spec fn spec_arity(&self) -> usize {
        match self {
            IntrinsicFunction::Assert => 1,
            IntrinsicFunction::Panic => 1,
            IntrinsicFunction::Other { arity, .. } => *arity,
        }
    }

    pub fn as_string(&self) -> (res: String)
        ensures
            res@ == self.spec_name(),
    {
        match self {
            IntrinsicFunction::Assert => {
                let s = String::from_str("assert");
                proof {
                    reveal_strlit("assert");
                }
                assert(s@ =~= self.spec_name());
                s
            },
            IntrinsicFunction::Panic => {
                let s = String::from_str("panic");
                proof {
                    reveal_strlit("panic");
                }
                assert(s@ =~= self.spec_name());
                s
            },
            IntrinsicFunction::Other { name, .. } => name.clone(),
        }
    }

    pub fn arity(&self) -> (res: usize)
        ensures
            res == self.spec_arity(),
    {
        match self {
            IntrinsicFunction::Assert => 1,
            IntrinsicFunction::Panic => 1,
            IntrinsicFunction::Other { arity, .. } => *arity,
        }
    }
}

/// The first struct named `name` declared in `module`, searching from index `i`.
pub open spec fn find_struct(structs: Seq<StructDeclaration>, name: Seq<char>, module: usize, i: int) -> Option<int>
    decreases structs.len() - i,
{
    if i < 0 || i >= structs.len() {
        None
    } else if structs[i].module == module && structs[i].decl.name@ == name {
        Some(i)
    } else {
        find_struct(structs, name, module, i + 1)
    }
}

/// What the resolver recorded about the program, keyed by node ids.
pub struct DeclareStore {
    /// For each variable-use id, the node id of the binding it resolves to.
    pub variable_resolves: Vec<Option<usize>>,
    /// For each binding node id, its resolved type.
    pub variable_types: Vec<Option<SoulType>>,
    /// For each expression id, its resolved type.
    pub expression_types: Vec<Option<SoulType>>,
    /// For each function id, where it is declared and what it returns.
    pub functions: VecMap<FunctionDeclaration>,
    /// For each call id, the function it calls.
    pub function_resolves: Vec<Option<FunctionResolve>>,
    /// For each call id that names an intrinsic, which one.
    pub intrinsic_resolves: Vec<Option<IntrinsicFunction>>,
    pub structs: Vec<StructDeclaration>,
}

pub open spec fn seq_get<T>(s: Seq<Option<T>>, i: int) -> Option<T> {
    if 0 <= i < s.len() {
        s[i]
    } else {
        None
    }
}

impl DeclareStore {
    pub fn get_variable_resolve(&self, id: usize) -> (res: Option<usize>)
        ensures
            res == seq_get(self.variable_resolves@, id as int),
    {
        if id < self.variable_resolves.len() {
            self.variable_resolves[id]
        } else {
            None
        }
    }

    pub fn get_variable_type(&self, id: usize) -> (res: Option<&SoulType>)
        ensures
            res matches Some(t) ==> seq_get(self.variable_types@, id as int) == Some(*t),
            res is None ==> seq_get(self.variable_types@, id as int) is None,
    {
        if id < self.variable_types.len() {
            match &self.variable_types[id] {
                Some(t) => Some(t),
                None => None,
            }
        } else {
            None
        }
    }

    pub fn get_expression_type(&self, id: usize) -> (res: Option<&SoulType>)
        ensures
            res matches Some(t) ==> seq_get(self.expression_types@, id as int) == Some(*t),
            res is None ==> seq_get(self.expression_types@, id as int) is None,
    {
        if id < self.expression_types.len() {
            match &self.expression_types[id] {
                Some(t) => Some(t),
                None => None,
            }
        } else {
            None
        }
    }

    pub fn get_function(&self, id: FunctionId) -> (res: Option<&FunctionDeclaration>)
        ensures
            res matches Some(d) ==> self.functions.spec_get(id.0 as int) == Some(*d),
            res is None ==> self.functions.spec_get(id.0 as int) is None,
    {
        self.functions.get(id.0)
    }

    pub fn get_function_resolve(&self, id: usize) -> (res: Option<FunctionResolve>)
        ensures
            res == seq_get(self.function_resolves@, id as int),
    {
        if id < self.function_resolves.len() {
            self.function_resolves[id]
        } else {
            None
        }
    }

    pub fn get_intrinsic_resolve(&self, id: usize) -> (res: Option<&IntrinsicFunction>)
        ensures
            res matches Some(k) ==> seq_get(self.intrinsic_resolves@, id as int) == Some(*k),
            res is None ==> seq_get(self.intrinsic_resolves@, id as int) is None,
    {
        if id < self.intrinsic_resolves.len() {
            match &self.intrinsic_resolves[id] {
                Some(k) => Some(k),
                None => None,
            }
        } else {
            None
        }
    }

    /// The first struct named `name` declared in `module`.
    pub fn get_struct_by_name(&self, name: &String, module: usize) -> (res: Option<&Struct>)
        ensures
            match find_struct(self.structs@, name@, module, 0) {
                Some(i) => res == Some(&self.structs@[i].decl),
                None => res is None,
            },
    {
        let mut i: usize = 0;
        while i < self.structs.len()
            invariant
                i <= self.structs@.len(),
                find_struct(self.structs@, name@, module, 0) == find_struct(
                    self.structs@,
                    name@,
                    module,
                    i as int,
                ),
            decreases self.structs.len() - i,
        {
            let entry = &self.structs[i];
            if entry.module == module && entry.decl.name == *name {
                return Some(&entry.decl);
            }
            i = i + 1;
        }
        None
    }
}

pub struct AstStore {
    pub functions: VecMap<FunctionKind>,
}

} // verus!
