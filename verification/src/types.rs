//! The source-level vocabulary that MIR lowering reads: spans, primitive
//! types, operators, literals and the (unresolved) `SoulType` of a value.

use vstd::prelude::*;

verus! {

/// A source range inside one module.
#[derive(Debug, Clone, Copy, PartialEq, Eq, Structural)]
pub struct Span {
    pub module: usize,
    pub start: usize,
    pub end: usize,
}

/// Identifies a function declaration.
#[derive(Debug, Clone, Copy, PartialEq, Eq, Hash, Structural)]
pub struct FunctionId(pub usize);

/// The built-in scalar types.
#[derive(Debug, Clone, Copy, PartialEq, Eq, Structural)]
pub enum PrimitiveTypes {
    Boolean,
    Char,
    Char8,
    Char16,
    Char32,
    Char64,
    CStr,
    Int,
    Int8,
    Int16,
    Int32,
    Int64,
    Int128,
    Uint,
    Uint8,
    Uint16,
    Uint32,
    Uint64,
    Uint128,
    UntypedInt,
    UntypedUint,
    UntypedFloat,
    CInt,
    CUint,
    Float16,
    Float32,
    Float64,
}

#[derive(Debug, Clone, Copy, PartialEq, Eq, Structural)]
pub enum BinaryOperatorKind {
    Invalid,
    Add,
    Sub,
    Mul,
    Div,
    Mod,
    Pow,
    Root,
    Log,
    BitAnd,
    BitOr,
    BitXor,
    LogAnd,
    LogOr,
    Eq,
    NotEq,
    Lt,
    Gt,
    Le,
    Ge,
    Range,
    TypeOf,
}

#[derive(Debug, Clone, Copy, PartialEq, Eq, Structural)]
pub enum UnaryOperatorKind {
    Invalid,
    Neg,
    Not,
    Increment { before: bool },
    Decrement { before: bool },
}

/// How a binding may be used after it is declared.
#[derive(Debug, Clone, Copy, PartialEq, Eq, Structural)]
pub enum TypeModifier {
    Mut,
    Immut,
    Const,
}

/// The storage shape of an array type: `[N]T`, `[_]T`, `[*]T`, `[&mut]T`, `[&]T`.
#[derive(Debug, Clone, Copy, PartialEq, Eq, Structural)]
pub enum ArrayKind {
    StackArray(u64),
    StackArrayWildcard,
    HeapArray,
    MutSlice,
    ConstSlice,
}

/// A compile-time constant. A float constant is carried as its IEEE 754 bit pattern.
#[derive(Debug, PartialEq, Eq)]
pub enum Literal {
    Bool(bool),
    Int(i128),
    Uint(u128),
    Float(u64),
    Char(char),
    Str(String),
}

/// A constant with its text as a sequence of characters.
pub enum LiteralV {
    Bool(bool),
    Int(i128),
    Uint(u128),
    Float(u64),
    Char(char),
    Str(Seq<char>),
}

impl View for Literal {
    type V = LiteralV;

    open spec fn view(&self) -> LiteralV {
        match self {
            Literal::Bool(b) => LiteralV::Bool(*b),
            Literal::Int(n) => LiteralV::Int(*n),
            Literal::Uint(n) => LiteralV::Uint(*n),
            Literal::Float(bits) => LiteralV::Float(*bits),
            Literal::Char(c) => LiteralV::Char(*c),
            Literal::Str(t) => LiteralV::Str(t@),
        }
    }
}

impl Clone for Literal {
    fn clone(&self) -> (res: Self)
        ensures
            res == *self,
    {
        match self {
            Literal::Bool(b) => Literal::Bool(*b),
            Literal::Int(n) => Literal::Int(*n),
            Literal::Uint(n) => Literal::Uint(*n),
            Literal::Float(bits) => Literal::Float(*bits),
            Literal::Char(c) => Literal::Char(*c),
            Literal::Str(s) => Literal::Str(s.clone()),
        }
    }
}

/// The declared type of a value, as written in the source (struct types are
/// still bare names that lowering resolves against the declarations).
#[derive(Debug, PartialEq, Eq)]
pub enum SoulType {
    NoneType,
    Primitive(PrimitiveTypes),
    /// A named type (a struct, enum, trait or generic) not yet resolved.
    Stub(String),
    Array(ArrayKind, Box<SoulType>),
    Reference(Box<SoulType>, bool),
    Pointer(Box<SoulType>),
    Tuple(TypeList),
    /// Every other type form (optionals, function types, ...).
    Other,
}

/// The element types of a tuple type, in order.
#[derive(Debug, PartialEq, Eq)]
pub enum TypeList {
    Empty,
    Cons(Box<SoulType>, Box<TypeList>),
}

impl TypeList {
    /// The element types as a sequence.
    pub open spec fn types(self) -> Seq<SoulType>
        decreases self,
    {
        match self {
            TypeList::Empty => Seq::empty(),
            TypeList::Cons(head, tail) => seq![*head] + tail.types(),
        }
    }

    /// The element type at `index`, if the tuple has that many elements.
    pub fn get(&self, index: usize) -> (res: Option<&SoulType>)
        ensures
            index < self.types().len() ==> res == Some(&self.types()[index as int]),
            index >= self.types().len() ==> res is None,
        decreases self,
    {
        match self {
            TypeList::Empty => None,
            TypeList::Cons(head, tail) => {
                if index == 0 {
                    Some(&**head)
                } else {
                    let res = tail.get(index - 1);
                    assert(self.types() =~= seq![**head] + tail.types());
                    res
                }
            },
        }
    }

    /// The list holding `a` then `b`.
    pub fn pair(a: SoulType, b: SoulType) -> (res: TypeList)
        ensures
            res.types() =~= seq![a, b],
            res == TypeList::Cons(Box::new(a), Box::new(TypeList::Cons(Box::new(b), Box::new(TypeList::Empty)))),
    {
        let res = TypeList::Cons(Box::new(a), Box::new(TypeList::Cons(Box::new(b), Box::new(TypeList::Empty))));
        proof {
            let tail = TypeList::Cons(Box::new(b), Box::new(TypeList::Empty));
            assert(TypeList::Empty.types() =~= Seq::<SoulType>::empty());
            assert(tail.types() =~= seq![b] + Seq::<SoulType>::empty());
            assert(tail.types() =~= seq![b]);
            assert(res.types() =~= seq![a] + tail.types());
        }
        res
    }

    pub fn clone_list(&self) -> (res: TypeList)
        ensures
            res == *self,
        decreases self,
    {
        match self {
            TypeList::Empty => TypeList::Empty,
            TypeList::Cons(head, tail) => TypeList::Cons(
                Box::new((**head).clone_type()),
                Box::new((**tail).clone_list()),
            ),
        }
    }
}

impl SoulType {
    pub fn clone_type(&self) -> (res: SoulType)
        ensures
            res == *self,
        decreases self,
    {
        match self {
            SoulType::NoneType => SoulType::NoneType,
            SoulType::Primitive(p) => SoulType::Primitive(*p),
            SoulType::Stub(name) => SoulType::Stub(name.clone()),
            SoulType::Array(kind, of) => SoulType::Array(*kind, Box::new((**of).clone_type())),
            SoulType::Reference(inner, mutable) => SoulType::Reference(
                Box::new((**inner).clone_type()),
                *mutable,
            ),
            SoulType::Pointer(inner) => SoulType::Pointer(Box::new((**inner).clone_type())),
            SoulType::Tuple(types) => SoulType::Tuple(types.clone_list()),
            SoulType::Other => SoulType::Other,
        }
    }

    /// Whether this is exactly the primitive `prim`.
    pub fn is_primitive_kind(&self, prim: PrimitiveTypes) -> (res: bool)
        ensures
            res == (*self == SoulType::Primitive(prim)),
    {
        match self {
            SoulType::Primitive(p) => *p == prim,
            _ => false,
        }
    }
}

impl Clone for SoulType {
    fn clone(&self) -> (res: Self)
        ensures
            res == *self,
    {
        self.clone_type()
    }
}

impl Clone for TypeList {
    fn clone(&self) -> (res: Self)
        ensures
            res == *self,
    {
        self.clone_list()
    }
}

} // verus!
