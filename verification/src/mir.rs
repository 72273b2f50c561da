//! The mid-level IR that the LLVM backend lowers: a program of items, each
//! function a control-flow graph of basic blocks over typed locals.
use vstd::prelude::*;
use crate::text::str_eq;

verus! {

/// An AX type as the MIR records it.
#[derive(Debug)]
pub enum Type {
    Bool,
    I32,
    F32,
    String,
    Bytes,
    StringList,
    Slice { element: Box<Type> },
    Array { element: Box<Type>, length: usize },
    Struct { name: String },
    StructInstance { name: String, args: Vec<Type> },
    Enum { name: String },
    EnumInstance { name: String, args: Vec<Type> },
    TypeParam { name: String },
}

/// Two types are the same when they have the same shape and names.
pub open spec fn same_type(a: Type, b: Type) -> bool
    decreases a,
{
    match (a, b) {
        (Type::Bool, Type::Bool) => true,
        (Type::I32, Type::I32) => true,
        (Type::F32, Type::F32) => true,
        (Type::String, Type::String) => true,
        (Type::Bytes, Type::Bytes) => true,
        (Type::StringList, Type::StringList) => true,
        (Type::Slice { element: x }, Type::Slice { element: y }) => same_type(*x, *y),
        (Type::Array { element: x, length: n }, Type::Array { element: y, length: m }) => n == m
            && same_type(*x, *y),
        (Type::Struct { name: x }, Type::Struct { name: y }) => x@ == y@,
        (Type::StructInstance { name: x, args: xs }, Type::StructInstance { name: y, args: ys }) =>
            x@ == y@ && same_types(xs@, ys@),
        (Type::Enum { name: x }, Type::Enum { name: y }) => x@ == y@,
        (Type::EnumInstance { name: x, args: xs }, Type::EnumInstance { name: y, args: ys }) =>
            x@ == y@ && same_types(xs@, ys@),
        (Type::TypeParam { name: x }, Type::TypeParam { name: y }) => x@ == y@,
        _ => false,
    }
}

/// Two type lists are the same when they agree element-wise.
pub open spec fn same_types(xs: Seq<Type>, ys: Seq<Type>) -> bool
    decreases xs,
{
    xs.len() == ys.len() && forall|i: int| 0 <= i < xs.len() ==> same_type(xs[i], ys[i])
}

impl Clone for Type {
    fn clone(&self) -> (r: Self)
        ensures
            same_type(r, *self),
        decreases self, 1nat,
    {
        match self {
            Type::Bool => Type::Bool,
            Type::I32 => Type::I32,
            Type::F32 => Type::F32,
            Type::String => Type::String,
            Type::Bytes => Type::Bytes,
            Type::StringList => Type::StringList,
            Type::Slice { element } => Type::Slice { element: Box::new(clone_type(element)) },
            Type::Array { element, length } => Type::Array {
                element: Box::new(clone_type(element)),
                length: *length,
            },
            Type::Struct { name } => Type::Struct { name: name.clone() },
            Type::StructInstance { name, args } => Type::StructInstance {
                name: name.clone(),
                args: clone_types(args),
            },
            Type::Enum { name } => Type::Enum { name: name.clone() },
            Type::EnumInstance { name, args } => Type::EnumInstance {
                name: name.clone(),
                args: clone_types(args),
            },
            Type::TypeParam { name } => Type::TypeParam { name: name.clone() },
        }
    }
}

/// Type equality is symmetric.
pub proof fn lemma_same_type_symmetric(a: Type, b: Type)
    requires
        same_type(a, b),
    ensures
        same_type(b, a),
    decreases a,
{
    match (a, b) {
        (Type::Slice { element: x }, Type::Slice { element: y }) => lemma_same_type_symmetric(*x, *y),
        (Type::Array { element: x, .. }, Type::Array { element: y, .. }) => lemma_same_type_symmetric(*x, *y),
        (Type::StructInstance { args: xs, .. }, Type::StructInstance { args: ys, .. }) => {
            assert(same_types(xs@, ys@));
            assert forall|i: int| 0 <= i < ys@.len() implies same_type(ys@[i], xs@[i]) by {
                assert(decreases_to!(a => xs));
                assert(decreases_to!(xs => xs@[i]));
                lemma_same_type_symmetric(xs@[i], ys@[i]);
            }
            assert(same_types(ys@, xs@));
        },
        (Type::EnumInstance { args: xs, .. }, Type::EnumInstance { args: ys, .. }) => {
            assert(same_types(xs@, ys@));
            assert forall|i: int| 0 <= i < ys@.len() implies same_type(ys@[i], xs@[i]) by {
                assert(decreases_to!(a => xs));
                assert(decreases_to!(xs => xs@[i]));
                lemma_same_type_symmetric(xs@[i], ys@[i]);
            }
            assert(same_types(ys@, xs@));
        },
        _ => {},
    }
}

/// Type equality is transitive.
pub proof fn lemma_same_type_transitive(a: Type, b: Type, c: Type)
    requires
        same_type(a, b),
        same_type(b, c),
    ensures
        same_type(a, c),
    decreases a,
{
    match (a, b, c) {
        (Type::Slice { element: x }, Type::Slice { element: y }, Type::Slice { element: z }) =>
            lemma_same_type_transitive(*x, *y, *z),
        (
            Type::Array { element: x, .. },
            Type::Array { element: y, .. },
            Type::Array { element: z, .. },
        ) => lemma_same_type_transitive(*x, *y, *z),
        (
            Type::StructInstance { args: xs, .. },
            Type::StructInstance { args: ys, .. },
            Type::StructInstance { args: zs, .. },
        ) => {
            assert(same_types(xs@, ys@));
            assert(same_types(ys@, zs@));
            assert forall|i: int| 0 <= i < xs@.len() implies same_type(xs@[i], zs@[i]) by {
                assert(decreases_to!(a => xs));
                assert(decreases_to!(xs => xs@[i]));
                lemma_same_type_transitive(xs@[i], ys@[i], zs@[i]);
            }
            assert(same_types(xs@, zs@));
        },
        (
            Type::EnumInstance { args: xs, .. },
            Type::EnumInstance { args: ys, .. },
            Type::EnumInstance { args: zs, .. },
        ) => {
            assert(same_types(xs@, ys@));
            assert(same_types(ys@, zs@));
            assert forall|i: int| 0 <= i < xs@.len() implies same_type(xs@[i], zs@[i]) by {
                assert(decreases_to!(a => xs));
                assert(decreases_to!(xs => xs@[i]));
                lemma_same_type_transitive(xs@[i], ys@[i], zs@[i]);
            }
            assert(same_types(xs@, zs@));
        },
        _ => {},
    }
}

/// A copy of a type.
pub fn clone_type(t: &Type) -> (r: Type)
    ensures
        same_type(r, *t),
    decreases t, 2nat,
{
    t.clone()
}

/// A copy of a list of types.
pub fn clone_types(ts: &Vec<Type>) -> (r: Vec<Type>)
    ensures
        same_types(r@, ts@),
    decreases ts, 0nat,
{
    let mut out: Vec<Type> = Vec::new();
    let mut i: usize = 0;
    while i < ts.len()
        invariant
            i <= ts@.len(),
            out@.len() == i,
            forall|j: int| 0 <= j < i ==> same_type(out@[j], ts@[j]),
        decreases ts@.len() - i,
    {
        assert(decreases_to!(ts => ts@[i as int]));
        out.push(clone_type(&ts[i]));
        i += 1;
    }
    out
}

/// Whether two types are the same type.
pub fn type_eq(a: &Type, b: &Type) -> (r: bool)
    ensures
        r == same_type(*a, *b),
    decreases a, 1nat,
{
    match (a, b) {
        (Type::Bool, Type::Bool) => true,
        (Type::I32, Type::I32) => true,
        (Type::F32, Type::F32) => true,
        (Type::String, Type::String) => true,
        (Type::Bytes, Type::Bytes) => true,
        (Type::StringList, Type::StringList) => true,
        (Type::Slice { element: x }, Type::Slice { element: y }) => type_eq(x, y),
        (Type::Array { element: x, length: n }, Type::Array { element: y, length: m }) => *n == *m
            && type_eq(x, y),
        (Type::Struct { name: x }, Type::Struct { name: y }) => str_eq(x.as_str(), y.as_str()),
        (Type::StructInstance { name: x, args: xs }, Type::StructInstance { name: y, args: ys }) =>
            str_eq(x.as_str(), y.as_str()) && types_eq(xs, ys),
        (Type::Enum { name: x }, Type::Enum { name: y }) => str_eq(x.as_str(), y.as_str()),
        (Type::EnumInstance { name: x, args: xs }, Type::EnumInstance { name: y, args: ys }) =>
            str_eq(x.as_str(), y.as_str()) && types_eq(xs, ys),
        (Type::TypeParam { name: x }, Type::TypeParam { name: y }) => str_eq(x.as_str(), y.as_str()),
        _ => false,
    }
}

/// Whether two type lists agree element-wise.
pub fn types_eq(xs: &Vec<Type>, ys: &Vec<Type>) -> (r: bool)
    ensures
        r == same_types(xs@, ys@),
    decreases xs, 0nat,
{
    if xs.len() != ys.len() {
        return false;
    }
    let mut i: usize = 0;
    while i < xs.len()
        invariant
            i <= xs@.len(),
            xs@.len() == ys@.len(),
            forall|j: int| 0 <= j < i ==> same_type(xs@[j], ys@[j]),
        decreases xs@.len() - i,
    {
        assert(decreases_to!(xs => xs@[i as int]));
        if !type_eq(&xs[i], &ys[i]) {
            return false;
        }
        i += 1;
    }
    true
}

/// Whether two optional types are both absent or the same type.
pub fn opt_type_eq(a: &Option<Type>, b: &Option<Type>) -> (r: bool)
    ensures
        r == match (*a, *b) {
            (Some(x), Some(y)) => same_type(x, y),
            (None, None) => true,
            _ => false,
        },
{
    match (a, b) {
        (Some(x), Some(y)) => type_eq(x, y),
        (None, None) => true,
        _ => false,
    }
}

/// A trait bound on a type parameter of a generic function.
#[derive(Debug, Clone)]
pub struct TypeParamBound {
    pub param: String,
    pub bound: String,
}

/// A function parameter and the local that holds it.
#[derive(Debug, Clone)]
pub struct Param {
    pub local: u32,
    pub name: String,
    pub ty: Type,
}

/// A local variable slot of a function.
#[derive(Debug, Clone)]
pub struct Local {
    pub id: u32,
    pub name: String,
    pub ty: Type,
    pub mutable: bool,
}

/// A field of a struct definition.
#[derive(Debug, Clone)]
pub struct StructField {
    pub name: String,
    pub ty: Type,
}

/// A variant of an enum definition, with its payload type if it carries one.
#[derive(Debug, Clone)]
pub struct EnumVariant {
    pub name: String,
    pub payload: Option<Type>,
}

#[derive(Debug, Clone, Copy, PartialEq, Eq, Structural)]
pub enum UnaryOp {
    Negate,
    Not,
}

#[derive(Debug, Clone, Copy, PartialEq, Eq, Structural)]
pub enum BinaryOp {
    LogicalOr,
    LogicalAnd,
    Add,
    Subtract,
    Multiply,
    Divide,
    Remainder,
    Equal,
    NotEqual,
    Less,
    LessEqual,
    Greater,
    GreaterEqual,
}

/// A field initialiser of a struct literal.
#[derive(Debug)]
pub struct StructLiteralField {
    pub name: String,
    pub value: Expr,
}

/// An arm of a `match` expression.
#[derive(Debug)]
pub struct MatchExprArm {
    pub pattern: MatchPattern,
    pub guard: Option<Expr>,
    pub value: Expr,
}

/// What an enum variant pattern does with the payload.
#[derive(Debug, Clone)]
pub enum EnumVariantPayloadPattern {
    Binding { name: String },
    Wildcard,
}

/// A field of a struct pattern, bound to a local by name.
#[derive(Debug, Clone)]
pub struct StructPatternField {
    pub name: String,
    pub binding: String,
    pub ty: Type,
}

/// A `match` pattern.
#[derive(Debug)]
pub enum MatchPattern {
    Wildcard,
    Binding { name: String },
    Bool { value: bool },
    Int { value: i64 },
    IntRange { start: i64, end: i64 },
    String { value: String },
    EnumVariant {
        enum_name: String,
        variant: String,
        payload: Option<EnumVariantPayloadPattern>,
        payload_type: Option<Type>,
    },
    Struct { struct_name: String, fields: Vec<StructPatternField> },
    Or { alternatives: Vec<MatchPattern> },
    Error,
}

/// An expression. Floating-point literals carry the IEEE-754 bits of their
/// `f32` value.
#[derive(Debug)]
pub enum Expr {
    Int { value: i64 },
    Float { bits: u32 },
    Bool { value: bool },
    String { value: String },
    Local { local: u32, name: String },
    Const { name: String },
    Unary { op: UnaryOp, expr: Box<Expr> },
    Binary { op: BinaryOp, left: Box<Expr>, right: Box<Expr> },
    Call { function: String, arguments: Vec<Expr> },
    Try { expr: Box<Expr> },
    ArrayLiteral { elements: Vec<Expr> },
    Index { base: Box<Expr>, index: Box<Expr> },
    Slice { base: Box<Expr>, start: Box<Expr>, end: Box<Expr> },
    StructLiteral { name: String, fields: Vec<StructLiteralField> },
    Field { base: Box<Expr>, field: String },
    EnumVariant { enum_name: String, variant: String, payload: Option<Box<Expr>> },
    MatchTest { scrutinee: Box<Expr>, pattern: MatchPattern },
    EnumPayload { value: Box<Expr> },
    Block { statements: Vec<Statement>, value: Box<Expr> },
    Match { scrutinee: Box<Expr>, arms: Vec<MatchExprArm> },
}

/// An assignable place.
#[derive(Debug)]
pub enum Place {
    Local { local: u32, name: String },
    Field { base: Box<Place>, field: String },
    Index { base: Box<Place>, index: Box<Expr> },
}

/// A statement of a basic block.
#[derive(Debug)]
pub enum Statement {
    Let { local: u32, name: String, ty: Type, initializer: Expr },
    Eval { expr: Expr },
    Assign { target: Place, value: Expr },
}

/// How a basic block ends.
#[derive(Debug)]
pub enum Terminator {
    Goto { target: u32 },
    Branch { condition: Expr, then_block: u32, else_block: u32 },
    Return { value: Expr },
    Unreachable,
}

/// A basic block: straight-line statements and a terminator.
#[derive(Debug)]
pub struct BasicBlock {
    pub id: u32,
    pub statements: Vec<Statement>,
    pub terminator: Terminator,
}

/// A function definition.
#[derive(Debug)]
pub struct Function {
    pub name: String,
    pub type_params: Vec<String>,
    pub type_param_bounds: Vec<TypeParamBound>,
    pub params: Vec<Param>,
    pub return_type: Type,
    pub locals: Vec<Local>,
    pub entry_block: u32,
    pub blocks: Vec<BasicBlock>,
}

/// A top-level item.
#[derive(Debug)]
pub enum Item {
    Function(Function),
    Const { name: String, ty: Type, value: Expr },
    Struct { name: String, type_params: Vec<String>, fields: Vec<StructField> },
    Enum { name: String, type_params: Vec<String>, variants: Vec<EnumVariant> },
}

/// A whole program.
#[derive(Debug)]
pub struct Program {
    pub items: Vec<Item>,
}

} // verus!
