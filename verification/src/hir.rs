//! The typed program that the C front end hands over.
//!
//! Types carry what the front end computed about them: their size and
//! alignment, or the reason why they have none, and how they are rendered in
//! diagnostics.

use crate::error::{CompileError, Location};
use vstd::prelude::*;

verus! {

/// A C type.
pub struct Type {
    pub kind: TypeKind,
    /// Size in bytes, or why the type has none.
    pub size: Result<u64, String>,
    /// Alignment in bytes, or why the type has none.
    pub align: Result<u64, String>,
    /// Whether a single value of the type can be initialized and assigned.
    pub scalar: bool,
    /// How the type is rendered in diagnostics.
    pub repr: String,
}

/// The families of C types. The flag of an integer type says whether it is signed.
pub enum TypeKind {
    Void,
    Bool,
    Char(bool),
    Short(bool),
    Int(bool),
    Long(bool),
    Float,
    Double,
    Pointer(Box<Type>),
    Array(Box<Type>, ArrayType),
    Function(FunctionType),
    Struct(Vec<Field>),
    Union(Vec<Field>),
    Enum,
    VaList,
    Error,
}

/// The length of an array.
pub enum ArrayType {
    Unbounded,
    Fixed(u64),
    Variable(Box<Expr>),
}

/// A function type.
pub struct FunctionType {
    pub return_type: Box<Type>,
    pub params: Vec<Symbol>,
    pub varargs: bool,
}

/// A member of a struct or union.
pub struct Field {
    pub id: u32,
    pub ctype: Type,
}

/// Where a declared name lives.
#[derive(Debug, Clone, Copy, PartialEq, Eq, Structural)]
pub enum StorageClass {
    Static,
    Extern,
    Auto,
    Register,
    Typedef,
}

/// A declared name. Two mentions of one declaration have the same key.
pub struct Symbol {
    pub key: u32,
    pub name: String,
    pub ctype: Box<Type>,
    pub storage_class: StorageClass,
    pub is_const: bool,
    /// How the symbol is rendered in diagnostics.
    pub repr: String,
}

/// A typed expression.
pub struct Expr {
    pub expr: ExprType,
    pub ctype: Type,
    pub location: Location,
    /// How the expression is rendered in diagnostics.
    pub repr: String,
}

/// The forms of expressions.
pub enum ExprType {
    Id(Symbol),
    Literal(LiteralValue),
    FuncCall(Box<Expr>, Vec<Expr>),
    Member(Box<Expr>, u32),
    /// `++` where the flag is set, `--` where it is not.
    PostIncrement(Box<Expr>, bool),
    /// The value inside, converted to the type of this expression. In place of
    /// an lvalue it stands for the object inside, at the type that the object
    /// has there.
    Cast(Box<Expr>),
    Sizeof(Box<Type>),
    Deref(Box<Expr>),
    Negate(Box<Expr>),
    BitwiseNot(Box<Expr>),
    Binary(BinaryOp, Box<Expr>, Box<Expr>),
    Ternary(Box<Expr>, Box<Expr>, Box<Expr>),
    Comma(Box<Expr>, Box<Expr>),
    StaticRef(Box<Expr>),
    /// The value inside as it is, read at the type of this expression. In
    /// place of an lvalue it stands for the object inside, at the type that
    /// the object has there.
    Noop(Box<Expr>),
}

/// A constant.
pub enum LiteralValue {
    Int(i64),
    UnsignedInt(u64),
    Char(u8),
    /// A number by the bits of its double- and single-precision forms.
    Float { double_bits: u64, single_bits: u32 },
    Str(Vec<u8>),
}

/// Binary operators.
#[derive(Debug, Clone, Copy, PartialEq, Eq, Structural)]
pub enum BinaryOp {
    LogicalOr,
    BitwiseOr,
    LogicalAnd,
    BitwiseAnd,
    Xor,
    Mul,
    Div,
    Mod,
    Add,
    Sub,
    Shl,
    Shr,
    Compare(ComparisonToken),
    Assign,
}

/// Comparison operators.
#[derive(Debug, Clone, Copy, PartialEq, Eq, Structural)]
pub enum ComparisonToken {
    Less,
    Greater,
    EqualEqual,
    NotEqual,
    LessEqual,
    GreaterEqual,
}

/// A statement.
pub struct Stmt {
    pub data: StmtType,
    pub location: Location,
}

/// The forms of statements.
pub enum StmtType {
    Compound(Vec<Stmt>),
    If(Box<Expr>, Box<Stmt>, Option<Box<Stmt>>),
    Do(Box<Stmt>, Box<Expr>),
    While(Box<Expr>, Box<Stmt>),
    For(Box<Stmt>, Option<Box<Expr>>, Option<Box<Expr>>, Box<Stmt>),
    Switch(Box<Expr>, Box<Stmt>),
    Label(u32, Box<Stmt>),
    Case(u64, Box<Stmt>),
    Default(Box<Stmt>),
    Expr(Box<Expr>),
    Goto(u32),
    Continue,
    Break,
    Return(Option<Box<Expr>>),
    Decl(Vec<Declaration>),
}

/// A declaration of one name.
pub struct Declaration {
    pub symbol: Symbol,
    pub init: Option<Initializer>,
    pub location: Location,
}

/// What a declared name is initialized with.
pub enum Initializer {
    Scalar(Box<ScalarInitializer>),
    InitializerList(Vec<Initializer>),
    /// A gap that designated initializers leave.
    Zero,
    FunctionBody(Vec<Stmt>),
}

/// An initializing expression, with what the front end's constant folding
/// makes of it.
pub struct ScalarInitializer {
    pub expression: Expr,
    pub folded: Result<Expr, CompileError>,
    /// Whether the folded expression is a zero.
    pub folded_is_zero: bool,
}

} // verus!
