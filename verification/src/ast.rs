//! The syntax tree that the checker and the evaluator consume.

use vstd::prelude::*;

verus! {

/// Write permission attached to a reference.
#[derive(Clone, Copy, Debug, PartialEq, Eq, Structural)]
pub enum Mode {
    ReadOnly,
    Mutable,
}

/// A named field of a record type.
#[derive(Debug)]
pub struct FieldType {
    pub name: String,
    pub ty: Type,
}

/// The type of a value or of a binding.
#[derive(Debug)]
pub enum Type {
    Integer,
    Record(Vec<FieldType>),
    Reference(Box<Type>, Mode),
}

/// Binary operators on integers; `Eq` and `Ne` also compare records and booleans.
#[derive(Clone, Copy, Debug, PartialEq, Eq, Structural)]
pub enum BinOp {
    Add,
    Sub,
    Mul,
    Eq,
    Ne,
    Lt,
    Le,
    Gt,
    Ge,
}

/// One field of a record literal.
#[derive(Debug)]
pub struct FieldInit {
    pub name: String,
    pub value: Expr,
}

/// An expression.
#[derive(Debug)]
pub enum Expr {
    Int(i64),
    Var(String),
    Field(Box<Expr>, String),
    Binary(BinOp, Box<Expr>, Box<Expr>),
    Call(String, Vec<Expr>),
    Record(Vec<FieldInit>),
}

/// The target of an assignment: a root binding followed by field projections.
#[derive(Debug)]
pub struct Place {
    pub root: String,
    pub path: Vec<String>,
}

/// What a statement does.
#[derive(Debug)]
pub enum StmtKind {
    /// Introduces a new local binding, shadowing any earlier one of that name.
    Let(String, Expr),
    Assign(Place, Expr),
    If(Expr, Vec<Stmt>, Vec<Stmt>),
    Return(Expr),
    /// Runtime assertion.
    Check(Expr),
    /// An expression evaluated for its effects.
    Eval(Expr),
}

/// A statement together with the source line it came from.
#[derive(Debug)]
pub struct Stmt {
    pub line: u32,
    pub kind: StmtKind,
}

/// A parameter of a function.
#[derive(Debug)]
pub struct Param {
    pub name: String,
    pub ty: Type,
}

/// A function declaration.
#[derive(Debug)]
pub struct Function {
    pub name: String,
    pub params: Vec<Param>,
    /// The type of the value returned; `None` for a function that returns nothing.
    pub ret: Option<Type>,
    pub body: Vec<Stmt>,
}

/// A compilation unit. Its entry point is the function named `main`.
#[derive(Debug)]
pub struct Program {
    pub name: String,
    pub functions: Vec<Function>,
}

/// The mode a binding of type `ty` is recorded with: read-only exactly for a
/// read-only reference, writable for everything else.
pub open spec fn mode_of_type(ty: Type) -> Mode {
    match ty {
        Type::Reference(_, Mode::ReadOnly) => Mode::ReadOnly,
        _ => Mode::Mutable,
    }
}

/// The mode a binding of type `ty` is recorded with.
pub fn type_mode(ty: &Type) -> (m: Mode)
    ensures
        m == mode_of_type(*ty),
{
    match ty {
        Type::Reference(_, Mode::ReadOnly) => Mode::ReadOnly,
        _ => Mode::Mutable,
    }
}

} // verus!
