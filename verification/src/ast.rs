//! The syntax tree of a workflow program, as the parser gives it to the
//! compiler.

use vstd::prelude::*;

verus! {

/// A name.
#[derive(Debug, Clone)]
pub struct Ident(pub String);

/// A literal value. A real number is held as its IEEE-754 binary64 bit
/// pattern.
#[derive(Debug, Clone)]
pub enum Lit {
    Boolean(bool),
    Integer(i64),
    Real(u64),
    String(String),
    Unit,
}

/// The binary operators.
#[derive(Debug, Clone, Copy, PartialEq, Eq, Structural)]
pub enum BinOp {
    And,
    Or,
    Add,
    Sub,
    Mul,
    Div,
    Eq,
    Ne,
    Lt,
    Le,
    Gt,
    Ge,
    /// A property or method of an instance.
    Dot,
}

/// The unary operators.
#[derive(Debug, Clone, Copy, PartialEq, Eq, Structural)]
pub enum UnOp {
    Not,
    Neg,
}

/// An expression.
#[derive(Debug)]
pub enum Expr {
    Binary { operator: BinOp, lhs_operand: Box<Expr>, rhs_operand: Box<Expr> },
    Unary { operator: UnOp, operand: Box<Expr> },
    Literal(Lit),
    Ident(Ident),
    Call { function: Ident, arguments: Vec<Expr> },
    /// An instance of a class; each property is an assignment.
    Instance { class: Ident, properties: Vec<Stmt> },
    Array(Vec<Expr>),
    Index { array: Box<Expr>, index: Box<Expr> },
    /// A pattern, which the parser turns into calls before compiling.
    Pattern(Vec<Expr>),
}

/// A statement.
#[derive(Debug)]
pub enum Stmt {
    Import { package: Ident },
    /// A class; each method is a function declaration.
    DeclareClass { ident: Ident, properties: Vec<(Ident, Ident)>, methods: Vec<(Ident, Stmt)> },
    Assign(Ident, Expr),
    LetAssign(Ident, Expr),
    Block(Vec<Stmt>),
    For { initializer: Box<Stmt>, condition: Expr, increment: Box<Stmt>, consequent: Vec<Stmt> },
    While { condition: Expr, consequent: Vec<Stmt> },
    If { condition: Expr, consequent: Vec<Stmt>, alternative: Option<Vec<Stmt>> },
    Expr(Expr),
    /// A property of a class, which only stands inside a class declaration.
    Property { ident: Ident, class: Ident },
    Return(Option<Expr>),
    DeclareFunc { ident: Ident, params: Vec<Ident>, body: Vec<Stmt> },
    On { location: Expr, block: Vec<Stmt> },
    Parallel { let_assign: Option<Ident>, blocks: Vec<Stmt> },
}

} // verus!
