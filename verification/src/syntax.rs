//! The unresolved, syntax-level tree the parser builds.
//!
//! Names are still plain strings here; resolution binds each of them to a
//! symbol-table entry and rewrites the tree into the typed form. Every node
//! carries the span of source text it came from.

use vstd::prelude::*;

use crate::ast::IntValue;
use crate::ast::OpVar;
use crate::pos::Span;

verus! {

/// An unresolved expression.
#[derive(Debug)]
pub struct SynExpr {
    pub var: SynExprVariant,
    pub span: Span,
}

#[derive(Debug)]
pub enum SynExprVariant {
    /// An integer literal.
    IntLiteral(IntValue),
    /// A string literal.
    StringLiteral(String),
    /// A use of a name, still unresolved.
    Ident(String),
    BinaryOp(SynBinaryOp),
    UnaryOp(SynUnaryOp),
    /// A call of a named function.
    FunctionCall(SynFunctionCall),
    /// The empty expression, of unit type.
    Empty,
}

#[derive(Debug)]
pub struct SynBinaryOp {
    pub op: OpVar,
    pub lhs: Box<SynExpr>,
    pub rhs: Box<SynExpr>,
}

#[derive(Debug)]
pub struct SynUnaryOp {
    pub op: OpVar,
    pub tgt: Box<SynExpr>,
}

#[derive(Debug)]
pub struct SynFunctionCall {
    pub name: String,
    pub params: Vec<SynExpr>,
}

/// An unresolved statement.
#[derive(Debug)]
pub struct SynStmt {
    pub var: SynStmtVariant,
    pub span: Span,
}

#[derive(Debug)]
pub enum SynStmtVariant {
    If(SynIf),
    While(SynWhile),
    Return(SynExpr),
    Expr(SynExpr),
    /// A variable or constant declaration.
    Decl(SynDecl),
    /// A function declaration.
    FnDecl(SynFnDecl),
    Empty,
}

#[derive(Debug)]
pub struct SynIf {
    pub cond: SynExpr,
    pub if_block: SynBlock,
    pub else_block: Option<SynBlock>,
}

#[derive(Debug)]
pub struct SynWhile {
    pub cond: SynExpr,
    pub block: SynBlock,
}

/// A block: its statements in order; resolution gives it a child scope of
/// its own.
#[derive(Debug)]
pub struct SynBlock {
    pub stmts: Vec<SynStmt>,
    pub span: Span,
}

/// A variable or constant declaration: optional declared type by name,
/// optional initializer.
#[derive(Debug)]
pub struct SynDecl {
    pub name: String,
    pub is_const: bool,
    /// The declared type's name, `None` when the type is inferred from the
    /// initializer.
    pub typ: Option<String>,
    pub init: Option<Box<SynExpr>>,
    pub span: Span,
}

/// One parameter of a function declaration: its name and its type's name.
#[derive(Debug)]
pub struct SynParam {
    pub name: String,
    pub typ: String,
}

/// A function declaration. Its header — name, parameter types and return
/// type — is inserted into the scope before any sibling's body is resolved,
/// so functions may reference each other forward.
#[derive(Debug)]
pub struct SynFnDecl {
    pub name: String,
    pub params: Vec<SynParam>,
    /// The return type's name, `None` for unit.
    pub ret: Option<String>,
    pub body: SynBlock,
    pub span: Span,
}

/// An unresolved program: its top-level statements and declarations in
/// source order.
#[derive(Debug)]
pub struct SynProgram {
    pub stmts: Vec<SynStmt>,
    pub span: Span,
}

} // verus!
