//! The resolved, typed syntax tree.
//!
//! Expressions carry the [`TypeIdent`] resolution computed for them;
//! identifier uses, function calls and field accesses reference symbols,
//! callees and fields by flat integer index, never by name. A [`Program`] is
//! what resolution hands to code generation: the root scope with its arena,
//! the flat variable table, and the closed type universe.

use vstd::prelude::*;

use crate::pos::AstNode;
use crate::pos::Span;
use crate::scope::ScopeArena;
use crate::ty::TypeDef;
use crate::ty::TypeIdent;

verus! {

/// An arbitrary-precision integer literal value: a sign and little-endian
/// 64-bit limbs. Resolution carries the value through without computing on
/// it.
#[derive(Debug, Clone, PartialEq, Eq)]
pub struct IntValue {
    /// Whether the value is negative.
    pub neg: bool,
    /// Magnitude limbs, least significant first; empty means zero.
    pub limbs: Vec<u64>,
}

impl IntValue {
    /// The literal for a small nonnegative value.
    pub fn from_u64(v: u64) -> (r: IntValue)
        ensures
            r.neg == false,
            r.limbs@ == seq![v],
    {
        let mut limbs: Vec<u64> = Vec::new();
        limbs.push(v);
        proof {
            assert(limbs@ =~= seq![v]);
        }
        IntValue { neg: false, limbs }
    }
}

/// A deep copy of an integer literal value.
pub fn int_value_copy(v: &IntValue) -> (r: IntValue)
    ensures
        r.neg == v.neg,
        r.limbs@ == v.limbs@,
{
    IntValue { neg: v.neg, limbs: crate::ty::copy_vec_u64(&v.limbs) }
}

/// A resolved variable definition in the program's flat variable table.
#[derive(Debug, Clone, PartialEq, Eq)]
pub struct VarDef {
    pub typ: TypeDef,
}

/// The resolved program: the root scope inside its arena, the flat variable
/// table, and the closed type universe addressed by [`TypeIdent`].
pub struct Program {
    /// Arena index of the root scope.
    pub scope: usize,
    /// The arena owning every scope and symbol of the program.
    pub arena: ScopeArena,
    /// Flat table of resolved variable definitions.
    pub vars: Vec<VarDef>,
    /// The interned type universe; identity `i` names `types[i]`.
    pub types: Vec<TypeDef>,
}

/// A resolved statement.
#[derive(Debug)]
pub struct Stmt {
    pub var: StmtVariant,
    pub span: Span,
}

#[derive(Debug)]
pub enum StmtVariant {
    Expr(Expr),
    Return(Expr),
    Break(Expr),
    Empty,
}

/// A resolved expression, annotated with the identity of its type.
#[derive(Debug)]
pub struct Expr {
    pub var: ExprVariant,
    /// The resolved type of this expression; `TypeErr`'s identity after a
    /// resolution failure.
    pub typ: TypeIdent,
    pub span: Span,
}

#[derive(Debug)]
pub enum ExprVariant {
    Literal(Literal),
    /// A use of a declared variable, referencing its symbol-table entry by
    /// flat index.
    VarRef(VarRef),
    TypeConversion(TypeConversion),
    UnaryOp(UnaryOp),
    BinaryOp(BinaryOp),
    FunctionCall(FunctionCall),
    StructChild(StructChild),
    ArrayChild(ArrayChild),
    IfConditional(IfConditional),
    WhileConditional(WhileConditional),
    Block(Block),
    Empty,
}

/// A literal value in the typed tree.
#[derive(Debug)]
pub enum Literal {
    Integer { val: IntValue },
    /// A decimal float literal kept exact: mantissa and decimal exponent.
    Float { val: IntValue, exp: u64 },
    Struct { typ: TypeDef, fields: Vec<Expr> },
    Boolean { val: bool },
    String { val: String },
}

/// A use of a declared variable by symbol-table index.
#[derive(Debug, Clone, Copy, PartialEq, Eq, Structural)]
pub struct VarRef {
    pub idx: usize,
}

/// An explicit cast, recording the source type of the converted expression.
#[derive(Debug)]
pub struct TypeConversion {
    pub from: TypeIdent,
    pub expr: Box<Expr>,
}

#[derive(Debug)]
pub struct IfConditional {
    pub cond: Box<Expr>,
    pub if_block: Box<Expr>,
    pub else_block: Option<Box<Expr>>,
}

#[derive(Debug)]
pub struct WhileConditional {
    pub cond: Box<Expr>,
    pub block: Box<Block>,
}

/// A block expression: statements, then an optional tail value.
#[derive(Debug)]
pub struct Block {
    /// Flat indices of the variables declared in this block.
    pub vars: Vec<usize>,
    pub stmts: Vec<Stmt>,
    pub return_type: TypeIdent,
    pub val: Box<Expr>,
}

#[derive(Debug)]
pub struct BinaryOp {
    pub lhs: Box<Expr>,
    pub rhs: Box<Expr>,
    pub op: OpVar,
}

#[derive(Debug)]
pub struct UnaryOp {
    pub tgt: Box<Expr>,
    pub op: OpVar,
}

/// A call of a function, referencing the callee's symbol-table entry by
/// flat index.
#[derive(Debug)]
pub struct FunctionCall {
    pub func: usize,
    pub params: Vec<Expr>,
}

/// A struct field access by field index.
#[derive(Debug, Clone, Copy, PartialEq, Eq, Structural)]
pub struct StructChild {
    pub idx: usize,
}

/// An array element access by index expression.
#[derive(Debug)]
pub struct ArrayChild {
    pub idx: Box<Expr>,
}

/// The operators of the source language, together with the parser-internal
/// markers that drive expression parsing.
#[derive(Debug, Clone, Copy, PartialEq, Eq, Structural)]
pub enum OpVar {
    /// `+`, addition.
    Add,
    /// `-`, subtraction.
    Sub,
    /// `*`, multiplication.
    Mul,
    /// `/`, division.
    Div,
    /// `&&`, logical and.
    And,
    /// `||`, logical or.
    Or,
    /// `^`, xor.
    Xor,
    /// `&`, bitwise and.
    Ban,
    /// `|`, bitwise or.
    Bor,
    /// `>`, greater than.
    Gt,
    /// `<`, less than.
    Lt,
    /// `==`, equal to.
    Eq,
    /// `>=`, greater than or equal to.
    Gte,
    /// `<=`, less than or equal to.
    Lte,
    /// `!=`, not equal to.
    Neq,
    /// `-`, negation.
    Neg,
    /// `!`, boolean inverse.
    Inv,
    /// `~`, bit inverse.
    Bin,
    /// `&`, reference to.
    Ref,
    /// `*`, dereference.
    Der,
    /// `x++`, increase after.
    Ina,
    /// `++x`, increase before.
    Inb,
    /// `x--`, decrease after.
    Dea,
    /// `--x`, decrease before.
    Deb,
    /// Left parenthesis; appears only on the parser's expression stack.
    _Lpr,
    /// Right parenthesis; appears only on the parser's expression stack.
    _Rpr,
    /// Comma; appears only on the parser's expression stack.
    _Com,
    /// Ordinary assignment.
    _Asn,
    /// Constant assignment: the single binding of a `const` declaration,
    /// generated only when a declaration is resolved, so that a constant's
    /// one legal binding is never confused with a later illegal
    /// re-assignment.
    _Csn,
    /// Dummy value.
    _Dum,
}

/// The operators [`OpVar::is_binary`] accepts: the arithmetic and
/// comparison operators and ordinary assignment.
pub open spec fn is_binary_op(op: OpVar) -> bool {
    match op {
        OpVar::Add | OpVar::Sub | OpVar::Mul | OpVar::Div | OpVar::Gt | OpVar::Lt | OpVar::Eq
            | OpVar::Gte | OpVar::Lte | OpVar::Neq | OpVar::_Asn => true,
        _ => false,
    }
}

/// The operators [`OpVar::is_unary`] accepts.
pub open spec fn is_unary_op(op: OpVar) -> bool {
    match op {
        OpVar::Neg | OpVar::Inv | OpVar::Bin | OpVar::Ref | OpVar::Der | OpVar::Ina | OpVar::Inb
            | OpVar::Dea | OpVar::Deb => true,
        _ => false,
    }
}

impl OpVar {
    /// Is this operator a binary operator?
    pub fn is_binary(&self) -> (r: bool)
        ensures
            r == is_binary_op(*self),
    {
        match self {
            OpVar::Add | OpVar::Sub | OpVar::Mul | OpVar::Div | OpVar::Gt | OpVar::Lt
                | OpVar::Eq | OpVar::Gte | OpVar::Lte | OpVar::Neq | OpVar::_Asn => true,
            _ => false,
        }
    }

    /// Is this operator a unary operator?
    pub fn is_unary(&self) -> (r: bool)
        ensures
            r == is_unary_op(*self),
    {
        match self {
            OpVar::Neg | OpVar::Inv | OpVar::Bin | OpVar::Ref | OpVar::Der | OpVar::Ina
                | OpVar::Inb | OpVar::Dea | OpVar::Deb => true,
            _ => false,
        }
    }
}

impl AstNode for Expr {
    fn span(&self) -> Span {
        self.span
    }
}

impl AstNode for Stmt {
    fn span(&self) -> Span {
        self.span
    }
}

} // verus!
