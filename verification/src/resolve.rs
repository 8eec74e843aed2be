//! Untyped-to-typed resolution.
//!
//! The resolver walks the syntax-level tree in source order, binding every
//! name through the scope chain, checking every operator against a fixed
//! table of permitted operand types, and interning every type it meets. A
//! declaration's name is inserted as soon as its head is seen; function
//! headers of a statement list are all inserted before any body is
//! resolved, so functions may reference each other forward. Every local
//! failure — an undeclared identifier, a type mismatch, a re-assigned
//! constant — degrades the offending node's type to `TypeErr`, appends one
//! diagnostic, and lets the pass continue: one run reports every error, in
//! source order, and never drops a diagnostic it has recorded.

use vstd::prelude::*;

use crate::ast::is_binary_op;
use crate::ast::Block;
use crate::ast::Expr;
use crate::ast::ExprVariant;
use crate::ast::Literal;
use crate::ast::OpVar;
use crate::ast::Program;
use crate::ast::Stmt;
use crate::ast::StmtVariant;
use crate::ast::VarDef;
use crate::ast::VarRef;
use crate::pos::Span;
use crate::scope::lemma_entries_lookup_push;
use crate::scope::map_entries;
use crate::scope::valid_ident;
use crate::scope::ScopeArena;
use crate::scope::ScopeError;
use crate::scope::SymbolDef;
use crate::syntax::SynBlock;
use crate::syntax::SynDecl;
use crate::syntax::SynExpr;
use crate::syntax::SynExprVariant;
use crate::syntax::SynFnDecl;
use crate::syntax::SynProgram;
use crate::syntax::SynStmt;
use crate::syntax::SynStmtVariant;
use crate::ty::lemma_td_components_mono;
use crate::ty::lemma_td_eq_components;
use crate::ty::td_components_lt;
use crate::ty::td_copy;
use crate::ty::td_eq;
use crate::ty::FunctionType;
use crate::ty::PrimitiveType;
use crate::ty::PrimitiveTypeVar;
use crate::ty::RefType;
use crate::ty::TypeDef;
use crate::ty::TypeIdent;
use crate::ty::TypeRegistry;
use crate::ty::TYPE_ERR_IDENT;
use crate::ty::UNIT_IDENT;

verus! {

/// What went wrong at one place of the program.
#[derive(Debug, Clone, Copy, PartialEq, Eq, Structural)]
pub enum DiagKind {
    /// A name was used that no enclosing scope binds.
    UndeclaredIdentifier,
    /// An operator met operand types the table does not permit, or an
    /// assignment's sides disagree.
    TypeMismatch,
    /// An ordinary assignment against a `const` binding.
    ConstReassignment,
    /// A declaration clashed with a name already bound in the same scope.
    NameConflict,
    /// A declared name misses the identifier grammar.
    InvalidName,
    /// An entry was found but is of the wrong kind, a type name standing
    /// for a value or the reverse.
    InvalidSymbol,
}

/// One collected diagnostic: what went wrong, and the span it happened at.
#[derive(Debug, Clone, Copy, PartialEq, Eq, Structural)]
pub struct Diagnostic {
    pub kind: DiagKind,
    pub span: Span,
}

/// The tag of a symbol-table entry's stored type, whichever kind of entry
/// it is.
pub open spec fn sym_typ(s: SymbolDef) -> TypeDef {
    match s {
        SymbolDef::Typ { def } => def,
        SymbolDef::Var { typ, is_const, is_callable } => typ,
    }
}

/// The resolution pass's state: the scope arena being filled, the type
/// registry, the flat variable table, and every diagnostic collected so
/// far.
pub struct Resolver {
    pub arena: ScopeArena,
    pub registry: TypeRegistry,
    pub errors: Vec<Diagnostic>,
    pub vars: Vec<VarDef>,
    /// Identity of the pre-interned unit type.
    pub unit_ty: TypeIdent,
    /// Identity of the pre-interned boolean type.
    pub bool_ty: TypeIdent,
    /// Identity of the pre-interned integer-literal type.
    pub int_ty: TypeIdent,
    /// Identity of the pre-interned string-literal type.
    pub str_ty: TypeIdent,
}

/// Names never disappear: whatever a scope's own map binds before a step,
/// it still binds after it, since scope maps only ever grow.
pub open spec fn locals_preserved(pre: ScopeArena, post: ScopeArena) -> bool {
    forall|sc: int, n: Seq<char>|
        0 <= sc < pre.scopes@.len() && #[trigger] pre.lookup_local_spec(sc, n) is Some
            ==> #[trigger] post.lookup_local_spec(sc, n) is Some
}

/// What every resolution step preserves: diagnostics and interned types are
/// only ever appended, the pre-interned identities stay fixed, the arena
/// only grows, and no scope forgets a name it already bound.
pub open spec fn frame(pre: Resolver, post: Resolver) -> bool {
    &&& pre.errors@.is_prefix_of(post.errors@)
    &&& pre.registry.types@.is_prefix_of(post.registry.types@)
    &&& post.unit_ty == pre.unit_ty
    &&& post.bool_ty == pre.bool_ty
    &&& post.int_ty == pre.int_ty
    &&& post.str_ty == pre.str_ty
    &&& pre.arena.scopes@.len() <= post.arena.scopes@.len()
    &&& pre.arena.symbols@.len() <= post.arena.symbols@.len()
    &&& pre.vars@.len() <= post.vars@.len()
    &&& locals_preserved(pre.arena, post.arena)
}

/// A prefix of a prefix is a prefix.
pub proof fn lemma_prefix_trans<A>(a: Seq<A>, b: Seq<A>, c: Seq<A>)
    requires
        a.is_prefix_of(b),
        b.is_prefix_of(c),
    ensures
        a.is_prefix_of(c),
{
    assert forall|i: int| 0 <= i < a.len() implies a[i] == c[i] by {
        assert(a[i] == b.subrange(0, a.len() as int)[i]);
        assert(b[i] == c.subrange(0, b.len() as int)[i]);
    }
    assert(a =~= c.subrange(0, a.len() as int));
}

/// An element of a prefix is the same element of the longer sequence.
pub proof fn lemma_prefix_index<A>(a: Seq<A>, b: Seq<A>, i: int)
    requires
        a.is_prefix_of(b),
        0 <= i < a.len(),
    ensures
        a[i] == b[i],
{
    assert(a[i] == b.subrange(0, a.len() as int)[i]);
}

/// The frame relation composes across successive steps.
pub proof fn lemma_frame_trans(a: Resolver, b: Resolver, c: Resolver)
    requires
        frame(a, b),
        frame(b, c),
    ensures
        frame(a, c),
{
    lemma_prefix_trans(a.errors@, b.errors@, c.errors@);
    lemma_prefix_trans(a.registry.types@, b.registry.types@, c.registry.types@);
    assert forall|sc: int, n: Seq<char>|
        0 <= sc < a.arena.scopes@.len() && #[trigger] a.arena.lookup_local_spec(sc, n) is Some
            implies #[trigger] c.arena.lookup_local_spec(sc, n) is Some by {
        assert(b.arena.lookup_local_spec(sc, n) is Some);
    }
}

impl Resolver {
    /// The resolver's invariant: arena and registry are well formed, the
    /// pre-interned identities exist, and every type a symbol-table entry
    /// stores mentions only interned identities.
    pub open spec fn wf(self) -> bool {
        &&& self.arena.wf()
        &&& self.registry.wf()
        &&& (TYPE_ERR_IDENT as int) < self.registry.types@.len()
        &&& (self.unit_ty as int) < self.registry.types@.len()
        &&& (self.bool_ty as int) < self.registry.types@.len()
        &&& (self.int_ty as int) < self.registry.types@.len()
        &&& (self.str_ty as int) < self.registry.types@.len()
        &&& self.registry.types@[TYPE_ERR_IDENT as int] == TypeDef::TypeErr
        &&& self.registry.types@[self.unit_ty as int] == TypeDef::Unit
        &&& self.registry.types@[self.bool_ty as int] == TypeDef::Primitive(
            PrimitiveType { occupy_bytes: 1usize, var: PrimitiveTypeVar::UnsignedInt },
        )
        &&& self.registry.types@[self.int_ty as int] == TypeDef::Primitive(
            PrimitiveType { occupy_bytes: 8usize, var: PrimitiveTypeVar::SignedInt },
        )
        &&& self.registry.types@[self.str_ty as int] is Ref
        &&& forall|i: int|
            0 <= i < self.arena.symbols@.len() ==> td_components_lt(
                sym_typ(#[trigger] self.arena.symbols@[i]),
                self.registry.types@.len() as int,
            )
    }

    /// A fresh resolver: no scopes, no symbols, no diagnostics, and a
    /// registry holding the sentinels plus the boolean, integer-literal and
    /// string-literal types.
    pub fn new() -> (r: Resolver)
        ensures
            r.wf(),
            r.arena.scopes@.len() == 0,
            r.arena.symbols@.len() == 0,
            r.errors@.len() == 0,
            r.vars@.len() == 0,
            r.unit_ty == UNIT_IDENT,
            r.registry.types@[r.bool_ty as int] == TypeDef::Primitive(
                PrimitiveType { occupy_bytes: 1usize, var: PrimitiveTypeVar::UnsignedInt },
            ),
            r.registry.types@[r.int_ty as int] == TypeDef::Primitive(
                PrimitiveType { occupy_bytes: 8usize, var: PrimitiveTypeVar::SignedInt },
            ),
            r.bool_ty != TYPE_ERR_IDENT,
            r.int_ty != TYPE_ERR_IDENT,
            r.str_ty != TYPE_ERR_IDENT,
    {
        let mut registry = TypeRegistry::new();
        let bool_ty = registry.intern(
            TypeDef::Primitive(PrimitiveType { occupy_bytes: 1, var: PrimitiveTypeVar::UnsignedInt }),
        );
        let int_ty = registry.intern(
            TypeDef::Primitive(PrimitiveType { occupy_bytes: 8, var: PrimitiveTypeVar::SignedInt }),
        );
        // A string literal is a reference to its 1-byte character data.
        let str_ty = registry.intern(TypeDef::Ref(RefType { target: bool_ty }));
        Resolver {
            arena: ScopeArena::new(),
            registry,
            errors: Vec::new(),
            vars: Vec::new(),
            unit_ty: UNIT_IDENT,
            bool_ty,
            int_ty,
            str_ty,
        }
    }

    /// Record one diagnostic; nothing else changes.
    fn diag(&mut self, kind: DiagKind, span: Span)
        requires
            old(self).wf(),
        ensures
            final(self).wf(),
            final(self).errors@ == old(self).errors@.push(Diagnostic { kind, span }),
            final(self).arena == old(self).arena,
            final(self).registry == old(self).registry,
            final(self).vars == old(self).vars,
            final(self).unit_ty == old(self).unit_ty,
            final(self).bool_ty == old(self).bool_ty,
            final(self).int_ty == old(self).int_ty,
            final(self).str_ty == old(self).str_ty,
            frame(*old(self), *final(self)),
    {
        self.errors.push(Diagnostic { kind, span });
        proof {
            assert(old(self).errors@.is_prefix_of(self.errors@)) by {
                assert(self.errors@.subrange(0, old(self).errors@.len() as int) =~= old(self).errors@);
            }
        }
    }

    /// Intern one type definition; diagnostics, arena and variable table
    /// stay as they are.
    fn intern_def(&mut self, def: TypeDef) -> (r: TypeIdent)
        requires
            old(self).wf(),
            td_components_lt(def, old(self).registry.types@.len() as int),
        ensures
            final(self).wf(),
            (r as int) < final(self).registry.types@.len(),
            td_eq(final(self).registry.types@[r as int], def),
            final(self).errors@ == old(self).errors@,
            final(self).arena == old(self).arena,
            final(self).vars == old(self).vars,
            final(self).unit_ty == old(self).unit_ty,
            final(self).bool_ty == old(self).bool_ty,
            final(self).int_ty == old(self).int_ty,
            final(self).str_ty == old(self).str_ty,
            frame(*old(self), *final(self)),
    {
        let r = self.registry.intern(def);
        proof {
            assert(old(self).registry.types@.is_prefix_of(self.registry.types@)) by {
                if old(self).registry.types@.len() < self.registry.types@.len() {
                    assert(self.registry.types@.subrange(
                        0,
                        old(self).registry.types@.len() as int,
                    ) =~= old(self).registry.types@);
                } else {
                    assert(self.registry.types@.subrange(
                        0,
                        old(self).registry.types@.len() as int,
                    ) =~= old(self).registry.types@);
                }
            }
            assert forall|i: int| 0 <= i < self.arena.symbols@.len() implies td_components_lt(
                sym_typ(#[trigger] self.arena.symbols@[i]),
                self.registry.types@.len() as int,
            ) by {
                lemma_td_components_mono(
                    sym_typ(self.arena.symbols@[i]),
                    old(self).registry.types@.len() as int,
                    self.registry.types@.len() as int,
                );
            }
        }
        r
    }

    /// Whether identity `t` names a primitive type, and its width and kind.
    pub open spec fn prim_of(self, t: TypeIdent) -> Option<PrimitiveType> {
        if 0 <= (t as int) < self.registry.types@.len() {
            match self.registry.types@[t as int] {
                TypeDef::Primitive(p) => Option::Some(p),
                _ => Option::None,
            }
        } else {
            Option::None
        }
    }

    /// The fixed table of permitted binary operand-type combinations:
    /// `TypeErr` propagates silently; arithmetic needs two primitives of
    /// one width and keeps the left type; a comparison needs two primitives
    /// of one kind and yields boolean; everything else is refused.
    /// Assignments are handled by the resolver itself, not by this table.
    pub open spec fn binary_result_spec(self, op: OpVar, lt: TypeIdent, rt: TypeIdent) -> Option<
        TypeIdent,
    > {
        if lt == TYPE_ERR_IDENT || rt == TYPE_ERR_IDENT {
            Option::Some(TYPE_ERR_IDENT)
        } else {
            match (self.prim_of(lt), self.prim_of(rt)) {
                (Option::Some(lp), Option::Some(rp)) => match op {
                    OpVar::Add | OpVar::Sub | OpVar::Mul | OpVar::Div => if lp.occupy_bytes
                        == rp.occupy_bytes {
                        Option::Some(lt)
                    } else {
                        Option::None
                    },
                    OpVar::Gt | OpVar::Lt | OpVar::Eq | OpVar::Gte | OpVar::Lte | OpVar::Neq => if lp.var
                        == rp.var {
                        Option::Some(self.bool_ty)
                    } else {
                        Option::None
                    },
                    _ => Option::None,
                },
                _ => Option::None,
            }
        }
    }

    /// The executable operator table, exactly [`Resolver::binary_result_spec`].
    pub fn binary_result(&self, op: OpVar, lt: TypeIdent, rt: TypeIdent) -> (r: Option<TypeIdent>)
        requires
            self.wf(),
            (lt as int) < self.registry.types@.len(),
            (rt as int) < self.registry.types@.len(),
        ensures
            r == self.binary_result_spec(op, lt, rt),
    {
        let n = self.registry.types.len();
        let res: Option<TypeIdent> = if lt == TYPE_ERR_IDENT || rt == TYPE_ERR_IDENT {
            Option::Some(TYPE_ERR_IDENT)
        } else {
            let lp: Option<PrimitiveType> = match &self.registry.types[lt as usize] {
                TypeDef::Primitive(p) => Option::Some(
                    PrimitiveType { occupy_bytes: p.occupy_bytes, var: p.var },
                ),
                _ => Option::None,
            };
            let rp: Option<PrimitiveType> = match &self.registry.types[rt as usize] {
                TypeDef::Primitive(p) => Option::Some(
                    PrimitiveType { occupy_bytes: p.occupy_bytes, var: p.var },
                ),
                _ => Option::None,
            };
            proof {
                assert(lp == self.prim_of(lt));
                assert(rp == self.prim_of(rt));
            }
            match (lp, rp) {
                (Option::Some(lp), Option::Some(rp)) => match op {
                    OpVar::Add | OpVar::Sub | OpVar::Mul | OpVar::Div => if lp.occupy_bytes
                        == rp.occupy_bytes {
                        Option::Some(lt)
                    } else {
                        Option::None
                    },
                    OpVar::Gt | OpVar::Lt | OpVar::Eq | OpVar::Gte | OpVar::Lte
                        | OpVar::Neq => if lp.var == rp.var {
                        Option::Some(self.bool_ty)
                    } else {
                        Option::None
                    },
                    _ => Option::None,
                },
                _ => Option::None,
            }
        };
        proof {
            assert(res == self.binary_result_spec(op, lt, rt));
        }
        res
    }
    /// Resolve one expression against the chain of `scope`: bind its
    /// names, check its operators, intern its type, and return the type's
    /// identity with the typed node carrying it. A failure degrades the
    /// node to `TypeErr` and appends one diagnostic; the arena and the
    /// variable table are never touched, and diagnostics and interned
    /// types only grow. An undeclared identifier reports exactly one
    /// `UndeclaredIdentifier` diagnostic; an ordinary assignment whose
    /// target is bound `const` reports `ConstReassignment` and leaves every
    /// symbol-table entry as it was.
    pub fn resolve_expr(&mut self, scope: usize, e: &SynExpr) -> (r: (TypeIdent, Expr))
        requires
            old(self).wf(),
            (scope as int) < old(self).arena.scopes@.len(),
        ensures
            final(self).wf(),
            frame(*old(self), *final(self)),
            final(self).arena == old(self).arena,
            final(self).vars == old(self).vars,
            (r.0 as int) < final(self).registry.types@.len(),
            r.1.typ == r.0,
            e.var is Empty ==> *final(self) == *old(self) && r.0 == old(self).unit_ty,
            e.var is IntLiteral ==> *final(self) == *old(self) && r.0 == old(self).int_ty,
            e.var is StringLiteral ==> *final(self) == *old(self) && r.0 == old(self).str_ty,
            (e.var matches SynExprVariant::Ident(name) && old(self).arena.lookup_spec(
                scope as int,
                name@,
            ) is None) ==> r.0 == TYPE_ERR_IDENT && final(self).errors@ == old(self).errors@.push(Diagnostic { kind: DiagKind::UndeclaredIdentifier, span: e.span }),
            e.var matches SynExprVariant::Ident(name) ==> (old(self).arena.lookup_spec(
                scope as int,
                name@,
            ) matches Option::Some(sym) ==> (old(self).arena.symbols@[sym as int]
                matches SymbolDef::Var {
                    typ,
                    is_const,
                    is_callable,
                } ==> final(self).errors@ == old(self).errors@ && td_eq(
                final(self).registry.types@[r.0 as int],
                typ,
            ) && r.1.var == (ExprVariant::VarRef(VarRef { idx: sym })))),
            e.var matches SynExprVariant::BinaryOp(b) ==> ((b.op == OpVar::Add || b.op
                == OpVar::Sub || b.op == OpVar::Mul || b.op == OpVar::Div) && b.lhs.var
                is IntLiteral && b.rhs.var is IntLiteral ==> *final(self) == *old(self) && r.0
                == old(self).int_ty),
            e.var matches SynExprVariant::BinaryOp(b) ==> ((b.op == OpVar::Gt || b.op == OpVar::Lt
                || b.op == OpVar::Eq || b.op == OpVar::Gte || b.op == OpVar::Lte || b.op
                == OpVar::Neq) && b.lhs.var is IntLiteral && b.rhs.var is IntLiteral ==> *final(self) == *old(self) && r.0 == old(self).bool_ty),
            e.var matches SynExprVariant::BinaryOp(b) ==> (is_binary_op(b.op) && b.op
                != OpVar::_Asn && b.lhs.var is StringLiteral && b.rhs.var is IntLiteral ==> r.0
                == TYPE_ERR_IDENT && final(self).errors@ == old(self).errors@.push(
                Diagnostic { kind: DiagKind::TypeMismatch, span: e.span },
            )),
            e.var matches SynExprVariant::FunctionCall(c) ==> (old(self).arena.lookup_spec(
                scope as int,
                c.name@,
            ) is None ==> final(self).errors@.len() > old(self).errors@.len() && final(self).errors@[old(self).errors@.len() as int] == (Diagnostic {
                kind: DiagKind::UndeclaredIdentifier,
                span: e.span,
            })),
            e.var matches SynExprVariant::FunctionCall(c) ==> (old(self).arena.lookup_spec(
                scope as int,
                c.name@,
            ) matches Option::Some(sym) ==> (old(self).arena.symbols@[sym as int]
                matches SymbolDef::Var {
                    typ: TypeDef::Function(ft),
                    is_const,
                    is_callable,
                } ==> (is_callable && c.params@.len() == 0 ==> ((ft.params@.len() == 0 ==> *final(self) == *old(self) && r.0 == ft.return_type && (r.1.var
                matches ExprVariant::FunctionCall(fc) && fc.func == sym && fc.params@.len() == 0))
                && (ft.params@.len() != 0 ==> r.0 == TYPE_ERR_IDENT && final(self).errors@ == old(self).errors@.push(Diagnostic { kind: DiagKind::TypeMismatch, span: e.span })))))),
            e.var matches SynExprVariant::FunctionCall(c) ==> (old(self).arena.lookup_spec(
                scope as int,
                c.name@,
            ) matches Option::Some(sym) ==> (old(self).arena.symbols@[sym as int]
                matches SymbolDef::Var {
                    typ: TypeDef::Function(ft),
                    is_const,
                    is_callable,
                } ==> ((is_callable && all_int_literal_args(c.params@) && ft.params@.len()
                == c.params@.len() && (forall|j: int|
                0 <= j < ft.params@.len() ==> (#[trigger] ft.params@[j]) == old(self).int_ty))
                ==> *final(self) == *old(self) && r.0 == ft.return_type))),
            (e.var matches SynExprVariant::BinaryOp(b) && (b.op == OpVar::_Asn && (b.lhs.var
                matches SynExprVariant::Ident(name) && (old(self).arena.lookup_spec(
                scope as int,
                name@,
            ) matches Option::Some(sym) && (old(self).arena.symbols@[sym as int]
                matches SymbolDef::Var {
                    typ,
                    is_const: true,
                    is_callable,
                }))))) ==> r.0 == TYPE_ERR_IDENT && final(self).errors@.len() > old(self).errors@.len() && final(self).errors@[old(self).errors@.len() as int] == (Diagnostic {
                kind: DiagKind::ConstReassignment,
                span: e.span,
            }),
        decreases *e, 1int,
    {
        match &e.var {
            SynExprVariant::Empty => {
                let t = self.unit_ty;
                (t, Expr { var: ExprVariant::Empty, typ: t, span: e.span })
            },
            SynExprVariant::IntLiteral(v) => {
                let t = self.int_ty;
                let val = crate::ast::int_value_copy(v);
                (t, Expr { var: ExprVariant::Literal(Literal::Integer { val }), typ: t, span: e.span })
            },
            SynExprVariant::StringLiteral(s) => {
                let t = self.str_ty;
                let val = s.clone();
                (t, Expr { var: ExprVariant::Literal(Literal::String { val }), typ: t, span: e.span })
            },
            SynExprVariant::Ident(name) => self.resolve_ident_use(scope, name, e.span),
            SynExprVariant::UnaryOp(u) => {
                let (tt, te) = self.resolve_expr(scope, &u.tgt);
                let ghost mid = *self;
                let t = self.unary_type(u.op, tt, e.span);
                proof {
                    lemma_frame_trans(*old(self), mid, *self);
                }
                (
                    t,
                    Expr {
                        var: ExprVariant::UnaryOp(
                            crate::ast::UnaryOp { tgt: Box::new(te), op: u.op },
                        ),
                        typ: t,
                        span: e.span,
                    },
                )
            },
            SynExprVariant::BinaryOp(b) => {
                if b.op == OpVar::_Asn {
                    match &b.lhs.var {
                        SynExprVariant::Ident(name) => {
                            let target = self.arena.find_def(scope, name.as_str());
                            match target {
                                Option::None => {
                                    self.diag(DiagKind::UndeclaredIdentifier, b.lhs.span);
                                    let ghost mid = *self;
                                    let (_rt, re) = self.resolve_expr(scope, &b.rhs);
                                    proof {
                                        lemma_frame_trans(*old(self), mid, *self);
                                    }
                                    let le = Expr {
                                        var: ExprVariant::Empty,
                                        typ: TYPE_ERR_IDENT,
                                        span: b.lhs.span,
                                    };
                                    (
                                        TYPE_ERR_IDENT,
                                        Expr {
                                            var: ExprVariant::BinaryOp(
                                                crate::ast::BinaryOp {
                                                    lhs: Box::new(le),
                                                    rhs: Box::new(re),
                                                    op: OpVar::_Asn,
                                                },
                                            ),
                                            typ: TYPE_ERR_IDENT,
                                            span: e.span,
                                        },
                                    )
                                },
                                Option::Some(sym) => self.resolve_asn_to(scope, sym, &b.rhs, b.lhs.span, e.span),
                            }
                        },
                        _ => {
                            let (_lt, le) = self.resolve_expr(scope, &b.lhs);
                            let ghost mid = *self;
                            let (_rt, re) = self.resolve_expr(scope, &b.rhs);
                            proof {
                                lemma_frame_trans(*old(self), mid, *self);
                            }
                            let ghost mid2 = *self;
                            self.diag(DiagKind::TypeMismatch, e.span);
                            proof {
                                lemma_frame_trans(*old(self), mid2, *self);
                            }
                            (
                                TYPE_ERR_IDENT,
                                Expr {
                                    var: ExprVariant::BinaryOp(
                                        crate::ast::BinaryOp {
                                            lhs: Box::new(le),
                                            rhs: Box::new(re),
                                            op: OpVar::_Asn,
                                        },
                                    ),
                                    typ: TYPE_ERR_IDENT,
                                    span: e.span,
                                },
                            )
                        },
                    }
                } else {
                    let (lt, le) = self.resolve_expr(scope, &b.lhs);
                    let ghost mid = *self;
                    let (rt, re) = self.resolve_expr(scope, &b.rhs);
                    proof {
                        lemma_frame_trans(*old(self), mid, *self);
                    }
                    let permitted = if b.op.is_binary() {
                        self.binary_result(b.op, lt, rt)
                    } else {
                        Option::None
                    };
                    let t = match permitted {
                        Option::Some(t) => t,
                        Option::None => {
                            let ghost mid2 = *self;
                            self.diag(DiagKind::TypeMismatch, e.span);
                            proof {
                                lemma_frame_trans(*old(self), mid2, *self);
                            }
                            TYPE_ERR_IDENT
                        },
                    };
                    (
                        t,
                        Expr {
                            var: ExprVariant::BinaryOp(
                                crate::ast::BinaryOp {
                                    lhs: Box::new(le),
                                    rhs: Box::new(re),
                                    op: b.op,
                                },
                            ),
                            typ: t,
                            span: e.span,
                        },
                    )
                }
            },
            SynExprVariant::FunctionCall(c) => self.resolve_call(scope, c, e.span, Ghost(*e)),
        }
    }

    /// Resolve a use of a plain name: the innermost binding wins; an
    /// unbound name or a type name standing for a value degrades to
    /// `TypeErr` with one diagnostic.
    fn resolve_ident_use(&mut self, scope: usize, name: &String, span: Span) -> (r: (
        TypeIdent,
        Expr,
    ))
        requires
            old(self).wf(),
            (scope as int) < old(self).arena.scopes@.len(),
        ensures
            final(self).wf(),
            frame(*old(self), *final(self)),
            final(self).arena == old(self).arena,
            final(self).vars == old(self).vars,
            (r.0 as int) < final(self).registry.types@.len(),
            r.1.typ == r.0,
            old(self).arena.lookup_spec(scope as int, name@) is None ==> r.0 == TYPE_ERR_IDENT
                && final(self).errors@ == old(self).errors@.push(
                Diagnostic { kind: DiagKind::UndeclaredIdentifier, span },
            ),
            old(self).arena.lookup_spec(scope as int, name@) matches Option::Some(sym) ==> (old(self).arena.symbols@[sym as int] matches SymbolDef::Var {
                typ,
                is_const,
                is_callable,
            } ==> final(self).errors@ == old(self).errors@ && td_eq(
                final(self).registry.types@[r.0 as int],
                typ,
            ) && r.1.var == (ExprVariant::VarRef(VarRef { idx: sym }))),
            old(self).arena.lookup_spec(scope as int, name@) matches Option::Some(sym) ==> (old(self).arena.symbols@[sym as int] matches SymbolDef::Typ { def } ==> r.0 == TYPE_ERR_IDENT
                && final(self).errors@ == old(self).errors@.push(
                Diagnostic { kind: DiagKind::InvalidSymbol, span },
            )),
    {
        match self.arena.find_def(scope, name.as_str()) {
            Option::None => {
                self.diag(DiagKind::UndeclaredIdentifier, span);
                (
                    TYPE_ERR_IDENT,
                    Expr { var: ExprVariant::Empty, typ: TYPE_ERR_IDENT, span },
                )
            },
            Option::Some(sym) => {
                let picked: Option<TypeDef> = match self.arena.get_symbol(sym) {
                    SymbolDef::Typ { def } => Option::None,
                    SymbolDef::Var { typ, is_const, is_callable } => Option::Some(td_copy(typ)),
                };
                match picked {
                    Option::None => {
                        self.diag(DiagKind::InvalidSymbol, span);
                        (
                            TYPE_ERR_IDENT,
                            Expr { var: ExprVariant::Empty, typ: TYPE_ERR_IDENT, span },
                        )
                    },
                    Option::Some(typ_copy) => {
                        proof {
                            lemma_td_eq_components(
                                typ_copy,
                                sym_typ(self.arena.symbols@[sym as int]),
                                self.registry.types@.len() as int,
                            );
                        }
                        let ghost stored = sym_typ(self.arena.symbols@[sym as int]);
                        let ghost copied = typ_copy;
                        let tid = self.intern_def(typ_copy);
                        proof {
                            crate::ty::lemma_td_eq_equiv(
                                self.registry.types@[tid as int],
                                copied,
                                stored,
                            );
                        }
                        (
                            tid,
                            Expr {
                                var: ExprVariant::VarRef(VarRef { idx: sym }),
                                typ: tid,
                                span,
                            },
                        )
                    },
                }
            },
        }
    }

    /// The unary half of the operator table, applied after the operand is
    /// resolved: `TypeErr` propagates silently, negation and the bit and
    /// step operators keep a primitive operand's type, boolean inverse
    /// needs a boolean, a reference is interned fresh, a dereference takes
    /// its target's type; anything else is refused with one diagnostic.
    fn unary_type(&mut self, op: OpVar, tt: TypeIdent, span: Span) -> (r: TypeIdent)
        requires
            old(self).wf(),
            (tt as int) < old(self).registry.types@.len(),
        ensures
            final(self).wf(),
            frame(*old(self), *final(self)),
            final(self).arena == old(self).arena,
            final(self).vars == old(self).vars,
            (r as int) < final(self).registry.types@.len(),
    {
        if tt == TYPE_ERR_IDENT {
            return TYPE_ERR_IDENT;
        }
        match op {
            OpVar::Neg | OpVar::Bin | OpVar::Ina | OpVar::Inb | OpVar::Dea | OpVar::Deb => {
                let is_prim = match &self.registry.types[tt as usize] {
                    TypeDef::Primitive(_) => true,
                    _ => false,
                };
                if is_prim {
                    tt
                } else {
                    self.diag(DiagKind::TypeMismatch, span);
                    TYPE_ERR_IDENT
                }
            },
            OpVar::Inv => {
                if tt == self.bool_ty {
                    tt
                } else {
                    self.diag(DiagKind::TypeMismatch, span);
                    TYPE_ERR_IDENT
                }
            },
            OpVar::Ref => self.intern_def(TypeDef::Ref(RefType { target: tt })),
            OpVar::Der => {
                let target: Option<TypeIdent> = match &self.registry.types[tt as usize] {
                    TypeDef::Ref(rt) => Option::Some(rt.target),
                    _ => Option::None,
                };
                match target {
                    Option::Some(t) => {
                        proof {
                            assert(td_components_lt(
                                self.registry.types@[tt as int],
                                tt as int,
                            ));
                        }
                        t
                    },
                    Option::None => {
                        self.diag(DiagKind::TypeMismatch, span);
                        TYPE_ERR_IDENT
                    },
                }
            },
            _ => {
                self.diag(DiagKind::TypeMismatch, span);
                TYPE_ERR_IDENT
            },
        }
    }

    /// Resolve an ordinary assignment whose target resolved to the symbol
    /// `sym`: a `const` target reports `ConstReassignment` before anything
    /// else and degrades to `TypeErr`; a type name as target is the wrong
    /// kind of symbol; otherwise the sides must agree on their type and
    /// the assignment itself has unit type.
    fn resolve_asn_to(&mut self, scope: usize, sym: usize, rhs: &SynExpr, lhs_span: Span, span: Span) -> (r: (
        TypeIdent,
        Expr,
    ))
        requires
            old(self).wf(),
            (scope as int) < old(self).arena.scopes@.len(),
            (sym as int) < old(self).arena.symbols@.len(),
        ensures
            final(self).wf(),
            frame(*old(self), *final(self)),
            final(self).arena == old(self).arena,
            final(self).vars == old(self).vars,
            (r.0 as int) < final(self).registry.types@.len(),
            r.1.typ == r.0,
            (old(self).arena.symbols@[sym as int] matches SymbolDef::Var {
                typ,
                is_const: true,
                is_callable,
            }) ==> r.0 == TYPE_ERR_IDENT && final(self).errors@.len() > old(self).errors@.len() && final(self).errors@[old(self).errors@.len() as int] == (Diagnostic {
                kind: DiagKind::ConstReassignment,
                span,
            }),
        decreases *rhs, 2int,
    {
        let info: Option<(TypeDef, bool)> = match self.arena.get_symbol(sym) {
            SymbolDef::Typ { def } => Option::None,
            SymbolDef::Var { typ, is_const, is_callable } => Option::Some(
                (td_copy(typ), *is_const),
            ),
        };
        match info {
            Option::None => {
                self.diag(DiagKind::InvalidSymbol, lhs_span);
                let ghost mid = *self;
                let (_rt, re) = self.resolve_expr(scope, rhs);
                proof {
                    lemma_frame_trans(*old(self), mid, *self);
                }
                (TYPE_ERR_IDENT, asn_expr(sym, re, TYPE_ERR_IDENT, span))
            },
            Option::Some((typ_copy, is_const)) => {
                if is_const {
                    self.diag(DiagKind::ConstReassignment, span);
                    let ghost mid = *self;
                    let (_rt, re) = self.resolve_expr(scope, rhs);
                    proof {
                        lemma_frame_trans(*old(self), mid, *self);
                        lemma_prefix_index(
                            mid.errors@,
                            self.errors@,
                            old(self).errors@.len() as int,
                        );
                    }
                    (TYPE_ERR_IDENT, asn_expr(sym, re, TYPE_ERR_IDENT, span))
                } else {
                    proof {
                        lemma_td_eq_components(
                            typ_copy,
                            sym_typ(self.arena.symbols@[sym as int]),
                            self.registry.types@.len() as int,
                        );
                    }
                    let tid = self.intern_def(typ_copy);
                    let ghost mid = *self;
                    let (rt, re) = self.resolve_expr(scope, rhs);
                    proof {
                        lemma_frame_trans(*old(self), mid, *self);
                    }
                    if rt == tid || rt == TYPE_ERR_IDENT {
                        let t = self.unit_ty;
                        (t, asn_expr(sym, re, t, span))
                    } else {
                        let ghost mid2 = *self;
                        self.diag(DiagKind::TypeMismatch, span);
                        proof {
                            lemma_frame_trans(*old(self), mid2, *self);
                        }
                        (TYPE_ERR_IDENT, asn_expr(sym, re, TYPE_ERR_IDENT, span))
                    }
                }
            },
        }
    }

    /// Resolve a call of a named function: the callee must be bound to a
    /// callable entry of function type, the arguments are resolved in
    /// order, and their types must equal the parameter types; the call's
    /// type is the callee's return type, referenced by the callee's flat
    /// symbol index.
    fn resolve_call(&mut self, scope: usize, c: &crate::syntax::SynFunctionCall, span: Span, whole: Ghost<SynExpr>) -> (r: (
        TypeIdent,
        Expr,
    ))
        requires
            old(self).wf(),
            (scope as int) < old(self).arena.scopes@.len(),
            whole@.var matches SynExprVariant::FunctionCall(c0) && c0 == *c,
        ensures
            final(self).wf(),
            frame(*old(self), *final(self)),
            final(self).arena == old(self).arena,
            final(self).vars == old(self).vars,
            (r.0 as int) < final(self).registry.types@.len(),
            r.1.typ == r.0,
            old(self).arena.lookup_spec(scope as int, c.name@) is None ==> final(self).errors@.len() > old(self).errors@.len() && final(self).errors@[old(self).errors@.len() as int] == (Diagnostic { kind: DiagKind::UndeclaredIdentifier, span }),
            old(self).arena.lookup_spec(scope as int, c.name@) matches Option::Some(sym) ==> (old(self).arena.symbols@[sym as int] matches SymbolDef::Typ { def } ==> final(self).errors@.len() > old(self).errors@.len() && final(self).errors@[old(self).errors@.len() as int] == (Diagnostic { kind: DiagKind::InvalidSymbol, span })),
            old(self).arena.lookup_spec(scope as int, c.name@) matches Option::Some(sym) ==> (old(self).arena.symbols@[sym as int] matches SymbolDef::Var {
                typ,
                is_const,
                is_callable,
            } ==> (!is_callable ==> final(self).errors@.len() > old(self).errors@.len() && final(self).errors@[old(self).errors@.len() as int] == (Diagnostic {
                kind: DiagKind::InvalidSymbol,
                span,
            }))),
            old(self).arena.lookup_spec(scope as int, c.name@) matches Option::Some(sym) ==> (old(self).arena.symbols@[sym as int] matches SymbolDef::Var {
                typ: TypeDef::Function(ft),
                is_const,
                is_callable,
            } ==> (is_callable && c.params@.len() == 0 ==> ((ft.params@.len() == 0 ==> *final(self)
                == *old(self) && r.0 == ft.return_type && (r.1.var
                matches ExprVariant::FunctionCall(fc) && fc.func == sym && fc.params@.len() == 0))
                && (ft.params@.len() != 0 ==> r.0 == TYPE_ERR_IDENT && final(self).errors@ == old(self).errors@.push(Diagnostic { kind: DiagKind::TypeMismatch, span }))))),
            old(self).arena.lookup_spec(scope as int, c.name@) matches Option::Some(sym) ==> (old(self).arena.symbols@[sym as int] matches SymbolDef::Var {
                typ: TypeDef::Function(ft),
                is_const,
                is_callable,
            } ==> ((is_callable && all_int_literal_args(c.params@) && ft.params@.len()
                == c.params@.len() && (forall|j: int|
                0 <= j < ft.params@.len() ==> (#[trigger] ft.params@[j]) == old(self).int_ty))
                ==> *final(self) == *old(self) && r.0 == ft.return_type)),
        decreases whole@, 0int,
    {
        let target = self.arena.find_def(scope, c.name.as_str());
        let callee: Option<(Vec<TypeIdent>, TypeIdent)> = match target {
            Option::None => Option::None,
            Option::Some(sym) => match self.arena.get_symbol(sym) {
                SymbolDef::Var { typ, is_const, is_callable } => {
                    if *is_callable {
                        match typ {
                            TypeDef::Function(ft) => Option::Some(
                                (crate::ty::copy_vec_u64(&ft.params), ft.return_type),
                            ),
                            _ => Option::None,
                        }
                    } else {
                        Option::None
                    }
                },
                SymbolDef::Typ { def } => Option::None,
            },
        };
        proof {
            assert(callee matches Option::Some(pr) ==> (pr.1 as int)
                < self.registry.types@.len());
        }
        if target.is_none() {
            self.diag(DiagKind::UndeclaredIdentifier, span);
        } else if callee.is_none() {
            self.diag(DiagKind::InvalidSymbol, span);
        }
        let ghost after_head = *self;
        let mut args: Vec<Expr> = Vec::new();
        let mut arg_tys: Vec<TypeIdent> = Vec::new();
        let n = c.params.len();
        let mut i: usize = 0;
        while i < n
            invariant
                self.wf(),
                frame(after_head, *self),
                frame(*old(self), *self),
                self.arena == old(self).arena,
                self.vars == old(self).vars,
                (scope as int) < self.arena.scopes@.len(),
                n == c.params@.len(),
                0 <= i <= n,
                arg_tys@.len() == args@.len(),
                args@.len() == i,
                i == 0 ==> *self == after_head,
                all_int_literal_args(c.params@) ==> *self == after_head && (forall|j: int|
                    0 <= j < arg_tys@.len() ==> (#[trigger] arg_tys@[j]) == old(self).int_ty),
                whole@.var matches SynExprVariant::FunctionCall(c0) && c0 == *c,
                forall|j: int|
                    0 <= j < arg_tys@.len() ==> (#[trigger] arg_tys@[j] as int)
                        < self.registry.types@.len(),
                callee matches Option::Some(pr) ==> (pr.1 as int)
                    < self.registry.types@.len(),
            decreases n - i,
        {
            proof {
                assert(whole@.var matches SynExprVariant::FunctionCall(c0) && c0.params@[i as int]
                    == c.params@[i as int]);
            }
            let ghost before = *self;
            let (at, ae) = self.resolve_expr(scope, &c.params[i]);
            proof {
                lemma_frame_trans(after_head, before, *self);
                lemma_frame_trans(*old(self), before, *self);
            }
            args.push(ae);
            arg_tys.push(at);
            i = i + 1;
        }
        let t: TypeIdent = match callee {
            Option::None => TYPE_ERR_IDENT,
            Option::Some((param_tys, ret)) => {
                if param_tys.len() != arg_tys.len() {
                    let ghost mid = *self;
                    self.diag(DiagKind::TypeMismatch, span);
                    proof {
                        lemma_frame_trans(*old(self), mid, *self);
                    }
                    TYPE_ERR_IDENT
                } else {
                    let mut ok = true;
                    let mut any_err = false;
                    let m = param_tys.len();
                    let mut k: usize = 0;
                    while k < m
                        invariant
                            old(self).wf(),
                            m == param_tys@.len() == arg_tys@.len(),
                            0 <= k <= m,
                            k == 0 ==> ok && !any_err,
                            ((forall|j: int|
                                0 <= j < param_tys@.len() ==> (#[trigger] param_tys@[j]) == old(self).int_ty) && (forall|j: int|
                                0 <= j < arg_tys@.len() ==> (#[trigger] arg_tys@[j]) == old(self).int_ty)) ==> ok && !any_err,
                        decreases m - k,
                    {
                        if arg_tys[k] == TYPE_ERR_IDENT {
                            any_err = true;
                        } else if arg_tys[k] != param_tys[k] {
                            ok = false;
                        }
                        k = k + 1;
                    }
                    if !ok {
                        let ghost mid = *self;
                        self.diag(DiagKind::TypeMismatch, span);
                        proof {
                            lemma_frame_trans(*old(self), mid, *self);
                        }
                        TYPE_ERR_IDENT
                    } else if any_err {
                        TYPE_ERR_IDENT
                    } else {
                        ret
                    }
                }
            },
        };
        let func_idx: usize = match target {
            Option::Some(sym) => sym,
            Option::None => 0,
        };
        proof {
            if after_head.errors@.len() > old(self).errors@.len() {
                lemma_prefix_index(
                    after_head.errors@,
                    self.errors@,
                    old(self).errors@.len() as int,
                );
            }
        }
        (
            t,
            Expr {
                var: ExprVariant::FunctionCall(
                    crate::ast::FunctionCall { func: func_idx, params: args },
                ),
                typ: t,
                span,
            },
        )
    }
    /// Declare `name` in `scope` through the arena, keeping the resolver's
    /// invariant: a conflict or a bad name leaves everything untouched, a
    /// success appends the entry and binds the name.
    fn insert_symbol(&mut self, scope: usize, name: &str, def: SymbolDef) -> (r: Result<
        usize,
        ScopeError,
    >)
        requires
            old(self).wf(),
            (scope as int) < old(self).arena.scopes@.len(),
            td_components_lt(sym_typ(def), old(self).registry.types@.len() as int),
        ensures
            final(self).wf(),
            frame(*old(self), *final(self)),
            final(self).errors@ == old(self).errors@,
            final(self).registry == old(self).registry,
            final(self).vars == old(self).vars,
            final(self).arena.scopes@.len() == old(self).arena.scopes@.len(),
            match r {
                Result::Ok(id) => {
                    &&& old(self).arena.lookup_local_spec(scope as int, name@) is None
                    &&& valid_ident(name@)
                    &&& id as int == old(self).arena.symbols@.len()
                    &&& final(self).arena.symbols@ == old(self).arena.symbols@.push(def)
                    &&& final(self).arena.lookup_local_spec(scope as int, name@)
                        == Option::Some(id)
                },
                Result::Err(ScopeError::NameConflict) => final(self).arena == old(self).arena
                    && old(self).arena.lookup_local_spec(scope as int, name@) is Some,
                Result::Err(ScopeError::InvalidName) => final(self).arena == old(self).arena
                    && old(self).arena.lookup_local_spec(scope as int, name@) is None
                    && !valid_ident(name@),
                Result::Err(ScopeError::InvalidSymbol) => false,
            },
    {
        let ghost def_snapshot = def;
        let r = self.arena.insert_def(scope, name, def);
        proof {
            match r {
                Result::Ok(id) => {
                    assert forall|i: int|
                        0 <= i < self.arena.symbols@.len() implies td_components_lt(
                        sym_typ(#[trigger] self.arena.symbols@[i]),
                        self.registry.types@.len() as int,
                    ) by {
                        if i < old(self).arena.symbols@.len() {
                            assert(self.arena.symbols@[i] == old(self).arena.symbols@[i]);
                        } else {
                            assert(self.arena.symbols@[i] == def_snapshot);
                        }
                    }
                    lemma_entries_lookup_push(
                        map_entries(old(self).arena.scopes@[scope as int].defs),
                        (name@, id as usize),
                        name@,
                    );
                    assert forall|sc: int, n: Seq<char>|
                        0 <= sc < old(self).arena.scopes@.len() && #[trigger] old(self).arena.lookup_local_spec(sc, n) is Some implies #[trigger] self.arena.lookup_local_spec(
                        sc,
                        n,
                    ) is Some by {
                        if sc == scope as int {
                            lemma_entries_lookup_push(
                                map_entries(old(self).arena.scopes@[scope as int].defs),
                                (name@, id as usize),
                                n,
                            );
                        } else {
                            assert(self.arena.scopes@[sc] == old(self).arena.scopes@[sc]);
                        }
                    }
                },
                Result::Err(e) => {},
            }
        }
        r
    }

    /// Resolve the name of a type: it must be bound, through the chain, to
    /// a type entry; anything else degrades to `TypeErr` with one
    /// diagnostic.
    fn resolve_type_name(&mut self, scope: usize, name: &str, span: Span) -> (r: TypeIdent)
        requires
            old(self).wf(),
            (scope as int) < old(self).arena.scopes@.len(),
        ensures
            final(self).wf(),
            frame(*old(self), *final(self)),
            final(self).arena == old(self).arena,
            final(self).vars == old(self).vars,
            (r as int) < final(self).registry.types@.len(),
    {
        match self.arena.find_def(scope, name) {
            Option::None => {
                self.diag(DiagKind::UndeclaredIdentifier, span);
                TYPE_ERR_IDENT
            },
            Option::Some(sym) => {
                let picked: Option<TypeDef> = match self.arena.get_symbol(sym) {
                    SymbolDef::Typ { def } => Option::Some(td_copy(def)),
                    SymbolDef::Var { typ, is_const, is_callable } => Option::None,
                };
                match picked {
                    Option::None => {
                        self.diag(DiagKind::InvalidSymbol, span);
                        TYPE_ERR_IDENT
                    },
                    Option::Some(def_copy) => {
                        proof {
                            lemma_td_eq_components(
                                def_copy,
                                sym_typ(self.arena.symbols@[sym as int]),
                                self.registry.types@.len() as int,
                            );
                        }
                        self.intern_def(def_copy)
                    },
                }
            },
        }
    }
    /// Insert the header of a function declaration into `scope`: its
    /// parameter and return types are resolved and the name is bound to a
    /// callable entry of function type, before any sibling's body is
    /// resolved. Afterwards the name is visible in the scope — also when it
    /// was already bound, which is reported as a conflict — unless it
    /// misses the identifier grammar.
    fn resolve_fn_header(&mut self, scope: usize, f: &SynFnDecl)
        requires
            old(self).wf(),
            (scope as int) < old(self).arena.scopes@.len(),
        ensures
            final(self).wf(),
            frame(*old(self), *final(self)),
            final(self).arena.scopes@.len() == old(self).arena.scopes@.len(),
            valid_ident(f.name@) ==> final(self).arena.lookup_local_spec(
                scope as int,
                f.name@,
            ) is Some,
    {
        let mut param_tys: Vec<TypeIdent> = Vec::new();
        let n = f.params.len();
        let mut i: usize = 0;
        while i < n
            invariant
                self.wf(),
                frame(*old(self), *self),
                self.arena == old(self).arena,
                (scope as int) < self.arena.scopes@.len(),
                n == f.params@.len(),
                0 <= i <= n,
                forall|j: int|
                    0 <= j < param_tys@.len() ==> (#[trigger] param_tys@[j] as int)
                        < self.registry.types@.len(),
            decreases n - i,
        {
            let ghost before = *self;
            let t = self.resolve_type_name(scope, f.params[i].typ.as_str(), f.span);
            proof {
                lemma_frame_trans(*old(self), before, *self);
            }
            param_tys.push(t);
            i = i + 1;
        }
        let ret: TypeIdent = match &f.ret {
            Option::Some(rn) => {
                let ghost before = *self;
                let t = self.resolve_type_name(scope, rn.as_str(), f.span);
                proof {
                    lemma_frame_trans(*old(self), before, *self);
                }
                t
            },
            Option::None => self.unit_ty,
        };
        let def = TypeDef::Function(FunctionType { params: param_tys, return_type: ret });
        let ghost before_insert = *self;
        let r = self.insert_symbol(
            scope,
            f.name.as_str(),
            SymbolDef::Var { typ: def, is_const: false, is_callable: true },
        );
        proof {
            lemma_frame_trans(*old(self), before_insert, *self);
        }
    }

    /// Resolve a variable or constant declaration: the name is inserted as
    /// soon as the head is seen — a clash in this same scope is a
    /// `NameConflict`, a grammatically bad name an `InvalidName` — and only
    /// then is the initializer resolved, as the declaration-time constant
    /// assignment. A declared type must agree with the initializer's; an
    /// omitted one is inferred from it.
    fn resolve_decl(&mut self, scope: usize, d: &SynDecl) -> (r: Stmt)
        requires
            old(self).wf(),
            (scope as int) < old(self).arena.scopes@.len(),
        ensures
            final(self).wf(),
            frame(*old(self), *final(self)),
            final(self).arena.scopes@.len() == old(self).arena.scopes@.len(),
            valid_ident(d.name@) ==> final(self).arena.lookup_local_spec(
                scope as int,
                d.name@,
            ) is Some,
            (d.typ is None && !valid_ident(d.name@) && old(self).arena.lookup_local_spec(
                scope as int,
                d.name@,
            ) is None) ==> final(self).errors@.len() > old(self).errors@.len() && final(self).errors@[old(self).errors@.len() as int] == (Diagnostic {
                kind: DiagKind::InvalidName,
                span: d.span,
            }),
            (d.typ is None && old(self).arena.lookup_local_spec(scope as int, d.name@) is Some)
                ==> final(self).errors@.len() > old(self).errors@.len() && final(self).errors@[old(self).errors@.len() as int] == (Diagnostic { kind: DiagKind::NameConflict, span: d.span }),
    {
        let declared: Option<TypeIdent> = match &d.typ {
            Option::Some(tn) => {
                let ghost before = *self;
                let t = self.resolve_type_name(scope, tn.as_str(), d.span);
                proof {
                    lemma_frame_trans(*old(self), before, *self);
                }
                Option::Some(t)
            },
            Option::None => Option::None,
        };
        let stored: TypeDef = match declared {
            Option::Some(tid) => {
                let _len = self.registry.types.len();
                let td = td_copy(&self.registry.types[tid as usize]);
                proof {
                    assert(td_components_lt(self.registry.types@[tid as int], tid as int));
                    lemma_td_components_mono(
                        self.registry.types@[tid as int],
                        tid as int,
                        self.registry.types@.len() as int,
                    );
                    lemma_td_eq_components(
                        td,
                        self.registry.types@[tid as int],
                        self.registry.types@.len() as int,
                    );
                }
                td
            },
            Option::None => TypeDef::Unknown,
        };
        let stored_for_var = td_copy(&stored);
        let ghost before_insert = *self;
        let ins = self.insert_symbol(
            scope,
            d.name.as_str(),
            SymbolDef::Var { typ: stored, is_const: d.is_const, is_callable: false },
        );
        proof {
            lemma_frame_trans(*old(self), before_insert, *self);
        }
        match ins {
            Result::Ok(_) => {
                self.vars.push(VarDef { typ: stored_for_var });
                proof {
                    assert(before_insert.errors@.is_prefix_of(self.errors@));
                }
            },
            Result::Err(ScopeError::NameConflict) => {
                let ghost mid = *self;
                self.diag(DiagKind::NameConflict, d.span);
                proof {
                    lemma_frame_trans(*old(self), mid, *self);
                }
            },
            Result::Err(ScopeError::InvalidName) => {
                let ghost mid = *self;
                self.diag(DiagKind::InvalidName, d.span);
                proof {
                    lemma_frame_trans(*old(self), mid, *self);
                }
            },
            Result::Err(ScopeError::InvalidSymbol) => {
                let ghost mid = *self;
                self.diag(DiagKind::InvalidSymbol, d.span);
                proof {
                    lemma_frame_trans(*old(self), mid, *self);
                }
            },
        }
        proof {
            if valid_ident(d.name@) {
                assert(self.arena.lookup_local_spec(scope as int, d.name@) is Some);
            }
        }
        match &d.init {
            Option::Some(init) => {
                let ghost before_init = *self;
                let (it, ie) = self.resolve_expr(scope, init);
                proof {
                    lemma_frame_trans(*old(self), before_init, *self);
                    if old(self).errors@.len() < before_init.errors@.len() {
                        lemma_prefix_index(
                            before_init.errors@,
                            self.errors@,
                            old(self).errors@.len() as int,
                        );
                    }
                }
                match declared {
                    Option::Some(tid) => {
                        if it != tid && it != TYPE_ERR_IDENT && tid != TYPE_ERR_IDENT {
                            let ghost mid = *self;
                            self.diag(DiagKind::TypeMismatch, d.span);
                            proof {
                                lemma_frame_trans(*old(self), mid, *self);
                            }
                        }
                    },
                    Option::None => {
                        if let Result::Ok(sym) = ins {
                            let _len = self.registry.types.len();
                            let inferred = td_copy(&self.registry.types[it as usize]);
                            proof {
                                assert(td_components_lt(
                                    self.registry.types@[it as int],
                                    it as int,
                                ));
                                lemma_td_components_mono(
                                    self.registry.types@[it as int],
                                    it as int,
                                    self.registry.types@.len() as int,
                                );
                                lemma_td_eq_components(
                                    inferred,
                                    self.registry.types@[it as int],
                                    self.registry.types@.len() as int,
                                );
                            }
                            let ghost before_set = *self;
                            self.arena.set_symbol(
                                sym,
                                SymbolDef::Var {
                                    typ: inferred,
                                    is_const: d.is_const,
                                    is_callable: false,
                                },
                            );
                            proof {
                                assert forall|i: int|
                                    0 <= i < self.arena.symbols@.len() implies td_components_lt(
                                    sym_typ(#[trigger] self.arena.symbols@[i]),
                                    self.registry.types@.len() as int,
                                ) by {
                                    if i != sym as int {
                                        assert(self.arena.symbols@[i]
                                            == before_set.arena.symbols@[i]);
                                    }
                                }
                                assert(frame(before_set, *self));
                                lemma_frame_trans(*old(self), before_set, *self);
                            }
                        }
                    },
                }
                let sym_idx: usize = match ins {
                    Result::Ok(sym) => sym,
                    Result::Err(_) => 0,
                };
                let t = self.unit_ty;
                let lhs = Expr {
                    var: ExprVariant::VarRef(VarRef { idx: sym_idx }),
                    typ: t,
                    span: d.span,
                };
                let csn = Expr {
                    var: ExprVariant::BinaryOp(
                        crate::ast::BinaryOp {
                            lhs: Box::new(lhs),
                            rhs: Box::new(ie),
                            op: OpVar::_Csn,
                        },
                    ),
                    typ: t,
                    span: d.span,
                };
                Stmt { var: StmtVariant::Expr(csn), span: d.span }
            },
            Option::None => Stmt { var: StmtVariant::Empty, span: d.span },
        }
    }

    /// Resolve one statement against `scope`. An `if` or `while` condition
    /// must be boolean; their blocks get child scopes of their own; a
    /// function declaration resolves its body in a child scope holding its
    /// parameters, its header having been inserted by the surrounding
    /// statement list already.
    pub fn resolve_stmt(&mut self, scope: usize, s: &SynStmt) -> (r: Stmt)
        requires
            old(self).wf(),
            (scope as int) < old(self).arena.scopes@.len(),
        ensures
            final(self).wf(),
            frame(*old(self), *final(self)),
            s.var is Empty ==> *final(self) == *old(self) && r.var is Empty && r.span == s.span,
            s.var matches SynStmtVariant::Expr(e0) ==> final(self).arena == old(self).arena
                && r.span == s.span,
            s.var matches SynStmtVariant::Return(e0) ==> final(self).arena == old(self).arena
                && r.span == s.span,
            s.var matches SynStmtVariant::Expr(e0) ==> (e0.var is IntLiteral ==> *final(self)
                == *old(self)),
            s.var matches SynStmtVariant::Expr(e0) ==> (e0.var
                matches SynExprVariant::Ident(n) ==> (old(self).arena.lookup_spec(
                scope as int,
                n@,
            ) is None ==> final(self).errors@ == old(self).errors@.push(
                Diagnostic { kind: DiagKind::UndeclaredIdentifier, span: e0.span },
            ))),
            s.var matches SynStmtVariant::Return(e0) ==> (e0.var
                matches SynExprVariant::Ident(n) ==> (old(self).arena.lookup_spec(
                scope as int,
                n@,
            ) is None ==> final(self).errors@ == old(self).errors@.push(
                Diagnostic { kind: DiagKind::UndeclaredIdentifier, span: e0.span },
            ))),
            s.var matches SynStmtVariant::Decl(d) ==> (valid_ident(d.name@) ==> final(self).arena.lookup_local_spec(scope as int, d.name@) is Some),
            s.var matches SynStmtVariant::Decl(d) ==> ((d.typ is None && !valid_ident(d.name@)
                && old(self).arena.lookup_local_spec(scope as int, d.name@) is None) ==> final(self).errors@.len() > old(self).errors@.len() && final(self).errors@[old(self).errors@.len() as int] == (Diagnostic { kind: DiagKind::InvalidName, span: d.span })),
            s.var matches SynStmtVariant::Decl(d) ==> ((d.typ is None && old(self).arena.lookup_local_spec(scope as int, d.name@) is Some) ==> final(self).errors@.len() > old(self).errors@.len() && final(self).errors@[old(self).errors@.len() as int] == (Diagnostic {
                kind: DiagKind::NameConflict,
                span: d.span,
            })),
        decreases *s,
    {
        match &s.var {
            SynStmtVariant::Empty => Stmt { var: StmtVariant::Empty, span: s.span },
            SynStmtVariant::Expr(e) => {
                let (_t, te) = self.resolve_expr(scope, e);
                Stmt { var: StmtVariant::Expr(te), span: s.span }
            },
            SynStmtVariant::Return(e) => {
                let (_t, te) = self.resolve_expr(scope, e);
                Stmt { var: StmtVariant::Return(te), span: s.span }
            },
            SynStmtVariant::Decl(d) => self.resolve_decl(scope, d),
            SynStmtVariant::If(c) => {
                let (ct, ce) = self.resolve_expr(scope, &c.cond);
                if ct != self.bool_ty && ct != TYPE_ERR_IDENT {
                    let ghost mid = *self;
                    self.diag(DiagKind::TypeMismatch, c.cond.span);
                    proof {
                        lemma_frame_trans(*old(self), mid, *self);
                    }
                }
                let ghost mid1 = *self;
                let if_block = self.resolve_block(scope, &c.if_block);
                proof {
                    lemma_frame_trans(*old(self), mid1, *self);
                }
                let t = self.unit_ty;
                let if_expr = Expr {
                    var: ExprVariant::Block(if_block),
                    typ: t,
                    span: c.if_block.span,
                };
                let else_expr: Option<Box<Expr>> = match &c.else_block {
                    Option::Some(eb) => {
                        let ghost mid2 = *self;
                        let blk = self.resolve_block(scope, eb);
                        proof {
                            lemma_frame_trans(*old(self), mid2, *self);
                        }
                        Option::Some(
                            Box::new(Expr { var: ExprVariant::Block(blk), typ: t, span: eb.span }),
                        )
                    },
                    Option::None => Option::None,
                };
                let e = Expr {
                    var: ExprVariant::IfConditional(
                        crate::ast::IfConditional {
                            cond: Box::new(ce),
                            if_block: Box::new(if_expr),
                            else_block: else_expr,
                        },
                    ),
                    typ: t,
                    span: s.span,
                };
                Stmt { var: StmtVariant::Expr(e), span: s.span }
            },
            SynStmtVariant::While(w) => {
                let (ct, ce) = self.resolve_expr(scope, &w.cond);
                if ct != self.bool_ty && ct != TYPE_ERR_IDENT {
                    let ghost mid = *self;
                    self.diag(DiagKind::TypeMismatch, w.cond.span);
                    proof {
                        lemma_frame_trans(*old(self), mid, *self);
                    }
                }
                let ghost mid1 = *self;
                let blk = self.resolve_block(scope, &w.block);
                proof {
                    lemma_frame_trans(*old(self), mid1, *self);
                }
                let t = self.unit_ty;
                let e = Expr {
                    var: ExprVariant::WhileConditional(
                        crate::ast::WhileConditional { cond: Box::new(ce), block: Box::new(blk) },
                    ),
                    typ: t,
                    span: s.span,
                };
                Stmt { var: StmtVariant::Expr(e), span: s.span }
            },
            SynStmtVariant::FnDecl(f) => {
                let fn_scope = self.arena.new_scope(Option::Some(scope));
                proof {
                    assert(self.wf());
                    assert(frame(*old(self), *self));
                }
                let n = f.params.len();
                let mut i: usize = 0;
                while i < n
                    invariant
                        self.wf(),
                        frame(*old(self), *self),
                        (scope as int) < self.arena.scopes@.len(),
                        (fn_scope as int) < self.arena.scopes@.len(),
                        n == f.params@.len(),
                        0 <= i <= n,
                    decreases n - i,
                {
                    let ghost before = *self;
                    let t = self.resolve_type_name(fn_scope, f.params[i].typ.as_str(), f.span);
                    let _len = self.registry.types.len();
                    let td = td_copy(&self.registry.types[t as usize]);
                    proof {
                        lemma_frame_trans(*old(self), before, *self);
                        assert(td_components_lt(self.registry.types@[t as int], t as int));
                        lemma_td_components_mono(
                            self.registry.types@[t as int],
                            t as int,
                            self.registry.types@.len() as int,
                        );
                        lemma_td_eq_components(
                            td,
                            self.registry.types@[t as int],
                            self.registry.types@.len() as int,
                        );
                    }
                    let ghost before_ins = *self;
                    let ins = self.insert_symbol(
                        fn_scope,
                        f.params[i].name.as_str(),
                        SymbolDef::Var { typ: td, is_const: false, is_callable: false },
                    );
                    proof {
                        lemma_frame_trans(*old(self), before_ins, *self);
                    }
                    match ins {
                        Result::Ok(_) => {},
                        Result::Err(ScopeError::NameConflict) => {
                            let ghost mid = *self;
                            self.diag(DiagKind::NameConflict, f.span);
                            proof {
                                lemma_frame_trans(*old(self), mid, *self);
                            }
                        },
                        Result::Err(_) => {
                            let ghost mid = *self;
                            self.diag(DiagKind::InvalidName, f.span);
                            proof {
                                lemma_frame_trans(*old(self), mid, *self);
                            }
                        },
                    }
                    i = i + 1;
                }
                let ghost mid_body = *self;
                let body = self.resolve_stmts(fn_scope, &f.body.stmts);
                proof {
                    lemma_frame_trans(*old(self), mid_body, *self);
                }
                let t = self.unit_ty;
                let unit_val = Expr { var: ExprVariant::Empty, typ: t, span: f.body.span };
                let blk = Block {
                    vars: Vec::new(),
                    stmts: body,
                    return_type: t,
                    val: Box::new(unit_val),
                };
                let e = Expr { var: ExprVariant::Block(blk), typ: t, span: f.span };
                Stmt { var: StmtVariant::Expr(e), span: s.span }
            },
        }
    }

    /// Resolve a block in a fresh child scope of `parent`: its statements
    /// in order, with the indices of the variables the block added to the
    /// flat table.
    fn resolve_block(&mut self, parent: usize, b: &SynBlock) -> (r: Block)
        requires
            old(self).wf(),
            (parent as int) < old(self).arena.scopes@.len(),
        ensures
            final(self).wf(),
            frame(*old(self), *final(self)),
        decreases *b,
    {
        let child = self.arena.new_scope(Option::Some(parent));
        proof {
            assert(self.wf());
            assert(frame(*old(self), *self));
        }
        let vars_before = self.vars.len();
        let ghost mid = *self;
        let stmts = self.resolve_stmts(child, &b.stmts);
        proof {
            lemma_frame_trans(*old(self), mid, *self);
        }
        let vars_after = self.vars.len();
        let mut vars: Vec<usize> = Vec::new();
        let mut v: usize = vars_before;
        while v < vars_after
            invariant
                vars_before <= v <= vars_after,
            decreases vars_after - v,
        {
            vars.push(v);
            v = v + 1;
        }
        let t = self.unit_ty;
        let unit_val = Expr { var: ExprVariant::Empty, typ: t, span: b.span };
        Block { vars, stmts, return_type: t, val: Box::new(unit_val) }
    }

    /// Resolve a statement list against `scope` in two passes: first every
    /// function declaration's header is inserted, then the statements are
    /// resolved in source order. Afterwards every grammatically named
    /// function declaration of the list is bound in the scope — forward
    /// references among the list's functions therefore resolve.
    pub fn resolve_stmts(&mut self, scope: usize, stmts: &Vec<SynStmt>) -> (r: Vec<Stmt>)
        requires
            old(self).wf(),
            (scope as int) < old(self).arena.scopes@.len(),
        ensures
            final(self).wf(),
            frame(*old(self), *final(self)),
            fn_headers_visible(final(self).arena, scope as int, stmts@),
            r@.len() == stmts@.len(),
            all_simple(stmts@) ==> final(self).arena == old(self).arena && final(self).errors@.len() >= old(self).errors@.len() + undeclared_uses(
                old(self).arena,
                scope as int,
                stmts@,
                stmts@.len() as int,
            ),
        decreases *stmts,
    {
        let n = stmts.len();
        let mut i: usize = 0;
        while i < n
            invariant
                self.wf(),
                frame(*old(self), *self),
                (scope as int) < self.arena.scopes@.len(),
                n == stmts@.len(),
                0 <= i <= n,
                fn_headers_visible(self.arena, scope as int, stmts@.subrange(0, i as int)),
                all_simple(stmts@) ==> *self == *old(self),
            decreases n - i,
        {
            let ghost pre_arena = self.arena;
            match &stmts[i].var {
                SynStmtVariant::FnDecl(f) => {
                    let ghost before = *self;
                    self.resolve_fn_header(scope, f);
                    proof {
                        lemma_frame_trans(*old(self), before, *self);
                    }
                },
                _ => {},
            }
            proof {
                assert forall|j: int|
                    0 <= j < i + 1 implies fn_header_visible_at(
                    self.arena,
                    scope as int,
                    #[trigger] stmts@.subrange(0, i + 1)[j],
                ) by {
                    if j < i as int {
                        assert(fn_header_visible_at(
                            pre_arena,
                            scope as int,
                            stmts@.subrange(0, i as int)[j],
                        ));
                        assert(stmts@.subrange(0, i as int)[j] == stmts@.subrange(0, i + 1)[j]);
                    } else {
                        assert(stmts@.subrange(0, i + 1)[j] == stmts@[i as int]);
                    }
                }
            }
            i = i + 1;
        }
        proof {
            assert(stmts@.subrange(0, n as int) =~= stmts@);
        }
        let ghost after_headers = *self;
        let mut out: Vec<Stmt> = Vec::new();
        let mut k: usize = 0;
        while k < n
            invariant
                self.wf(),
                frame(*old(self), *self),
                frame(after_headers, *self),
                (scope as int) < self.arena.scopes@.len(),
                n == stmts@.len(),
                0 <= k <= n,
                fn_headers_visible(self.arena, scope as int, stmts@),
                out@.len() == k,
                all_simple(stmts@) ==> after_headers == *old(self),
                all_simple(stmts@) ==> self.arena == old(self).arena && self.errors@.len()
                    >= old(self).errors@.len() + undeclared_uses(
                    old(self).arena,
                    scope as int,
                    stmts@,
                    k as int,
                ),
            decreases n - k,
        {
            let ghost before = *self;
            let st = self.resolve_stmt(scope, &stmts[k]);
            proof {
                lemma_frame_trans(*old(self), before, *self);
                lemma_frame_trans(after_headers, before, *self);
                if all_simple(stmts@) {
                    assert(simple_stmt(stmts@[k as int]));
                    if stmt_is_undeclared_use(old(self).arena, scope as int, stmts@[k as int]) {
                        assert(self.errors@.len() > before.errors@.len());
                    }
                    assert(undeclared_uses(old(self).arena, scope as int, stmts@, k + 1)
                        == undeclared_uses(old(self).arena, scope as int, stmts@, k as int) + (
                    if stmt_is_undeclared_use(old(self).arena, scope as int, stmts@[k as int]) {
                        1int
                    } else {
                        0int
                    }));
                }
                assert forall|j: int|
                    0 <= j < stmts@.len() implies fn_header_visible_at(
                    self.arena,
                    scope as int,
                    #[trigger] stmts@[j],
                ) by {
                    assert(fn_header_visible_at(before.arena, scope as int, stmts@[j]));
                }
            }
            out.push(st);
            k = k + 1;
        }
        out
    }
}

/// A statement that resolves without ever touching the scope structure: a
/// plain expression, a return, or the empty statement.
pub open spec fn simple_stmt(s: SynStmt) -> bool {
    match s.var {
        SynStmtVariant::Expr(e0) => true,
        SynStmtVariant::Return(e0) => true,
        SynStmtVariant::Empty => true,
        _ => false,
    }
}

/// Whether every statement of the list is simple.
pub open spec fn all_simple(stmts: Seq<SynStmt>) -> bool {
    forall|j: int| 0 <= j < stmts.len() ==> simple_stmt(#[trigger] stmts[j])
}

/// Whether `s` is a plain use — as an expression or return value — of one
/// name that the chain of `scope` does not bind.
pub open spec fn stmt_is_undeclared_use(arena: ScopeArena, scope: int, s: SynStmt) -> bool {
    match s.var {
        SynStmtVariant::Expr(e0) => match e0.var {
            SynExprVariant::Ident(n) => arena.lookup_spec(scope, n@) is None,
            _ => false,
        },
        SynStmtVariant::Return(e0) => match e0.var {
            SynExprVariant::Ident(n) => arena.lookup_spec(scope, n@) is None,
            _ => false,
        },
        _ => false,
    }
}

/// Number of statements among the first `i` of `stmts` that are plain uses
/// of names the chain of `scope` does not bind: a lower bound on the
/// diagnostics a resolution of the list must report.
pub open spec fn undeclared_uses(arena: ScopeArena, scope: int, stmts: Seq<SynStmt>, i: int) -> int
    decreases i,
{
    if i <= 0 {
        0
    } else {
        undeclared_uses(arena, scope, stmts, i - 1) + (if stmt_is_undeclared_use(
            arena,
            scope,
            stmts[i - 1],
        ) {
            1int
        } else {
            0int
        })
    }
}

/// Whether every argument of a call is an integer literal, so each
/// argument's type is the integer-literal type and resolving it changes
/// nothing.
pub open spec fn all_int_literal_args(ps: Seq<SynExpr>) -> bool {
    forall|j: int| 0 <= j < ps.len() ==> (#[trigger] ps[j]).var is IntLiteral
}

/// Whether the header of `s`, if it is a grammatically named function
/// declaration, is bound in the scope's own map.
pub open spec fn fn_header_visible_at(arena: ScopeArena, scope: int, s: SynStmt) -> bool {
    match s.var {
        SynStmtVariant::FnDecl(f) => valid_ident(f.name@) ==> arena.lookup_local_spec(
            scope,
            f.name@,
        ) is Some,
        _ => true,
    }
}

/// Whether every grammatically named function declaration of `stmts` is
/// bound in the scope's own map: what holds after the header pass, before
/// any body is resolved, and still holds when resolution is done.
pub open spec fn fn_headers_visible(arena: ScopeArena, scope: int, stmts: Seq<SynStmt>) -> bool {
    forall|j: int| 0 <= j < stmts.len() ==> fn_header_visible_at(arena, scope, #[trigger] stmts[j])
}

/// Resolve a whole program: open the root scope, then resolve the
/// top-level statements, function headers first. The result is the typed
/// program handed to code generation — root scope, arena, flat variable
/// table and closed type universe — together with the typed top-level
/// statements and every diagnostic collected, in source order.
pub fn resolve_program(prog: &SynProgram) -> (r: (Program, Vec<Stmt>, Vec<Diagnostic>))
    ensures
        r.0.arena.wf(),
        r.0.scope == 0,
        r.0.scope < r.0.arena.scopes@.len(),
        forall|i: int|
            0 <= i < r.0.types@.len() ==> td_components_lt(#[trigger] r.0.types@[i], i),
        fn_headers_visible(r.0.arena, r.0.scope as int, prog.stmts@),
        r.1@.len() == prog.stmts@.len(),
        all_simple(prog.stmts@) ==> r.2@.len() >= undeclared_uses(
            r.0.arena,
            r.0.scope as int,
            prog.stmts@,
            prog.stmts@.len() as int,
        ),
{
    let mut rv = Resolver::new();
    let root = rv.arena.new_scope(Option::None);
    proof {
        assert(rv.wf());
    }
    let stmts = rv.resolve_stmts(root, &prog.stmts);
    let Resolver { arena, registry, errors, vars, .. } = rv;
    (Program { scope: root, arena, vars, types: registry.types }, stmts, errors)
}

/// The typed node of an assignment: the target as a variable reference,
/// the resolved right-hand side, and the type the assignment got.
fn asn_expr(sym: usize, rhs: Expr, t: TypeIdent, span: Span) -> (r: Expr)
    ensures
        r.typ == t,
{
    let lhs = Expr { var: ExprVariant::VarRef(VarRef { idx: sym }), typ: t, span };
    Expr {
        var: ExprVariant::BinaryOp(
            crate::ast::BinaryOp { lhs: Box::new(lhs), rhs: Box::new(rhs), op: OpVar::_Asn },
        ),
        typ: t,
        span,
    }
}

} // verus!
