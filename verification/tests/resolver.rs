use c0front::ast::IntValue;
use c0front::ast::OpVar;
use c0front::pos::Pos;
use c0front::pos::Span;
use c0front::resolve::resolve_program;
use c0front::resolve::DiagKind;
use c0front::resolve::Resolver;
use c0front::scope::SymbolDef;
use c0front::syntax::SynBinaryOp;
use c0front::syntax::SynBlock;
use c0front::syntax::SynDecl;
use c0front::syntax::SynExpr;
use c0front::syntax::SynExprVariant;
use c0front::syntax::SynFnDecl;
use c0front::syntax::SynFunctionCall;
use c0front::syntax::SynProgram;
use c0front::syntax::SynStmt;
use c0front::syntax::SynStmtVariant;
use c0front::ty::TypeDef;
use c0front::ty::TYPE_ERR_IDENT;

fn span_at(i: usize) -> Span {
    Span::from(Pos::new(0, i, i), Pos::new(0, i, i))
}

fn int_lit(v: u64, at: usize) -> SynExpr {
    SynExpr { var: SynExprVariant::IntLiteral(IntValue::from_u64(v)), span: span_at(at) }
}

fn ident(name: &str, at: usize) -> SynExpr {
    SynExpr { var: SynExprVariant::Ident(name.to_string()), span: span_at(at) }
}

fn binary(op: OpVar, lhs: SynExpr, rhs: SynExpr, at: usize) -> SynExpr {
    SynExpr {
        var: SynExprVariant::BinaryOp(SynBinaryOp { op, lhs: Box::new(lhs), rhs: Box::new(rhs) }),
        span: span_at(at),
    }
}

fn decl(name: &str, is_const: bool, init: SynExpr, at: usize) -> SynStmt {
    SynStmt {
        var: SynStmtVariant::Decl(SynDecl {
            name: name.to_string(),
            is_const,
            typ: None,
            init: Some(Box::new(init)),
            span: span_at(at),
        }),
        span: span_at(at),
    }
}

fn expr_stmt(e: SynExpr, at: usize) -> SynStmt {
    SynStmt { var: SynStmtVariant::Expr(e), span: span_at(at) }
}

fn call(name: &str, at: usize) -> SynExpr {
    SynExpr {
        var: SynExprVariant::FunctionCall(SynFunctionCall { name: name.to_string(), params: Vec::new() }),
        span: span_at(at),
    }
}

fn fn_decl(name: &str, body_stmts: Vec<SynStmt>, at: usize) -> SynStmt {
    SynStmt {
        var: SynStmtVariant::FnDecl(SynFnDecl {
            name: name.to_string(),
            params: Vec::new(),
            ret: None,
            body: SynBlock { stmts: body_stmts, span: span_at(at) },
            span: span_at(at),
        }),
        span: span_at(at),
    }
}

fn program(stmts: Vec<SynStmt>) -> SynProgram {
    SynProgram { stmts, span: span_at(0) }
}

#[test]
fn const_reassignment_is_reported_and_leaves_the_entry() {
    // const x = 1; x = 2;
    let prog = program(vec![
        decl("x", true, int_lit(1, 1), 0),
        expr_stmt(binary(OpVar::_Asn, ident("x", 2), int_lit(2, 3), 2), 2),
    ]);
    let (p, _stmts, errors) = resolve_program(&prog);
    assert_eq!(errors.len(), 1);
    assert_eq!(errors[0].kind, DiagKind::ConstReassignment);
    assert_eq!(errors[0].span, span_at(2));
    // the stored entry for x is still the const integer binding
    let root = p.scope;
    let sym = p.arena.find_def(root, "x").unwrap();
    match p.arena.get_symbol(sym) {
        SymbolDef::Var { typ, is_const, is_callable } => {
            assert!(*is_const);
            assert!(!*is_callable);
            assert!(matches!(typ, TypeDef::Primitive(_)));
        }
        other => panic!("expected a variable entry, found {:?}", other),
    }
}

#[test]
fn plain_reassignment_of_a_variable_is_fine() {
    let prog = program(vec![
        decl("x", false, int_lit(1, 1), 0),
        expr_stmt(binary(OpVar::_Asn, ident("x", 2), int_lit(2, 3), 2), 2),
    ]);
    let (_p, _stmts, errors) = resolve_program(&prog);
    assert!(errors.is_empty(), "unexpected diagnostics: {:?}", errors);
}

#[test]
fn mutually_recursive_functions_resolve() {
    // fn a() { b(); }  fn b() { a(); }
    let prog = program(vec![
        fn_decl("a", vec![expr_stmt(call("b", 1), 1)], 0),
        fn_decl("b", vec![expr_stmt(call("a", 3), 3)], 2),
    ]);
    let (_p, _stmts, errors) = resolve_program(&prog);
    assert!(errors.is_empty(), "unexpected diagnostics: {:?}", errors);
}

#[test]
fn three_undeclared_identifiers_give_three_diagnostics_in_order() {
    let prog = program(vec![
        expr_stmt(ident("alpha", 1), 1),
        expr_stmt(ident("beta", 2), 2),
        expr_stmt(ident("gamma", 3), 3),
    ]);
    let (_p, _stmts, errors) = resolve_program(&prog);
    assert_eq!(errors.len(), 3);
    for e in &errors {
        assert_eq!(e.kind, DiagKind::UndeclaredIdentifier);
    }
    assert_eq!(errors[0].span, span_at(1));
    assert_eq!(errors[1].span, span_at(2));
    assert_eq!(errors[2].span, span_at(3));
}

#[test]
fn arithmetic_on_matching_widths_keeps_the_type() {
    let mut rv = Resolver::new();
    let root = rv.arena.new_scope(None);
    let e = binary(OpVar::Add, int_lit(1, 0), int_lit(2, 1), 2);
    let (t, _te) = rv.resolve_expr(root, &e);
    assert_eq!(t, rv.int_ty);
    assert!(rv.errors.is_empty());
}

#[test]
fn comparison_yields_boolean() {
    let mut rv = Resolver::new();
    let root = rv.arena.new_scope(None);
    let e = binary(OpVar::Lt, int_lit(1, 0), int_lit(2, 1), 2);
    let (t, _te) = rv.resolve_expr(root, &e);
    assert_eq!(t, rv.bool_ty);
    assert!(rv.errors.is_empty());
}

#[test]
fn operator_on_forbidden_operands_is_a_mismatch() {
    let mut rv = Resolver::new();
    let root = rv.arena.new_scope(None);
    let s = SynExpr {
        var: SynExprVariant::StringLiteral("hi".to_string()),
        span: span_at(0),
    };
    let e = binary(OpVar::Add, s, int_lit(2, 1), 2);
    let (t, _te) = rv.resolve_expr(root, &e);
    assert_eq!(t, TYPE_ERR_IDENT);
    assert_eq!(rv.errors.len(), 1);
    assert_eq!(rv.errors[0].kind, DiagKind::TypeMismatch);
}

#[test]
fn type_err_propagates_without_extra_diagnostics() {
    let mut rv = Resolver::new();
    let root = rv.arena.new_scope(None);
    // (missing + 1) + 2 — one undeclared identifier, one diagnostic only
    let inner = binary(OpVar::Add, ident("missing", 0), int_lit(1, 1), 1);
    let e = binary(OpVar::Add, inner, int_lit(2, 2), 2);
    let (t, _te) = rv.resolve_expr(root, &e);
    assert_eq!(t, TYPE_ERR_IDENT);
    assert_eq!(rv.errors.len(), 1);
    assert_eq!(rv.errors[0].kind, DiagKind::UndeclaredIdentifier);
}

#[test]
fn calling_a_plain_variable_is_the_wrong_kind_of_symbol() {
    let prog = program(vec![
        decl("x", false, int_lit(1, 1), 0),
        expr_stmt(call("x", 2), 2),
    ]);
    let (_p, _stmts, errors) = resolve_program(&prog);
    assert_eq!(errors.len(), 1);
    assert_eq!(errors[0].kind, DiagKind::InvalidSymbol);
}

#[test]
fn duplicate_declaration_in_one_scope_is_a_conflict() {
    let prog = program(vec![
        decl("x", false, int_lit(1, 1), 0),
        decl("x", false, int_lit(2, 3), 2),
    ]);
    let (_p, _stmts, errors) = resolve_program(&prog);
    assert_eq!(errors.len(), 1);
    assert_eq!(errors[0].kind, DiagKind::NameConflict);
}

#[test]
fn declaration_infers_its_type_from_the_initializer() {
    let prog = program(vec![decl("x", false, int_lit(1, 1), 0)]);
    let (p, _stmts, errors) = resolve_program(&prog);
    assert!(errors.is_empty());
    let sym = p.arena.find_def(p.scope, "x").unwrap();
    match p.arena.get_symbol(sym) {
        SymbolDef::Var { typ: TypeDef::Primitive(pt), .. } => {
            assert_eq!(pt.occupy_bytes, 8);
        }
        other => panic!("expected an inferred primitive, found {:?}", other),
    }
}

#[test]
fn call_arguments_are_checked_against_parameter_types() {
    let mut rv = Resolver::new();
    let root = rv.arena.new_scope(None);
    rv.arena
        .insert_def(
            root,
            "int64",
            SymbolDef::Typ {
                def: TypeDef::Primitive(c0front::ty::PrimitiveType {
                    occupy_bytes: 8,
                    var: c0front::ty::PrimitiveTypeVar::SignedInt,
                }),
            },
        )
        .unwrap();
    let f = SynStmt {
        var: SynStmtVariant::FnDecl(SynFnDecl {
            name: "twice".to_string(),
            params: vec![c0front::syntax::SynParam { name: "a".to_string(), typ: "int64".to_string() }],
            ret: Some("int64".to_string()),
            body: SynBlock { stmts: Vec::new(), span: span_at(1) },
            span: span_at(1),
        }),
        span: span_at(1),
    };
    let good_call = SynExpr {
        var: SynExprVariant::FunctionCall(SynFunctionCall {
            name: "twice".to_string(),
            params: vec![int_lit(3, 2)],
        }),
        span: span_at(2),
    };
    let bad_call = SynExpr {
        var: SynExprVariant::FunctionCall(SynFunctionCall {
            name: "twice".to_string(),
            params: Vec::new(),
        }),
        span: span_at(3),
    };
    let _ = rv.resolve_stmts(root, &vec![f, expr_stmt(good_call, 2)]);
    assert!(rv.errors.is_empty(), "unexpected diagnostics: {:?}", rv.errors);
    let (t, _e) = rv.resolve_expr(root, &bad_call);
    // too few arguments: a type mismatch, and the call degrades to TypeErr
    assert_eq!(t, TYPE_ERR_IDENT);
    assert_eq!(rv.errors.len(), 1);
    assert_eq!(rv.errors[0].kind, DiagKind::TypeMismatch);
}

#[test]
fn unary_negation_keeps_a_primitive_type() {
    let mut rv = Resolver::new();
    let root = rv.arena.new_scope(None);
    let e = SynExpr {
        var: SynExprVariant::UnaryOp(c0front::syntax::SynUnaryOp {
            op: OpVar::Neg,
            tgt: Box::new(int_lit(5, 0)),
        }),
        span: span_at(1),
    };
    let (t, _te) = rv.resolve_expr(root, &e);
    assert_eq!(t, rv.int_ty);
    assert!(rv.errors.is_empty());
}

#[test]
fn boolean_inverse_needs_a_boolean() {
    let mut rv = Resolver::new();
    let root = rv.arena.new_scope(None);
    let e = SynExpr {
        var: SynExprVariant::UnaryOp(c0front::syntax::SynUnaryOp {
            op: OpVar::Inv,
            tgt: Box::new(int_lit(5, 0)),
        }),
        span: span_at(1),
    };
    let (t, _te) = rv.resolve_expr(root, &e);
    assert_eq!(t, TYPE_ERR_IDENT);
    assert_eq!(rv.errors.len(), 1);
    assert_eq!(rv.errors[0].kind, DiagKind::TypeMismatch);
}

#[test]
fn reference_then_dereference_round_trips_the_type() {
    let mut rv = Resolver::new();
    let root = rv.arena.new_scope(None);
    let reference = SynExpr {
        var: SynExprVariant::UnaryOp(c0front::syntax::SynUnaryOp {
            op: OpVar::Ref,
            tgt: Box::new(int_lit(5, 0)),
        }),
        span: span_at(1),
    };
    let deref = SynExpr {
        var: SynExprVariant::UnaryOp(c0front::syntax::SynUnaryOp {
            op: OpVar::Der,
            tgt: Box::new(reference),
        }),
        span: span_at(2),
    };
    let (t, _te) = rv.resolve_expr(root, &deref);
    assert_eq!(t, rv.int_ty);
    assert!(rv.errors.is_empty());
}

#[test]
fn if_condition_must_be_boolean() {
    let cond = int_lit(1, 1);
    let prog = program(vec![SynStmt {
        var: SynStmtVariant::If(c0front::syntax::SynIf {
            cond,
            if_block: SynBlock { stmts: Vec::new(), span: span_at(2) },
            else_block: None,
        }),
        span: span_at(0),
    }]);
    let (_p, _stmts, errors) = resolve_program(&prog);
    assert_eq!(errors.len(), 1);
    assert_eq!(errors[0].kind, DiagKind::TypeMismatch);
    assert_eq!(errors[0].span, span_at(1));
}

#[test]
fn while_with_comparison_condition_is_fine() {
    let cond = binary(OpVar::Lt, int_lit(1, 1), int_lit(2, 2), 1);
    let prog = program(vec![SynStmt {
        var: SynStmtVariant::While(c0front::syntax::SynWhile {
            cond,
            block: SynBlock { stmts: Vec::new(), span: span_at(3) },
        }),
        span: span_at(0),
    }]);
    let (_p, _stmts, errors) = resolve_program(&prog);
    assert!(errors.is_empty(), "unexpected diagnostics: {:?}", errors);
}

#[test]
fn declared_type_must_match_the_initializer() {
    // a declaration whose named type is bound to the boolean type but whose
    // initializer is an integer literal
    let mut rv = Resolver::new();
    let root = rv.arena.new_scope(None);
    rv.arena
        .insert_def(
            root,
            "boolean",
            SymbolDef::Typ {
                def: TypeDef::Primitive(c0front::ty::PrimitiveType {
                    occupy_bytes: 1,
                    var: c0front::ty::PrimitiveTypeVar::UnsignedInt,
                }),
            },
        )
        .unwrap();
    let d = SynStmt {
        var: SynStmtVariant::Decl(SynDecl {
            name: "x".to_string(),
            is_const: false,
            typ: Some("boolean".to_string()),
            init: Some(Box::new(int_lit(1, 2))),
            span: span_at(1),
        }),
        span: span_at(1),
    };
    let _ = rv.resolve_stmt(root, &d);
    assert_eq!(rv.errors.len(), 1);
    assert_eq!(rv.errors[0].kind, DiagKind::TypeMismatch);
}

#[test]
fn block_scopes_shadow_and_expire() {
    // { x declared in an inner block } then x used at top level: undeclared
    let inner_decl = decl("y", false, int_lit(1, 1), 1);
    let prog = program(vec![
        SynStmt {
            var: SynStmtVariant::If(c0front::syntax::SynIf {
                cond: binary(OpVar::Eq, int_lit(1, 0), int_lit(1, 0), 0),
                if_block: SynBlock { stmts: vec![inner_decl], span: span_at(1) },
                else_block: None,
            }),
            span: span_at(0),
        },
        expr_stmt(ident("y", 5), 5),
    ]);
    let (_p, _stmts, errors) = resolve_program(&prog);
    assert_eq!(errors.len(), 1);
    assert_eq!(errors[0].kind, DiagKind::UndeclaredIdentifier);
    assert_eq!(errors[0].span, span_at(5));
}
