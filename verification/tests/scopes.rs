use c0front::scope::Scope;
use c0front::scope::ScopeArena;
use c0front::scope::ScopeError;
use c0front::scope::SymbolDef;
use c0front::ty::PrimitiveType;
use c0front::ty::PrimitiveTypeVar;
use c0front::ty::TypeDef;

fn var_entry(bytes: usize) -> SymbolDef {
    SymbolDef::Var {
        typ: TypeDef::Primitive(PrimitiveType { occupy_bytes: bytes, var: PrimitiveTypeVar::SignedInt }),
        is_const: false,
        is_callable: false,
    }
}

fn entry_bytes(s: &SymbolDef) -> usize {
    match s {
        SymbolDef::Var { typ: TypeDef::Primitive(p), .. } => p.occupy_bytes,
        _ => panic!("expected a primitive variable entry"),
    }
}

#[test]
fn insert_then_lookup_local() {
    let mut a = ScopeArena::new();
    let root = a.new_scope(None);
    let id = a.insert_def(root, "x", var_entry(4)).unwrap();
    assert_eq!(a.find_def_self(root, "x"), Some(id));
    assert_eq!(a.find_def_self(root, "y"), None);
}

#[test]
fn shadowing_resolves_innermost_first() {
    let mut a = ScopeArena::new();
    let outer = a.new_scope(None);
    let inner = a.new_scope(Some(outer));
    let outer_x = a.insert_def(outer, "x", var_entry(4)).unwrap();
    // declaring x in the inner scope must succeed although the outer x exists
    let inner_x = a.insert_def(inner, "x", var_entry(8)).unwrap();
    assert_ne!(outer_x, inner_x);
    // lookup from inside the inner scope yields the inner entry
    assert_eq!(a.find_def(inner, "x"), Some(inner_x));
    assert_eq!(entry_bytes(a.get_symbol(inner_x)), 8);
    // lookup from the outer scope yields the outer entry, unaffected
    assert_eq!(a.find_def(outer, "x"), Some(outer_x));
    assert_eq!(entry_bytes(a.get_symbol(outer_x)), 4);
}

#[test]
fn second_insert_in_same_scope_conflicts() {
    let mut a = ScopeArena::new();
    let root = a.new_scope(None);
    let first = a.insert_def(root, "n", var_entry(4)).unwrap();
    let again = a.insert_def(root, "n", var_entry(8));
    assert!(matches!(again, Err(ScopeError::NameConflict)));
    // the first entry is intact
    assert_eq!(a.find_def(root, "n"), Some(first));
    assert_eq!(entry_bytes(a.get_symbol(first)), 4);
}

#[test]
fn bad_names_are_refused() {
    let mut a = ScopeArena::new();
    let root = a.new_scope(None);
    assert!(matches!(a.insert_def(root, "1abc", var_entry(4)), Err(ScopeError::InvalidName)));
    assert!(matches!(a.insert_def(root, "", var_entry(4)), Err(ScopeError::InvalidName)));
    assert!(matches!(a.insert_def(root, "a-b", var_entry(4)), Err(ScopeError::InvalidName)));
    assert!(a.insert_def(root, "_a1", var_entry(4)).is_ok());
    assert!(a.insert_def(root, "A9_z", var_entry(4)).is_ok());
}

#[test]
fn chain_lookup_walks_outward() {
    let mut a = ScopeArena::new();
    let s0 = a.new_scope(None);
    let s1 = a.new_scope(Some(s0));
    let s2 = a.new_scope(Some(s1));
    let g = a.insert_def(s0, "g", var_entry(1)).unwrap();
    assert_eq!(a.find_def(s2, "g"), Some(g));
    assert_eq!(a.find_def(s2, "missing"), None);
    assert_eq!(a.find_def_self(s2, "g"), None);
}

#[test]
fn skipping_scopes_searches_outside() {
    let mut a = ScopeArena::new();
    let s0 = a.new_scope(None);
    let s1 = a.new_scope(Some(s0));
    let s2 = a.new_scope(Some(s1));
    let outer_x = a.insert_def(s0, "x", var_entry(1)).unwrap();
    let inner_x = a.insert_def(s2, "x", var_entry(2)).unwrap();
    assert_eq!(a.find_def_skip(s2, "x", 0), Some(inner_x));
    assert_eq!(a.find_def_skip(s2, "x", 1), Some(outer_x));
    assert_eq!(a.find_def_skip(s2, "x", 2), Some(outer_x));
    assert_eq!(a.find_def_skip(s2, "x", 3), None);
}

#[test]
fn insertion_order_is_kept_per_scope() {
    let mut a = ScopeArena::new();
    let root = a.new_scope(None);
    let i0 = a.insert_def(root, "a", var_entry(1)).unwrap();
    let i1 = a.insert_def(root, "b", var_entry(2)).unwrap();
    let i2 = a.insert_def(root, "c", var_entry(3)).unwrap();
    assert!(i0 < i1 && i1 < i2);
    let sc: &Scope = &a.scopes[root];
    let names: Vec<&String> = sc.defs.keys().collect();
    assert_eq!(names, vec!["a", "b", "c"]);
}
