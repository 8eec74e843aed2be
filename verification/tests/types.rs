use c0front::ty::compute_offsets;
use c0front::ty::variant_eq;
use c0front::ty::type_def_eq;
use c0front::ty::PrimitiveType;
use c0front::ty::PrimitiveTypeVar;
use c0front::ty::RefType;
use c0front::ty::TypeDef;
use c0front::ty::TypeRegistry;
use c0front::ty::TYPE_ERR_IDENT;
use c0front::ty::UNIT_IDENT;
use c0front::ty::UNKNOWN_IDENT;

fn prim(bytes: usize, var: PrimitiveTypeVar) -> TypeDef {
    TypeDef::Primitive(PrimitiveType { occupy_bytes: bytes, var })
}

#[test]
fn sentinels_have_fixed_identities() {
    let r = TypeRegistry::new();
    assert_eq!(r.types[UNIT_IDENT as usize], TypeDef::Unit);
    assert_eq!(r.types[UNKNOWN_IDENT as usize], TypeDef::Unknown);
    assert_eq!(r.types[TYPE_ERR_IDENT as usize], TypeDef::TypeErr);
}

#[test]
fn interning_is_idempotent() {
    let mut r = TypeRegistry::new();
    let a = r.intern(prim(8, PrimitiveTypeVar::UnsignedInt));
    let b = r.intern(prim(8, PrimitiveTypeVar::UnsignedInt));
    assert_eq!(a, b);
    let len = r.types.len();
    let c = r.intern(prim(8, PrimitiveTypeVar::UnsignedInt));
    assert_eq!(c, a);
    assert_eq!(r.types.len(), len);
}

#[test]
fn distinct_structures_do_not_collide() {
    let mut r = TypeRegistry::new();
    let a = r.intern(prim(8, PrimitiveTypeVar::UnsignedInt));
    let b = r.intern(prim(8, PrimitiveTypeVar::SignedInt));
    let c = r.intern(prim(4, PrimitiveTypeVar::UnsignedInt));
    assert_ne!(a, b);
    assert_ne!(a, c);
    assert_ne!(b, c);
    let d = r.intern(TypeDef::Ref(RefType { target: a }));
    let e = r.intern(TypeDef::Ref(RefType { target: b }));
    assert_ne!(d, e);
}

#[test]
fn reinterning_unit_reuses_the_sentinel() {
    let mut r = TypeRegistry::new();
    assert_eq!(r.intern(TypeDef::Unit), UNIT_IDENT);
    assert_eq!(r.intern(TypeDef::TypeErr), TYPE_ERR_IDENT);
}

#[test]
fn variant_and_structural_equality() {
    let a = prim(8, PrimitiveTypeVar::SignedInt);
    let b = prim(4, PrimitiveTypeVar::SignedInt);
    assert!(variant_eq(&a, &b));
    assert!(!type_def_eq(&a, &b));
    assert!(type_def_eq(&a, &prim(8, PrimitiveTypeVar::SignedInt)));
    assert!(!variant_eq(&a, &TypeDef::Unit));
}

#[test]
fn packed_offsets_are_prefix_sums() {
    let sizes = vec![4usize, 8, 1];
    let (offsets, total) = compute_offsets(&sizes).unwrap();
    assert_eq!(offsets, vec![0, 4, 12]);
    assert_eq!(total, 13);
}

#[test]
fn packed_offsets_of_nothing() {
    let (offsets, total) = compute_offsets(&Vec::new()).unwrap();
    assert!(offsets.is_empty());
    assert_eq!(total, 0);
}

#[test]
fn packed_offsets_overflow_is_refused() {
    let sizes = vec![usize::MAX, 1];
    assert!(compute_offsets(&sizes).is_none());
}

#[test]
fn struct_layout_packs_fields() {
    let mut r = TypeRegistry::new();
    let f0 = r.intern(prim(4, PrimitiveTypeVar::SignedInt));
    let f1 = r.intern(prim(8, PrimitiveTypeVar::SignedInt));
    let f2 = r.intern(prim(1, PrimitiveTypeVar::UnsignedInt));
    let sid = r.intern_struct(vec![f0, f1, f2]).unwrap();
    match &r.types[sid as usize] {
        TypeDef::Struct(st) => {
            assert_eq!(st.field_types, vec![f0, f1, f2]);
            assert_eq!(st.field_offsets, vec![0, 4, 12]);
            assert_eq!(st.occupy_bytes, 13);
        }
        other => panic!("expected a struct type, found {:?}", other),
    }
}

#[test]
fn struct_layout_interns_structurally() {
    let mut r = TypeRegistry::new();
    let f0 = r.intern(prim(2, PrimitiveTypeVar::UnsignedInt));
    let a = r.intern_struct(vec![f0, f0]).unwrap();
    let b = r.intern_struct(vec![f0, f0]).unwrap();
    assert_eq!(a, b);
}

#[test]
fn size_of_follows_the_structure() {
    let mut r = TypeRegistry::new();
    let i4 = r.intern(prim(4, PrimitiveTypeVar::SignedInt));
    assert_eq!(r.size_of(i4), Some(4));
    assert_eq!(r.size_of(UNIT_IDENT), Some(0));
    let rf = r.intern(TypeDef::Ref(RefType { target: i4 }));
    assert_eq!(r.size_of(rf), Some(8));
    let arr = r.intern(TypeDef::Array(c0front::ty::ArrayType { target: i4, length: 10 }));
    assert_eq!(r.size_of(arr), Some(40));
}
