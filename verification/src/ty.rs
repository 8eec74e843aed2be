//! The type system: a closed set of type variants and a deduplicating
//! registry that assigns each distinct structure a stable integer identity.
//!
//! Two structurally equal types always receive the same [`TypeIdent`]; the
//! registry scans the already-interned types for a structural match before it
//! hands out a fresh identity. Struct layout is packed: each field's offset
//! is the byte total of the fields before it, and the struct occupies the
//! plain sum of its field sizes.

use vstd::prelude::*;

verus! {

/// Stable integer identity of an interned type.
pub type TypeIdent = u64;

/// Identity of the pre-interned [`TypeDef::Unit`].
pub const UNIT_IDENT: u64 = 0;

/// Identity of the pre-interned [`TypeDef::Unknown`].
pub const UNKNOWN_IDENT: u64 = 1;

/// Identity of the pre-interned [`TypeDef::TypeErr`].
pub const TYPE_ERR_IDENT: u64 = 2;

/// The kind of a primitive type.
#[derive(Debug, Clone, Copy, PartialEq, Eq, Structural)]
pub enum PrimitiveTypeVar {
    SignedInt,
    UnsignedInt,
    Float,
}

/// A primitive type: an integer or floating-point machine type of a given
/// byte size.
#[derive(Debug, Clone, Copy, PartialEq, Eq, Structural)]
pub struct PrimitiveType {
    pub occupy_bytes: usize,
    pub var: PrimitiveTypeVar,
}

/// A struct type: ordered field types with matching byte offsets and the
/// total number of occupied bytes.
#[derive(Debug, Clone, PartialEq, Eq)]
pub struct StructType {
    /// Fields of this struct, as interned type identities.
    pub field_types: Vec<TypeIdent>,
    /// Byte offset of each field: the running total of the sizes before it.
    pub field_offsets: Vec<usize>,
    /// Total occupied bytes: the sum of the field sizes, with no padding.
    pub occupy_bytes: usize,
}

/// A function type: ordered parameter types and a single return type.
#[derive(Debug, Clone, PartialEq, Eq)]
pub struct FunctionType {
    pub params: Vec<TypeIdent>,
    pub return_type: TypeIdent,
}

/// A reference type: a pointer to its target, not ownership of it.
#[derive(Debug, Clone, Copy, PartialEq, Eq, Structural)]
pub struct RefType {
    pub target: TypeIdent,
}

/// An array type: a fixed number of elements of one target type.
#[derive(Debug, Clone, Copy, PartialEq, Eq, Structural)]
pub struct ArrayType {
    pub target: TypeIdent,
    pub length: usize,
}

/// A type of the source language.
#[derive(Debug, Clone, PartialEq, Eq)]
pub enum TypeDef {
    Primitive(PrimitiveType),
    Struct(StructType),
    Function(FunctionType),
    Ref(RefType),
    Array(ArrayType),
    /// The type with no value, also called "void".
    Unit,
    /// Not yet resolved; a valid transient state during resolution, never
    /// valid in final output.
    Unknown,
    /// A resolution failure. It propagates without aborting the pass, so one
    /// run collects every error.
    TypeErr,
}

/// Structural equality of two type definitions: the same variant with equal
/// contents, vectors compared element by element.
pub open spec fn td_eq(a: TypeDef, b: TypeDef) -> bool {
    match (a, b) {
        (TypeDef::Primitive(p), TypeDef::Primitive(q)) => p == q,
        (TypeDef::Struct(s), TypeDef::Struct(t)) => s.field_types@ == t.field_types@
            && s.field_offsets@ == t.field_offsets@ && s.occupy_bytes == t.occupy_bytes,
        (TypeDef::Function(f), TypeDef::Function(g)) => f.params@ == g.params@ && f.return_type
            == g.return_type,
        (TypeDef::Ref(r), TypeDef::Ref(s)) => r == s,
        (TypeDef::Array(x), TypeDef::Array(y)) => x == y,
        (TypeDef::Unit, TypeDef::Unit) => true,
        (TypeDef::Unknown, TypeDef::Unknown) => true,
        (TypeDef::TypeErr, TypeDef::TypeErr) => true,
        _ => false,
    }
}

/// Whether two type definitions carry the same variant tag, whatever their
/// contents.
pub open spec fn td_same_variant(a: TypeDef, b: TypeDef) -> bool {
    match (a, b) {
        (TypeDef::Primitive(_), TypeDef::Primitive(_)) => true,
        (TypeDef::Struct(_), TypeDef::Struct(_)) => true,
        (TypeDef::Function(_), TypeDef::Function(_)) => true,
        (TypeDef::Ref(_), TypeDef::Ref(_)) => true,
        (TypeDef::Array(_), TypeDef::Array(_)) => true,
        (TypeDef::Unit, TypeDef::Unit) => true,
        (TypeDef::Unknown, TypeDef::Unknown) => true,
        (TypeDef::TypeErr, TypeDef::TypeErr) => true,
        _ => false,
    }
}

/// Variant-tag equality of two type definitions.
pub fn variant_eq(a: &TypeDef, b: &TypeDef) -> (r: bool)
    ensures
        r == td_same_variant(*a, *b),
{
    match (a, b) {
        (TypeDef::Primitive(_), TypeDef::Primitive(_)) => true,
        (TypeDef::Struct(_), TypeDef::Struct(_)) => true,
        (TypeDef::Function(_), TypeDef::Function(_)) => true,
        (TypeDef::Ref(_), TypeDef::Ref(_)) => true,
        (TypeDef::Array(_), TypeDef::Array(_)) => true,
        (TypeDef::Unit, TypeDef::Unit) => true,
        (TypeDef::Unknown, TypeDef::Unknown) => true,
        (TypeDef::TypeErr, TypeDef::TypeErr) => true,
        _ => false,
    }
}

/// Element-wise comparison of two identifier vectors.
fn eq_vec_u64(a: &Vec<u64>, b: &Vec<u64>) -> (r: bool)
    ensures
        r == (a@ == b@),
{
    if a.len() != b.len() {
        proof {
            assert(a@.len() != b@.len());
        }
        return false;
    }
    let n = a.len();
    let mut i: usize = 0;
    while i < n
        invariant
            n == a@.len() == b@.len(),
            0 <= i <= n,
            forall|j: int| 0 <= j < i ==> a@[j] == b@[j],
        decreases n - i,
    {
        if a[i] != b[i] {
            return false;
        }
        i = i + 1;
    }
    proof {
        assert(a@ =~= b@);
    }
    true
}

/// Element-wise comparison of two offset vectors.
fn eq_vec_usize(a: &Vec<usize>, b: &Vec<usize>) -> (r: bool)
    ensures
        r == (a@ == b@),
{
    if a.len() != b.len() {
        proof {
            assert(a@.len() != b@.len());
        }
        return false;
    }
    let n = a.len();
    let mut i: usize = 0;
    while i < n
        invariant
            n == a@.len() == b@.len(),
            0 <= i <= n,
            forall|j: int| 0 <= j < i ==> a@[j] == b@[j],
        decreases n - i,
    {
        if a[i] != b[i] {
            return false;
        }
        i = i + 1;
    }
    proof {
        assert(a@ =~= b@);
    }
    true
}

/// Structural equality of two type definitions, the executable counterpart
/// of [`td_eq`].
pub fn type_def_eq(a: &TypeDef, b: &TypeDef) -> (r: bool)
    ensures
        r == td_eq(*a, *b),
{
    match (a, b) {
        (TypeDef::Primitive(p), TypeDef::Primitive(q)) => p.occupy_bytes == q.occupy_bytes
            && p.var == q.var,
        (TypeDef::Struct(s), TypeDef::Struct(t)) => eq_vec_u64(&s.field_types, &t.field_types)
            && eq_vec_usize(&s.field_offsets, &t.field_offsets) && s.occupy_bytes
            == t.occupy_bytes,
        (TypeDef::Function(f), TypeDef::Function(g)) => eq_vec_u64(&f.params, &g.params)
            && f.return_type == g.return_type,
        (TypeDef::Ref(r), TypeDef::Ref(s)) => r.target == s.target,
        (TypeDef::Array(x), TypeDef::Array(y)) => x.target == y.target && x.length == y.length,
        (TypeDef::Unit, TypeDef::Unit) => true,
        (TypeDef::Unknown, TypeDef::Unknown) => true,
        (TypeDef::TypeErr, TypeDef::TypeErr) => true,
        _ => false,
    }
}

/// A deep copy of an identifier vector.
pub(crate) fn copy_vec_u64(v: &Vec<u64>) -> (r: Vec<u64>)
    ensures
        r@ == v@,
{
    let mut r: Vec<u64> = Vec::new();
    let n = v.len();
    let mut i: usize = 0;
    while i < n
        invariant
            n == v@.len(),
            0 <= i <= n,
            r@ == v@.subrange(0, i as int),
        decreases n - i,
    {
        r.push(v[i]);
        proof {
            assert(r@ =~= v@.subrange(0, i + 1 as int));
        }
        i = i + 1;
    }
    proof {
        assert(v@.subrange(0, n as int) =~= v@);
    }
    r
}

/// A deep copy of an offset vector.
fn copy_vec_usize(v: &Vec<usize>) -> (r: Vec<usize>)
    ensures
        r@ == v@,
{
    let mut r: Vec<usize> = Vec::new();
    let n = v.len();
    let mut i: usize = 0;
    while i < n
        invariant
            n == v@.len(),
            0 <= i <= n,
            r@ == v@.subrange(0, i as int),
        decreases n - i,
    {
        r.push(v[i]);
        proof {
            assert(r@ =~= v@.subrange(0, i + 1 as int));
        }
        i = i + 1;
    }
    proof {
        assert(v@.subrange(0, n as int) =~= v@);
    }
    r
}

/// A deep copy of a type definition, structurally equal to the original.
pub fn td_copy(d: &TypeDef) -> (r: TypeDef)
    ensures
        td_eq(r, *d),
{
    match d {
        TypeDef::Primitive(p) => TypeDef::Primitive(PrimitiveType { occupy_bytes: p.occupy_bytes, var: p.var }),
        TypeDef::Struct(s) => TypeDef::Struct(
            StructType {
                field_types: copy_vec_u64(&s.field_types),
                field_offsets: copy_vec_usize(&s.field_offsets),
                occupy_bytes: s.occupy_bytes,
            },
        ),
        TypeDef::Function(f) => TypeDef::Function(
            FunctionType { params: copy_vec_u64(&f.params), return_type: f.return_type },
        ),
        TypeDef::Ref(r) => TypeDef::Ref(RefType { target: r.target }),
        TypeDef::Array(a) => TypeDef::Array(ArrayType { target: a.target, length: a.length }),
        TypeDef::Unit => TypeDef::Unit,
        TypeDef::Unknown => TypeDef::Unknown,
        TypeDef::TypeErr => TypeDef::TypeErr,
    }
}

/// Index of the first element of `ts` structurally equal to `d`, or
/// `ts.len()` if there is none: the identity a linear interning scan yields.
pub open spec fn first_match(ts: Seq<TypeDef>, d: TypeDef) -> int
    decreases ts.len(),
{
    if ts.len() == 0 {
        0
    } else if td_eq(ts[0], d) {
        0
    } else {
        1 + first_match(ts.drop_first(), d)
    }
}

/// What [`first_match`] returns: the least index holding a structural match,
/// or the length when no element matches.
pub proof fn lemma_first_match(ts: Seq<TypeDef>, d: TypeDef)
    ensures
        0 <= first_match(ts, d) <= ts.len(),
        first_match(ts, d) < ts.len() ==> td_eq(ts[first_match(ts, d)], d),
        forall|j: int| 0 <= j < first_match(ts, d) ==> !td_eq(ts[j], d),
        first_match(ts, d) == ts.len() ==> forall|j: int|
            0 <= j < ts.len() ==> !td_eq(ts[j], d),
    decreases ts.len(),
{
    if ts.len() > 0 && !td_eq(ts[0], d) {
        let rest = ts.drop_first();
        lemma_first_match(rest, d);
        let m = first_match(ts, d);
        assert forall|j: int| 0 <= j < m implies !td_eq(ts[j], d) by {
            if j > 0 {
                assert(rest[j - 1] == ts[j]);
                assert(!td_eq(rest[j - 1], d));
            }
        }
        if m < ts.len() {
            assert(rest[m - 1] == ts[m]);
        }
        if m == ts.len() {
            assert forall|j: int| 0 <= j < ts.len() implies !td_eq(ts[j], d) by {
                if j > 0 {
                    assert(rest[j - 1] == ts[j]);
                    assert(!td_eq(rest[j - 1], d));
                }
            }
        }
    }
}

/// Structurally equal type definitions mention the same identities, so the
/// component bound carries across [`td_eq`].
pub proof fn lemma_td_eq_components(a: TypeDef, b: TypeDef, n: int)
    requires
        td_eq(a, b),
    ensures
        td_components_lt(a, n) == td_components_lt(b, n),
{
}

/// A component bound only loosens as the registry grows.
pub proof fn lemma_td_components_mono(d: TypeDef, n: int, m: int)
    requires
        td_components_lt(d, n),
        n <= m,
    ensures
        td_components_lt(d, m),
{
}

/// Whether every type identity that `d` mentions is below `n`: the bound an
/// entry must obey before it may stand at index `n` of the registry.
pub open spec fn td_components_lt(d: TypeDef, n: int) -> bool {
    match d {
        TypeDef::Primitive(_) => true,
        TypeDef::Struct(s) => forall|j: int|
            0 <= j < s.field_types@.len() ==> (s.field_types@[j] as int) < n,
        TypeDef::Function(f) => (f.return_type as int) < n && forall|j: int|
            0 <= j < f.params@.len() ==> (f.params@[j] as int) < n,
        TypeDef::Ref(r) => (r.target as int) < n,
        TypeDef::Array(a) => (a.target as int) < n,
        TypeDef::Unit => true,
        TypeDef::Unknown => true,
        TypeDef::TypeErr => true,
    }
}

/// The deduplicating type registry: the closed universe of interned types,
/// addressed by [`TypeIdent`]. Identity `i` names `types[i]`.
pub struct TypeRegistry {
    pub types: Vec<TypeDef>,
}

impl TypeRegistry {
    /// Every interned type mentions only identities interned before it, so
    /// the registry is closed and acyclic.
    pub open spec fn wf(self) -> bool {
        forall|i: int| 0 <= i < self.types@.len() ==> td_components_lt(#[trigger] self.types@[i], i)
    }

    /// A fresh registry, with the sentinel types `Unit`, `Unknown` and
    /// `TypeErr` pre-interned at the fixed identities 0, 1 and 2.
    pub fn new() -> (r: TypeRegistry)
        ensures
            r.wf(),
            r.types@.len() == 3,
            r.types@[UNIT_IDENT as int] == TypeDef::Unit,
            r.types@[UNKNOWN_IDENT as int] == TypeDef::Unknown,
            r.types@[TYPE_ERR_IDENT as int] == TypeDef::TypeErr,
    {
        let mut types: Vec<TypeDef> = Vec::new();
        types.push(TypeDef::Unit);
        types.push(TypeDef::Unknown);
        types.push(TypeDef::TypeErr);
        TypeRegistry { types }
    }

    /// Intern `def`: return the identity of the first structurally equal
    /// type already in the registry, or assign the next identity and store
    /// `def` under it. Equal structure therefore always maps to one
    /// identity.
    pub fn intern(&mut self, def: TypeDef) -> (r: TypeIdent)
        requires
            old(self).wf(),
            td_components_lt(def, old(self).types@.len() as int),
        ensures
            final(self).wf(),
            r as int == first_match(old(self).types@, def),
            (r as int) <= old(self).types@.len(),
            (r as int) < final(self).types@.len(),
            td_eq(final(self).types@[r as int], def),
            (r as int) < old(self).types@.len() ==> final(self).types@ == old(self).types@,
            (r as int) == old(self).types@.len() ==> final(self).types@ == old(self).types@.push(def),
    {
        proof {
            lemma_first_match(self.types@, def);
        }
        let n = self.types.len();
        let mut i: usize = 0;
        while i < n
            invariant
                *self == *old(self),
                self.wf(),
                n == self.types@.len(),
                0 <= i <= n,
                forall|j: int| 0 <= j < i ==> !td_eq(self.types@[j], def),
            decreases n - i,
        {
            if type_def_eq(&self.types[i], &def) {
                proof {
                    lemma_first_match(self.types@, def);
                    assert(first_match(self.types@, def) == i as int);
                }
                return i as u64;
            }
            i = i + 1;
        }
        proof {
            lemma_first_match(self.types@, def);
            assert(first_match(self.types@, def) == n as int);
        }
        let ghost before = self.types@;
        self.types.push(def);
        proof {
            assert forall|k: int| 0 <= k < self.types@.len() implies td_components_lt(
                #[trigger] self.types@[k],
                k,
            ) by {
                if k < before.len() {
                    assert(self.types@[k] == before[k]);
                    assert(td_components_lt(before[k], k));
                }
            }
        }
        n as u64
    }
}

/// Structural equality of type definitions is reflexive, symmetric and
/// transitive.
pub proof fn lemma_td_eq_equiv(a: TypeDef, b: TypeDef, c: TypeDef)
    ensures
        td_eq(a, a),
        td_eq(a, b) == td_eq(b, a),
        td_eq(a, b) && td_eq(b, c) ==> td_eq(a, c),
{
}

/// Type interning is idempotent: interning a definition a second time —
/// into the universe the first intern produced — yields the identity the
/// first intern yielded, whether it found a match or appended.
pub proof fn lemma_intern_idempotent(ts: Seq<TypeDef>, d: TypeDef)
    ensures
        ({
            let m = first_match(ts, d);
            let ts1 = if m < ts.len() {
                ts
            } else {
                ts.push(d)
            };
            first_match(ts1, d) == m
        }),
{
    let m = first_match(ts, d);
    lemma_first_match(ts, d);
    if m == ts.len() {
        let ts1 = ts.push(d);
        lemma_first_match(ts1, d);
        let m1 = first_match(ts1, d);
        lemma_td_eq_equiv(d, d, d);
        assert(ts1[m as int] == d);
        if m1 < m {
            assert(ts1[m1] == ts[m1]);
        }
    }
}

/// Distinct structures never collide: two definitions that are not
/// structurally equal can never intern to one identity.
pub proof fn lemma_intern_no_collision(ts: Seq<TypeDef>, d1: TypeDef, d2: TypeDef)
    requires
        !td_eq(d1, d2),
    ensures
        first_match(ts, d1) < ts.len() && first_match(ts, d2) < ts.len() ==> first_match(ts, d1)
            != first_match(ts, d2),
{
    lemma_first_match(ts, d1);
    lemma_first_match(ts, d2);
    let m1 = first_match(ts, d1);
    let m2 = first_match(ts, d2);
    if m1 < ts.len() && m2 < ts.len() && m1 == m2 {
        lemma_td_eq_equiv(d1, ts[m1], d2);
        lemma_td_eq_equiv(ts[m1], d1, d2);
    }
}

/// Sum of the first `i` entries of `s`: the packed byte offset of field `i`.
pub open spec fn prefix_sum(s: Seq<usize>, i: int) -> int
    decreases i,
{
    if i <= 0 {
        0
    } else {
        prefix_sum(s, i - 1) + s[i - 1]
    }
}

/// Prefix sums of unsigned sizes never shrink as more fields are taken.
pub proof fn lemma_prefix_sum_mono(s: Seq<usize>, i: int, j: int)
    requires
        0 <= i <= j <= s.len(),
    ensures
        prefix_sum(s, i) <= prefix_sum(s, j),
    decreases j,
{
    if i < j {
        lemma_prefix_sum_mono(s, i, j - 1);
    }
}

/// Compute the packed layout for fields of the given byte sizes: each
/// field's offset is the sum of the sizes before it, and the total is the
/// sum of them all. `None` exactly when the total does not fit in `usize`.
pub fn compute_offsets(sizes: &Vec<usize>) -> (r: Option<(Vec<usize>, usize)>)
    ensures
        match r {
            Option::Some(p) => p.0@.len() == sizes@.len() && (forall|i: int|
                0 <= i < sizes@.len() ==> p.0@[i] == prefix_sum(sizes@, i)) && p.1
                == prefix_sum(sizes@, sizes@.len() as int),
            Option::None => prefix_sum(sizes@, sizes@.len() as int) > usize::MAX,
        },
{
    let mut offsets: Vec<usize> = Vec::new();
    let mut total: usize = 0;
    let n = sizes.len();
    let mut i: usize = 0;
    while i < n
        invariant
            n == sizes@.len(),
            0 <= i <= n,
            offsets@.len() == i,
            forall|j: int| 0 <= j < i ==> offsets@[j] == prefix_sum(sizes@, j),
            total == prefix_sum(sizes@, i as int),
        decreases n - i,
    {
        offsets.push(total);
        match total.checked_add(sizes[i]) {
            Option::Some(t) => {
                total = t;
            },
            Option::None => {
                proof {
                    lemma_prefix_sum_mono(sizes@, i + 1, n as int);
                }
                return Option::None;
            },
        }
        i = i + 1;
    }
    Option::Some((offsets, total))
}

/// The byte size of the type with identity `id` in the interned universe
/// `ts`: primitives and structs carry their own size, references and
/// function values are one machine word of 8 bytes, arrays multiply their
/// element size, and `Unit`, `Unknown` and `TypeErr` occupy nothing.
pub open spec fn spec_size_of(ts: Seq<TypeDef>, id: int) -> int
    decreases id,
{
    if 0 <= id < ts.len() {
        match ts[id] {
            TypeDef::Primitive(p) => p.occupy_bytes as int,
            TypeDef::Struct(s) => s.occupy_bytes as int,
            TypeDef::Function(_) => 8,
            TypeDef::Ref(_) => 8,
            TypeDef::Array(a) => if (a.target as int) < id {
                spec_size_of(ts, a.target as int) * (a.length as int)
            } else {
                0
            },
            TypeDef::Unit => 0,
            TypeDef::Unknown => 0,
            TypeDef::TypeErr => 0,
        }
    } else {
        0
    }
}

/// A type never occupies a negative number of bytes.
pub proof fn lemma_spec_size_of_nonneg(ts: Seq<TypeDef>, id: int)
    ensures
        spec_size_of(ts, id) >= 0,
    decreases id,
{
    if 0 <= id < ts.len() {
        match ts[id] {
            TypeDef::Array(a) => {
                if (a.target as int) < id {
                    lemma_spec_size_of_nonneg(ts, a.target as int);
                    assert(spec_size_of(ts, a.target as int) * (a.length as int) >= 0)
                        by (nonlinear_arith)
                        requires
                            spec_size_of(ts, a.target as int) >= 0,
                            a.length as int >= 0,
                    ;
                }
            },
            _ => {},
        }
    }
}

/// Sum of the byte sizes of the first `i` field types in `fts`, each looked
/// up in the universe `ts`.
pub open spec fn field_size_sum(ts: Seq<TypeDef>, fts: Seq<TypeIdent>, i: int) -> int
    decreases i,
{
    if i <= 0 {
        0
    } else {
        field_size_sum(ts, fts, i - 1) + spec_size_of(ts, fts[i - 1] as int)
    }
}

/// Field-size sums of a universe never shrink as more fields are taken.
pub proof fn lemma_field_size_sum_mono(ts: Seq<TypeDef>, fts: Seq<TypeIdent>, i: int, j: int)
    requires
        0 <= i <= j <= fts.len(),
    ensures
        field_size_sum(ts, fts, i) <= field_size_sum(ts, fts, j),
    decreases j,
{
    if i < j {
        lemma_field_size_sum_mono(ts, fts, i, j - 1);
        lemma_spec_size_of_nonneg(ts, fts[j - 1] as int);
    }
}

/// When `sizes` holds, entry by entry, the byte sizes of the field types,
/// its prefix sums agree with [`field_size_sum`].
proof fn lemma_prefix_sum_agrees(sizes: Seq<usize>, ts: Seq<TypeDef>, fts: Seq<TypeIdent>, i: int)
    requires
        sizes.len() == fts.len(),
        forall|j: int| 0 <= j < fts.len() ==> (sizes[j] as int) == spec_size_of(ts, fts[j] as int),
        0 <= i <= fts.len(),
    ensures
        prefix_sum(sizes, i) == field_size_sum(ts, fts, i),
    decreases i,
{
    if i > 0 {
        lemma_prefix_sum_agrees(sizes, ts, fts, i - 1);
    }
}

/// Whether `r` reports the byte size of type `id` in universe `ts`
/// correctly: the exact size when it fits in `usize`, `None` otherwise.
pub open spec fn size_result_ok(ts: Seq<TypeDef>, id: int, r: Option<usize>) -> bool {
    match r {
        Option::Some(s) => (s as int) == spec_size_of(ts, id),
        Option::None => spec_size_of(ts, id) > usize::MAX,
    }
}

impl TypeRegistry {
    /// The byte size of the interned type `id`, the executable counterpart
    /// of [`spec_size_of`]; `None` exactly when the size does not fit in
    /// `usize`.
    #[verifier::rlimit(50)]
    pub fn size_of(&self, id: TypeIdent) -> (r: Option<usize>)
        requires
            self.wf(),
            (id as int) < self.types@.len(),
        ensures
            size_result_ok(self.types@, id as int, r),
        decreases id as int,
    {
        let n = self.types.len();
        proof {
            assert((id as int) < n as int);
        }
        let idx = id as usize;
        let td = &self.types[idx];
        proof {
            assert(*td == self.types@[id as int]);
        }
        let res: Option<usize> = match td {
            TypeDef::Primitive(p) => {
                proof {
                    assert((p.occupy_bytes as int) == spec_size_of(self.types@, id as int));
                }
                Option::Some(p.occupy_bytes)
            },
            TypeDef::Struct(s) => Option::Some(s.occupy_bytes),
            TypeDef::Function(_) => Option::Some(8),
            TypeDef::Ref(_) => Option::Some(8),
            TypeDef::Array(a) => {
                proof {
                    assert(td_components_lt(self.types@[id as int], id as int));
                }
                if a.length == 0 {
                    Option::Some(0)
                } else {
                    match self.size_of(a.target) {
                        Option::Some(inner) => {
                            let prod = inner.checked_mul(a.length);
                            proof {
                                assert(prod matches Option::Some(s) ==> (s as int)
                                    == spec_size_of(self.types@, id as int));
                                assert(prod is None ==> spec_size_of(self.types@, id as int)
                                    > usize::MAX);
                            }
                            prod
                        },
                        Option::None => {
                            proof {
                                assert(spec_size_of(self.types@, a.target as int) * (
                                a.length as int) > usize::MAX) by (nonlinear_arith)
                                    requires
                                        spec_size_of(self.types@, a.target as int) > usize::MAX,
                                        a.length as int >= 1,
                                ;
                            }
                            Option::None
                        },
                    }
                }
            },
            TypeDef::Unit => Option::Some(0),
            TypeDef::Unknown => Option::Some(0),
            TypeDef::TypeErr => Option::Some(0),
        };
        proof {
            assert(size_result_ok(self.types@, id as int, res));
        }
        res
    }

    /// Build the struct type with the given fields, computing the packed
    /// layout, and intern it. `None` exactly when the struct's total byte
    /// size does not fit in `usize`, with the registry left untouched.
    pub fn intern_struct(&mut self, field_types: Vec<TypeIdent>) -> (r: Option<TypeIdent>)
        requires
            old(self).wf(),
            forall|j: int|
                0 <= j < field_types@.len() ==> (field_types@[j] as int) < old(self).types@.len(),
        ensures
            match r {
                Option::Some(id) => {
                    &&& final(self).wf()
                    &&& (id as int) < final(self).types@.len()
                    &&& old(self).types@.len() <= final(self).types@.len()
                    &&& final(self).types@.subrange(0, old(self).types@.len() as int) == old(self).types@
                    &&& final(self).types@[id as int] matches TypeDef::Struct(st)
                        && st.field_types@ == field_types@
                        && st.field_offsets@.len() == field_types@.len()
                        && (forall|i: int|
                            0 <= i < field_types@.len() ==> st.field_offsets@[i]
                                == field_size_sum(old(self).types@, field_types@, i))
                        && st.occupy_bytes == field_size_sum(
                            old(self).types@,
                            field_types@,
                            field_types@.len() as int,
                        )
                },
                Option::None => {
                    &&& *final(self) == *old(self)
                    &&& field_size_sum(
                        old(self).types@,
                        field_types@,
                        field_types@.len() as int,
                    ) > usize::MAX
                },
            },
    {
        let n = field_types.len();
        let mut sizes: Vec<usize> = Vec::new();
        let mut i: usize = 0;
        while i < n
            invariant
                *self == *old(self),
                self.wf(),
                n == field_types@.len(),
                forall|j: int|
                    0 <= j < field_types@.len() ==> (field_types@[j] as int)
                        < self.types@.len(),
                0 <= i <= n,
                sizes@.len() == i,
                forall|j: int|
                    0 <= j < i ==> (sizes@[j] as int) == spec_size_of(
                        self.types@,
                        field_types@[j] as int,
                    ),
            decreases n - i,
        {
            match self.size_of(field_types[i]) {
                Option::Some(s) => {
                    sizes.push(s);
                },
                Option::None => {
                    proof {
                        lemma_field_size_sum_mono(self.types@, field_types@, 0, i as int);
                        lemma_field_size_sum_mono(
                            self.types@,
                            field_types@,
                            i as int + 1,
                            n as int,
                        );
                    }
                    return Option::None;
                },
            }
            i = i + 1;
        }
        proof {
            lemma_prefix_sum_agrees(sizes@, self.types@, field_types@, n as int);
        }
        match compute_offsets(&sizes) {
            Option::Some((offsets, total)) => {
                let ghost pre = self.types@;
                let ghost gfts = field_types@;
                let ghost gofs = offsets@;
                proof {
                    assert forall|k: int| 0 <= k <= gfts.len() implies prefix_sum(sizes@, k)
                        == field_size_sum(pre, gfts, k) by {
                        lemma_prefix_sum_agrees(sizes@, pre, gfts, k);
                    }
                }
                let st = StructType { field_types, field_offsets: offsets, occupy_bytes: total };
                let id = self.intern(TypeDef::Struct(st));
                proof {
                    assert(self.types@.subrange(0, pre.len() as int) =~= pre);
                    let stored = self.types@[id as int];
                    assert(stored matches TypeDef::Struct(sp) && sp.field_types@ == gfts
                        && sp.field_offsets@ == gofs && sp.occupy_bytes == field_size_sum(
                        pre,
                        gfts,
                        gfts.len() as int,
                    ));
                }
                Option::Some(id)
            },
            Option::None => Option::None,
        }
    }
}

} // verus!
