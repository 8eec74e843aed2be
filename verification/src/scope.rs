//! Lexical scopes and the symbol table.
//!
//! Scopes live in an arena: each [`Scope`] is addressed by its index in a
//! [`ScopeArena`] and holds the index of its enclosing scope, so the chain
//! is strictly linear and walks toward the root always terminate. A scope
//! maps names to symbol identifiers — indices into the arena's flat symbol
//! table — in insertion order, through an `indexmap::IndexMap` kept behind
//! contracts. Within one scope names are unique; shadowing an outer scope is
//! legal and lookup resolves innermost first.

use vstd::prelude::*;

use crate::ctrl::LoopCtrl;
use crate::ty::TypeDef;

verus! {

/// An entry of the symbol table: what a name is bound to.
#[derive(Debug, Clone)]
pub enum SymbolDef {
    /// The name of a type.
    Typ { def: TypeDef },
    /// The name of a variable; functions are variables whose `is_callable`
    /// flag is set.
    Var { typ: TypeDef, is_const: bool, is_callable: bool },
}

/// Why a scope operation was refused.
#[derive(Debug, Clone, Copy, PartialEq, Eq, Structural)]
pub enum ScopeError {
    /// The name already exists in this same scope.
    NameConflict,
    /// An entry was found but is of the wrong kind.
    InvalidSymbol,
    /// The name does not match the identifier grammar.
    InvalidName,
}

pub type ScopeResult<T> = Result<T, ScopeError>;

/// Whether `c` may open an identifier: a letter or an underscore.
pub open spec fn is_ident_start(c: char) -> bool {
    c == '_' || ('a' <= c && c <= 'z') || ('A' <= c && c <= 'Z')
}

/// Whether `c` may continue an identifier: a letter, a digit or an
/// underscore.
pub open spec fn is_ident_cont(c: char) -> bool {
    is_ident_start(c) || ('0' <= c && c <= '9')
}

/// The identifier grammar every declared name must match: one opening
/// letter or underscore, then letters, digits and underscores.
pub open spec fn valid_ident(s: Seq<char>) -> bool {
    s.len() > 0 && is_ident_start(s[0]) && forall|i: int| 1 <= i < s.len() ==> is_ident_cont(
        #[trigger] s[i],
    )
}

/// Relies on `regex::Regex::is_match` with the anchored pattern
/// `^[_a-zA-Z][_a-zA-Z0-9]*$`: it matches a string exactly when the string
/// is one letter or underscore followed by letters, digits and underscores,
/// which is [`valid_ident`]. The pattern is a fixed valid expression, so
/// compiling it cannot fail.
#[verifier::external_body]
fn regex_ident_match(name: &str) -> (r: bool)
    ensures
        r == valid_ident(name@),
{
    let re = regex::Regex::new("^[_a-zA-Z][_a-zA-Z0-9]*$").expect("fixed pattern compiles");
    re.is_match(name)
}

#[verifier::external_type_specification]
#[verifier::external_body]
#[verifier::reject_recursive_types(K)]
#[verifier::reject_recursive_types(V)]
#[verifier::reject_recursive_types(S)]
pub struct ExIndexMap<K, V, S>(indexmap::IndexMap<K, V, S>);

/// The contents of a scope's name map: its key-value pairs in insertion
/// order, keys as character sequences.
pub uninterp spec fn map_entries(m: indexmap::IndexMap<String, usize>) -> Seq<(Seq<char>, usize)>;

/// The value of the first entry of `es` whose key is `name`, if any: what a
/// keyed lookup finds when keys are unique.
pub open spec fn entries_lookup(es: Seq<(Seq<char>, usize)>, name: Seq<char>) -> Option<usize>
    decreases es.len(),
{
    if es.len() == 0 {
        Option::None
    } else if es[0].0 == name {
        Option::Some(es[0].1)
    } else {
        entries_lookup(es.drop_first(), name)
    }
}

/// Relies on `indexmap::IndexMap::new`: a fresh map holds no entries.
#[verifier::external_body]
fn im_new() -> (r: indexmap::IndexMap<String, usize>)
    ensures
        map_entries(r) == Seq::<(Seq<char>, usize)>::empty(),
{
    indexmap::IndexMap::new()
}

/// Relies on `indexmap::IndexMap::get`: it returns the value stored for the
/// key, which with unique keys is the first entry holding it.
#[verifier::external_body]
fn im_get(m: &indexmap::IndexMap<String, usize>, name: &str) -> (r: Option<usize>)
    ensures
        r == entries_lookup(map_entries(*m), name@),
{
    m.get(name).copied()
}

/// Relies on `indexmap::IndexMap::contains_key`: true exactly when an entry
/// holds the key.
#[verifier::external_body]
fn im_contains(m: &indexmap::IndexMap<String, usize>, name: &str) -> (r: bool)
    ensures
        r == (entries_lookup(map_entries(*m), name@) is Some),
{
    m.contains_key(name)
}

/// Relies on `indexmap::IndexMap::insert`: a key not yet present is
/// inserted last in order, existing entries keeping their places.
#[verifier::external_body]
fn im_insert(m: &mut indexmap::IndexMap<String, usize>, name: &str, v: usize)
    requires
        entries_lookup(map_entries(*old(m)), name@) is None,
    ensures
        map_entries(*final(m)) == map_entries(*old(m)).push((name@, v)),
{
    m.insert(name.to_string(), v);
}

/// One lexical scope: an insertion-ordered map from names to symbol
/// identifiers, and the arena index of the enclosing scope, `None` at the
/// root.
pub struct Scope {
    pub last: Option<usize>,
    pub defs: indexmap::IndexMap<String, usize>,
}

/// The arena that owns every scope and every symbol-table entry. Scopes
/// address their parent by index, symbols are a flat table addressed by the
/// identifiers the scopes hand out.
pub struct ScopeArena {
    pub scopes: Vec<Scope>,
    pub symbols: Vec<SymbolDef>,
}

impl ScopeArena {
    /// Well-formedness of the scope at arena index `i`: its parent stands
    /// strictly before it, and every name maps to an existing symbol.
    pub open spec fn scope_wf(self, i: int) -> bool {
        &&& match self.scopes@[i].last {
            Option::Some(p) => 0 <= (p as int) < i,
            Option::None => true,
        }
        &&& forall|j: int|
            0 <= j < map_entries(self.scopes@[i].defs).len() ==> (#[trigger] map_entries(
                self.scopes@[i].defs,
            )[j]).1 < self.symbols@.len()
    }

    /// Well-formedness of the whole arena: parents always stand before
    /// their children, so every chain walk reaches the root.
    pub open spec fn wf(self) -> bool {
        forall|i: int| 0 <= i < self.scopes@.len() ==> self.scope_wf(i)
    }

    /// What a lookup in scope `s` alone finds.
    pub open spec fn lookup_local_spec(self, s: int, name: Seq<char>) -> Option<usize> {
        entries_lookup(map_entries(self.scopes@[s].defs), name)
    }

    /// What a lookup through the chain of scope `s` finds: the innermost
    /// binding of `name`, walking outward until the root.
    pub open spec fn lookup_spec(self, s: int, name: Seq<char>) -> Option<usize>
        decreases s,
    {
        if 0 <= s < self.scopes@.len() {
            match self.lookup_local_spec(s, name) {
                Option::Some(v) => Option::Some(v),
                Option::None => match self.scopes@[s].last {
                    Option::Some(p) => if (p as int) < s {
                        self.lookup_spec(p as int, name)
                    } else {
                        Option::None
                    },
                    Option::None => Option::None,
                },
            }
        } else {
            Option::None
        }
    }

    /// An empty arena with no scopes and no symbols.
    pub fn new() -> (r: ScopeArena)
        ensures
            r.wf(),
            r.scopes@.len() == 0,
            r.symbols@.len() == 0,
    {
        ScopeArena { scopes: Vec::new(), symbols: Vec::new() }
    }

    /// Open a new scope under `parent` (`None` for the root scope) and
    /// return its index.
    pub fn new_scope(&mut self, parent: Option<usize>) -> (r: usize)
        requires
            old(self).wf(),
            parent matches Option::Some(p) ==> (p as int) < old(self).scopes@.len(),
        ensures
            final(self).wf(),
            r as int == old(self).scopes@.len(),
            final(self).symbols@ == old(self).symbols@,
            final(self).scopes@.len() == old(self).scopes@.len() + 1,
            final(self).scopes@.subrange(0, old(self).scopes@.len() as int) == old(self).scopes@,
            final(self).scopes@[r as int].last == parent,
            map_entries(final(self).scopes@[r as int].defs) == Seq::<(Seq<char>, usize)>::empty(),
    {
        let id = self.scopes.len();
        let defs = im_new();
        self.scopes.push(Scope { last: parent, defs });
        proof {
            assert(self.scopes@.subrange(0, id as int) =~= old(self).scopes@);
            assert forall|i: int| 0 <= i < self.scopes@.len() implies self.scope_wf(i) by {
                if i < id as int {
                    assert(old(self).scope_wf(i));
                    assert(self.scopes@[i] == old(self).scopes@[i]);
                }
            }
        }
        id
    }

    /// Replace the symbol-table entry a symbol identifier names: how the
    /// resolver fills in a type it could only infer after the entry was
    /// declared. Scopes and their name maps are untouched.
    pub fn set_symbol(&mut self, id: usize, def: SymbolDef)
        requires
            old(self).wf(),
            (id as int) < old(self).symbols@.len(),
        ensures
            final(self).wf(),
            final(self).scopes@ == old(self).scopes@,
            final(self).symbols@ == old(self).symbols@.update(id as int, def),
    {
        self.symbols[id] = def;
        proof {
            assert forall|i: int| 0 <= i < self.scopes@.len() implies self.scope_wf(i) by {
                assert(old(self).scope_wf(i));
                assert(self.scopes@[i] == old(self).scopes@[i]);
            }
        }
    }

    /// The symbol-table entry a symbol identifier names.
    pub fn get_symbol(&self, id: usize) -> (r: &SymbolDef)
        requires
            (id as int) < self.symbols@.len(),
        ensures
            *r == self.symbols@[id as int],
    {
        &self.symbols[id]
    }

    /// Look `name` up in scope `scope` alone, without touching the
    /// enclosing chain.
    pub fn find_def_self(&self, scope: usize, name: &str) -> (r: Option<usize>)
        requires
            (scope as int) < self.scopes@.len(),
        ensures
            r == self.lookup_local_spec(scope as int, name@),
    {
        im_get(&self.scopes[scope].defs, name)
    }

    /// Look `name` up in scope `scope`, delegating to the enclosing scopes
    /// when it is not bound locally: the innermost binding wins.
    pub fn find_def(&self, scope: usize, name: &str) -> (r: Option<usize>)
        requires
            self.wf(),
            (scope as int) < self.scopes@.len(),
        ensures
            r == self.lookup_spec(scope as int, name@),
            r matches Option::Some(id) ==> (id as int) < self.symbols@.len(),
    {
        let mut cur: usize = scope;
        let mut ctl: LoopCtrl<Option<usize>> = LoopCtrl::Continue;
        while ctl.is_continue()
            invariant
                self.wf(),
                (cur as int) < self.scopes@.len(),
                match ctl {
                    LoopCtrl::Continue => self.lookup_spec(scope as int, name@)
                        == self.lookup_spec(cur as int, name@),
                    LoopCtrl::Stop(r0) => self.lookup_spec(scope as int, name@) == r0 && (
                    r0 matches Option::Some(id) ==> (id as int) < self.symbols@.len()),
                },
            decreases cur, (if ctl is Continue { 1int } else { 0int }),
        {
            proof {
                assert(self.scope_wf(cur as int));
            }
            match im_get(&self.scopes[cur].defs, name) {
                Option::Some(v) => {
                    proof {
                        let es = map_entries(self.scopes@[cur as int].defs);
                        lemma_entries_lookup_found(es, name@, self.symbols@.len() as int);
                    }
                    ctl = LoopCtrl::Stop(Option::Some(v));
                },
                Option::None => {
                    match self.scopes[cur].last {
                        Option::Some(p) => {
                            cur = p;
                        },
                        Option::None => {
                            ctl = LoopCtrl::Stop(Option::None);
                        },
                    }
                },
            }
        }
        ctl.unwrap()
    }

    /// Look `name` up as [`ScopeArena::find_def`] does, but skip the first
    /// `n` scopes of the chain before searching, for names that must
    /// resolve outside the current region.
    pub fn find_def_skip(&self, scope: usize, name: &str, n: usize) -> (r: Option<usize>)
        requires
            self.wf(),
            (scope as int) < self.scopes@.len(),
        ensures
            r == self.lookup_skip_spec(scope as int, name@, n as int),
            r matches Option::Some(id) ==> (id as int) < self.symbols@.len(),
    {
        let mut cur: usize = scope;
        let mut skipped: usize = 0;
        while skipped < n
            invariant
                self.wf(),
                (cur as int) < self.scopes@.len(),
                0 <= skipped <= n,
                self.lookup_skip_spec(scope as int, name@, n as int) == self.lookup_skip_spec(
                    cur as int,
                    name@,
                    (n - skipped) as int,
                ),
            decreases n - skipped,
        {
            proof {
                assert(self.scope_wf(cur as int));
            }
            match self.scopes[cur].last {
                Option::Some(p) => {
                    cur = p;
                },
                Option::None => {
                    return Option::None;
                },
            }
            skipped = skipped + 1;
        }
        self.find_def(cur, name)
    }

    /// What [`ScopeArena::find_def_skip`] finds: the chain lookup of `name`
    /// starting `n` scopes above `s`, `None` when the chain is shorter than
    /// that.
    pub open spec fn lookup_skip_spec(self, s: int, name: Seq<char>, n: int) -> Option<usize>
        decreases n,
    {
        if n <= 0 {
            self.lookup_spec(s, name)
        } else if 0 <= s < self.scopes@.len() {
            match self.scopes@[s].last {
                Option::Some(p) => self.lookup_skip_spec(p as int, name, n - 1),
                Option::None => Option::None,
            }
        } else {
            Option::None
        }
    }

    /// Declare `name` in scope `scope`. The insert fails with
    /// `NameConflict` exactly when the name is already bound in this same
    /// scope — an outer binding is shadowed, never a conflict — and with
    /// `InvalidName` exactly when the name misses the identifier grammar;
    /// either failure leaves the arena untouched. On success the entry is
    /// appended to the symbol table and the scope maps the name to it, all
    /// other scopes unchanged.
    pub fn insert_def(&mut self, scope: usize, name: &str, def: SymbolDef) -> (r: ScopeResult<
        usize,
    >)
        requires
            old(self).wf(),
            (scope as int) < old(self).scopes@.len(),
        ensures
            final(self).wf(),
            final(self).scopes@.len() == old(self).scopes@.len(),
            match r {
                Result::Ok(id) => {
                    &&& old(self).lookup_local_spec(scope as int, name@) is None
                    &&& valid_ident(name@)
                    &&& id as int == old(self).symbols@.len()
                    &&& final(self).symbols@ == old(self).symbols@.push(def)
                    &&& map_entries(final(self).scopes@[scope as int].defs) == map_entries(
                        old(self).scopes@[scope as int].defs,
                    ).push((name@, id))
                    &&& final(self).scopes@[scope as int].last == old(self).scopes@[scope as int].last
                    &&& forall|k: int|
                        0 <= k < old(self).scopes@.len() && k != scope as int ==> final(self).scopes@[k] == old(self).scopes@[k]
                },
                Result::Err(ScopeError::NameConflict) => *final(self) == *old(self) && old(self).lookup_local_spec(scope as int, name@) is Some,
                Result::Err(ScopeError::InvalidName) => *final(self) == *old(self) && old(self).lookup_local_spec(scope as int, name@) is None && !valid_ident(name@),
                Result::Err(ScopeError::InvalidSymbol) => false,
            },
    {
        if im_contains(&self.scopes[scope].defs, name) {
            return Result::Err(ScopeError::NameConflict);
        }
        if !regex_ident_match(name) {
            return Result::Err(ScopeError::InvalidName);
        }
        let id = self.symbols.len();
        self.symbols.push(def);
        im_insert(&mut self.scopes[scope].defs, name, id);
        proof {
            assert forall|i: int| 0 <= i < self.scopes@.len() implies self.scope_wf(i) by {
                assert(old(self).scope_wf(i));
                if i != scope as int {
                    assert(self.scopes@[i] == old(self).scopes@[i]);
                }
            }
        }
        Result::Ok(id)
    }
}

/// Appending an entry never disturbs what the existing keys find: the new
/// key becomes visible, every other lookup is unchanged.
pub proof fn lemma_entries_lookup_push(es: Seq<(Seq<char>, usize)>, p: (Seq<char>, usize), name: Seq<char>)
    ensures
        entries_lookup(es.push(p), name) == match entries_lookup(es, name) {
            Option::Some(v) => Option::Some(v),
            Option::None => if p.0 == name {
                Option::Some(p.1)
            } else {
                Option::<usize>::None
            },
        },
    decreases es.len(),
{
    if es.len() == 0 {
        assert(es.push(p)[0] == p);
        assert(es.push(p).len() == 1);
        if p.0 != name {
            assert(es.push(p).drop_first() =~= Seq::<(Seq<char>, usize)>::empty());
        }
    } else {
        assert(es.push(p)[0] == es[0]);
        if es[0].0 != name {
            assert(es.push(p).drop_first() =~= es.drop_first().push(p));
            lemma_entries_lookup_push(es.drop_first(), p, name);
        }
    }
}

/// Chain lookups below the touched scope are blind to an insertion higher
/// up: walking from scope `s` only ever visits scopes at indices `<= s`.
proof fn lemma_lookup_unchanged_below(
    pre: ScopeArena,
    post: ScopeArena,
    s: int,
    touched: int,
    name: Seq<char>,
)
    requires
        pre.wf(),
        post.scopes@.len() == pre.scopes@.len(),
        forall|k: int| 0 <= k < pre.scopes@.len() && k != touched ==> post.scopes@[k]
            == pre.scopes@[k],
        0 <= s < pre.scopes@.len(),
        s < touched,
    ensures
        post.lookup_spec(s, name) == pre.lookup_spec(s, name),
    decreases s,
{
    assert(pre.scope_wf(s));
    assert(post.scopes@[s] == pre.scopes@[s]);
    match pre.scopes@[s].last {
        Option::Some(p) => {
            if pre.lookup_local_spec(s, name) is None {
                lemma_lookup_unchanged_below(pre, post, p as int, touched, name);
            }
        },
        Option::None => {},
    }
}

/// Scope shadowing. Declaring a name in an inner scope — which
/// [`ScopeArena::insert_def`] allows whenever the inner scope's own map
/// does not bind it, an outer binding notwithstanding — makes chain lookup
/// from the inner scope yield the new entry, while chain lookup from any
/// scope below the inner one, the outer scope in particular, is exactly
/// what it was.
pub proof fn lemma_scope_shadowing(
    pre: ScopeArena,
    post: ScopeArena,
    outer: int,
    inner: int,
    name: Seq<char>,
    id: usize,
)
    requires
        pre.wf(),
        0 <= outer < inner < pre.scopes@.len(),
        // the effect of a successful insert into the inner scope, as
        // `insert_def` ensures it
        post.scopes@.len() == pre.scopes@.len(),
        map_entries(post.scopes@[inner].defs) == map_entries(pre.scopes@[inner].defs).push(
            (name, id),
        ),
        forall|k: int| 0 <= k < pre.scopes@.len() && k != inner ==> post.scopes@[k]
            == pre.scopes@[k],
        pre.lookup_local_spec(inner, name) is None,
    ensures
        post.lookup_spec(inner, name) == Option::Some(id),
        post.lookup_spec(outer, name) == pre.lookup_spec(outer, name),
{
    lemma_entries_lookup_push(map_entries(pre.scopes@[inner].defs), (name, id), name);
    lemma_lookup_unchanged_below(pre, post, outer, inner, name);
}

/// Name-conflict invariant, first half: a successful declaration leaves
/// the name bound in the scope's own map, so a second declaration of the
/// same name in the same scope meets [`ScopeArena::insert_def`]'s
/// `NameConflict` case, which returns the error and leaves the arena — the
/// first entry included — untouched.
pub proof fn lemma_second_insert_conflicts(
    pre: ScopeArena,
    post: ScopeArena,
    scope: int,
    name: Seq<char>,
    id: usize,
)
    requires
        0 <= scope < post.scopes@.len(),
        map_entries(post.scopes@[scope].defs) == map_entries(pre.scopes@[scope].defs).push(
            (name, id),
        ),
    ensures
        post.lookup_local_spec(scope, name) is Some,
{
    lemma_entries_lookup_push(map_entries(pre.scopes@[scope].defs), (name, id), name);
}

/// When a keyed lookup in `es` finds a value and every entry's value is
/// below `bound`, the found value is below `bound` too.
proof fn lemma_entries_lookup_found(es: Seq<(Seq<char>, usize)>, name: Seq<char>, bound: int)
    requires
        forall|j: int| 0 <= j < es.len() ==> ((#[trigger] es[j]).1 as int) < bound,
    ensures
        entries_lookup(es, name) matches Option::Some(v) ==> (v as int) < bound,
    decreases es.len(),
{
    if es.len() > 0 && es[0].0 != name {
        lemma_entries_lookup_found(es.drop_first(), name, bound);
        assert(forall|j: int|
            0 <= j < es.drop_first().len() ==> es.drop_first()[j] == es[j + 1]);
    }
}

} // verus!
