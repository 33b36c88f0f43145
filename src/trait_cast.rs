//! The cross-capability cast registry.
//!
//! Each [`CastEntry`] declares that values of one concrete type may be viewed
//! as one capability, and carries the caster that performs the view. A
//! [`Registry`] gathers a list of such declarations once, keyed by the pair of
//! type identities, and then answers lookups without further change.

use std::any::TypeId;
use rustc_hash::FxHashMap;
use vstd::prelude::*;

verus! {

#[verifier::external_type_specification]
#[verifier::external_body]
pub struct ExTypeId(TypeId);

/// The identity of a concrete type paired with the identity of a capability.
pub type CastKey = (TypeId, TypeId);

/// A declaration that values of type `ty` may be viewed as capability `cap`,
/// through `caster`.
pub struct CastEntry<F> {
    pub ty: TypeId,
    pub cap: TypeId,
    pub caster: F,
}

impl<F> CastEntry<F> {
    pub open spec fn key(&self) -> CastKey {
        (self.ty, self.cap)
    }

    pub fn new(ty: TypeId, cap: TypeId, caster: F) -> (r: Self)
        ensures
            r.ty == ty,
            r.cap == cap,
            r.caster == caster,
    {
        CastEntry { ty, cap, caster }
    }
}

/// The hash table from key to entry position that a [`Registry`] is built on.
#[verifier::external_body]
pub struct CastIndex {
    table: FxHashMap<CastKey, usize>,
}

/// What a [`CastIndex`] holds: for each key present, a position.
pub uninterp spec fn index_contents(i: CastIndex) -> Map<CastKey, usize>;

/// Relies on `FxHashMap::default` (std's `HashMap` with rustc_hash's `FxHasher`):
/// a new map is empty.
#[verifier::external_body]
fn index_new() -> (r: CastIndex)
    ensures
        index_contents(r).dom() == Set::<CastKey>::empty(),
{
    CastIndex { table: FxHashMap::default() }
}

/// Relies on `HashMap::get`: the position stored under `k`, if any.
#[verifier::external_body]
fn index_get(i: &CastIndex, k: &CastKey) -> (r: Option<usize>)
    ensures
        r == (if index_contents(*i).contains_key(*k) {
            Some(index_contents(*i)[*k])
        } else {
            None
        }),
{
    i.table.get(k).copied()
}

/// Relies on `HashMap::insert`: `k` now maps to `v`, all other keys are kept.
#[verifier::external_body]
fn index_insert(i: &mut CastIndex, k: CastKey, v: usize)
    ensures
        index_contents(*final(i)) == index_contents(*old(i)).insert(k, v),
{
    i.table.insert(k, v);
}

/// Relies on `HashMap::len`: the number of keys present.
#[verifier::external_body]
fn index_len(i: &CastIndex) -> (r: usize)
    ensures
        r == index_contents(*i).len(),
{
    i.table.len()
}

/// The table that a list of declarations defines: each declared key maps to
/// the caster of its first declaration; later duplicates are ignored.
pub open spec fn declared<F>(s: Seq<CastEntry<F>>) -> Map<CastKey, F>
    decreases s.len(),
{
    if s.len() == 0 {
        Map::empty()
    } else {
        let m = declared(s.drop_last());
        let e = s.last();
        if m.contains_key(e.key()) {
            m
        } else {
            m.insert(e.key(), e.caster)
        }
    }
}

/// A table of casters keyed by (concrete type, capability), built once from a
/// list of declarations and read-only afterwards.
pub struct Registry<F> {
    entries: Vec<CastEntry<F>>,
    index: CastIndex,
}

impl<F> Registry<F> {
    /// The table: each registered key with its caster.
    pub closed spec fn view(&self) -> Map<CastKey, F> {
        index_contents(self.index).map_values(|p: usize| self.entries@[p as int].caster)
    }

    pub closed spec fn wf(&self) -> bool {
        let idx = index_contents(self.index);
        &&& idx.dom().finite()
        &&& forall|k: CastKey|
            #[trigger] idx.contains_key(k) ==> idx[k] < self.entries@.len()
                && self.entries@[idx[k] as int].key() == k
    }

    /// Builds the table from `entries`. Where several entries share a key, the
    /// first one is kept.
    pub fn build(entries: Vec<CastEntry<F>>) -> (r: Self)
        ensures
            r.wf(),
            r@ == declared(entries@),
    {
        let mut index = index_new();
        let n = entries.len();
        let mut i: usize = 0;
        while i < n
            invariant
                n == entries@.len(),
                i <= n,
                index_contents(index).dom().finite(),
                forall|k: CastKey|
                    #[trigger] index_contents(index).contains_key(k) ==> index_contents(index)[k] < i
                        && entries@[index_contents(index)[k] as int].key() == k,
                index_contents(index).map_values(|p: usize| entries@[p as int].caster)
                    == declared(entries@.subrange(0, i as int)),
            decreases n - i,
        {
            let ghost before = index_contents(index);
            let key = (entries[i].ty, entries[i].cap);
            assert(entries@.subrange(0, i + 1).drop_last() =~= entries@.subrange(0, i as int));
            match index_get(&index, &key) {
                Some(_) => {},
                None => {
                    index_insert(&mut index, key, i);
                    assert(index_contents(index).map_values(|p: usize| entries@[p as int].caster)
                        =~= before.map_values(|p: usize| entries@[p as int].caster).insert(
                        key,
                        entries@[i as int].caster,
                    ));
                },
            }
            i = i + 1;
        }
        assert(entries@.subrange(0, n as int) =~= entries@);
        Registry { entries, index }
    }

    /// The caster registered for concrete type `ty` and capability `cap`, if any.
    pub fn lookup(&self, ty: &TypeId, cap: &TypeId) -> (r: Option<&F>)
        requires
            self.wf(),
        ensures
            match r {
                Some(c) => self@.contains_key((*ty, *cap)) && *c == self@[(*ty, *cap)],
                None => !self@.contains_key((*ty, *cap)),
            },
    {
        let key = (*ty, *cap);
        match index_get(&self.index, &key) {
            Some(p) => Some(&self.entries[p].caster),
            None => None,
        }
    }

    /// The number of distinct keys registered.
    pub fn len(&self) -> (r: usize)
        requires
            self.wf(),
        ensures
            r == self@.len(),
    {
        assert(self@.dom() =~= index_contents(self.index).dom());
        index_len(&self.index)
    }
}

/// The keys that `s` declares, in order, duplicates included.
pub open spec fn declared_keys<F>(s: Seq<CastEntry<F>>) -> Seq<CastKey> {
    s.map_values(|e: CastEntry<F>| e.key())
}

/// A key is in the table of `s` exactly when some entry of `s` declares it,
/// so the table holds one key for each distinct declared pair.
pub proof fn lemma_declared_keys<F>(s: Seq<CastEntry<F>>)
    ensures
        declared(s).dom() == declared_keys(s).to_set(),
        declared(s).len() == declared_keys(s).to_set().len(),
    decreases s.len(),
{
    if s.len() == 0 {
        assert(declared_keys(s).to_set() =~= Set::empty());
    } else {
        let t = s.drop_last();
        lemma_declared_keys(t);
        let ks = declared_keys(s);
        let kt = declared_keys(t);
        assert(kt =~= ks.drop_last());
        assert forall|k: CastKey| ks.contains(k) <==> kt.contains(k) || k == s.last().key() by {
            if ks.contains(k) {
                let i = choose|i: int| 0 <= i < ks.len() && ks[i] == k;
                if i < ks.len() - 1 {
                    assert(kt[i] == k);
                }
            }
            if kt.contains(k) {
                let i = choose|i: int| 0 <= i < kt.len() && kt[i] == k;
                assert(ks[i] == k);
            }
            if k == s.last().key() {
                assert(ks[ks.len() - 1] == k);
            }
        }
        assert(declared(s).dom() =~= ks.to_set());
    }
}

/// The first entry of `s` that declares a key is the one whose caster the
/// table keeps for that key.
pub proof fn lemma_declared_first<F>(s: Seq<CastEntry<F>>, i: int)
    requires
        0 <= i < s.len(),
        forall|j: int| 0 <= j < i ==> s[j].key() != s[i].key(),
    ensures
        declared(s).contains_key(s[i].key()),
        declared(s)[s[i].key()] == s[i].caster,
    decreases s.len(),
{
    let t = s.drop_last();
    if i == s.len() - 1 {
        lemma_declared_keys(t);
        if declared_keys(t).to_set().contains(s[i].key()) {
            let j = choose|j: int| 0 <= j < t.len() && declared_keys(t)[j] == s[i].key();
            assert(s[j].key() == s[i].key());
        }
    } else {
        lemma_declared_first(t, i);
    }
}

/// Building from the same declarations always gives the same table, whose
/// number of keys is the number of distinct declared pairs.
pub proof fn lemma_one_table<F>(a: Registry<F>, b: Registry<F>, s: Seq<CastEntry<F>>)
    requires
        a@ == declared(s),
        b@ == declared(s),
    ensures
        a@ == b@,
        a@.len() == declared_keys(s).to_set().len(),
{
    lemma_declared_keys(s);
}

/// Casts a type-erased value to a capability: `ty` is the identity of the
/// value's concrete type and `cap` that of the capability. Where a caster is
/// registered for the pair, the result is what `cast` makes of it; otherwise
/// there is no view.
pub fn any_to_trait<'a, F, V, G: Fn(&'a F) -> Option<V>>(
    registry: &'a Registry<F>,
    ty: &TypeId,
    cap: &TypeId,
    cast: G,
) -> (r: Option<V>)
    requires
        registry.wf(),
        forall|c: &F| cast.requires((c,)),
    ensures
        !registry@.contains_key((*ty, *cap)) ==> r is None,
        registry@.contains_key((*ty, *cap)) ==> cast.ensures((&registry@[(*ty, *cap)],), r),
{
    match registry.lookup(ty, cap) {
        Some(caster) => cast(caster),
        None => None,
    }
}

} // verus!
