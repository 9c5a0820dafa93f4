//! Laws tying the map operations together.
//!
//! Each proof function here states, over the spec functions that the map
//! contracts use, a property that spans several operations. The hypotheses of
//! each law are exactly what the corresponding contracts ensure.

use vstd::prelude::*;

use crate::btreemap::DefaultBTreeMap;
use crate::default_fn::DefaultFn;
use crate::hashmap::DefaultHashMap;
use std::collections::BTreeMap;
use std::collections::HashMap;
use std::hash::Hash;

verus! {

/// Reads are idempotent and never materialize. `get` borrows the map
/// immutably, so no sequence of reads changes the entries or the default
/// snapshot; and any two reads of the same key observe one and the same
/// value — the stored entry when the key is materialized, and exactly the
/// current default snapshot when it is not. The hypotheses are the `ensures`
/// of `get`, once for each of two reads.
pub proof fn lemma_hash_get_idempotent<K: Eq + Hash, V, F: DefaultFn<V>>(
    m: DefaultHashMap<K, V, F>,
    k: K,
    v1: V,
    v2: V,
)
    requires
        v1 == (if m.entries().contains_key(k) {
            m.entries()[k]
        } else {
            m.default_snapshot()
        }),
        v2 == (if m.entries().contains_key(k) {
            m.entries()[k]
        } else {
            m.default_snapshot()
        }),
    ensures
        v1 == v2,
        !m.entries().contains_key(k) ==> v1 == m.default_snapshot(),
{
}

/// The ordered variant of the same law.
pub proof fn lemma_btree_get_idempotent<K: Eq + Ord, V>(
    m: DefaultBTreeMap<K, V>,
    k: K,
    v1: V,
    v2: V,
)
    requires
        v1 == (if m.entries().contains_key(k) {
            m.entries()[k]
        } else {
            m.default_snapshot()
        }),
        v2 == (if m.entries().contains_key(k) {
            m.entries()[k]
        } else {
            m.default_snapshot()
        }),
    ensures
        v1 == v2,
        !m.entries().contains_key(k) ==> v1 == m.default_snapshot(),
{
}

/// Materialization happens exactly once per missing key. After a first
/// mutable access of an absent key `k` — which materializes some value `v1`
/// and, if nothing is written through the returned reference, stores it — the
/// entries contain `k` mapped to `v1`; a second mutable access of `k` hands
/// back that same stored value and leaves the entries unchanged: nothing is
/// materialized again.
pub proof fn lemma_hash_materializes_once<K: Eq + Hash, V: Clone, F: DefaultFn<V>>(
    pre: DefaultHashMap<K, V, F>,
    mid: DefaultHashMap<K, V, F>,
    fin: DefaultHashMap<K, V, F>,
    k: K,
    v1: V,
    v2: V,
)
    requires
        !pre.entries().contains_key(k),
        mid.entries() == pre.entries().insert(k, v1),
        v2 == mid.entries()[k],
        fin.entries() == mid.entries().insert(k, v2),
    ensures
        mid.entries().contains_key(k),
        mid.entries()[k] == v1,
        v2 == v1,
        fin.entries() == mid.entries(),
{
    assert(fin.entries() =~= mid.entries());
}

/// The ordered variant of the same law.
pub proof fn lemma_btree_materializes_once<K: Eq + Ord, V: Clone>(
    pre: DefaultBTreeMap<K, V>,
    mid: DefaultBTreeMap<K, V>,
    fin: DefaultBTreeMap<K, V>,
    k: K,
    v1: V,
    v2: V,
)
    requires
        !pre.entries().contains_key(k),
        mid.entries() == pre.entries().insert(k, v1),
        v2 == mid.entries()[k],
        fin.entries() == mid.entries().insert(k, v2),
    ensures
        mid.entries().contains_key(k),
        mid.entries()[k] == v1,
        v2 == v1,
        fin.entries() == mid.entries(),
{
    assert(fin.entries() =~= mid.entries());
}

/// Replacing the default is prospective only. After `set_default` — which
/// keeps the entries and stores the new snapshot `d` — every key that was
/// materialized still reads its old stored value, and only a read of a key
/// that is still absent observes `d`.
pub proof fn lemma_hash_set_default_prospective<K: Eq + Hash, V: Clone, F: DefaultFn<V>>(
    pre: DefaultHashMap<K, V, F>,
    post: DefaultHashMap<K, V, F>,
    d: V,
    k: K,
)
    requires
        post.entries() == pre.entries(),
        post.default_snapshot() == d,
    ensures
        post.entries().contains_key(k) == pre.entries().contains_key(k),
        pre.entries().contains_key(k) ==> post.entries()[k] == pre.entries()[k],
        !pre.entries().contains_key(k) ==> post.default_snapshot() == d,
{
}

/// The ordered variant of the same law.
pub proof fn lemma_btree_set_default_prospective<K: Eq + Ord, V: Clone>(
    pre: DefaultBTreeMap<K, V>,
    post: DefaultBTreeMap<K, V>,
    d: V,
    k: K,
)
    requires
        post.entries() == pre.entries(),
        post.default_snapshot() == d,
    ensures
        post.entries().contains_key(k) == pre.entries().contains_key(k),
        pre.entries().contains_key(k) ==> post.entries()[k] == pre.entries()[k],
        !pre.entries().contains_key(k) ==> post.default_snapshot() == d,
{
}

/// Round trip: converting a `DefaultHashMap` to the plain map and wrapping
/// that plain map again rebuilds a map whose entries equal the original
/// entries. The default does not survive the trip; it resets to `V::default()`
/// unless explicitly re-supplied.
pub proof fn lemma_hash_round_trip<K: Eq + Hash, V, F: DefaultFn<V>>(
    original: DefaultHashMap<K, V, F>,
    plain: HashMap<K, V>,
    rebuilt: DefaultHashMap<K, V>,
)
    requires
        plain@ == original.entries(),
        rebuilt.entries() == plain@,
    ensures
        rebuilt.entries() == original.entries(),
{
}

/// The ordered variant of the same law.
pub proof fn lemma_btree_round_trip<K: Eq + Ord, V>(
    original: DefaultBTreeMap<K, V>,
    plain: BTreeMap<K, V>,
    rebuilt: DefaultBTreeMap<K, V>,
)
    requires
        plain@ == original.entries(),
        rebuilt.entries() == plain@,
    ensures
        rebuilt.entries() == original.entries(),
{
}

} // verus!
