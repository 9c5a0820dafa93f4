//! An order-keyed map with a configured default for absent keys.

use vstd::prelude::*;

use crate::iter_next;
use std::collections::btree_map::{Iter, Keys, Values};
use std::collections::BTreeMap;
use vstd::laws_cmp::obeys_cmp;
use vstd::std_specs::btree::increasing_seq;
use vstd::std_specs::cmp::PartialEqSpec;
use vstd::std_specs::iter::IteratorSpec;

use crate::hashmap::map_entries_eq;

verus! {

/// A `BTreeMap` that returns a default when keys are accessed that are not present.
///
/// The default source is a stored snapshot value: plain reads of absent keys
/// observe it directly, and materialization inserts a clone of it.
#[derive(Clone, Debug)]
pub struct DefaultBTreeMap<K: Eq + Ord, V> {
    map: BTreeMap<K, V>,
    default: V,
}

impl<K: Eq + Ord, V> DefaultBTreeMap<K, V> {
    /// The entries currently materialized in the map.
    pub closed spec fn entries(&self) -> Map<K, V> {
        self.map@
    }

    /// The stored default snapshot, observed by reads of absent keys and
    /// cloned on materialization.
    pub closed spec fn default_snapshot(&self) -> V {
        self.default
    }
}

/// Relies on `BTreeMap::entry` and `btree_map::Entry::or_insert`: hands out a
/// mutable reference to the value under `key`, first inserting `fresh` if the
/// key had no entry; no other entry changes.
#[verifier::external_body]
fn btree_or_insert<'a, K: Ord, V>(m: &'a mut BTreeMap<K, V>, key: K, fresh: V) -> (value: &'a mut
    V)
    ensures
        obeys_cmp::<K>() ==> {
            &&& *value == if old(m)@.contains_key(key) {
                old(m)@[key]
            } else {
                fresh
            }
            &&& final(m)@ == old(m)@.insert(key, *final(value))
        },
{
    m.entry(key).or_insert(fresh)
}

impl<K: Eq + Ord, V: Clone> DefaultBTreeMap<K, V> {
    /// Creates an empty `DefaultBTreeMap` with `default` as the default for missing keys.
    pub fn new(default: V) -> (result: DefaultBTreeMap<K, V>)
        ensures
            result.entries() == Map::<K, V>::empty(),
            result.default_snapshot() == default,
    {
        DefaultBTreeMap { map: BTreeMap::new(), default }
    }

    /// Creates a `DefaultBTreeMap` based on a default and an already existing `BTreeMap`.
    pub fn new_with_map(default: V, map: BTreeMap<K, V>) -> (result: DefaultBTreeMap<K, V>)
        ensures
            result.entries() == map@,
            result.default_snapshot() == default,
    {
        DefaultBTreeMap { map, default }
    }

    /// Changes the default value permanently or until `set_default()` is called again.
    /// Entries already materialized are untouched; only later misses observe
    /// the new default.
    pub fn set_default(&mut self, new_default: V)
        ensures
            final(self).entries() == old(self).entries(),
            final(self).default_snapshot() == new_default,
    {
        self.default = new_default;
    }

    /// Returns an owned, freshly materialized default value, without touching
    /// the entries.
    pub fn get_default(&self) -> (value: V)
        ensures
            cloned(self.default_snapshot(), value),
    {
        self.default.clone()
    }

    /// Returns a mutable reference to the value stored for the provided key.
    /// If there is no value stored for the key, a clone of the default
    /// snapshot is first inserted for this key; exactly one insertion occurs
    /// per missing-key call.
    pub fn get_mut(&mut self, key: K) -> (value: &mut V)
        requires
            obeys_cmp::<K>(),
        ensures
            old(self).entries().contains_key(key) ==> *value == old(self).entries()[key],
            !old(self).entries().contains_key(key) ==> cloned(
                old(self).default_snapshot(),
                *value,
            ),
            final(self).entries() == old(self).entries().insert(key, *final(value)),
            final(self).default_snapshot() == old(self).default_snapshot(),
    {
        let fresh = self.default.clone();
        btree_or_insert(&mut self.map, key, fresh)
    }
}

impl<K: Eq + Ord, V> DefaultBTreeMap<K, V> {
    /// Returns a reference to the value stored for the provided key.
    /// If the key is not in the `DefaultBTreeMap` a reference to the stored
    /// default snapshot is returned; the entries are left unchanged, and no
    /// fresh default is materialized.
    pub fn get<'a>(&'a self, key: &K) -> (value: &'a V)
        requires
            obeys_cmp::<K>(),
        ensures
            self.entries().contains_key(*key) ==> *value == self.entries()[*key],
            !self.entries().contains_key(*key) ==> *value == self.default_snapshot(),
    {
        match self.map.get(key) {
            Some(v) => v,
            None => &self.default,
        }
    }

    /// The number of materialized entries.
    pub fn len(&self) -> (result: usize)
        requires
            obeys_cmp::<K>(),
        ensures
            result == self.entries().len(),
    {
        self.map.len()
    }

    /// Whether no entry is materialized.
    pub fn is_empty(&self) -> (result: bool)
        ensures
            result == self.entries().is_empty(),
    {
        self.map.is_empty()
    }

    /// Removes every materialized entry; the default snapshot is kept.
    pub fn clear(&mut self)
        ensures
            final(self).entries() == Map::<K, V>::empty(),
            final(self).default_snapshot() == old(self).default_snapshot(),
    {
        self.map.clear()
    }

    /// Inserts a value under a key, replacing and returning the previous value
    /// if one was materialized. The default snapshot plays no part here.
    pub fn insert(&mut self, k: K, v: V) -> (result: Option<V>)
        requires
            obeys_cmp::<K>(),
        ensures
            final(self).entries() == old(self).entries().insert(k, v),
            match result {
                Some(prev) => old(self).entries().contains_key(k) && prev == old(self).entries()[k],
                None => !old(self).entries().contains_key(k),
            },
            final(self).default_snapshot() == old(self).default_snapshot(),
    {
        self.map.insert(k, v)
    }

    /// Whether an entry is materialized for the key.
    pub fn contains_key(&self, k: &K) -> (result: bool)
        requires
            obeys_cmp::<K>(),
        ensures
            result == self.entries().contains_key(*k),
    {
        self.map.contains_key(k)
    }

    /// Removes the entry for the key, returning its value if one was
    /// materialized.
    pub fn remove(&mut self, k: &K) -> (result: Option<V>)
        requires
            obeys_cmp::<K>(),
        ensures
            final(self).entries() == old(self).entries().remove(*k),
            match result {
                Some(prev) => old(self).entries().contains_key(*k) && prev == old(
                    self,
                ).entries()[*k],
                None => !old(self).entries().contains_key(*k),
            },
            final(self).default_snapshot() == old(self).default_snapshot(),
    {
        self.map.remove(k)
    }

    /// An iterator over the materialized keys, in increasing key order.
    pub fn keys<'a>(&'a self) -> (result: Keys<'a, K, V>)
        requires
            obeys_cmp::<K>(),
        ensures
            result.remaining().unref().to_set() == self.entries().dom(),
            result.remaining().no_duplicates(),
            result.remaining().len() == self.entries().dom().len(),
            increasing_seq(result.remaining()),
    {
        self.map.keys()
    }

    /// An iterator over the materialized values, in increasing order of their
    /// keys.
    pub fn values<'a>(&'a self) -> (result: Values<'a, K, V>)
        requires
            obeys_cmp::<K>(),
        ensures
            result.remaining().unref().to_set() == self.entries().values(),
            result.remaining().len() == self.entries().dom().len(),
    {
        self.map.values()
    }

    /// An iterator over the materialized entries, in increasing key order.
    pub fn iter<'a>(&'a self) -> (result: Iter<'a, K, V>)
        requires
            obeys_cmp::<K>(),
        ensures
            result.remaining().len() == self.entries().dom().len(),
            forall|i: int|
                0 <= i < result.remaining().len() ==> #[trigger] self.entries().contains_key(
                    *result.remaining()[i].0,
                ) && self.entries()[*result.remaining()[i].0] == *result.remaining()[i].1,
            result.remaining().no_duplicates(),
            result.remaining().unref().to_set() == self.entries().kv_pairs(),
            increasing_seq(result.remaining().map_values(|kv: (&K, &V)| *kv.0)),
    {
        self.map.iter()
    }
}

/// Relies on `BTreeMap::retain`: keeps exactly the entries for which the
/// predicate returned true, leaving the kept values unchanged.
#[verifier::external_body]
fn btree_retain<K: Ord, V, P: Fn(&K, &V) -> bool>(m: &mut BTreeMap<K, V>, pred: P)
    requires
        forall|k: K| old(m)@.contains_key(k) ==> call_requires(pred, (&k, &old(m)@[k])),
    ensures
        obeys_cmp::<K>() ==> {
            &&& forall|k: K| #[trigger]
                final(m)@.contains_key(k) ==> old(m)@.contains_key(k) && final(m)@[k] == old(m)@[k]
            &&& forall|k: K|
                #![trigger final(m)@.contains_key(k)]
                old(m)@.contains_key(k) && final(m)@.contains_key(k) ==> call_ensures(
                    pred,
                    (&k, &old(m)@[k]),
                    true,
                )
            &&& forall|k: K|
                #![trigger final(m)@.contains_key(k)]
                old(m)@.contains_key(k) && !final(m)@.contains_key(k) ==> call_ensures(
                    pred,
                    (&k, &old(m)@[k]),
                    false,
                )
        },
{
    m.retain(|k, v| pred(k, v))
}

impl<K: Eq + Ord, V> DefaultBTreeMap<K, V> {
    /// Keeps only the entries for which the predicate holds of the key and
    /// value; the kept entries and the default snapshot are unchanged.
    pub fn retain<P: Fn(&K, &V) -> bool>(&mut self, f: P)
        requires
            obeys_cmp::<K>(),
            forall|k: K|
                old(self).entries().contains_key(k) ==> call_requires(
                    f,
                    (&k, &old(self).entries()[k]),
                ),
        ensures
            forall|k: K| #[trigger]
                final(self).entries().contains_key(k) ==> old(self).entries().contains_key(k)
                    && final(self).entries()[k] == old(self).entries()[k],
            forall|k: K|
                #![trigger final(self).entries().contains_key(k)]
                old(self).entries().contains_key(k) && final(self).entries().contains_key(k)
                    ==> call_ensures(f, (&k, &old(self).entries()[k]), true),
            forall|k: K|
                #![trigger final(self).entries().contains_key(k)]
                old(self).entries().contains_key(k) && !final(self).entries().contains_key(k)
                    ==> call_ensures(f, (&k, &old(self).entries()[k]), false),
            final(self).default_snapshot() == old(self).default_snapshot(),
    {
        proof {
            assert forall|k: K| self.map@.contains_key(k) implies call_requires(
                f,
                (&k, &self.map@[k]),
            ) by {
                assert(old(self).entries().contains_key(k));
            }
        }
        btree_retain(&mut self.map, f)
    }
}

impl<K: Eq + Ord, V: Default + Clone> Default for DefaultBTreeMap<K, V> {
    /// The `default()` constructor creates an empty `DefaultBTreeMap` with the
    /// default of `V` as the default for missing keys.
    fn default() -> (result: DefaultBTreeMap<K, V>)
        ensures
            result.entries() == Map::<K, V>::empty(),
            call_ensures(V::default, (), result.default_snapshot()),
    {
        DefaultBTreeMap { map: BTreeMap::new(), default: V::default() }
    }
}

impl<K: Eq + Ord, V: Default> From<BTreeMap<K, V>> for DefaultBTreeMap<K, V> {
    /// Wraps an existing `BTreeMap`; the default for missing keys is `V::default()`.
    fn from(map: BTreeMap<K, V>) -> (result: DefaultBTreeMap<K, V>)
        ensures
            result.entries() == map@,
            call_ensures(V::default, (), result.default_snapshot()),
    {
        DefaultBTreeMap { map, default: V::default() }
    }
}

impl<K: Eq + Ord, V: Default> vstd::std_specs::convert::FromSpecImpl<BTreeMap<K, V>> for DefaultBTreeMap<K, V> {
    open spec fn obeys_from_spec() -> bool {
        false
    }

    open spec fn from_spec(map: BTreeMap<K, V>) -> Self {
        arbitrary()
    }
}

impl<K: Eq + Ord, V> From<DefaultBTreeMap<K, V>> for BTreeMap<K, V> {
    /// Converts a `DefaultBTreeMap` back into a plain `BTreeMap`, keeping the
    /// materialized entries and dropping the default snapshot.
    fn from(default_map: DefaultBTreeMap<K, V>) -> (result: BTreeMap<K, V>)
        ensures
            result@ == default_map.entries(),
    {
        default_map.map
    }
}

impl<K: Eq + Ord, V> vstd::std_specs::convert::FromSpecImpl<DefaultBTreeMap<K, V>> for BTreeMap<K, V> {
    open spec fn obeys_from_spec() -> bool {
        false
    }

    open spec fn from_spec(default_map: DefaultBTreeMap<K, V>) -> Self {
        arbitrary()
    }
}

/// Entry-by-entry comparison of two `BTreeMap`s.
fn btree_map_eq<K: Eq + Ord, V: PartialEq>(m1: &BTreeMap<K, V>, m2: &BTreeMap<K, V>) -> (r: bool)
    ensures
        obeys_cmp::<K>() && V::obeys_eq_spec() ==> r == map_entries_eq(m1@, m2@),
{
    if m1.len() != m2.len() {
        return false;
    }
    let mut it = m1.iter();
    let mut fuel = m1.len();
    let ghost it0 = it;
    let ghost mut processed: int = 0;
    while fuel > 0
        invariant
            it.obeys_prophetic_iter_laws(),
            0 <= processed <= it0.remaining().len(),
            it.remaining() == it0.remaining().subrange(processed, it0.remaining().len() as int),
            obeys_cmp::<K>() && V::obeys_eq_spec() ==> {
                &&& it0 == vstd::std_specs::btree::spec_btree_map_iter(m1)
                &&& m1@.len() == m2@.len()
                &&& fuel == it0.remaining().len() - processed
                &&& forall|j: int|
                    #![trigger it0.remaining()[j]]
                    0 <= j < processed ==> {
                        let p = it0.remaining()[j];
                        &&& m2@.contains_key(*p.0)
                        &&& m1@[*p.0].eq_spec(&m2@[*p.0])
                    }
            },
        decreases fuel,
    {
        match iter_next(&mut it) {
            None => {
                fuel = fuel - 1;
            },
            Some(kv) => {
                let (k, v) = kv;
                match m2.get(k) {
                    Some(w) => {
                        if !(*v == *w) {
                            return false;
                        }
                    },
                    None => {
                        return false;
                    },
                }
                fuel = fuel - 1;
                proof {
                    processed = processed + 1;
                    assert(it.remaining() =~= it0.remaining().subrange(
                        processed,
                        it0.remaining().len() as int,
                    ));
                }
            },
        }
    }
    proof {
        if obeys_cmp::<K>() && V::obeys_eq_spec() {
            let r1 = it0.remaining();
            assert forall|k: K| #[trigger] m1@.contains_key(k) implies m2@.contains_key(k)
                && m1@[k].eq_spec(&m2@[k]) by {
                assert(r1.contains((&k, &m1@[k])));
                let j = choose|j: int| 0 <= j < r1.len() && r1[j] == (&k, &m1@[k]);
                assert(r1[j].0 == &k);
            }
            assert(m1@.dom().subset_of(m2@.dom()));
            vstd::set_lib::lemma_subset_equality(m1@.dom(), m2@.dom());
        }
    }
    true
}

impl<K: Eq + Ord, V: PartialEq> PartialEq for DefaultBTreeMap<K, V> {
    /// Two `DefaultBTreeMap`s are equal when their materialized entries are
    /// equal and their stored default snapshots are equal.
    fn eq(&self, other: &Self) -> (r: bool) {
        btree_map_eq(&self.map, &other.map) && self.default == other.default
    }
}

impl<K: Eq + Ord, V: PartialEq + Eq> Eq for DefaultBTreeMap<K, V> {

}

impl<K: Eq + Ord, V: PartialEq> vstd::std_specs::cmp::PartialEqSpecImpl for DefaultBTreeMap<K, V> {
    open spec fn obeys_eq_spec() -> bool {
        obeys_cmp::<K>() && V::obeys_eq_spec()
    }

    open spec fn eq_spec(&self, other: &Self) -> bool {
        &&& map_entries_eq(self.entries(), other.entries())
        &&& self.default_snapshot().eq_spec(&other.default_snapshot())
    }
}

} // verus!
