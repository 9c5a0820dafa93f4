//! A hash-keyed map with a configured default for absent keys.

use vstd::prelude::*;

use crate::default_fn::DefaultFn;
use crate::default_fn::FnDefault;
use crate::default_fn::SnapshotSource;
use crate::iter_next;
use std::collections::hash_map::{Entry, Iter, Keys, Values};
use std::collections::HashMap;
use std::hash::Hash;
use vstd::std_specs::cmp::PartialEqSpec;
use vstd::std_specs::hash::{obeys_key_model, EntrySpecFns};
use vstd::std_specs::iter::IteratorSpec;

verus! {

/// A `HashMap` that returns a default when keys are accessed that are not present.
///
/// The default source is either the stored snapshot value alone (`factory` is
/// `None`) or a caller-supplied producer (`factory` is `Some`); in both forms
/// the snapshot is what a plain read of an absent key observes, while
/// materialization draws a fresh value from the source.
#[derive(Clone, Debug)]
pub struct DefaultHashMap<K: Eq + Hash, V, F = SnapshotSource> {
    map: HashMap<K, V>,
    default: V,
    factory: Option<F>,
}

impl<K: Eq + Hash, V, F: DefaultFn<V>> DefaultHashMap<K, V, F> {
    /// The entries currently materialized in the map.
    pub closed spec fn entries(&self) -> Map<K, V> {
        self.map@
    }

    /// The stored default snapshot, observed by reads of absent keys.
    pub closed spec fn default_snapshot(&self) -> V {
        self.default
    }

    /// The custom producer, if the default source is factory-based.
    pub closed spec fn source(&self) -> Option<F> {
        self.factory
    }

    /// The default source can be drawn from whenever a default is needed.
    pub open spec fn wf(&self) -> bool {
        match self.source() {
            Some(f) => f.callable(),
            None => true,
        }
    }
}

impl<K: Eq + Hash, V: Clone, F: DefaultFn<V>> DefaultHashMap<K, V, F> {
    /// Whether `v` is a value the current default source can materialize:
    /// any output of the factory, or a clone of the stored snapshot.
    pub open spec fn produces_default(&self, v: V) -> bool {
        match self.source() {
            Some(f) => f.produces(v),
            None => cloned(self.default_snapshot(), v),
        }
    }
}

impl<K: Eq + Hash, V: Default> DefaultHashMap<K, V> {
    /// The `new()` constructor creates an empty `DefaultHashMap` with the default of `V`
    /// as the default for missing keys.
    pub fn new() -> (result: DefaultHashMap<K, V>)
        ensures
            result.wf(),
            result.entries() == Map::<K, V>::empty(),
            result.source() is None,
            call_ensures(V::default, (), result.default_snapshot()),
    {
        DefaultHashMap { map: HashMap::new(), default: V::default(), factory: None }
    }
}

impl<K: Eq + Hash, V: Clone> DefaultHashMap<K, V> {
    /// Creates an empty `DefaultHashMap` with `default` as the default for missing keys.
    pub fn with_default(default: V) -> (result: DefaultHashMap<K, V>)
        ensures
            result.wf(),
            result.entries() == Map::<K, V>::empty(),
            result.source() is None,
            result.default_snapshot() == default,
    {
        DefaultHashMap { map: HashMap::new(), default, factory: None }
    }

    /// Creates a `DefaultHashMap` based on a default and an already existing `HashMap`.
    pub fn from_map_with_default(map: HashMap<K, V>, default: V) -> (result: DefaultHashMap<K, V>)
        ensures
            result.wf(),
            result.entries() == map@,
            result.source() is None,
            result.default_snapshot() == default,
    {
        DefaultHashMap { map, default, factory: None }
    }
}

impl<K: Eq + Hash, V: Clone, F: DefaultFn<V>> DefaultHashMap<K, V, F> {
    /// Changes the default value permanently or until `set_default()` is called again.
    /// Entries already materialized are untouched; only later misses observe the
    /// new default.
    pub fn set_default(&mut self, new_default: V)
        ensures
            final(self).wf(),
            final(self).entries() == old(self).entries(),
            final(self).default_snapshot() == new_default,
            final(self).source() is None,
    {
        self.default = new_default;
        self.factory = None;
    }

    /// Returns an owned, freshly materialized default value, without touching
    /// the entries.
    pub fn get_default(&self) -> (value: V)
        requires
            self.wf(),
        ensures
            self.produces_default(value),
    {
        match &self.factory {
            Some(f) => f.call(),
            None => self.default.clone(),
        }
    }
}

/// Whether the two mappings hold the same keys and, under each key, values
/// that compare equal by `eq_spec`.
pub open spec fn map_entries_eq<K, V: PartialEq>(m1: Map<K, V>, m2: Map<K, V>) -> bool {
    &&& m1.dom() == m2.dom()
    &&& forall|k: K| #[trigger] m1.contains_key(k) ==> m1[k].eq_spec(&m2[k])
}

/// Relies on `HashMap::remove_entry`: removes the entry for the key and
/// returns the stored key and value, if the key had an entry.
#[verifier::external_body]
fn hash_remove_entry<K: Eq + Hash, V>(m: &mut HashMap<K, V>, k: &K) -> (r: Option<(K, V)>)
    ensures
        obeys_key_model::<K>() ==> {
            &&& final(m)@ == old(m)@.remove(*k)
            &&& match r {
                Some(pair) => old(m)@.contains_key(*k) && pair.0 == *k && pair.1 == old(m)@[*k],
                None => !old(m)@.contains_key(*k),
            }
        },
{
    m.remove_entry(k)
}

/// Relies on `HashMap::retain`: keeps exactly the entries for which the
/// predicate returned true, leaving the kept values unchanged.
#[verifier::external_body]
fn hash_retain<K: Eq + Hash, V, P: Fn(&K, &V) -> bool>(m: &mut HashMap<K, V>, pred: P)
    requires
        forall|k: K| old(m)@.contains_key(k) ==> call_requires(pred, (&k, &old(m)@[k])),
    ensures
        obeys_key_model::<K>() ==> {
            &&& forall|k: K| #[trigger]
                final(m)@.contains_key(k) ==> old(m)@.contains_key(k) && final(m)@[k] == old(m)@[k]
            &&& forall|k: K|
                #![trigger final(m)@.contains_key(k)]
                old(m)@.contains_key(k) && final(m)@.contains_key(k) ==> call_ensures(
                    pred,
                    (&k, &old(m)@[k]),
                    true,
                )
            &&& forall|k: K|
                #![trigger final(m)@.contains_key(k)]
                old(m)@.contains_key(k) && !final(m)@.contains_key(k) ==> call_ensures(
                    pred,
                    (&k, &old(m)@[k]),
                    false,
                )
        },
{
    m.retain(|k, v| pred(k, v))
}

/// Entry-by-entry comparison of two `HashMap`s.
fn hash_map_eq<K: Eq + Hash, V: PartialEq>(m1: &HashMap<K, V>, m2: &HashMap<K, V>) -> (r: bool)
    ensures
        obeys_key_model::<K>() && V::obeys_eq_spec() ==> r == map_entries_eq(m1@, m2@),
{
    if m1.len() != m2.len() {
        return false;
    }
    let mut it = m1.iter();
    let mut fuel = m1.len();
    let ghost it0 = it;
    let ghost mut processed: int = 0;
    while fuel > 0
        invariant
            it.obeys_prophetic_iter_laws(),
            0 <= processed <= it0.remaining().len(),
            it.remaining() == it0.remaining().subrange(processed, it0.remaining().len() as int),
            obeys_key_model::<K>() && V::obeys_eq_spec() ==> {
                &&& it0 == vstd::std_specs::hash::spec_hash_map_iter(m1)
                &&& m1@.len() == m2@.len()
                &&& fuel == it0.remaining().len() - processed
                &&& forall|j: int|
                    #![trigger it0.remaining()[j]]
                    0 <= j < processed ==> {
                        let p = it0.remaining()[j];
                        &&& m2@.contains_key(*p.0)
                        &&& m1@[*p.0].eq_spec(&m2@[*p.0])
                    }
            },
        decreases fuel,
    {
        match iter_next(&mut it) {
            None => {
                fuel = fuel - 1;
            },
            Some(kv) => {
                let (k, v) = kv;
                match m2.get(k) {
                    Some(w) => {
                        if !(*v == *w) {
                            return false;
                        }
                    },
                    None => {
                        return false;
                    },
                }
                fuel = fuel - 1;
                proof {
                    processed = processed + 1;
                    assert(it.remaining() =~= it0.remaining().subrange(
                        processed,
                        it0.remaining().len() as int,
                    ));
                }
            },
        }
    }
    proof {
        if obeys_key_model::<K>() && V::obeys_eq_spec() {
            let r1 = it0.remaining();
            assert(processed == r1.len());
            assert forall|k: K| #[trigger] m1@.contains_key(k) implies m2@.contains_key(k)
                && m1@[k].eq_spec(&m2@[k]) by {
                assert(r1.contains((&k, &m1@[k])));
                let j = choose|j: int| 0 <= j < r1.len() && r1[j] == (&k, &m1@[k]);
                assert(r1[j].0 == &k);
            }
            assert(m1@.dom().subset_of(m2@.dom()));
            vstd::set_lib::lemma_subset_equality(m1@.dom(), m2@.dom());
        }
    }
    true
}

impl<K: Eq + Hash, V: PartialEq, F: DefaultFn<V>> PartialEq for DefaultHashMap<K, V, F> {
    /// Two `DefaultHashMap`s are equal when their materialized entries are
    /// equal and their stored default snapshots are equal; the factory, which
    /// cannot be compared in general, is left out of the comparison.
    fn eq(&self, other: &Self) -> (r: bool) {
        hash_map_eq(&self.map, &other.map) && self.default == other.default
    }
}

impl<K: Eq + Hash, V: PartialEq + Eq, F: DefaultFn<V>> Eq for DefaultHashMap<K, V, F> {

}

impl<K: Eq + Hash, V: PartialEq, F: DefaultFn<V>> vstd::std_specs::cmp::PartialEqSpecImpl for DefaultHashMap<K, V, F> {
    open spec fn obeys_eq_spec() -> bool {
        obeys_key_model::<K>() && V::obeys_eq_spec()
    }

    open spec fn eq_spec(&self, other: &Self) -> bool {
        &&& map_entries_eq(self.entries(), other.entries())
        &&& self.default_snapshot().eq_spec(&other.default_snapshot())
    }
}

impl<K: Eq + Hash, V, G: Fn() -> V> DefaultHashMap<K, V, FnDefault<G>> {
    /// Creates an empty `DefaultHashMap` whose defaults are produced by invoking
    /// `default_fn` afresh on every materialization. The snapshot observed by
    /// plain reads of absent keys is one invocation made now.
    pub fn with_fn(default_fn: G) -> (result: DefaultHashMap<K, V, FnDefault<G>>)
        requires
            call_requires(default_fn, ()),
        ensures
            result.wf(),
            result.entries() == Map::<K, V>::empty(),
            result.source() == Some(FnDefault(default_fn)),
            call_ensures(default_fn, (), result.default_snapshot()),
    {
        let f = FnDefault(default_fn);
        let default = f.call();
        DefaultHashMap { map: HashMap::new(), default, factory: Some(f) }
    }

    /// Creates a `DefaultHashMap` over an existing map, with `default_fn` as
    /// the default source for missing keys.
    pub fn from_map_with_fn(map: HashMap<K, V>, default_fn: G) -> (result: DefaultHashMap<
        K,
        V,
        FnDefault<G>,
    >)
        requires
            call_requires(default_fn, ()),
        ensures
            result.wf(),
            result.entries() == map@,
            result.source() == Some(FnDefault(default_fn)),
            call_ensures(default_fn, (), result.default_snapshot()),
    {
        let f = FnDefault(default_fn);
        let default = f.call();
        DefaultHashMap { map, default, factory: Some(f) }
    }
}

impl<K: Eq + Hash, V: Default> Default for DefaultHashMap<K, V> {
    /// The `default()` method is equivalent to `DefaultHashMap::new()`.
    fn default() -> (result: DefaultHashMap<K, V>)
        ensures
            result.wf(),
            result.entries() == Map::<K, V>::empty(),
            result.source() is None,
            call_ensures(V::default, (), result.default_snapshot()),
    {
        DefaultHashMap::new()
    }
}

impl<K: Eq + Hash, V: Default> From<HashMap<K, V>> for DefaultHashMap<K, V> {
    /// Wraps an existing `HashMap`; the default for missing keys is `V::default()`.
    fn from(map: HashMap<K, V>) -> (result: DefaultHashMap<K, V>)
        ensures
            result.wf(),
            result.entries() == map@,
            result.source() is None,
            call_ensures(V::default, (), result.default_snapshot()),
    {
        DefaultHashMap { map, default: V::default(), factory: None }
    }
}

impl<K: Eq + Hash, V: Default> vstd::std_specs::convert::FromSpecImpl<HashMap<K, V>> for DefaultHashMap<K, V> {
    open spec fn obeys_from_spec() -> bool {
        false
    }

    open spec fn from_spec(map: HashMap<K, V>) -> Self {
        arbitrary()
    }
}

impl<K: Eq + Hash, V, F: DefaultFn<V>> From<DefaultHashMap<K, V, F>> for HashMap<K, V> {
    /// Converts a `DefaultHashMap` back into a plain `HashMap`, keeping the
    /// materialized entries and dropping the default source.
    fn from(default_map: DefaultHashMap<K, V, F>) -> (result: HashMap<K, V>)
        ensures
            result@ == default_map.entries(),
    {
        default_map.map
    }
}

impl<K: Eq + Hash, V, F: DefaultFn<V>> vstd::std_specs::convert::FromSpecImpl<DefaultHashMap<K, V, F>> for HashMap<K, V> {
    open spec fn obeys_from_spec() -> bool {
        false
    }

    open spec fn from_spec(default_map: DefaultHashMap<K, V, F>) -> Self {
        arbitrary()
    }
}

impl<K: Eq + Hash, V, F: DefaultFn<V>> DefaultHashMap<K, V, F> {
    /// Returns a reference to the value stored for the provided key.
    /// If the key is not in the `DefaultHashMap` a reference to the stored
    /// default snapshot is returned; the entries are left unchanged, and no
    /// fresh default is materialized.
    pub fn get<'a>(&'a self, key: &K) -> (value: &'a V)
        requires
            obeys_key_model::<K>(),
        ensures
            self.entries().contains_key(*key) ==> *value == self.entries()[*key],
            !self.entries().contains_key(*key) ==> *value == self.default_snapshot(),
    {
        match self.map.get(key) {
            Some(v) => v,
            None => &self.default,
        }
    }
}

impl<K: Eq + Hash, V: Clone, F: DefaultFn<V>> DefaultHashMap<K, V, F> {
    /// Returns a mutable reference to the value stored for the provided key.
    /// If there is no value stored for the key, a fresh default is first
    /// materialized from the default source and inserted for this key; exactly
    /// one insertion occurs per missing-key call.
    pub fn get_mut(&mut self, key: K) -> (value: &mut V)
        requires
            obeys_key_model::<K>(),
            old(self).wf(),
        ensures
            old(self).entries().contains_key(key) ==> *value == old(self).entries()[key],
            !old(self).entries().contains_key(key) ==> old(self).produces_default(*value),
            final(self).entries() == old(self).entries().insert(key, *final(value)),
            final(self).default_snapshot() == old(self).default_snapshot(),
            final(self).source() == old(self).source(),
            final(self).wf(),
    {
        let entry = self.map.entry(key);
        match entry {
            Entry::Occupied(occupied) => occupied.into_mut(),
            Entry::Vacant(vacant) => {
                let fresh = match &self.factory {
                    Some(f) => f.call(),
                    None => self.default.clone(),
                };
                vacant.insert(fresh)
            },
        }
    }
}

impl<K: Eq + Hash, V, F: DefaultFn<V>> DefaultHashMap<K, V, F> {
    /// The number of materialized entries.
    pub fn len(&self) -> (result: usize)
        requires
            obeys_key_model::<K>(),
        ensures
            result == self.entries().len(),
    {
        self.map.len()
    }

    /// Whether no entry is materialized.
    pub fn is_empty(&self) -> (result: bool)
        ensures
            result == self.entries().is_empty(),
    {
        self.map.is_empty()
    }

    /// Removes every materialized entry; the default source is kept.
    pub fn clear(&mut self)
        ensures
            final(self).entries() == Map::<K, V>::empty(),
            final(self).default_snapshot() == old(self).default_snapshot(),
            final(self).source() == old(self).source(),
            final(self).wf() == old(self).wf(),
    {
        self.map.clear()
    }

    /// Inserts a value under a key, replacing and returning the previous value
    /// if one was materialized. The default source plays no part here.
    pub fn insert(&mut self, k: K, v: V) -> (result: Option<V>)
        requires
            obeys_key_model::<K>(),
        ensures
            final(self).entries() == old(self).entries().insert(k, v),
            match result {
                Some(prev) => old(self).entries().contains_key(k) && prev == old(self).entries()[k],
                None => !old(self).entries().contains_key(k),
            },
            final(self).default_snapshot() == old(self).default_snapshot(),
            final(self).source() == old(self).source(),
            final(self).wf() == old(self).wf(),
    {
        self.map.insert(k, v)
    }

    /// Whether an entry is materialized for the key.
    pub fn contains_key(&self, k: &K) -> (result: bool)
        requires
            obeys_key_model::<K>(),
        ensures
            result == self.entries().contains_key(*k),
    {
        self.map.contains_key(k)
    }

    /// Removes the entry for the key, returning its value if one was
    /// materialized.
    pub fn remove(&mut self, k: &K) -> (result: Option<V>)
        requires
            obeys_key_model::<K>(),
        ensures
            final(self).entries() == old(self).entries().remove(*k),
            match result {
                Some(prev) => old(self).entries().contains_key(*k) && prev == old(
                    self,
                ).entries()[*k],
                None => !old(self).entries().contains_key(*k),
            },
            final(self).default_snapshot() == old(self).default_snapshot(),
            final(self).source() == old(self).source(),
            final(self).wf() == old(self).wf(),
    {
        self.map.remove(k)
    }

    /// An iterator over the materialized keys, in unspecified order.
    pub fn keys<'a>(&'a self) -> (result: Keys<'a, K, V>)
        requires
            obeys_key_model::<K>(),
        ensures
            result.remaining().unref().to_set() == self.entries().dom(),
            result.remaining().no_duplicates(),
            result.remaining().len() == self.entries().dom().len(),
    {
        self.map.keys()
    }

    /// An iterator over the materialized values, in unspecified order.
    pub fn values<'a>(&'a self) -> (result: Values<'a, K, V>)
        requires
            obeys_key_model::<K>(),
        ensures
            result.remaining().unref().to_set() == self.entries().values(),
            result.remaining().len() == self.entries().dom().len(),
    {
        self.map.values()
    }

    /// An iterator over the materialized entries, in unspecified order.
    pub fn iter<'a>(&'a self) -> (result: Iter<'a, K, V>)
        requires
            obeys_key_model::<K>(),
        ensures
            result.remaining().len() == self.entries().dom().len(),
            forall|i: int|
                0 <= i < result.remaining().len() ==> #[trigger] self.entries().contains_key(
                    *result.remaining()[i].0,
                ) && self.entries()[*result.remaining()[i].0] == *result.remaining()[i].1,
            result.remaining().no_duplicates(),
            result.remaining().unref().to_set() == self.entries().kv_pairs(),
    {
        self.map.iter()
    }

    /// Gives access to the entry for `key`, materializing nothing by itself;
    /// what the caller does with the entry decides how the map changes.
    pub fn entry<'a>(&'a mut self, key: K) -> (entry: Entry<'a, K, V>)
        requires
            obeys_key_model::<K>(),
        ensures
            entry.key() == key,
            entry.value() == old(self).entries().get(key),
            final(self).entries() == (match entry.final_value() {
                Some(value) => old(self).entries().insert(key, value),
                None => old(self).entries().remove(key),
            }),
            final(self).default_snapshot() == old(self).default_snapshot(),
            final(self).source() == old(self).source(),
            final(self).wf() == old(self).wf(),
    {
        self.map.entry(key)
    }

    /// Removes the entry for the key, returning the stored key and value if
    /// one was materialized.
    pub fn remove_entry(&mut self, k: &K) -> (result: Option<(K, V)>)
        requires
            obeys_key_model::<K>(),
        ensures
            final(self).entries() == old(self).entries().remove(*k),
            match result {
                Some(pair) => old(self).entries().contains_key(*k) && pair.0 == *k && pair.1 == old(
                    self,
                ).entries()[*k],
                None => !old(self).entries().contains_key(*k),
            },
            final(self).default_snapshot() == old(self).default_snapshot(),
            final(self).source() == old(self).source(),
            final(self).wf() == old(self).wf(),
    {
        hash_remove_entry(&mut self.map, k)
    }

    /// Keeps only the entries for which the predicate holds of the key and
    /// value; the kept entries and the default source are unchanged.
    pub fn retain<P: Fn(&K, &V) -> bool>(&mut self, f: P)
        requires
            obeys_key_model::<K>(),
            forall|k: K|
                old(self).entries().contains_key(k) ==> call_requires(
                    f,
                    (&k, &old(self).entries()[k]),
                ),
        ensures
            forall|k: K| #[trigger]
                final(self).entries().contains_key(k) ==> old(self).entries().contains_key(k)
                    && final(self).entries()[k] == old(self).entries()[k],
            forall|k: K|
                #![trigger final(self).entries().contains_key(k)]
                old(self).entries().contains_key(k) && final(self).entries().contains_key(k)
                    ==> call_ensures(f, (&k, &old(self).entries()[k]), true),
            forall|k: K|
                #![trigger final(self).entries().contains_key(k)]
                old(self).entries().contains_key(k) && !final(self).entries().contains_key(k)
                    ==> call_ensures(f, (&k, &old(self).entries()[k]), false),
            final(self).default_snapshot() == old(self).default_snapshot(),
            final(self).source() == old(self).source(),
            final(self).wf() == old(self).wf(),
    {
        proof {
            assert forall|k: K| self.map@.contains_key(k) implies call_requires(
                f,
                (&k, &self.map@[k]),
            ) by {
                assert(old(self).entries().contains_key(k));
            }
        }
        hash_retain(&mut self.map, f)
    }

    /// Reserves capacity for at least `additional` further entries; the
    /// contents are untouched.
    pub fn reserve(&mut self, additional: usize)
        ensures
            final(self).entries() == old(self).entries(),
            final(self).default_snapshot() == old(self).default_snapshot(),
            final(self).source() == old(self).source(),
    {
        self.map.reserve(additional)
    }
}

} // verus!
