//! Maps that hand back a configured default value when an absent key is read.
//!
//! A `DefaultHashMap` (hash-keyed) or `DefaultBTreeMap` (order-keyed) wraps the
//! corresponding standard container together with a default-value source.
//! Reading an absent key through `get` returns the stored default snapshot and
//! never changes the map; `get_mut` materializes a fresh default for an absent
//! key, inserts it, and hands out a mutable reference to the new entry.

use vstd::prelude::*;

mod btreemap;
mod default_fn;
mod hashmap;
pub mod laws;

pub use btreemap::DefaultBTreeMap;
pub use default_fn::lemma_fn_default_callable;
pub use default_fn::lemma_fn_default_produces;
pub use default_fn::DefaultFn;
pub use default_fn::FnDefault;
pub use default_fn::SnapshotSource;
pub use hashmap::map_entries_eq;
pub use hashmap::DefaultHashMap;

use vstd::std_specs::iter::IteratorSpec;

verus! {

/// Advances an iterator one step; stated generically so the trait-level
/// specification applies to calls on concrete iterator types.
pub(crate) fn iter_next<I: Iterator>(it: &mut I) -> (ret: Option<I::Item>)
    ensures
        <I as IteratorSpec>::obeys_prophetic_iter_laws(final(it)) == <I as IteratorSpec>::obeys_prophetic_iter_laws(old(it)),
        <I as IteratorSpec>::obeys_prophetic_iter_laws(final(it)) ==> ({
            if <I as IteratorSpec>::remaining(old(it)).len() > 0 {
                &&& <I as IteratorSpec>::remaining(final(it)) == <I as IteratorSpec>::remaining(
                    old(it),
                ).drop_first()
                &&& ret == Some(<I as IteratorSpec>::remaining(old(it))[0])
            } else {
                &&& <I as IteratorSpec>::remaining(final(it)) == <I as IteratorSpec>::remaining(
                    old(it),
                )
                &&& ret is None
            }
        }),
{
    it.next()
}

} // verus!
