//! The default-value sources a map can carry.
//!
//! A map's default is produced either by cloning a stored snapshot value or by
//! invoking a caller-supplied zero-argument factory. `DefaultFn` is the
//! capability a factory must offer: produce a value, under a stated contract.

use vstd::prelude::*;

verus! {

/// A zero-argument producer of default values.
///
/// `callable` is the precondition under which the producer may be invoked and
/// `produces` describes every value an invocation can return. Implementors
/// prove `call` against these two; the maps only rely on the contract. The
/// producers this crate supplies are `Clone` whenever what they carry is, so
/// maps stay duplicable.
pub trait DefaultFn<V>: Sized {
    /// When the producer may be invoked.
    spec fn callable(&self) -> bool;

    /// Whether `v` is a value this producer can return.
    spec fn produces(&self, v: V) -> bool;

    /// Produce one fresh default value.
    fn call(&self) -> (v: V)
        requires
            self.callable(),
        ensures
            self.produces(v),
    ;
}

/// A producer built from a zero-argument closure or function.
#[derive(Clone, Debug)]
pub struct FnDefault<G>(pub G);

impl<V, G: Fn() -> V> DefaultFn<V> for FnDefault<G> {
    open spec fn callable(&self) -> bool {
        call_requires(self.0, ())
    }

    open spec fn produces(&self, v: V) -> bool {
        call_ensures(self.0, (), v)
    }

    fn call(&self) -> (v: V) {
        (self.0)()
    }
}

/// What a closure-backed producer can return is exactly what its closure's
/// postcondition allows. Stated as a lemma because the equation does not
/// always unfold by itself at a concrete closure type.
pub proof fn lemma_fn_default_produces<V, G: Fn() -> V>(p: FnDefault<G>, v: V)
    ensures
        p.produces(v) == call_ensures(p.0, (), v),
{
}

/// A closure-backed producer may be invoked exactly when its closure's
/// precondition holds.
pub proof fn lemma_fn_default_callable<V, G: Fn() -> V>(p: FnDefault<G>)
    ensures
        p.callable() == call_requires(p.0, ()),
{
}

/// Marker source for maps whose defaults come from the stored snapshot value
/// alone. Such maps keep no factory, so this producer is never invoked.
#[derive(Clone, Debug)]
pub struct SnapshotSource;

impl<V> DefaultFn<V> for SnapshotSource {
    open spec fn callable(&self) -> bool {
        false
    }

    open spec fn produces(&self, v: V) -> bool {
        false
    }

    fn call(&self) -> (v: V) {
        vstd::pervasive::unreached()
    }
}

} // verus!
