//! Placement: how creation requests map to identities.

use std::hash::Hash;
use std::marker::PhantomData;
use vstd::prelude::*;

verus! {

/// Determines the canonical identity of a resource input.
pub trait Placement<I>: Send + Sync + 'static {
    /// The hashable identity used by the domain registry.
    type Key: Eq + Hash + Send + Sync + 'static;

    /// Whether generations using this placement participate in discovery.
    const CANONICAL: bool;

    /// The canonical identity of creation input.
    spec fn spec_key(input: I) -> Self::Key;

    /// Derives canonical identity from creation input.
    fn key(input: &I) -> (key: Self::Key)
        ensures
            key == Self::spec_key(*input),
    ;
}

/// Every spawn produces an independent resource generation.
pub struct Unique;

impl<I> Placement<I> for Unique {
    type Key = ();

    const CANONICAL: bool = false;

    open spec fn spec_key(input: I) -> () {
        ()
    }

    fn key(_input: &I) -> (key: ()) {
    }
}

/// One live resource generation per domain.
pub struct Singleton;

impl<I> Placement<I> for Singleton {
    type Key = ();

    const CANONICAL: bool = true;

    open spec fn spec_key(input: I) -> () {
        ()
    }

    fn key(_input: &I) -> (key: ()) {
    }
}

/// Derives a canonical resource key from its creation input.
pub trait Keyer<I>: Send + Sync + 'static {
    /// The immutable identity of a keyed resource.
    type Key: Clone + Eq + Hash + Send + Sync + 'static;

    /// The identity of a resource with this creation input.
    spec fn spec_key(input: I) -> Self::Key;

    /// Derives the identity of a resource from its creation input.
    fn key(input: &I) -> (key: Self::Key)
        ensures
            key == Self::spec_key(*input),
    ;
}

/// One live resource generation for each key produced by `K`.
pub struct Keyed<K>(PhantomData<K>);

impl<I, K> Placement<I> for Keyed<K> where K: Keyer<I> {
    type Key = K::Key;

    const CANONICAL: bool = true;

    open spec fn spec_key(input: I) -> K::Key {
        K::spec_key(input)
    }

    fn key(input: &I) -> (key: K::Key) {
        K::key(input)
    }
}

/// The canonical identity that creation input has under a placement, where the
/// placement gives it one.
pub fn identity<I, L: Placement<I>>(input: &I) -> (key: Option<L::Key>)
    ensures
        key == (if L::CANONICAL {
            Some(L::spec_key(*input))
        } else {
            None
        }),
{
    if L::CANONICAL {
        Some(L::key(input))
    } else {
        None
    }
}

/// The placements that give a resource a reusable identity.
pub trait CanonicalPlacement<I>: Placement<I> {
    /// They take part in discovery.
    proof fn is_canonical()
        ensures
            Self::CANONICAL,
    ;
}

impl<I> CanonicalPlacement<I> for Singleton {
    proof fn is_canonical() {
    }
}

impl<I, K> CanonicalPlacement<I> for Keyed<K> where K: Keyer<I> {
    proof fn is_canonical() {
    }
}

} // verus!
