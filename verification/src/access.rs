//! Access to a container in generic code: keys that cannot miss, and iteration
//! without knowing which container it is.

use crate::model::{keeps_types, referents, Erased, MapState};
use crate::TypeToken;
use vstd::prelude::*;

verus! {

/// The ability of a key to key a typemap infallibly: the key is known to stand
/// for a fixed slot of the map, so what it fetches needs no `Option`.
pub trait InfallibleKey<M> {
    /// What the map stores under a key.
    type Value: Erased;

    /// Whether the key stands for a fixed slot of `map`.
    spec fn admitted(&self, map: &M) -> bool;

    /// The model of the map.
    spec fn model(map: &M) -> MapState<Self::Value>;

    /// The type that the key stands for.
    spec fn key_type(&self) -> TypeToken;

    /// Whoever holds an admitted key holds the proof that its type has a
    /// fixed slot, which holds a value of that type.
    proof fn lemma_admitted(&self, map: &M)
        requires
            self.admitted(map),
        ensures
            Self::model(map).has_fixed(self.key_type()),
            Self::model(map).get(self.key_type()) is Some,
            Self::model(map).get(self.key_type()).unwrap().type_of() == self.key_type(),
    ;

    /// The value in the key's slot.
    fn fetch<'a>(&self, map: &'a M) -> (r: &'a Self::Value)
        requires
            self.admitted(map),
        ensures
            Self::model(map).get(self.key_type()) == Some(*r),
    ;
}

/// The ability to iterate over a typemap as values of one type, in generic
/// code that does not know what the map contains.
pub trait IterableAs<M>: Erased + Sized {
    /// Whether the map is fit to be iterated.
    spec fn iterable(map: &M) -> bool;

    /// The model of the map.
    spec fn model(map: &M) -> MapState<Self>;

    /// One reference per stored value, the fixed slots first.
    fn iter_as(map: &M) -> (items: Vec<&Self>)
        requires
            Self::iterable(map),
        ensures
            Self::model(map).yields(referents(items@)),
            items.len() == Self::model(map).len(),
    ;

    /// Hands every stored value through `f`, each once, and stores what `f`
    /// gives back in its place. `f` has to give back a value of the type that
    /// it was given.
    fn modify_as<F: Fn(Self) -> Self>(map: &mut M, f: F)
        requires
            Self::iterable(old(map)),
            keeps_types(f),
            forall|t: TypeToken| #[trigger]
                Self::model(old(map)).entries.contains_key(t) ==> call_requires(
                    f,
                    (Self::model(old(map)).entries[t],),
                ),
        ensures
            Self::iterable(final(map)),
            Self::model(old(map)).each_through(f, Self::model(final(map))),
    ;
}

} // verus!
