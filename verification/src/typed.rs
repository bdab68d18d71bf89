//! Typed access: storing and fetching values by their own types, where the
//! container holds them with the type erased.

use crate::model::{Erased, InsertError, MapState};
use crate::typemap::TypeMap;
use crate::TypeToken;
use vstd::prelude::*;

verus! {

/// A type whose values can be stored in containers of `V`: it has an identity,
/// its values can be erased to `V`, and an erased value can be cast back down
/// to the type, which succeeds for the values of this type and no others.
pub trait Stored<V: Erased>: Sized {
    /// The identity of the type.
    spec fn token() -> TypeToken;

    /// The value with its type erased.
    spec fn erased(self) -> V;

    /// The value behind an erased one, if that is a value of this type.
    spec fn recovered(v: V) -> Option<Self>;

    /// What was erased is recovered.
    proof fn lemma_erasure(k: Self)
        ensures
            Self::recovered(k.erased()) == Some(k),
    ;

    /// What is recovered erases to what it was recovered from.
    proof fn lemma_recovery(v: V)
        requires
            Self::recovered(v) is Some,
        ensures
            Self::recovered(v).unwrap().erased() == v,
    ;

    /// The erased values of this type are those that carry its identity.
    proof fn lemma_typed(v: V)
        ensures
            Self::recovered(v) is Some <==> v.type_of() == Self::token(),
    ;

    /// The identity of the type.
    fn type_token() -> (t: TypeToken)
        ensures
            t == Self::token(),
    ;

    /// Erases the type of a value.
    fn erase(self) -> (v: V)
        ensures
            v == self.erased(),
    ;

    /// Checked downcast of a reference.
    fn downcast_ref(v: &V) -> (r: Option<&Self>)
        ensures
            r == match Self::recovered(*v) {
                Some(k) => Some(&k),
                None => None,
            },
    ;

    /// Checked downcast of a reference for writing. What is written through
    /// the result is, erased, what the erased value then is; it is a value of
    /// the same type as before.
    fn downcast_mut(v: &mut V) -> (r: Option<&mut Self>)
        ensures
            (*final(v)).type_of() == (*old(v)).type_of(),
            match r {
                Some(k) => Self::recovered(*old(v)) == Some(*k) && *final(v) == (*final(k)).erased(),
                None => Self::recovered(*old(v)) is None && *final(v) == *old(v),
            },
    ;

    /// Checked downcast by value: the value of this type, or the erased value
    /// back.
    fn downcast(v: V) -> (r: Result<Self, V>)
        ensures
            r == match Self::recovered(v) {
                Some(k) => Ok::<Self, V>(k),
                None => Err::<Self, V>(v),
            },
    ;
}

impl<V: Erased> MapState<V> {
    /// The value of type `K` that is stored, if there is one.
    pub open spec fn get_as<K: Stored<V>>(self) -> Option<K> {
        match self.get(K::token()) {
            Some(v) => K::recovered(v),
            None => None,
        }
    }

    /// Insertion of a value of type `K`: as the insertion of the erased
    /// value, with what was stored before cast down to `K`.
    pub open spec fn insert_as<K: Stored<V>>(self, value: K) -> (Self, Result<Option<K>, InsertError>) {
        (
            self.insert(value.erased()).0,
            match self.insert(value.erased()).1 {
                Ok(Some(previous)) => Ok(K::recovered(previous)),
                Ok(None) => Ok(None),
                Err(e) => Err(e),
            },
        )
    }
}

impl<V: Erased> TypeMap<V> {
    /// Fallible access by type: the stored value of type `K`, if any. There
    /// is one exactly where something is stored for the identity of `K`.
    pub fn get<K: Stored<V>>(&self) -> (r: Option<&K>)
        requires
            self.wf(),
        ensures
            r == match self@.get_as::<K>() {
                Some(k) => Some(&k),
                None => None,
            },
            r is Some == self@.get(K::token()) is Some,
            self@.has_fixed(K::token()) ==> r is Some,
    {
        proof {
            self.lemma_model_wf();
            K::lemma_typed(self@.entries[K::token()]);
        }
        match self.get_erased(K::type_token()) {
            Some(v) => K::downcast_ref(v),
            None => None,
        }
    }

    /// Fallible access by type for writing. What is written through the
    /// reference is, erased, what the container then stores for `K`; nothing
    /// else changes.
    pub fn get_mut<K: Stored<V>>(&mut self) -> (r: Option<&mut K>)
        requires
            old(self).wf(),
        ensures
            final(self).wf(),
            r is Some == old(self)@.get(K::token()) is Some,
            match r {
                Some(k) => old(self)@.get_as::<K>() == Some(*k) && final(self)@ == old(self)@.put(
                    K::token(),
                    (*final(k)).erased(),
                ),
                None => final(self)@ == old(self)@,
            },
    {
        proof {
            self.lemma_model_wf();
            K::lemma_typed(self@.entries[K::token()]);
        }
        match self.get_erased_mut(K::type_token()) {
            Some(v) => K::downcast_mut(v),
            None => None,
        }
    }

    /// Infallible access by type, for a type that is known to have a fixed
    /// slot.
    pub fn get_infallible<K: Stored<V>>(&self) -> (r: &K)
        requires
            self.wf(),
            self@.has_fixed(K::token()),
        ensures
            self@.get_as::<K>() == Some(*r),
    {
        proof {
            self.lemma_model_wf();
            K::lemma_typed(self@.entries[K::token()]);
        }
        match K::downcast_ref(self.get_infallible_erased(K::type_token())) {
            Some(k) => k,
            None => vstd::pervasive::unreached(),
        }
    }

    /// Infallible access by type for writing, for a type that is known to
    /// have a fixed slot. What is written through the reference is, erased,
    /// what the container then stores for `K`; nothing else changes.
    pub fn get_infallible_mut<K: Stored<V>>(&mut self) -> (r: &mut K)
        requires
            old(self).wf(),
            old(self)@.has_fixed(K::token()),
        ensures
            final(self).wf(),
            old(self)@.get_as::<K>() == Some(*r),
            final(self)@ == old(self)@.put(K::token(), (*final(r)).erased()),
    {
        proof {
            self.lemma_model_wf();
            K::lemma_typed(self@.entries[K::token()]);
        }
        match K::downcast_mut(self.get_infallible_erased_mut(K::type_token())) {
            Some(k) => k,
            None => vstd::pervasive::unreached(),
        }
    }

    /// Stores a value under its own type, and hands back the value of that
    /// type that was stored before: what was stored for the type, whenever
    /// something was.
    pub fn insert<K: Stored<V>>(&mut self, value: K) -> (r: Result<Option<K>, InsertError>)
        requires
            old(self).wf(),
        ensures
            final(self).wf(),
            final(self)@ == old(self)@.insert_as(value).0,
            r == old(self)@.insert_as(value).1,
            r == if old(self)@.accepts(K::token()) {
                Ok::<Option<K>, InsertError>(old(self)@.get_as::<K>())
            } else {
                Err::<Option<K>, InsertError>(InsertError::UnknownType)
            },
    {
        proof {
            self.lemma_model_wf();
            K::lemma_erasure(value);
            K::lemma_typed(value.erased());
            K::lemma_typed(self@.entries[K::token()]);
        }
        match self.insert_erased(value.erase()) {
            Ok(Some(previous)) => match K::downcast(previous) {
                Ok(k) => Ok(Some(k)),
                Err(_) => vstd::pervasive::unreached(),
            },
            Ok(None) => Ok(None),
            Err(e) => Err(e),
        }
    }
}

/// A type with a fixed slot is never absent for typed access, and neither is
/// any type for which something is stored: the cast down cannot fail.
pub proof fn lemma_typed_present<V: Erased, K: Stored<V>>(state: MapState<V>)
    requires
        state.wf(),
    ensures
        state.has_fixed(K::token()) ==> state.get_as::<K>() is Some,
        state.get(K::token()) is Some <==> state.get_as::<K>() is Some,
{
    K::lemma_typed(state.entries[K::token()]);
}

/// Typed round trip: a value inserted under its own type, where the container
/// takes that type, is the value of that type that the container then holds,
/// and the insertion hands back the value of that type that was stored
/// before, which for a type with a fixed slot there always is.
pub proof fn lemma_typed_round_trip<V: Erased, K: Stored<V>>(state: MapState<V>, value: K)
    requires
        state.wf(),
        state.accepts(K::token()),
    ensures
        state.insert_as(value).0.get_as::<K>() == Some(value),
        state.insert_as(value).1 == Ok::<Option<K>, InsertError>(state.get_as::<K>()),
        state.has_fixed(K::token()) ==> state.get_as::<K>() is Some,
{
    K::lemma_erasure(value);
    K::lemma_typed(value.erased());
    K::lemma_typed(state.entries[K::token()]);
}

/// Without an open extension, inserting a value of a type that has no fixed
/// slot fails with `UnknownType` and leaves the container as it was.
pub proof fn lemma_typed_unknown<V: Erased, K: Stored<V>>(state: MapState<V>, value: K)
    requires
        !state.accepts(K::token()),
    ensures
        state.insert_as(value).1 == Err::<Option<K>, InsertError>(InsertError::UnknownType),
        state.insert_as(value).0 == state,
{
    K::lemma_erasure(value);
    K::lemma_typed(value.erased());
}

/// Typed insertion changes nothing for the types of another identity.
pub proof fn lemma_typed_frame<V: Erased, K: Stored<V>, J: Stored<V>>(state: MapState<V>, value: K)
    requires
        J::token() != K::token(),
    ensures
        state.insert_as(value).0.get_as::<J>() == state.get_as::<J>(),
{
    K::lemma_erasure(value);
    K::lemma_typed(value.erased());
}

} // verus!
