//! The mathematical model of a container, and what holds of it.

use crate::TypeToken;
use vstd::prelude::*;

verus! {

/// Why an insertion was refused.
#[derive(Clone, Copy, Debug, PartialEq, Eq, Structural)]
pub enum InsertError {
    /// The container has no open extension and the type has no fixed slot.
    UnknownType,
}

/// A value whose type is erased but not forgotten: it carries the identity of
/// the type that it is a value of.
pub trait Erased {
    /// The identity of the type that this is a value of.
    spec fn type_of(&self) -> TypeToken;

    /// Reads the identity of the type that this is a value of.
    fn type_token(&self) -> (t: TypeToken)
        ensures
            t == self.type_of(),
    ;
}

/// A container as a mathematical value: the declared types in declaration
/// order, whether there is an open extension, and the value stored for each
/// type that is present.
#[verifier::ext_equal]
pub struct MapState<V> {
    /// The types of the fixed slots, in declaration order.
    pub fixed: Seq<TypeToken>,
    /// Whether the container has an open extension.
    pub extensible: bool,
    /// The stored value of each type that is present.
    pub entries: Map<TypeToken, V>,
}

/// Whether `f` gives back a value of the type that it was given.
pub open spec fn keeps_types<V: Erased, F: Fn(V) -> V>(f: F) -> bool {
    forall|v: V, w: V| #[trigger] call_ensures(f, (v,), w) ==> w.type_of() == v.type_of()
}

impl<V: Erased> MapState<V> {
    /// No type is declared twice, every declared type is present, only
    /// finitely many types are present, without an open extension no other
    /// type is, and key and stored type are in step: what is stored for a type
    /// is a value of that type.
    pub open spec fn wf(self) -> bool {
        &&& self.fixed.no_duplicates()
        &&& self.entries.dom().finite()
        &&& forall|t: TypeToken| self.fixed.contains(t) ==> #[trigger] self.entries.contains_key(t)
        &&& !self.extensible ==> forall|t: TypeToken| #[trigger]
            self.entries.contains_key(t) ==> self.fixed.contains(t)
        &&& forall|t: TypeToken| #[trigger] self.entries.contains_key(t) ==> self.entries[t].type_of() == t
    }

    /// Whether `t` has a fixed slot.
    pub open spec fn has_fixed(self, t: TypeToken) -> bool {
        self.fixed.contains(t)
    }

    /// Whether a value of type `t` can be stored.
    pub open spec fn accepts(self, t: TypeToken) -> bool {
        self.fixed.contains(t) || self.extensible
    }

    /// The value stored for `t`, if `t` is present.
    pub open spec fn get(self, t: TypeToken) -> Option<V> {
        if self.entries.contains_key(t) {
            Some(self.entries[t])
        } else {
            None
        }
    }

    /// The container with `v` stored for `t`.
    pub open spec fn put(self, t: TypeToken, v: V) -> Self {
        MapState { fixed: self.fixed, extensible: self.extensible, entries: self.entries.insert(t, v) }
    }

    /// Insertion: where the type of `v` can be stored, `v` takes the place of
    /// what was stored for its type, which is handed back; otherwise nothing
    /// changes and the type is reported as unknown.
    pub open spec fn insert(self, v: V) -> (Self, Result<Option<V>, InsertError>) {
        if self.accepts(v.type_of()) {
            (self.put(v.type_of(), v), Ok(self.get(v.type_of())))
        } else {
            (self, Err(InsertError::UnknownType))
        }
    }

    /// The number of stored values.
    pub open spec fn len(self) -> nat {
        self.entries.dom().len()
    }

    /// The types held by the open extension.
    pub open spec fn open_types(self) -> Set<TypeToken> {
        self.entries.dom().difference(self.fixed.to_set())
    }

    /// Whether `order` is an order of iteration: every present type once, the
    /// declared types first and in declaration order.
    pub open spec fn iterates_in(self, order: Seq<TypeToken>) -> bool {
        &&& order.no_duplicates()
        &&& order.to_set() == self.entries.dom()
        &&& self.fixed.is_prefix_of(order)
    }

    /// The stored values in the given order of types.
    pub open spec fn listing(self, order: Seq<TypeToken>) -> Seq<V> {
        Seq::new(order.len(), |i: int| self.entries[order[i]])
    }

    /// Whether `after` is this container with every stored value handed
    /// through `f` once: the same types are declared and present, and what
    /// is stored for each is what `f` made of what was stored for it.
    pub open spec fn each_through<F: Fn(V) -> V>(self, f: F, after: MapState<V>) -> bool {
        &&& after.fixed == self.fixed
        &&& after.extensible == self.extensible
        &&& after.entries.dom() == self.entries.dom()
        &&& forall|t: TypeToken| #[trigger]
            self.entries.contains_key(t) ==> call_ensures(f, (self.entries[t],), after.entries[t])
    }

    /// Whether `items` is what an iteration yields: the stored values, each
    /// once, the values of the declared types first and in declaration order,
    /// the others in any order.
    pub open spec fn yields(self, items: Seq<V>) -> bool {
        exists|order: Seq<TypeToken>| self.iterates_in(order) && items == self.listing(order)
    }
}

/// The container that holds, for each declared type, the initial value given
/// for it, and nothing else.
pub open spec fn initial_state<V>(types: Seq<TypeToken>, values: Seq<V>, extensible: bool) -> MapState<V> {
    MapState {
        fixed: types,
        extensible,
        entries: Map::new(|t: TypeToken| types.contains(t), |t: TypeToken| values[types.index_of(t)]),
    }
}

/// Whether each value is a value of the type at its position.
pub open spec fn typed_by<V: Erased>(values: Seq<V>, types: Seq<TypeToken>) -> bool {
    forall|i: int| 0 <= i < values.len() ==> (#[trigger] values[i]).type_of() == types[i]
}

/// What the references point to.
pub open spec fn referents<V>(items: Seq<&V>) -> Seq<V> {
    Seq::new(items.len(), |i: int| *items[i])
}

/// A declared type is always present, and what is stored for it is a value of
/// that type.
pub proof fn lemma_fixed_present<V: Erased>(state: MapState<V>, t: TypeToken)
    requires
        state.wf(),
        state.has_fixed(t),
    ensures
        state.get(t) is Some,
        state.get(t).unwrap().type_of() == t,
{
}

/// Insertion keeps a container well formed and leaves its declared types as
/// they are, whether or not the value is accepted.
pub proof fn lemma_insert_keeps_shape<V: Erased>(state: MapState<V>, v: V)
    requires
        state.wf(),
    ensures
        state.insert(v).0.wf(),
        state.insert(v).0.fixed == state.fixed,
        state.insert(v).0.extensible == state.extensible,
{
    let t = v.type_of();
    if state.accepts(t) {
        lemma_put_keeps_wf(state, t, v);
    }
}

/// Storing a value of a type for that type, where the type can be stored,
/// keeps a container well formed.
proof fn lemma_put_keeps_wf<V: Erased>(state: MapState<V>, t: TypeToken, v: V)
    requires
        state.wf(),
        state.accepts(t),
        v.type_of() == t,
    ensures
        state.put(t, v).wf(),
{
    let after = state.put(t, v);
    assert forall|u: TypeToken| state.fixed.contains(u) implies #[trigger] after.entries.contains_key(u) by {
        assert(state.entries.contains_key(u));
    }
    if !state.extensible {
        assert forall|u: TypeToken| #[trigger] after.entries.contains_key(u) implies state.fixed.contains(
            u,
        ) by {
            if u != t {
                assert(state.entries.contains_key(u));
            }
        }
    }
    assert forall|u: TypeToken| #[trigger] after.entries.contains_key(u) implies after.entries[u].type_of()
        == u by {
        if u != t {
            assert(state.entries.contains_key(u));
        }
    }
}

/// Writing a value of the same type where a value is stored keeps a container
/// well formed and leaves its declared and its present types as they are.
pub proof fn lemma_put_keeps_shape<V: Erased>(state: MapState<V>, t: TypeToken, v: V)
    requires
        state.wf(),
        state.get(t) is Some,
        v.type_of() == t,
    ensures
        state.put(t, v).wf(),
        state.put(t, v).fixed == state.fixed,
        state.put(t, v).entries.dom() == state.entries.dom(),
{
    let after = state.put(t, v);
    assert(after.entries.dom() =~= state.entries.dom());
    assert forall|u: TypeToken| state.fixed.contains(u) implies #[trigger] after.entries.contains_key(u) by {
        assert(state.entries.contains_key(u));
    }
    if !state.extensible {
        assert forall|u: TypeToken| #[trigger] after.entries.contains_key(u) implies state.fixed.contains(
            u,
        ) by {
            assert(state.entries.contains_key(u));
        }
    }
    assert forall|u: TypeToken| #[trigger] after.entries.contains_key(u) implies after.entries[u].type_of()
        == u by {
        if u != t {
            assert(state.entries.contains_key(u));
        }
    }
}

/// Handing every stored value through a function that keeps the types keeps a
/// container well formed.
pub proof fn lemma_each_through_keeps_shape<V: Erased, F: Fn(V) -> V>(
    state: MapState<V>,
    f: F,
    after: MapState<V>,
)
    requires
        state.wf(),
        keeps_types(f),
        state.each_through(f, after),
    ensures
        after.wf(),
{
    assert forall|u: TypeToken| after.fixed.contains(u) implies #[trigger] after.entries.contains_key(u) by {
        assert(state.entries.contains_key(u));
    }
    if !after.extensible {
        assert forall|u: TypeToken| #[trigger] after.entries.contains_key(u) implies after.fixed.contains(
            u,
        ) by {
            assert(state.entries.contains_key(u));
        }
    }
    assert forall|u: TypeToken| #[trigger] after.entries.contains_key(u) implies after.entries[u].type_of()
        == u by {
        assert(state.entries.contains_key(u));
        assert(call_ensures(f, (state.entries[u],), after.entries[u]));
    }
}

/// Round trip: a value of a declared type is accepted, it is what the
/// container then stores for the type, and the insertion hands back what was
/// stored for the type just before, which there always is.
pub proof fn lemma_round_trip<V: Erased>(state: MapState<V>, v: V)
    requires
        state.wf(),
        state.has_fixed(v.type_of()),
    ensures
        state.insert(v).1 == Ok::<Option<V>, InsertError>(Some(state.entries[v.type_of()])),
        state.get(v.type_of()) == Some(state.entries[v.type_of()]),
        state.insert(v).0.get(v.type_of()) == Some(v),
{
}

/// Without an open extension, inserting a value of a type that is not
/// declared fails with `UnknownType` and leaves the container as it was.
pub proof fn lemma_unknown_type_rejected<V: Erased>(state: MapState<V>, v: V)
    requires
        !state.extensible,
        !state.has_fixed(v.type_of()),
    ensures
        state.insert(v).1 == Err::<Option<V>, InsertError>(InsertError::UnknownType),
        state.insert(v).0 == state,
{
}

/// With an open extension, inserting a value of a type that is absent hands
/// back no previous value; inserting another value of that type then hands
/// back the first, and the second is what the container stores for the type.
pub proof fn lemma_open_upsert<V: Erased>(state: MapState<V>, first: V, second: V)
    requires
        state.extensible,
        first.type_of() == second.type_of(),
        state.get(first.type_of()) is None,
    ensures
        state.insert(first).1 == Ok::<Option<V>, InsertError>(None),
        state.insert(first).0.insert(second).1 == Ok::<Option<V>, InsertError>(Some(first)),
        state.insert(first).0.insert(second).0.get(first.type_of()) == Some(second),
{
}

/// Values of two different types can be inserted in either order: the
/// container is the same afterwards.
pub proof fn lemma_insert_order<V: Erased>(state: MapState<V>, x: V, y: V)
    requires
        x.type_of() != y.type_of(),
    ensures
        state.insert(x).0.insert(y).0 == state.insert(y).0.insert(x).0,
{
    let left = state.insert(x).0.insert(y).0;
    let right = state.insert(y).0.insert(x).0;
    assert(left.entries =~= right.entries);
}

/// Iteration is complete: it yields as many values as are stored, one for
/// each declared type and one for each type of the open extension; the values
/// of the declared types come first, in declaration order; and every stored
/// value is yielded at exactly one position.
pub proof fn lemma_iteration_complete<V: Erased>(state: MapState<V>, items: Seq<V>)
    requires
        state.wf(),
        state.yields(items),
    ensures
        items.len() == state.len(),
        items.len() == state.fixed.len() + state.open_types().len(),
        forall|i: int| 0 <= i < state.fixed.len() ==> items[i] == state.entries[#[trigger] state.fixed[i]],
        exists|order: Seq<TypeToken>|
            {
                &&& order.len() == items.len()
                &&& forall|i: int| 0 <= i < order.len() ==> items[i] == state.entries[#[trigger] order[i]]
                &&& forall|t: TypeToken|
                    state.entries.contains_key(t) ==> exists|i: int|
                        0 <= i < order.len() && #[trigger] order[i] == t
                &&& forall|i: int, j: int|
                    0 <= i < order.len() && 0 <= j < order.len() && order[i] == order[j] ==> i == j
            },
{
    let order = choose|order: Seq<TypeToken>| state.iterates_in(order) && items == state.listing(order);
    order.unique_seq_to_set();
    state.fixed.unique_seq_to_set();
    let declared = state.fixed.to_set();
    assert(declared.subset_of(state.entries.dom()));
    vstd::set_lib::lemma_len_difference(state.entries.dom(), declared);
    assert(state.entries.dom().difference(declared).len() == state.entries.dom().len() - declared.len()) by {
        assert(state.entries.dom().intersect(declared) =~= declared);
        vstd::set_lib::lemma_set_intersect_union_lens(state.entries.dom().difference(declared), declared);
        assert(state.entries.dom().difference(declared).union(declared) =~= state.entries.dom());
        assert(state.entries.dom().difference(declared).intersect(declared) =~= Set::empty());
    }
    assert forall|t: TypeToken| state.entries.contains_key(t) implies exists|i: int|
        0 <= i < order.len() && #[trigger] order[i] == t by {
        assert(order.to_set().contains(t));
    }
    assert forall|i: int| 0 <= i < state.fixed.len() implies items[i] == state.entries[#[trigger] state.fixed[i]] by {
        assert(order[i] == state.fixed[i]);
    }
}

/// Mutation through iteration is visible: once every stored value was handed
/// through a function, an iteration yields what the function made of each
/// value that was stored, each exactly once and in an order in which the
/// container could have been iterated before.
pub proof fn lemma_modification_visible<V: Erased, F: Fn(V) -> V>(
    state: MapState<V>,
    f: F,
    after: MapState<V>,
    items: Seq<V>,
)
    requires
        state.wf(),
        state.each_through(f, after),
        after.yields(items),
    ensures
        exists|order: Seq<TypeToken>|
            {
                &&& state.iterates_in(order)
                &&& items.len() == order.len()
                &&& forall|i: int|
                    0 <= i < order.len() ==> call_ensures(f, (state.entries[#[trigger] order[i]],), items[i])
            },
{
    let order = choose|order: Seq<TypeToken>| after.iterates_in(order) && items == after.listing(order);
    assert(state.iterates_in(order));
    assert forall|i: int| 0 <= i < order.len() implies call_ensures(
        f,
        (state.entries[#[trigger] order[i]],),
        items[i],
    ) by {
        assert(order.to_set().contains(order[i]));
        assert(state.entries.contains_key(order[i]));
    }
}

} // verus!
