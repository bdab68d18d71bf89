//! The container itself: fixed slots, the open extension, and the operations on
//! them.

use crate::access::{InfallibleKey, IterableAs};
use crate::cell::DynamicCell;
use crate::dispatch::{dispatch, Dispatch};
use crate::layout::{generate, Layout, Slot};
use crate::model::{
    initial_state, keeps_types, referents, typed_by, Erased, InsertError, MapState,
};
use crate::schema::{initializers_of, key_types, ContainerSchema, SchemaError};
use crate::TypeToken;
use std::collections::hash_map::Entry;
use std::collections::HashMap;
use vstd::prelude::*;
use vstd::std_specs::iter::IteratorSpec;

verus! {

/// A typemap: one slot per declared type, held inline and in declaration
/// order, and, where the container is extensible, a map from type identity to
/// dynamic cell for every other type.
pub struct TypeMap<V> {
    tokens: Vec<TypeToken>,
    slots: Vec<V>,
    open: Option<HashMap<TypeToken, DynamicCell<V>>>,
}

impl<V: Erased> View for TypeMap<V> {
    type V = MapState<V>;

    closed spec fn view(&self) -> MapState<V> {
        MapState {
            fixed: self.tokens@,
            extensible: self.open is Some,
            entries: Map::new(
                |t: TypeToken| self.tokens@.contains(t) || self.cells().contains_key(t),
                |t: TypeToken|
                    if self.tokens@.contains(t) {
                        self.slots@[self.tokens@.index_of(t)]
                    } else {
                        self.cells()[t].content()
                    },
            ),
        }
    }
}

impl<V: Erased> TypeMap<V> {
    /// The cells of the open extension; none where there is no extension.
    closed spec fn cells(&self) -> Map<TypeToken, DynamicCell<V>> {
        match self.open {
            Some(m) => m@,
            None => Map::empty(),
        }
    }

    /// The container's invariant: one slot per declared type, no type declared
    /// twice, every slot holding a value of its type, and every cell of the
    /// open extension keyed by the type that it was built from, which is no
    /// declared type and is the type of the value that the cell holds.
    pub closed spec fn wf(&self) -> bool {
        &&& self.tokens@.len() == self.slots@.len()
        &&& self.tokens@.no_duplicates()
        &&& forall|i: int| 0 <= i < self.slots@.len() ==> (#[trigger] self.slots@[i]).type_of() == self.tokens@[i]
        &&& forall|t: TypeToken| #[trigger]
            self.cells().contains_key(t) ==> !self.tokens@.contains(t) && self.cells()[t].stored_type()
                == t && self.cells()[t].in_step()
    }

    /// A well-formed container has a well-formed model.
    pub proof fn lemma_model_wf(&self)
        requires
            self.wf(),
        ensures
            self@.wf(),
    {
        broadcast use vstd::std_specs::hash::group_hash_axioms;

        let dom = self@.entries.dom();
        assert(dom =~= self.tokens@.to_set().union(self.cells().dom()));
        vstd::seq_lib::seq_to_set_is_finite(self.tokens@);
        assert(self.cells().dom().finite()) by {
            match self.open {
                Some(m) => {
                    assert(m@.dom().finite());
                },
                None => {},
            }
        }
        assert forall|t: TypeToken| #[trigger] self@.entries.contains_key(t) implies self@.entries[t].type_of()
            == t by {
            if self.tokens@.contains(t) {
                let i = self.tokens@.index_of(t);
                assert(self.slots@[i].type_of() == self.tokens@[i]);
            } else {
                assert(self.cells().contains_key(t));
            }
        }
    }

    /// Builds the container that a layout describes: every fixed slot holds
    /// its initializer, and the open extension, if there is one, is empty.
    /// Every initializer has to be a value of the type of its slot.
    pub fn new(layout: Layout<V>) -> (map: Self)
        requires
            layout.wf(),
            typed_by(layout.initializers(), layout.slot_types()),
        ensures
            map.wf(),
            map@ == initial_state(layout.slot_types(), layout.initializers(), layout.is_dynamic()),
    {
        broadcast use vstd::std_specs::hash::group_hash_axioms;

        let Layout { name: _, vis: _, attrs: _, slots: planned, open_slot, iterations: _ } = layout;
        let ghost declared = planned@;
        let mut tokens: Vec<TypeToken> = Vec::new();
        let mut slots: Vec<V> = Vec::new();
        for slot in it: planned.into_iter()
            invariant
                it.seq() == declared,
                tokens.len() == it.index(),
                slots.len() == it.index(),
                forall|k: int| 0 <= k < it.index() ==> #[trigger] tokens[k] == declared[k].key_type,
                forall|k: int| 0 <= k < it.index() ==> #[trigger] slots[k] == declared[k].initializer,
        {
            let Slot { name: _, key_type, initializer, attrs: _, vis: _ } = slot;
            tokens.push(key_type);
            slots.push(initializer);
        }
        let open = if open_slot.is_some() {
            Some(HashMap::new())
        } else {
            None
        };
        let map = TypeMap { tokens, slots, open };
        proof {
            assert(map.tokens@ =~= layout.slot_types());
            assert(map.slots@ =~= layout.initializers());
            assert forall|i: int| 0 <= i < map.slots@.len() implies (#[trigger] map.slots@[i]).type_of()
                == map.tokens@[i] by {
                assert(layout.initializers()[i].type_of() == layout.slot_types()[i]);
            }
            assert(map@.entries =~= initial_state(
                layout.slot_types(),
                layout.initializers(),
                layout.is_dynamic(),
            ).entries);
        }
        map
    }

    /// What is wrong with a schema that a container is to be built from, if
    /// anything: what is wrong with any schema, and else a field whose
    /// initial value is not a value of the type that the field declares.
    pub open spec fn container_defect(schema: ContainerSchema<V>) -> Option<SchemaError> {
        if schema.defect() is Some {
            schema.defect()
        } else if !typed_by(initializers_of(schema.fields@), key_types(schema.fields@)) {
            Some(SchemaError::MistypedInitializer)
        } else {
            None
        }
    }

    /// Whether every initial value is a value of the type that its field
    /// declares.
    fn has_typed_initializers(schema: &ContainerSchema<V>) -> (b: bool)
        ensures
            b == typed_by(initializers_of(schema.fields@), key_types(schema.fields@)),
    {
        let mut i: usize = 0;
        while i < schema.fields.len()
            invariant
                i <= schema.fields.len(),
                forall|k: int|
                    0 <= k < i ==> (#[trigger] schema.fields[k]).initializer.type_of()
                        == schema.fields[k].key_type,
            decreases schema.fields.len() - i,
        {
            if schema.fields[i].initializer.type_token() != schema.fields[i].key_type {
                assert(initializers_of(schema.fields@)[i as int].type_of() != key_types(
                    schema.fields@,
                )[i as int]);
                return false;
            }
            i = i + 1;
        }
        assert forall|k: int| 0 <= k < initializers_of(schema.fields@).len() implies (
        #[trigger] initializers_of(schema.fields@)[k]).type_of() == key_types(schema.fields@)[k] by {
            assert(schema.fields[k].initializer.type_of() == schema.fields[k].key_type);
        }
        true
    }

    /// Generates the layout of a schema and builds its container, with the
    /// initializer of each field as the field's initial value. A schema with a
    /// defect is refused with that defect, and so is one with an initial value
    /// that is not of its field's type.
    pub fn build(schema: ContainerSchema<V>) -> (r: Result<Self, SchemaError>)
        ensures
            match r {
                Ok(map) => {
                    &&& Self::container_defect(schema) is None
                    &&& map.wf()
                    &&& map@ == initial_state(
                        key_types(schema.fields@),
                        initializers_of(schema.fields@),
                        schema.dynamic,
                    )
                },
                Err(e) => Self::container_defect(schema) == Some(e),
            },
    {
        let typed = Self::has_typed_initializers(&schema);
        match generate(schema) {
            Ok(layout) => {
                proof {
                    assert(layout.slot_types() =~= key_types(schema.fields@));
                    assert(layout.initializers() =~= initializers_of(schema.fields@));
                }
                if typed {
                    Ok(TypeMap::new(layout))
                } else {
                    Err(SchemaError::MistypedInitializer)
                }
            },
            Err(e) => Err(e),
        }
    }

    /// A declared type is never absent.
    pub proof fn lemma_fixed_present(&self, token: TypeToken)
        requires
            self.wf(),
            self@.has_fixed(token),
        ensures
            self@.get(token) is Some,
    {
    }

    /// Fallible access to the erased value: what is stored for `token`, if
    /// anything. There always is a value for a declared type.
    pub fn get_erased(&self, token: TypeToken) -> (r: Option<&V>)
        requires
            self.wf(),
        ensures
            r == match self@.get(token) {
                Some(v) => Some(&v),
                None => None,
            },
            self@.has_fixed(token) ==> r is Some,
    {
        broadcast use vstd::std_specs::hash::group_hash_axioms;

        match dispatch(&self.tokens, self.open.is_some(), token) {
            Dispatch::Fixed(i) => {
                proof {
                    self.tokens@.index_of_first_ensures(token);
                }
                Some(&self.slots[i])
            },
            Dispatch::Open => match &self.open {
                Some(m) => match m.get(&token) {
                    Some(cell) => cell.downcast_ref(token),
                    None => None,
                },
                None => None,
            },
            Dispatch::Absent => None,
        }
    }

    /// Fallible access to the erased value for writing: what is stored for
    /// `token`, if anything. What is written through the reference is what the
    /// container then stores for `token`; nothing else changes. The container
    /// stays well formed where a value of the same type is written, which is
    /// why this is for the typed access of this crate only.
    pub(crate) fn get_erased_mut(&mut self, token: TypeToken) -> (r: Option<&mut V>)
        requires
            old(self).wf(),
        ensures
            match r {
                Some(v) => {
                    &&& old(self)@.get(token) == Some(*v)
                    &&& final(self)@ == old(self)@.put(token, *final(v))
                    &&& (*final(v)).type_of() == token ==> final(self).wf()
                },
                None => old(self)@.get(token) is None && final(self)@ == old(self)@ && final(self).wf(),
            },
    {
        broadcast use vstd::std_specs::hash::group_hash_axioms;

        match dispatch(&self.tokens, self.open.is_some(), token) {
            Dispatch::Fixed(i) => {
                proof {
                    self.tokens@.index_of_first_ensures(token);
                }
                Some(&mut self.slots[i])
            },
            Dispatch::Open => match &mut self.open {
                Some(m) => match m.entry(token) {
                    Entry::Occupied(o) => Some(o.into_mut().value_mut()),
                    Entry::Vacant(_) => None,
                },
                None => None,
            },
            Dispatch::Absent => None,
        }
    }

    /// Stores an erased value for its own type. Where the type has a fixed
    /// slot, the slot's value is swapped out and handed back. Otherwise the
    /// value goes to the open extension, and what was stored there for the
    /// type is handed back; without an open extension the type is unknown and
    /// nothing changes.
    pub fn insert_erased(&mut self, value: V) -> (r: Result<Option<V>, InsertError>)
        requires
            old(self).wf(),
        ensures
            final(self).wf(),
            final(self)@ == old(self)@.insert(value).0,
            r == old(self)@.insert(value).1,
    {
        broadcast use vstd::std_specs::hash::group_hash_axioms;

        let token = value.type_token();
        match dispatch(&self.tokens, self.open.is_some(), token) {
            Dispatch::Fixed(i) => {
                proof {
                    self.tokens@.index_of_first_ensures(token);
                }
                let mut value = value;
                std::mem::swap(&mut value, &mut self.slots[i]);
                Ok(Some(value))
            },
            Dispatch::Open => match &mut self.open {
                Some(m) => match m.insert(token, DynamicCell::new(value)) {
                    Some(cell) => match cell.downcast(token) {
                        Ok(previous) => Ok(Some(previous)),
                        Err(_) => Ok(None),
                    },
                    None => Ok(None),
                },
                None => Err(InsertError::UnknownType),
            },
            Dispatch::Absent => Err(InsertError::UnknownType),
        }
    }

    /// Infallible access to the erased value, for a type that is known to have
    /// a fixed slot.
    pub fn get_infallible_erased(&self, token: TypeToken) -> (r: &V)
        requires
            self.wf(),
            self@.has_fixed(token),
        ensures
            self@.get(token) == Some(*r),
    {
        let i = self.slot_of(token);
        &self.slots[i]
    }

    /// Infallible access to the erased value for writing, for a type that is
    /// known to have a fixed slot; for the typed access of this crate only,
    /// as a value of the same type has to be written. What is written through the reference is what the container then
    /// stores for `token`; nothing else changes.
    pub(crate) fn get_infallible_erased_mut(&mut self, token: TypeToken) -> (r: &mut V)
        requires
            old(self).wf(),
            old(self)@.has_fixed(token),
        ensures
            old(self)@.get(token) == Some(*r),
            final(self)@ == old(self)@.put(token, *final(r)),
            (*final(r)).type_of() == token ==> final(self).wf(),
    {
        let i = self.slot_of(token);
        &mut self.slots[i]
    }

    /// The position of the slot of a type that has one.
    fn slot_of(&self, token: TypeToken) -> (i: usize)
        requires
            self.wf(),
            self.tokens@.contains(token),
        ensures
            i < self.tokens.len(),
            self.tokens[i as int] == token,
            i == self.tokens@.index_of(token),
    {
        let ghost at = self.tokens@.index_of(token);
        let mut i: usize = 0;
        while self.tokens[i] != token
            invariant
                0 <= i <= at < self.tokens.len(),
                self.tokens[at] == token,
            decreases at - i,
        {
            i = i + 1;
        }
        i
    }

    /// Iteration: one reference per stored value. The fixed slots come first,
    /// in declaration order; the values of the open extension follow in no
    /// particular order.
    pub fn iter(&self) -> (items: Vec<&V>)
        requires
            self.wf(),
        ensures
            self@.yields(referents(items@)),
            items.len() == self@.len(),
    {
        broadcast use vstd::std_specs::hash::group_hash_axioms;

        let mut items: Vec<&V> = Vec::new();
        let mut i: usize = 0;
        while i < self.slots.len()
            invariant
                i <= self.slots.len(),
                items.len() == i,
                forall|k: int| 0 <= k < i ==> *#[trigger] items[k] == self.slots[k],
            decreases self.slots.len() - i,
        {
            items.push(&self.slots[i]);
            i = i + 1;
        }
        let ghost mut order = self.tokens@;
        match &self.open {
            Some(m) => {
                let ghost pairs = m.iter().remaining();
                for pair in it: m.iter()
                    invariant
                        self.wf(),
                        self.open == Some(*m),
                        it.seq() == pairs,
                        pairs == m.iter().remaining(),
                        pairs.no_duplicates(),
                        order.len() == self.tokens.len() + it.index(),
                        items.len() == order.len(),
                        forall|k: int| 0 <= k < self.tokens.len() ==> order[k] == self.tokens[k],
                        forall|j: int|
                            self.tokens.len() <= j < order.len() ==> #[trigger] order[j] == *pairs[j
                                - self.tokens.len()].0,
                        forall|k: int| 0 <= k < self.slots.len() ==> *#[trigger] items[k] == self.slots[k],
                        forall|j: int|
                            self.slots.len() <= j < items.len() ==> *#[trigger] items[j] == pairs[j
                                - self.slots.len()].1.content(),
                {
                    let (token, cell) = pair;
                    items.push(cell.value());
                    proof {
                        order = order.push(*token);
                    }
                }
                proof {
                    self.lemma_iteration(order, pairs);
                }
            },
            None => {
                proof {
                    self.lemma_iteration(order, Seq::empty());
                }
            },
        }
        proof {
            assert(referents(items@) =~= self@.listing(order));
            order.unique_seq_to_set();
        }
        items
    }

    /// The declared types followed by the keys of the open extension, each
    /// key once, are an order of iteration.
    proof fn lemma_iteration(&self, order: Seq<TypeToken>, pairs: Seq<(&TypeToken, &DynamicCell<V>)>)
        requires
            self.wf(),
            match self.open {
                Some(m) => pairs == m.iter().remaining(),
                None => pairs.len() == 0,
            },
            pairs.no_duplicates(),
            order.len() == self.tokens.len() + pairs.len(),
            forall|k: int| 0 <= k < self.tokens.len() ==> order[k] == self.tokens[k],
            forall|j: int|
                self.tokens.len() <= j < order.len() ==> #[trigger] order[j] == *pairs[j
                    - self.tokens.len()].0,
        ensures
            self@.iterates_in(order),
            forall|k: int| 0 <= k < self.tokens.len() ==> self@.entries[#[trigger] order[k]] == self.slots[k],
            forall|j: int|
                self.tokens.len() <= j < order.len() ==> self@.entries[#[trigger] order[j]] == pairs[j
                    - self.tokens.len()].1.content(),
    {
        broadcast use vstd::std_specs::hash::group_hash_axioms;

        let n = self.tokens.len() as int;
        let cells = self.cells();
        assert forall|k: int| 0 <= k < pairs.len() implies cells.contains_key(*(#[trigger] pairs[k]).0)
            && cells[*pairs[k].0] == *pairs[k].1 by {
            match self.open {
                Some(m) => {
                    assert(m@.contains_key(*pairs[k].0));
                },
                None => {},
            }
        }
        assert forall|a: int, b: int| 0 <= a < order.len() && 0 <= b < order.len() && a != b implies order[a]
            != order[b] by {
            if a < n && b < n {
            } else if a < n {
                assert(order[b] == *pairs[b - n].0);
                assert(self.tokens@.contains(order[a]));
            } else if b < n {
                assert(order[a] == *pairs[a - n].0);
                assert(self.tokens@.contains(order[b]));
            } else {
                assert(order[a] == *pairs[a - n].0);
                assert(order[b] == *pairs[b - n].0);
                if order[a] == order[b] {
                    assert(pairs[a - n] == pairs[b - n]);
                }
            }
        }
        assert forall|t: TypeToken| order.to_set().contains(t) <==> self@.entries.dom().contains(t) by {
            if order.to_set().contains(t) {
                let k = choose|k: int| 0 <= k < order.len() && order[k] == t;
                if k < n {
                    assert(self.tokens@[k] == t);
                } else {
                    assert(order[k] == *pairs[k - n].0);
                }
            }
            if self@.entries.dom().contains(t) {
                if self.tokens@.contains(t) {
                    let k = self.tokens@.index_of(t);
                    assert(order[k] == t);
                } else {
                    match self.open {
                        Some(m) => {
                            assert(m@.contains_key(t));
                            assert(pairs.contains((&t, &m@[t])));
                            let k = choose|k: int| 0 <= k < pairs.len() && pairs[k] == (&t, &m@[t]);
                            assert(order[n + k] == t);
                        },
                        None => {},
                    }
                }
            }
        }
        assert(order.to_set() =~= self@.entries.dom());
        assert(self.tokens@ =~= order.subrange(0, n));
        assert forall|k: int| 0 <= k < n implies self@.entries[order[k]] == self.slots[k] by {
            assert(self.tokens@.contains(order[k]));
            assert(self.tokens@.index_of(order[k]) == k);
        }
        assert forall|j: int| n <= j < order.len() implies self@.entries[#[trigger] order[j]] == pairs[j
            - n].1.content() by {
            assert(cells.contains_key(*pairs[j - n].0));
        }
    }

    /// Mutable iteration: hands every stored value through `f`, each once,
    /// and stores what `f` gives back in its place. `f` has to give back a
    /// value of the type that it was given.
    pub fn modify_each<F: Fn(V) -> V>(&mut self, f: F)
        requires
            old(self).wf(),
            keeps_types(f),
            forall|t: TypeToken| #[trigger]
                old(self)@.entries.contains_key(t) ==> call_requires(f, (old(self)@.entries[t],)),
        ensures
            final(self).wf(),
            old(self)@.each_through(f, final(self)@),
    {
        broadcast use vstd::std_specs::hash::group_hash_axioms;

        let ghost tokens = self.tokens@;
        let ghost before = self.slots@;
        let ghost cells = self.cells();
        proof {
            assert forall|k: int| 0 <= k < before.len() implies call_requires(f, (#[trigger] before[k],)) by {
                assert(tokens.contains(tokens[k]));
                assert(tokens.index_of(tokens[k]) == k);
                assert(self@.entries.contains_key(tokens[k]));
            }
            assert forall|t: TypeToken| #[trigger] cells.contains_key(t) implies call_requires(
                f,
                (cells[t].content(),),
            ) by {
                assert(self@.entries.contains_key(t));
            }
        }
        let mut taken: Vec<V> = Vec::new();
        std::mem::swap(&mut self.slots, &mut taken);
        for value in it: taken.into_iter()
            invariant
                it.seq() == before,
                self.tokens@ == tokens,
                self.cells() == cells,
                self.open is Some == old(self).open is Some,
                self.slots.len() == it.index(),
                keeps_types(f),
                before.len() == tokens.len(),
                forall|k: int| 0 <= k < before.len() ==> (#[trigger] before[k]).type_of() == tokens[k],
                forall|k: int| 0 <= k < before.len() ==> call_requires(f, (#[trigger] before[k],)),
                forall|k: int|
                    0 <= k < it.index() ==> call_ensures(f, (before[k],), #[trigger] self.slots[k]),
                forall|k: int| 0 <= k < it.index() ==> (#[trigger] self.slots[k]).type_of() == tokens[k],
        {
            let changed = f(value);
            self.slots.push(changed);
        }
        match &mut self.open {
            Some(m) => {
                let keys = Self::keys_of(m);
                let mut j: usize = 0;
                while j < keys.len()
                    invariant
                        j <= keys.len(),
                        keys@.no_duplicates(),
                        keys@.to_set() == cells.dom(),
                        m@.dom() == cells.dom(),
                        keeps_types(f),
                        forall|t: TypeToken| #[trigger]
                            cells.contains_key(t) ==> call_requires(f, (cells[t].content(),)),
                        forall|t: TypeToken| #[trigger]
                            cells.contains_key(t) ==> cells[t].stored_type() == t && cells[t].in_step(),
                        forall|k: int|
                            0 <= k < j ==> m@[#[trigger] keys[k]].stored_type() == keys[k] && m@[keys[k]].in_step()
                                && call_ensures(f, (cells[keys[k]].content(),), m@[keys[k]].content()),
                        forall|k: int| j <= k < keys.len() ==> m@[#[trigger] keys[k]] == cells[keys[k]],
                    decreases keys.len() - j,
                {
                    let key = keys[j];
                    assert(keys@.to_set().contains(keys@[j as int]));
                    match m.remove(&key) {
                        Some(cell) => match cell.downcast(key) {
                            Ok(value) => {
                                let changed = f(value);
                                m.insert(key, DynamicCell::new(changed));
                            },
                            Err(_) => {},
                        },
                        None => {},
                    }
                    assert(m@.dom() =~= cells.dom());
                    j = j + 1;
                }
                proof {
                    assert forall|t: TypeToken| #[trigger] cells.contains_key(t) implies m@[t].stored_type()
                        == t && m@[t].in_step() && call_ensures(f, (cells[t].content(),), m@[t].content()) by {
                        assert(keys@.to_set().contains(t));
                        let k = choose|k: int| 0 <= k < keys.len() && keys[k] == t;
                        assert(m@[keys[k]].stored_type() == keys[k]);
                    }
                }
            },
            None => {},
        }
        proof {
            assert(final(self).cells().dom() == cells.dom());
            assert(final(self)@.entries.dom() =~= old(self)@.entries.dom());
            assert forall|t: TypeToken| #[trigger] old(self)@.entries.contains_key(t) implies call_ensures(
                f,
                (old(self)@.entries[t],),
                final(self)@.entries[t],
            ) by {
                if tokens.contains(t) {
                    let k = tokens.index_of(t);
                    assert(call_ensures(f, (before[k],), final(self).slots[k]));
                } else {
                    assert(cells.contains_key(t));
                }
            }
        }
    }

    /// The keys of the open extension, each once.
    fn keys_of(m: &HashMap<TypeToken, DynamicCell<V>>) -> (keys: Vec<TypeToken>)
        ensures
            keys@.no_duplicates(),
            keys@.to_set() == m@.dom(),
    {
        broadcast use vstd::std_specs::hash::group_hash_axioms;

        let mut keys: Vec<TypeToken> = Vec::new();
        let ghost all = m.keys().remaining();
        for key in it: m.keys()
            invariant
                it.seq() == all,
                all == m.keys().remaining(),
                keys.len() == it.index(),
                forall|k: int| 0 <= k < it.index() ==> #[trigger] keys[k] == *all[k],
        {
            keys.push(*key);
        }
        proof {
            let unref = all.unref();
            assert(unref.to_set() == m@.dom());
            assert(keys@ =~= unref);
            assert forall|a: int, b: int| 0 <= a < keys.len() && 0 <= b < keys.len() && a != b implies keys[a]
                != keys[b] by {
                assert(all[a] != all[b]);
            }
        }
        keys
    }
}

} // verus!

verus! {

/// A key that cannot miss: the type of a fixed slot together with the slot's
/// position in declaration order. A container hands one out for each of its
/// declared types, and fetching by it goes straight to the slot.
pub struct SlotKey {
    token: TypeToken,
    index: usize,
}

impl SlotKey {
    /// The type that the key stands for.
    pub closed spec fn token(&self) -> TypeToken {
        self.token
    }

    /// The position of the slot in declaration order.
    pub closed spec fn index(&self) -> usize {
        self.index
    }

    /// The type that the key stands for.
    pub fn type_token(&self) -> (t: TypeToken)
        ensures
            t == self.token(),
    {
        self.token
    }
}

impl<V: Erased> TypeMap<V> {
    /// The key of a declared type: `Some` exactly for the types that have a
    /// fixed slot, and then a key that this container admits.
    pub fn slot_key(&self, token: TypeToken) -> (r: Option<SlotKey>)
        requires
            self.wf(),
        ensures
            r is Some == self@.has_fixed(token),
            r matches Some(key) ==> key.token() == token && key.admitted(self),
    {
        match dispatch(&self.tokens, self.open.is_some(), token) {
            Dispatch::Fixed(index) => Some(SlotKey { token, index }),
            _ => None,
        }
    }

    /// A key is admitted by exactly the well-formed containers that declare
    /// the key's type at the key's position. No operation changes what a
    /// container declares, so a key that a container admits is admitted by
    /// the container for as long as the container is well formed.
    pub proof fn lemma_key_admitted(&self, key: &SlotKey)
        ensures
            key.admitted(self) == (self.wf() && key.index() < self@.fixed.len() && self@.fixed[key.index() as int]
                == key.token()),
    {
    }
}

impl<V: Erased> InfallibleKey<TypeMap<V>> for SlotKey {
    type Value = V;

    closed spec fn admitted(&self, map: &TypeMap<V>) -> bool {
        &&& map.wf()
        &&& self.index < map.tokens.len()
        &&& map.tokens[self.index as int] == self.token
    }

    open spec fn model(map: &TypeMap<V>) -> MapState<V> {
        map@
    }

    open spec fn key_type(&self) -> TypeToken {
        self.token()
    }

    proof fn lemma_admitted(&self, map: &TypeMap<V>) {
        assert(map.tokens@.contains(self.token));
        assert(map.tokens@.index_of(self.token) == self.index);
        assert(map.slots@[self.index as int].type_of() == self.token);
    }

    fn fetch<'a>(&self, map: &'a TypeMap<V>) -> (r: &'a V) {
        proof {
            assert(map.tokens@.contains(self.token));
            assert(map.tokens@.index_of(self.token) == self.index);
        }
        &map.slots[self.index]
    }

}

impl<V: Erased> IterableAs<TypeMap<V>> for V {
    open spec fn iterable(map: &TypeMap<V>) -> bool {
        map.wf()
    }

    open spec fn model(map: &TypeMap<V>) -> MapState<V> {
        map@
    }

    fn iter_as(map: &TypeMap<V>) -> (items: Vec<&V>) {
        map.iter()
    }

    fn modify_as<F: Fn(V) -> V>(map: &mut TypeMap<V>, f: F) {
        proof {
            assert forall|t: TypeToken| #[trigger] map@.entries.contains_key(t) implies call_requires(
                f,
                (map@.entries[t],),
            ) by {
                assert(<V as IterableAs<TypeMap<V>>>::model(map).entries.contains_key(t));
            }
        }
        map.modify_each(f)
    }
}

} // verus!
