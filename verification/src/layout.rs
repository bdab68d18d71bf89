//! The layout planner: what the container is made of, once its names are
//! resolved.

use crate::names::{ensure_names, field_names, open_slot_name, ResolvedNames};
use crate::schema::{
    declared_names, iteration_methods, key_types, method_names, mutable_variant, operation_names,
    texts, CapabilityIteration, ContainerSchema, FieldSpec, SchemaError, Visibility,
};
use crate::TypeToken;
use vstd::prelude::*;
use vstd::string::StringExecFns;

verus! {

/// One fixed slot of the container.
pub struct Slot<I> {
    /// The resolved field name.
    pub name: String,
    /// The declared type.
    pub key_type: TypeToken,
    /// What the slot holds in a new container.
    pub initializer: I,
    /// Annotations that are passed on unread.
    pub attrs: Vec<String>,
    /// The field's exposure.
    pub vis: Visibility,
}

/// The two iteration methods of one capability.
pub struct IterationPlan {
    /// The capability's identifier.
    pub capability: String,
    /// The name of the immutable iteration method.
    pub method: String,
    /// The name of the mutable iteration method.
    pub method_mut: String,
}

/// The open extension's part of the layout.
pub struct OpenSlot {
    /// The name of the slot that holds the mapping.
    pub name: String,
    /// The name of the dynamic cell type.
    pub cell_name: String,
}

/// The layout of a container: its fixed slots in declaration order, the open
/// extension's slot if there is one, and the iteration methods.
pub struct Layout<I> {
    /// The name of the container type.
    pub name: String,
    /// The container type's exposure.
    pub vis: Visibility,
    /// Annotations on the container type that are passed on unread.
    pub attrs: Vec<String>,
    /// The fixed slots, in declaration order.
    pub slots: Vec<Slot<I>>,
    /// The open extension's slot, if the container has an open extension.
    pub open_slot: Option<OpenSlot>,
    /// The iteration methods, in the order the capabilities were listed.
    pub iterations: Vec<IterationPlan>,
}

/// The name of the dynamic cell type of a container type.
pub open spec fn cell_type_name(container: Seq<char>) -> Seq<char> {
    container + "Cell"@
}

impl<I> Layout<I> {
    /// The name of each fixed slot, in declaration order.
    pub open spec fn slot_names(&self) -> Seq<Seq<char>> {
        Seq::new(self.slots.len() as nat, |i: int| self.slots[i].name@)
    }

    /// The type of each fixed slot, in declaration order.
    pub open spec fn slot_types(&self) -> Seq<TypeToken> {
        Seq::new(self.slots.len() as nat, |i: int| self.slots[i].key_type)
    }

    /// The initializer of each fixed slot, in declaration order.
    pub open spec fn initializers(&self) -> Seq<I> {
        Seq::new(self.slots.len() as nat, |i: int| self.slots[i].initializer)
    }

    /// Whether the container has an open extension.
    pub open spec fn is_dynamic(&self) -> bool {
        self.open_slot is Some
    }

    /// The names of all methods of the container: the operations that every
    /// container has, then for each capability its two iteration methods.
    pub open spec fn method_names(&self) -> Seq<Seq<char>> {
        operation_names() + Seq::new(
            (2 * self.iterations.len()) as nat,
            |k: int|
                if k % 2 == 0 {
                    self.iterations[k / 2].method@
                } else {
                    self.iterations[k / 2].method_mut@
                },
        )
    }

    /// No type has two slots, no two slots have the same name, the open
    /// extension's slot is named like no other, and no two methods have the
    /// same name.
    pub open spec fn wf(&self) -> bool {
        &&& self.slot_types().no_duplicates()
        &&& self.slot_names().no_duplicates()
        &&& self.open_slot matches Some(open) ==> !self.slot_names().contains(open.name@)
        &&& self.method_names().no_duplicates()
    }

    /// Whether this is the layout of `schema` under the given names: every
    /// field with its resolved name and its type, the open extension's slot
    /// exactly where the schema asks for an open extension, and a pair of
    /// methods for every capability.
    pub open spec fn realizes(
        &self,
        schema: ContainerSchema<I>,
        names: Seq<Seq<char>>,
        open_name: Seq<char>,
    ) -> bool {
        &&& self.name == schema.name
        &&& self.vis == schema.vis
        &&& self.attrs == schema.attrs
        &&& self.slots.len() == schema.fields.len()
        &&& forall|i: int|
            0 <= i < self.slots.len() ==> {
                &&& (#[trigger] self.slots[i]).name@ == names[i]
                &&& self.slots[i].key_type == schema.fields[i].key_type
                &&& self.slots[i].initializer == schema.fields[i].initializer
                &&& self.slots[i].attrs == schema.fields[i].attrs
                &&& self.slots[i].vis == schema.fields[i].vis
            }
        &&& self.open_slot is Some == schema.dynamic
        &&& self.open_slot matches Some(open) ==> open.name@ == open_name && open.cell_name@
            == cell_type_name(schema.name@)
        &&& self.iterations.len() == schema.iterable_traits.len()
        &&& forall|i: int|
            0 <= i < self.iterations.len() ==> {
                &&& (#[trigger] self.iterations[i]).capability@ == schema.iterable_traits[i].capability@
                &&& self.iterations[i].method@ == schema.iterable_traits[i].method@
                &&& self.iterations[i].method_mut@ == mutable_variant(
                    schema.iterable_traits[i].method@,
                )
            }
    }
}

/// Plans the iteration methods: for each capability the method of its base
/// name, and the mutable variant.
fn plan_iterations(iterable_traits: &Vec<CapabilityIteration>) -> (plans: Vec<IterationPlan>)
    ensures
        plans.len() == iterable_traits.len(),
        forall|i: int|
            0 <= i < plans.len() ==> {
                &&& (#[trigger] plans[i]).capability@ == iterable_traits[i].capability@
                &&& plans[i].method@ == iterable_traits[i].method@
                &&& plans[i].method_mut@ == mutable_variant(iterable_traits[i].method@)
            },
{
    let mut plans: Vec<IterationPlan> = Vec::new();
    let mut i: usize = 0;
    while i < iterable_traits.len()
        invariant
            i <= iterable_traits.len(),
            plans.len() == i,
            forall|k: int|
                0 <= k < i ==> {
                    &&& (#[trigger] plans[k]).capability@ == iterable_traits[k].capability@
                    &&& plans[k].method@ == iterable_traits[k].method@
                    &&& plans[k].method_mut@ == mutable_variant(iterable_traits[k].method@)
                },
        decreases iterable_traits.len() - i,
    {
        let capability = iterable_traits[i].capability.clone();
        let method = iterable_traits[i].method.clone();
        let mut method_mut = method.clone();
        method_mut.append("_mut");
        plans.push(IterationPlan { capability, method, method_mut });
        i = i + 1;
    }
    plans
}

/// Plans the layout of a schema under its resolved names.
pub fn plan<I>(schema: ContainerSchema<I>, names: ResolvedNames) -> (layout: Layout<I>)
    requires
        names.fields.len() == schema.fields.len(),
    ensures
        layout.realizes(schema, texts(names.fields@), names.open_slot@),
{
    let iterations = plan_iterations(&schema.iterable_traits);
    let ContainerSchema { name, vis, attrs, fields, dynamic, iterable_traits } = schema;
    let ResolvedNames { fields: field_names, open_slot: open_name } = names;
    let open_slot = if dynamic {
        let mut cell_name = name.clone();
        cell_name.append("Cell");
        Some(OpenSlot { name: open_name, cell_name })
    } else {
        None
    };
    let ghost declared = fields@;
    let mut slots: Vec<Slot<I>> = Vec::new();
    let mut i: usize = 0;
    for field in it: fields.into_iter()
        invariant
            it.seq() == declared,
            i == it.index(),
            slots.len() == i,
            field_names.len() == declared.len(),
            forall|k: int|
                0 <= k < i ==> {
                    &&& (#[trigger] slots[k]).name@ == field_names[k]@
                    &&& slots[k].key_type == declared[k].key_type
                    &&& slots[k].initializer == declared[k].initializer
                    &&& slots[k].attrs == declared[k].attrs
                    &&& slots[k].vis == declared[k].vis
                },
    {
        let FieldSpec { declared_name: _, key_type, initializer, attrs, vis } = field;
        slots.push(Slot { name: field_names[i].clone(), key_type, initializer, attrs, vis });
        i = i + 1;
    }
    Layout { name, vis, attrs, slots, open_slot, iterations }
}

/// Generates the layout of a schema: checks the schema, resolves its names and
/// plans the layout. A schema with a defect is refused with that defect; any
/// other has the layout that its resolved names give, and that layout is well
/// formed.
pub fn generate<I>(schema: ContainerSchema<I>) -> (r: Result<Layout<I>, SchemaError>)
    ensures
        match r {
            Ok(layout) => {
                &&& schema.defect() is None
                &&& layout.realizes(
                    schema,
                    field_names(declared_names(schema.fields@)),
                    open_slot_name(field_names(declared_names(schema.fields@))),
                )
                &&& layout.wf()
            },
            Err(e) => schema.defect() == Some(e),
        },
{
    match schema.check() {
        Err(e) => Err(e),
        Ok(()) => {
            let names = ensure_names(&schema);
            let layout = plan(schema, names);
            assert(layout.slot_types() =~= key_types(schema.fields@));
            assert(layout.slot_names() =~= texts(names.fields@));
            assert(layout.method_names() =~= method_names(schema.iterable_traits@)) by {
                assert(layout.method_names().len() == method_names(schema.iterable_traits@).len());
                assert forall|k: int| 0 <= k < 2 * layout.iterations.len() implies layout.method_names()[8
                    + k] == iteration_methods(schema.iterable_traits@)[k] by {
                    assert(layout.iterations[k / 2].method@ == schema.iterable_traits[k / 2].method@);
                }
                assert(operation_names().len() == 8);
            }
            Ok(layout)
        },
    }
}

} // verus!
