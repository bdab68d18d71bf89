//! Writing out the container type that a layout describes, as source text.

use crate::layout::{generate, IterationPlan, Layout, Slot};
use crate::names::{decimal, decimal_text, field_names, open_slot_name};
use crate::schema::{
    all_distinct, declared_names, key_types, texts, unnamed_with_visibility, ContainerSchema,
    FieldSpec, SchemaError, Visibility,
};
use vstd::prelude::*;
use vstd::string::StringExecFns;

verus! {

/// What a field brings along where source text is written: how its type and
/// its initializer are written.
pub struct Written {
    /// The field's type, as written.
    pub key_type: String,
    /// The expression that gives the field's initial value, as written.
    pub initializer: String,
}

/// The texts, one after the other, with the separator between each two.
pub open spec fn joined(parts: Seq<Seq<char>>, separator: Seq<char>) -> Seq<char>
    decreases parts.len(),
{
    if parts.len() == 0 {
        Seq::empty()
    } else if parts.len() == 1 {
        parts[0]
    } else {
        joined(parts.drop_last(), separator) + separator + parts.last()
    }
}

/// Joins the texts with the separator between each two.
pub fn join(parts: &Vec<String>, separator: &str) -> (text: String)
    ensures
        text@ == joined(texts(parts@), separator@),
{
    let mut text = String::new();
    let mut i: usize = 0;
    while i < parts.len()
        invariant
            i <= parts.len(),
            text@ == joined(texts(parts@).take(i as int), separator@),
        decreases parts.len() - i,
    {
        let ghost before = texts(parts@).take(i as int);
        let ghost after = texts(parts@).take(i + 1);
        proof {
            assert(after.drop_last() =~= before);
            assert(after.last() == parts[i as int]@);
        }
        if i > 0 {
            text.append(separator);
        } else {
            assert(text@ + parts[i as int]@ =~= parts[i as int]@);
        }
        text.append(parts[i].as_str());
        i = i + 1;
    }
    proof {
        assert(texts(parts@).take(parts.len() as int) =~= texts(parts@));
    }
    text
}

/// How a visibility is written, with the space that parts it from what
/// follows.
pub open spec fn visibility_text(vis: Visibility) -> Seq<char> {
    match vis {
        Visibility::Inherited => Seq::empty(),
        Visibility::Public => "pub "@,
        Visibility::Crate => "pub(crate) "@,
        Visibility::Restricted(path) => "pub(in "@ + path@ + ") "@,
    }
}

/// Writes a visibility.
pub fn write_visibility(vis: &Visibility) -> (text: String)
    ensures
        text@ == visibility_text(*vis),
{
    match vis {
        Visibility::Inherited => String::new(),
        Visibility::Public => String::from_str("pub "),
        Visibility::Crate => String::from_str("pub(crate) "),
        Visibility::Restricted(path) => {
            let mut text = String::from_str("pub(in ");
            text.append(path.as_str());
            text.append(") ");
            text
        },
    }
}

/// The annotations, each followed by a space.
pub open spec fn attrs_text(attrs: Seq<String>) -> Seq<char>
    decreases attrs.len(),
{
    if attrs.len() == 0 {
        Seq::empty()
    } else {
        attrs_text(attrs.drop_last()) + attrs.last()@ + " "@
    }
}

/// Writes the annotations, each followed by a space.
pub fn write_attrs(attrs: &Vec<String>) -> (text: String)
    ensures
        text@ == attrs_text(attrs@),
{
    let mut text = String::new();
    let mut i: usize = 0;
    while i < attrs.len()
        invariant
            i <= attrs.len(),
            text@ == attrs_text(attrs@.take(i as int)),
        decreases attrs.len() - i,
    {
        proof {
            assert(attrs@.take(i + 1).drop_last() =~= attrs@.take(i as int));
        }
        text.append(attrs[i].as_str());
        text.append(" ");
        i = i + 1;
    }
    proof {
        assert(attrs@.take(attrs.len() as int) =~= attrs@);
    }
    text
}

/// A snippet that unwraps an option which is known to be `Some`, without a
/// check.
pub open spec fn fast_unwrap_text(expr: Seq<char>) -> Seq<char> {
    "{ match "@ + expr
        + " { Some(x) => x, None => unsafe { ::core::hint::unreachable_unchecked() }, } }"@
}

/// Writes a snippet that unwraps an option which is known to be `Some`,
/// without a check.
pub fn fast_unwrap(expr: &str) -> (text: String)
    ensures
        text@ == fast_unwrap_text(expr@),
{
    let mut text = String::from_str("{ match ");
    text.append(expr);
    text.append(" { Some(x) => x, None => unsafe { ::core::hint::unreachable_unchecked() }, } }");
    text
}

/// One field of the struct: annotations, visibility, name and type.
pub open spec fn field_text(slot: Slot<Written>) -> Seq<char> {
    attrs_text(slot.attrs@) + visibility_text(slot.vis) + slot.name@ + ": "@
        + slot.initializer.key_type@
}

/// The field that holds the open extension, if there is one: a map from type
/// identity to cell.
pub open spec fn open_field_text(layout: Layout<Written>) -> Seq<Seq<char>> {
    match layout.open_slot {
        Some(open) => seq![
            open.name@ + ": std::collections::HashMap<std::any::TypeId, "@ + open.cell_name@ + ">"@,
        ],
        None => Seq::empty(),
    }
}

/// The definition of the struct: one field per fixed slot, in declaration
/// order, and then the field of the open extension.
pub open spec fn struct_text(layout: Layout<Written>) -> Seq<char> {
    attrs_text(layout.attrs@) + visibility_text(layout.vis) + "struct "@ + layout.name@ + " { "@
        + joined(
        Seq::new(layout.slots.len() as nat, |i: int| field_text(layout.slots[i])) + open_field_text(
            layout,
        ),
        ", "@,
    ) + " }"@
}

/// Writes the definition of the struct.
pub fn build_struct(layout: &Layout<Written>) -> (text: String)
    ensures
        text@ == struct_text(*layout),
{
    let mut fields: Vec<String> = Vec::new();
    let mut i: usize = 0;
    while i < layout.slots.len()
        invariant
            i <= layout.slots.len(),
            fields.len() == i,
            forall|k: int| 0 <= k < i ==> (#[trigger] fields[k])@ == field_text(layout.slots[k]),
        decreases layout.slots.len() - i,
    {
        let slot = &layout.slots[i];
        let mut field = write_attrs(&slot.attrs);
        field.append(write_visibility(&slot.vis).as_str());
        field.append(slot.name.as_str());
        field.append(": ");
        field.append(slot.initializer.key_type.as_str());
        fields.push(field);
        i = i + 1;
    }
    let ghost fixed = texts(fields@);
    match &layout.open_slot {
        Some(open) => {
            let mut field = open.name.clone();
            field.append(": std::collections::HashMap<std::any::TypeId, ");
            field.append(open.cell_name.as_str());
            field.append(">");
            fields.push(field);
        },
        None => {},
    }
    proof {
        assert(fixed =~= Seq::new(layout.slots.len() as nat, |i: int| field_text(layout.slots[i])));
        assert(texts(fields@) =~= fixed + open_field_text(*layout));
    }
    let mut text = write_attrs(&layout.attrs);
    text.append(write_visibility(&layout.vis).as_str());
    text.append("struct ");
    text.append(layout.name.as_str());
    text.append(" { ");
    text.append(join(&fields, ", ").as_str());
    text.append(" }");
    text
}

/// The word that makes a reference or a binding mutable, with the space that
/// parts it from what follows, or nothing.
pub open spec fn mut_text(is_mut: bool) -> Seq<char> {
    if is_mut {
        "mut "@
    } else {
        Seq::empty()
    }
}

/// Writes the word that makes a reference or a binding mutable, or nothing.
fn mut_word(is_mut: bool) -> (word: &'static str)
    ensures
        word@ == mut_text(is_mut),
{
    if is_mut {
        "mut "
    } else {
        proof {
            reveal_strlit("");
        }
        assert(""@ =~= Seq::<char>::empty());
        ""
    }
}

/// The kind of a raw pointer: `mut` or `const`.
pub open spec fn pointer_text(is_mut: bool) -> Seq<char> {
    if is_mut {
        "mut"@
    } else {
        "const"@
    }
}

/// Writes the kind of a raw pointer.
fn pointer_word(is_mut: bool) -> (word: &'static str)
    ensures
        word@ == pointer_text(is_mut),
{
    if is_mut {
        "mut"
    } else {
        "const"
    }
}

/// The ending of the name of a downcast: `mut` or `ref`.
pub open spec fn downcast_text(is_mut: bool) -> Seq<char> {
    if is_mut {
        "mut"@
    } else {
        "ref"@
    }
}

/// Writes the ending of the name of a downcast.
fn downcast_word(is_mut: bool) -> (word: &'static str)
    ensures
        word@ == downcast_text(is_mut),
{
    if is_mut {
        "mut"
    } else {
        "ref"
    }
}

/// The name of one of the two iteration methods of a capability.
pub open spec fn method_text(plan: IterationPlan, is_mut: bool) -> Seq<char> {
    if is_mut {
        plan.method_mut@
    } else {
        plan.method@
    }
}

/// The name of one of the two iteration methods of a capability.
fn method_name(plan: &IterationPlan, is_mut: bool) -> (name: &str)
    ensures
        name@ == method_text(*plan, is_mut),
{
    if is_mut {
        plan.method_mut.as_str()
    } else {
        plan.method.as_str()
    }
}

/// The bounds that the capabilities put on every key type: each capability
/// after a plus sign.
pub open spec fn bounds_text(iterations: Seq<IterationPlan>) -> Seq<char>
    decreases iterations.len(),
{
    if iterations.len() == 0 {
        Seq::empty()
    } else {
        bounds_text(iterations.drop_last()) + " + "@ + iterations.last().capability@
    }
}

/// Writes the bounds that the capabilities put on every key type.
pub fn write_bounds(iterations: &Vec<IterationPlan>) -> (text: String)
    ensures
        text@ == bounds_text(iterations@),
{
    let mut text = String::new();
    let mut i: usize = 0;
    while i < iterations.len()
        invariant
            i <= iterations.len(),
            text@ == bounds_text(iterations@.take(i as int)),
        decreases iterations.len() - i,
    {
        proof {
            assert(iterations@.take(i + 1).drop_last() =~= iterations@.take(i as int));
        }
        text.append(" + ");
        text.append(iterations[i].capability.as_str());
        i = i + 1;
    }
    proof {
        assert(iterations@.take(iterations.len() as int) =~= iterations@);
    }
    text
}

/// The field of the cell that holds one adapter: a function from the erased
/// value to its view through the capability.
pub open spec fn adapter_field_text(plan: IterationPlan, is_mut: bool) -> Seq<char> {
    method_text(plan, is_mut) + ": fn(&"@ + mut_text(is_mut) + "dyn core::any::Any) -> &"@ + mut_text(
        is_mut,
    ) + "dyn "@ + plan.capability@
}

/// The adapter itself: it casts the erased value down to the type that the
/// cell was built from, and views it through the capability.
pub open spec fn adapter_text(plan: IterationPlan, is_mut: bool) -> Seq<char> {
    method_text(plan, is_mut) + ": |x| match x.downcast_"@ + downcast_text(is_mut)
        + "::<K>() { Some(x) => (&"@ + mut_text(is_mut) + "*x) as &"@ + mut_text(is_mut) + "dyn "@
        + plan.capability@ + ", None => unsafe { core::hint::unreachable_unchecked() } }"@
}

/// The definition of the cell type, which holds the entries of the open
/// extension: the boxed value and, for every capability, an adapter for
/// reading and one for writing. Without an open extension there is no cell
/// type.
pub open spec fn cell_type_text(layout: Layout<Written>) -> Seq<char> {
    match layout.open_slot {
        None => Seq::empty(),
        Some(open) => "struct "@ + open.cell_name@ + " { value: std::boxed::Box<dyn std::any::Any>, "@
            + joined(
            Seq::new(
                (2 * layout.iterations.len()) as nat,
                |k: int| adapter_field_text(layout.iterations[k / 2], k % 2 == 1),
            ),
            ", "@,
        ) + " } impl "@ + open.cell_name@ + " { fn new<K: core::any::Any"@ + bounds_text(
            layout.iterations@,
        ) + ">(value: K) -> Self { Self { value: Box::new(value), "@ + joined(
            Seq::new(
                (2 * layout.iterations.len()) as nat,
                |k: int| adapter_text(layout.iterations[k / 2], k % 2 == 1),
            ),
            ", "@,
        ) + " } } }"@,
    }
}

/// Writes the field of the cell that holds one adapter.
fn write_adapter_field(plan: &IterationPlan, is_mut: bool) -> (text: String)
    ensures
        text@ == adapter_field_text(*plan, is_mut),
{
    let mut text = String::from_str(method_name(plan, is_mut));
    text.append(": fn(&");
    text.append(mut_word(is_mut));
    text.append("dyn core::any::Any) -> &");
    text.append(mut_word(is_mut));
    text.append("dyn ");
    text.append(plan.capability.as_str());
    text
}

/// Writes one adapter.
fn write_adapter(plan: &IterationPlan, is_mut: bool) -> (text: String)
    ensures
        text@ == adapter_text(*plan, is_mut),
{
    let mut text = String::from_str(method_name(plan, is_mut));
    text.append(": |x| match x.downcast_");
    text.append(downcast_word(is_mut));
    text.append("::<K>() { Some(x) => (&");
    text.append(mut_word(is_mut));
    text.append("*x) as &");
    text.append(mut_word(is_mut));
    text.append("dyn ");
    text.append(plan.capability.as_str());
    text.append(", None => unsafe { core::hint::unreachable_unchecked() } }");
    text
}

/// Writes the definition of the cell type.
pub fn build_cell_type(layout: &Layout<Written>) -> (text: String)
    ensures
        text@ == cell_type_text(*layout),
{
    let open = match &layout.open_slot {
        None => {
            return String::new();
        },
        Some(open) => open,
    };
    let mut fields: Vec<String> = Vec::new();
    let mut adapters: Vec<String> = Vec::new();
    let mut i: usize = 0;
    while i < layout.iterations.len()
        invariant
            i <= layout.iterations.len(),
            fields.len() == 2 * i,
            adapters.len() == 2 * i,
            forall|k: int|
                0 <= k < 2 * i ==> (#[trigger] fields[k])@ == adapter_field_text(
                    layout.iterations[k / 2],
                    k % 2 == 1,
                ),
            forall|k: int|
                0 <= k < 2 * i ==> (#[trigger] adapters[k])@ == adapter_text(
                    layout.iterations[k / 2],
                    k % 2 == 1,
                ),
        decreases layout.iterations.len() - i,
    {
        let plan = &layout.iterations[i];
        fields.push(write_adapter_field(plan, false));
        fields.push(write_adapter_field(plan, true));
        adapters.push(write_adapter(plan, false));
        adapters.push(write_adapter(plan, true));
        i = i + 1;
    }
    proof {
        assert(texts(fields@) =~= Seq::new(
            (2 * layout.iterations.len()) as nat,
            |k: int| adapter_field_text(layout.iterations[k / 2], k % 2 == 1),
        ));
        assert(texts(adapters@) =~= Seq::new(
            (2 * layout.iterations.len()) as nat,
            |k: int| adapter_text(layout.iterations[k / 2], k % 2 == 1),
        ));
    }
    let mut text = String::from_str("struct ");
    text.append(open.cell_name.as_str());
    text.append(" { value: std::boxed::Box<dyn std::any::Any>, ");
    text.append(join(&fields, ", ").as_str());
    text.append(" } impl ");
    text.append(open.cell_name.as_str());
    text.append(" { fn new<K: core::any::Any");
    text.append(write_bounds(&layout.iterations).as_str());
    text.append(">(value: K) -> Self { Self { value: Box::new(value), ");
    text.append(join(&adapters, ", ").as_str());
    text.append(" } } }");
    text
}

/// The part of an iterator's type that goes over the open extension: the
/// values of the map, each viewed through its adapter, or, without an open
/// extension, the empty iterator.
pub open spec fn open_iter_type_text(layout: Layout<Written>, capability: Seq<char>, is_mut: bool) -> Seq<
    char,
> {
    match layout.open_slot {
        Some(open) => "core::iter::Map<std::collections::hash_map::"@ + (if is_mut {
            "ValuesMut"@
        } else {
            "Values"@
        }) + "<'_, core::any::TypeId, "@ + open.cell_name@ + ">, for<'r> fn(&'r "@ + mut_text(is_mut)
            + open.cell_name@ + ") -> &'r "@ + mut_text(is_mut) + "(dyn "@ + capability + " + 'r)>"@,
        None => "core::iter::Empty<&"@ + mut_text(is_mut) + "dyn "@ + capability + ">"@,
    }
}

/// The type of the iterator over one capability: the fixed slots as an array
/// of as many views as there are slots, chained with the open extension's
/// part.
pub open spec fn iter_type_text(layout: Layout<Written>, capability: Seq<char>, is_mut: bool) -> Seq<
    char,
> {
    "core::iter::Chain<core::array::IntoIter<&"@ + mut_text(is_mut) + "dyn "@ + capability + ", "@
        + decimal(layout.slots.len() as nat) + ">, "@ + open_iter_type_text(layout, capability, is_mut)
        + ">"@
}

/// Writes the type of the iterator over one capability, with the given
/// mutability.
pub fn build_iter_type(layout: &Layout<Written>, trait_name: &str, is_mut: bool) -> (text: String)
    ensures
        text@ == iter_type_text(*layout, trait_name@, is_mut),
{
    let mut open_part: String;
    match &layout.open_slot {
        Some(open) => {
            open_part = String::from_str("core::iter::Map<std::collections::hash_map::");
            open_part.append(
                if is_mut {
                    "ValuesMut"
                } else {
                    "Values"
                },
            );
            open_part.append("<'_, core::any::TypeId, ");
            open_part.append(open.cell_name.as_str());
            open_part.append(">, for<'r> fn(&'r ");
            open_part.append(mut_word(is_mut));
            open_part.append(open.cell_name.as_str());
            open_part.append(") -> &'r ");
            open_part.append(mut_word(is_mut));
            open_part.append("(dyn ");
            open_part.append(trait_name);
            open_part.append(" + 'r)>");
        },
        None => {
            open_part = String::from_str("core::iter::Empty<&");
            open_part.append(mut_word(is_mut));
            open_part.append("dyn ");
            open_part.append(trait_name);
            open_part.append(">");
        },
    }
    let mut text = String::from_str("core::iter::Chain<core::array::IntoIter<&");
    text.append(mut_word(is_mut));
    text.append("dyn ");
    text.append(trait_name);
    text.append(", ");
    text.append(decimal_text(layout.slots.len() as u128).as_str());
    text.append(">, ");
    text.append(open_part.as_str());
    text.append(">");
    text
}

/// The name of the trait that marks the types with a fixed slot in a
/// container type.
pub open spec fn key_trait_name(container: Seq<char>) -> Seq<char> {
    container + "Key"@
}

/// Writes the name of the trait that marks the types with a fixed slot.
fn key_trait(layout: &Layout<Written>) -> (name: String)
    ensures
        name@ == key_trait_name(layout.name@),
{
    let mut name = layout.name.clone();
    name.append("Key");
    name
}

/// The impl that marks the type of one slot as a type with a fixed slot.
pub open spec fn key_impl_text(layout: Layout<Written>, slot: Slot<Written>) -> Seq<char> {
    "unsafe impl "@ + key_trait_name(layout.name@) + " for "@ + slot.initializer.key_type@ + " {}"@
}

/// The trait that marks the types with a fixed slot, its impl for the type of
/// every slot, and `Default` for the container.
pub open spec fn trait_impls_text(layout: Layout<Written>) -> Seq<char> {
    visibility_text(layout.vis) + "unsafe trait "@ + key_trait_name(layout.name@)
        + ": core::any::Any {} "@ + joined(
        Seq::new(layout.slots.len() as nat, |i: int| key_impl_text(layout, layout.slots[i]))
            + seq![
            "impl core::default::Default for "@ + layout.name@
                + " { fn default() -> Self { Self::new() } }"@,
        ],
        " "@,
    )
}

/// Writes the marker trait, its impls, and `Default` for the container.
pub fn build_trait_impls(layout: &Layout<Written>) -> (text: String)
    ensures
        text@ == trait_impls_text(*layout),
{
    let key = key_trait(layout);
    let mut impls: Vec<String> = Vec::new();
    let mut i: usize = 0;
    while i < layout.slots.len()
        invariant
            i <= layout.slots.len(),
            impls.len() == i,
            key@ == key_trait_name(layout.name@),
            forall|k: int| 0 <= k < i ==> (#[trigger] impls[k])@ == key_impl_text(*layout, layout.slots[k]),
        decreases layout.slots.len() - i,
    {
        let mut item = String::from_str("unsafe impl ");
        item.append(key.as_str());
        item.append(" for ");
        item.append(layout.slots[i].initializer.key_type.as_str());
        item.append(" {}");
        impls.push(item);
        i = i + 1;
    }
    let ghost keyed = texts(impls@);
    let mut default = String::from_str("impl core::default::Default for ");
    default.append(layout.name.as_str());
    default.append(" { fn default() -> Self { Self::new() } }");
    impls.push(default);
    proof {
        assert(keyed =~= Seq::new(
            layout.slots.len() as nat,
            |i: int| key_impl_text(*layout, layout.slots[i]),
        ));
        assert(texts(impls@) =~= keyed + seq![default@]);
    }
    let mut text = write_visibility(&layout.vis);
    text.append("unsafe trait ");
    text.append(key.as_str());
    text.append(": core::any::Any {} ");
    text.append(join(&impls, " ").as_str());
    text
}

/// What a new container holds in one slot: the slot's initializer.
pub open spec fn initializer_text(slot: Slot<Written>) -> Seq<char> {
    slot.name@ + ": "@ + slot.initializer.initializer@
}

/// What a new container holds in the open extension's slot, if there is one:
/// the empty map.
pub open spec fn open_initializer_text(layout: Layout<Written>) -> Seq<Seq<char>> {
    match layout.open_slot {
        Some(open) => seq![open.name@ + ": Default::default()"@],
        None => Seq::empty(),
    }
}

/// The constructor: every slot gets its initializer, in declaration order,
/// and the open extension starts empty.
pub open spec fn constructors_text(layout: Layout<Written>) -> Seq<char> {
    "pub fn new() -> Self { Self { "@ + joined(
        Seq::new(layout.slots.len() as nat, |i: int| initializer_text(layout.slots[i]))
            + open_initializer_text(layout),
        ", "@,
    ) + " } }"@
}

/// Writes the constructor.
pub fn build_constructors(layout: &Layout<Written>) -> (text: String)
    ensures
        text@ == constructors_text(*layout),
{
    let mut fields: Vec<String> = Vec::new();
    let mut i: usize = 0;
    while i < layout.slots.len()
        invariant
            i <= layout.slots.len(),
            fields.len() == i,
            forall|k: int| 0 <= k < i ==> (#[trigger] fields[k])@ == initializer_text(layout.slots[k]),
        decreases layout.slots.len() - i,
    {
        let mut field = layout.slots[i].name.clone();
        field.append(": ");
        field.append(layout.slots[i].initializer.initializer.as_str());
        fields.push(field);
        i = i + 1;
    }
    let ghost fixed = texts(fields@);
    match &layout.open_slot {
        Some(open) => {
            let mut field = open.name.clone();
            field.append(": Default::default()");
            fields.push(field);
        },
        None => {},
    }
    proof {
        assert(fixed =~= Seq::new(
            layout.slots.len() as nat,
            |i: int| initializer_text(layout.slots[i]),
        ));
        assert(texts(fields@) =~= fixed + open_initializer_text(*layout));
    }
    let mut text = String::from_str("pub fn new() -> Self { Self { ");
    text.append(join(&fields, ", ").as_str());
    text.append(" } }");
    text
}

/// One step of the dispatch: where the requested type is the type of the
/// slot, the slot's address is the answer.
pub open spec fn clause_text(slot: Slot<Written>, is_mut: bool) -> Seq<char> {
    "if core::any::TypeId::of::<K>() == core::any::TypeId::of::<"@ + slot.initializer.key_type@
        + ">() { return Some(&"@ + mut_text(is_mut) + "self."@ + slot.name@ + " as *"@ + pointer_text(
        is_mut,
    ) + " "@ + slot.initializer.key_type@ + " as *"@ + pointer_text(is_mut) + " u8); } "@
}

/// The end of the dispatch, when no slot has the requested type: a lookup in
/// the open extension by the type's identity, or, without an open extension,
/// nothing.
pub open spec fn fallback_text(layout: Layout<Written>, is_mut: bool) -> Seq<char> {
    match layout.open_slot {
        None => "None"@,
        Some(open) => "{ self."@ + open.name@ + "."@ + (if is_mut {
            "get_mut"@
        } else {
            "get"@
        }) + "(&core::any::TypeId::of::<K>()).map(|x| { ("@ + fast_unwrap_text(
            "(&"@ + mut_text(is_mut) + "*x.value).downcast_"@ + downcast_text(is_mut) + "::<K>()"@,
        ) + ") as *"@ + pointer_text(is_mut) + " K as *"@ + pointer_text(is_mut) + " u8 }) }"@,
    }
}

/// One of the two low-level getters: it compares the requested type with the
/// type of each slot, in declaration order, and stops at the first match;
/// then comes the fallback.
pub open spec fn getter_text(layout: Layout<Written>, is_mut: bool) -> Seq<char> {
    "fn "@ + (if is_mut {
        "get_mut_ptr"@
    } else {
        "get_const_ptr"@
    }) + "<K: core::any::Any>(&"@ + mut_text(is_mut) + "self) -> Option<*"@ + pointer_text(is_mut)
        + " u8> { use core::any::Any; "@ + joined(
        Seq::new(layout.slots.len() as nat, |i: int| clause_text(layout.slots[i], is_mut)),
        Seq::empty(),
    ) + fallback_text(layout, is_mut) + " }"@
}

/// The two low-level getters, for reading and for writing.
pub open spec fn unsafe_getters_text(layout: Layout<Written>) -> Seq<char> {
    getter_text(layout, false) + " "@ + getter_text(layout, true)
}

/// Writes the end of the dispatch.
fn write_fallback(layout: &Layout<Written>, is_mut: bool) -> (text: String)
    ensures
        text@ == fallback_text(*layout, is_mut),
{
    match &layout.open_slot {
        None => String::from_str("None"),
        Some(open) => {
            let mut downcast = String::from_str("(&");
            downcast.append(mut_word(is_mut));
            downcast.append("*x.value).downcast_");
            downcast.append(downcast_word(is_mut));
            downcast.append("::<K>()");
            let mut text = String::from_str("{ self.");
            text.append(open.name.as_str());
            text.append(".");
            text.append(
                if is_mut {
                    "get_mut"
                } else {
                    "get"
                },
            );
            text.append("(&core::any::TypeId::of::<K>()).map(|x| { (");
            text.append(fast_unwrap(downcast.as_str()).as_str());
            text.append(") as *");
            text.append(pointer_word(is_mut));
            text.append(" K as *");
            text.append(pointer_word(is_mut));
            text.append(" u8 }) }");
            text
        },
    }
}

/// Writes one of the two low-level getters.
fn write_getter(layout: &Layout<Written>, is_mut: bool) -> (text: String)
    ensures
        text@ == getter_text(*layout, is_mut),
{
    let mut clauses: Vec<String> = Vec::new();
    let mut i: usize = 0;
    while i < layout.slots.len()
        invariant
            i <= layout.slots.len(),
            clauses.len() == i,
            forall|k: int| 0 <= k < i ==> (#[trigger] clauses[k])@ == clause_text(layout.slots[k], is_mut),
        decreases layout.slots.len() - i,
    {
        let slot = &layout.slots[i];
        let mut clause = String::from_str(
            "if core::any::TypeId::of::<K>() == core::any::TypeId::of::<",
        );
        clause.append(slot.initializer.key_type.as_str());
        clause.append(">() { return Some(&");
        clause.append(mut_word(is_mut));
        clause.append("self.");
        clause.append(slot.name.as_str());
        clause.append(" as *");
        clause.append(pointer_word(is_mut));
        clause.append(" ");
        clause.append(slot.initializer.key_type.as_str());
        clause.append(" as *");
        clause.append(pointer_word(is_mut));
        clause.append(" u8); } ");
        clauses.push(clause);
        i = i + 1;
    }
    proof {
        assert(texts(clauses@) =~= Seq::new(
            layout.slots.len() as nat,
            |i: int| clause_text(layout.slots[i], is_mut),
        ));
        reveal_strlit("");
        assert(""@ =~= Seq::<char>::empty());
    }
    let mut text = String::from_str("fn ");
    text.append(
        if is_mut {
            "get_mut_ptr"
        } else {
            "get_const_ptr"
        },
    );
    text.append("<K: core::any::Any>(&");
    text.append(mut_word(is_mut));
    text.append("self) -> Option<*");
    text.append(pointer_word(is_mut));
    text.append(" u8> { use core::any::Any; ");
    text.append(join(&clauses, "").as_str());
    text.append(write_fallback(layout, is_mut).as_str());
    text.append(" }");
    text
}

/// Writes the low-level getters.
pub fn build_unsafe_getters(layout: &Layout<Written>) -> (text: String)
    ensures
        text@ == unsafe_getters_text(*layout),
{
    let mut text = write_getter(layout, false);
    text.append(" ");
    text.append(write_getter(layout, true).as_str());
    text
}

/// The infallible getters: for a type that is marked as having a fixed slot,
/// the slot itself, with no check.
pub open spec fn infallible_getters_text(layout: Layout<Written>) -> Seq<char> {
    "pub fn get_infallible<K: "@ + key_trait_name(layout.name@) + bounds_text(layout.iterations@)
        + ">(&self) -> &K { unsafe { &*("@ + fast_unwrap_text("self.get_const_ptr::<K>()"@)
        + " as *const K) } } pub fn get_infallible_mut<K: "@ + key_trait_name(layout.name@)
        + bounds_text(layout.iterations@) + ">(&mut self) -> &mut K { unsafe { &mut *("@
        + fast_unwrap_text("self.get_mut_ptr::<K>()"@) + " as *mut K) } }"@
}

/// Writes the infallible getters.
pub fn build_infallible_getters(layout: &Layout<Written>) -> (text: String)
    ensures
        text@ == infallible_getters_text(*layout),
{
    let key = key_trait(layout);
    let bounds = write_bounds(&layout.iterations);
    let mut text = String::from_str("pub fn get_infallible<K: ");
    text.append(key.as_str());
    text.append(bounds.as_str());
    text.append(">(&self) -> &K { unsafe { &*(");
    text.append(fast_unwrap("self.get_const_ptr::<K>()").as_str());
    text.append(" as *const K) } } pub fn get_infallible_mut<K: ");
    text.append(key.as_str());
    text.append(bounds.as_str());
    text.append(">(&mut self) -> &mut K { unsafe { &mut *(");
    text.append(fast_unwrap("self.get_mut_ptr::<K>()").as_str());
    text.append(" as *mut K) } }");
    text
}

/// The fallible getters: present or absent, by the dispatch. They take any
/// type, whatever the capabilities are.
pub open spec fn fallible_getters_text() -> Seq<char> {
    "pub fn get<K: core::any::Any>(&self) -> Option<&K> { self.get_const_ptr::<K>().map(|x| unsafe { &*(x as *const K) }) } pub fn get_mut<K: core::any::Any>(&mut self) -> Option<&mut K> { self.get_mut_ptr::<K>().map(|x| unsafe { &mut *(x as *mut K) }) }"@
}

/// Writes the fallible getters.
pub fn build_fallible_getters() -> (text: String)
    ensures
        text@ == fallible_getters_text(),
{
    String::from_str(
        "pub fn get<K: core::any::Any>(&self) -> Option<&K> { self.get_const_ptr::<K>().map(|x| unsafe { &*(x as *const K) }) } pub fn get_mut<K: core::any::Any>(&mut self) -> Option<&mut K> { self.get_mut_ptr::<K>().map(|x| unsafe { &mut *(x as *mut K) }) }",
    )
}

/// The name of the error type of a container type.
pub open spec fn error_type_name(container: Seq<char>) -> Seq<char> {
    container + "InsertError"@
}

/// Writes the name of the error type of the container.
fn error_type(layout: &Layout<Written>) -> (name: String)
    ensures
        name@ == error_type_name(layout.name@),
{
    let mut name = layout.name.clone();
    name.append("InsertError");
    name
}

/// The definition of the error type: why an insertion is refused, which is
/// for one reason only, that the type is unknown.
pub open spec fn error_type_text(layout: Layout<Written>) -> Seq<char> {
    "#[derive(Debug, Clone, Copy, PartialEq, Eq)] "@ + visibility_text(layout.vis) + "enum "@
        + error_type_name(layout.name@) + " { UnknownType }"@
}

/// Writes the definition of the error type.
pub fn build_error_type(layout: &Layout<Written>) -> (text: String)
    ensures
        text@ == error_type_text(*layout),
{
    let mut text = String::from_str("#[derive(Debug, Clone, Copy, PartialEq, Eq)] ");
    text.append(write_visibility(&layout.vis).as_str());
    text.append("enum ");
    text.append(error_type(layout).as_str());
    text.append(" { UnknownType }");
    text
}

/// What insertion does with a type that has no fixed slot: it puts a new cell
/// into the open extension and hands back what the old cell held, or, without
/// an open extension, it fails, as the type is unknown.
pub open spec fn open_insert_text(layout: Layout<Written>) -> Seq<char> {
    match layout.open_slot {
        None => "Err("@ + error_type_name(layout.name@) + "::UnknownType)"@,
        Some(open) => "let tid = core::any::TypeId::of::<K>(); Ok(self."@ + open.name@
            + ".insert(tid, "@ + open.cell_name@ + "::new(value)).map(|x| *("@ + fast_unwrap_text(
            "x.value.downcast::<K>().ok()"@,
        ) + ")))"@,
    }
}

/// Insertion: where the type has a fixed slot, the slot's value is swapped
/// with the new one and handed back; else the open extension decides. It
/// fails with the error type's `UnknownType` and with nothing else.
pub open spec fn insert_text(layout: Layout<Written>) -> Seq<char> {
    "pub fn insert<K: core::any::Any"@ + bounds_text(layout.iterations@)
        + ">(&mut self, mut value: K) -> Result<Option<K>, "@ + error_type_name(layout.name@)
        + "> { use core::any::Any; if let Some(x) = self.get_mut_ptr::<K>() { core::mem::swap(&mut value, unsafe { &mut *(x as *mut K) }); return Ok(Some(value)); } "@
        + open_insert_text(layout) + " }"@
}

/// Writes the insertion.
pub fn build_insert(layout: &Layout<Written>) -> (text: String)
    ensures
        text@ == insert_text(*layout),
{
    let mut open_part: String;
    match &layout.open_slot {
        None => {
            open_part = String::from_str("Err(");
            open_part.append(error_type(layout).as_str());
            open_part.append("::UnknownType)");
        },
        Some(open) => {
            open_part = String::from_str("let tid = core::any::TypeId::of::<K>(); Ok(self.");
            open_part.append(open.name.as_str());
            open_part.append(".insert(tid, ");
            open_part.append(open.cell_name.as_str());
            open_part.append("::new(value)).map(|x| *(");
            open_part.append(fast_unwrap("x.value.downcast::<K>().ok()").as_str());
            open_part.append(")))");
        },
    }
    let mut text = String::from_str("pub fn insert<K: core::any::Any");
    text.append(write_bounds(&layout.iterations).as_str());
    text.append(">(&mut self, mut value: K) -> Result<Option<K>, ");
    text.append(error_type(layout).as_str());
    text.append(
        "> { use core::any::Any; if let Some(x) = self.get_mut_ptr::<K>() { core::mem::swap(&mut value, unsafe { &mut *(x as *mut K) }); return Ok(Some(value)); } ",
    );
    text.append(open_part.as_str());
    text.append(" }");
    text
}

/// One fixed slot viewed through a capability.
pub open spec fn view_text(slot: Slot<Written>, capability: Seq<char>, is_mut: bool) -> Seq<char> {
    "&"@ + mut_text(is_mut) + "self."@ + slot.name@ + " as &"@ + mut_text(is_mut) + "dyn "@
        + capability
}

/// The open extension's part of an iteration: the values of the map, each
/// viewed through its adapter, or, without an open extension, nothing.
pub open spec fn open_iter_text(layout: Layout<Written>, plan: IterationPlan, is_mut: bool) -> Seq<
    char,
> {
    match layout.open_slot {
        None => "let dyn_iter = core::iter::empty();"@,
        Some(open) => "let dyn_ref = &"@ + mut_text(is_mut) + "self."@ + open.name@
            + "; fn conv<'b>(cell: &'b "@ + mut_text(is_mut) + open.cell_name@ + ") -> &'b "@
            + mut_text(is_mut) + "dyn "@ + plan.capability@ + " { (cell."@ + method_text(plan, is_mut)
            + ")(&"@ + mut_text(is_mut) + "*cell.value) } let dyn_iter = dyn_ref."@ + (if is_mut {
            "values_mut"@
        } else {
            "values"@
        }) + "().map(conv as fn(&"@ + mut_text(is_mut) + open.cell_name@ + ") -> &"@ + mut_text(
            is_mut,
        ) + "dyn "@ + plan.capability@ + ");"@,
    }
}

/// One iteration method: the fixed slots, in declaration order, each viewed
/// through the capability, chained with the open extension's part.
pub open spec fn iterator_text(layout: Layout<Written>, plan: IterationPlan, is_mut: bool) -> Seq<
    char,
> {
    "fn "@ + method_text(plan, is_mut) + "(&"@ + mut_text(is_mut) + "self) -> "@ + iter_type_text(
        layout,
        plan.capability@,
        is_mut,
    ) + " { let static_arr: [&"@ + mut_text(is_mut) + "dyn "@ + plan.capability@ + "; "@ + decimal(
        layout.slots.len() as nat,
    ) + "] = ["@ + joined(
        Seq::new(
            layout.slots.len() as nat,
            |i: int| view_text(layout.slots[i], plan.capability@, is_mut),
        ),
        ", "@,
    ) + "]; let static_iter = static_arr.into_iter(); "@ + open_iter_text(layout, plan, is_mut)
        + " static_iter.chain(dyn_iter) }"@
}

/// The iteration methods: for every capability the one that reads and the
/// one that writes, in the order the capabilities are listed.
pub open spec fn iterators_text(layout: Layout<Written>) -> Seq<char> {
    joined(
        Seq::new(
            (2 * layout.iterations.len()) as nat,
            |k: int| iterator_text(layout, layout.iterations[k / 2], k % 2 == 1),
        ),
        " "@,
    )
}

/// Writes the open extension's part of an iteration.
fn write_open_iter(layout: &Layout<Written>, plan: &IterationPlan, is_mut: bool) -> (text: String)
    ensures
        text@ == open_iter_text(*layout, *plan, is_mut),
{
    match &layout.open_slot {
        None => String::from_str("let dyn_iter = core::iter::empty();"),
        Some(open) => {
            let mut text = String::from_str("let dyn_ref = &");
            text.append(mut_word(is_mut));
            text.append("self.");
            text.append(open.name.as_str());
            text.append("; fn conv<'b>(cell: &'b ");
            text.append(mut_word(is_mut));
            text.append(open.cell_name.as_str());
            text.append(") -> &'b ");
            text.append(mut_word(is_mut));
            text.append("dyn ");
            text.append(plan.capability.as_str());
            text.append(" { (cell.");
            text.append(method_name(plan, is_mut));
            text.append(")(&");
            text.append(mut_word(is_mut));
            text.append("*cell.value) } let dyn_iter = dyn_ref.");
            text.append(
                if is_mut {
                    "values_mut"
                } else {
                    "values"
                },
            );
            text.append("().map(conv as fn(&");
            text.append(mut_word(is_mut));
            text.append(open.cell_name.as_str());
            text.append(") -> &");
            text.append(mut_word(is_mut));
            text.append("dyn ");
            text.append(plan.capability.as_str());
            text.append(");");
            text
        },
    }
}

/// Writes one iteration method.
fn write_iterator(layout: &Layout<Written>, plan: &IterationPlan, is_mut: bool) -> (text: String)
    ensures
        text@ == iterator_text(*layout, *plan, is_mut),
{
    let mut views: Vec<String> = Vec::new();
    let mut i: usize = 0;
    while i < layout.slots.len()
        invariant
            i <= layout.slots.len(),
            views.len() == i,
            forall|k: int|
                0 <= k < i ==> (#[trigger] views[k])@ == view_text(
                    layout.slots[k],
                    plan.capability@,
                    is_mut,
                ),
        decreases layout.slots.len() - i,
    {
        let mut view = String::from_str("&");
        view.append(mut_word(is_mut));
        view.append("self.");
        view.append(layout.slots[i].name.as_str());
        view.append(" as &");
        view.append(mut_word(is_mut));
        view.append("dyn ");
        view.append(plan.capability.as_str());
        views.push(view);
        i = i + 1;
    }
    proof {
        assert(texts(views@) =~= Seq::new(
            layout.slots.len() as nat,
            |i: int| view_text(layout.slots[i], plan.capability@, is_mut),
        ));
    }
    let mut text = String::from_str("fn ");
    text.append(method_name(plan, is_mut));
    text.append("(&");
    text.append(mut_word(is_mut));
    text.append("self) -> ");
    text.append(build_iter_type(layout, plan.capability.as_str(), is_mut).as_str());
    text.append(" { let static_arr: [&");
    text.append(mut_word(is_mut));
    text.append("dyn ");
    text.append(plan.capability.as_str());
    text.append("; ");
    text.append(decimal_text(layout.slots.len() as u128).as_str());
    text.append("] = [");
    text.append(join(&views, ", ").as_str());
    text.append("]; let static_iter = static_arr.into_iter(); ");
    text.append(write_open_iter(layout, plan, is_mut).as_str());
    text.append(" static_iter.chain(dyn_iter) }");
    text
}

/// Writes the iteration methods.
pub fn build_iterators(layout: &Layout<Written>) -> (text: String)
    ensures
        text@ == iterators_text(*layout),
{
    let mut methods: Vec<String> = Vec::new();
    let mut i: usize = 0;
    while i < layout.iterations.len()
        invariant
            i <= layout.iterations.len(),
            methods.len() == 2 * i,
            forall|k: int|
                0 <= k < 2 * i ==> (#[trigger] methods[k])@ == iterator_text(
                    *layout,
                    layout.iterations[k / 2],
                    k % 2 == 1,
                ),
        decreases layout.iterations.len() - i,
    {
        let plan = &layout.iterations[i];
        methods.push(write_iterator(layout, plan, false));
        methods.push(write_iterator(layout, plan, true));
        i = i + 1;
    }
    proof {
        assert(texts(methods@) =~= Seq::new(
            (2 * layout.iterations.len()) as nat,
            |k: int| iterator_text(*layout, layout.iterations[k / 2], k % 2 == 1),
        ));
    }
    join(&methods, " ")
}

/// The impl block of the container: constructor, getters, insertion and
/// iteration methods.
pub open spec fn impl_block_text(layout: Layout<Written>) -> Seq<char> {
    "impl "@ + layout.name@ + " { "@ + constructors_text(layout) + " "@ + unsafe_getters_text(layout)
        + " "@ + infallible_getters_text(layout) + " "@ + fallible_getters_text() + " "@
        + insert_text(layout) + " "@ + iterators_text(layout) + " }"@
}

/// Writes the impl block of the container.
pub fn build_impl_block(layout: &Layout<Written>) -> (text: String)
    ensures
        text@ == impl_block_text(*layout),
{
    let mut text = String::from_str("impl ");
    text.append(layout.name.as_str());
    text.append(" { ");
    text.append(build_constructors(layout).as_str());
    text.append(" ");
    text.append(build_unsafe_getters(layout).as_str());
    text.append(" ");
    text.append(build_infallible_getters(layout).as_str());
    text.append(" ");
    text.append(build_fallible_getters().as_str());
    text.append(" ");
    text.append(build_insert(layout).as_str());
    text.append(" ");
    text.append(build_iterators(layout).as_str());
    text.append(" }");
    text
}

/// Everything that declares a container: the struct, the error type, the
/// marker trait with its impls, the cell type and the impl block.
pub open spec fn declaration_text(layout: Layout<Written>) -> Seq<char> {
    struct_text(layout) + " "@ + error_type_text(layout) + " "@ + trait_impls_text(layout) + " "@
        + cell_type_text(layout) + " "@ + impl_block_text(layout)
}

/// Writes everything that declares the container of a layout.
pub fn write_declaration(layout: &Layout<Written>) -> (text: String)
    ensures
        text@ == declaration_text(*layout),
{
    let mut text = build_struct(layout);
    text.append(" ");
    text.append(build_error_type(layout).as_str());
    text.append(" ");
    text.append(build_trait_impls(layout).as_str());
    text.append(" ");
    text.append(build_cell_type(layout).as_str());
    text.append(" ");
    text.append(build_impl_block(layout).as_str());
    text
}

/// Whether `text` declares the container of `schema`: it is the declaration
/// of a well-formed layout that the schema has under its resolved names.
pub open spec fn declares(schema: ContainerSchema<Written>, text: Seq<char>) -> bool {
    exists|layout: Layout<Written>|
        {
            &&& layout.realizes(
                schema,
                field_names(declared_names(schema.fields@)),
                open_slot_name(field_names(declared_names(schema.fields@))),
            )
            &&& layout.wf()
            &&& text == declaration_text(layout)
        }
}

/// Capabilities that are written alike put the same bounds on the key types.
proof fn lemma_bounds_alike(a: Seq<IterationPlan>, b: Seq<IterationPlan>)
    requires
        a.len() == b.len(),
        forall|i: int| 0 <= i < a.len() ==> (#[trigger] a[i]).capability@ == b[i].capability@,
    ensures
        bounds_text(a) == bounds_text(b),
    decreases a.len(),
{
    if a.len() > 0 {
        lemma_bounds_alike(a.drop_last(), b.drop_last());
    }
}

/// Two layouts of one schema under the same names are declared by the same
/// text.
pub proof fn lemma_declaration_alike(
    schema: ContainerSchema<Written>,
    names: Seq<Seq<char>>,
    open_name: Seq<char>,
    a: Layout<Written>,
    b: Layout<Written>,
)
    requires
        a.realizes(schema, names, open_name),
        b.realizes(schema, names, open_name),
    ensures
        declaration_text(a) == declaration_text(b),
{
    let n = a.slots.len() as nat;
    let m = (2 * a.iterations.len()) as nat;
    lemma_bounds_alike(a.iterations@, b.iterations@);
    assert(open_field_text(a) =~= open_field_text(b));
    assert(open_initializer_text(a) =~= open_initializer_text(b));
    assert(Seq::new(n, |i: int| field_text(a.slots[i])) =~= Seq::new(n, |i: int| field_text(b.slots[i])));
    assert(struct_text(a) == struct_text(b));
    assert(Seq::new(n, |i: int| key_impl_text(a, a.slots[i])) =~= Seq::new(
        n,
        |i: int| key_impl_text(b, b.slots[i]),
    ));
    assert(trait_impls_text(a) == trait_impls_text(b));
    assert(Seq::new(m, |k: int| adapter_field_text(a.iterations[k / 2], k % 2 == 1)) =~= Seq::new(
        m,
        |k: int| adapter_field_text(b.iterations[k / 2], k % 2 == 1),
    ));
    assert(Seq::new(m, |k: int| adapter_text(a.iterations[k / 2], k % 2 == 1)) =~= Seq::new(
        m,
        |k: int| adapter_text(b.iterations[k / 2], k % 2 == 1),
    ));
    assert(cell_type_text(a) == cell_type_text(b));
    assert(Seq::new(n, |i: int| initializer_text(a.slots[i])) =~= Seq::new(
        n,
        |i: int| initializer_text(b.slots[i]),
    ));
    assert(constructors_text(a) == constructors_text(b));
    assert forall|is_mut: bool| getter_text(a, is_mut) == getter_text(b, is_mut) by {
        assert(Seq::new(n, |i: int| clause_text(a.slots[i], is_mut)) =~= Seq::new(
            n,
            |i: int| clause_text(b.slots[i], is_mut),
        ));
        assert(fallback_text(a, is_mut) == fallback_text(b, is_mut));
    }
    assert(unsafe_getters_text(a) == unsafe_getters_text(b));
    assert(infallible_getters_text(a) == infallible_getters_text(b));
    assert(error_type_text(a) == error_type_text(b));
    assert(open_insert_text(a) == open_insert_text(b));
    assert(insert_text(a) == insert_text(b));
    assert forall|p: int, is_mut: bool| 0 <= p < a.iterations.len() implies #[trigger] iterator_text(
        a,
        a.iterations[p],
        is_mut,
    ) == iterator_text(b, b.iterations[p], is_mut) by {
        let pa = a.iterations[p];
        let pb = b.iterations[p];
        assert(pa.capability@ == pb.capability@);
        assert(method_text(pa, is_mut) == method_text(pb, is_mut));
        assert(Seq::new(n, |i: int| view_text(a.slots[i], pa.capability@, is_mut)) =~= Seq::new(
            n,
            |i: int| view_text(b.slots[i], pb.capability@, is_mut),
        ));
        assert(open_iter_type_text(a, pa.capability@, is_mut) == open_iter_type_text(
            b,
            pb.capability@,
            is_mut,
        ));
        assert(iter_type_text(a, pa.capability@, is_mut) == iter_type_text(b, pb.capability@, is_mut));
        assert(open_iter_text(a, pa, is_mut) == open_iter_text(b, pb, is_mut));
    }
    assert(Seq::new(m, |k: int| iterator_text(a, a.iterations[k / 2], k % 2 == 1)) =~= Seq::new(
        m,
        |k: int| iterator_text(b, b.iterations[k / 2], k % 2 == 1),
    ));
    assert(iterators_text(a) == iterators_text(b));
    assert(impl_block_text(a) == impl_block_text(b));
}

/// The declaration is stable: one schema is declared by one text only, so
/// that declaring it again gives the same container type.
pub proof fn lemma_declaration_stable(schema: ContainerSchema<Written>, first: Seq<char>, second: Seq<char>)
    requires
        declares(schema, first),
        declares(schema, second),
    ensures
        first == second,
{
    let names = field_names(declared_names(schema.fields@));
    let open_name = open_slot_name(names);
    let a = choose|layout: Layout<Written>|
        layout.realizes(schema, names, open_name) && layout.wf() && first == declaration_text(layout);
    let b = choose|layout: Layout<Written>|
        layout.realizes(schema, names, open_name) && layout.wf() && second == declaration_text(layout);
    lemma_declaration_alike(schema, names, open_name, a, b);
}

/// The type of each field as written, in declaration order.
pub open spec fn written_types(fields: Seq<FieldSpec<Written>>) -> Seq<Seq<char>> {
    Seq::new(fields.len(), |i: int| fields[i].initializer.key_type@)
}

/// What is wrong with a schema that is to be declared, if anything: what is
/// wrong with any schema, and besides, as a type declared twice, two fields
/// whose types are written alike, whatever their type tokens are.
pub open spec fn declaration_defect(schema: ContainerSchema<Written>) -> Option<SchemaError> {
    if unnamed_with_visibility(schema.fields@) {
        Some(SchemaError::VisibilityOnUnnamed)
    } else if !key_types(schema.fields@).no_duplicates() || !written_types(
        schema.fields@,
    ).no_duplicates() {
        Some(SchemaError::DuplicateType)
    } else {
        schema.defect()
    }
}

/// The type of each field as written, in declaration order.
fn collect_written(fields: &Vec<FieldSpec<Written>>) -> (written: Vec<String>)
    ensures
        texts(written@) == written_types(fields@),
{
    let mut written: Vec<String> = Vec::new();
    let mut i: usize = 0;
    while i < fields.len()
        invariant
            i <= fields.len(),
            written.len() == i,
            forall|k: int| 0 <= k < i ==> (#[trigger] written[k])@ == fields[k].initializer.key_type@,
        decreases fields.len() - i,
    {
        written.push(fields[i].initializer.key_type.clone());
        i = i + 1;
    }
    assert(texts(written@) =~= written_types(fields@));
    written
}

/// Declares a container: checks the schema, resolves its names, plans its
/// layout and writes the declaration out. A schema with a defect is refused
/// with that defect, and nothing is written.
pub fn decl_fixed_typemap(schema: ContainerSchema<Written>) -> (r: Result<String, SchemaError>)
    ensures
        match r {
            Ok(text) => declaration_defect(schema) is None && declares(schema, text@),
            Err(e) => declaration_defect(schema) == Some(e),
        },
{
    match schema.check() {
        Err(SchemaError::VisibilityOnUnnamed) => {
            return Err(SchemaError::VisibilityOnUnnamed);
        },
        Err(SchemaError::DuplicateType) => {
            return Err(SchemaError::DuplicateType);
        },
        _ => {},
    }
    let written = collect_written(&schema.fields);
    if !all_distinct(&written) {
        return Err(SchemaError::DuplicateType);
    }
    match generate(schema) {
        Ok(layout) => Ok(write_declaration(&layout)),
        Err(e) => Err(e),
    }
}

} // verus!
