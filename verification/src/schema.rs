//! The schema model: what a container declaration says, as plain data.

use crate::names::position_of;
use crate::TypeToken;
use vstd::prelude::*;
use vstd::string::StringExecFns;

verus! {

/// How far an item is exposed.
pub enum Visibility {
    /// No modifier: private to where it is declared.
    Inherited,
    /// Exposed everywhere.
    Public,
    /// Exposed within the crate.
    Crate,
    /// Exposed within the module at this path.
    Restricted(String),
}

impl Visibility {
    /// Whether no modifier was written.
    pub fn is_inherited(&self) -> (b: bool)
        ensures
            b == (self is Inherited),
    {
        match self {
            Visibility::Inherited => true,
            _ => false,
        }
    }
}

/// One declared field: a type whose value the container always holds.
///
/// `I` is the default initializer: an expression where code is generated, the
/// initial value itself where a container is built at run time.
pub struct FieldSpec<I> {
    /// The name the user chose, if any.
    pub declared_name: Option<String>,
    /// The declared type.
    pub key_type: TypeToken,
    /// What the slot holds in a new container.
    pub initializer: I,
    /// Annotations that are passed on unread.
    pub attrs: Vec<String>,
    /// The field's exposure.
    pub vis: Visibility,
}

/// One capability by which the container can be iterated.
pub struct CapabilityIteration {
    /// The capability's identifier.
    pub capability: String,
    /// The base name of the two iteration methods.
    pub method: String,
}

/// A container declaration.
pub struct ContainerSchema<I> {
    /// The name of the container type.
    pub name: String,
    /// The container type's exposure.
    pub vis: Visibility,
    /// Annotations on the container type that are passed on unread.
    pub attrs: Vec<String>,
    /// The declared fields, in declaration order.
    pub fields: Vec<FieldSpec<I>>,
    /// Whether values of undeclared types are accepted.
    pub dynamic: bool,
    /// The capabilities to iterate by, each with its method base name.
    pub iterable_traits: Vec<CapabilityIteration>,
}

/// The characters of each string.
pub open spec fn texts(strings: Seq<String>) -> Seq<Seq<char>> {
    Seq::new(strings.len(), |i: int| strings[i]@)
}

/// The name that each field declares, if any, in declaration order.
pub open spec fn declared_names<I>(fields: Seq<FieldSpec<I>>) -> Seq<Option<Seq<char>>> {
    Seq::new(
        fields.len(),
        |i: int|
            match fields[i].declared_name {
                Some(name) => Some(name@),
                None => None,
            },
    )
}

/// The type that each field declares, in declaration order.
pub open spec fn key_types<I>(fields: Seq<FieldSpec<I>>) -> Seq<TypeToken> {
    Seq::new(fields.len(), |i: int| fields[i].key_type)
}

/// The initializer of each field, in declaration order.
pub open spec fn initializers_of<I>(fields: Seq<FieldSpec<I>>) -> Seq<I> {
    Seq::new(fields.len(), |i: int| fields[i].initializer)
}

/// Whether an annotation on the container is passed on to the container type:
/// every annotation is, but those that configure the container itself, which
/// have a path segment `fixed_typemap`.
pub fn is_forwarded(path: &Vec<String>) -> (b: bool)
    ensures
        b == !texts(path@).contains("fixed_typemap"@),
{
    let own = String::from_str("fixed_typemap");
    let mut i: usize = 0;
    while i < path.len()
        invariant
            i <= path.len(),
            own@ == "fixed_typemap"@,
            forall|j: int| 0 <= j < i ==> path[j]@ != "fixed_typemap"@,
        decreases path.len() - i,
    {
        if path[i] == own {
            assert(texts(path@)[i as int] == "fixed_typemap"@);
            return false;
        }
        i = i + 1;
    }
    true
}

/// Identities for types as they are written: each type gets the position of
/// the first type that is written like it. Types written alike so get the
/// same identity, and types written differently get different ones.
pub fn identify(written: &Vec<String>) -> (tokens: Vec<TypeToken>)
    ensures
        tokens.len() == written.len(),
        forall|i: int|
            0 <= i < written.len() ==> {
                &&& 0 <= #[trigger] tokens[i] <= i
                &&& written[tokens[i] as int]@ == written[i]@
                &&& forall|j: int| 0 <= j < tokens[i] ==> written[j]@ != written[i]@
            },
{
    let mut tokens: Vec<TypeToken> = Vec::new();
    let mut i: usize = 0;
    while i < written.len()
        invariant
            i <= written.len(),
            tokens.len() == i,
            forall|k: int|
                0 <= k < i ==> {
                    &&& 0 <= #[trigger] tokens[k] <= k
                    &&& written[tokens[k] as int]@ == written[k]@
                    &&& forall|j: int| 0 <= j < tokens[k] ==> written[j]@ != written[k]@
                },
        decreases written.len() - i,
    {
        let mut first: usize = 0;
        while written[first] != written[i]
            invariant
                first <= i < written.len(),
                forall|j: int| 0 <= j < first ==> written[j]@ != written[i as int]@,
            decreases i - first,
        {
            first = first + 1;
        }
        tokens.push(first as u64);
        i = i + 1;
    }
    tokens
}

/// Why a schema is refused. The first reason that applies, in the order given
/// here, is the one reported.
#[derive(Clone, Copy, Debug, PartialEq, Eq, Structural)]
pub enum SchemaError {
    /// A field without a declared name carries a visibility modifier.
    VisibilityOnUnnamed,
    /// Two fields declare the same type.
    DuplicateType,
    /// Two fields declare the same name.
    DuplicateName,
    /// A capability is listed twice.
    DuplicateCapability,
    /// Two methods of the container would have the same name, or, in a
    /// container with an open extension, an iteration method would be named
    /// `value`, as is the field of the dynamic cell beside which its adapter
    /// stands.
    MethodConflict,
    /// The initial value of a field is not a value of the type that the
    /// field declares. Only where a container is built from the schema is
    /// there such a value to look at.
    MistypedInitializer,
}

/// Whether no two fields declare the same name.
pub open spec fn declared_distinct(declared: Seq<Option<Seq<char>>>) -> bool {
    forall|a: int, b: int|
        0 <= a < b < declared.len() && declared[a] is Some ==> #[trigger] declared[a]
            != #[trigger] declared[b]
}

/// Whether some field without a declared name carries a visibility modifier.
pub open spec fn unnamed_with_visibility<I>(fields: Seq<FieldSpec<I>>) -> bool {
    exists|i: int|
        0 <= i < fields.len() && (#[trigger] fields[i]).declared_name is None && !(fields[i].vis
            is Inherited)
}

/// The identifier of each capability, in the order listed.
pub open spec fn capabilities(iterations: Seq<CapabilityIteration>) -> Seq<Seq<char>> {
    Seq::new(iterations.len(), |i: int| iterations[i].capability@)
}

/// The names of the methods that every container has: the constructor, the
/// two low-level getters, the infallible and the fallible getters, and
/// insertion.
pub open spec fn operation_names() -> Seq<Seq<char>> {
    seq![
        "new"@,
        "get_const_ptr"@,
        "get_mut_ptr"@,
        "get_infallible"@,
        "get_infallible_mut"@,
        "get"@,
        "get_mut"@,
        "insert"@,
    ]
}

/// The name of the mutable variant of an iteration method.
pub open spec fn mutable_variant(method: Seq<char>) -> Seq<char> {
    method + "_mut"@
}

/// The names of the iteration methods: for each capability its method and the
/// mutable variant, in the order listed.
pub open spec fn iteration_methods(iterations: Seq<CapabilityIteration>) -> Seq<Seq<char>> {
    Seq::new(
        2 * iterations.len(),
        |k: int|
            if k % 2 == 0 {
                iterations[k / 2].method@
            } else {
                mutable_variant(iterations[k / 2].method@)
            },
    )
}

/// The names of all methods of the container.
pub open spec fn method_names(iterations: Seq<CapabilityIteration>) -> Seq<Seq<char>> {
    operation_names() + iteration_methods(iterations)
}

/// Whether the strings differ from one another.
pub fn all_distinct(names: &Vec<String>) -> (b: bool)
    ensures
        b == texts(names@).no_duplicates(),
{
    let mut i: usize = 0;
    while i < names.len()
        invariant
            i <= names.len(),
            forall|a: int, b: int| 0 <= a < i && a < b < names.len() ==> names[a]@ != names[b]@,
        decreases names.len() - i,
    {
        let mut j: usize = i + 1;
        while j < names.len()
            invariant
                i < j <= names.len(),
                forall|b: int| i < b < j ==> names[i as int]@ != names[b]@,
            decreases names.len() - j,
        {
            if names[i] == names[j] {
                assert(texts(names@)[i as int] == texts(names@)[j as int]);
                return false;
            }
            j = j + 1;
        }
        i = i + 1;
    }
    assert forall|a: int, b: int|
        0 <= a < texts(names@).len() && 0 <= b < texts(names@).len() && a != b implies texts(names@)[a]
        != texts(names@)[b] by {
        if a < b {
            assert(names[a]@ != names[b]@);
        } else {
            assert(names[b]@ != names[a]@);
        }
    }
    true
}

/// The operations that every container has are named differently, and this
/// is how long their names are.
pub proof fn lemma_operation_names_distinct()
    ensures
        operation_names().no_duplicates(),
        operation_names().len() == 8,
        operation_names()[0].len() == 3,
        operation_names()[1].len() == 13,
        operation_names()[2].len() == 11,
        operation_names()[3].len() == 14,
        operation_names()[4].len() == 18,
        operation_names()[5].len() == 3,
        operation_names()[6].len() == 7,
        operation_names()[7].len() == 6,
{
    reveal_strlit("new");
    reveal_strlit("get_const_ptr");
    reveal_strlit("get_mut_ptr");
    reveal_strlit("get_infallible");
    reveal_strlit("get_infallible_mut");
    reveal_strlit("get");
    reveal_strlit("get_mut");
    reveal_strlit("insert");
    let names = operation_names();
    assert(names[0].len() == 3 && names[1].len() == 13 && names[2].len() == 11 && names[3].len() == 14
        && names[4].len() == 18 && names[5].len() == 3 && names[6].len() == 7 && names[7].len() == 6);
    assert(names[0][0] != names[5][0]);
}

/// No operation that every container has is named `value`.
proof fn lemma_value_is_no_operation()
    ensures
        operation_names().len() == 8,
        !operation_names().contains("value"@),
{
    lemma_operation_names_distinct();
    reveal_strlit("value");
    assert("value"@.len() == 5);
}

impl<I> ContainerSchema<I> {
    /// What is wrong with the schema, if anything.
    pub open spec fn defect(&self) -> Option<SchemaError> {
        if unnamed_with_visibility(self.fields@) {
            Some(SchemaError::VisibilityOnUnnamed)
        } else if !key_types(self.fields@).no_duplicates() {
            Some(SchemaError::DuplicateType)
        } else if !declared_distinct(declared_names(self.fields@)) {
            Some(SchemaError::DuplicateName)
        } else if !capabilities(self.iterable_traits@).no_duplicates() {
            Some(SchemaError::DuplicateCapability)
        } else if !method_names(self.iterable_traits@).no_duplicates() || (self.dynamic
            && iteration_methods(self.iterable_traits@).contains("value"@)) {
            Some(SchemaError::MethodConflict)
        } else {
            None
        }
    }

    /// Whether some field without a declared name carries a visibility
    /// modifier.
    fn has_unnamed_with_visibility(&self) -> (b: bool)
        ensures
            b == unnamed_with_visibility(self.fields@),
    {
        let mut i: usize = 0;
        while i < self.fields.len()
            invariant
                i <= self.fields.len(),
                forall|k: int|
                    0 <= k < i ==> !((#[trigger] self.fields[k]).declared_name is None && !(
                    self.fields[k].vis is Inherited)),
            decreases self.fields.len() - i,
        {
            if self.fields[i].declared_name.is_none() && !self.fields[i].vis.is_inherited() {
                return true;
            }
            i = i + 1;
        }
        false
    }

    /// Whether no two fields declare the same type.
    fn has_distinct_types(&self) -> (b: bool)
        ensures
            b == key_types(self.fields@).no_duplicates(),
    {
        let ghost types = key_types(self.fields@);
        let mut i: usize = 0;
        while i < self.fields.len()
            invariant
                i <= self.fields.len(),
                types == key_types(self.fields@),
                forall|a: int, b: int| 0 <= a < i && a < b < types.len() ==> types[a] != types[b],
            decreases self.fields.len() - i,
        {
            let mut j: usize = i + 1;
            while j < self.fields.len()
                invariant
                    i < j <= self.fields.len(),
                    types == key_types(self.fields@),
                    forall|b: int| i < b < j ==> types[i as int] != types[b],
                decreases self.fields.len() - j,
            {
                if self.fields[i].key_type == self.fields[j].key_type {
                    assert(types[i as int] == types[j as int]);
                    return false;
                }
                j = j + 1;
            }
            i = i + 1;
        }
        assert forall|a: int, b: int|
            0 <= a < types.len() && 0 <= b < types.len() && a != b implies types[a] != types[b] by {
            if a < b {
                assert(types[a] != types[b]);
            } else {
                assert(types[b] != types[a]);
            }
        }
        true
    }

    /// Whether no two fields declare the same name.
    fn has_distinct_names(&self) -> (b: bool)
        ensures
            b == declared_distinct(declared_names(self.fields@)),
    {
        let ghost declared = declared_names(self.fields@);
        let mut i: usize = 0;
        while i < self.fields.len()
            invariant
                i <= self.fields.len(),
                declared == declared_names(self.fields@),
                forall|a: int, b: int|
                    0 <= a < i && a < b < declared.len() && declared[a] is Some ==> #[trigger] declared[a]
                        != #[trigger] declared[b],
            decreases self.fields.len() - i,
        {
            match &self.fields[i].declared_name {
                Some(name) => {
                    let mut j: usize = i + 1;
                    while j < self.fields.len()
                        invariant
                            i < j <= self.fields.len(),
                            declared == declared_names(self.fields@),
                            declared[i as int] == Some(name@),
                            forall|b: int| i < b < j ==> declared[i as int] != #[trigger] declared[b],
                        decreases self.fields.len() - j,
                    {
                        match &self.fields[j].declared_name {
                            Some(other) => {
                                if *name == *other {
                                    assert(declared[i as int] == declared[j as int]);
                                    return false;
                                }
                            },
                            None => {},
                        }
                        j = j + 1;
                    }
                },
                None => {},
            }
            i = i + 1;
        }
        true
    }

    /// The identifier of each capability, in the order listed.
    fn capability_texts(&self) -> (names: Vec<String>)
        ensures
            texts(names@) == capabilities(self.iterable_traits@),
    {
        let mut names: Vec<String> = Vec::new();
        let mut i: usize = 0;
        while i < self.iterable_traits.len()
            invariant
                i <= self.iterable_traits.len(),
                names.len() == i,
                forall|k: int| 0 <= k < i ==> names[k]@ == self.iterable_traits[k].capability@,
            decreases self.iterable_traits.len() - i,
        {
            names.push(self.iterable_traits[i].capability.clone());
            i = i + 1;
        }
        assert(texts(names@) =~= capabilities(self.iterable_traits@));
        names
    }

    /// The names of all methods of the container.
    fn method_texts(&self) -> (names: Vec<String>)
        ensures
            texts(names@) == method_names(self.iterable_traits@),
    {
        let mut names: Vec<String> = Vec::new();
        names.push(String::from_str("new"));
        names.push(String::from_str("get_const_ptr"));
        names.push(String::from_str("get_mut_ptr"));
        names.push(String::from_str("get_infallible"));
        names.push(String::from_str("get_infallible_mut"));
        names.push(String::from_str("get"));
        names.push(String::from_str("get_mut"));
        names.push(String::from_str("insert"));
        assert(texts(names@) =~= operation_names());
        let mut i: usize = 0;
        while i < self.iterable_traits.len()
            invariant
                i <= self.iterable_traits.len(),
                names.len() == 8 + 2 * i,
                operation_names().len() == 8,
                forall|k: int| 0 <= k < 8 ==> names[k]@ == operation_names()[k],
                forall|k: int|
                    0 <= k < 2 * i ==> names[8 + k]@ == iteration_methods(self.iterable_traits@)[k],
            decreases self.iterable_traits.len() - i,
        {
            let method = self.iterable_traits[i].method.clone();
            let mut variant = method.clone();
            variant.append("_mut");
            names.push(method);
            names.push(variant);
            i = i + 1;
        }
        assert(texts(names@) =~= method_names(self.iterable_traits@));
        names
    }

    /// Checks the schema, and reports the first thing that is wrong with it.
    pub fn check(&self) -> (r: Result<(), SchemaError>)
        ensures
            r == match self.defect() {
                Some(e) => Err::<(), SchemaError>(e),
                None => Ok::<(), SchemaError>(()),
            },
    {
        if self.has_unnamed_with_visibility() {
            return Err(SchemaError::VisibilityOnUnnamed);
        }
        if !self.has_distinct_types() {
            return Err(SchemaError::DuplicateType);
        }
        if !self.has_distinct_names() {
            return Err(SchemaError::DuplicateName);
        }
        let capability_names = self.capability_texts();
        if !all_distinct(&capability_names) {
            return Err(SchemaError::DuplicateCapability);
        }
        let methods = self.method_texts();
        if !all_distinct(&methods) {
            return Err(SchemaError::MethodConflict);
        }
        if self.dynamic {
            let value = String::from_str("value");
            let found = position_of(&methods, &value);
            proof {
                lemma_value_is_no_operation();
                let all = method_names(self.iterable_traits@);
                let own = iteration_methods(self.iterable_traits@);
                if own.contains("value"@) {
                    let k = choose|k: int| 0 <= k < own.len() && own[k] == "value"@;
                    assert(all[8 + k] == "value"@);
                }
                if all.contains("value"@) {
                    let k = choose|k: int| 0 <= k < all.len() && all[k] == "value"@;
                    assert(k >= 8);
                    assert(own[k - 8] == "value"@);
                }
                if found is Some {
                    assert(texts(methods@)[found.unwrap() as int] == "value"@);
                }
            }
            if found.is_some() {
                return Err(SchemaError::MethodConflict);
            }
        }
        Ok(())
    }
}

} // verus!
