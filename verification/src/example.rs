//! Worked examples: three containers, the types they store, and a capability
//! to iterate by.

use crate::names::{numbered, numbered_text};
use crate::schema::{
    capabilities, declared_distinct, declared_names, iteration_methods, key_types, method_names,
    operation_names, unnamed_with_visibility, CapabilityIteration, ContainerSchema, FieldSpec,
    Visibility,
};
use crate::model::Erased;
use crate::typed::Stored;
use crate::typemap::TypeMap;
use crate::TypeToken;
use vstd::hash_map::StringHashMap;
use vstd::prelude::*;
use vstd::string::StringExecFns;

verus! {

/// Contains a time as u64 seconds.
#[derive(Default, Debug, Eq, PartialEq)]
pub struct Time(pub u64);

/// Contains a path on the filesystem.
#[derive(Default, Debug)]
pub struct Filesystem {
    pub path: &'static str,
}

/// A map of metrics, from the name of each to its count.
pub struct Metrics(pub StringHashMap<u64>);

/// The metrics that the example containers start with: five successes and ten
/// failures.
pub open spec fn initial_metrics() -> Map<Seq<char>, u64> {
    Map::<Seq<char>, u64>::empty().insert("successes"@, 5u64).insert("failures"@, 10u64)
}

/// Builds the metrics that the example containers start with.
pub fn build_initial_metrics() -> (metrics: Metrics)
    ensures
        metrics.0@ == initial_metrics(),
{
    let mut h: StringHashMap<u64> = StringHashMap::new();
    h.insert(String::from_str("successes"), 5);
    h.insert(String::from_str("failures"), 10);
    Metrics(h)
}

/// The type identity of `String`.
pub const NAME: TypeToken = 1;

/// The type identity of [`Time`].
pub const TIME: TypeToken = 2;

/// The type identity of [`Filesystem`].
pub const FILESYSTEM: TypeToken = 3;

/// The type identity of [`Metrics`].
pub const METRICS: TypeToken = 4;

/// The type identity of `u64`.
pub const NUMBER: TypeToken = 5;

/// A value of one of the types that the example containers store, with its
/// type erased.
pub enum ExampleValue {
    Name(String),
    Time(Time),
    Filesystem(Filesystem),
    Metrics(Metrics),
    Number(u64),
}

impl Erased for ExampleValue {
    open spec fn type_of(&self) -> TypeToken {
        match self {
            ExampleValue::Name(_) => NAME,
            ExampleValue::Time(_) => TIME,
            ExampleValue::Filesystem(_) => FILESYSTEM,
            ExampleValue::Metrics(_) => METRICS,
            ExampleValue::Number(_) => NUMBER,
        }
    }

    fn type_token(&self) -> (t: TypeToken) {
        match self {
            ExampleValue::Name(_) => NAME,
            ExampleValue::Time(_) => TIME,
            ExampleValue::Filesystem(_) => FILESYSTEM,
            ExampleValue::Metrics(_) => METRICS,
            ExampleValue::Number(_) => NUMBER,
        }
    }
}

impl Stored<ExampleValue> for String {
    open spec fn token() -> TypeToken {
        NAME
    }

    open spec fn erased(self) -> ExampleValue {
        ExampleValue::Name(self)
    }

    open spec fn recovered(v: ExampleValue) -> Option<String> {
        match v {
            ExampleValue::Name(k) => Some(k),
            _ => None,
        }
    }

    proof fn lemma_erasure(k: String) {
    }

    proof fn lemma_recovery(v: ExampleValue) {
    }

    proof fn lemma_typed(v: ExampleValue) {
    }

    fn type_token() -> (t: TypeToken) {
        NAME
    }

    fn erase(self) -> (v: ExampleValue) {
        ExampleValue::Name(self)
    }

    fn downcast_ref(v: &ExampleValue) -> (r: Option<&String>) {
        match v {
            ExampleValue::Name(k) => Some(k),
            _ => None,
        }
    }

    fn downcast_mut(v: &mut ExampleValue) -> (r: Option<&mut String>) {
        match v {
            ExampleValue::Name(k) => Some(k),
            _ => None,
        }
    }

    fn downcast(v: ExampleValue) -> (r: Result<String, ExampleValue>) {
        match v {
            ExampleValue::Name(k) => Ok(k),
            other => Err(other),
        }
    }
}

impl Stored<ExampleValue> for Time {
    open spec fn token() -> TypeToken {
        TIME
    }

    open spec fn erased(self) -> ExampleValue {
        ExampleValue::Time(self)
    }

    open spec fn recovered(v: ExampleValue) -> Option<Time> {
        match v {
            ExampleValue::Time(k) => Some(k),
            _ => None,
        }
    }

    proof fn lemma_erasure(k: Time) {
    }

    proof fn lemma_recovery(v: ExampleValue) {
    }

    proof fn lemma_typed(v: ExampleValue) {
    }

    fn type_token() -> (t: TypeToken) {
        TIME
    }

    fn erase(self) -> (v: ExampleValue) {
        ExampleValue::Time(self)
    }

    fn downcast_ref(v: &ExampleValue) -> (r: Option<&Time>) {
        match v {
            ExampleValue::Time(k) => Some(k),
            _ => None,
        }
    }

    fn downcast_mut(v: &mut ExampleValue) -> (r: Option<&mut Time>) {
        match v {
            ExampleValue::Time(k) => Some(k),
            _ => None,
        }
    }

    fn downcast(v: ExampleValue) -> (r: Result<Time, ExampleValue>) {
        match v {
            ExampleValue::Time(k) => Ok(k),
            other => Err(other),
        }
    }
}

impl Stored<ExampleValue> for Filesystem {
    open spec fn token() -> TypeToken {
        FILESYSTEM
    }

    open spec fn erased(self) -> ExampleValue {
        ExampleValue::Filesystem(self)
    }

    open spec fn recovered(v: ExampleValue) -> Option<Filesystem> {
        match v {
            ExampleValue::Filesystem(k) => Some(k),
            _ => None,
        }
    }

    proof fn lemma_erasure(k: Filesystem) {
    }

    proof fn lemma_recovery(v: ExampleValue) {
    }

    proof fn lemma_typed(v: ExampleValue) {
    }

    fn type_token() -> (t: TypeToken) {
        FILESYSTEM
    }

    fn erase(self) -> (v: ExampleValue) {
        ExampleValue::Filesystem(self)
    }

    fn downcast_ref(v: &ExampleValue) -> (r: Option<&Filesystem>) {
        match v {
            ExampleValue::Filesystem(k) => Some(k),
            _ => None,
        }
    }

    fn downcast_mut(v: &mut ExampleValue) -> (r: Option<&mut Filesystem>) {
        match v {
            ExampleValue::Filesystem(k) => Some(k),
            _ => None,
        }
    }

    fn downcast(v: ExampleValue) -> (r: Result<Filesystem, ExampleValue>) {
        match v {
            ExampleValue::Filesystem(k) => Ok(k),
            other => Err(other),
        }
    }
}

impl Stored<ExampleValue> for Metrics {
    open spec fn token() -> TypeToken {
        METRICS
    }

    open spec fn erased(self) -> ExampleValue {
        ExampleValue::Metrics(self)
    }

    open spec fn recovered(v: ExampleValue) -> Option<Metrics> {
        match v {
            ExampleValue::Metrics(k) => Some(k),
            _ => None,
        }
    }

    proof fn lemma_erasure(k: Metrics) {
    }

    proof fn lemma_recovery(v: ExampleValue) {
    }

    proof fn lemma_typed(v: ExampleValue) {
    }

    fn type_token() -> (t: TypeToken) {
        METRICS
    }

    fn erase(self) -> (v: ExampleValue) {
        ExampleValue::Metrics(self)
    }

    fn downcast_ref(v: &ExampleValue) -> (r: Option<&Metrics>) {
        match v {
            ExampleValue::Metrics(k) => Some(k),
            _ => None,
        }
    }

    fn downcast_mut(v: &mut ExampleValue) -> (r: Option<&mut Metrics>) {
        match v {
            ExampleValue::Metrics(k) => Some(k),
            _ => None,
        }
    }

    fn downcast(v: ExampleValue) -> (r: Result<Metrics, ExampleValue>) {
        match v {
            ExampleValue::Metrics(k) => Ok(k),
            other => Err(other),
        }
    }
}

impl Stored<ExampleValue> for u64 {
    open spec fn token() -> TypeToken {
        NUMBER
    }

    open spec fn erased(self) -> ExampleValue {
        ExampleValue::Number(self)
    }

    open spec fn recovered(v: ExampleValue) -> Option<u64> {
        match v {
            ExampleValue::Number(k) => Some(k),
            _ => None,
        }
    }

    proof fn lemma_erasure(k: u64) {
    }

    proof fn lemma_recovery(v: ExampleValue) {
    }

    proof fn lemma_typed(v: ExampleValue) {
    }

    fn type_token() -> (t: TypeToken) {
        NUMBER
    }

    fn erase(self) -> (v: ExampleValue) {
        ExampleValue::Number(self)
    }

    fn downcast_ref(v: &ExampleValue) -> (r: Option<&u64>) {
        match v {
            ExampleValue::Number(k) => Some(k),
            _ => None,
        }
    }

    fn downcast_mut(v: &mut ExampleValue) -> (r: Option<&mut u64>) {
        match v {
            ExampleValue::Number(k) => Some(k),
            _ => None,
        }
    }

    fn downcast(v: ExampleValue) -> (r: Result<u64, ExampleValue>) {
        match v {
            ExampleValue::Number(k) => Ok(k),
            other => Err(other),
        }
    }
}

/// The schema of the example containers: a public field `name` for a
/// `String`, and unnamed fields for [`Time`], [`Filesystem`] and [`Metrics`],
/// the last one starting with the initial metrics.
pub fn example_schema(dynamic: bool) -> (schema: ContainerSchema<ExampleValue>)
    ensures
        schema.dynamic == dynamic,
        schema.defect() is None,
        key_types(schema.fields@) == seq![NAME, TIME, FILESYSTEM, METRICS],
        schema.fields.len() == 4,
        schema.fields[0].initializer matches ExampleValue::Name(name) && name@.len() == 0,
        schema.fields[1].initializer == ExampleValue::Time(Time(0)),
        schema.fields[2].initializer == ExampleValue::Filesystem(Filesystem { path: "" }),
        schema.fields[3].initializer matches ExampleValue::Metrics(metrics) && metrics.0@
            == initial_metrics(),
{
    let mut fields: Vec<FieldSpec<ExampleValue>> = Vec::new();
    fields.push(
        FieldSpec {
            declared_name: Some(String::from_str("name")),
            key_type: NAME,
            initializer: ExampleValue::Name(String::new()),
            attrs: Vec::new(),
            vis: Visibility::Public,
        },
    );
    fields.push(
        FieldSpec {
            declared_name: None,
            key_type: TIME,
            initializer: ExampleValue::Time(Time(0)),
            attrs: Vec::new(),
            vis: Visibility::Inherited,
        },
    );
    fields.push(
        FieldSpec {
            declared_name: None,
            key_type: FILESYSTEM,
            initializer: ExampleValue::Filesystem(Filesystem { path: "" }),
            attrs: Vec::new(),
            vis: Visibility::Inherited,
        },
    );
    fields.push(
        FieldSpec {
            declared_name: None,
            key_type: METRICS,
            initializer: ExampleValue::Metrics(build_initial_metrics()),
            attrs: Vec::new(),
            vis: Visibility::Inherited,
        },
    );
    let name = if dynamic {
        String::from_str("ExampleMapDynamic")
    } else {
        String::from_str("ExampleMapFixed")
    };
    let schema = ContainerSchema {
        name,
        vis: Visibility::Public,
        attrs: Vec::new(),
        fields,
        dynamic,
        iterable_traits: Vec::new(),
    };
    proof {
        assert(key_types(schema.fields@) =~= seq![NAME, TIME, FILESYSTEM, METRICS]);
        assert(capabilities(schema.iterable_traits@) =~= Seq::empty());
        crate::schema::lemma_operation_names_distinct();
        assert(method_names(schema.iterable_traits@) =~= operation_names());
        assert(!unnamed_with_visibility(schema.fields@));
        assert(declared_distinct(declared_names(schema.fields@)));
    }
    schema
}

/// One of the two example containers of [`ExampleValue`]: without an open
/// extension, or with one.
pub fn example_map(dynamic: bool) -> (map: TypeMap<ExampleValue>)
    ensures
        map.wf(),
        map@.fixed == seq![NAME, TIME, FILESYSTEM, METRICS],
        map@.extensible == dynamic,
        map@.entries.dom() == set![NAME, TIME, FILESYSTEM, METRICS],
        map@.entries[NAME] matches ExampleValue::Name(name) && name@.len() == 0,
        map@.entries[TIME] == ExampleValue::Time(Time(0)),
        map@.entries[FILESYSTEM] == ExampleValue::Filesystem(Filesystem { path: "" }),
        map@.entries[METRICS] matches ExampleValue::Metrics(metrics) && metrics.0@ == initial_metrics(),
        map@.get_as::<String>() is Some,
        map@.get_as::<Time>() == Some(Time(0)),
        map@.get_as::<Filesystem>() == Some(Filesystem { path: "" }),
        map@.get_as::<Metrics>() is Some,
        map@.get_as::<u64>() is None,
{
    let schema = example_schema(dynamic);
    let ghost types = key_types(schema.fields@);
    match TypeMap::build(schema) {
        Ok(map) => {
            proof {
                assert(types[0] == NAME && types[1] == TIME && types[2] == FILESYSTEM && types[3] == METRICS);
                assert(types.contains(NAME) && types.contains(TIME) && types.contains(FILESYSTEM)
                    && types.contains(METRICS));
                assert(types.index_of(NAME) == 0 && types.index_of(TIME) == 1 && types.index_of(FILESYSTEM)
                    == 2 && types.index_of(METRICS) == 3);
                assert(map@.entries.dom() =~= set![NAME, TIME, FILESYSTEM, METRICS]);
            }
            map
        },
        Err(_) => vstd::pervasive::unreached(),
    }
}

/// For demonstration purposes, a capability: things that contain an integral
/// id.
pub trait IntegralId {
    /// The id.
    spec fn id(&self) -> u64;

    /// Reads the id.
    fn get_id(&self) -> (id: u64)
        ensures
            id == self.id(),
    ;

    /// Sets the id.
    fn set_id(&mut self, id: u64)
        ensures
            final(self).id() == id,
    ;
}

/// The first kind of id container.
#[derive(Default, Debug, Eq, PartialEq)]
pub struct IdContainer1(pub u64);

/// The second kind of id container.
#[derive(Default, Debug, Eq, PartialEq)]
pub struct IdContainer2(pub u64);

/// The third kind of id container.
#[derive(Default, Debug, Eq, PartialEq)]
pub struct IdContainer3(pub u64);

/// The fourth kind of id container.
#[derive(Default, Debug, Eq, PartialEq)]
pub struct IdContainer4(pub u64);

impl IntegralId for IdContainer1 {
    open spec fn id(&self) -> u64 {
        self.0
    }

    fn get_id(&self) -> (id: u64) {
        self.0
    }

    fn set_id(&mut self, id: u64) {
        self.0 = id
    }
}

impl IntegralId for IdContainer2 {
    open spec fn id(&self) -> u64 {
        self.0
    }

    fn get_id(&self) -> (id: u64) {
        self.0
    }

    fn set_id(&mut self, id: u64) {
        self.0 = id
    }
}

impl IntegralId for IdContainer3 {
    open spec fn id(&self) -> u64 {
        self.0
    }

    fn get_id(&self) -> (id: u64) {
        self.0
    }

    fn set_id(&mut self, id: u64) {
        self.0 = id
    }
}

impl IntegralId for IdContainer4 {
    open spec fn id(&self) -> u64 {
        self.0
    }

    fn get_id(&self) -> (id: u64) {
        self.0
    }

    fn set_id(&mut self, id: u64) {
        self.0 = id
    }
}

/// The type identity of [`IdContainer1`].
pub const ID1: TypeToken = 11;

/// The type identity of [`IdContainer2`].
pub const ID2: TypeToken = 12;

/// The type identity of [`IdContainer3`].
pub const ID3: TypeToken = 13;

/// The type identity of [`IdContainer4`].
pub const ID4: TypeToken = 14;

/// An id container of one of the four kinds, with its type erased. It can be
/// viewed through both capabilities of the iteration example: as something
/// with an integral id, and as something to display.
#[derive(Debug, Eq, PartialEq)]
pub enum IdValue {
    First(IdContainer1),
    Second(IdContainer2),
    Third(IdContainer3),
    Fourth(IdContainer4),
}

impl Erased for IdValue {
    open spec fn type_of(&self) -> TypeToken {
        match self {
            IdValue::First(_) => ID1,
            IdValue::Second(_) => ID2,
            IdValue::Third(_) => ID3,
            IdValue::Fourth(_) => ID4,
        }
    }

    fn type_token(&self) -> (t: TypeToken) {
        match self {
            IdValue::First(_) => ID1,
            IdValue::Second(_) => ID2,
            IdValue::Third(_) => ID3,
            IdValue::Fourth(_) => ID4,
        }
    }
}

impl IdValue {
    /// What the value is displayed as: the kind of its container, then its id.
    pub open spec fn displayed(&self) -> Seq<char> {
        match self {
            IdValue::First(c) => numbered("id1="@, c.0 as nat),
            IdValue::Second(c) => numbered("id2="@, c.0 as nat),
            IdValue::Third(c) => numbered("id3="@, c.0 as nat),
            IdValue::Fourth(c) => numbered("id4="@, c.0 as nat),
        }
    }

    /// Displays the value: `id1=7` for a container of the first kind with the
    /// id 7.
    pub fn display(&self) -> (text: String)
        ensures
            text@ == self.displayed(),
    {
        match self {
            IdValue::First(c) => numbered_text("id1=", c.0 as u128),
            IdValue::Second(c) => numbered_text("id2=", c.0 as u128),
            IdValue::Third(c) => numbered_text("id3=", c.0 as u128),
            IdValue::Fourth(c) => numbered_text("id4=", c.0 as u128),
        }
    }
}

impl Stored<IdValue> for IdContainer1 {
    open spec fn token() -> TypeToken {
        ID1
    }

    open spec fn erased(self) -> IdValue {
        IdValue::First(self)
    }

    open spec fn recovered(v: IdValue) -> Option<IdContainer1> {
        match v {
            IdValue::First(k) => Some(k),
            _ => None,
        }
    }

    proof fn lemma_erasure(k: IdContainer1) {
    }

    proof fn lemma_recovery(v: IdValue) {
    }

    proof fn lemma_typed(v: IdValue) {
    }

    fn type_token() -> (t: TypeToken) {
        ID1
    }

    fn erase(self) -> (v: IdValue) {
        IdValue::First(self)
    }

    fn downcast_ref(v: &IdValue) -> (r: Option<&IdContainer1>) {
        match v {
            IdValue::First(k) => Some(k),
            _ => None,
        }
    }

    fn downcast_mut(v: &mut IdValue) -> (r: Option<&mut IdContainer1>) {
        match v {
            IdValue::First(k) => Some(k),
            _ => None,
        }
    }

    fn downcast(v: IdValue) -> (r: Result<IdContainer1, IdValue>) {
        match v {
            IdValue::First(k) => Ok(k),
            other => Err(other),
        }
    }
}

impl Stored<IdValue> for IdContainer2 {
    open spec fn token() -> TypeToken {
        ID2
    }

    open spec fn erased(self) -> IdValue {
        IdValue::Second(self)
    }

    open spec fn recovered(v: IdValue) -> Option<IdContainer2> {
        match v {
            IdValue::Second(k) => Some(k),
            _ => None,
        }
    }

    proof fn lemma_erasure(k: IdContainer2) {
    }

    proof fn lemma_recovery(v: IdValue) {
    }

    proof fn lemma_typed(v: IdValue) {
    }

    fn type_token() -> (t: TypeToken) {
        ID2
    }

    fn erase(self) -> (v: IdValue) {
        IdValue::Second(self)
    }

    fn downcast_ref(v: &IdValue) -> (r: Option<&IdContainer2>) {
        match v {
            IdValue::Second(k) => Some(k),
            _ => None,
        }
    }

    fn downcast_mut(v: &mut IdValue) -> (r: Option<&mut IdContainer2>) {
        match v {
            IdValue::Second(k) => Some(k),
            _ => None,
        }
    }

    fn downcast(v: IdValue) -> (r: Result<IdContainer2, IdValue>) {
        match v {
            IdValue::Second(k) => Ok(k),
            other => Err(other),
        }
    }
}

impl Stored<IdValue> for IdContainer3 {
    open spec fn token() -> TypeToken {
        ID3
    }

    open spec fn erased(self) -> IdValue {
        IdValue::Third(self)
    }

    open spec fn recovered(v: IdValue) -> Option<IdContainer3> {
        match v {
            IdValue::Third(k) => Some(k),
            _ => None,
        }
    }

    proof fn lemma_erasure(k: IdContainer3) {
    }

    proof fn lemma_recovery(v: IdValue) {
    }

    proof fn lemma_typed(v: IdValue) {
    }

    fn type_token() -> (t: TypeToken) {
        ID3
    }

    fn erase(self) -> (v: IdValue) {
        IdValue::Third(self)
    }

    fn downcast_ref(v: &IdValue) -> (r: Option<&IdContainer3>) {
        match v {
            IdValue::Third(k) => Some(k),
            _ => None,
        }
    }

    fn downcast_mut(v: &mut IdValue) -> (r: Option<&mut IdContainer3>) {
        match v {
            IdValue::Third(k) => Some(k),
            _ => None,
        }
    }

    fn downcast(v: IdValue) -> (r: Result<IdContainer3, IdValue>) {
        match v {
            IdValue::Third(k) => Ok(k),
            other => Err(other),
        }
    }
}

impl Stored<IdValue> for IdContainer4 {
    open spec fn token() -> TypeToken {
        ID4
    }

    open spec fn erased(self) -> IdValue {
        IdValue::Fourth(self)
    }

    open spec fn recovered(v: IdValue) -> Option<IdContainer4> {
        match v {
            IdValue::Fourth(k) => Some(k),
            _ => None,
        }
    }

    proof fn lemma_erasure(k: IdContainer4) {
    }

    proof fn lemma_recovery(v: IdValue) {
    }

    proof fn lemma_typed(v: IdValue) {
    }

    fn type_token() -> (t: TypeToken) {
        ID4
    }

    fn erase(self) -> (v: IdValue) {
        IdValue::Fourth(self)
    }

    fn downcast_ref(v: &IdValue) -> (r: Option<&IdContainer4>) {
        match v {
            IdValue::Fourth(k) => Some(k),
            _ => None,
        }
    }

    fn downcast_mut(v: &mut IdValue) -> (r: Option<&mut IdContainer4>) {
        match v {
            IdValue::Fourth(k) => Some(k),
            _ => None,
        }
    }

    fn downcast(v: IdValue) -> (r: Result<IdContainer4, IdValue>) {
        match v {
            IdValue::Fourth(k) => Ok(k),
            other => Err(other),
        }
    }
}

impl IntegralId for IdValue {
    open spec fn id(&self) -> u64 {
        match self {
            IdValue::First(c) => c.0,
            IdValue::Second(c) => c.0,
            IdValue::Third(c) => c.0,
            IdValue::Fourth(c) => c.0,
        }
    }

    fn get_id(&self) -> (id: u64) {
        match self {
            IdValue::First(c) => c.get_id(),
            IdValue::Second(c) => c.get_id(),
            IdValue::Third(c) => c.get_id(),
            IdValue::Fourth(c) => c.get_id(),
        }
    }

    fn set_id(&mut self, id: u64)
        ensures
            final(self).type_of() == old(self).type_of(),
    {
        match self {
            IdValue::First(c) => c.set_id(id),
            IdValue::Second(c) => c.set_id(id),
            IdValue::Third(c) => c.set_id(id),
            IdValue::Fourth(c) => c.set_id(id),
        }
    }
}

/// The schema of the iteration example: unnamed fields for [`IdContainer1`]
/// and [`IdContainer2`], an open extension, and iteration by two
/// capabilities.
pub fn iteration_example_schema() -> (schema: ContainerSchema<IdValue>)
    ensures
        schema.dynamic,
        schema.defect() is None,
        key_types(schema.fields@) == seq![ID1, ID2],
        schema.fields.len() == 2,
        schema.fields[0].initializer == IdValue::First(IdContainer1(0)),
        schema.fields[1].initializer == IdValue::Second(IdContainer2(0)),
{
    let mut fields: Vec<FieldSpec<IdValue>> = Vec::new();
    fields.push(
        FieldSpec {
            declared_name: None,
            key_type: ID1,
            initializer: IdValue::First(IdContainer1(0)),
            attrs: Vec::new(),
            vis: Visibility::Inherited,
        },
    );
    fields.push(
        FieldSpec {
            declared_name: None,
            key_type: ID2,
            initializer: IdValue::Second(IdContainer2(0)),
            attrs: Vec::new(),
            vis: Visibility::Inherited,
        },
    );
    let mut iterable_traits: Vec<CapabilityIteration> = Vec::new();
    iterable_traits.push(
        CapabilityIteration {
            capability: String::from_str("std::fmt::Display"),
            method: String::from_str("iter_display"),
        },
    );
    iterable_traits.push(
        CapabilityIteration {
            capability: String::from_str("IntegralId"),
            method: String::from_str("iter_integral_id"),
        },
    );
    let schema = ContainerSchema {
        name: String::from_str("IterationExampleMap"),
        vis: Visibility::Public,
        attrs: Vec::new(),
        fields,
        dynamic: true,
        iterable_traits,
    };
    proof {
        assert(key_types(schema.fields@) =~= seq![ID1, ID2]);
        assert(!unnamed_with_visibility(schema.fields@));
        assert(declared_distinct(declared_names(schema.fields@)));
        reveal_strlit("std::fmt::Display");
        reveal_strlit("IntegralId");
        let caps = capabilities(schema.iterable_traits@);
        assert(caps[0].len() != caps[1].len());
        lemma_iteration_example_methods(schema.iterable_traits@);
    }
    schema
}

/// The methods of the iteration example are named differently.
proof fn lemma_iteration_example_methods(iterations: Seq<CapabilityIteration>)
    requires
        iterations.len() == 2,
        iterations[0].method@ == "iter_display"@,
        iterations[1].method@ == "iter_integral_id"@,
    ensures
        method_names(iterations).no_duplicates(),
        !iteration_methods(iterations).contains("value"@),
{
    crate::schema::lemma_operation_names_distinct();
    reveal_strlit("value");
    reveal_strlit("iter_display");
    reveal_strlit("iter_integral_id");
    reveal_strlit("_mut");
    let names = method_names(iterations);
    let methods = iteration_methods(iterations);
    assert(names.len() == 12);
    assert(names[8] == methods[0] && names[9] == methods[1] && names[10] == methods[2] && names[11]
        == methods[3]);
    let operations = operation_names();
    assert(names[0] == operations[0] && names[1] == operations[1] && names[2] == operations[2]
        && names[3] == operations[3] && names[4] == operations[4] && names[5] == operations[5]
        && names[6] == operations[6] && names[7] == operations[7]);
    assert(names[8].len() == 12 && names[9].len() == 16 && names[10].len() == 16 && names[11].len()
        == 20);
    assert(names[0] != names[5]);
    assert(names[9][5] == 'd' && names[10][5] == 'i');
    assert("value"@.len() == 5);
    assert(methods.len() == 4);
}

/// The container of the iteration example: fixed slots for the first two
/// kinds of id container, each with the id 0, and an open extension.
pub fn iteration_example_map() -> (map: TypeMap<IdValue>)
    ensures
        map.wf(),
        map@.fixed == seq![ID1, ID2],
        map@.extensible,
        map@.entries.dom() == set![ID1, ID2],
        map@.entries[ID1] == IdValue::First(IdContainer1(0)),
        map@.entries[ID2] == IdValue::Second(IdContainer2(0)),
        map@.get_as::<IdContainer1>() == Some(IdContainer1(0)),
        map@.get_as::<IdContainer2>() == Some(IdContainer2(0)),
        map@.get_as::<IdContainer3>() is None,
        map@.get_as::<IdContainer4>() is None,
{
    let schema = iteration_example_schema();
    let ghost types = key_types(schema.fields@);
    match TypeMap::build(schema) {
        Ok(map) => {
            proof {
                assert(types[0] == ID1 && types[1] == ID2);
                assert(types.contains(ID1) && types.contains(ID2));
                assert(types.index_of(ID1) == 0 && types.index_of(ID2) == 1);
                assert(map@.entries.dom() =~= set![ID1, ID2]);
            }
            map
        },
        Err(_) => vstd::pervasive::unreached(),
    }
}

} // verus!
