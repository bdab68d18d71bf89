use fixed_typemap::layout::{generate, plan};
use fixed_typemap::names::ensure_names;
use fixed_typemap::schema::{
    all_distinct, identify, is_forwarded, CapabilityIteration, ContainerSchema, FieldSpec,
    SchemaError, Visibility,
};

fn field(name: Option<&str>, key_type: u64, vis: Visibility) -> FieldSpec<&'static str> {
    FieldSpec {
        declared_name: name.map(|n| n.to_string()),
        key_type,
        initializer: "Default::default()",
        attrs: Vec::new(),
        vis,
    }
}

fn capability(capability: &str, method: &str) -> CapabilityIteration {
    CapabilityIteration {
        capability: capability.to_string(),
        method: method.to_string(),
    }
}

fn schema(
    fields: Vec<FieldSpec<&'static str>>,
    dynamic: bool,
    iterable_traits: Vec<CapabilityIteration>,
) -> ContainerSchema<&'static str> {
    ContainerSchema {
        name: "PluginMap".to_string(),
        vis: Visibility::Public,
        attrs: vec!["#[derive(Debug)]".to_string()],
        fields,
        dynamic,
        iterable_traits,
    }
}

fn plugin_fields() -> Vec<FieldSpec<&'static str>> {
    vec![
        field(Some("graphics"), 1, Visibility::Public),
        field(None, 2, Visibility::Inherited),
        FieldSpec {
            declared_name: None,
            key_type: 3,
            initializer: "NetworkingPlugin(100)",
            attrs: vec!["#[doc = \"networking\"]".to_string()],
            vis: Visibility::Inherited,
        },
    ]
}

#[test]
fn a_sound_schema_passes() {
    let s = schema(plugin_fields(), true, vec![capability("Plugin", "iter_plugins")]);
    assert_eq!(s.check(), Ok(()));
    let empty = schema(Vec::new(), false, Vec::new());
    assert_eq!(empty.check(), Ok(()));
}

#[test]
fn visibility_on_an_unnamed_field_is_refused() {
    let s = schema(
        vec![
            field(Some("a"), 1, Visibility::Public),
            field(None, 2, Visibility::Public),
        ],
        false,
        Vec::new(),
    );
    assert_eq!(s.check(), Err(SchemaError::VisibilityOnUnnamed));
    let restricted = schema(
        vec![field(None, 2, Visibility::Restricted("super".to_string()))],
        false,
        Vec::new(),
    );
    assert_eq!(restricted.check(), Err(SchemaError::VisibilityOnUnnamed));
    let krate = schema(vec![field(None, 2, Visibility::Crate)], false, Vec::new());
    assert_eq!(krate.check(), Err(SchemaError::VisibilityOnUnnamed));
}

#[test]
fn a_type_declared_twice_is_refused() {
    let s = schema(
        vec![
            field(Some("a"), 7, Visibility::Inherited),
            field(None, 8, Visibility::Inherited),
            field(Some("b"), 7, Visibility::Inherited),
        ],
        true,
        Vec::new(),
    );
    assert_eq!(s.check(), Err(SchemaError::DuplicateType));
    assert_eq!(generate(s).err(), Some(SchemaError::DuplicateType));
}

#[test]
fn a_name_declared_twice_is_refused() {
    let s = schema(
        vec![
            field(Some("a"), 1, Visibility::Inherited),
            field(None, 2, Visibility::Inherited),
            field(Some("a"), 3, Visibility::Inherited),
        ],
        true,
        Vec::new(),
    );
    assert_eq!(s.check(), Err(SchemaError::DuplicateName));
}

#[test]
fn a_capability_listed_twice_is_refused() {
    let s = schema(
        plugin_fields(),
        true,
        vec![
            capability("Plugin", "iter_plugins"),
            capability("Plugin", "iter_more"),
        ],
    );
    assert_eq!(s.check(), Err(SchemaError::DuplicateCapability));
}

#[test]
fn methods_of_the_same_name_are_refused() {
    let same_base = schema(
        plugin_fields(),
        true,
        vec![capability("A", "iter_x"), capability("B", "iter_x")],
    );
    assert_eq!(same_base.check(), Err(SchemaError::MethodConflict));
    let variant = schema(
        plugin_fields(),
        true,
        vec![capability("A", "iter_x"), capability("B", "iter_x_mut")],
    );
    assert_eq!(variant.check(), Err(SchemaError::MethodConflict));
    let operation = schema(plugin_fields(), true, vec![capability("A", "insert")]);
    assert_eq!(operation.check(), Err(SchemaError::MethodConflict));
    let getter = schema(plugin_fields(), true, vec![capability("A", "get")]);
    assert_eq!(getter.check(), Err(SchemaError::MethodConflict));
    let low_level = schema(plugin_fields(), true, vec![capability("A", "get_const_ptr")]);
    assert_eq!(low_level.check(), Err(SchemaError::MethodConflict));
    let written = schema(plugin_fields(), true, vec![capability("A", "get_mut_ptr")]);
    assert_eq!(written.check(), Err(SchemaError::MethodConflict));
    let variant_of_getter = schema(plugin_fields(), true, vec![capability("A", "get")]);
    assert_eq!(variant_of_getter.check(), Err(SchemaError::MethodConflict));
    let fine = schema(plugin_fields(), true, vec![capability("A", "gets")]);
    assert_eq!(fine.check(), Ok(()));
    // In a container with an open extension the adapters stand beside the cell's value.
    let beside = schema(plugin_fields(), true, vec![capability("A", "value")]);
    assert_eq!(beside.check(), Err(SchemaError::MethodConflict));
    let alone = schema(plugin_fields(), false, vec![capability("A", "value")]);
    assert_eq!(alone.check(), Ok(()));
}

#[test]
fn the_first_defect_is_the_one_reported() {
    let s = schema(
        vec![
            field(Some("a"), 1, Visibility::Inherited),
            field(Some("a"), 1, Visibility::Inherited),
            field(None, 1, Visibility::Public),
        ],
        true,
        vec![capability("A", "get"), capability("A", "get")],
    );
    assert_eq!(s.check(), Err(SchemaError::VisibilityOnUnnamed));
    let s = schema(
        vec![
            field(Some("a"), 1, Visibility::Inherited),
            field(Some("a"), 1, Visibility::Inherited),
        ],
        true,
        vec![capability("A", "get"), capability("A", "get")],
    );
    assert_eq!(s.check(), Err(SchemaError::DuplicateType));
    let s = schema(
        vec![
            field(Some("a"), 1, Visibility::Inherited),
            field(Some("a"), 2, Visibility::Inherited),
        ],
        true,
        vec![capability("A", "get"), capability("A", "get")],
    );
    assert_eq!(s.check(), Err(SchemaError::DuplicateName));
    let s = schema(
        vec![field(Some("a"), 1, Visibility::Inherited)],
        true,
        vec![capability("A", "get"), capability("A", "get")],
    );
    assert_eq!(s.check(), Err(SchemaError::DuplicateCapability));
}

#[test]
fn distinct_strings_are_told_from_repeated_ones() {
    let distinct: Vec<String> = vec!["a".into(), "b".into(), "ab".into()];
    assert!(all_distinct(&distinct));
    let repeated: Vec<String> = vec!["a".into(), "b".into(), "a".into()];
    assert!(!all_distinct(&repeated));
    assert!(all_distinct(&Vec::new()));
}

#[test]
fn visibility_knows_when_it_is_inherited() {
    assert!(Visibility::Inherited.is_inherited());
    assert!(!Visibility::Public.is_inherited());
    assert!(!Visibility::Crate.is_inherited());
    assert!(!Visibility::Restricted("crate::a".to_string()).is_inherited());
}

#[test]
fn the_layout_records_names_types_and_methods() {
    let s = schema(plugin_fields(), true, vec![capability("Plugin", "iter_plugins")]);
    let layout = generate(s).ok().expect("the schema has no defect");
    assert_eq!(layout.name, "PluginMap");
    assert!(matches!(layout.vis, Visibility::Public));
    assert_eq!(layout.attrs, vec!["#[derive(Debug)]".to_string()]);
    assert_eq!(layout.slots.len(), 3);
    assert_eq!(layout.slots[0].name, "graphics");
    assert_eq!(layout.slots[1].name, "slot_0");
    assert_eq!(layout.slots[2].name, "slot_1");
    assert_eq!(layout.slots[0].key_type, 1);
    assert_eq!(layout.slots[1].key_type, 2);
    assert_eq!(layout.slots[2].key_type, 3);
    assert_eq!(layout.slots[0].initializer, "Default::default()");
    assert_eq!(layout.slots[2].initializer, "NetworkingPlugin(100)");
    assert!(matches!(layout.slots[0].vis, Visibility::Public));
    assert!(matches!(layout.slots[1].vis, Visibility::Inherited));
    assert_eq!(
        layout.slots[2].attrs,
        vec!["#[doc = \"networking\"]".to_string()]
    );
    let open = layout.open_slot.expect("the container is dynamic");
    assert_eq!(open.name, "dynamic_keys");
    assert_eq!(open.cell_name, "PluginMapCell");
    assert_eq!(layout.iterations.len(), 1);
    assert_eq!(layout.iterations[0].capability, "Plugin");
    assert_eq!(layout.iterations[0].method, "iter_plugins");
    assert_eq!(layout.iterations[0].method_mut, "iter_plugins_mut");
}

#[test]
fn a_fixed_layout_has_no_open_slot() {
    let s = schema(plugin_fields(), false, Vec::new());
    let layout = generate(s).ok().expect("the schema has no defect");
    assert!(layout.open_slot.is_none());
    assert!(layout.iterations.is_empty());
    assert_eq!(layout.slots.len(), 3);
}

#[test]
fn the_open_slot_avoids_field_names() {
    let s = schema(
        vec![
            field(Some("dynamic_keys"), 1, Visibility::Inherited),
            field(Some("dynamic_keys_0"), 2, Visibility::Inherited),
            field(None, 3, Visibility::Inherited),
        ],
        true,
        Vec::new(),
    );
    let layout = generate(s).ok().expect("the schema has no defect");
    assert_eq!(layout.open_slot.expect("dynamic").name, "dynamic_keys_1");
    assert_eq!(layout.slots[2].name, "slot_0");
}

#[test]
fn planning_follows_the_names_it_is_given() {
    let s = schema(plugin_fields(), true, Vec::new());
    let names = ensure_names(&s);
    assert_eq!(names.fields, vec!["graphics", "slot_0", "slot_1"]);
    assert_eq!(names.open_slot, "dynamic_keys");
    let layout = plan(s, names);
    assert_eq!(layout.slots[1].name, "slot_0");
    assert_eq!(layout.open_slot.expect("dynamic").name, "dynamic_keys");
}

#[test]
fn the_same_schema_gives_the_same_layout() {
    let first = generate(schema(plugin_fields(), true, vec![capability("Plugin", "run")]))
        .ok()
        .expect("no defect");
    let second = generate(schema(plugin_fields(), true, vec![capability("Plugin", "run")]))
        .ok()
        .expect("no defect");
    let names = |layout: &fixed_typemap::layout::Layout<&'static str>| {
        layout
            .slots
            .iter()
            .map(|slot| (slot.name.clone(), slot.key_type, slot.initializer))
            .collect::<Vec<_>>()
    };
    assert_eq!(names(&first), names(&second));
    assert_eq!(
        first.open_slot.map(|open| (open.name, open.cell_name)),
        second.open_slot.map(|open| (open.name, open.cell_name))
    );
    assert_eq!(first.iterations[0].method_mut, second.iterations[0].method_mut);
}

#[test]
fn types_written_alike_get_the_same_identity() {
    let written: Vec<String> = vec![
        "String".into(),
        "Time".into(),
        "String".into(),
        "Metrics".into(),
        "Time".into(),
    ];
    assert_eq!(identify(&written), vec![0, 1, 0, 3, 1]);
    assert!(identify(&Vec::new()).is_empty());
    let one: Vec<String> = vec!["u64".into()];
    assert_eq!(identify(&one), vec![0]);
}

#[test]
fn annotations_that_configure_the_container_are_not_passed_on() {
    let path = |segments: &[&str]| segments.iter().map(|s| s.to_string()).collect::<Vec<String>>();
    assert!(is_forwarded(&path(&["derive"])));
    assert!(is_forwarded(&path(&["serde", "rename"])));
    assert!(is_forwarded(&path(&[])));
    assert!(!is_forwarded(&path(&["fixed_typemap"])));
    assert!(!is_forwarded(&path(&["a", "fixed_typemap"])));
    assert!(is_forwarded(&path(&["fixed_typemaps"])));
}
