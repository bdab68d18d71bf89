use fixed_typemap::names::{
    decimal_text, find_unused, numbered_text, position_of, ensure_names, resolve_fields,
    resolve_open_slot,
};
use fixed_typemap::schema::{ContainerSchema, FieldSpec, Visibility};

fn field(name: Option<&str>, key_type: u64) -> FieldSpec<()> {
    FieldSpec {
        declared_name: name.map(|n| n.to_string()),
        key_type,
        initializer: (),
        attrs: Vec::new(),
        vis: Visibility::Inherited,
    }
}

fn schema(names: Vec<Option<&str>>) -> ContainerSchema<()> {
    let mut fields = Vec::new();
    for (i, name) in names.into_iter().enumerate() {
        fields.push(field(name, i as u64));
    }
    ContainerSchema {
        name: "Map".to_string(),
        vis: Visibility::Inherited,
        attrs: Vec::new(),
        fields,
        dynamic: true,
        iterable_traits: Vec::new(),
    }
}

fn strings(names: &[&str]) -> Vec<String> {
    names.iter().map(|n| n.to_string()).collect()
}

#[test]
fn decimal_of_small_and_large_numbers() {
    assert_eq!(decimal_text(0), "0");
    assert_eq!(decimal_text(9), "9");
    assert_eq!(decimal_text(10), "10");
    assert_eq!(decimal_text(12345), "12345");
    assert_eq!(decimal_text(1000000), "1000000");
    assert_eq!(
        decimal_text(u128::MAX),
        "340282366920938463463374607431768211455"
    );
}

#[test]
fn numbered_names_join_prefix_and_number() {
    assert_eq!(numbered_text("slot_", 0), "slot_0");
    assert_eq!(numbered_text("slot_", 17), "slot_17");
    assert_eq!(numbered_text("", 5), "5");
}

#[test]
fn position_is_the_first_one() {
    let used = strings(&["a", "b", "a"]);
    assert_eq!(position_of(&used, &"a".to_string()), Some(0));
    assert_eq!(position_of(&used, &"b".to_string()), Some(1));
    assert_eq!(position_of(&used, &"c".to_string()), None);
    assert_eq!(position_of(&Vec::new(), &"a".to_string()), None);
}

#[test]
fn unused_number_skips_used_names() {
    let used = strings(&["slot_0", "slot_1", "slot_3", "other"]);
    assert_eq!(find_unused(&used, "slot_", 0), 2);
    assert_eq!(find_unused(&used, "slot_", 1), 2);
    assert_eq!(find_unused(&used, "slot_", 3), 4);
    assert_eq!(find_unused(&used, "slot_", 7), 7);
    assert_eq!(find_unused(&Vec::new(), "slot_", 0), 0);
}

#[test]
fn unnamed_fields_are_numbered_in_order() {
    let names = resolve_fields(&schema(vec![None, None, None]).fields);
    assert_eq!(names, strings(&["slot_0", "slot_1", "slot_2"]));
}

#[test]
fn declared_names_are_kept() {
    let names = resolve_fields(&schema(vec![Some("name"), None, Some("other"), None]).fields);
    assert_eq!(names, strings(&["name", "slot_0", "other", "slot_1"]));
}

#[test]
fn automatic_names_skip_declared_ones_wherever_they_stand() {
    let names = resolve_fields(
        &schema(vec![None, Some("slot_0"), None, Some("slot_2"), None]).fields,
    );
    assert_eq!(
        names,
        strings(&["slot_1", "slot_0", "slot_3", "slot_2", "slot_4"])
    );
}

#[test]
fn no_fields_no_names() {
    let names = resolve_fields(&schema(Vec::new()).fields);
    assert!(names.is_empty());
}

#[test]
fn open_slot_takes_the_canonical_name_first() {
    assert_eq!(resolve_open_slot(&strings(&["name", "slot_0"])), "dynamic_keys");
    assert_eq!(resolve_open_slot(&Vec::new()), "dynamic_keys");
}

#[test]
fn open_slot_falls_back_to_numbered_names() {
    assert_eq!(
        resolve_open_slot(&strings(&["dynamic_keys"])),
        "dynamic_keys_0"
    );
    assert_eq!(
        resolve_open_slot(&strings(&["dynamic_keys_0", "dynamic_keys", "dynamic_keys_1"])),
        "dynamic_keys_2"
    );
    // Without the canonical name among the fields, the numbered ones do not matter.
    assert_eq!(
        resolve_open_slot(&strings(&["dynamic_keys_0"])),
        "dynamic_keys"
    );
}

#[test]
fn resolution_is_deterministic() {
    let first = ensure_names(&schema(vec![None, Some("slot_0"), Some("dynamic_keys"), None]));
    let second = ensure_names(&schema(vec![None, Some("slot_0"), Some("dynamic_keys"), None]));
    assert_eq!(first.fields, second.fields);
    assert_eq!(first.open_slot, second.open_slot);
    assert_eq!(
        first.fields,
        strings(&["slot_1", "slot_0", "dynamic_keys", "slot_2"])
    );
    assert_eq!(first.open_slot, "dynamic_keys_0");
}

#[test]
fn resolved_names_differ_from_one_another() {
    let names = ensure_names(&schema(vec![
        None,
        Some("slot_1"),
        None,
        Some("slot_0"),
        None,
        Some("dynamic_keys"),
    ]));
    let mut all = names.fields.clone();
    all.push(names.open_slot.clone());
    let mut sorted = all.clone();
    sorted.sort();
    sorted.dedup();
    assert_eq!(sorted.len(), all.len());
}
