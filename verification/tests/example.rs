use fixed_typemap::access::IterableAs;
use fixed_typemap::example::{
    example_map, iteration_example_map, Filesystem, IdContainer1, IdContainer2, IdContainer3,
    IdContainer4, IdValue, IntegralId, Metrics, Time, ID1, ID2,
};
use fixed_typemap::schema::{CapabilityIteration, ContainerSchema, FieldSpec, Visibility};
use fixed_typemap::typemap::TypeMap;
use vstd::hash_map::StringHashMap;

/// The container of the iteration example under another name.
fn test_fixed_iteration() -> TypeMap<IdValue> {
    let schema = ContainerSchema {
        name: "TestFixedIteration".to_string(),
        vis: Visibility::Public,
        attrs: Vec::new(),
        fields: vec![
            FieldSpec {
                declared_name: None,
                key_type: ID1,
                initializer: IdValue::First(IdContainer1::default()),
                attrs: Vec::new(),
                vis: Visibility::Inherited,
            },
            FieldSpec {
                declared_name: None,
                key_type: ID2,
                initializer: IdValue::Second(IdContainer2::default()),
                attrs: Vec::new(),
                vis: Visibility::Inherited,
            },
        ],
        dynamic: true,
        iterable_traits: vec![
            CapabilityIteration {
                capability: "std::fmt::Display".to_string(),
                method: "iter_display".to_string(),
            },
            CapabilityIteration {
                capability: "IntegralId".to_string(),
                method: "iter_integral_id".to_string(),
            },
        ],
    };
    TypeMap::build(schema).expect("the schema has no defect")
}

fn increment(mut value: IdValue) -> IdValue {
    value.set_id(value.get_id() + 1);
    value
}

#[test]
fn test_infallible_getters() {
    let mut map = example_map(false);

    map.get_infallible_mut::<Time>().0 = 5;
    assert_eq!(map.get_infallible::<Time>().0, 5);

    assert_eq!(map.get_infallible::<Filesystem>().path, "");
    map.get_infallible_mut::<Filesystem>().path = "foo";
    assert_eq!(map.get_infallible::<Filesystem>().path, "foo");

    {
        let metrics = &map.get_infallible_mut::<Metrics>().0;
        assert_eq!(metrics.get("successes"), Some(&5));
        assert_eq!(metrics.get("failures"), Some(&10));
    }

    {
        let metrics_mut = &mut map.get_infallible_mut::<Metrics>().0;
        metrics_mut.insert("bar".into(), 15);
        assert_eq!(metrics_mut.get("bar"), Some(&15));
    }
}

#[test]
fn test_fallible_getters() {
    let mut map = example_map(true);

    assert!(map.get::<Time>().is_some());
    assert!(map.get_mut::<Time>().is_some());
    assert!(map.get::<Filesystem>().is_some());
    assert!(map.get_mut::<Filesystem>().is_some());
    assert!(map.get::<Metrics>().is_some());
    assert!(map.get_mut::<Metrics>().is_some());
    assert!(map.get::<u64>().is_none());
    assert!(map.get_mut::<u64>().is_none());
}

#[test]
fn test_inserting_fixed() {
    let mut map = example_map(false);

    // Inserting our own types should be able to replace.
    //
    // This is an entirely fixed map, which means that it always has a previous value.
    assert_eq!(map.insert(Time(5)).expect("Should insert"), Some(Time(0)));
    assert_eq!(
        map.insert::<String>("bar".into()).expect("Should insert"),
        Some("".to_string())
    );

    let mut m2 = StringHashMap::<u64>::new();
    m2.insert("inserted".into(), 1);
    assert!(map.insert(Metrics(m2)).expect("Should insert").is_some());

    // let's check that we got the values.
    assert_eq!(map.get::<Time>().unwrap().0, 5);
    assert_eq!(map.get::<String>().unwrap(), "bar");
    let metrics = map.get::<Metrics>().unwrap();
    assert_eq!(metrics.0.get("inserted").unwrap(), &1);

    // This should fail, because the typemap has no dynamicicity.
    assert!(map.insert::<u64>(0).is_err());
}

#[test]
fn test_inserting_dynamic() {
    let mut map = example_map(true);

    // Inserting our own types should be able to replace.
    //
    // This is an entirely fixed map, which means that it always has a previous value.
    assert_eq!(map.insert(Time(5)).expect("Should insert"), Some(Time(0)));
    assert_eq!(
        map.insert::<String>("bar".into()).expect("Should insert"),
        Some("".to_string())
    );

    let mut m2 = StringHashMap::<u64>::new();
    m2.insert("inserted".into(), 1);
    assert!(map.insert(Metrics(m2)).expect("Should insert").is_some());

    // let's check that we got the values.
    assert_eq!(map.get::<Time>().unwrap().0, 5);
    assert_eq!(map.get::<String>().unwrap(), "bar");
    let metrics = map.get::<Metrics>().unwrap();
    assert_eq!(metrics.0.get("inserted").unwrap(), &1);

    // Let's insert into the dynamic part.
    assert!(map.insert::<u64>(1).expect("Should insert").is_none());
    assert_eq!(map.get::<u64>().unwrap(), &1);
    assert_eq!(map.insert::<u64>(5).expect("Should insert").unwrap(), 1);
    assert_eq!(map.get::<u64>().unwrap(), &5);
}

#[test]
fn test_iterating() {
    let mut map = iteration_example_map();

    // Insert our ids.
    map.insert::<IdContainer1>(IdContainer1(1)).unwrap();
    map.insert::<IdContainer2>(IdContainer2(2)).unwrap();
    map.insert::<IdContainer3>(IdContainer3(3)).unwrap();
    map.insert::<IdContainer4>(IdContainer4(4)).unwrap();

    // Let's exercise normal iteration.
    let mut ids = map
        .iter()
        .into_iter()
        .map(|x| x.get_id())
        .collect::<Vec<_>>();
    ids.sort();
    assert_eq!(ids, vec![1, 2, 3, 4]);

    let mut displays = map
        .iter()
        .into_iter()
        .map(|x| x.display())
        .collect::<Vec<String>>();
    displays.sort();
    assert_eq!(
        displays,
        vec![
            "id1=1".to_string(),
            "id2=2".into(),
            "id3=3".into(),
            "id4=4".into()
        ]
    );

    // Now let's exercise mutable iteration, by incrementing the counters.
    map.modify_each(increment);

    let mut ids2 = map
        .iter()
        .into_iter()
        .map(|x| x.get_id())
        .collect::<Vec<_>>();
    ids2.sort();
    assert_eq!(ids2, vec![2, 3, 4, 5]);
}

#[test]
fn test_iterating_fixed() {
    let mut map = test_fixed_iteration();

    // Insert our ids.
    map.insert::<IdContainer1>(IdContainer1(1)).unwrap();
    map.insert::<IdContainer2>(IdContainer2(2)).unwrap();
    map.insert::<IdContainer3>(IdContainer3(3)).unwrap();
    map.insert::<IdContainer4>(IdContainer4(4)).unwrap();

    // Let's exercise normal iteration.
    let mut ids = map
        .iter()
        .into_iter()
        .map(|x| x.get_id())
        .collect::<Vec<_>>();
    ids.sort();
    assert_eq!(ids, vec![1, 2, 3, 4]);

    let mut displays = map
        .iter()
        .into_iter()
        .map(|x| x.display())
        .collect::<Vec<String>>();
    displays.sort();
    assert_eq!(
        displays,
        vec![
            "id1=1".to_string(),
            "id2=2".into(),
            "id3=3".into(),
            "id4=4".into()
        ]
    );

    // Now let's exercise mutable iteration, by incrementing the counters.
    map.modify_each(increment);

    let mut ids2 = map
        .iter()
        .into_iter()
        .map(|x| x.get_id())
        .collect::<Vec<_>>();
    ids2.sort();
    assert_eq!(ids2, vec![2, 3, 4, 5]);
}

#[test]
fn test_iterable_as_dynamic() {
    let mut map = iteration_example_map();

    // Insert our ids.
    map.insert::<IdContainer1>(IdContainer1(1)).unwrap();
    map.insert::<IdContainer2>(IdContainer2(2)).unwrap();
    map.insert::<IdContainer3>(IdContainer3(3)).unwrap();
    map.insert::<IdContainer4>(IdContainer4(4)).unwrap();

    // Let's exercise normal iteration.
    let mut ids = <IdValue>::iter_as(&map)
        .into_iter()
        .map(|x| x.get_id())
        .collect::<Vec<_>>();
    ids.sort();
    assert_eq!(ids, vec![1, 2, 3, 4]);

    let mut displays = <IdValue>::iter_as(&map)
        .into_iter()
        .map(|x| x.display())
        .collect::<Vec<String>>();
    displays.sort();
    assert_eq!(
        displays,
        vec![
            "id1=1".to_string(),
            "id2=2".into(),
            "id3=3".into(),
            "id4=4".into()
        ]
    );

    // Now let's exercise mutable iteration, by incrementing the counters.
    <IdValue>::modify_as(&mut map, increment);

    let mut ids2 = <IdValue>::iter_as(&map)
        .into_iter()
        .map(|x| x.get_id())
        .collect::<Vec<_>>();
    ids2.sort();
    assert_eq!(ids2, vec![2, 3, 4, 5]);
}

#[test]
fn test_iterable_as_fixed() {
    let mut map = test_fixed_iteration();

    // Insert our ids.
    map.insert::<IdContainer1>(IdContainer1(1)).unwrap();
    map.insert::<IdContainer2>(IdContainer2(2)).unwrap();
    map.insert::<IdContainer3>(IdContainer3(3)).unwrap();
    map.insert::<IdContainer4>(IdContainer4(4)).unwrap();

    // Let's exercise normal iteration.
    let mut ids = <IdValue>::iter_as(&map)
        .into_iter()
        .map(|x| x.get_id())
        .collect::<Vec<_>>();
    ids.sort();
    assert_eq!(ids, vec![1, 2, 3, 4]);

    let mut displays = <IdValue>::iter_as(&map)
        .into_iter()
        .map(|x| x.display())
        .collect::<Vec<String>>();
    displays.sort();
    assert_eq!(
        displays,
        vec![
            "id1=1".to_string(),
            "id2=2".into(),
            "id3=3".into(),
            "id4=4".into()
        ]
    );

    // Now let's exercise mutable iteration, by incrementing the counters.
    <IdValue>::modify_as(&mut map, increment);

    let mut ids2 = <IdValue>::iter_as(&map)
        .into_iter()
        .map(|x| x.get_id())
        .collect::<Vec<_>>();
    ids2.sort();
    assert_eq!(ids2, vec![2, 3, 4, 5]);
}
