use fixed_typemap::access::InfallibleKey;
use fixed_typemap::example::{
    example_map, iteration_example_map, ExampleValue, Filesystem, IdContainer1, IdContainer3,
    IdValue, IntegralId, Metrics, Time, FILESYSTEM, ID1, ID3, NUMBER, TIME,
};
use fixed_typemap::model::{Erased, InsertError};
use fixed_typemap::typed::Stored;
use fixed_typemap::typemap::TypeMap;

#[test]
fn stored_types_have_their_own_identities() {
    assert_eq!(<Time as Stored<ExampleValue>>::type_token(), TIME);
    assert_eq!(<Filesystem as Stored<ExampleValue>>::type_token(), FILESYSTEM);
    assert_eq!(<u64 as Stored<ExampleValue>>::type_token(), NUMBER);
    assert_eq!(<IdContainer1 as Stored<IdValue>>::type_token(), ID1);
    assert_eq!(<IdContainer3 as Stored<IdValue>>::type_token(), ID3);
}

#[test]
fn erasing_and_casting_down_are_inverse() {
    let erased = Time(3).erase();
    assert!(matches!(erased, ExampleValue::Time(Time(3))));
    assert_eq!(erased.type_token(), TIME);
    assert_eq!(Time::downcast_ref(&erased), Some(&Time(3)));
    assert!(<u64 as Stored<ExampleValue>>::downcast_ref(&erased).is_none());
    assert!(Filesystem::downcast_ref(&erased).is_none());
    assert_eq!(Time::downcast(erased).ok(), Some(Time(3)));
}

#[test]
fn a_failed_cast_hands_the_value_back() {
    let erased = 9u64.erase();
    match Time::downcast(erased) {
        Ok(_) => panic!("a number is no time"),
        Err(back) => assert_eq!(<u64 as Stored<ExampleValue>>::downcast(back).ok(), Some(9)),
    }
    let mut erased = Time(1).erase();
    assert!(<String as Stored<ExampleValue>>::downcast_mut(&mut erased).is_none());
    Time::downcast_mut(&mut erased).expect("a time").0 = 2;
    assert_eq!(Time::downcast_ref(&erased), Some(&Time(2)));
}

#[test]
fn typed_insertion_leaves_other_types_alone() {
    let mut map = example_map(true);
    map.insert(Filesystem { path: "here" }).expect("Should insert");
    assert_eq!(map.get::<Time>(), Some(&Time(0)));
    assert_eq!(map.get::<Filesystem>().unwrap().path, "here");
    assert_eq!(map.insert::<u64>(3), Ok(None));
    assert_eq!(map.get::<Time>(), Some(&Time(0)));
    assert_eq!(map.get::<u64>(), Some(&3));
    *map.get_mut::<u64>().unwrap() += 1;
    assert_eq!(map.get::<u64>(), Some(&4));
    assert_eq!(map.get::<Time>(), Some(&Time(0)));
}

#[test]
fn typed_insertion_into_a_fixed_map_rejects_unknown_types() {
    let mut map = example_map(false);
    assert_eq!(map.insert::<u64>(3), Err(InsertError::UnknownType));
    assert!(map.get::<u64>().is_none());
    assert_eq!(map.get::<Time>(), Some(&Time(0)));
    assert_eq!(map.iter().len(), 4);
}

#[test]
fn an_erased_value_is_stored_for_its_own_type() {
    let mut map = example_map(true);
    // An erased number goes where numbers go, never into the slot of another type.
    assert!(map.insert_erased(ExampleValue::Number(1)).expect("Should insert").is_none());
    assert_eq!(map.get::<Time>(), Some(&Time(0)));
    assert_eq!(map.get::<u64>(), Some(&1));
    assert!(map.get_erased(NUMBER).is_some());
    // An erased time takes the place of the time.
    let previous = map.insert_erased(ExampleValue::Time(Time(2))).expect("Should insert");
    assert!(matches!(previous, Some(ExampleValue::Time(Time(0)))));
    assert_eq!(map.get::<Time>(), Some(&Time(2)));
}

#[test]
fn a_function_that_keeps_the_types_keeps_the_slots() {
    let mut map = example_map(true);
    map.insert::<u64>(1).unwrap();
    map.modify_each(|value| match value {
        ExampleValue::Time(time) => ExampleValue::Time(Time(time.0 + 1)),
        ExampleValue::Number(number) => ExampleValue::Number(number + 1),
        other => other,
    });
    assert_eq!(map.get::<Time>(), Some(&Time(1)));
    assert_eq!(map.get::<u64>(), Some(&2));
    assert_eq!(map.get_infallible::<Filesystem>().path, "");
    assert_eq!(map.insert(Time(5)), Ok(Some(Time(1))));
}

#[test]
fn the_initial_metrics_are_in_the_map() {
    let map = example_map(false);
    let metrics: &Metrics = map.get_infallible::<Metrics>();
    assert_eq!(metrics.0.get("successes"), Some(&5));
    assert_eq!(metrics.0.get("failures"), Some(&10));
    assert_eq!(metrics.0.get("bar"), None);
    assert_eq!(metrics.0.len(), 2);
    assert_eq!(map.get_infallible::<String>(), "");
}

#[test]
fn displays_name_the_kind_and_the_id() {
    let mut map = iteration_example_map();
    assert_eq!(map.get_infallible_erased(ID1).display(), "id1=0");
    map.insert(IdContainer3(30)).unwrap();
    assert_eq!(map.get_erased(ID3).unwrap().display(), "id3=30");
    assert_eq!(map.get::<IdContainer3>().unwrap().get_id(), 30);
    map.get_mut::<IdContainer3>().unwrap().set_id(31);
    assert_eq!(map.get_erased(ID3).unwrap().get_id(), 31);
    assert_eq!(IdValue::Fourth(fixed_typemap::example::IdContainer4(u64::MAX)).display(), "id4=18446744073709551615");
}

fn read<'a, M, K: InfallibleKey<M>>(key: &K, map: &'a M) -> &'a K::Value {
    key.fetch(map)
}

#[test]
fn generic_code_fetches_by_an_infallible_key() {
    let mut map: TypeMap<ExampleValue> = example_map(true);
    let key = map.slot_key(TIME).expect("declared");
    assert!(matches!(read(&key, &map), ExampleValue::Time(Time(0))));
    map.insert(Time(8)).unwrap();
    map.insert::<u64>(1).unwrap();
    assert!(matches!(read(&key, &map), ExampleValue::Time(Time(8))));
    assert!(map.slot_key(NUMBER).is_none());
}

#[test]
fn a_worked_scenario_by_type() {
    // A named `String`, a `Time` that starts at 0, and an open extension.
    let mut map = example_map(true);
    assert_eq!(map.insert(Time(5)), Ok(Some(Time(0))));
    assert_eq!(map.insert::<u64>(7), Ok(None));
    assert_eq!(map.get::<u64>(), Some(&7));
}

#[test]
fn typed_round_trip_for_every_fixed_type() {
    for dynamic in [false, true] {
        let mut map = example_map(dynamic);
        assert_eq!(map.insert(String::from("a")), Ok(Some(String::new())));
        assert_eq!(map.get::<String>(), Some(&String::from("a")));
        assert_eq!(map.insert(Time(9)), Ok(Some(Time(0))));
        assert_eq!(map.get::<Time>(), Some(&Time(9)));
        let previous = map.insert(Filesystem { path: "/tmp" }).expect("Should insert");
        assert_eq!(previous.expect("a fixed slot always holds a value").path, "");
        assert_eq!(map.get::<Filesystem>().unwrap().path, "/tmp");
        assert_eq!(map.insert(Time(10)), Ok(Some(Time(9))));
    }
}
