use fixed_typemap::order::{comes_before, sort_capabilities};
use fixed_typemap::schema::CapabilityIteration;

fn listed(names: &[&str]) -> Vec<CapabilityIteration> {
    names
        .iter()
        .map(|name| CapabilityIteration {
            capability: name.to_string(),
            method: format!("iter_{}", name.len()),
        })
        .collect()
}

fn capabilities(iterations: &[CapabilityIteration]) -> Vec<String> {
    iterations.iter().map(|i| i.capability.clone()).collect()
}

#[test]
fn a_text_comes_before_another_by_its_first_difference() {
    assert!(comes_before("a", "b"));
    assert!(!comes_before("b", "a"));
    assert!(comes_before("Display", "IntegralId"));
    assert!(comes_before("IntegralId", "std::fmt::Display"));
    assert!(comes_before("ab", "ac"));
    assert!(!comes_before("ac", "ab"));
}

#[test]
fn a_text_comes_before_what_goes_on_after_it() {
    assert!(comes_before("", "a"));
    assert!(comes_before("iter", "iter_mut"));
    assert!(!comes_before("iter_mut", "iter"));
}

#[test]
fn no_text_comes_before_itself() {
    assert!(!comes_before("", ""));
    assert!(!comes_before("Plugin", "Plugin"));
}

#[test]
fn characters_are_ordered_by_their_code_points() {
    assert!(comes_before("Z", "a"));
    assert!(comes_before("z", "é"));
    assert!(comes_before("é", "語"));
    assert!(!comes_before("語", "z"));
}

#[test]
fn capabilities_are_listed_alike_however_they_were_listed() {
    let expected = vec!["Display", "IntegralId", "Plugin", "std::fmt::Debug"];
    for order in [
        ["Plugin", "Display", "std::fmt::Debug", "IntegralId"],
        ["Display", "IntegralId", "Plugin", "std::fmt::Debug"],
        ["std::fmt::Debug", "Plugin", "IntegralId", "Display"],
    ] {
        assert_eq!(capabilities(&sort_capabilities(listed(&order))), expected);
    }
}

#[test]
fn listing_in_order_keeps_every_capability_with_its_method() {
    let sorted = sort_capabilities(listed(&["bb", "a", "ccc"]));
    let pairs: Vec<(String, String)> = sorted
        .iter()
        .map(|i| (i.capability.clone(), i.method.clone()))
        .collect();
    assert_eq!(
        pairs,
        vec![
            ("a".to_string(), "iter_1".to_string()),
            ("bb".to_string(), "iter_2".to_string()),
            ("ccc".to_string(), "iter_3".to_string()),
        ]
    );
    assert!(sort_capabilities(Vec::new()).is_empty());
    assert_eq!(capabilities(&sort_capabilities(listed(&["x", "x"]))), vec!["x", "x"]);
}
