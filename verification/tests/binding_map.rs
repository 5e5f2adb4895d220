use wxml_compiler::binding_map::{BindingMapCollector, BindingMapKeys};

#[test]
fn first_requests_count_from_zero() {
    let mut bmc = BindingMapCollector::new();
    assert_eq!(bmc.add_field("a"), Some(0));
    assert_eq!(bmc.add_field("b"), Some(1));
    assert_eq!(bmc.add_field("c"), Some(2));
}

#[test]
fn second_request_yields_the_same_index() {
    let mut bmc = BindingMapCollector::new();
    assert_eq!(bmc.add_field("a"), Some(0));
    assert_eq!(bmc.add_field("b"), Some(1));
    assert_eq!(bmc.add_field("a"), Some(0));
    assert_eq!(bmc.add_field("a"), Some(0));
    assert_eq!(bmc.add_field("b"), Some(1));
    assert_eq!(bmc.add_field("c"), Some(2));
}

#[test]
fn disabled_field_never_gets_an_index() {
    let mut bmc = BindingMapCollector::new();
    assert_eq!(bmc.add_field("a"), Some(0));
    assert_eq!(bmc.add_field("f"), Some(1));
    bmc.disable_field("f");
    assert_eq!(bmc.add_field("f"), None);
    assert_eq!(bmc.add_field("b"), Some(2));
    assert_eq!(bmc.add_field("f"), None);
    assert_eq!(bmc.get_field("f"), None);
    assert!(bmc.is_disabled("f"));
    let listed = bmc.list_fields();
    assert!(listed.iter().all(|(name, _)| name != "f"));
    assert_eq!(listed, vec![("a".to_string(), 0), ("b".to_string(), 2)]);
}

#[test]
fn disabling_an_unseen_field_takes_no_index() {
    let mut bmc = BindingMapCollector::new();
    bmc.disable_field("x");
    assert_eq!(bmc.add_field("x"), None);
    assert_eq!(bmc.add_field("y"), Some(0));
    assert!(bmc.is_disabled("x"));
    assert!(!bmc.is_disabled("y"));
    assert!(!bmc.is_disabled("z"));
}

#[test]
fn get_field_tells_mapped_fields() {
    let mut bmc = BindingMapCollector::new();
    assert_eq!(bmc.get_field("a"), None);
    bmc.add_field("a");
    assert_eq!(bmc.get_field("a"), Some(()));
    bmc.disable_field("a");
    assert_eq!(bmc.get_field("a"), None);
}

#[test]
fn list_fields_of_a_new_collector_is_empty() {
    let bmc = BindingMapCollector::new();
    assert!(bmc.list_fields().is_empty());
}

#[test]
fn list_fields_keeps_the_order_of_first_sight() {
    let mut bmc = BindingMapCollector::new();
    bmc.add_field("z");
    bmc.add_field("a");
    bmc.disable_field("q");
    bmc.add_field("m");
    bmc.add_field("a");
    assert_eq!(
        bmc.list_fields(),
        vec![("z".to_string(), 0), ("a".to_string(), 1), ("m".to_string(), 2)]
    );
}

#[test]
fn keys_are_empty_when_no_field_is_mapped() {
    let mut bmc = BindingMapCollector::new();
    let mut keys = BindingMapKeys::new();
    assert!(keys.is_empty(&bmc));
    let a = bmc.add_field("a").unwrap();
    keys.add("a", a);
    assert!(!keys.is_empty(&bmc));
    bmc.disable_field("a");
    assert!(keys.is_empty(&bmc));
}

#[test]
fn keys_compare_by_content() {
    let mut left = BindingMapKeys::new();
    left.add("a", 0);
    left.add("b", 1);
    let mut right = BindingMapKeys::new();
    right.add("a", 0);
    assert_ne!(left, right);
    right.add("b", 1);
    assert_eq!(left, right);
}
