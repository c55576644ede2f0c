use quandl_v3::registry::{find, Counter, Registry};

fn keys(names: &[Option<&str>]) -> Vec<Option<String>> {
    names.iter().map(|name| name.map(|text| text.to_string())).collect()
}

#[test]
fn one_slot_for_each_distinct_credential() {
    let batch = keys(&[Some("b"), None, Some("a"), Some("b"), Some("a"), None, Some("c")]);
    let (registry, slots) = Registry::scan(&batch, 4);
    assert_eq!(registry.len(), 3);
    assert_eq!(registry.credential(0), "b");
    assert_eq!(registry.credential(1), "a");
    assert_eq!(registry.credential(2), "c");
    assert_eq!(registry.offset(), 4);
    assert_eq!(slots, vec![Some(0), None, Some(1), Some(0), Some(1), None, Some(2)]);
}

#[test]
fn no_credential_no_slot() {
    let batch = keys(&[None, None]);
    let (registry, slots) = Registry::scan(&batch, 0);
    assert_eq!(registry.len(), 0);
    assert_eq!(slots, vec![None, None]);
    assert_eq!(registry.counters().len(), 0);
}

#[test]
fn counters_start_at_the_offset() {
    let batch = keys(&[Some("k"), Some("l")]);
    let (registry, _) = Registry::scan(&batch, 17);
    let counters = registry.counters();
    assert_eq!(counters.len(), 2);
    assert_eq!(counters[0].read(), 17);
    assert_eq!(counters[1].read(), 17);
}

#[test]
fn counter_counts_by_one() {
    let mut counter = Counter::new(0);
    assert_eq!(counter.read(), 0);
    counter.increment();
    counter.increment();
    assert_eq!(counter.read(), 2);
}

#[test]
fn find_gives_the_first_place() {
    let names = vec!["x".to_string(), "y".to_string(), "x".to_string()];
    assert_eq!(find(&names, &"x".to_string()), Some(0));
    assert_eq!(find(&names, &"y".to_string()), Some(1));
    assert_eq!(find(&names, &"z".to_string()), None);
}
