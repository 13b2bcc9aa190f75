fn names(entries: &[&str]) -> Vec<String> {
    entries.iter().map(|e| e.to_string()).collect()
}

#[test]
fn filters_registry_entries_in_encounter_order() {
    let entries = names(&["28-00001", "10-00002", "28-00003", ".", ".."]);
    let kept = w1temp::filter_sensor_names(&entries);
    assert_eq!(kept, names(&["28-00001", "28-00003"]));
}

#[test]
fn keeps_registry_order_without_sorting() {
    let entries = names(&["28-zzz", "28-aaa", "28-mmm"]);
    let kept = w1temp::filter_sensor_names(&entries);
    assert_eq!(kept, names(&["28-zzz", "28-aaa", "28-mmm"]));
}

#[test]
fn keeps_nothing_from_an_empty_registry() {
    let kept = w1temp::filter_sensor_names(&Vec::new());
    assert!(kept.is_empty());
}

#[test]
fn prefix_must_be_complete() {
    let entries = names(&["2", "28", "28-", "282-x", "w28-x"]);
    let kept = w1temp::filter_sensor_names(&entries);
    assert_eq!(kept, names(&["28-"]));
}

#[test]
fn split_keeps_the_remainder_verbatim() {
    let fields = w1temp::splitn("a b c d", 2, ' ');
    assert_eq!(fields, vec!["a", "b c d"]);

    let fields = w1temp::splitn("", 4, ' ');
    assert_eq!(fields, vec![""]);

    let fields = w1temp::splitn("k=v=w", 2, '=');
    assert_eq!(fields, vec!["k", "v=w"]);

    let fields = w1temp::splitn("a  b", 4, ' ');
    assert_eq!(fields, vec!["a", "", "b"]);

    let fields = w1temp::splitn("a b ", 4, ' ');
    assert_eq!(fields, vec!["a", "b", ""]);
}
