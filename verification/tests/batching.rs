use o324_daemon::common::batch_loader::batch_keys;

fn strings(v: &[&str]) -> Vec<String> {
    v.iter().map(|s| s.to_string()).collect()
}

#[test]
fn test_batcher_deduplicates_keys() {
    let keys = strings(&["A", "B", "A", "C", "B"]);
    let asked = batch_keys(&keys).expect("a batch");
    assert_eq!(asked.len(), 3);
    assert_eq!(asked, strings(&["A", "B", "C"]));
}

#[test]
fn test_run_with_empty_keys_returns_empty_map() {
    let keys: Vec<String> = vec![];
    assert_eq!(batch_keys(&keys), None);
}

#[test]
fn batch_of_distinct_keys_is_unchanged() {
    let keys = strings(&["x", "y", "z"]);
    assert_eq!(batch_keys(&keys), Some(keys.clone()));
}
