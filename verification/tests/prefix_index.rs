use o324_daemon::common::cache_strategy::{CacheStrategy, InMemoryCache, NoCache};
use o324_daemon::entities::prefix_trie_node::PrefixTrieNode;
use o324_daemon::repositories::task_prefix::TaskPrefixRepository;

fn ids(v: &[&str]) -> Vec<String> {
    v.iter().map(|s| s.to_string()).collect()
}

#[test]
fn shortest_unique_prefixes() {
    let mut index = TaskPrefixRepository::new();
    index.add_ids(&ids(&["abcdef1", "abxyz12", "qwerty7"]));
    assert!(index.contains("abcdef1"));
    assert!(!index.contains("abc"));
    assert_eq!(index.find_shortest_unique_prefix("abcdef1"), "abc");
    assert_eq!(index.find_shortest_unique_prefix("abxyz12"), "abx");
    assert_eq!(index.find_shortest_unique_prefix("qwerty7"), "qw");
    assert_eq!(index.find_shortest_unique_prefix("zzz"), "zzz");
}

#[test]
fn id_that_is_prefix_of_another_keeps_full_id() {
    let mut index = TaskPrefixRepository::new();
    index.add_ids(&ids(&["abc", "abcd"]));
    assert_eq!(index.find_shortest_unique_prefix("abc"), "abc");
    assert_eq!(index.find_shortest_unique_prefix("abcd"), "abcd");
}

#[test]
fn writes_mark_new_nodes() {
    let mut index = TaskPrefixRepository::new();
    let writes = index.add_ids(&ids(&["ab1"]));
    assert!(writes.iter().all(|w| w.is_new));
    let again = index.add_ids(&ids(&["ab1"]));
    assert!(again.iter().all(|w| !w.is_new));
    let more = index.add_ids(&ids(&["ab2"]));
    assert!(more.iter().any(|w| w.node.prefix == "ab" && !w.is_new && !w.node.is_unique));
    assert!(more.iter().any(|w| w.node.prefix == "ab2" && w.is_new && w.node.is_end_of_id));
}

#[test]
fn search_by_prefix_lists_matching_nodes() {
    let mut index = TaskPrefixRepository::new();
    index.add_ids(&ids(&["abc", "abd", "xyz"]));
    let mut found: Vec<String> = index.search_by_prefix("ab").into_iter().map(|n| n.prefix).collect();
    found.sort();
    assert_eq!(found, ids(&["ab", "abc", "abd"]));
    assert!(index.search_by_prefix("q").is_empty());
}

#[test]
fn node_lookup() {
    let mut index = TaskPrefixRepository::new();
    index.add_ids(&ids(&["abc", "abd"]));
    let node = index.get_node("ab").unwrap();
    assert!(!node.is_unique && !node.is_end_of_id);
    let node = index.get_node("abc").unwrap();
    assert!(node.is_unique && node.is_end_of_id);
    assert!(index.get_node("a").is_none());
    assert!(index.get_node("zz").is_none());
}

#[test]
fn indexing_the_same_ids_twice_changes_nothing() {
    let mut index = TaskPrefixRepository::new();
    let list = ids(&["abcdef1", "abxyz12", "qwerty7"]);
    index.add_ids(&list);
    let mut nodes_before = index.search_by_prefix("");
    nodes_before.sort_by(|a, b| a.prefix.cmp(&b.prefix));
    let again = index.add_ids(&list);
    assert!(again.iter().all(|w| !w.is_new));
    for w in &again {
        let stored = index.get_node(&w.node.prefix).expect("node exists");
        assert_eq!(stored.is_unique, w.node.is_unique);
        assert_eq!(stored.is_end_of_id, w.node.is_end_of_id);
    }
    let mut nodes_after = index.search_by_prefix("");
    nodes_after.sort_by(|a, b| a.prefix.cmp(&b.prefix));
    assert_eq!(nodes_before.len(), nodes_after.len());
    for (a, b) in nodes_before.iter().zip(nodes_after.iter()) {
        assert_eq!(a.prefix, b.prefix);
        assert_eq!(a.is_unique, b.is_unique);
        assert_eq!(a.is_end_of_id, b.is_end_of_id);
    }
    assert_eq!(index.find_shortest_unique_prefix("abcdef1"), "abc");
}

#[test]
fn in_memory_cache_gives_back_what_it_stored() {
    let cache: InMemoryCache<PrefixTrieNode> = InMemoryCache::new();
    assert!(cache.get_from_cache("ab").is_none());
    cache.insert_into_cache("ab".to_string(), PrefixTrieNode { prefix: "ab".to_string(), is_unique: true, is_end_of_id: false });
    let shared = cache.clone();
    let found = shared.get_from_cache("ab").expect("cached");
    assert_eq!(found.prefix, "ab");
    assert!(found.is_unique);
    let none: NoCache<PrefixTrieNode> = NoCache::new();
    none.insert_into_cache("ab".to_string(), found);
    assert!(none.get_from_cache("ab").is_none());
}
