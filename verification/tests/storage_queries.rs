use o324_daemon::services::storage_bridge::{
    get_models, DbOperation, DbQuery, DbResult, ModelKind, NamedModels, StorageBridgeServiceInner,
};

#[test]
fn models_of_the_daemon() {
    let models = get_models();
    assert_eq!(models.names(), vec!["task".to_string(), "prefix-trie-node".to_string()]);
    assert_eq!(models.get("task"), Some(ModelKind::Task));
    assert_eq!(models.get("prefix-trie-node"), Some(ModelKind::PrefixTrieNode));
    assert_eq!(models.get("activity"), None);
}

#[test]
fn redefining_a_table_keeps_its_place() {
    let mut models = NamedModels::new();
    models.define("a", ModelKind::Task);
    models.define("b", ModelKind::Task);
    models.define("a", ModelKind::PrefixTrieNode);
    assert_eq!(models.names(), vec!["a".to_string(), "b".to_string()]);
    assert_eq!(models.get("a"), Some(ModelKind::PrefixTrieNode));
}

#[test]
fn db_query_answers() {
    let bridge = StorageBridgeServiceInner { models: get_models() };
    match bridge.db_query(DbOperation::ListTables) {
        Ok(DbQuery::Done(DbResult::TableList(names))) => assert_eq!(names.len(), 2),
        _ => panic!("a table list"),
    }
    match bridge.db_query(DbOperation::ScanTable { table_name: "task".to_string() }) {
        Ok(DbQuery::Scan(kind)) => assert_eq!(kind, ModelKind::Task),
        _ => panic!("a scan"),
    }
    match bridge.db_query(DbOperation::ScanTable { table_name: "nope".to_string() }) {
        Err(e) => assert_eq!(e.message(), "Table 'nope' not found or not scannable."),
        Ok(_) => panic!("no such table"),
    }
}
