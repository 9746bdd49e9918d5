use url_mapper::db::{Store, StoreError, UrlMap};

#[test]
fn insert_then_get_returns_same_pair() {
    let mut store = Store::new();
    let r = store.insert(UrlMap::new("a".to_string(), "http://x".to_string()));
    let m = r.expect("insert of a fresh key must succeed");
    assert_eq!(m.key, "a");
    assert_eq!(m.url, "http://x");
    let g = store.get(&"a".to_string()).expect("get of a present key must succeed");
    assert_eq!(g.key, "a");
    assert_eq!(g.url, "http://x");
}

#[test]
fn absent_key_fails_everywhere_without_state_change() {
    let mut store = Store::new();
    store
        .insert(UrlMap::new("kept".to_string(), "http://kept".to_string()))
        .expect("insert of a fresh key must succeed");

    let g = store.get(&"missing".to_string());
    assert_eq!(g.unwrap_err(), StoreError::NotFound);
    let u = store.update(UrlMap::new("missing".to_string(), "http://new".to_string()));
    assert_eq!(u.unwrap_err(), StoreError::NotFound);
    let d = store.delete(&"missing".to_string());
    assert_eq!(d.unwrap_err(), StoreError::NotFound);

    let all = store.list();
    assert_eq!(all.len(), 1);
    assert_eq!(all[0].key, "kept");
    assert_eq!(all[0].url, "http://kept");
}

#[test]
fn duplicate_insert_fails_and_first_mapping_survives() {
    let mut store = Store::new();
    let first = store
        .insert(UrlMap::new("a".to_string(), "http://x".to_string()))
        .expect("first insert must succeed");
    assert_eq!(first.key, "a");
    assert_eq!(first.url, "http://x");

    let second = store.insert(UrlMap::new("a".to_string(), "http://y".to_string()));
    assert_eq!(second.unwrap_err(), StoreError::DuplicateKey);

    let g = store.get(&"a".to_string()).expect("the first mapping must still be there");
    assert_eq!(g.key, "a");
    assert_eq!(g.url, "http://x");
}

#[test]
fn update_changes_only_url_and_delete_removes_updated_value() {
    let mut store = Store::new();
    store
        .insert(UrlMap::new("b".to_string(), "http://z".to_string()))
        .expect("insert of a fresh key must succeed");
    store
        .insert(UrlMap::new("other".to_string(), "http://other".to_string()))
        .expect("insert of a fresh key must succeed");

    let updated = store
        .update(UrlMap::new("b".to_string(), "http://w".to_string()))
        .expect("update of a present key must succeed");
    assert_eq!(updated.key, "b");
    assert_eq!(updated.url, "http://w");

    let untouched = store.get(&"other".to_string()).expect("other keys must be untouched");
    assert_eq!(untouched.url, "http://other");

    let deleted = store.delete(&"b".to_string()).expect("delete of a present key must succeed");
    assert_eq!(deleted.key, "b");
    assert_eq!(deleted.url, "http://w");

    let gone = store.get(&"b".to_string());
    assert_eq!(gone.unwrap_err(), StoreError::NotFound);
    let untouched = store.get(&"other".to_string()).expect("other keys must survive the delete");
    assert_eq!(untouched.url, "http://other");
}

#[test]
fn list_on_empty_store_is_empty_not_an_error() {
    let store = Store::new();
    let all = store.list();
    assert!(all.is_empty());
}

#[test]
fn list_reports_mappings_in_storage_order() {
    let mut store = Store::new();
    store
        .insert(UrlMap::new("one".to_string(), "http://1".to_string()))
        .expect("insert of a fresh key must succeed");
    store
        .insert(UrlMap::new("two".to_string(), "http://2".to_string()))
        .expect("insert of a fresh key must succeed");
    let all = store.list();
    assert_eq!(all.len(), 2);
    assert_eq!(all[0].key, "one");
    assert_eq!(all[1].key, "two");
}
