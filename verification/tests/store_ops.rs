use key_value_store::store::{Entry, KvError, Store};

fn entry(key: &str, value: &str, ttl: Option<u64>) -> Entry {
    Entry { key: key.to_string(), value: value.to_string(), ttl }
}

#[test]
fn set_then_get_returns_value() {
    let mut store = Store::new();
    store.set(entry("k", "v", Some(7)));
    assert_eq!(store.get(&"k".to_string()), Ok("v".to_string()));
    assert_eq!(store.len(), 1);
}

#[test]
fn set_grows_length_by_one() {
    let mut store = Store::new();
    assert_eq!(store.len(), 0);
    store.set(entry("a", "1", None));
    assert_eq!(store.len(), 1);
    store.set(entry("a", "2", Some(0)));
    assert_eq!(store.len(), 2);
}

#[test]
fn get_on_empty_store_is_key_not_found() {
    let store = Store::new();
    assert_eq!(store.get(&"missing".to_string()), Err(KvError::KeyNotFound));
}

#[test]
fn delete_absent_key_is_key_not_found_and_leaves_length() {
    let mut store = Store::new();
    store.set(entry("a", "1", None));
    store.set(entry("b", "2", Some(9)));
    let before = store.len();
    assert_eq!(store.delete(&"missing".to_string()), Err(KvError::KeyNotFound));
    assert_eq!(store.len(), before);
    assert_eq!(store.get(&"a".to_string()), Ok("1".to_string()));
    assert_eq!(store.get(&"b".to_string()), Ok("2".to_string()));
}

#[test]
fn wait_decrements_ttl_then_floors_and_sweeps() {
    let mut store = Store::new();
    store.set(entry("k", "v", Some(5)));
    store.wait(3);
    assert_eq!(store.entries[0].ttl, Some(2));
    assert_eq!(store.get(&"k".to_string()), Ok("v".to_string()));
    store.wait(10);
    assert_eq!(store.len(), 0);
    assert_eq!(store.get(&"k".to_string()), Err(KvError::KeyNotFound));
}

#[test]
fn wait_exact_ttl_expires_entry() {
    let mut store = Store::new();
    store.set(entry("k", "v", Some(3)));
    store.wait(3);
    assert_eq!(store.len(), 0);
}

#[test]
fn immortal_entry_survives_any_number_of_waits() {
    let mut store = Store::new();
    store.set(entry("k", "v", None));
    store.wait(1000);
    store.wait(1000);
    store.wait(u64::MAX);
    store.delete_ttls();
    assert_eq!(store.len(), 1);
    assert_eq!(store.entries[0].ttl, None);
    assert_eq!(store.get(&"k".to_string()), Ok("v".to_string()));
}

#[test]
fn duplicate_key_get_returns_latest() {
    let mut store = Store::new();
    store.set(entry("k", "a", None));
    store.set(entry("k", "b", None));
    assert_eq!(store.get(&"k".to_string()), Ok("b".to_string()));
}

#[test]
fn duplicate_key_delete_removes_latest_then_get_sees_older() {
    let mut store = Store::new();
    store.set(entry("k", "a", None));
    store.set(entry("k", "b", None));
    assert_eq!(store.delete(&"k".to_string()), Ok(()));
    assert_eq!(store.len(), 1);
    assert_eq!(store.entries[0].value, "a");
    assert_eq!(store.get(&"k".to_string()), Ok("a".to_string()));
}

#[test]
fn delete_removes_exactly_one_entry() {
    let mut store = Store::new();
    store.set(entry("k", "a", None));
    store.set(entry("x", "y", None));
    store.set(entry("k", "b", None));
    assert_eq!(store.delete(&"k".to_string()), Ok(()));
    assert_eq!(store.len(), 2);
    assert_eq!(store.get(&"x".to_string()), Ok("y".to_string()));
    assert_eq!(store.get(&"k".to_string()), Ok("a".to_string()));
}

#[test]
fn sweeper_removes_only_zero_ttl_and_keeps_order() {
    let mut store = Store::new();
    store.set(entry("a", "1", Some(0)));
    store.set(entry("b", "2", None));
    store.set(entry("c", "3", Some(0)));
    store.set(entry("d", "4", Some(5)));
    store.delete_ttls();
    assert_eq!(store.len(), 2);
    assert_eq!(store.entries[0].key, "b");
    assert_eq!(store.entries[1].key, "d");
}

#[test]
fn sweeper_is_idempotent() {
    let mut store = Store::new();
    store.set(entry("a", "1", Some(0)));
    store.set(entry("b", "2", Some(2)));
    store.delete_ttls();
    assert_eq!(store.len(), 1);
    store.delete_ttls();
    assert_eq!(store.len(), 1);
    assert_eq!(store.entries[0].key, "b");
    assert_eq!(store.entries[0].ttl, Some(2));
}

#[test]
fn log_replay_scenario() {
    let mut store = Store::new();
    store.set(entry("k1", "v1", None));
    store.set(entry("k2", "v2", Some(3)));
    store.wait(2);
    assert_eq!(store.entries[1].ttl, Some(1));
    assert_eq!(store.get(&"k2".to_string()), Ok("v2".to_string()));
    store.wait(5);
    assert_eq!(store.get(&"k2".to_string()), Err(KvError::KeyNotFound));
    assert_eq!(store.len(), 1);
    assert_eq!(store.get(&"k1".to_string()), Ok("v1".to_string()));
}
