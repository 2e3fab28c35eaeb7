use state_rollback::errors::Error;
use state_rollback::host::init;

#[test]
fn init_always_yields_empty_store() {
    let first = init();
    assert!(first.is_empty());
    assert_eq!(first.len(), 0);
    let second = init();
    assert!(second.is_empty());
    assert_eq!(second.len(), 0);
    assert_eq!(second.get(&String::from("key")), None);
}

#[test]
fn update_on_absent_key_reports_not_found_and_creates_nothing() {
    let mut store = init();
    let r = store.update(&String::from("missing"), String::from("value"));
    assert_eq!(r, Err(Error::NotFound));
    assert!(store.is_empty());
    assert_eq!(store.get(&String::from("missing")), None);
}

#[test]
fn update_on_absent_key_leaves_other_entries_alone() {
    let mut store = init();
    store.insert(String::from("present"), String::from("kept"));
    let r = store.update(&String::from("missing"), String::from("value"));
    assert_eq!(r, Err(Error::NotFound));
    assert_eq!(store.len(), 1);
    assert_eq!(store.get(&String::from("present")), Some(String::from("kept")));
    assert_eq!(store.get(&String::from("missing")), None);
}

#[test]
fn successful_update_is_visible() {
    let mut store = init();
    assert_eq!(store.insert(String::from("k"), String::from("v0")), None);
    let r = store.update(&String::from("k"), String::from("v1"));
    assert_eq!(r, Ok(()));
    assert_eq!(store.get(&String::from("k")), Some(String::from("v1")));
    assert_eq!(store.len(), 1);
}

#[test]
fn insert_twice_overwrites_and_returns_prior_values() {
    let mut store = init();
    let first = store.insert(String::from("k"), String::from("v1"));
    assert_eq!(first, None);
    let second = store.insert(String::from("k"), String::from("v2"));
    assert_eq!(second, Some(String::from("v1")));
    assert_eq!(store.len(), 1);
    assert_eq!(store.get(&String::from("k")), Some(String::from("v2")));
}

#[test]
fn distinct_keys_do_not_disturb_each_other() {
    let mut store = init();
    store.insert(String::from("a"), String::from("1"));
    store.insert(String::from("b"), String::from("2"));
    assert_eq!(store.len(), 2);
    assert!(store.contains_key(&String::from("a")));
    assert!(store.contains_key(&String::from("b")));
    let r = store.update(&String::from("a"), String::from("3"));
    assert_eq!(r, Ok(()));
    assert_eq!(store.get(&String::from("a")), Some(String::from("3")));
    assert_eq!(store.get(&String::from("b")), Some(String::from("2")));
}

#[test]
fn snapshot_is_an_exact_copy() {
    let mut store = init();
    store.insert(String::from("a"), String::from("1"));
    let copy = store.snapshot();
    assert_eq!(copy.len(), 1);
    assert_eq!(copy.get(&String::from("a")), Some(String::from("1")));
    store.insert(String::from("a"), String::from("2"));
    assert_eq!(copy.get(&String::from("a")), Some(String::from("1")));
}
