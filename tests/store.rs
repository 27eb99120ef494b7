use snap_app_demo::state::SnapCreationError;
use snap_app_demo::store::SnapStore;

#[test]
fn colliding_id_is_refused_and_changes_nothing() {
    let mut store = SnapStore::new();
    let first = store.insert_new("one".to_string(), 5, 100).unwrap();
    assert_eq!(first.seq(), 0);
    let again = store.insert_new("two".to_string(), 5, 200);
    assert!(matches!(again, Err(SnapCreationError::IdCollisionError)));
    assert_eq!(store.len(), 1);
    assert!(store.contains_id(5));
    assert!(!store.contains_id(6));
    let listed = store.listing();
    assert_eq!(listed.len(), 1);
    assert_eq!(listed[0].message(), "one");
}

#[test]
fn insert_numbers_snaps_in_order() {
    let mut store = SnapStore::new();
    let a = store.insert_new("a".to_string(), 1, 10).unwrap();
    let b = store.insert_new("b".to_string(), 2, 10).unwrap();
    assert_eq!(a.seq(), 0);
    assert_eq!(b.seq(), 1);
    assert_eq!(b.timestamp(), 10);
    assert_eq!(b.id_bits(), 2);
    assert_eq!(store.len(), 2);
}

#[test]
fn equal_times_list_later_insertion_first() {
    let mut store = SnapStore::new();
    store.insert_new("a".to_string(), 1, 50).unwrap();
    store.insert_new("b".to_string(), 2, 50).unwrap();
    store.insert_new("c".to_string(), 3, 50).unwrap();
    let listed = store.listing();
    assert_eq!(listed[0].message(), "c");
    assert_eq!(listed[1].message(), "b");
    assert_eq!(listed[2].message(), "a");
}

#[test]
fn listing_follows_time_when_the_clock_goes_back() {
    let mut store = SnapStore::new();
    store.insert_new("middle".to_string(), 1, 20).unwrap();
    store.insert_new("oldest".to_string(), 2, 10).unwrap();
    store.insert_new("newest".to_string(), 3, 30).unwrap();
    store.insert_new("tie".to_string(), 4, 20).unwrap();
    let listed = store.listing();
    let messages: Vec<String> = listed.iter().map(|s| s.message().to_string()).collect();
    assert_eq!(messages, vec!["newest", "tie", "middle", "oldest"]);
}

#[test]
fn empty_store_lists_nothing() {
    let store = SnapStore::new();
    assert_eq!(store.len(), 0);
    assert!(store.listing().is_empty());
}
