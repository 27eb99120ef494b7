use snap_app_demo::state::{MockSnapRepository, SnapAppState, SnapCreationError};
use std::collections::HashSet;
use std::sync::{Arc, Mutex};

#[test]
fn posting_snaps() {
    let mut repo = MockSnapRepository::new();
    assert_eq!(repo.snap_count(), 0);

    repo.post("A").unwrap();
    assert_eq!(repo.snap_count(), 1);

    repo.post("B").unwrap();
    repo.post("C").unwrap();
    assert_eq!(repo.snap_count(), 3);
}

#[test]
fn get_snaps_is_sorted() {
    let mut repo = MockSnapRepository::new();
    let snap_a = repo.post("A").unwrap();
    let snap_b = repo.post("B").unwrap();

    assert!(snap_a.timestamp() <= snap_b.timestamp());
    assert_ne!(snap_a.id(), snap_b.id());

    let snaps = repo.get();
    assert_eq!(snaps.len(), 2);
    // snap_b got posted last so it should be returned first
    assert_eq!(snaps[0].id(), snap_b.id());
    assert_eq!(snaps[1].id(), snap_a.id());
}

#[test]
fn fresh_repository_is_empty() {
    let repo = MockSnapRepository::new();
    assert_eq!(repo.snap_count(), 0);
    assert!(repo.get().is_empty());
}

#[test]
fn sequential_creates_list_last_first() {
    let mut repo = MockSnapRepository::new();
    repo.post("A").unwrap();
    repo.post("B").unwrap();
    repo.post("C").unwrap();
    let messages: Vec<String> = repo.get().iter().map(|s| s.message().to_string()).collect();
    assert_eq!(messages, vec!["C", "B", "A"]);
}

#[test]
fn created_snaps_have_distinct_ids_and_are_counted() {
    let mut repo = MockSnapRepository::new();
    let mut ids = HashSet::new();
    for i in 0..50 {
        let snap = repo.post(&format!("m{}", i)).unwrap();
        assert!(ids.insert(snap.id()));
    }
    assert_eq!(repo.snap_count(), 50);
    assert_eq!(repo.get().len(), 50);
}

#[test]
fn created_snap_is_listed_unchanged() {
    let mut repo = MockSnapRepository::new();
    repo.post("before").unwrap();
    let snap = repo.post("target").unwrap();
    repo.post("after").unwrap();
    let listed = repo.get();
    let found: Vec<_> = listed.iter().filter(|s| s.id() == snap.id()).collect();
    assert_eq!(found.len(), 1);
    assert_eq!(found[0].message(), snap.message());
    assert_eq!(found[0].timestamp(), snap.timestamp());
    assert_eq!(found[0].seq(), snap.seq());
}

#[test]
fn concurrent_creates_keep_count_and_ids() {
    let repo = Arc::new(Mutex::new(MockSnapRepository::new()));
    let runtime = tokio::runtime::Runtime::new().unwrap();
    let ids: Vec<String> = runtime.block_on(async {
        let mut tasks = Vec::new();
        for i in 0..32 {
            let shared = Arc::clone(&repo);
            tasks.push(tokio::task::spawn_blocking(move || {
                shared.lock().unwrap().post(&format!("task {}", i)).unwrap().id()
            }));
        }
        let mut ids = Vec::new();
        for t in tasks {
            ids.push(t.await.unwrap());
        }
        ids
    });
    let distinct: HashSet<&String> = ids.iter().collect();
    assert_eq!(distinct.len(), 32);
    let repo = repo.lock().unwrap();
    assert_eq!(repo.snap_count(), 32);
    let listed: HashSet<String> = repo.get().iter().map(|s| s.id()).collect();
    assert_eq!(listed.len(), 32);
    for id in &ids {
        assert!(listed.contains(id));
    }
}

#[test]
fn end_to_end_hello_world() {
    let mut repo = MockSnapRepository::new();
    assert!(repo.get().is_empty());
    let hello = repo.post("hello").unwrap();
    assert!(!hello.id().is_empty());
    assert_eq!(hello.message(), "hello");
    let listed = repo.get();
    assert_eq!(listed.len(), 1);
    assert_eq!(listed[0].id(), hello.id());
    assert_eq!(listed[0].message(), "hello");
    assert_eq!(listed[0].timestamp(), hello.timestamp());
    repo.post("world").unwrap();
    let messages: Vec<String> = repo.get().iter().map(|s| s.message().to_string()).collect();
    assert_eq!(messages, vec!["world", "hello"]);
}

#[test]
fn creation_error_is_comparable() {
    let e = SnapCreationError::IdCollisionError;
    assert_eq!(e, SnapCreationError::IdCollisionError);
}
