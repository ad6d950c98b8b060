use ws_multiplexer::client_list::ClientStore;

#[test]
fn test_remove() {
    let mut store = ClientStore::new();
    store.push(1, "Alice");
    store.push(2, "Bob");
    store.push(3, "Charlie");

    assert_eq!(store.remove(&2), Some("Bob"));
    let items: Vec<_> = store.iter().clone();
    assert_eq!(items, vec!["Alice", "Charlie"]);

    store.push(4, "David");
    assert_eq!(store.position(&4), Some(2));
    assert_eq!(store.iter()[2], "David");
}

#[test]
fn test_remove_nonexistent() {
    let mut store = ClientStore::new();
    store.push(1, "Alice");
    store.push(2, "Bob");

    assert_eq!(store.remove(&3), None);
    let items: Vec<_> = store.iter().clone();
    assert_eq!(items, vec!["Alice", "Bob"]);
}

#[test]
fn scenario_dense_layout() {
    let mut store = ClientStore::new();
    assert_eq!(store.len(), 0);
    store.push(1, "A");
    store.push(2, "B");
    store.push(3, "C");
    assert_eq!(store.remove(&2), Some("B"));
    assert_eq!(store.iter().clone(), vec!["A", "C"]);
    store.push(4, "D");
    assert_eq!(store.iter().clone(), vec!["A", "C", "D"]);
    assert_eq!(store.get(&4), Some(&"D"));
}

#[test]
fn size_tracks_inserts_and_removes() {
    let mut store = ClientStore::new();
    for id in 0..5u64 {
        store.push(id, id * 10);
    }
    assert_eq!(store.len(), 5);
    assert_eq!(store.remove(&0), Some(0));
    assert_eq!(store.remove(&4), Some(40));
    assert_eq!(store.len(), 3);
    // removing an absent key leaves the size alone
    assert_eq!(store.remove(&4), None);
    assert_eq!(store.len(), 3);
    for id in 1..4u64 {
        assert_eq!(store.get(&id), Some(&(id * 10)));
    }
}

#[test]
fn duplicate_insert_replaces_prior_record() {
    let mut store = ClientStore::new();
    store.push(1, "old");
    store.push(2, "other");
    store.push(1, "new");
    assert_eq!(store.len(), 2);
    assert_eq!(store.get(&1), Some(&"new"));
    assert_eq!(store.get(&2), Some(&"other"));
}

#[test]
fn lookup_after_remove_is_absent() {
    let mut store = ClientStore::new();
    store.push(10, "x");
    store.push(20, "y");
    store.push(30, "z");
    store.remove(&20);
    assert_eq!(store.get(&20), None);
    assert_eq!(store.position(&20), None);
    // the swapped-in record is still reachable under its own id
    assert_eq!(store.get(&30), Some(&"z"));
    assert_eq!(store.get(&10), Some(&"x"));
}

#[test]
fn iter_mut_updates_one_slot() {
    let mut store = ClientStore::new();
    store.push(1, 100u64);
    store.push(2, 200u64);
    let i = store.position(&2).unwrap();
    *store.iter_mut(i) = 999;
    assert_eq!(store.get(&2), Some(&999));
    assert_eq!(store.get(&1), Some(&100));
}
