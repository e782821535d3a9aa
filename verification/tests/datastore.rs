use rscloud::datastore::Datastore;

#[test]
fn new_datastore_is_empty() {
    let d = Datastore::new();
    assert!(d.keys().is_empty());
    assert!(!d.contains(&"a".to_string()));
    assert!(d.get_bytes(&"a".to_string()).is_none());
}

#[test]
fn insert_then_get_gives_back_the_bytes() {
    let mut d = Datastore::new();
    assert_eq!(d.insert_bytes("aws/eu/Role/r".to_string(), vec![1, 2, 3]), None);
    assert!(d.contains(&"aws/eu/Role/r".to_string()));
    assert_eq!(d.get_bytes(&"aws/eu/Role/r".to_string()), Some(&vec![1, 2, 3]));
}

#[test]
fn insert_replaces_and_returns_previous() {
    let mut d = Datastore::new();
    d.insert_bytes("k".to_string(), vec![1]);
    assert_eq!(d.insert_bytes("k".to_string(), vec![2]), Some(vec![1]));
    assert_eq!(d.get_bytes(&"k".to_string()), Some(&vec![2]));
    assert_eq!(d.keys(), vec!["k".to_string()]);
}

#[test]
fn remove_forgets_the_entry() {
    let mut d = Datastore::new();
    d.insert_bytes("a".to_string(), vec![1]);
    d.insert_bytes("b".to_string(), vec![2]);
    assert_eq!(d.remove(&"a".to_string()), Some(vec![1]));
    assert!(!d.contains(&"a".to_string()));
    assert_eq!(d.remove(&"a".to_string()), None);
    assert_eq!(d.keys(), vec!["b".to_string()]);
}

#[test]
fn keys_come_in_insertion_order() {
    let mut d = Datastore::new();
    d.insert_bytes("z".to_string(), vec![]);
    d.insert_bytes("a".to_string(), vec![]);
    d.insert_bytes("m".to_string(), vec![]);
    assert_eq!(d.keys(), vec!["z".to_string(), "a".to_string(), "m".to_string()]);
}

#[test]
fn file_storage_keeps_its_path() {
    let s = rscloud::datastore::FileStorage::new("state/cloud.store");
    assert_eq!(s.path(), "state/cloud.store");
    assert_eq!(rscloud::datastore::FileStorage::default().path(), "fpcloud.store");
}
