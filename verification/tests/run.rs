use rscloud::datastore::Datastore;
use rscloud::plan::{PlanError, PlanItem};
use rscloud::resource::ResourceState;
use rscloud::run::{Action, Event, PlanRun};

fn item(id: &str, state: ResourceState, deps: &[&str]) -> PlanItem {
    PlanItem { id: id.to_string(), state, dependencies: deps.iter().map(|d| d.to_string()).collect() }
}

/// Drives a run to its end, as a caller whose cloud always succeeds would: a stored resource
/// reads back as what it is stored under, without dependencies. Returns the result and the
/// actions taken, as ("collect" | "delete" | "ensure", id).
fn drive(mut run: PlanRun, mut action: Action, items: &[PlanItem]) -> (Result<(), PlanError>, Vec<(String, String)>, Datastore) {
    let mut log = Vec::new();
    loop {
        let event = match action {
            Action::Collect { key, .. } => {
                log.push(("collect".to_string(), key.clone()));
                Event::Collected(Ok(PlanItem { id: key, state: ResourceState::Present, dependencies: vec![] }))
            }
            Action::Delete { key, .. } => {
                log.push(("delete".to_string(), key));
                Event::Deleted(Ok(()))
            }
            Action::Ensure { index, .. } => {
                log.push(("ensure".to_string(), items[index].id.clone()));
                Event::Ensured(Ok(vec![index as u8]))
            }
            Action::Finish(r) => return (r, log, run.into_datastore()),
        };
        assert!(run.accepts(&event));
        action = run.resume(event);
    }
}

#[test]
fn apply_creates_planned_resources_dependencies_first() {
    let items = vec![
        item("b", ResourceState::Present, &["a"]),
        item("a", ResourceState::Present, &[]),
    ];
    let (run, action) = PlanRun::apply(items.clone(), Datastore::new());
    let (r, log, store) = drive(run, action, &items);
    assert!(r.is_ok());
    assert_eq!(log, vec![("ensure".to_string(), "a".to_string()), ("ensure".to_string(), "b".to_string())]);
    assert_eq!(store.keys(), vec!["a".to_string(), "b".to_string()]);
    assert_eq!(store.get_bytes(&"b".to_string()), Some(&vec![0u8]));
}

#[test]
fn apply_deletes_what_is_no_longer_planned() {
    let mut store = Datastore::new();
    store.insert_bytes("stale".to_string(), vec![7]);
    store.insert_bytes("a".to_string(), vec![1]);
    let items = vec![item("a", ResourceState::Present, &[])];
    let (run, action) = PlanRun::apply(items.clone(), store);
    let (r, log, store) = drive(run, action, &items);
    assert!(r.is_ok());
    assert!(log.contains(&("delete".to_string(), "stale".to_string())));
    assert!(!store.contains(&"stale".to_string()));
    assert_eq!(store.keys(), vec!["a".to_string()]);
}

#[test]
fn apply_deletes_a_recorded_resource_wanted_absent() {
    let mut store = Datastore::new();
    store.insert_bytes("gone".to_string(), vec![3]);
    let items = vec![item("gone", ResourceState::Absent, &[]), item("kept", ResourceState::Present, &[])];
    let (run, action) = PlanRun::apply(items.clone(), store);
    let (r, log, store) = drive(run, action, &items);
    assert!(r.is_ok());
    assert_eq!(log[0], ("delete".to_string(), "gone".to_string()));
    assert_eq!(store.keys(), vec!["kept".to_string()]);
}

#[test]
fn apply_stops_on_a_failed_creation() {
    let items = vec![item("a", ResourceState::Present, &[])];
    let (mut run, action) = PlanRun::apply(items, Datastore::new());
    assert!(matches!(action, Action::Ensure { index: 0, latest: None }));
    let failure = Event::Ensured(Err(PlanError::DagCreationError("cloud said no".to_string())));
    assert!(run.accepts(&failure));
    match run.resume(failure) {
        Action::Finish(Err(PlanError::DagCreationError(m))) => assert_eq!(m, "cloud said no"),
        _ => panic!("the failure ends the run"),
    }
    assert!(run.datastore().keys().is_empty());
}

#[test]
fn apply_refuses_a_plan_with_a_cycle() {
    let items = vec![item("a", ResourceState::Present, &["b"]), item("b", ResourceState::Present, &["a"])];
    let (_run, action) = PlanRun::apply(items, Datastore::new());
    assert!(matches!(action, Action::Finish(Err(PlanError::DagCreationError(_)))));
}

#[test]
fn apply_refuses_a_missing_dependency() {
    let items = vec![item("a", ResourceState::Present, &["b"])];
    let (_run, action) = PlanRun::apply(items, Datastore::new());
    assert!(matches!(action, Action::Finish(Err(PlanError::DependencyNotFound(d))) if d == "b"));
}

#[test]
fn apply_hands_the_stored_resource_to_its_update() {
    let mut store = Datastore::new();
    store.insert_bytes("a".to_string(), vec![42]);
    let items = vec![item("a", ResourceState::Present, &[])];
    let (_run, action) = PlanRun::apply(items, store);
    assert!(matches!(action, Action::Ensure { index: 0, latest: Some(b) } if b == vec![42]));
}

#[test]
fn destroy_empties_the_datastore() {
    let mut store = Datastore::new();
    store.insert_bytes("x".to_string(), vec![1]);
    store.insert_bytes("y".to_string(), vec![2]);
    let (run, action) = PlanRun::destroy(store);
    let (r, log, store) = drive(run, action, &[]);
    assert!(r.is_ok());
    assert!(store.keys().is_empty());
    assert_eq!(log.iter().filter(|(a, _)| a == "delete").count(), 2);
}

#[test]
fn destroy_of_nothing_finishes_at_once() {
    let (_run, action) = PlanRun::destroy(Datastore::new());
    assert!(matches!(action, Action::Finish(Ok(()))));
}

#[test]
fn apply_deletes_dependents_before_their_dependencies() {
    let mut store = Datastore::new();
    store.insert_bytes("base".to_string(), vec![1]);
    store.insert_bytes("top".to_string(), vec![2]);
    let items = vec![
        item("base", ResourceState::Absent, &[]),
        item("top", ResourceState::Absent, &["base"]),
    ];
    let (run, action) = PlanRun::apply(items.clone(), store);
    let (r, log, store) = drive(run, action, &items);
    assert!(r.is_ok());
    assert_eq!(log, vec![("delete".to_string(), "top".to_string()), ("delete".to_string(), "base".to_string())]);
    assert!(store.keys().is_empty());
}

#[test]
fn destroy_deletes_stored_dependents_first() {
    let mut store = Datastore::new();
    store.insert_bytes("vpc".to_string(), vec![1]);
    store.insert_bytes("subnet".to_string(), vec![2]);
    let (mut run, mut action) = PlanRun::destroy(store);
    let mut deleted = Vec::new();
    loop {
        let event = match action {
            Action::Collect { key, .. } => {
                let deps = if key == "subnet" { vec!["vpc".to_string()] } else { vec![] };
                Event::Collected(Ok(PlanItem { id: key, state: ResourceState::Present, dependencies: deps }))
            }
            Action::Delete { key, .. } => {
                deleted.push(key);
                Event::Deleted(Ok(()))
            }
            Action::Ensure { .. } => panic!("destroy makes nothing present"),
            Action::Finish(r) => {
                assert!(r.is_ok());
                break;
            }
        };
        action = run.resume(event);
    }
    assert_eq!(deleted, vec!["subnet".to_string(), "vpc".to_string()]);
    assert!(run.datastore().keys().is_empty());
}

#[test]
fn destroy_first_reads_back_a_stored_resource_with_its_bytes() {
    let mut store = Datastore::new();
    store.insert_bytes("vpc".to_string(), vec![1, 2]);
    let (_run, action) = PlanRun::destroy(store);
    match action {
        Action::Collect { key, bytes } => {
            assert_eq!(key, "vpc");
            assert_eq!(bytes, vec![1, 2]);
        }
        _ => panic!("a stored resource is read back first"),
    }
}

#[test]
fn apply_refusing_a_plan_keeps_the_datastore() {
    let mut store = Datastore::new();
    store.insert_bytes("old".to_string(), vec![3]);
    let items = vec![item("a", ResourceState::Present, &["missing"])];
    let (run, action) = PlanRun::apply(items, store);
    assert!(matches!(action, Action::Finish(Err(PlanError::DependencyNotFound(_)))));
    assert_eq!(run.datastore().get_bytes(&"old".to_string()), Some(&vec![3u8]));
}

#[test]
fn apply_hands_the_recorded_copy_to_ensure() {
    let mut store = Datastore::new();
    store.insert_bytes("a".to_string(), vec![9, 9]);
    let items = vec![item("a", ResourceState::Present, &[])];
    let (mut run, action) = PlanRun::apply(items, store);
    match action {
        Action::Ensure { index, latest } => {
            assert_eq!(index, 0);
            assert_eq!(latest, Some(vec![9, 9]));
        }
        _ => panic!("the planned resource is made present"),
    }
    let action = run.resume(Event::Ensured(Ok(vec![4])));
    assert!(matches!(action, Action::Finish(Ok(()))));
    assert_eq!(run.datastore().get_bytes(&"a".to_string()), Some(&vec![4u8]));
}

#[test]
fn a_failed_deletion_ends_an_apply_after_the_creations() {
    let mut store = Datastore::new();
    store.insert_bytes("gone".to_string(), vec![1]);
    let items = vec![
        item("gone", ResourceState::Absent, &[]),
        item("a", ResourceState::Present, &[]),
    ];
    let (mut run, action) = PlanRun::apply(items, store);
    assert!(matches!(action, Action::Delete { .. }));
    let action = run.resume(Event::Deleted(Err(PlanError::DagCreationError("no".to_string()))));
    assert!(matches!(action, Action::Ensure { index: 1, .. }));
    let action = run.resume(Event::Ensured(Ok(vec![2])));
    assert!(matches!(action, Action::Finish(Err(PlanError::DagCreationError(_)))));
    assert!(run.datastore().contains(&"gone".to_string()));
}
