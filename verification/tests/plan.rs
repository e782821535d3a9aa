use rscloud::plan::{fits_graph_limits, toposort_items, Plan, PlanError, PlanItem, SharedPlan};
use rscloud::registry::{RProvider, RType, ResourceType};
use rscloud::resource::{ResourceState, SharedResource};

fn item(id: &str, deps: &[&str]) -> PlanItem {
    PlanItem {
        id: id.to_string(),
        state: ResourceState::Present,
        dependencies: deps.iter().map(|d| d.to_string()).collect(),
    }
}

fn role_type() -> ResourceType {
    ResourceType {
        rprovider: RProvider::new("aws".to_string(), "eu-west-1".to_string()),
        rtype: RType { name: "Role".to_string() },
    }
}

#[test]
fn add_item_refuses_a_name_twice() {
    let mut plan: Plan<u32> = Plan::new();
    assert!(plan.add_item(&"a".to_string(), 1).is_ok());
    assert!(plan.add_item(&"b".to_string(), 2).is_ok());
    match plan.add_item(&"a".to_string(), 3) {
        Err(PlanError::ResourceAlreadyExists(name)) => assert_eq!(name, "a"),
        _ => panic!("a duplicate name must be refused"),
    }
    assert_eq!(plan.len(), 2);
    assert_eq!(*plan.handle(0), 1);
    assert_eq!(*plan.handle(1), 2);
    assert!(plan.contains(&"b".to_string()));
    assert!(!plan.contains(&"c".to_string()));
}

#[test]
fn add_resource_returns_the_resource_with_its_full_id() {
    let mut plan: Plan<String> = Plan::new();
    let r: SharedResource<u32, u32> = plan
        .add_resource(role_type(), None, "admin", ResourceState::Present, 7, |r: SharedResource<u32, u32>| r.name())
        .unwrap();
    assert_eq!(r.id().unwrap(), "aws/eu-west-1/Role/admin");
    assert_eq!(r.name(), "admin");
    assert_eq!(*plan.handle(0), "admin");
    let again = plan.add_resource(role_type(), None, "admin", ResourceState::Present, 8, |r: SharedResource<u32, u32>| r.name());
    assert!(matches!(again, Err(PlanError::ResourceAlreadyExists(n)) if n == "admin"));
    assert_eq!(plan.len(), 1);
}

#[test]
fn shared_plan_refuses_a_name_twice() {
    let plan: SharedPlan<String> = SharedPlan::new();
    let other = plan.clone();
    let first = plan.resource(role_type(), None, "r", ResourceState::Present, 1u32, |r: SharedResource<u32, u32>| r.name());
    assert!(first.is_ok());
    let second = other.resource(role_type(), None, "r", ResourceState::Present, 2u32, |r: SharedResource<u32, u32>| r.name());
    assert!(matches!(second, Err(PlanError::ResourceAlreadyExists(n)) if n == "r"));
    assert_eq!(plan.handles(), vec!["r".to_string()]);
}

#[test]
fn toposort_puts_dependencies_first() {
    let items = vec![item("c", &["b"]), item("a", &[]), item("b", &["a"])];
    assert!(fits_graph_limits(&items));
    let order = toposort_items(&items).unwrap();
    assert_eq!(order.len(), 3);
    let pos = |i: usize| order.iter().position(|&x| x == i).unwrap();
    assert!(pos(1) < pos(2));
    assert!(pos(2) < pos(0));
}

#[test]
fn toposort_reports_a_missing_dependency() {
    let items = vec![item("a", &[]), item("b", &["nowhere"])];
    match toposort_items(&items) {
        Err(PlanError::DependencyNotFound(d)) => assert_eq!(d, "nowhere"),
        _ => panic!("a missing dependency must be reported"),
    }
}

#[test]
fn toposort_reports_a_cycle() {
    let items = vec![item("a", &["b"]), item("b", &["a"])];
    assert!(matches!(toposort_items(&items), Err(PlanError::DagCreationError(_))));
}

#[test]
fn toposort_of_nothing_is_empty() {
    let items: Vec<PlanItem> = vec![];
    assert_eq!(toposort_items(&items).unwrap(), Vec::<usize>::new());
}

#[test]
fn ordering_reports_the_first_problem_met() {
    let items = vec![
        item("a", &["b"]),
        item("b", &["a", "zzz"]),
    ];
    match toposort_items(&items) {
        Err(PlanError::DagCreationError(m)) => assert_eq!(m, "WouldCycle\n"),
        _ => panic!("the cycle comes first"),
    }
    let items = vec![
        item("a", &["zzz"]),
        item("b", &["a"]),
        item("c", &["c"]),
    ];
    match toposort_items(&items) {
        Err(PlanError::DependencyNotFound(d)) => assert_eq!(d, "zzz"),
        _ => panic!("the missing dependency comes first"),
    }
}
