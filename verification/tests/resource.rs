use rscloud::manager::{ManagerError, ResourceManager};
use rscloud::registry::{RProvider, RType, ResourceType};
use rscloud::resource::{
    default_bindings, default_manager, latest_output, Bind, Binding, BindingFn, Resource,
    ResourceError, ResourceState, SharedResource,
};
use std::sync::{Arc, Mutex};

fn rtype(name: &str) -> ResourceType {
    ResourceType {
        rprovider: RProvider::new("aws".to_string(), "us-east-1".to_string()),
        rtype: RType { name: name.to_string() },
    }
}

/// A cloud of one kind of resource, held in memory: an output is the input plus 100.
struct FakeCloud {
    existing: Mutex<Option<u32>>,
    fail_create: bool,
}

impl ResourceManager<u32, u32> for FakeCloud {
    fn lookup(&self, latest: &u32) -> Result<Option<u32>, ManagerError> {
        Ok(self.existing.lock().unwrap().filter(|e| e == latest))
    }
    fn lookup_by_input(&self, input: &u32) -> Result<Option<u32>, ManagerError> {
        Ok(self.existing.lock().unwrap().filter(|e| *e == input + 100))
    }
    fn create(&self, input: &mut u32) -> Result<u32, ManagerError> {
        if self.fail_create {
            return Err(ManagerError::CreateFail("no".to_string()));
        }
        *self.existing.lock().unwrap() = Some(*input + 100);
        Ok(*input + 100)
    }
    fn delete(&self, _latest: &u32) -> Result<bool, ManagerError> {
        *self.existing.lock().unwrap() = None;
        Ok(true)
    }
    fn syncup(&self, _latest: &u32, input: &mut u32) -> Result<Option<u32>, ManagerError> {
        *self.existing.lock().unwrap() = Some(*input + 100);
        Ok(Some(*input + 100))
    }
}

struct AddOne;
impl Binding<u32> for AddOne {
    fn apply(&self, input: &mut u32) -> Result<(), ResourceError> {
        *input += 1;
        Ok(())
    }
}

struct Fails;
impl Binding<u32> for Fails {
    fn apply(&self, _input: &mut u32) -> Result<(), ResourceError> {
        Err(ResourceError::BindingFail("broken".to_string()))
    }
}

fn bind(dep: &str, f: Arc<dyn Binding<u32>>) -> Bind<u32> {
    Bind { dep_id: dep.to_string(), dep_fn: BindingFn(f) }
}

#[test]
fn new_resource_id_joins_provider_region_type_and_name() {
    let r: Resource<u32, u32> = Resource::new(rtype("Vpc"), None, "main", 5, ResourceState::Present);
    assert_eq!(r.id, "aws/us-east-1/Vpc/main");
    assert_eq!(r.name, "main");
    assert_eq!(r.input, 5);
    assert!(r.output.is_none());
    assert!(r.dependencies.is_empty());
    assert!(r.bindings.is_empty());
}

#[test]
fn ensure_present_without_manager_fails() {
    let mut r: Resource<u32, u32> = Resource::new(rtype("Vpc"), default_manager(), "v", 1, ResourceState::Present);
    assert!(matches!(r.ensure_present(None), Err(ResourceError::ManagerNotSet)));
    assert!(r.output.is_none());
}

#[test]
fn ensure_present_creates_and_records_the_output() {
    let cloud: Arc<dyn ResourceManager<u32, u32>> =
        Arc::new(FakeCloud { existing: Mutex::new(None), fail_create: false });
    let mut r: Resource<u32, u32> = Resource::new(rtype("Vpc"), Some(cloud), "v", 1, ResourceState::Present);
    assert!(r.ensure_present(None).is_ok());
    assert_eq!(r.output, Some(101));
    assert_eq!(r.ensure_absent().unwrap(), true);
}

#[test]
fn ensure_present_reports_a_manager_failure() {
    let cloud: Arc<dyn ResourceManager<u32, u32>> =
        Arc::new(FakeCloud { existing: Mutex::new(None), fail_create: true });
    let mut r: Resource<u32, u32> = Resource::new(rtype("Vpc"), Some(cloud), "v", 1, ResourceState::Present);
    assert!(matches!(r.ensure_present(None), Err(ResourceError::ManagerError(ManagerError::CreateFail(_)))));
    assert!(r.output.is_none());
}

#[test]
fn ensure_present_syncs_an_existing_resource() {
    let cloud: Arc<dyn ResourceManager<u32, u32>> =
        Arc::new(FakeCloud { existing: Mutex::new(Some(107)), fail_create: true });
    let mut r: Resource<u32, u32> = Resource::new(rtype("Vpc"), Some(cloud), "v", 9, ResourceState::Present);
    assert!(r.ensure_present(Some(&107)).is_ok());
    assert_eq!(r.output, Some(109));
}

#[test]
fn ensure_absent_of_a_resource_never_created_is_false() {
    let r: Resource<u32, u32> = Resource::new(rtype("Vpc"), None, "v", 1, ResourceState::Present);
    assert_eq!(r.ensure_absent().unwrap(), false);
}

#[test]
fn apply_bindings_runs_them_in_order() {
    let mut r: Resource<u32, u32> = Resource::new(rtype("Vpc"), None, "v", 1, ResourceState::Present);
    r.bind(bind("a", Arc::new(AddOne)), ResourceState::Present);
    r.bind(bind("b", Arc::new(AddOne)), ResourceState::Present);
    assert!(r.apply_bindings().is_ok());
    assert_eq!(r.input, 3);
}

#[test]
fn failing_binding_leaves_the_input_unchanged() {
    let mut r: Resource<u32, u32> = Resource::new(rtype("Vpc"), None, "v", 1, ResourceState::Present);
    r.bind(bind("a", Arc::new(AddOne)), ResourceState::Present);
    r.bind(bind("b", Arc::new(Fails)), ResourceState::Present);
    assert!(matches!(r.apply_bindings(), Err(ResourceError::BindingFail(m)) if m == "broken"));
    assert_eq!(r.input, 1);
}

#[test]
fn bind_lists_a_dependency_once_and_follows_absence() {
    let mut r: Resource<u32, u32> = Resource::new(rtype("Vpc"), None, "v", 1, ResourceState::Present);
    r.bind(bind("dep", Arc::new(AddOne)), ResourceState::Present);
    r.bind(bind("dep", Arc::new(AddOne)), ResourceState::Present);
    assert_eq!(r.dependencies, vec!["dep".to_string()]);
    assert_eq!(r.bindings.len(), 2);
    assert_eq!(r.state, ResourceState::Present);
    r.bind(bind("gone", Arc::new(AddOne)), ResourceState::Absent);
    assert_eq!(r.state, ResourceState::Absent);
    assert_eq!(r.dependencies, vec!["dep".to_string(), "gone".to_string()]);
}

#[test]
fn shared_resource_sees_changes_through_every_handle() {
    let a: SharedResource<u32, u32> =
        SharedResource::new_resource(rtype("Role"), None, "r", 1, ResourceState::Present);
    let b = a.clone();
    assert_eq!(a.id().unwrap(), "aws/us-east-1/Role/r");
    b.set_state(ResourceState::Absent);
    assert_eq!(a.state().unwrap(), ResourceState::Absent);
    assert_eq!(a.resource_type(), rtype("Role"));
}

#[test]
fn with_output_before_any_output_is_an_error() {
    let a: SharedResource<u32, u32> =
        SharedResource::new_resource(rtype("Role"), None, "r", 1, ResourceState::Present);
    match a.with_output(|_o: &u32| {}) {
        Err(ResourceError::DependencyOutputIsMissing(m)) => assert_eq!(m, "Output is not ready"),
        _ => panic!("no output yet"),
    }
    assert!(a.output().unwrap().is_none());
    assert!(matches!(latest_output(&a), Err(ResourceError::DependencyOutputIsMissing(_))));
}

#[test]
fn shared_bind_makes_a_dependant_of_an_absent_resource_absent() {
    let dep: SharedResource<u32, u32> =
        SharedResource::new_resource(rtype("Role"), None, "dep", 1, ResourceState::Absent);
    let r: SharedResource<u32, u32> =
        SharedResource::new_resource(rtype("Role"), None, "r", 1, ResourceState::Present);
    assert!(r.bind(&dep, BindingFn(Arc::new(AddOne))).is_ok());
    assert_eq!(r.dependencies(), vec!["aws/us-east-1/Role/dep".to_string()]);
    assert_eq!(r.state().unwrap(), ResourceState::Absent);
    assert!(r.apply_bindings().is_ok());
    assert_eq!(r.input(), 2);
}

#[test]
fn defaults_are_empty() {
    assert!(default_manager::<u32, u32>().is_none());
    assert!(default_bindings::<u32>().is_empty());
    assert_eq!(ResourceState::default(), ResourceState::Present);
}

#[test]
fn shared_bind_lists_a_dependency_once() {
    let dep: SharedResource<u32, u32> =
        SharedResource::new_resource(rtype("Role"), None, "dep", 1, ResourceState::Present);
    let r: SharedResource<u32, u32> =
        SharedResource::new_resource(rtype("Role"), None, "r", 1, ResourceState::Present);
    assert!(r.bind(&dep, BindingFn(Arc::new(AddOne))).is_ok());
    assert!(r.bind(&dep, BindingFn(Arc::new(AddOne))).is_ok());
    assert_eq!(r.dependencies(), vec!["aws/us-east-1/Role/dep".to_string()]);
    assert!(r.apply_bindings().is_ok());
    assert_eq!(r.input(), 3);
}

#[test]
fn shared_resource_without_manager_cannot_be_made_present() {
    let r: SharedResource<u32, u32> =
        SharedResource::new_resource(rtype("Role"), None, "r", 1, ResourceState::Present);
    assert!(matches!(r.ensure_present(None), Err(ResourceError::ManagerNotSet)));
    assert!(matches!(r.ensure_absent(), Ok(false)));
}

#[test]
fn shared_resource_with_manager_is_created_then_deleted() {
    let cloud = Arc::new(FakeCloud { existing: Mutex::new(None), fail_create: false });
    let r: SharedResource<u32, u32> =
        SharedResource::new_resource(rtype("Role"), Some(cloud), "r", 1, ResourceState::Present);
    assert!(r.ensure_present(None).is_ok());
    assert_eq!(r.output().unwrap(), Some(101));
    assert!(matches!(r.ensure_absent(), Ok(true)));
}

#[test]
fn failing_shared_bindings_leave_the_input() {
    let dep: SharedResource<u32, u32> =
        SharedResource::new_resource(rtype("Role"), None, "dep", 1, ResourceState::Present);
    let r: SharedResource<u32, u32> =
        SharedResource::new_resource(rtype("Role"), None, "r", 7, ResourceState::Present);
    assert!(r.bind(&dep, BindingFn(Arc::new(AddOne))).is_ok());
    assert!(r.bind(&dep, BindingFn(Arc::new(Fails))).is_ok());
    assert!(matches!(r.apply_bindings(), Err(ResourceError::BindingFail(_))));
    assert_eq!(r.input(), 7);
}

#[test]
fn manager_deletes_only_what_its_lookup_still_finds() {
    let cloud = FakeCloud { existing: Mutex::new(None), fail_create: false };
    assert!(matches!(cloud.ensure_absent(&5), Ok(false)));
    *cloud.existing.lock().unwrap() = Some(5);
    assert!(matches!(cloud.ensure_absent(&5), Ok(true)));
    assert_eq!(*cloud.existing.lock().unwrap(), None);
}

#[test]
fn manager_syncs_the_resource_last_known_when_the_input_finds_none() {
    let cloud = FakeCloud { existing: Mutex::new(Some(50)), fail_create: true };
    let mut input = 1;
    assert_eq!(cloud.ensure_present(Some(&50), &mut input).unwrap(), 101);
    let mut other = 2;
    assert!(matches!(cloud.ensure_present(Some(&7), &mut other), Err(ManagerError::CreateFail(_))));
}
