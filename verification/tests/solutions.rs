use rscloud::aws::ec2::subnet::{decimal_text, vpc_subnets, SubnetInput, SubnetVpcBinding};
use rscloud::aws::ec2::vpc::{vpc_syncup, VpcInput, VpcOutput};
use rscloud::aws::iam::attach_role_policy::AttachRoleBinding;
use rscloud::aws::iam::attach_user_policy::{
    attach_user_managed_policy, attach_user_policy, AttachUserBinding, AttachUserPolicyBinding,
};
use rscloud::aws::iam::policy::{PolicyInput, PolicyOutput};
use rscloud::aws::iam::user::{UserInput, UserOutput};
use rscloud::aws::iam::role::{RoleInput, RoleOutput};
use rscloud::aws::lambda::function::{FunctionRoleBinding, SerializableRuntime};
use rscloud::aws::lambda::solution::{
    grant_permission_to_user, invoke_binding, rust_function_input, rust_lambda_functions, SolutionError,
};
use rscloud::aws::s3::bucket::{bucket_create_next, BucketConfig, BucketPlan, BucketStep};
use rscloud::manager::ManagerError;
use rscloud::plan::{item_as_resource, PlanError, SharedPlan};
use rscloud::registry::{RProvider, RType, ResourceType};
use rscloud::resource::{BindingFn, ResourceState, SharedResource};
use std::sync::Arc;

fn provider() -> RProvider {
    RProvider::new("aws".to_string(), "eu".to_string())
}

fn role() -> SharedResource<RoleInput, RoleOutput> {
    let rt = ResourceType { rprovider: provider(), rtype: RType { name: "Role".to_string() } };
    SharedResource::new_resource(rt, None, "r", RoleInput::default(), ResourceState::Present)
}

#[test]
fn a_rust_function_input_runs_its_zip_on_provided_al2023() {
    let input = rust_function_input(vec![1, 2]);
    assert!(matches!(input.runtime, Some(SerializableRuntime::Providedal2023)));
    assert_eq!(input.handler.as_deref(), Some("main:handler"));
    assert_eq!(input.code.unwrap().zip_file, Some(vec![1, 2]));
}

#[test]
fn planning_no_function_is_an_error_and_adds_nothing() {
    let plan: SharedPlan<String> = SharedPlan::new();
    let r = rust_lambda_functions(
        &plan, &provider(), &role(), vec![], None, None, None,
        |s| s.name(), |s| s.name(), |s| s.name(),
        |r| BindingFn(Arc::new(AttachRoleBinding { role: r.clone() })),
        |r| BindingFn(Arc::new(FunctionRoleBinding { role: r.clone() })),
        |f| BindingFn(Arc::new(invoke_binding(f))),
    );
    assert!(matches!(r, Err(SolutionError::NoFunction)));
    assert!(plan.handles().is_empty());
}

#[test]
fn each_function_gets_a_policy_that_allows_invoking_it() {
    let plan: SharedPlan<String> = SharedPlan::new();
    let planned = rust_lambda_functions(
        &plan, &provider(), &role(), vec![("echo".to_string(), vec![7])], None, None, None,
        |s| s.name(), |s| s.name(), |s| s.name(),
        |r| BindingFn(Arc::new(AttachRoleBinding { role: r.clone() })),
        |r| BindingFn(Arc::new(FunctionRoleBinding { role: r.clone() })),
        |f| BindingFn(Arc::new(invoke_binding(f))),
    )
    .unwrap();
    assert_eq!(planned.len(), 1);
    assert_eq!(planned[0].0.id().unwrap(), "aws/eu/Function/echo");
    assert_eq!(planned[0].1.name(), "echo-allow");
    assert_eq!(planned[0].0.dependencies(), vec!["aws/eu/Role/r".to_string()]);
    assert_eq!(planned[0].1.dependencies(), vec!["aws/eu/Function/echo".to_string()]);
    assert_eq!(
        plan.handles(),
        vec![
            "attach-AWSLambdaBasicExecutionRole-r".to_string(),
            "echo".to_string(),
            "echo-allow".to_string()
        ]
    );
    let again = rust_lambda_functions(
        &plan, &provider(), &role(), vec![("x".to_string(), vec![])], None, None, None,
        |s| s.name(), |s| s.name(), |s| s.name(),
        |r| BindingFn(Arc::new(AttachRoleBinding { role: r.clone() })),
        |r| BindingFn(Arc::new(FunctionRoleBinding { role: r.clone() })),
        |f| BindingFn(Arc::new(invoke_binding(f))),
    );
    assert!(matches!(again, Err(SolutionError::Plan(PlanError::ResourceAlreadyExists(_)))));
}

fn bucket(name: Option<&str>) -> BucketPlan {
    let mut configured = [false; 18];
    configured[4] = true;
    configured[17] = true;
    BucketPlan { bucket: name.map(|n| n.to_string()), configured }
}

#[test]
fn a_bucket_is_created_then_configured_in_order_then_looked_up() {
    let plan = bucket(Some("b"));
    assert!(matches!(bucket_create_next(&plan, 0, None), (BucketStep::CreateBucket(ref n), 1) if n == "b"));
    let owned = Err(ManagerError::CreateFail("BucketAlreadyOwnedByYou: yes".to_string()));
    assert!(matches!(
        bucket_create_next(&plan, 1, Some(owned)),
        (BucketStep::Put { config: BucketConfig::Cors, .. }, 6)
    ));
    assert!(matches!(
        bucket_create_next(&plan, 6, Some(Ok(true))),
        (BucketStep::Put { config: BucketConfig::Website, .. }, 19)
    ));
    assert!(matches!(bucket_create_next(&plan, 19, Some(Ok(true))), (BucketStep::Lookup(_), 20)));
    assert!(matches!(bucket_create_next(&plan, 20, Some(Ok(true))), (BucketStep::Done, 20)));
    match bucket_create_next(&plan, 20, Some(Ok(false))) {
        (BucketStep::Fail(ManagerError::CreateFail(m)), _) => {
            assert_eq!(m, "Could not retrieve recently created bucket")
        }
        _ => panic!("the bucket was not found"),
    }
}

#[test]
fn a_bucket_stops_at_the_first_failure() {
    let plan = bucket(Some("b"));
    let other = Err(ManagerError::CreateFail("AccessDenied".to_string()));
    assert!(matches!(bucket_create_next(&plan, 1, Some(other)), (BucketStep::Fail(ManagerError::CreateFail(_)), _)));
    let put = Err(ManagerError::UpdateFail("no".to_string()));
    assert!(matches!(bucket_create_next(&plan, 6, Some(put)), (BucketStep::Fail(ManagerError::UpdateFail(_)), _)));
    match bucket_create_next(&bucket(None), 0, None) {
        (BucketStep::Fail(ManagerError::CreateFail(m)), _) => assert_eq!(m, "bucket_name is not present"),
        _ => panic!("no bucket name"),
    }
}

#[test]
fn a_vpc_syncs_only_with_the_same_cidr_block() {
    let latest = VpcOutput {
        cidr_block: Some("10.0.0.0/16".to_string()),
        dhcp_options_id: None,
        state: None,
        vpc_id: None,
        owner_id: None,
        instance_tenancy: None,
        ipv6_cidr_block_association_set: None,
        cidr_block_association_set: None,
        is_default: None,
        tags: None,
        attributes: Default::default(),
    };
    let same = VpcInput { cidr_block: Some("10.0.0.0/16".to_string()), ..Default::default() };
    assert!(matches!(vpc_syncup(&latest, &same), Ok(None)));
    let other = VpcInput { cidr_block: Some("10.1.0.0/16".to_string()), ..Default::default() };
    match vpc_syncup(&latest, &other) {
        Err(ManagerError::CannotSyncWithoutRecreate(m)) => assert_eq!(
            m,
            format!("cidr_block from value: [{:?}] to value: [{:?}]", latest.cidr_block, other.cidr_block.as_deref())
        ),
        _ => panic!("a changed block"),
    }
}

#[test]
fn a_vpc_gets_its_subnets_named_in_order() {
    assert_eq!(decimal_text(0), "0");
    assert_eq!(decimal_text(1203), "1203");
    let plan: SharedPlan<String> = SharedPlan::new();
    let rt = ResourceType { rprovider: provider(), rtype: RType { name: "Vpc".to_string() } };
    let vpc: SharedResource<VpcInput, VpcOutput> =
        SharedResource::new_resource(rt, None, "main", VpcInput::default(), ResourceState::Present);
    let subnets = vpc_subnets(
        &plan,
        &provider(),
        &vpc,
        vec![SubnetInput::default(), SubnetInput::default()],
        None,
        |s| s.name(),
        |v, i, n| BindingFn(Arc::new(SubnetVpcBinding { vpc: v.clone(), position: i, total: n })),
    )
    .unwrap();
    assert_eq!(subnets.len(), 2);
    assert_eq!(subnets[1].id().unwrap(), "aws/eu/Subnet/main-subnet1");
    assert_eq!(subnets[0].dependencies(), vec!["aws/eu/Vpc/main".to_string()]);
}

fn user() -> SharedResource<UserInput, UserOutput> {
    let rt = ResourceType { rprovider: provider(), rtype: RType { name: "User".to_string() } };
    SharedResource::new_resource(rt, None, "u", UserInput::default(), ResourceState::Absent)
}

fn policy(name: &str) -> SharedResource<PolicyInput, PolicyOutput> {
    let rt = ResourceType { rprovider: provider(), rtype: RType { name: "Policy".to_string() } };
    SharedResource::new_resource(rt, None, name, PolicyInput::default(), ResourceState::Present)
}

#[test]
fn a_policy_is_attached_to_a_user_in_the_state_of_the_user() {
    let plan: SharedPlan<String> = SharedPlan::new();
    let p = policy("p");
    let a = attach_user_policy(
        &plan, &provider(), &user(), &p, None, |s| s.name(),
        |p| BindingFn(Arc::new(AttachUserPolicyBinding { policy: p.clone() })),
        |u| BindingFn(Arc::new(AttachUserBinding { user: u.clone() })),
    )
    .unwrap();
    assert_eq!(a.id().unwrap(), "aws/eu/AttachUserPolicy/attach-p-u");
    assert!(matches!(a.state(), Ok(ResourceState::Absent)));
    assert_eq!(a.dependencies(), vec!["aws/eu/Policy/p".to_string(), "aws/eu/User/u".to_string()]);
    assert_eq!(a.input().policy_arn, None);
    let again = attach_user_policy(
        &plan, &provider(), &user(), &p, None, |s| s.name(),
        |p| BindingFn(Arc::new(AttachUserPolicyBinding { policy: p.clone() })),
        |u| BindingFn(Arc::new(AttachUserBinding { user: u.clone() })),
    );
    assert!(matches!(again, Err(PlanError::ResourceAlreadyExists(ref n)) if n == "attach-p-u"));
}

#[test]
fn a_managed_policy_is_attached_to_a_user_by_its_arn() {
    let plan: SharedPlan<String> = SharedPlan::new();
    let arn = "arn:aws:iam::aws:policy/service-role/AWSLambdaRole";
    let a = attach_user_managed_policy(
        &plan, &provider(), &user(), arn, None, |s| s.name(),
        |u| BindingFn(Arc::new(AttachUserBinding { user: u.clone() })),
    )
    .unwrap();
    assert_eq!(a.name(), "attach-AWSLambdaRole-u");
    assert_eq!(a.input().policy_arn.as_deref(), Some(arn));
    assert_eq!(a.dependencies(), vec!["aws/eu/User/u".to_string()]);
    assert_eq!(plan.handles(), vec!["attach-AWSLambdaRole-u".to_string()]);
}

#[test]
fn a_user_is_granted_each_function_policy_in_order() {
    let plan: SharedPlan<String> = SharedPlan::new();
    let policies = vec![policy("f-allow"), policy("g-allow")];
    let attached = grant_permission_to_user(
        &plan, &provider(), &user(), &policies, None, |s| s.name(),
        |p| BindingFn(Arc::new(AttachUserPolicyBinding { policy: p.clone() })),
        |u| BindingFn(Arc::new(AttachUserBinding { user: u.clone() })),
    )
    .unwrap();
    assert_eq!(attached.len(), 2);
    assert_eq!(attached[1].name(), "attach-g-allow-u");
    assert_eq!(plan.handles(), vec!["attach-f-allow-u".to_string(), "attach-g-allow-u".to_string()]);
    let twice = vec![policy("h"), policy("h")];
    let r = grant_permission_to_user(
        &plan, &provider(), &user(), &twice, None, |s| s.name(),
        |p| BindingFn(Arc::new(AttachUserPolicyBinding { policy: p.clone() })),
        |u| BindingFn(Arc::new(AttachUserBinding { user: u.clone() })),
    );
    assert!(matches!(r, Err(PlanError::ResourceAlreadyExists(ref n)) if n == "attach-h-u"));
}

#[test]
fn a_shared_resource_reads_back_as_it_is_now() {
    let u = user();
    let other = u.clone();
    other.set_state(ResourceState::Present);
    let copy = item_as_resource(&u);
    assert_eq!(copy.id, "aws/eu/User/u");
    assert_eq!(copy.name, "u");
    assert!(matches!(copy.state, ResourceState::Present));
    assert!(copy.output.is_none());
    assert!(copy.manager.is_none());
}
