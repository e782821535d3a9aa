use rscloud::aws::ec2::subnet::{ceil_log2, copy_vpc, subnet_cidr, subnet_of_net, SubnetInput};
use rscloud::aws::ec2::vpc::VpcOutput;
use rscloud::aws::iam::attach_group_policy::{copy_group_name, AttachGroupPolicyInput};
use rscloud::aws::iam::attach_role_policy::{copy_policy_arn, copy_role_name, AttachRolePolicyInput};
use rscloud::aws::iam::group::{GroupOutput, SerializableGroup};
use rscloud::aws::iam::policy::{copy_policy_document, input_hook as policy_input_hook, PolicyInput, PolicyOutput};
use rscloud::aws::iam::role::{for_service, input_hook as role_input_hook, RoleInput, RoleOutput};
use rscloud::aws::lambda::function::{
    copy_role_arn, input_hook as function_input_hook, FunctionInput, FunctionOutput,
    SerializableFunctionConfiguration,
};
use rscloud::aws::scheduler::schedule::{copy_state_machine_target, copy_target_role_arn, ScheduleInput, ScheduleOutput, SerializableTarget};
use rscloud::aws::sfn::schema::{default_heartbeat_seconds, default_timeout_seconds, State};
use rscloud::aws::sfn::state_machine::{check_state, set_task_resource, StateMachineInput};
use rscloud::aws::iam::{attachment_id, policy_name_of_arn};
use rscloud::aws::{aws_type_of, str_eq, ArnProvider, AwsType};
use rscloud::registry::{RProvider, RType, RegistryError, ResourceType};
use rscloud::aws::lambda::function::FunctionRoleBinding;
use rscloud::resource::{BindingFn, ResourceError, ResourceState, SharedResource};
use std::sync::Arc;

#[test]
fn aws_type_names_parse_back() {
    let all = [
        AwsType::Vpc, AwsType::Subnet, AwsType::Function, AwsType::Role, AwsType::Policy,
        AwsType::AttachRolePolicy, AwsType::AttachGroupPolicy, AwsType::AttachUserPolicy,
        AwsType::StateMachine, AwsType::Bucket, AwsType::S3Object, AwsType::Schedule,
        AwsType::Group, AwsType::User,
    ];
    for t in all {
        assert_eq!(AwsType::from_name(&t.name()), Some(t));
    }
    assert_eq!(AwsType::AttachUserPolicy.name(), "AttachUserPolicy");
}

#[test]
fn vpc_is_matched_without_regard_to_case() {
    assert_eq!(AwsType::from_name("vpc"), Some(AwsType::Vpc));
    assert_eq!(AwsType::from_name("VPC"), Some(AwsType::Vpc));
    assert_eq!(AwsType::from_name("vPc"), Some(AwsType::Vpc));
    assert_eq!(AwsType::from_name("role"), None);
    assert_eq!(AwsType::from_name("Roles"), None);
    assert_eq!(AwsType::from_name(""), None);
}

#[test]
fn unknown_type_name_is_not_supported() {
    let rt = |name: &str| ResourceType {
        rprovider: RProvider::new("aws".to_string(), "eu-west-1".to_string()),
        rtype: RType { name: name.to_string() },
    };
    assert_eq!(aws_type_of(&rt("Schedule")).unwrap(), AwsType::Schedule);
    match aws_type_of(&rt("Queue")) {
        Err(RegistryError::ResourceTypeNotSupported(n)) => assert_eq!(n, "Queue"),
        _ => panic!("Queue is no AWS kind of this library"),
    }
}

#[test]
fn str_eq_compares_characters() {
    assert!(str_eq("abc", "abc"));
    assert!(!str_eq("abc", "abd"));
    assert!(!str_eq("abc", "ab"));
    assert!(str_eq("", ""));
}

#[test]
fn ceil_log2_values() {
    assert_eq!(ceil_log2(0), 0);
    assert_eq!(ceil_log2(1), 0);
    assert_eq!(ceil_log2(2), 1);
    assert_eq!(ceil_log2(3), 2);
    assert_eq!(ceil_log2(4), 2);
    assert_eq!(ceil_log2(5), 3);
    assert_eq!(ceil_log2(1024), 10);
    assert_eq!(ceil_log2(usize::MAX), 64);
}

#[test]
fn subnet_cidr_splits_the_vpc_block() {
    assert_eq!(subnet_cidr("10.0.0.0/16", 0, 4).unwrap(), "10.0.0.0/18");
    assert_eq!(subnet_cidr("10.0.0.0/16", 1, 4).unwrap(), "10.0.64.0/18");
    assert_eq!(subnet_cidr("10.0.0.0/16", 3, 4).unwrap(), "10.0.192.0/18");
    assert_eq!(subnet_cidr("10.0.0.0/16", 2, 3).unwrap(), "10.0.128.0/18");
    assert_eq!(subnet_cidr("192.168.1.7/24", 0, 1).unwrap(), "192.168.1.0/24");
    assert_eq!(subnet_cidr("10.1.0.0/16", 5, 6).unwrap(), "10.1.160.0/19");
}

#[test]
fn subnet_cidr_failures() {
    assert!(matches!(subnet_cidr("not a network", 0, 2),
        Err(ResourceError::BindingFail(m)) if m == "Not a valid IPv4 Network"));
    assert!(matches!(subnet_cidr("10.0.0.0/16", 4, 4),
        Err(ResourceError::BindingFail(m)) if m == "Subnet to exist"));
    assert!(matches!(subnet_cidr("10.0.0.0/30", 0, 8),
        Err(ResourceError::BindingFail(m)) if m == "Subnet to exist"));
}

#[test]
fn subnet_of_net_takes_the_network_address() {
    // 10.0.0.5/24 is the network 10.0.0.0/24; its second half is 10.0.0.128/25.
    let addr = (10u32 << 24) | 5;
    assert_eq!(subnet_of_net(addr, 24, 1, 2), Some(((10u32 << 24) | 128, 25)));
    assert_eq!(subnet_of_net(addr, 24, 2, 2), None);
    assert_eq!(subnet_of_net(0, 0, 0, 0), Some((0, 0)));
}

fn make_vpc(cidr: Option<&str>, id: Option<&str>) -> VpcOutput {
    VpcOutput {
        cidr_block: cidr.map(|c| c.to_string()),
        dhcp_options_id: None,
        state: None,
        vpc_id: id.map(|i| i.to_string()),
        owner_id: None,
        instance_tenancy: None,
        ipv6_cidr_block_association_set: None,
        cidr_block_association_set: None,
        is_default: None,
        tags: None,
        attributes: Default::default(),
    }
}

#[test]
fn copy_vpc_sets_id_and_block() {
    let vpc = make_vpc(Some("10.0.0.0/16"), Some("vpc-1"));
    let mut input = SubnetInput::default();
    assert!(copy_vpc(&mut input, &vpc, 1, 2).is_ok());
    assert_eq!(input.vpc_id, Some("vpc-1".to_string()));
    assert_eq!(input.cidr_block, Some("10.0.128.0/17".to_string()));

    let no_block = make_vpc(None, Some("vpc-2"));
    let mut input = SubnetInput { cidr_block: Some("kept".to_string()), ..Default::default() };
    assert!(copy_vpc(&mut input, &no_block, 0, 2).is_ok());
    assert_eq!(input.vpc_id, Some("vpc-2".to_string()));
    assert_eq!(input.cidr_block, Some("kept".to_string()));
}

#[test]
fn input_hooks_name_after_the_id_only_when_unnamed() {
    let mut role = RoleInput::default();
    role_input_hook("deployer", &mut role);
    assert_eq!(role.role_name, Some("deployer".to_string()));
    let mut named = RoleInput { role_name: Some("given".to_string()), ..Default::default() };
    role_input_hook("deployer", &mut named);
    assert_eq!(named.role_name, Some("given".to_string()));

    let mut f = FunctionInput::default();
    function_input_hook("echo", &mut f);
    assert_eq!(f.function_name, Some("echo".to_string()));
}

#[test]
fn bindings_copy_what_the_dependency_reports() {
    let role = RoleOutput { arn: "arn:aws:iam::1:role/r".to_string(), role_name: "r".to_string(), ..Default::default() };
    let mut f = FunctionInput::default();
    copy_role_arn(&mut f, &role);
    assert_eq!(f.role, Some("arn:aws:iam::1:role/r".to_string()));

    let mut attach = AttachRolePolicyInput::default();
    copy_role_name(&mut attach, &role);
    assert_eq!(attach.role_name, Some("r".to_string()));
    let policy = PolicyOutput { arn: Some("arn:aws:iam::1:policy/p".to_string()), ..Default::default() };
    copy_policy_arn(&mut attach, &policy);
    assert_eq!(attach.policy_arn, Some("arn:aws:iam::1:policy/p".to_string()));

    let group = GroupOutput {
        group: Some(SerializableGroup { group_name: "devs".to_string(), ..Default::default() }),
        ..Default::default()
    };
    let mut g = AttachGroupPolicyInput::default();
    copy_group_name(&mut g, &group);
    assert_eq!(g.group_name, Some("devs".to_string()));
    copy_group_name(&mut g, &GroupOutput::default());
    assert_eq!(g.group_name, None);
}

#[test]
fn schedule_target_gets_the_role() {
    let role = RoleOutput { arn: "arn:role".to_string(), ..Default::default() };
    let mut s = ScheduleInput::default();
    copy_target_role_arn(&mut s, &role);
    let t = s.target.clone().unwrap();
    assert_eq!(t.role_arn, "arn:role");
    assert_eq!(t.arn, "");
    let mut s = ScheduleInput {
        target: Some(SerializableTarget { arn: "arn:sm".to_string(), input: Some("{}".to_string()), ..Default::default() }),
        ..Default::default()
    };
    copy_target_role_arn(&mut s, &role);
    let t = s.target.unwrap();
    assert_eq!(t.arn, "arn:sm");
    assert_eq!(t.input, Some("{}".to_string()));
    assert_eq!(t.role_arn, "arn:role");
}

#[test]
fn arns_of_outputs() {
    let role = RoleOutput { arn: "arn:r".to_string(), ..Default::default() };
    assert_eq!(role.arn(), Some(vec!["arn:r".to_string()]));
    assert_eq!(GroupOutput::default().arn(), None);
    let f = FunctionOutput {
        configuration: Some(SerializableFunctionConfiguration { function_arn: Some("arn:f".to_string()), ..Default::default() }),
        ..Default::default()
    };
    assert_eq!(f.arn(), Some(vec!["arn:f".to_string()]));
    assert_eq!(FunctionOutput::default().arn(), None);
    assert_eq!(ScheduleOutput::default().arn(), Some(vec![String::new()]));
}

#[test]
fn task_state_defaults() {
    assert_eq!(default_heartbeat_seconds(), 99999999);
    assert_eq!(default_timeout_seconds(), 99999999);
}

#[test]
fn policy_document_names_effect_actions_and_resources() {
    let mut p = PolicyInput::default();
    policy_input_hook("fn-allow", &mut p);
    assert_eq!(p.policy_name, Some("fn-allow".to_string()));
    copy_policy_document(&mut p, "Allow", &vec!["lambda:InvokeFunction".to_string()], None);
    assert_eq!(p.policy_document, None);
    copy_policy_document(
        &mut p,
        "Allow",
        &vec!["lambda:InvokeFunction".to_string()],
        Some(vec!["arn:aws:lambda:f".to_string()]),
    );
    assert_eq!(
        p.policy_document.unwrap(),
        r#"{"Statement":[{"Action":["lambda:InvokeFunction"],"Effect":"Allow","Resource":["arn:aws:lambda:f"]}],"Version":"2012-10-17"}"#
    );
}

#[test]
fn role_for_service_sets_the_trust_policy() {
    let mut r = RoleInput::default();
    for_service(&mut r, "lambda.amazonaws.com");
    assert_eq!(
        r.assume_role_policy_document.unwrap(),
        r#"{"Statement":[{"Action":"sts:AssumeRole","Effect":"Allow","Principal":{"Service":"lambda.amazonaws.com"}}],"Version":"2012-10-17"}"#
    );
}

#[test]
fn schedule_starts_the_state_machine() {
    let mut s = ScheduleInput::default();
    copy_state_machine_target(&mut s, "arn:sm", r#"{"a":1}"#);
    let t = s.target.clone().unwrap();
    assert_eq!(t.arn, "arn:aws:scheduler:::aws-sdk:sfn:startExecution");
    assert_eq!(t.input.unwrap(), r#"{"Input":"{\"a\":1}","StateMachineArn":"arn:sm"}"#);
    let role = RoleOutput { arn: "arn:role".to_string(), ..Default::default() };
    copy_target_role_arn(&mut s, &role);
    copy_state_machine_target(&mut s, "arn:sm2", "{}");
    let t = s.target.unwrap();
    assert_eq!(t.role_arn, "arn:role");
    assert_eq!(t.input.unwrap(), r#"{"Input":"{}","StateMachineArn":"arn:sm2"}"#);
}

#[test]
fn attachment_ids_and_policy_names() {
    assert_eq!(attachment_id("fn-allow", "lambda_assume_role"), "attach-fn-allow-lambda_assume_role");
    assert_eq!(
        policy_name_of_arn("arn:aws:iam::aws:policy/service-role/AWSLambdaBasicExecutionRole"),
        "AWSLambdaBasicExecutionRole"
    );
    assert_eq!(policy_name_of_arn("no-slash"), "no-slash");
    assert_eq!(policy_name_of_arn("ends/"), "");
}

struct FakeRoles;

impl rscloud::manager::ResourceManager<RoleInput, RoleOutput> for FakeRoles {
    fn lookup(&self, _latest: &RoleOutput) -> Result<Option<RoleOutput>, rscloud::manager::ManagerError> {
        Ok(None)
    }
    fn lookup_by_input(&self, _input: &RoleInput) -> Result<Option<RoleOutput>, rscloud::manager::ManagerError> {
        Ok(None)
    }
    fn create(&self, input: &mut RoleInput) -> Result<RoleOutput, rscloud::manager::ManagerError> {
        let name = input.role_name.clone().unwrap_or_default();
        Ok(RoleOutput { arn: format!("arn:aws:iam::1:role/{}", name), role_name: name, ..Default::default() })
    }
    fn delete(&self, _latest: &RoleOutput) -> Result<bool, rscloud::manager::ManagerError> {
        Ok(true)
    }
    fn syncup(&self, _latest: &RoleOutput, _input: &mut RoleInput) -> Result<Option<RoleOutput>, rscloud::manager::ManagerError> {
        Ok(None)
    }
}

#[test]
fn function_binding_takes_the_role_arn_once_the_role_exists() {
    let rt = |name: &str| ResourceType {
        rprovider: RProvider::new("aws".to_string(), "eu-west-1".to_string()),
        rtype: RType { name: name.to_string() },
    };
    let roles: Arc<dyn rscloud::manager::ResourceManager<RoleInput, RoleOutput>> = Arc::new(FakeRoles);
    let mut role_input = RoleInput::default();
    role_input_hook("runner", &mut role_input);
    let role: SharedResource<RoleInput, RoleOutput> =
        SharedResource::new_resource(rt("Role"), Some(roles), "runner", role_input, ResourceState::Present);
    let function: SharedResource<FunctionInput, FunctionOutput> =
        SharedResource::new_resource(rt("Function"), None, "echo", FunctionInput::default(), ResourceState::Present);
    function.bind(&role, BindingFn(Arc::new(FunctionRoleBinding { role: role.clone() }))).unwrap();
    assert_eq!(function.dependencies(), vec!["aws/eu-west-1/Role/runner".to_string()]);
    assert!(matches!(function.apply_bindings(), Err(ResourceError::DependencyOutputIsMissing(_))));
    assert_eq!(function.input().role, None);
    role.ensure_present(None).unwrap();
    function.apply_bindings().unwrap();
    assert_eq!(function.input().role, Some("arn:aws:iam::1:role/runner".to_string()));
}

fn task(resource: &str) -> rscloud::aws::sfn::schema::State {
    rscloud::aws::sfn::schema::State::Task(rscloud::aws::sfn::schema::TaskState {
        resource: resource.to_string(),
        next: None,
        end: Some(true),
        input_path: None,
        output_path: None,
        result_path: None,
        parameters: None,
        timeout_seconds: default_timeout_seconds(),
        heartbeat_seconds: default_heartbeat_seconds(),
        retry: vec![],
        catch: vec![],
    })
}

fn machine() -> rscloud::aws::sfn::state_machine::StateMachineInput {
    rscloud::aws::sfn::state_machine::StateMachineInput {
        definition: Some(rscloud::aws::sfn::schema::StateMachineDocument {
            comment: None,
            start_at: "Run".to_string(),
            states: vec![
                ("Run".to_string(), task("")),
                (
                    "Done".to_string(),
                    rscloud::aws::sfn::schema::State::Succeed(rscloud::aws::sfn::schema::SucceedState {
                        comment: None,
                    }),
                ),
            ],
        }),
        ..Default::default()
    }
}

#[test]
fn binding_a_function_needs_a_defined_state() {
    assert!(check_state(&machine(), "Run").is_ok());
    match check_state(&machine(), "Missing") {
        Err(ResourceError::BindingFail(m)) => {
            assert_eq!(m, "State Missing was not found in the state machine definition")
        }
        _ => panic!("no such state"),
    }
    match check_state(&StateMachineInput::default(), "Run") {
        Err(ResourceError::BindingFail(m)) => assert_eq!(m, "State machine has no definition"),
        _ => panic!("no definition"),
    }
}

#[test]
fn a_task_state_runs_the_bound_function() {
    let mut m = machine();
    set_task_resource(&mut m, "Run", "arn:fn".to_string());
    match &m.definition.as_ref().unwrap().states[0].1 {
        State::Task(t) => assert_eq!(t.resource, "arn:fn"),
        _ => panic!("still a task"),
    }
    set_task_resource(&mut m, "Done", "arn:other".to_string());
    assert!(matches!(m.definition.as_ref().unwrap().states[1].1, State::Succeed(_)));
    set_task_resource(&mut m, "Missing", "arn:other".to_string());
    match &m.definition.as_ref().unwrap().states[0].1 {
        State::Task(t) => assert_eq!(t.resource, "arn:fn"),
        _ => panic!("still a task"),
    }
}
