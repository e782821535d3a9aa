//! Rust functions on Lambda: each function, built beforehand into a zip, runs under a role,
//! with a policy that allows invoking it.

use crate::aws::iam::attach_role_policy::{AttachRolePolicyInput, AttachRolePolicyOutput};
use crate::aws::iam::attach_user_policy::{
    attach_user_policy, planned_attachment, AttachUserPolicyInput, AttachUserPolicyOutput,
};
use crate::aws::iam::attachment_name;
use crate::aws::iam::user::{UserInput, UserOutput};
use crate::aws::iam::policy::{self as policy_lib, PolicyInput, PolicyOutput, PolicyResourceBinding};
use crate::aws::iam::role::{RoleInput, RoleOutput};
use crate::aws::iam::{attachment_id, last_segment, policy_name_of_arn};
use crate::aws::lambda::function::{
    self as function_lib, FunctionInput, FunctionOutput,
    SerializableFunctionCode, SerializableRuntime,
};
use crate::aws::{aws_type_name, AwsType};
use crate::manager::{share_manager, ResourceManager};
use crate::plan::{PlanError, SharedPlan};
use crate::registry::{RProvider, RType, ResourceType};
use crate::resource::{BindingFn, Resource, ResourceError, ResourceState, SharedResource};
use std::sync::Arc;
use vstd::prelude::*;

verus! {

/// Why the functions could not be planned.
#[derive(Debug)]
pub enum SolutionError {
    /// There is no function to plan.
    NoFunction,
    /// The plan refused a resource.
    Plan(PlanError),
    /// The role could not be read.
    Resource(ResourceError),
}

/// The AWS managed policy that lets a function write its logs.
pub open spec fn basic_execution_policy() -> Seq<char> {
    "arn:aws:iam::aws:policy/service-role/AWSLambdaBasicExecutionRole"@
}

/// The input of a Rust function on Lambda from its zip: the `provided.al2023` runtime, the
/// handler `main:handler` and the zip as its code; nothing else.
pub open spec fn is_rust_function_input(input: FunctionInput, zip: Seq<u8>) -> bool {
    &&& input.runtime == Some(SerializableRuntime::Providedal2023)
    &&& input.handler matches Some(h) && h@ == "main:handler"@
    &&& input.code matches Some(code) && code.zip_file matches Some(z) && z@ == zip
        && code.s3_bucket is None && code.s3_key is None && code.s3_object_version is None
        && code.image_uri is None
    &&& input.function_name is None && input.role is None && input.description is None
    &&& input.timeout is None && input.memory_size is None && input.publish is None
    &&& input.vpc_config is None && input.package_type is None && input.dead_letter_config is None
    &&& input.environment is None && input.kms_key_arn is None && input.tracing_config is None
    &&& input.tags is None && input.layers is None && input.file_system_configs is None
    &&& input.image_config is None && input.code_signing_config_arn is None
    &&& input.architectures is None && input.ephemeral_storage is None && input.snap_start is None
    &&& input.logging_config is None
}

/// The input of the Rust function whose zip is `zip` (see `is_rust_function_input`).
pub fn rust_function_input(zip: Vec<u8>) -> (input: FunctionInput)
    ensures
        is_rust_function_input(input, zip@),
{
    FunctionInput {
        function_name: None,
        runtime: Some(SerializableRuntime::Providedal2023),
        role: None,
        handler: Some("main:handler".to_string()),
        code: Some(
            SerializableFunctionCode {
                zip_file: Some(zip),
                s3_bucket: None,
                s3_key: None,
                s3_object_version: None,
                image_uri: None,
            },
        ),
        description: None,
        timeout: None,
        memory_size: None,
        publish: None,
        vpc_config: None,
        package_type: None,
        dead_letter_config: None,
        environment: None,
        kms_key_arn: None,
        tracing_config: None,
        tags: None,
        layers: None,
        file_system_configs: None,
        image_config: None,
        code_signing_config_arn: None,
        architectures: None,
        ephemeral_storage: None,
        snap_start: None,
        logging_config: None,
    }
}

/// The type of the resources of kind `kind` of `provider`.
pub(crate) fn type_of_kind(provider: &RProvider, kind: AwsType) -> (rt: ResourceType)
    ensures
        rt.rprovider.name@ == provider.name@,
        rt.rprovider.region@ == provider.region@,
        rt.rtype.name@ == aws_type_name(kind),
{
    ResourceType {
        rprovider: RProvider::new(provider.name.clone(), provider.region.clone()),
        rtype: RType { name: kind.name() },
    }
}

/// The id that a resource named `name` of kind `kind` gets from `provider`.
pub open spec fn kind_id(provider: RProvider, kind: AwsType, name: Seq<char>) -> Seq<char> {
    provider.name@ + "/"@ + provider.region@ + "/"@ + aws_type_name(kind) + "/"@ + name
}

/// The function resource `f` was created, wanted present, for the function named and zipped
/// as `function`: a Rust function input (see `is_rust_function_input`) named after it.
pub open spec fn planned_function(f: Resource<FunctionInput, FunctionOutput>, function: (String, Vec<u8>)) -> bool {
    &&& f.state == ResourceState::Present
    &&& f.input.function_name matches Some(n) && n@ == function.0@
    &&& is_rust_function_input(FunctionInput { function_name: None, ..f.input }, function.1@)
}

/// The policy resource `p` was created, wanted present, named `<name>-allow` and holding
/// nothing else yet.
pub open spec fn planned_policy(p: Resource<PolicyInput, PolicyOutput>, name: Seq<char>) -> bool {
    &&& p.state == ResourceState::Present
    &&& p.input.policy_name matches Some(n) && n@ == name + "-allow"@
    &&& p.input.path is None && p.input.policy_document is None && p.input.description is None
        && p.input.tags is None
}

/// The attachment `a`, of `provider`, gives the role named `role_name` the AWS managed policy
/// that lets a function write its logs: it is named after that policy (the part of its ARN
/// after the last slash) and the role, is brought about by `manager`, and was created with an
/// input that holds the policy's ARN and no role name yet (the role's binding supplies it).
pub open spec fn planned_basic_execution(
    a: SharedResource<AttachRolePolicyInput, AttachRolePolicyOutput>,
    provider: RProvider,
    role_name: Seq<char>,
    manager: Option<Arc<dyn ResourceManager<AttachRolePolicyInput, AttachRolePolicyOutput>>>,
) -> bool {
    let name = attachment_name(last_segment(basic_execution_policy()), role_name);
    &&& a.spec_name() == name
    &&& a.spec_id() == kind_id(provider, AwsType::AttachRolePolicy, name)
    &&& a.spec_manager() == manager
    &&& a.created_from().input.role_name is None
    &&& a.created_from().input.policy_arn matches Some(arn) && arn@ == basic_execution_policy()
    &&& a.created_from().output is None
}

/// The name of the AWS managed policy that lets a function write its logs is the part of its
/// ARN after the last slash, `AWSLambdaBasicExecutionRole`.
pub proof fn lemma_basic_execution_policy_name()
    ensures
        last_segment(basic_execution_policy()) == "AWSLambdaBasicExecutionRole"@,
{
    reveal_strlit("arn:aws:iam::aws:policy/service-role/AWSLambdaBasicExecutionRole");
    reveal_strlit("AWSLambdaBasicExecutionRole");
    let arn = basic_execution_policy();
    assert(arn.len() == 64);
    assert(arn[36] == '/');
    assert forall|j: int| 36 < j < 64 implies arn[j] != '/' by {
        assert(arn.subrange(37, 64) =~= "AWSLambdaBasicExecutionRole"@);
        assert(arn[j] == arn.subrange(37, 64)[j - 37]);
    }
    let i = choose|i: int|
        0 <= i < arn.len() && arn[i] == '/' && forall|j: int| i < j < arn.len() ==> arn[j] != '/';
    assert(i == 36) by {
        if i < 36 {
            assert(arn[36] != '/');
        }
        if i > 36 {
            assert(arn[i] != '/');
        }
    }
    assert(arn.subrange(37, 64) =~= "AWSLambdaBasicExecutionRole"@);
}

/// Planning Rust functions on Lambda gives the role the AWS managed policy that lets a
/// function write its logs: the attachment handed to the plan is named
/// `attach-AWSLambdaBasicExecutionRole-<role>`, and its input holds that policy's ARN and no
/// role name yet.
pub proof fn law_role_gets_basic_execution(
    a: SharedResource<AttachRolePolicyInput, AttachRolePolicyOutput>,
    provider: RProvider,
    role_name: Seq<char>,
    manager: Option<Arc<dyn ResourceManager<AttachRolePolicyInput, AttachRolePolicyOutput>>>,
)
    requires
        planned_basic_execution(a, provider, role_name, manager),
    ensures
        a.spec_name() == "attach-AWSLambdaBasicExecutionRole-"@ + role_name,
        a.created_from().input.policy_arn matches Some(arn)
            && arn@ == "arn:aws:iam::aws:policy/service-role/AWSLambdaBasicExecutionRole"@,
        a.created_from().input.role_name is None,
{
    lemma_basic_execution_policy_name();
    reveal_strlit("attach-AWSLambdaBasicExecutionRole-");
    reveal_strlit("attach-");
    reveal_strlit("-");
    reveal_strlit("AWSLambdaBasicExecutionRole");
    assert("attach-"@ + "AWSLambdaBasicExecutionRole"@ + "-"@ =~= "attach-AWSLambdaBasicExecutionRole-"@);
    assert(a.spec_name() =~= "attach-AWSLambdaBasicExecutionRole-"@ + role_name);
}

/// The binding of a policy that lets invoke `function`.
pub fn invoke_binding(function: &SharedResource<FunctionInput, FunctionOutput>) -> (b:
    PolicyResourceBinding<FunctionInput, FunctionOutput>)
    ensures
        b.resource == *function,
        b.effect@ == "Allow"@,
        b.actions@.len() == 1 && b.actions@[0]@ == "lambda:InvokeFunction"@,
{
    PolicyResourceBinding {
        resource: function.clone(),
        effect: "Allow".to_string(),
        actions: vec!["lambda:InvokeFunction".to_string()],
    }
}

/// Plans Rust functions on Lambda, each from its name and zip, to run under `role`.
///
/// The bindings are made by the caller, as Verus does not take the making of a shared binding
/// function from a binding: `attach_to_role` binds the attachment to the role
/// (`AttachRoleBinding`), `run_under_role` a function to the role (`FunctionRoleBinding`),
/// `allow_invoking` a policy to the function it lets invoke (`PolicyResourceBinding` with
/// effect `Allow` and action `lambda:InvokeFunction`, see `invoke_binding`).
///
/// No function is an error, and nothing is added to the plan. Else the role gets the AWS
/// policy that lets a function write its logs (through an attachment resource named after the
/// policy and the role, in the state of the role); then, for each function in order, a
/// function resource named after it (see `rust_function_input`), bound to the role, and a
/// policy named `<name>-allow` that lets invoke the function, bound to it. The first
/// resource the plan refuses ends it with that error. The function and policy of each
/// function are returned, in order.
pub fn rust_lambda_functions<R, FF, FP, FA, BA, BF, BP>(
    plan: &SharedPlan<R>,
    provider: &RProvider,
    role: &SharedResource<RoleInput, RoleOutput>,
    functions: Vec<(String, Vec<u8>)>,
    function_manager: Option<Arc<dyn ResourceManager<FunctionInput, FunctionOutput>>>,
    policy_manager: Option<Arc<dyn ResourceManager<PolicyInput, PolicyOutput>>>,
    attach_manager: Option<Arc<dyn ResourceManager<AttachRolePolicyInput, AttachRolePolicyOutput>>>,
    into_function: FF,
    into_policy: FP,
    into_attach: FA,
    attach_to_role: BA,
    run_under_role: BF,
    allow_invoking: BP,
) -> (r: Result<
    Vec<(SharedResource<FunctionInput, FunctionOutput>, SharedResource<PolicyInput, PolicyOutput>)>,
    SolutionError,
>) where
    FF: Fn(SharedResource<FunctionInput, FunctionOutput>) -> R,
    FP: Fn(SharedResource<PolicyInput, PolicyOutput>) -> R,
    FA: Fn(SharedResource<AttachRolePolicyInput, AttachRolePolicyOutput>) -> R,
    BA: Fn(&SharedResource<RoleInput, RoleOutput>) -> BindingFn<AttachRolePolicyInput>,
    BF: Fn(&SharedResource<RoleInput, RoleOutput>) -> BindingFn<FunctionInput>,
    BP: Fn(&SharedResource<FunctionInput, FunctionOutput>) -> BindingFn<PolicyInput>,

    requires
        forall|s: SharedResource<FunctionInput, FunctionOutput>| #[trigger] into_function.requires((s,)),
        forall|s: SharedResource<PolicyInput, PolicyOutput>| #[trigger] into_policy.requires((s,)),
        forall|s: SharedResource<AttachRolePolicyInput, AttachRolePolicyOutput>| #[trigger] into_attach.requires((s,)),
        forall|s: &SharedResource<RoleInput, RoleOutput>| #[trigger] attach_to_role.requires((s,)),
        forall|s: &SharedResource<RoleInput, RoleOutput>| #[trigger] run_under_role.requires((s,)),
        forall|s: &SharedResource<FunctionInput, FunctionOutput>| #[trigger] allow_invoking.requires((s,)),
    ensures
        functions@.len() == 0 ==> r matches Err(SolutionError::NoFunction),
        r is Err ==> r matches Err(SolutionError::NoFunction) || r matches Err(SolutionError::Plan(
            PlanError::ResourceAlreadyExists(_),
        )),
        r is Ok ==> exists|a: SharedResource<AttachRolePolicyInput, AttachRolePolicyOutput>, h: R|
            #[trigger] into_attach.ensures((a,), h) && planned_basic_execution(
                a,
                *provider,
                role.spec_name(),
                attach_manager,
            ),
        r is Ok ==> exists|b: BindingFn<AttachRolePolicyInput>| #[trigger] attach_to_role.ensures((role,), b),
        r matches Ok(planned) ==> planned@.len() == functions@.len() && forall|i: int|
            0 <= i < planned@.len() ==> {
                &&& (#[trigger] planned@[i]).0.spec_name() == functions@[i].0@
                &&& planned@[i].0.spec_id() == kind_id(*provider, AwsType::Function, functions@[i].0@)
                &&& planned@[i].1.spec_name() == functions@[i].0@ + "-allow"@
                &&& planned@[i].1.spec_id() == kind_id(
                    *provider,
                    AwsType::Policy,
                    functions@[i].0@ + "-allow"@,
                )
                &&& planned_function(planned@[i].0.created_from(), functions@[i])
                &&& planned_policy(planned@[i].1.created_from(), functions@[i].0@)
            },
{
    if functions.len() == 0 {
        return Err(SolutionError::NoFunction);
    }
    let policy_arn = "arn:aws:iam::aws:policy/service-role/AWSLambdaBasicExecutionRole";
    let role_name = role.name();
    let attach_id = attachment_id(policy_name_of_arn(policy_arn), role_name.as_str());
    let role_state = match role.state() {
        Ok(state) => state,
        Err(err) => return Err(SolutionError::Resource(err)),
    };
    let attach_input = AttachRolePolicyInput { role_name: None, policy_arn: Some(policy_arn.to_string()) };
    let attach = match plan.resource(
        type_of_kind(provider, AwsType::AttachRolePolicy),
        attach_manager,
        attach_id.as_str(),
        role_state,
        attach_input,
        into_attach,
    ) {
        Ok(attach) => attach,
        Err(err) => return Err(SolutionError::Plan(err)),
    };
    let to_role = attach_to_role(role);
    assert(attach_to_role.ensures((role,), to_role));
    let _ = attach.bind(role, to_role);
    let mut planned: Vec<(SharedResource<FunctionInput, FunctionOutput>, SharedResource<PolicyInput, PolicyOutput>)> = Vec::new();
    let ghost all = functions@;
    let n = functions.len();
    let mut i: usize = 0;
    while i < n
        invariant
            n == all.len(),
            functions@ == all,
            i <= n,
            planned@.len() == i,
            forall|s: SharedResource<FunctionInput, FunctionOutput>| #[trigger] into_function.requires((s,)),
            forall|s: SharedResource<PolicyInput, PolicyOutput>| #[trigger] into_policy.requires((s,)),
            forall|s: &SharedResource<RoleInput, RoleOutput>| #[trigger] run_under_role.requires((s,)),
            forall|s: &SharedResource<FunctionInput, FunctionOutput>| #[trigger] allow_invoking.requires((s,)),
            forall|j: int|
                0 <= j < i ==> {
                    &&& (#[trigger] planned@[j]).0.spec_name() == all[j].0@
                    &&& planned@[j].0.spec_id() == kind_id(*provider, AwsType::Function, all[j].0@)
                    &&& planned@[j].1.spec_name() == all[j].0@ + "-allow"@
                    &&& planned@[j].1.spec_id() == kind_id(
                        *provider,
                        AwsType::Policy,
                        all[j].0@ + "-allow"@,
                    )
                    &&& planned_function(planned@[j].0.created_from(), all[j])
                    &&& planned_policy(planned@[j].1.created_from(), all[j].0@)
                },
        decreases n - i,
    {
        let name = functions[i].0.clone();
        let zip = functions[i].1.clone();
        let mut input = rust_function_input(zip);
        function_lib::input_hook(name.as_str(), &mut input);
        let function = match plan.resource(
            type_of_kind(provider, AwsType::Function),
            share_manager(&function_manager),
            name.as_str(),
            ResourceState::Present,
            input,
            |s: SharedResource<FunctionInput, FunctionOutput>| into_function(s),
        ) {
            Ok(function) => function,
            Err(err) => return Err(SolutionError::Plan(err)),
        };
        let _ = function.bind(role, run_under_role(role));
        let mut policy_name = name.clone();
        policy_name.append("-allow");
        let mut policy_input = PolicyInput {
            policy_name: None,
            path: None,
            policy_document: None,
            description: None,
            tags: None,
        };
        policy_lib::input_hook(policy_name.as_str(), &mut policy_input);
        let policy = match plan.resource(
            type_of_kind(provider, AwsType::Policy),
            share_manager(&policy_manager),
            policy_name.as_str(),
            ResourceState::Present,
            policy_input,
            |s: SharedResource<PolicyInput, PolicyOutput>| into_policy(s),
        ) {
            Ok(policy) => policy,
            Err(err) => return Err(SolutionError::Plan(err)),
        };
        let _ = policy.bind(&function, allow_invoking(&function));
        planned.push((function, policy));
        i = i + 1;
    }
    Ok(planned)
}


/// Lets `user` invoke the functions whose policies are `policies`: attaches each policy, in
/// order, to the user (see `attach_user_policy`). The first attachment the plan refuses ends
/// it with that error; else the attachments are returned, in order.
pub fn grant_permission_to_user<R, FA, BP, BU>(
    plan: &SharedPlan<R>,
    provider: &RProvider,
    user: &SharedResource<UserInput, UserOutput>,
    policies: &Vec<SharedResource<PolicyInput, PolicyOutput>>,
    manager: Option<Arc<dyn ResourceManager<AttachUserPolicyInput, AttachUserPolicyOutput>>>,
    into_attach: FA,
    to_policy: BP,
    to_user: BU,
) -> (r: Result<Vec<SharedResource<AttachUserPolicyInput, AttachUserPolicyOutput>>, PlanError>) where
    FA: Fn(SharedResource<AttachUserPolicyInput, AttachUserPolicyOutput>) -> R,
    BP: Fn(&SharedResource<PolicyInput, PolicyOutput>) -> BindingFn<AttachUserPolicyInput>,
    BU: Fn(&SharedResource<UserInput, UserOutput>) -> BindingFn<AttachUserPolicyInput>,

    requires
        forall|s: SharedResource<AttachUserPolicyInput, AttachUserPolicyOutput>| #[trigger] into_attach.requires((s,)),
        forall|s: &SharedResource<PolicyInput, PolicyOutput>| #[trigger] to_policy.requires((s,)),
        forall|s: &SharedResource<UserInput, UserOutput>| #[trigger] to_user.requires((s,)),
    ensures
        r matches Ok(attached) ==> attached@.len() == policies@.len() && forall|i: int|
            0 <= i < attached@.len() ==> planned_attachment(
                #[trigger] attached@[i],
                *provider,
                attachment_name(policies@[i].spec_name(), user.spec_name()),
                manager,
                AttachUserPolicyInput { user_name: None, policy_arn: None },
            ),
        r matches Err(e) ==> exists|i: int|
            0 <= i < policies@.len() && (e matches PlanError::ResourceAlreadyExists(n) && n@
                == attachment_name((#[trigger] policies@[i]).spec_name(), user.spec_name())),
{
    let mut attached: Vec<SharedResource<AttachUserPolicyInput, AttachUserPolicyOutput>> = Vec::new();
    let mut i: usize = 0;
    while i < policies.len()
        invariant
            i <= policies@.len(),
            attached@.len() == i,
            forall|s: SharedResource<AttachUserPolicyInput, AttachUserPolicyOutput>| #[trigger] into_attach.requires((s,)),
            forall|s: &SharedResource<PolicyInput, PolicyOutput>| #[trigger] to_policy.requires((s,)),
            forall|s: &SharedResource<UserInput, UserOutput>| #[trigger] to_user.requires((s,)),
            forall|j: int|
                0 <= j < i ==> planned_attachment(
                    #[trigger] attached@[j],
                    *provider,
                    attachment_name(policies@[j].spec_name(), user.spec_name()),
                    manager,
                    AttachUserPolicyInput { user_name: None, policy_arn: None },
                ),
        decreases policies@.len() - i,
    {
        let attach = match attach_user_policy(
            plan,
            provider,
            user,
            &policies[i],
            share_manager(&manager),
            |s: SharedResource<AttachUserPolicyInput, AttachUserPolicyOutput>| into_attach(s),
            |p: &SharedResource<PolicyInput, PolicyOutput>| to_policy(p),
            |u: &SharedResource<UserInput, UserOutput>| to_user(u),
        ) {
            Ok(attach) => attach,
            Err(err) => {
                assert(0 <= i < policies@.len());
                return Err(err);
            },
        };
        attached.push(attach);
        i = i + 1;
    }
    Ok(attached)
}

} // verus!
