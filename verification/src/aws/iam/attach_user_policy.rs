//! Attachments of IAM policies to users.

use crate::aws::iam::user::{user_name_in, user_name_of, UserInput, UserOutput};
use crate::aws::iam::policy::{policy_arn_of, PolicyInput, PolicyOutput};
use crate::aws::iam::{attachment_id, attachment_name, last_segment, policy_name_of_arn};
use crate::aws::lambda::solution::{kind_id, type_of_kind};
use crate::aws::AwsType;
use crate::manager::ResourceManager;
use crate::plan::{PlanError, SharedPlan};
use crate::registry::RProvider;
use crate::resource::{
    output_missing, Binding, BindingFn, ResourceError, ResourceState, SharedResource,
};
use std::sync::Arc;
use vstd::prelude::*;

verus! {

#[derive(Debug, Clone, Default)]
pub struct SerializableAttachUserPolicyInput {
    pub user_name: Option<String>,
    pub policy_arn: Option<String>,
}

#[derive(Debug, Clone, Default)]
pub struct SerializableGetUserPolicyOutput {
    pub user_name: String,
    pub policy_name: String,
    pub policy_document: String,
}

pub type AttachUserPolicyInput = SerializableAttachUserPolicyInput;
pub type AttachUserPolicyOutput = SerializableGetUserPolicyOutput;

/// The attachment is to the user: its user name is the user's name, when the
/// user's record holds one.
pub fn copy_user_name(input: &mut AttachUserPolicyInput, user: &UserOutput)
    ensures
        *final(input) == (AttachUserPolicyInput {
            user_name: match user.user {
                Some(g) => Some(g.user_name),
                None => None,
            },
            ..*old(input)
        }),
{
    input.user_name = match &user.user {
        Some(g) => Some(g.user_name.clone()),
        None => None,
    };
}

/// Binds a policy attachment to its user (see `copy_user_name`).
pub struct AttachUserBinding {
    pub user: SharedResource<UserInput, UserOutput>,
}

/// The input `before` with what the binding takes from the dependency's output `o`.
pub open spec fn with_user_name(before: AttachUserPolicyInput, o: UserOutput) -> AttachUserPolicyInput {
    AttachUserPolicyInput {
        user_name: match o.user {
            Some(g) => Some(g.user_name),
            None => None,
        },
        ..before
    }
}

impl Binding<AttachUserPolicyInput> for AttachUserBinding {
    open spec fn binds(&self, before: AttachUserPolicyInput, after: AttachUserPolicyInput, r: Result<(), ResourceError>) -> bool {
        ||| r is Ok && exists|o: UserOutput|
            after == #[trigger] with_user_name(before, o) && self.user.can_output(o)
        ||| output_missing(r) && after == before
    }

    /// Only `user_name` of the input may change; when the dependency has no output yet, nothing does.
    fn apply(&self, input: &mut AttachUserPolicyInput) -> (r: Result<(), ResourceError>)
        ensures
            *final(input) == (AttachUserPolicyInput { user_name: final(input).user_name, ..*old(input) }),
            r is Err ==> *final(input) == *old(input) && r matches Err(
                ResourceError::DependencyOutputIsMissing(_),
            ),
    {
        match self.user.read_output(user_name_of) {
            Ok(value) => {
                input.user_name = value;
                proof {
                    let o = choose|o: UserOutput|
                        #![trigger self.user.can_output(o)]
                        user_name_in(o) == value && self.user.can_output(o);
                    assert(*input == with_user_name(*old(input), o));
                }
                Ok(())
            },
            Err(err) => Err(err),
        }
    }
}

/// The attachment is of the policy: its policy ARN is the policy's ARN.
pub fn copy_policy_arn(input: &mut AttachUserPolicyInput, policy: &PolicyOutput)
    ensures
        *final(input) == (AttachUserPolicyInput { policy_arn: policy.arn, ..*old(input) }),
{
    input.policy_arn = match &policy.arn {
        Some(arn) => Some(arn.clone()),
        None => None,
    };
}

/// Binds a policy attachment to its policy (see `copy_policy_arn`).
pub struct AttachUserPolicyBinding {
    pub policy: SharedResource<PolicyInput, PolicyOutput>,
}

/// The input `before` with what the binding takes from the dependency's output `o`.
pub open spec fn with_policy_arn(before: AttachUserPolicyInput, o: PolicyOutput) -> AttachUserPolicyInput {
    AttachUserPolicyInput { policy_arn: o.arn, ..before }
}

impl Binding<AttachUserPolicyInput> for AttachUserPolicyBinding {
    open spec fn binds(&self, before: AttachUserPolicyInput, after: AttachUserPolicyInput, r: Result<(), ResourceError>) -> bool {
        ||| r is Ok && exists|o: PolicyOutput|
            after == #[trigger] with_policy_arn(before, o) && self.policy.can_output(o)
        ||| output_missing(r) && after == before
    }

    /// Only `policy_arn` of the input may change; when the dependency has no output yet, nothing does.
    fn apply(&self, input: &mut AttachUserPolicyInput) -> (r: Result<(), ResourceError>)
        ensures
            *final(input) == (AttachUserPolicyInput { policy_arn: final(input).policy_arn, ..*old(input) }),
            r is Err ==> *final(input) == *old(input) && r matches Err(
                ResourceError::DependencyOutputIsMissing(_),
            ),
    {
        match self.policy.read_output(policy_arn_of) {
            Ok(value) => {
                input.policy_arn = value;
                proof {
                    let o = choose|o: PolicyOutput|
                        #![trigger self.policy.can_output(o)]
                        o.arn == value && self.policy.can_output(o);
                    assert(*input == with_policy_arn(*old(input), o));
                }
                Ok(())
            },
            Err(err) => Err(err),
        }
    }
}


/// The attachment resource `a`, of `provider`, is the one named `name`, to be brought about by
/// `manager`, and was created from `input` with nothing else yet.
pub open spec fn planned_attachment(
    a: SharedResource<AttachUserPolicyInput, AttachUserPolicyOutput>,
    provider: RProvider,
    name: Seq<char>,
    manager: Option<Arc<dyn ResourceManager<AttachUserPolicyInput, AttachUserPolicyOutput>>>,
    input: AttachUserPolicyInput,
) -> bool {
    &&& a.spec_name() == name
    &&& a.spec_id() == kind_id(provider, AwsType::AttachUserPolicy, name)
    &&& a.spec_manager() == manager
    &&& a.created_from().input == input
    &&& a.created_from().output is None
    &&& a.created_from().dependencies@.len() == 0
    &&& a.created_from().bindings@.len() == 0
}

/// Attaches `policy` to `user`: adds to the plan an attachment resource named after the policy
/// and the user (see `attachment_name`), in the state the user is wanted in, with an empty
/// input, bound to the policy (`to_policy`, which makes an `AttachUserPolicyBinding`) and to
/// the user (`to_user`, which makes an `AttachUserBinding`); the bindings are made by the
/// caller, as Verus does not take the making of a shared binding function from a binding.
/// The plan refuses a second attachment of the same name.
pub fn attach_user_policy<R, FA, BP, BU>(
    plan: &SharedPlan<R>,
    provider: &RProvider,
    user: &SharedResource<UserInput, UserOutput>,
    policy: &SharedResource<PolicyInput, PolicyOutput>,
    manager: Option<Arc<dyn ResourceManager<AttachUserPolicyInput, AttachUserPolicyOutput>>>,
    into_attach: FA,
    to_policy: BP,
    to_user: BU,
) -> (r: Result<SharedResource<AttachUserPolicyInput, AttachUserPolicyOutput>, PlanError>) where
    FA: Fn(SharedResource<AttachUserPolicyInput, AttachUserPolicyOutput>) -> R,
    BP: Fn(&SharedResource<PolicyInput, PolicyOutput>) -> BindingFn<AttachUserPolicyInput>,
    BU: Fn(&SharedResource<UserInput, UserOutput>) -> BindingFn<AttachUserPolicyInput>,

    requires
        forall|s: SharedResource<AttachUserPolicyInput, AttachUserPolicyOutput>| #[trigger] into_attach.requires((s,)),
        forall|s: &SharedResource<PolicyInput, PolicyOutput>| #[trigger] to_policy.requires((s,)),
        forall|s: &SharedResource<UserInput, UserOutput>| #[trigger] to_user.requires((s,)),
    ensures
        r matches Ok(a) ==> planned_attachment(
            a,
            *provider,
            attachment_name(policy.spec_name(), user.spec_name()),
            manager,
            AttachUserPolicyInput { user_name: None, policy_arn: None },
        ),
        r matches Err(e) ==> (e matches PlanError::ResourceAlreadyExists(n) && n@ == attachment_name(
            policy.spec_name(),
            user.spec_name(),
        )),
{
    let policy_name = policy.name();
    let user_name = user.name();
    let id = attachment_id(policy_name.as_str(), user_name.as_str());
    let state = match user.state() {
        Ok(state) => state,
        Err(_) => ResourceState::Present,
    };
    let input = AttachUserPolicyInput { user_name: None, policy_arn: None };
    let attach = match plan.resource(
        type_of_kind(provider, AwsType::AttachUserPolicy),
        manager,
        id.as_str(),
        state,
        input,
        |s: SharedResource<AttachUserPolicyInput, AttachUserPolicyOutput>| into_attach(s),
    ) {
        Ok(attach) => attach,
        Err(err) => return Err(err),
    };
    let _ = attach.bind(policy, to_policy(policy));
    let _ = attach.bind(user, to_user(user));
    Ok(attach)
}

/// Attaches the AWS managed policy `policy_arn` to `user`: adds to the plan an attachment
/// resource named after the policy (the part of its ARN after the last slash) and the user,
/// in the state the user is wanted in, whose input holds the ARN, bound to the user
/// (`to_user`, which makes an `AttachUserBinding`). The plan refuses a second attachment of
/// the same name.
pub fn attach_user_managed_policy<R, FA, BU>(
    plan: &SharedPlan<R>,
    provider: &RProvider,
    user: &SharedResource<UserInput, UserOutput>,
    policy_arn: &str,
    manager: Option<Arc<dyn ResourceManager<AttachUserPolicyInput, AttachUserPolicyOutput>>>,
    into_attach: FA,
    to_user: BU,
) -> (r: Result<SharedResource<AttachUserPolicyInput, AttachUserPolicyOutput>, PlanError>) where
    FA: Fn(SharedResource<AttachUserPolicyInput, AttachUserPolicyOutput>) -> R,
    BU: Fn(&SharedResource<UserInput, UserOutput>) -> BindingFn<AttachUserPolicyInput>,

    requires
        forall|s: SharedResource<AttachUserPolicyInput, AttachUserPolicyOutput>| #[trigger] into_attach.requires((s,)),
        forall|s: &SharedResource<UserInput, UserOutput>| #[trigger] to_user.requires((s,)),
    ensures
        r matches Ok(a) ==> exists|arn: String| #![trigger arn@]
            arn@ == policy_arn@ && planned_attachment(
                a,
                *provider,
                attachment_name(last_segment(policy_arn@), user.spec_name()),
                manager,
                AttachUserPolicyInput { user_name: None, policy_arn: Some(arn) },
            ),
        r matches Err(e) ==> (e matches PlanError::ResourceAlreadyExists(n) && n@ == attachment_name(
            last_segment(policy_arn@),
            user.spec_name(),
        )),
{
    let user_name = user.name();
    let id = attachment_id(policy_name_of_arn(policy_arn), user_name.as_str());
    let state = match user.state() {
        Ok(state) => state,
        Err(_) => ResourceState::Present,
    };
    let arn = policy_arn.to_string();
    let ghost kept = arn;
    let input = AttachUserPolicyInput { user_name: None, policy_arn: Some(arn) };
    let attach = match plan.resource(
        type_of_kind(provider, AwsType::AttachUserPolicy),
        manager,
        id.as_str(),
        state,
        input,
        |s: SharedResource<AttachUserPolicyInput, AttachUserPolicyOutput>| into_attach(s),
    ) {
        Ok(attach) => attach,
        Err(err) => return Err(err),
    };
    let _ = attach.bind(user, to_user(user));
    assert(kept@ == policy_arn@);
    Ok(attach)
}

} // verus!
