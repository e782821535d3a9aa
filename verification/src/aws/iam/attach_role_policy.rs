//! Attachments of IAM policies to roles.

use crate::aws::iam::role::{RoleInput, RoleOutput};
use crate::aws::iam::policy::{policy_arn_of, PolicyInput, PolicyOutput};
use crate::resource::{output_missing, Binding, ResourceError, SharedResource};
use vstd::prelude::*;

verus! {

#[derive(Debug, Clone, Default)]
pub struct SerializableAttachRolePolicyInput {
    pub role_name: Option<String>,
    pub policy_arn: Option<String>,
}

#[derive(Debug, Clone, Default)]
pub struct SerializableGetRolePolicyOutput {
    pub role_name: String,
    pub policy_name: String,
    pub policy_document: String,
}

pub type AttachRolePolicyInput = SerializableAttachRolePolicyInput;
pub type AttachRolePolicyOutput = SerializableGetRolePolicyOutput;

/// The attachment is to the role: its role name is the role's name.
pub fn copy_role_name(input: &mut AttachRolePolicyInput, role: &RoleOutput)
    ensures
        *final(input) == (AttachRolePolicyInput { role_name: Some(role.role_name), ..*old(input) }),
{
    input.role_name = Some(role.role_name.clone());
}

/// The name of the role `role`.
pub fn role_name_of(role: &RoleOutput) -> (name: String)
    ensures
        name == role.role_name,
{
    role.role_name.clone()
}

/// Binds a policy attachment to its role (see `copy_role_name`).
pub struct AttachRoleBinding {
    pub role: SharedResource<RoleInput, RoleOutput>,
}

/// The input `before` with what the binding takes from the dependency's output `o`.
pub open spec fn with_role_name(before: AttachRolePolicyInput, o: RoleOutput) -> AttachRolePolicyInput {
    AttachRolePolicyInput { role_name: Some(o.role_name), ..before }
}

impl Binding<AttachRolePolicyInput> for AttachRoleBinding {
    open spec fn binds(&self, before: AttachRolePolicyInput, after: AttachRolePolicyInput, r: Result<(), ResourceError>) -> bool {
        ||| r is Ok && exists|o: RoleOutput|
            after == #[trigger] with_role_name(before, o) && self.role.can_output(o)
        ||| output_missing(r) && after == before
    }

    /// Only `role_name` of the input may change, to the name in the role's output as it is
    /// now; when the role has no output yet, nothing does.
    fn apply(&self, input: &mut AttachRolePolicyInput) -> (r: Result<(), ResourceError>)
        ensures
            *final(input) == (AttachRolePolicyInput { role_name: final(input).role_name, ..*old(input) }),
            r is Err ==> *final(input) == *old(input) && r matches Err(
                ResourceError::DependencyOutputIsMissing(_),
            ),
    {
        let read = self.role.read_output(role_name_of);
        match read {
            Ok(name) => {
                input.role_name = Some(name);
                proof {
                    let o = choose|o: RoleOutput|
                        #![trigger self.role.can_output(o)]
                        o.role_name == name && self.role.can_output(o);
                    assert(*input == with_role_name(*old(input), o));
                }
                Ok(())
            },
            Err(err) => Err(err),
        }
    }
}

/// The attachment is of the policy: its policy ARN is the policy's ARN.
pub fn copy_policy_arn(input: &mut AttachRolePolicyInput, policy: &PolicyOutput)
    ensures
        *final(input) == (AttachRolePolicyInput { policy_arn: policy.arn, ..*old(input) }),
{
    input.policy_arn = match &policy.arn {
        Some(arn) => Some(arn.clone()),
        None => None,
    };
}

/// Binds a policy attachment to its policy (see `copy_policy_arn`).
pub struct AttachRolePolicyBinding {
    pub policy: SharedResource<PolicyInput, PolicyOutput>,
}

/// The input `before` with what the binding takes from the dependency's output `o`.
pub open spec fn with_policy_arn(before: AttachRolePolicyInput, o: PolicyOutput) -> AttachRolePolicyInput {
    AttachRolePolicyInput { policy_arn: o.arn, ..before }
}

impl Binding<AttachRolePolicyInput> for AttachRolePolicyBinding {
    open spec fn binds(&self, before: AttachRolePolicyInput, after: AttachRolePolicyInput, r: Result<(), ResourceError>) -> bool {
        ||| r is Ok && exists|o: PolicyOutput|
            after == #[trigger] with_policy_arn(before, o) && self.policy.can_output(o)
        ||| output_missing(r) && after == before
    }

    /// Only `policy_arn` of the input may change; when the dependency has no output yet, nothing does.
    fn apply(&self, input: &mut AttachRolePolicyInput) -> (r: Result<(), ResourceError>)
        ensures
            *final(input) == (AttachRolePolicyInput { policy_arn: final(input).policy_arn, ..*old(input) }),
            r is Err ==> *final(input) == *old(input) && r matches Err(
                ResourceError::DependencyOutputIsMissing(_),
            ),
    {
        match self.policy.read_output(policy_arn_of) {
            Ok(value) => {
                input.policy_arn = value;
                proof {
                    let o = choose|o: PolicyOutput|
                        #![trigger self.policy.can_output(o)]
                        o.arn == value && self.policy.can_output(o);
                    assert(*input == with_policy_arn(*old(input), o));
                }
                Ok(())
            },
            Err(err) => Err(err),
        }
    }
}

/// The attachment a role binding leaves names the role: the role name written is the name in an
/// output the role can have (see `SharedResource::can_output`), and nothing else of the
/// attachment changes; while the role has no output, nothing changes at all.
pub proof fn law_role_attachment_names_the_role(
    b: AttachRoleBinding,
    before: AttachRolePolicyInput,
    after: AttachRolePolicyInput,
    r: Result<(), ResourceError>,
)
    requires
        b.binds(before, after, r),
    ensures
        r is Ok ==> exists|o: RoleOutput|
            #![trigger b.role.can_output(o)]
            b.role.can_output(o) && after.role_name == Some(o.role_name) && after.policy_arn
                == before.policy_arn,
        r is Err ==> after == before,
{
    if r is Ok {
        let o = choose|o: RoleOutput| after == #[trigger] with_role_name(before, o) && b.role.can_output(o);
        assert(b.role.can_output(o) && after.role_name == Some(o.role_name));
    }
}

} // verus!
