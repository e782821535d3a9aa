//! Attachments of IAM policies to groups.

use crate::aws::iam::group::{group_name_in, group_name_of, GroupInput, GroupOutput};
use crate::aws::iam::policy::{policy_arn_of, PolicyInput, PolicyOutput};
use crate::resource::{output_missing, Binding, ResourceError, SharedResource};
use vstd::prelude::*;

verus! {

#[derive(Debug, Clone, Default)]
pub struct SerializableAttachGroupPolicyInput {
    pub group_name: Option<String>,
    pub policy_arn: Option<String>,
}

#[derive(Debug, Clone, Default)]
pub struct SerializableGetGroupPolicyOutput {
    pub group_name: String,
    pub policy_name: String,
    pub policy_document: String,
}

pub type AttachGroupPolicyInput = SerializableAttachGroupPolicyInput;
pub type AttachGroupPolicyOutput = SerializableGetGroupPolicyOutput;

/// The attachment is to the group: its group name is the group's name, when the
/// group's record holds one.
pub fn copy_group_name(input: &mut AttachGroupPolicyInput, group: &GroupOutput)
    ensures
        *final(input) == (AttachGroupPolicyInput {
            group_name: match group.group {
                Some(g) => Some(g.group_name),
                None => None,
            },
            ..*old(input)
        }),
{
    input.group_name = match &group.group {
        Some(g) => Some(g.group_name.clone()),
        None => None,
    };
}

/// Binds a policy attachment to its group (see `copy_group_name`).
pub struct AttachGroupBinding {
    pub group: SharedResource<GroupInput, GroupOutput>,
}

/// The input `before` with what the binding takes from the dependency's output `o`.
pub open spec fn with_group_name(before: AttachGroupPolicyInput, o: GroupOutput) -> AttachGroupPolicyInput {
    AttachGroupPolicyInput {
        group_name: match o.group {
            Some(g) => Some(g.group_name),
            None => None,
        },
        ..before
    }
}

impl Binding<AttachGroupPolicyInput> for AttachGroupBinding {
    open spec fn binds(&self, before: AttachGroupPolicyInput, after: AttachGroupPolicyInput, r: Result<(), ResourceError>) -> bool {
        ||| r is Ok && exists|o: GroupOutput|
            after == #[trigger] with_group_name(before, o) && self.group.can_output(o)
        ||| output_missing(r) && after == before
    }

    /// Only `group_name` of the input may change; when the dependency has no output yet, nothing does.
    fn apply(&self, input: &mut AttachGroupPolicyInput) -> (r: Result<(), ResourceError>)
        ensures
            *final(input) == (AttachGroupPolicyInput { group_name: final(input).group_name, ..*old(input) }),
            r is Err ==> *final(input) == *old(input) && r matches Err(
                ResourceError::DependencyOutputIsMissing(_),
            ),
    {
        match self.group.read_output(group_name_of) {
            Ok(value) => {
                input.group_name = value;
                proof {
                    let o = choose|o: GroupOutput|
                        #![trigger self.group.can_output(o)]
                        group_name_in(o) == value && self.group.can_output(o);
                    assert(*input == with_group_name(*old(input), o));
                }
                Ok(())
            },
            Err(err) => Err(err),
        }
    }
}

/// The attachment is of the policy: its policy ARN is the policy's ARN.
pub fn copy_policy_arn(input: &mut AttachGroupPolicyInput, policy: &PolicyOutput)
    ensures
        *final(input) == (AttachGroupPolicyInput { policy_arn: policy.arn, ..*old(input) }),
{
    input.policy_arn = match &policy.arn {
        Some(arn) => Some(arn.clone()),
        None => None,
    };
}

/// Binds a policy attachment to its policy (see `copy_policy_arn`).
pub struct AttachGroupPolicyBinding {
    pub policy: SharedResource<PolicyInput, PolicyOutput>,
}

/// The input `before` with what the binding takes from the dependency's output `o`.
pub open spec fn with_policy_arn(before: AttachGroupPolicyInput, o: PolicyOutput) -> AttachGroupPolicyInput {
    AttachGroupPolicyInput { policy_arn: o.arn, ..before }
}

impl Binding<AttachGroupPolicyInput> for AttachGroupPolicyBinding {
    open spec fn binds(&self, before: AttachGroupPolicyInput, after: AttachGroupPolicyInput, r: Result<(), ResourceError>) -> bool {
        ||| r is Ok && exists|o: PolicyOutput|
            after == #[trigger] with_policy_arn(before, o) && self.policy.can_output(o)
        ||| output_missing(r) && after == before
    }

    /// Only `policy_arn` of the input may change; when the dependency has no output yet, nothing does.
    fn apply(&self, input: &mut AttachGroupPolicyInput) -> (r: Result<(), ResourceError>)
        ensures
            *final(input) == (AttachGroupPolicyInput { policy_arn: final(input).policy_arn, ..*old(input) }),
            r is Err ==> *final(input) == *old(input) && r matches Err(
                ResourceError::DependencyOutputIsMissing(_),
            ),
    {
        match self.policy.read_output(policy_arn_of) {
            Ok(value) => {
                input.policy_arn = value;
                proof {
                    let o = choose|o: PolicyOutput|
                        #![trigger self.policy.can_output(o)]
                        o.arn == value && self.policy.can_output(o);
                    assert(*input == with_policy_arn(*old(input), o));
                }
                Ok(())
            },
            Err(err) => Err(err),
        }
    }
}

} // verus!
