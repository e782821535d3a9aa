//! IAM roles, users, groups, policies and the attachments between them.

pub mod attach_group_policy;
pub mod attach_role_policy;
pub mod attach_user_policy;
pub mod group;
pub mod policy;
pub mod role;
pub mod user;

use vstd::prelude::*;

verus! {

/// The name of the resource that attaches the policy `policy_name` to the role, user or
/// group `owner_name`.
pub open spec fn attachment_name(policy_name: Seq<char>, owner_name: Seq<char>) -> Seq<char> {
    "attach-"@ + policy_name + "-"@ + owner_name
}

/// The id of the resource that attaches the policy `policy_name` to the role, user or group
/// `owner_name` (see `attachment_name`).
pub fn attachment_id(policy_name: &str, owner_name: &str) -> (id: String)
    ensures
        id@ == attachment_name(policy_name@, owner_name@),
{
    let mut id = String::from_str("attach-");
    id.append(policy_name);
    id.append("-");
    id.append(owner_name);
    id
}

/// The part of `arn` after its last slash; all of it when it has none.
pub open spec fn last_segment(arn: Seq<char>) -> Seq<char> {
    if exists|i: int| 0 <= i < arn.len() && arn[i] == '/' {
        let i = choose|i: int|
            0 <= i < arn.len() && arn[i] == '/' && forall|j: int| i < j < arn.len() ==> arn[j] != '/';
        arn.subrange(i + 1, arn.len() as int)
    } else {
        arn
    }
}

/// The name of the policy `policy_arn`: the part after its last slash (see `last_segment`).
pub fn policy_name_of_arn(policy_arn: &str) -> (name: &str)
    ensures
        name@ == last_segment(policy_arn@),
{
    let n = policy_arn.unicode_len();
    let mut i: usize = n;
    while i > 0
        invariant
            n == policy_arn@.len(),
            i <= n,
            forall|j: int| i <= j < n ==> policy_arn@[j] != '/',
        decreases i,
    {
        if policy_arn.get_char(i - 1) == '/' {
            let last = i - 1;
            proof {
                let s = policy_arn@;
                let c = choose|c: int|
                    0 <= c < s.len() && s[c] == '/' && forall|j: int| c < j < s.len() ==> s[j] != '/';
                assert(0 <= last < s.len() && s[last as int] == '/');
                if c < last {
                    assert(s[last as int] != '/');
                }
                if c > last {
                    assert(s[c] != '/');
                }
            }
            return policy_arn.substring_char(i, n);
        }
        i = i - 1;
    }
    proof {
        assert(!exists|j: int| 0 <= j < n && policy_arn@[j] == '/');
    }
    policy_arn.substring_char(0, n)
}

} // verus!
