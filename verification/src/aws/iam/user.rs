//! IAM users.

use crate::aws::ec2::vpc::SerializableTag;
use crate::aws::iam::role::SerializableAttachedPermissionsBoundary;
use crate::aws::ArnProvider;
use crate::json::views;
use vstd::prelude::*;

verus! {

#[derive(Debug, Clone, Default)]
pub struct SerializableCreateUserInput {
    pub path: Option<String>,
    pub user_name: Option<String>,
    pub permissions_boundary: Option<String>,
    pub tags: Option<Vec<SerializableTag>>,
}

#[derive(Debug, Clone, Default)]
pub struct SerializableGetUserOutput {
    pub user: Option<SerializableUser>,
}

#[derive(Debug, Clone, Default)]
pub struct SerializableUser {
    pub path: String,
    pub user_name: String,
    pub user_id: String,
    pub arn: String,
    pub permissions_boundary: Option<SerializableAttachedPermissionsBoundary>,
    pub tags: Option<Vec<SerializableTag>>,
}

pub type UserInput = SerializableCreateUserInput;
pub type UserOutput = SerializableGetUserOutput;

impl ArnProvider for SerializableGetUserOutput {
    open spec fn arns_told(&self) -> Option<Seq<Seq<char>>> {
        match self.user {
            Some(user) => Some(seq![user.arn@]),
            None => None,
        }
    }

    /// The ARN of the user, when the record holds the user.
    fn arn(&self) -> (r: Option<Vec<String>>)
        ensures
            match self.user {
                Some(user) => r matches Some(v) && v@.len() == 1 && v@[0] == user.arn,
                None => r is None,
            },
    {
        let r = {
            match &self.user {
                Some(user) => Some(vec![user.arn.clone()]),
                None => None,
            }
        };
        proof {
            if r is Some {
                assert(views(r->0@) =~= self.arns_told()->0);
            }
        }
        r
    }
}

/// The name of the user in the record `o`, when it holds the user.
pub open spec fn user_name_in(o: UserOutput) -> Option<String> {
    match o.user {
        Some(u) => Some(u.user_name),
        None => None,
    }
}

/// The name of the user in the record `o` (see `user_name_in`).
pub fn user_name_of(o: &UserOutput) -> (name: Option<String>)
    ensures
        name == user_name_in(*o),
{
    match &o.user {
        Some(u) => Some(u.user_name.clone()),
        None => None,
    }
}

} // verus!
