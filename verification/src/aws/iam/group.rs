//! IAM groups.

use crate::aws::ArnProvider;
use crate::json::views;
use vstd::prelude::*;

verus! {

#[derive(Debug, Clone, Default)]
pub struct SerializableCreateGroupInput {
    pub path: Option<String>,
    pub group_name: Option<String>,
}

#[derive(Debug, Clone, Default)]
pub struct SerializableGetGroupOutput {
    pub group: Option<SerializableGroup>,
    pub is_truncated: bool,
    pub marker: Option<String>,
}

#[derive(Debug, Clone, Default)]
pub struct SerializableGroup {
    pub path: String,
    pub group_name: String,
    pub group_id: String,
    pub arn: String,
}

pub type GroupInput = SerializableCreateGroupInput;
pub type GroupOutput = SerializableGetGroupOutput;

impl ArnProvider for SerializableGetGroupOutput {
    open spec fn arns_told(&self) -> Option<Seq<Seq<char>>> {
        match self.group {
            Some(group) => Some(seq![group.arn@]),
            None => None,
        }
    }

    /// The ARN of the group, when the record holds the group.
    fn arn(&self) -> (r: Option<Vec<String>>)
        ensures
            match self.group {
                Some(group) => r matches Some(v) && v@.len() == 1 && v@[0] == group.arn,
                None => r is None,
            },
    {
        let r = {
            match &self.group {
                Some(group) => Some(vec![group.arn.clone()]),
                None => None,
            }
        };
        proof {
            if r is Some {
                assert(views(r->0@) =~= self.arns_told()->0);
            }
        }
        r
    }
}

/// The name of the group in the record `o`, when it holds the group.
pub open spec fn group_name_in(o: GroupOutput) -> Option<String> {
    match o.group {
        Some(g) => Some(g.group_name),
        None => None,
    }
}

/// The name of the group in the record `o` (see `group_name_in`).
pub fn group_name_of(o: &GroupOutput) -> (name: Option<String>)
    ensures
        name == group_name_in(*o),
{
    match &o.group {
        Some(g) => Some(g.group_name.clone()),
        None => None,
    }
}

} // verus!
