//! IAM roles.

use crate::aws::ec2::vpc::SerializableTag;
use crate::aws::ArnProvider;
use crate::json::views;
use crate::json::{
    json_array1, json_object, json_str, json_text, json_text_of, lemma_members1, lemma_members2,
    lemma_members3, JsonValue,
};
use vstd::prelude::*;

verus! {

#[derive(Debug, Clone, Default)]
pub struct SerializableRole {
    pub path: String,
    pub role_name: String,
    pub role_id: String,
    pub arn: String,
    pub create_date: i64,
    pub assume_role_policy_document: Option<String>,
    pub description: Option<String>,
    pub max_session_duration: Option<i32>,
    pub permissions_boundary: Option<SerializableAttachedPermissionsBoundary>,
    pub tags: Option<Vec<SerializableTag>>,
}

#[derive(Debug, Clone, Default)]
pub struct SerializableRoleLastUsed {
    pub last_used_date: Option<i64>,
    pub region: Option<String>,
}

#[derive(Debug, Clone, Default)]
pub struct SerializableAttachedPermissionsBoundary {
    pub permissions_boundary_type: Option<SerializablePermissionsBoundaryAttachmentType>,
    pub permissions_boundary_arn: Option<String>,
}

#[derive(Debug, Clone, Default)]
pub enum SerializablePermissionsBoundaryAttachmentType {
    #[default]
    Policy,
    Unknown,
}

#[derive(Debug, Clone, Default)]
pub struct SerializableCreateRoleInput {
    pub path: Option<String>,
    pub role_name: Option<String>,
    pub assume_role_policy_document: Option<String>,
    pub description: Option<String>,
    pub max_session_duration: Option<i32>,
    pub permissions_boundary: Option<String>,
    pub tags: Option<Vec<SerializableTag>>,
}

pub type RoleInput = SerializableCreateRoleInput;
pub type RoleOutput = SerializableRole;

impl ArnProvider for SerializableRole {
    open spec fn arns_told(&self) -> Option<Seq<Seq<char>>> {
        Some(seq![self.arn@])
    }

    /// The ARN of the role.
    fn arn(&self) -> (r: Option<Vec<String>>)
        ensures
            r matches Some(v) && v@.len() == 1 && v@[0] == self.arn,
    {
        let r = {
            Some(vec![self.arn.clone()])
        };
        proof {
            if r is Some {
                assert(views(r->0@) =~= self.arns_told()->0);
            }
        }
        r
    }
}

/// A role named nothing is named after its resource id.
pub fn input_hook(id: &str, input: &mut RoleInput)
    ensures
        old(input).role_name is None ==> (final(input).role_name matches Some(name) && name@
            == id@),
        old(input).role_name is Some ==> final(input).role_name == old(input).role_name,
        *final(input) == (RoleInput { role_name: final(input).role_name, ..*old(input) }),
{
    if input.role_name.is_none() {
        input.role_name = Some(id.to_string());
    }
}

/// The trust policy that lets the AWS service `service` assume a role: `{"Version":
/// "2012-10-17", "Statement": [{"Effect": "Allow", "Principal": {"Service": service},
/// "Action": "sts:AssumeRole"}]}`.
pub open spec fn trust_policy_model(service: Seq<char>) -> JsonValue {
    JsonValue::Object(
        seq![
            ("Version"@, JsonValue::Str("2012-10-17"@)),
            ("Statement"@, JsonValue::Array(seq![JsonValue::Object(seq![
                ("Effect"@, JsonValue::Str("Allow"@)),
                ("Principal"@, JsonValue::Object(seq![("Service"@, JsonValue::Str(service))])),
                ("Action"@, JsonValue::Str("sts:AssumeRole"@)),
            ])])),
        ],
    )
}

/// The text of the trust policy that lets the AWS service `service` assume a role.
fn assume_role_policy(service: &str) -> (s: String)
    ensures
        s@ == json_text_of(trust_policy_model(service@)),
{
    let principal_members = vec![("Service".to_string(), json_str(service))];
    proof {
        lemma_members1(principal_members@);
    }
    let principal = json_object(principal_members);
    let statement_members = vec![
        ("Effect".to_string(), json_str("Allow")),
        ("Principal".to_string(), principal),
        ("Action".to_string(), json_str("sts:AssumeRole")),
    ];
    proof {
        lemma_members3(statement_members@);
    }
    let statement = json_object(statement_members);
    let members = vec![
        ("Version".to_string(), json_str("2012-10-17")),
        ("Statement".to_string(), json_array1(statement)),
    ];
    proof {
        lemma_members2(members@);
    }
    let document = json_object(members);
    json_text(&document)
}

/// The role may be assumed by the AWS service `service` (such as "lambda.amazonaws.com").
pub fn for_service(input: &mut RoleInput, service: &str)
    ensures
        final(input).assume_role_policy_document matches Some(doc) && doc@
            == json_text_of(trust_policy_model(service@)),
        *final(input) == (RoleInput {
            assume_role_policy_document: final(input).assume_role_policy_document,
            ..*old(input)
        }),
{
    input.assume_role_policy_document = Some(assume_role_policy(service));
}

/// The ARN of the role `role`.
pub fn role_arn_of(role: &RoleOutput) -> (arn: String)
    ensures
        arn == role.arn,
{
    role.arn.clone()
}

} // verus!
