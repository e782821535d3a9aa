//! IAM policies.

use crate::aws::ec2::vpc::SerializableTag;
use crate::aws::{arns_of, ArnProvider};
use crate::resource::{output_missing, Binding, ResourceError, SharedResource};
use crate::json::{
    json_array1, json_object, json_str, json_strings, json_text, json_text_of, lemma_members2,
    lemma_members3, strings, views, JsonValue,
};
use vstd::prelude::*;

verus! {

#[derive(Debug, Clone, Default)]
pub struct SerializableCreatePolicyInput {
    pub policy_name: Option<String>,
    pub path: Option<String>,
    pub policy_document: Option<String>,
    pub description: Option<String>,
    pub tags: Option<Vec<SerializableTag>>,
}

#[derive(Debug, Clone, Default)]
pub struct SerializablePolicy {
    pub policy_name: Option<String>,
    pub policy_id: Option<String>,
    pub arn: Option<String>,
    pub path: Option<String>,
    pub default_version_id: Option<String>,
    pub attachment_count: Option<i32>,
    pub permissions_boundary_usage_count: Option<i32>,
    pub is_attachable: bool,
    pub description: Option<String>,
    pub tags: Option<Vec<SerializableTag>>,
}

pub type PolicyInput = SerializableCreatePolicyInput;
pub type PolicyOutput = SerializablePolicy;

/// A policy named nothing is named after its resource id.
pub fn input_hook(id: &str, input: &mut PolicyInput)
    ensures
        old(input).policy_name is None ==> (final(input).policy_name matches Some(name) && name@
            == id@),
        old(input).policy_name is Some ==> final(input).policy_name == old(input).policy_name,
        *final(input) == (PolicyInput { policy_name: final(input).policy_name, ..*old(input) }),
{
    if input.policy_name.is_none() {
        input.policy_name = Some(id.to_string());
    }
}

/// The policy document that lets `effect` (Allow or Deny) the `actions` on the `resources`
/// (ARNs): `{"Version": "2012-10-17", "Statement": [{"Effect": effect, "Action": actions,
/// "Resource": resources}]}`.
pub open spec fn policy_document_model(
    effect: Seq<char>,
    actions: Seq<Seq<char>>,
    resources: Seq<Seq<char>>,
) -> JsonValue {
    JsonValue::Object(
        seq![
            ("Version"@, JsonValue::Str("2012-10-17"@)),
            ("Statement"@, JsonValue::Array(seq![JsonValue::Object(seq![
                ("Effect"@, JsonValue::Str(effect)),
                ("Action"@, strings(actions)),
                ("Resource"@, strings(resources)),
            ])])),
        ],
    )
}

/// The text of the policy document that lets `effect` the `actions` on the `resources`.
fn policy_document(effect: &str, actions: &Vec<String>, resources: &Vec<String>) -> (s: String)
    ensures
        s@ == json_text_of(policy_document_model(effect@, views(actions@), views(resources@))),
{
    let statement_members = vec![
        ("Effect".to_string(), json_str(effect)),
        ("Action".to_string(), json_strings(actions)),
        ("Resource".to_string(), json_strings(resources)),
    ];
    proof {
        lemma_members3(statement_members@);
    }
    let statement = json_object(statement_members);
    let members = vec![
        ("Version".to_string(), json_str("2012-10-17")),
        ("Statement".to_string(), json_array1(statement)),
    ];
    proof {
        lemma_members2(members@);
    }
    let document = json_object(members);
    json_text(&document)
}

/// Writing the policy document that lets `effect` the `actions` on the resources whose ARNs
/// are `arns` into the policy input `before` leaves `after`: without ARNs nothing changes;
/// with them the document is that policy's, and nothing else changes.
pub open spec fn document_set(
    before: PolicyInput,
    effect: Seq<char>,
    actions: Seq<Seq<char>>,
    arns: Option<Seq<Seq<char>>>,
    after: PolicyInput,
) -> bool {
    match arns {
        None => after == before,
        Some(a) => (after.policy_document matches Some(doc) && doc@ == json_text_of(
            policy_document_model(effect, actions, a),
        )) && after == (PolicyInput { policy_document: after.policy_document, ..before }),
    }
}

/// The policy lets `effect` the `actions` on the resource whose ARNs are `arns`; a resource
/// that tells no ARN leaves the policy document as it was.
pub fn copy_policy_document(
    input: &mut PolicyInput,
    effect: &str,
    actions: &Vec<String>,
    arns: Option<Vec<String>>,
)
    ensures
        document_set(
            *old(input),
            effect@,
            views(actions@),
            match arns {
                Some(a) => Some(views(a@)),
                None => None,
            },
            *final(input),
        ),
{
    match arns {
        Some(arns) => {
            input.policy_document = Some(policy_document(effect, actions, &arns));
        },
        None => {},
    }
}

/// Binds a policy to the resource it is about (see `copy_policy_document`).
#[verifier::reject_recursive_types(I2)]
#[verifier::reject_recursive_types(O2)]
pub struct PolicyResourceBinding<I2, O2> {
    pub resource: SharedResource<I2, O2>,
    pub effect: String,
    pub actions: Vec<String>,
}

impl<I2, O2: Clone + ArnProvider> Binding<PolicyInput> for PolicyResourceBinding<I2, O2> {
    /// The policy document for the ARNs that the resource's output, as it is now, tells is
    /// written (see `document_set`), or, while the resource has no output, the input is left
    /// as it was.
    open spec fn binds(
        &self,
        before: PolicyInput,
        after: PolicyInput,
        r: Result<(), ResourceError>,
    ) -> bool {
        ||| r is Ok && exists|o: O2|
            #[trigger] document_set(before, self.effect@, views(self.actions@), o.arns_told(), after)
                && self.resource.can_output(o)
        ||| output_missing(r) && after == before
    }

    /// Only `policy_document` of the input may change; when the dependency has no output yet, nothing does.
    fn apply(&self, input: &mut PolicyInput) -> (r: Result<(), ResourceError>)
        ensures
            *final(input) == (PolicyInput { policy_document: final(input).policy_document, ..*old(input) }),
            r is Err ==> *final(input) == *old(input) && r matches Err(
                ResourceError::DependencyOutputIsMissing(_),
            ),
    {
        match self.resource.read_output(arns_of::<O2>) {
            Ok(arns) => {
                let ghost o = choose|o: O2|
                    #![trigger self.resource.can_output(o)]
                    (match arns {
                        Some(v) => o.arns_told() == Some(views(v@)),
                        None => o.arns_told() is None,
                    }) && self.resource.can_output(o);
                copy_policy_document(input, self.effect.as_str(), &self.actions, arns);
                proof {
                    assert(document_set(
                        *old(input),
                        self.effect@,
                        views(self.actions@),
                        o.arns_told(),
                        *input,
                    ));
                }
                Ok(())
            },
            Err(err) => Err(err),
        }
    }
}

/// The ARN of the policy `policy`, when its record holds one.
pub fn policy_arn_of(policy: &PolicyOutput) -> (arn: Option<String>)
    ensures
        arn == policy.arn,
{
    match &policy.arn {
        Some(arn) => Some(arn.clone()),
        None => None,
    }
}

} // verus!
