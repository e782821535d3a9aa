//! Amazon Web Services resources: the kinds the library manages, the names under
//! which they are registered, and the ARNs by which other resources refer to them.

pub mod api;
pub mod ec2;
pub mod iam;
pub mod lambda;
pub mod s3;
pub mod scheduler;
pub mod sfn;

use crate::json::views;
use crate::registry::{RegistryError, ResourceType};
use vstd::prelude::*;

verus! {

/// `std::time::SystemTime`, carried unchanged in schedule and REST API records.
#[verifier::external_type_specification]
#[verifier::external_body]
pub struct ExSystemTime(std::time::SystemTime);

/// The kinds of AWS resources.
#[derive(Debug, Clone, Copy, PartialEq, Eq, Structural)]
pub enum AwsType {
    Vpc,
    Subnet,
    Function,
    Role,
    Policy,
    AttachRolePolicy,
    AttachGroupPolicy,
    AttachUserPolicy,
    StateMachine,
    Bucket,
    S3Object,
    Schedule,
    Group,
    User,
}

/// The name of a kind: the name of its variant.
pub open spec fn aws_type_name(t: AwsType) -> Seq<char> {
    match t {
        AwsType::Vpc => "Vpc"@,
        AwsType::Subnet => "Subnet"@,
        AwsType::Function => "Function"@,
        AwsType::Role => "Role"@,
        AwsType::Policy => "Policy"@,
        AwsType::AttachRolePolicy => "AttachRolePolicy"@,
        AwsType::AttachGroupPolicy => "AttachGroupPolicy"@,
        AwsType::AttachUserPolicy => "AttachUserPolicy"@,
        AwsType::StateMachine => "StateMachine"@,
        AwsType::Bucket => "Bucket"@,
        AwsType::S3Object => "S3Object"@,
        AwsType::Schedule => "Schedule"@,
        AwsType::Group => "Group"@,
        AwsType::User => "User"@,
    }
}

/// `s` is "vpc" in any mix of ASCII upper and lower case.
pub open spec fn is_vpc_name(s: Seq<char>) -> bool {
    &&& s.len() == 3
    &&& (s[0] == 'v' || s[0] == 'V')
    &&& (s[1] == 'p' || s[1] == 'P')
    &&& (s[2] == 'c' || s[2] == 'C')
}

/// The kind named `s`: the name of a variant written exactly, except `Vpc`, whose
/// name is matched without regard to ASCII case.
pub open spec fn aws_type_named(s: Seq<char>) -> Option<AwsType> {
    if is_vpc_name(s) {
        Some(AwsType::Vpc)
    } else if s == "Subnet"@ {
        Some(AwsType::Subnet)
    } else if s == "Function"@ {
        Some(AwsType::Function)
    } else if s == "Role"@ {
        Some(AwsType::Role)
    } else if s == "Policy"@ {
        Some(AwsType::Policy)
    } else if s == "AttachRolePolicy"@ {
        Some(AwsType::AttachRolePolicy)
    } else if s == "AttachGroupPolicy"@ {
        Some(AwsType::AttachGroupPolicy)
    } else if s == "AttachUserPolicy"@ {
        Some(AwsType::AttachUserPolicy)
    } else if s == "StateMachine"@ {
        Some(AwsType::StateMachine)
    } else if s == "Bucket"@ {
        Some(AwsType::Bucket)
    } else if s == "S3Object"@ {
        Some(AwsType::S3Object)
    } else if s == "Schedule"@ {
        Some(AwsType::Schedule)
    } else if s == "Group"@ {
        Some(AwsType::Group)
    } else if s == "User"@ {
        Some(AwsType::User)
    } else {
        None
    }
}

/// `a` and `b` hold the same characters.
pub fn str_eq(a: &str, b: &str) -> (r: bool)
    ensures
        r == (a@ == b@),
{
    let n = a.unicode_len();
    if n != b.unicode_len() {
        return false;
    }
    let mut i: usize = 0;
    while i < n
        invariant
            n == a@.len(),
            n == b@.len(),
            i <= n,
            forall|j: int| 0 <= j < i ==> a@[j] == b@[j],
        decreases n - i,
    {
        if a.get_char(i) != b.get_char(i) {
            return false;
        }
        i = i + 1;
    }
    proof {
        assert(a@ =~= b@);
    }
    true
}

impl AwsType {
    /// The name of the kind, under which its resources are registered.
    pub fn name(&self) -> (s: String)
        ensures
            s@ == aws_type_name(*self),
    {
        let name = match self {
            AwsType::Vpc => "Vpc",
            AwsType::Subnet => "Subnet",
            AwsType::Function => "Function",
            AwsType::Role => "Role",
            AwsType::Policy => "Policy",
            AwsType::AttachRolePolicy => "AttachRolePolicy",
            AwsType::AttachGroupPolicy => "AttachGroupPolicy",
            AwsType::AttachUserPolicy => "AttachUserPolicy",
            AwsType::StateMachine => "StateMachine",
            AwsType::Bucket => "Bucket",
            AwsType::S3Object => "S3Object",
            AwsType::Schedule => "Schedule",
            AwsType::Group => "Group",
            AwsType::User => "User",
        };
        name.to_string()
    }

    /// The kind named `s` (see `aws_type_named`), if any.
    pub fn from_name(s: &str) -> (r: Option<AwsType>)
        ensures
            r == aws_type_named(s@),
    {
        let n = s.unicode_len();
        if n == 3 {
            let c0 = s.get_char(0);
            let c1 = s.get_char(1);
            let c2 = s.get_char(2);
            if (c0 == 'v' || c0 == 'V') && (c1 == 'p' || c1 == 'P') && (c2 == 'c' || c2 == 'C') {
                return Some(AwsType::Vpc);
            }
        }
        if str_eq(s, "Subnet") {
            Some(AwsType::Subnet)
        } else if str_eq(s, "Function") {
            Some(AwsType::Function)
        } else if str_eq(s, "Role") {
            Some(AwsType::Role)
        } else if str_eq(s, "Policy") {
            Some(AwsType::Policy)
        } else if str_eq(s, "AttachRolePolicy") {
            Some(AwsType::AttachRolePolicy)
        } else if str_eq(s, "AttachGroupPolicy") {
            Some(AwsType::AttachGroupPolicy)
        } else if str_eq(s, "AttachUserPolicy") {
            Some(AwsType::AttachUserPolicy)
        } else if str_eq(s, "StateMachine") {
            Some(AwsType::StateMachine)
        } else if str_eq(s, "Bucket") {
            Some(AwsType::Bucket)
        } else if str_eq(s, "S3Object") {
            Some(AwsType::S3Object)
        } else if str_eq(s, "Schedule") {
            Some(AwsType::Schedule)
        } else if str_eq(s, "Group") {
            Some(AwsType::Group)
        } else if str_eq(s, "User") {
            Some(AwsType::User)
        } else {
            None
        }
    }
}

/// The kind of an AWS resource type, or `ResourceTypeNotSupported` with its name when
/// its name names no kind.
pub fn aws_type_of(rt: &ResourceType) -> (r: Result<AwsType, RegistryError>)
    ensures
        aws_type_named(rt.rtype.name@) matches Some(t) ==> r == Ok::<AwsType, RegistryError>(t),
        aws_type_named(rt.rtype.name@) is None ==> (r matches Err(
            RegistryError::ResourceTypeNotSupported(name),
        ) && name@ == rt.rtype.name@),
{
    match AwsType::from_name(rt.rtype.name.as_str()) {
        Some(t) => Ok(t),
        None => Err(RegistryError::ResourceTypeNotSupported(rt.rtype.name.clone())),
    }
}

/// Every kind is found again under its name.
pub proof fn law_name_names_kind(t: AwsType)
    ensures
        aws_type_named(aws_type_name(t)) == Some(t),
{
    match t {
        AwsType::Vpc => {
            reveal_strlit("Vpc");
        },
        AwsType::Subnet => {
            reveal_strlit("Subnet");
        },
        AwsType::Function => {
            reveal_strlit("Function");
            reveal_strlit("Subnet");
        },
        AwsType::Role => {
            reveal_strlit("Role");
            reveal_strlit("Subnet");
            reveal_strlit("Function");
        },
        AwsType::Policy => {
            reveal_strlit("Policy");
            reveal_strlit("Subnet");
            reveal_strlit("Function");
            reveal_strlit("Role");
            assert("Policy"@[0] != "Subnet"@[0]);
        },
        AwsType::AttachRolePolicy => {
            reveal_strlit("AttachRolePolicy");
            reveal_strlit("Subnet");
            reveal_strlit("Function");
            reveal_strlit("Role");
            reveal_strlit("Policy");
        },
        AwsType::AttachGroupPolicy => {
            reveal_strlit("AttachGroupPolicy");
            reveal_strlit("Subnet");
            reveal_strlit("Function");
            reveal_strlit("Role");
            reveal_strlit("Policy");
            reveal_strlit("AttachRolePolicy");
        },
        AwsType::AttachUserPolicy => {
            reveal_strlit("AttachUserPolicy");
            reveal_strlit("Subnet");
            reveal_strlit("Function");
            reveal_strlit("Role");
            reveal_strlit("Policy");
            reveal_strlit("AttachRolePolicy");
            reveal_strlit("AttachGroupPolicy");
            assert("AttachUserPolicy"@[6] != "AttachRolePolicy"@[6]);
        },
        AwsType::StateMachine => {
            reveal_strlit("StateMachine");
            reveal_strlit("Subnet");
            reveal_strlit("Function");
            reveal_strlit("Role");
            reveal_strlit("Policy");
            reveal_strlit("AttachRolePolicy");
            reveal_strlit("AttachGroupPolicy");
            reveal_strlit("AttachUserPolicy");
        },
        AwsType::Bucket => {
            reveal_strlit("Bucket");
            reveal_strlit("Subnet");
            reveal_strlit("Function");
            reveal_strlit("Role");
            reveal_strlit("Policy");
            reveal_strlit("AttachRolePolicy");
            reveal_strlit("AttachGroupPolicy");
            reveal_strlit("AttachUserPolicy");
            reveal_strlit("StateMachine");
            assert("Bucket"@[0] != "Subnet"@[0]);
            assert("Bucket"@[0] != "Policy"@[0]);
        },
        AwsType::S3Object => {
            reveal_strlit("S3Object");
            reveal_strlit("Subnet");
            reveal_strlit("Function");
            reveal_strlit("Role");
            reveal_strlit("Policy");
            reveal_strlit("AttachRolePolicy");
            reveal_strlit("AttachGroupPolicy");
            reveal_strlit("AttachUserPolicy");
            reveal_strlit("StateMachine");
            reveal_strlit("Bucket");
            assert("S3Object"@[0] != "Function"@[0]);
        },
        AwsType::Schedule => {
            reveal_strlit("Schedule");
            reveal_strlit("Subnet");
            reveal_strlit("Function");
            reveal_strlit("Role");
            reveal_strlit("Policy");
            reveal_strlit("AttachRolePolicy");
            reveal_strlit("AttachGroupPolicy");
            reveal_strlit("AttachUserPolicy");
            reveal_strlit("StateMachine");
            reveal_strlit("Bucket");
            reveal_strlit("S3Object");
            assert("Schedule"@[0] != "Function"@[0]);
            assert("Schedule"@[1] != "S3Object"@[1]);
        },
        AwsType::Group => {
            reveal_strlit("Group");
            reveal_strlit("Subnet");
            reveal_strlit("Function");
            reveal_strlit("Role");
            reveal_strlit("Policy");
            reveal_strlit("AttachRolePolicy");
            reveal_strlit("AttachGroupPolicy");
            reveal_strlit("AttachUserPolicy");
            reveal_strlit("StateMachine");
            reveal_strlit("Bucket");
            reveal_strlit("S3Object");
            reveal_strlit("Schedule");
        },
        AwsType::User => {
            reveal_strlit("User");
            reveal_strlit("Subnet");
            reveal_strlit("Function");
            reveal_strlit("Role");
            reveal_strlit("Policy");
            reveal_strlit("AttachRolePolicy");
            reveal_strlit("AttachGroupPolicy");
            reveal_strlit("AttachUserPolicy");
            reveal_strlit("StateMachine");
            reveal_strlit("Bucket");
            reveal_strlit("S3Object");
            reveal_strlit("Schedule");
            reveal_strlit("Group");
            assert("User"@[0] != "Role"@[0]);
        },
    }
}

/// A resource output that can tell the ARNs under which other resources refer to it.
pub trait ArnProvider {
    /// The ARNs that the record tells, as text; `None` when it tells none.
    spec fn arns_told(&self) -> Option<Seq<Seq<char>>>;

    fn arn(&self) -> (r: Option<Vec<String>>)
        ensures
            match r {
                Some(v) => self.arns_told() == Some(views(v@)),
                None => self.arns_told() is None,
            },
    ;
}

/// The ARNs that the record `o` tells (see `ArnProvider::arn`).
pub fn arns_of<O: ArnProvider>(o: &O) -> (r: Option<Vec<String>>)
    ensures
        match r {
            Some(v) => o.arns_told() == Some(views(v@)),
            None => o.arns_told() is None,
        },
{
    o.arn()
}

} // verus!
