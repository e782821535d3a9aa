//! EC2 VPCs, as this library records them.

use crate::aws::str_eq;
use crate::manager::ManagerError;
use crate::registry::{debug_str, debug_text};
use vstd::prelude::*;

verus! {

#[derive(Debug, Clone, Default)]
pub struct SerializableCreateVpcAttributes {
    pub enable_dns_support: Option<bool>,
    pub enable_dns_hostnames: Option<bool>,
    pub enable_network_address_usage_metrics: Option<bool>,
}

#[derive(Debug, Clone, Default)]
pub struct SerializableCreateVpcInput {
    pub cidr_block: Option<String>,
    pub amazon_provided_ipv6_cidr_block: Option<bool>,
    pub ipv6_pool: Option<String>,
    pub ipv6_cidr_block: Option<String>,
    pub ipv4_ipam_pool_id: Option<String>,
    pub ipv4_netmask_length: Option<i32>,
    pub ipv6_ipam_pool_id: Option<String>,
    pub ipv6_netmask_length: Option<i32>,
    pub dry_run: Option<bool>,
    pub instance_tenancy: Option<SerializableTenancy>,
    pub ipv6_cidr_block_network_border_group: Option<String>,
    pub tag_specifications: Option<Vec<SerializableTag>>,
    pub attributes: SerializableCreateVpcAttributes,
}

#[derive(Debug, Clone)]
pub struct SerializableVpc {
    pub cidr_block: Option<String>,
    pub dhcp_options_id: Option<String>,
    pub state: Option<SerializableVpcState>,
    pub vpc_id: Option<String>,
    pub owner_id: Option<String>,
    pub instance_tenancy: Option<SerializableTenancy>,
    pub ipv6_cidr_block_association_set: Option<Vec<SerializableVpcIpv6CidrBlockAssociation>>,
    pub cidr_block_association_set: Option<Vec<SerializableVpcCidrBlockAssociation>>,
    pub is_default: Option<bool>,
    pub tags: Option<Vec<SerializableTag>>,
    pub attributes: SerializableCreateVpcAttributes,
}

#[derive(Debug, Clone)]
pub struct SerializableVpcCidrBlockAssociation {
    pub association_id: Option<String>,
    pub cidr_block: Option<String>,
    pub cidr_block_state: Option<SerializableVpcCidrBlockState>,
}

#[derive(Debug, Clone)]
pub struct SerializableVpcIpv6CidrBlockAssociation {
    pub association_id: Option<String>,
    pub ipv6_cidr_block: Option<String>,
    pub ipv6_cidr_block_state: Option<SerializableVpcCidrBlockState>,
    pub network_border_group: Option<String>,
    pub ipv6_pool: Option<String>,
}

#[derive(Debug, Clone)]
pub struct SerializableVpcCidrBlockState {
    pub state: Option<SerializableVpcCidrBlockStateCode>,
    pub status_message: Option<String>,
}

#[derive(Debug, Clone)]
pub enum SerializableVpcCidrBlockStateCode {
    Associated,
    Associating,
    Disassociated,
    Disassociating,
    Failed,
    Failing,
    Unknown,
}

#[derive(Debug, Clone)]
pub enum SerializableVpcState {
    Available,
    Pending,
    Unknown,
}

#[derive(Debug, Clone)]
pub struct SerializableTag {
    pub key: String,
    pub value: String,
}

#[derive(Debug, Clone)]
pub enum SerializableTenancy {
    Dedicated,
    Default,
    Host,
}

pub type VpcInput = SerializableCreateVpcInput;
pub type VpcOutput = SerializableVpc;

/// How `Debug` writes an optional string: `Some("…")`, the string escaped, or `None`.
pub open spec fn debug_option_text(o: Option<Seq<char>>) -> Seq<char> {
    match o {
        Some(s) => "Some("@ + debug_text(s) + ")"@,
        None => "None"@,
    }
}

/// The characters of an optional string.
pub open spec fn option_view(o: Option<String>) -> Option<Seq<char>> {
    match o {
        Some(s) => Some(s@),
        None => None,
    }
}

/// `Debug` of an optional string.
fn debug_option(o: &Option<String>) -> (d: String)
    ensures
        d@ == debug_option_text(option_view(*o)),
{
    match o {
        Some(s) => {
            let mut d = "Some(".to_string();
            d.append(debug_str(s.as_str()).as_str());
            d.append(")");
            d
        },
        None => "None".to_string(),
    }
}

/// Bringing an existing VPC `latest` in line with `input`: nothing to do when the CIDR blocks
/// are the same; a changed CIDR block cannot be synced without creating the VPC again.
pub fn vpc_syncup(latest: &VpcOutput, input: &VpcInput) -> (r: Result<Option<VpcOutput>, ManagerError>)
    ensures
        option_view(input.cidr_block) == option_view(latest.cidr_block) ==> r matches Ok(None),
        option_view(input.cidr_block) != option_view(latest.cidr_block) ==> (r matches Err(
            ManagerError::CannotSyncWithoutRecreate(m),
        ) && m@ == "cidr_block from value: ["@ + debug_option_text(option_view(latest.cidr_block))
            + "] to value: ["@ + debug_option_text(option_view(input.cidr_block)) + "]"@),
{
    let same = match (&input.cidr_block, &latest.cidr_block) {
        (Some(a), Some(b)) => str_eq(a.as_str(), b.as_str()),
        (None, None) => true,
        _ => false,
    };
    if same {
        Ok(None)
    } else {
        let mut m = "cidr_block from value: [".to_string();
        m.append(debug_option(&latest.cidr_block).as_str());
        m.append("] to value: [");
        m.append(debug_option(&input.cidr_block).as_str());
        m.append("]");
        Err(ManagerError::CannotSyncWithoutRecreate(m))
    }
}

} // verus!
