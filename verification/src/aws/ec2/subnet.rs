//! EC2 subnets, as this library records them.

use crate::aws::ec2::vpc::SerializableTag;
use crate::aws::ec2::vpc::{VpcInput, VpcOutput};
use crate::manager::{share_manager, ResourceManager};
use crate::plan::{PlanError, SharedPlan};
use crate::registry::{RProvider, RType, ResourceType};
use crate::resource::{
    output_missing, Binding, BindingFn, ResourceError, ResourceState, SharedResource,
};
use crate::aws::{aws_type_name, AwsType};
use std::sync::Arc;
use ipnet::Ipv4Net;
use vstd::arithmetic::power2::{
    lemma2_to64, lemma_pow2_adds, lemma_pow2_pos, lemma_pow2_strictly_increases, lemma_pow2_unfold, pow2,
};
use vstd::prelude::*;

verus! {

#[derive(Debug, Clone)]
pub struct SerializableSubnet {
    pub availability_zone: Option<String>,
    pub availability_zone_id: Option<String>,
    pub available_ip_address_count: Option<i32>,
    pub cidr_block: Option<String>,
    pub default_for_az: Option<bool>,
    pub enable_lni_at_device_index: Option<i32>,
    pub map_public_ip_on_launch: Option<bool>,
    pub map_customer_owned_ip_on_launch: Option<bool>,
    pub customer_owned_ipv4_pool: Option<String>,
    pub state: Option<SerializedSubnetState>,
    pub subnet_id: Option<String>,
    pub vpc_id: Option<String>,
    pub owner_id: Option<String>,
    pub assign_ipv6_address_on_creation: Option<bool>,
    pub ipv6_cidr_block_association_set: Option<Vec<SerializableSubnetIpv6CidrBlockAssociation>>,
    pub tags: Option<Vec<SerializableTag>>,
    pub subnet_arn: Option<String>,
    pub outpost_arn: Option<String>,
    pub enable_dns64: Option<bool>,
    pub ipv6_native: Option<bool>,
    pub private_dns_name_options_on_launch: Option<SerializablePrivateDnsNameOptionsOnLaunch>,
}

#[derive(Debug, Clone)]
pub struct SerializablePrivateDnsNameOptionsOnLaunch {
    pub hostname_type: Option<SerializableHostnameType>,
    pub enable_resource_name_dns_a_record: Option<bool>,
    pub enable_resource_name_dns_aaaa_record: Option<bool>,
}

#[derive(Debug, Clone)]
pub enum SerializableHostnameType {
    IpName,
    ResourceName,
    Unknown,
}

#[derive(Debug, Clone)]
pub struct SerializableSubnetIpv6CidrBlockAssociation {
    pub association_id: Option<String>,
    pub ipv6_cidr_block: Option<String>,
    pub ipv6_cidr_block_state: Option<SerializableSubnetCidrBlockState>,
}

#[derive(Debug, Clone)]
pub struct SerializableSubnetCidrBlockState {
    pub state: Option<SerializableSubnetCidrBlockStateCode>,
    pub status_message: Option<String>,
}

#[derive(Debug, Clone)]
pub enum SerializableSubnetCidrBlockStateCode {
    Associated,
    Associating,
    Disassociated,
    Disassociating,
    Failed,
    Failing,
    Unknown,
}

#[derive(Debug, Clone)]
pub enum SerializedSubnetState {
    Available,
    Pending,
    Unavailable,
    Unknown,
}

#[derive(Debug, Clone, Default)]
pub struct SerializableCreateSubnetInput {
    pub tag_specifications: Option<Vec<SerializableTag>>,
    pub availability_zone: Option<String>,
    pub availability_zone_id: Option<String>,
    pub cidr_block: Option<String>,
    pub ipv6_cidr_block: Option<String>,
    pub outpost_arn: Option<String>,
    pub vpc_id: Option<String>,
    pub dry_run: Option<bool>,
    pub ipv6_native: Option<bool>,
    pub ipv4_ipam_pool_id: Option<String>,
    pub ipv4_netmask_length: Option<i32>,
    pub ipv6_ipam_pool_id: Option<String>,
    pub ipv6_netmask_length: Option<i32>,
}

pub type SubnetInput = SerializableCreateSubnetInput;
pub type SubnetOutput = SerializableSubnet;

/// `k` is the least exponent with `2^k >= n`.
pub open spec fn is_ceil_log2(n: nat, k: nat) -> bool {
    pow2(k) >= n && (k == 0 || pow2((k - 1) as nat) < n)
}

/// The least `k` with `2^k >= n`; the bits a position among `n` subnets takes.
pub fn ceil_log2(n: usize) -> (k: u32)
    ensures
        is_ceil_log2(n as nat, k as nat),
        k <= 64,
{
    let mut k: u32 = 0;
    let mut p: u128 = 1;
    proof {
        lemma2_to64();
    }
    while p < n as u128
        invariant
            p == pow2(k as nat),
            k <= 64,
            k == 0 || pow2((k - 1) as nat) < n,
            pow2(64) == 0x1_0000_0000_0000_0000,
        decreases 64 - k,
    {
        proof {
            if k >= 64 {
                if k > 64 {
                    lemma_pow2_strictly_increases(64, k as nat);
                }
                assert(false);
            }
            lemma_pow2_unfold((k + 1) as nat);
        }
        p = p * 2;
        k = k + 1;
    }
    k
}

/// The network address of `addr` under a prefix of `prefix_len` bits.
pub open spec fn network_address(addr: u32, prefix_len: nat) -> int {
    (addr as int / pow2((32 - prefix_len) as nat) as int) * pow2((32 - prefix_len) as nat) as int
}

/// The subnet at `position` (counted from 0) when the network `addr/prefix_len` is split into
/// equal subnets, enough for `total` of them: each takes the bits needed to tell `total`
/// positions apart. None when those bits do not fit in an address or the position is
/// past the last subnet.
pub open spec fn subnet_of(addr: u32, prefix_len: nat, position: nat, total: nat) -> Option<(u32, u8)> {
    let k = choose|k: nat| is_ceil_log2(total, k);
    let new_len = prefix_len + k;
    if new_len > 32 || position >= pow2(k) {
        None
    } else {
        Some(
            (
                (network_address(addr, prefix_len) + position * pow2((32 - new_len) as nat)) as u32,
                new_len as u8,
            ),
        )
    }
}

/// ipnet's `Ipv4Net::new(addr, prefix_len)`, then `subnets(new_prefix_len)`, then `nth(position)`:
/// the subnets of the prefix length asked for, in address order from the network address.
/// The contract claims that the subnet at `position` is the network address plus
/// `position` subnet sizes, and that there are `2^(new_prefix_len - prefix_len)` of them.
#[verifier::external_body]
fn nth_subnet(addr: u32, prefix_len: u8, new_prefix_len: u8, position: usize) -> (r: Option<(u32, u8)>)
    requires
        prefix_len <= new_prefix_len <= 32,
    ensures
        position < pow2((new_prefix_len - prefix_len) as nat) ==> r == Some(
            (
                (network_address(addr, prefix_len as nat) + position * pow2(
                    (32 - new_prefix_len) as nat,
                )) as u32,
                new_prefix_len,
            ),
        ),
        position >= pow2((new_prefix_len - prefix_len) as nat) ==> r is None,
{
    let net = Ipv4Net::new(addr.into(), prefix_len).unwrap();
    let mut subnets = net.subnets(new_prefix_len).unwrap();
    subnets.nth(position).map(|n| (u32::from(n.addr()), n.prefix_len()))
}

/// The subnet at `position` of `addr/prefix_len` split for `total` subnets (see `subnet_of`).
pub fn subnet_of_net(addr: u32, prefix_len: u8, position: usize, total: usize) -> (r: Option<(u32, u8)>)
    requires
        prefix_len <= 32,
    ensures
        r == subnet_of(addr, prefix_len as nat, position as nat, total as nat),
{
    let k = ceil_log2(total);
    proof {
        let c = choose|c: nat| is_ceil_log2(total as nat, c);
        assert(is_ceil_log2(total as nat, k as nat));
        if c < k {
            lemma_pow2_strictly_increases(c, (k - 1) as nat);
            if c < (k - 1) as nat {
                lemma_pow2_strictly_increases(c, (k - 1) as nat);
            }
        } else if c > k {
            lemma_pow2_strictly_increases(k as nat, (c - 1) as nat);
            if k as nat == (c - 1) as nat {
            } else {
                lemma_pow2_strictly_increases(k as nat, (c - 1) as nat);
            }
        }
        assert(c == k);
    }
    if k + (prefix_len as u32) > 32 {
        return None;
    }
    let new_len = (k + (prefix_len as u32)) as u8;
    nth_subnet(addr, prefix_len, new_len, position)
}

/// Subnets at distinct positions of one network do not overlap, come in the order of their
/// positions, and lie inside the network.
pub proof fn law_subnets_disjoint_and_inside(addr: u32, prefix_len: nat, i: nat, j: nat, total: nat)
    requires
        prefix_len <= 32,
        i < j,
        subnet_of(addr, prefix_len, j, total) is Some,
    ensures
        subnet_of(addr, prefix_len, i, total) matches Some(a) && subnet_of(
            addr,
            prefix_len,
            j,
            total,
        ) matches Some(b) && a.1 == b.1 && network_address(addr, prefix_len) <= a.0 && a.0
            + pow2((32 - a.1) as nat) <= b.0 && b.0 + pow2((32 - b.1) as nat) <= network_address(
            addr,
            prefix_len,
        ) + pow2((32 - prefix_len) as nat),
{
    let k = choose|k: nat| is_ceil_log2(total, k);
    let q: nat = prefix_len + k;
    assert(q <= 32 && j < pow2(k));
    let size = pow2((32 - q) as nat) as int;
    let whole = pow2((32 - prefix_len) as nat) as int;
    let count = pow2(k) as int;
    lemma_pow2_adds(k, (32 - q) as nat);
    assert(whole == count * size);
    lemma_pow2_adds(prefix_len, (32 - prefix_len) as nat);
    lemma2_to64();
    let top = pow2(prefix_len) as int;
    assert(top * whole == 0x1_0000_0000);
    lemma_pow2_pos((32 - prefix_len) as nat);
    lemma_pow2_pos((32 - q) as nat);
    let n = addr as int / whole;
    let net = n * whole;
    assert(net == network_address(addr, prefix_len));
    assert(net <= addr) by (nonlinear_arith)
        requires
            n == addr as int / whole,
            net == n * whole,
            whole > 0,
            addr >= 0,
    ;
    assert(n < top) by (nonlinear_arith)
        requires
            n == addr as int / whole,
            whole > 0,
            addr < top * whole,
            addr >= 0,
    ;
    assert(net + whole <= 0x1_0000_0000) by (nonlinear_arith)
        requires
            n < top,
            net == n * whole,
            top * whole == 0x1_0000_0000,
            whole > 0,
    ;
    assert(0 <= n) by (nonlinear_arith)
        requires
            n == addr as int / whole,
            whole > 0,
            addr >= 0,
    ;
    assert(0 <= net) by (nonlinear_arith)
        requires
            0 <= n,
            net == n * whole,
            whole > 0,
    ;
    assert(i * size + size <= j * size) by (nonlinear_arith)
        requires
            i < j,
            size > 0,
    ;
    assert(j * size + size <= whole) by (nonlinear_arith)
        requires
            j < count,
            whole == count * size,
            size > 0,
    ;
    assert(0 <= i * size) by (nonlinear_arith)
        requires
            size > 0,
    ;
    assert(i < count);
}

/// The decimal digit `d`.
pub open spec fn digit_char(d: nat) -> char {
    (d + 48) as char
}

/// `n` written in decimal, without leading zeros.
pub open spec fn decimal(n: nat) -> Seq<char>
    decreases n,
{
    if n < 10 {
        seq![digit_char(n)]
    } else {
        decimal(n / 10).push(digit_char(n % 10))
    }
}

/// The network `addr/prefix_len` written as ipnet writes it: the four bytes of the address
/// in decimal, joined by dots, then a slash and the prefix length.
pub open spec fn ipv4_net_text(addr: u32, prefix_len: u8) -> Seq<char> {
    decimal(addr as nat / 0x100_0000) + seq!['.'] + decimal((addr as nat / 0x1_0000) % 0x100)
        + seq!['.'] + decimal((addr as nat / 0x100) % 0x100) + seq!['.'] + decimal(
        addr as nat % 0x100,
    ) + seq!['/'] + decimal(prefix_len as nat)
}

/// What ipnet reads from `s` as an IPv4 network: its address and prefix length.
pub uninterp spec fn ipv4_net_parsed(s: Seq<char>) -> Option<(u32, u8)>;

/// ipnet's `FromStr` for `Ipv4Net`, taken apart into the address as written and the prefix
/// length. The contract names the result; it claims only that a prefix length read is at
/// most 32, as `Ipv4Net::new` allows no more.
#[verifier::external_body]
fn parse_ipv4_net(s: &str) -> (r: Option<(u32, u8)>)
    ensures
        r == ipv4_net_parsed(s@),
        r matches Some(net) ==> net.1 <= 32,
{
    s.parse::<Ipv4Net>().ok().map(|n| (u32::from(n.addr()), n.prefix_len()))
}

/// ipnet's `Display` for `Ipv4Net` (through `to_string`): the address in dotted decimal,
/// as std writes an `Ipv4Addr`, a slash and the prefix length.
#[verifier::external_body]
fn ipv4_net_to_string(addr: u32, prefix_len: u8) -> (s: String)
    requires
        prefix_len <= 32,
    ensures
        s@ == ipv4_net_text(addr, prefix_len),
{
    Ipv4Net::new(addr.into(), prefix_len).unwrap().to_string()
}

/// The CIDR block of the subnet at `position` among `total` carved out of the network
/// written `cidr`; None when `cidr` is no IPv4 network or that subnet does not exist.
pub open spec fn subnet_cidr_of(cidr: Seq<char>, position: nat, total: nat) -> Option<Seq<char>> {
    match ipv4_net_parsed(cidr) {
        Some(net) => match subnet_of(net.0, net.1 as nat, position, total) {
            Some(sub) => Some(ipv4_net_text(sub.0, sub.1)),
            None => None,
        },
        None => None,
    }
}

/// The CIDR block of the subnet at `position` among `total` carved out of the network
/// written `cidr` (see `subnet_of`); a binding failure when `cidr` is no IPv4 network or
/// there is no such subnet.
pub fn subnet_cidr(cidr: &str, position: usize, total: usize) -> (r: Result<String, ResourceError>)
    ensures
        ipv4_net_parsed(cidr@) is None ==> (r matches Err(ResourceError::BindingFail(m)) && m@
            == "Not a valid IPv4 Network"@),
        ipv4_net_parsed(cidr@) is Some && subnet_cidr_of(cidr@, position as nat, total as nat)
            is None ==> (r matches Err(ResourceError::BindingFail(m)) && m@ == "Subnet to exist"@),
        subnet_cidr_of(cidr@, position as nat, total as nat) matches Some(text) ==> (r matches Ok(
            s,
        ) && s@ == text),
{
    match parse_ipv4_net(cidr) {
        Some((addr, prefix_len)) => match subnet_of_net(addr, prefix_len, position, total) {
            Some((sub, sub_len)) => Ok(ipv4_net_to_string(sub, sub_len)),
            None => Err(ResourceError::BindingFail("Subnet to exist".to_string())),
        },
        None => Err(ResourceError::BindingFail("Not a valid IPv4 Network".to_string())),
    }
}

/// Copying `vpc` into the subnet input `before`, as subnet `position` of `total`, leaves
/// `after` with outcome `r`: the VPC's id is taken; when the VPC has a CIDR block, the block
/// of that subnet (see `subnet_cidr`) is taken too, or the copy fails as `subnet_cidr` does
/// and the block is left; nothing else changes.
pub open spec fn vpc_copied(
    before: SubnetInput,
    vpc: VpcOutput,
    position: nat,
    total: nat,
    after: SubnetInput,
    r: Result<(), ResourceError>,
) -> bool {
    &&& after.vpc_id == vpc.vpc_id
    &&& after == (SubnetInput { vpc_id: after.vpc_id, cidr_block: after.cidr_block, ..before })
    &&& r is Err ==> after.cidr_block == before.cidr_block
    &&& vpc.cidr_block is None ==> r is Ok && after == (SubnetInput {
        vpc_id: vpc.vpc_id,
        ..before
    })
    &&& vpc.cidr_block matches Some(cidr) ==> match subnet_cidr_of(cidr@, position, total) {
        Some(text) => r is Ok && (after.cidr_block matches Some(block) && block@ == text) && after
            == (SubnetInput { vpc_id: vpc.vpc_id, cidr_block: after.cidr_block, ..before }),
        None => (r matches Err(ResourceError::BindingFail(m)) && (if ipv4_net_parsed(
            cidr@,
        ) is None {
            m@ == "Not a valid IPv4 Network"@
        } else {
            m@ == "Subnet to exist"@
        })),
    }
}

/// The subnet lies in the VPC: it takes the VPC's id and, when the VPC has a CIDR block,
/// the block of its `position` among `total` subnets of it (see `subnet_cidr`).
pub fn copy_vpc(input: &mut SubnetInput, vpc: &VpcOutput, position: usize, total: usize) -> (r:
    Result<(), ResourceError>)
    ensures
        vpc_copied(*old(input), *vpc, position as nat, total as nat, *final(input), r),
{
    input.vpc_id = match &vpc.vpc_id {
        Some(id) => Some(id.clone()),
        None => None,
    };
    match &vpc.cidr_block {
        Some(cidr) => match subnet_cidr(cidr.as_str(), position, total) {
            Ok(block) => {
                input.cidr_block = Some(block);
                Ok(())
            },
            Err(err) => Err(err),
        },
        None => Ok(()),
    }
}

/// The id and CIDR block of the VPC `vpc`, where a subnet of it is placed.
pub fn vpc_place_of(vpc: &VpcOutput) -> (place: (Option<String>, Option<String>))
    ensures
        place == (vpc.vpc_id, vpc.cidr_block),
{
    let id = match &vpc.vpc_id {
        Some(id) => Some(id.clone()),
        None => None,
    };
    let cidr = match &vpc.cidr_block {
        Some(cidr) => Some(cidr.clone()),
        None => None,
    };
    (id, cidr)
}

/// The subnet lies in the VPC whose id is `vpc_id` and whose CIDR block is `cidr_block`, as
/// `copy_vpc` places it in a VPC with those.
pub fn copy_vpc_place(
    input: &mut SubnetInput,
    vpc_id: Option<String>,
    cidr_block: Option<String>,
    position: usize,
    total: usize,
) -> (r: Result<(), ResourceError>)
    ensures
        forall|vpc: VpcOutput|
            vpc.vpc_id == vpc_id && vpc.cidr_block == cidr_block ==> #[trigger] vpc_copied(
                *old(input),
                vpc,
                position as nat,
                total as nat,
                *final(input),
                r,
            ),
{
    input.vpc_id = vpc_id;
    match &cidr_block {
        Some(cidr) => match subnet_cidr(cidr.as_str(), position, total) {
            Ok(block) => {
                input.cidr_block = Some(block);
                Ok(())
            },
            Err(err) => Err(err),
        },
        None => Ok(()),
    }
}

/// Binds a subnet to its VPC as subnet `position` of `total` (see `copy_vpc`).
pub struct SubnetVpcBinding {
    pub vpc: SharedResource<VpcInput, VpcOutput>,
    pub position: usize,
    pub total: usize,
}

impl Binding<SubnetInput> for SubnetVpcBinding {
    /// The VPC's output as it is now is copied in (see `vpc_copied`), or, while the VPC has
    /// none, the input is left as it was.
    open spec fn binds(
        &self,
        before: SubnetInput,
        after: SubnetInput,
        r: Result<(), ResourceError>,
    ) -> bool {
        ||| exists|vpc: VpcOutput|
            #[trigger] vpc_copied(before, vpc, self.position as nat, self.total as nat, after, r)
                && self.vpc.can_output(vpc)
        ||| output_missing(r) && after == before
    }

    fn apply(&self, input: &mut SubnetInput) -> (r: Result<(), ResourceError>) {
        match self.vpc.read_output(vpc_place_of) {
            Ok((vpc_id, cidr_block)) => {
                let ghost vpc = choose|o: VpcOutput|
                    #![trigger self.vpc.can_output(o)]
                    o.vpc_id == vpc_id && o.cidr_block == cidr_block && self.vpc.can_output(o);
                let r = copy_vpc_place(input, vpc_id, cidr_block, self.position, self.total);
                proof {
                    assert(vpc_copied(
                        *old(input),
                        vpc,
                        self.position as nat,
                        self.total as nat,
                        *input,
                        r,
                    ));
                }
                r
            },
            Err(err) => Err(err),
        }
    }
}

/// The decimal digit `d`, as text.
fn digit_text(d: usize) -> (t: &'static str)
    requires
        d < 10,
    ensures
        t@ == seq![digit_char(d as nat)],
{
    proof {
        reveal_strlit("0");
        reveal_strlit("1");
        reveal_strlit("2");
        reveal_strlit("3");
        reveal_strlit("4");
        reveal_strlit("5");
        reveal_strlit("6");
        reveal_strlit("7");
        reveal_strlit("8");
        reveal_strlit("9");
    }
    if d == 0 {
        "0"
    } else if d == 1 {
        "1"
    } else if d == 2 {
        "2"
    } else if d == 3 {
        "3"
    } else if d == 4 {
        "4"
    } else if d == 5 {
        "5"
    } else if d == 6 {
        "6"
    } else if d == 7 {
        "7"
    } else if d == 8 {
        "8"
    } else {
        "9"
    }
}

/// `n` written in decimal.
pub fn decimal_text(n: usize) -> (t: String)
    ensures
        t@ == decimal(n as nat),
    decreases n,
{
    if n < 10 {
        String::from_str(digit_text(n))
    } else {
        let mut t = decimal_text(n / 10);
        t.append(digit_text(n % 10));
        t
    }
}

/// The name of subnet `index` of the VPC named `vpc_name`.
pub open spec fn subnet_name(vpc_name: Seq<char>, index: nat) -> Seq<char> {
    vpc_name + "-subnet"@ + decimal(index)
}

/// The id that a resource named `name` of kind `kind` gets from `provider`.
pub open spec fn kind_resource_id(provider: RProvider, kind: AwsType, name: Seq<char>) -> Seq<char> {
    provider.name@ + "/"@ + provider.region@ + "/"@ + aws_type_name(kind) + "/"@ + name
}

/// Two subnets bound to one VPC at distinct positions among the same number of subnets get
/// disjoint blocks when the VPC's output, the same for both, has a CIDR block: both blocks have
/// the same prefix length, and the block of the earlier position ends before that of the later
/// one starts.
pub proof fn law_subnet_blocks_disjoint(
    vpc: VpcOutput,
    before1: SubnetInput,
    after1: SubnetInput,
    before2: SubnetInput,
    after2: SubnetInput,
    i: nat,
    j: nat,
    total: nat,
)
    requires
        i < j,
        vpc.cidr_block is Some,
        vpc_copied(before1, vpc, i, total, after1, Ok(())),
        vpc_copied(before2, vpc, j, total, after2, Ok(())),
    ensures
        exists|a: (u32, u8), c: (u32, u8)|
            #![trigger ipv4_net_text(a.0, a.1), ipv4_net_text(c.0, c.1)]
            (after1.cidr_block matches Some(x) && x@ == ipv4_net_text(a.0, a.1)) && (
            after2.cidr_block matches Some(y) && y@ == ipv4_net_text(c.0, c.1)) && a.1 == c.1
                && a.0 + pow2((32 - a.1) as nat) <= c.0,
{
    let cidr = vpc.cidr_block->0;
    assert(subnet_cidr_of(cidr@, i, total) is Some);
    assert(subnet_cidr_of(cidr@, j, total) is Some);
    let net = ipv4_net_parsed(cidr@)->0;
    let a = subnet_of(net.0, net.1 as nat, i, total)->0;
    let c = subnet_of(net.0, net.1 as nat, j, total)->0;
    let k = choose|k: nat| is_ceil_log2(total, k);
    assert(net.1 as nat <= 32);
    law_subnets_disjoint_and_inside(net.0, net.1 as nat, i, j, total);
    assert(ipv4_net_text(a.0, a.1) == ipv4_net_text(a.0, a.1));
    assert(ipv4_net_text(c.0, c.1) == ipv4_net_text(c.0, c.1));
}

/// Plans the subnets of `vpc`, one from each input, in order: subnet `i` is named
/// `<vpc name>-subnet<i>`, wanted present, and bound to the VPC as subnet `i` of them all (the
/// binding is made by `in_vpc`, as Verus does not take the making of a shared binding function:
/// a `SubnetVpcBinding`). The first subnet the plan refuses ends it with that error. The subnets
/// are returned in order.
pub fn vpc_subnets<R, FS, BS>(
    plan: &SharedPlan<R>,
    provider: &RProvider,
    vpc: &SharedResource<VpcInput, VpcOutput>,
    subnet_inputs: Vec<SubnetInput>,
    subnet_manager: Option<Arc<dyn ResourceManager<SubnetInput, SubnetOutput>>>,
    into_subnet: FS,
    in_vpc: BS,
) -> (r: Result<Vec<SharedResource<SubnetInput, SubnetOutput>>, PlanError>) where
    FS: Fn(SharedResource<SubnetInput, SubnetOutput>) -> R,
    BS: Fn(&SharedResource<VpcInput, VpcOutput>, usize, usize) -> BindingFn<SubnetInput>,

    requires
        forall|s: SharedResource<SubnetInput, SubnetOutput>| #[trigger] into_subnet.requires((s,)),
        forall|v: &SharedResource<VpcInput, VpcOutput>, i: usize, n: usize| #[trigger] in_vpc.requires((v, i, n)),
    ensures
        r matches Err(e) ==> e is ResourceAlreadyExists,
        r matches Ok(subnets) ==> subnets@.len() == subnet_inputs@.len() && forall|i: int|
            0 <= i < subnets@.len() ==> {
                &&& (#[trigger] subnets@[i]).spec_name() == subnet_name(vpc.spec_name(), i as nat)
                &&& subnets@[i].spec_id() == kind_resource_id(
                    *provider,
                    AwsType::Subnet,
                    subnet_name(vpc.spec_name(), i as nat),
                )
                &&& subnets@[i].created_from().input == subnet_inputs@[i]
                &&& subnets@[i].created_from().state == ResourceState::Present
                &&& exists|b: BindingFn<SubnetInput>|
                    #[trigger] in_vpc.ensures((vpc, i as usize, subnet_inputs@.len() as usize), b)
            },
{
    let vpc_name = vpc.name();
    let total = subnet_inputs.len();
    let mut subnets: Vec<SharedResource<SubnetInput, SubnetOutput>> = Vec::new();
    let ghost all = subnet_inputs@;
    let mut inputs = subnet_inputs;
    let mut index: usize = 0;
    while inputs.len() > 0
        invariant
            index + inputs@.len() == total,
            subnets@.len() == index,
            vpc_name@ == vpc.spec_name(),
            forall|s: SharedResource<SubnetInput, SubnetOutput>| #[trigger] into_subnet.requires((s,)),
            forall|v: &SharedResource<VpcInput, VpcOutput>, i: usize, n: usize| #[trigger] in_vpc.requires((v, i, n)),
            forall|i: int|
                0 <= i < index ==> {
                    &&& (#[trigger] subnets@[i]).spec_name() == subnet_name(vpc.spec_name(), i as nat)
                    &&& subnets@[i].spec_id() == kind_resource_id(
                        *provider,
                        AwsType::Subnet,
                        subnet_name(vpc.spec_name(), i as nat),
                    )
                    &&& subnets@[i].created_from().input == all[i]
                    &&& subnets@[i].created_from().state == ResourceState::Present
                    &&& exists|b: BindingFn<SubnetInput>|
                        #[trigger] in_vpc.ensures((vpc, i as usize, total), b)
                },
            inputs@ == all.subrange(index as int, total as int),
            all.len() == total,
        decreases inputs@.len(),
    {
        let input = inputs.remove(0);
        assert(input == all[index as int]);
        let mut name = vpc_name.clone();
        name.append("-subnet");
        name.append(decimal_text(index).as_str());
        let rtype = ResourceType {
            rprovider: RProvider::new(provider.name.clone(), provider.region.clone()),
            rtype: RType { name: AwsType::Subnet.name() },
        };
        let subnet = plan.resource(
            rtype,
            share_manager(&subnet_manager),
            name.as_str(),
            ResourceState::Present,
            input,
            |s: SharedResource<SubnetInput, SubnetOutput>| into_subnet(s),
        )?;
        let binding = in_vpc(vpc, index, total);
        assert(in_vpc.ensures((vpc, index, total), binding));
        let _ = subnet.bind(vpc, binding);
        subnets.push(subnet);
        index = index + 1;
    }
    Ok(subnets)
}

} // verus!
