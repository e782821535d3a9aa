//! EC2 networks: VPCs and their subnets.

pub mod subnet;
pub mod vpc;
