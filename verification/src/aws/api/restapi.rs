//! REST APIs in API Gateway, as this library records them.

use std::collections::HashMap;
use std::time::SystemTime;
use vstd::prelude::*;

verus! {

#[derive(Debug, Clone, Default)]
pub struct SerializableCreateRestAPIInput {
    pub name: Option<String>,
    pub description: Option<String>,
    pub version: Option<String>,
    pub clone_from: Option<String>,
    pub binary_media_types: Option<Vec<String>>,
    pub minimum_compression_size: Option<i32>,
    pub api_key_source: Option<SerializableApiKeySourceType>,
    pub endpoint_configuration: Option<SerializableEndpointConfiguration>,
    pub policy: Option<String>,
    pub tags: Option<HashMap<String, String>>,
    pub disable_execute_api_endpoint: Option<bool>,
}

#[derive(Debug, Clone, Default)]
pub enum SerializableApiKeySourceType {
    #[default]
    Authorizer,
    Header,
    Unknown,
}

#[derive(Debug, Clone, Default)]
pub struct SerializableEndpointConfiguration {
    pub types: Option<Vec<SerializableEndpointType>>,
    pub vpc_endpoint_ids: Option<Vec<String>>,
}

#[derive(Debug, Clone, Default)]
pub enum SerializableEndpointType {
    #[default]
    Edge,
    Private,
    Regional,
    Unknown,
}

#[derive(Debug, Clone, Default)]
pub struct SerializableGetRestAPIOutput {
    pub id: Option<String>,
    pub name: Option<String>,
    pub description: Option<String>,
    pub created_date: Option<SystemTime>,
    pub version: Option<String>,
    pub warnings: Option<Vec<String>>,
    pub binary_media_types: Option<Vec<String>>,
    pub minimum_compression_size: Option<i32>,
    pub api_key_source: Option<SerializableApiKeySourceType>,
    pub endpoint_configuration: Option<SerializableEndpointConfiguration>,
    pub policy: Option<String>,
    pub tags: Option<HashMap<String, String>>,
    pub disable_execute_api_endpoint: bool,
    pub root_resource_id: Option<String>,
}

} // verus!
