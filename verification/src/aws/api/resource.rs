//! Resources (paths) of a REST API in API Gateway, with their methods, as this library records them.

use std::collections::HashMap;
use vstd::prelude::*;

verus! {

#[derive(Debug, Clone, Default)]
pub struct SerializableResourceInput {
    pub rest_api_id: Option<String>,
    pub parent_id: Option<String>,
    pub path_part: Option<String>,
}

#[derive(Debug, Clone, Default)]
pub struct SerializableGetResourceOutput {
    pub id: Option<String>,
    pub rest_api_id: Option<String>,
    pub parent_id: Option<String>,
    pub path_part: Option<String>,
    pub path: Option<String>,
    pub resource_methods: Option<HashMap<String, SerializableMethod>>,
}

#[derive(Debug, Clone, Default)]
pub struct SerializableMethod {
    pub http_method: Option<String>,
    pub authorization_type: Option<String>,
    pub authorizer_id: Option<String>,
    pub api_key_required: Option<bool>,
    pub request_validator_id: Option<String>,
    pub operation_name: Option<String>,
    pub request_parameters: Option<HashMap<String, bool>>,
    pub request_models: Option<HashMap<String, String>>,
    pub method_responses: Option<HashMap<String, SerializableMethodResponse>>,
    pub method_integration: Option<SerializableIntegration>,
    pub authorization_scopes: Option<Vec<String>>,
}

#[derive(Debug, Clone, Default)]
pub struct SerializableMethodResponse {
    pub status_code: Option<String>,
    pub response_parameters: Option<HashMap<String, bool>>,
    pub response_models: Option<HashMap<String, String>>,
}

#[derive(Debug, Clone, Default)]
pub struct SerializableIntegration {
    pub integration_type: Option<SerializableIntegrationType>,
    pub http_method: Option<String>,
    pub uri: Option<String>,
    pub connection_type: Option<SerializableConnectionType>,
    pub connection_id: Option<String>,
    pub credentials: Option<String>,
    pub request_parameters: Option<HashMap<String, String>>,
    pub request_templates: Option<HashMap<String, String>>,
    pub passthrough_behavior: Option<String>,
    pub content_handling: Option<SerializableContentHandlingStrategy>,
    pub timeout_in_millis: i32,
    pub cache_namespace: Option<String>,
    pub cache_key_parameters: Option<Vec<String>>,
    pub integration_responses: Option<HashMap<String, SerializableIntegrationResponse>>,
    pub tls_config: Option<SerializableTlsConfig>,
}

#[derive(Debug, Clone, Default)]
pub struct SerializableTlsConfig {
    pub insecure_skip_verification: bool,
}

#[derive(Debug, Clone, Default)]
pub struct SerializableIntegrationResponse {
    pub status_code: Option<String>,
    pub selection_pattern: Option<String>,
    pub response_parameters: Option<HashMap<String, String>>,
    pub response_templates: Option<HashMap<String, String>>,
    pub content_handling: Option<SerializableContentHandlingStrategy>,
}

#[derive(Debug, Clone, Default)]
pub enum SerializableContentHandlingStrategy {
    #[default]
    ConvertToBinary,
    ConvertToText,
    Unknown,
}

#[derive(Debug, Clone, Default)]
pub enum SerializableConnectionType {
    #[default]
    Internet,
    VpcLink,
    Unknown,
}

#[derive(Debug, Clone, Default)]
pub enum SerializableIntegrationType {
    #[default]
    Aws,
    AwsProxy,
    Http,
    HttpProxy,
    Mock,
    Unknown,
}

} // verus!
