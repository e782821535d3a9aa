//! Integrations of REST API methods in API Gateway, as this library records them.

use crate::aws::api::resource::SerializableConnectionType;
use crate::aws::api::resource::SerializableContentHandlingStrategy;
use crate::aws::api::resource::SerializableIntegrationResponse;
use crate::aws::api::resource::SerializableIntegrationType;
use crate::aws::api::resource::SerializableTlsConfig;
use std::collections::HashMap;
use vstd::prelude::*;

verus! {

#[derive(Debug, Clone, Default)]
pub struct SerializablePutIntegrationInput {
    pub rest_api_id: Option<String>,
    pub resource_id: Option<String>,
    pub http_method: Option<String>,
    pub integration_type: Option<SerializableIntegrationType>,
    pub integration_http_method: Option<String>,
    pub uri: Option<String>,
    pub connection_type: Option<SerializableConnectionType>,
    pub connection_id: Option<String>,
    pub credentials: Option<String>,
    pub request_parameters: Option<HashMap<String, String>>,
    pub request_templates: Option<HashMap<String, String>>,
    pub passthrough_behavior: Option<String>,
    pub cache_namespace: Option<String>,
    pub cache_key_parameters: Option<Vec<String>>,
    pub content_handling: Option<SerializableContentHandlingStrategy>,
    pub timeout_in_millis: Option<i32>,
    pub tls_config: Option<SerializableTlsConfig>,
}

#[derive(Debug, Clone, Default)]
pub struct SerializableGetIntegrationOutput {
    pub resource_id: Option<String>,
    pub rest_api_id: Option<String>,
    pub integration_type: Option<SerializableIntegrationType>,
    pub http_method: Option<String>,
    pub uri: Option<String>,
    pub connection_type: Option<SerializableConnectionType>,
    pub connection_id: Option<String>,
    pub credentials: Option<String>,
    pub request_parameters: Option<HashMap<String, String>>,
    pub request_templates: Option<HashMap<String, String>>,
    pub passthrough_behavior: Option<String>,
    pub content_handling: Option<SerializableContentHandlingStrategy>,
    pub timeout_in_millis: i32,
    pub cache_namespace: Option<String>,
    pub cache_key_parameters: Option<Vec<String>>,
    pub integration_responses: Option<HashMap<String, SerializableIntegrationResponse>>,
    pub tls_config: Option<SerializableTlsConfig>,
}

#[derive(Debug, Clone, Default)]
pub struct SerializableIntegration {
    pub integration_type: Option<SerializableIntegrationType>,
    pub http_method: Option<String>,
    pub uri: Option<String>,
    pub connection_type: Option<SerializableConnectionType>,
    pub connection_id: Option<String>,
    pub credentials: Option<String>,
    pub request_parameters: Option<HashMap<String, String>>,
    pub request_templates: Option<HashMap<String, String>>,
    pub passthrough_behavior: Option<String>,
    pub content_handling: Option<SerializableContentHandlingStrategy>,
    pub timeout_in_millis: i32,
    pub cache_namespace: Option<String>,
    pub cache_key_parameters: Option<Vec<String>>,
    pub integration_responses: Option<HashMap<String, SerializableIntegrationResponse>>,
    pub tls_config: Option<SerializableTlsConfig>,
}

} // verus!
