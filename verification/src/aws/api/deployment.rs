//! Deployments of a REST API in API Gateway, as this library records them.

use std::collections::HashMap;
use vstd::prelude::*;

verus! {

#[derive(Debug, Clone, Default)]
pub enum SerializableCacheClusterSize {
    #[default]
    Size0Point5Gb,
    Size1Point6Gb,
    Size118Gb,
    Size13Point5Gb,
    Size237Gb,
    Size28Point4Gb,
    Size58Point2Gb,
    Size6Point1Gb,
    Unknown,
}

#[derive(Debug, Clone, Default)]
pub struct SerializableGetDeploymentOutput {
    pub rest_api_id: Option<String>,
    pub id: Option<String>,
    pub description: Option<String>,
    pub api_summary: Option<HashMap<String, HashMap<String, SerializableMethodSnapshot>>>,
}

#[derive(Debug, Clone, Default)]
pub struct SerializableMethodSnapshot {
    pub authorization_type: Option<String>,
    pub api_key_required: bool,
}

} // verus!
