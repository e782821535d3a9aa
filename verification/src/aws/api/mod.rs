//! API Gateway REST APIs, their resources, integrations and deployments.

pub mod deployment;
pub mod integration;
pub mod resource;
pub mod restapi;
