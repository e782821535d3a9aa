//! Infrastructure-as-code engine: a plan of cloud resources, ordered by their
//! dependencies, reconciled against a store of what was created before.

pub mod aws;
pub mod dag;
pub mod datastore;
pub mod graph;
pub mod json;
pub mod manager;
pub mod plan;
pub mod registry;
pub mod resource;
pub mod run;
