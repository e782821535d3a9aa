//! Lambda functions.

pub mod function;
pub mod solution;
