//! S3 buckets.

pub mod bucket;
