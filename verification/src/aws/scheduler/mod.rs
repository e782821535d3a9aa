//! EventBridge Scheduler schedules.

pub mod schedule;
