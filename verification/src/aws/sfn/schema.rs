//! Parts of the Amazon States Language used in state machine definitions.

use serde_json::Value;
use vstd::prelude::*;

verus! {

/// A state machine definition: the state it starts at and its states, each under its name
/// (no name occurs twice).
#[derive(Debug, Clone)]
pub struct StateMachineDocument {
    pub comment: Option<String>,
    pub start_at: String,
    pub states: Vec<(String, State)>,
}

/// A state of a state machine, by its type (`MapEach` is the type named `Map`).
#[derive(Debug, Clone)]
pub enum State {
    Task(TaskState),
    Choice(ChoiceState),
    Wait(WaitState),
    Succeed(SucceedState),
    Fail(FailState),
    Parallel(ParallelState),
    MapEach(MapState),
    Pass(PassState),
}

/// A state that runs the resource (such as a Lambda function) named by its ARN.
#[derive(Debug, Clone)]
pub struct TaskState {
    pub resource: String,
    pub next: Option<String>,
    pub end: Option<bool>,
    pub input_path: Option<String>,
    pub output_path: Option<String>,
    pub result_path: Option<String>,
    pub parameters: Option<Value>,
    pub timeout_seconds: u64,
    pub heartbeat_seconds: u64,
    pub retry: Vec<RetryCatch>,
    pub catch: Vec<RetryCatch>,
}

/// When a task is retried, or where its errors go. The backoff rate, a floating-point number,
/// is held as its bits.
#[derive(Debug, Clone)]
pub struct RetryCatch {
    pub error_equals: Vec<String>,
    pub interval_seconds: Option<u64>,
    pub max_attempts: Option<u64>,
    pub backoff_rate_bits: Option<u64>,
}

#[derive(Debug, Clone)]
pub struct ChoiceState {
    pub choices: Vec<ChoiceRule>,
    pub default: Option<String>,
}

#[derive(Debug, Clone)]
pub struct ChoiceRule {
    pub variable: String,
    pub operator: ChoiceOperator,
    pub next: String,
}

/// How a choice compares its variable; a number compared with is held as its bits.
#[derive(Debug, Clone)]
pub enum ChoiceOperator {
    StringEquals { string_value: String },
    NumericEquals { numeric_value_bits: u64 },
    BooleanEquals { boolean_value: bool },
}

/// Branches run side by side. Each branch, a state machine definition of its own that the
/// library does not read, is held as its JSON value.
#[derive(Debug, Clone)]
pub struct ParallelState {
    pub branches: Vec<Value>,
    pub next: Option<String>,
    pub end: Option<bool>,
}

/// A definition run for each item of the input; that definition, which the library does not
/// read, is held as its JSON value.
#[derive(Debug, Clone)]
pub struct MapState {
    pub iterator: Value,
    pub max_concurrency: Option<u32>,
    pub next: Option<String>,
    pub end: Option<bool>,
}

#[derive(Debug, Clone)]
pub struct PassState {
    pub next: Option<String>,
    pub end: Option<bool>,
    pub input_path: Option<String>,
    pub output_path: Option<String>,
    pub result_path: Option<String>,
    pub parameters: Option<Value>,
}

#[derive(Debug, Clone)]
pub struct WaitState {
    pub seconds: Option<u64>,
    pub timestamp: Option<String>,
    pub next: Option<String>,
    pub end: Option<bool>,
}

#[derive(Debug, Clone)]
pub struct SucceedState {
    pub comment: Option<String>,
}

#[derive(Debug, Clone)]
pub struct FailState {
    pub cause: Option<String>,
    pub error: Option<String>,
}

/// The heartbeat of a task state that names none, in seconds.
pub fn default_heartbeat_seconds() -> (s: u64)
    ensures
        s == 99999999,
{
    99999999
}

/// The timeout of a task state that names none, in seconds.
pub fn default_timeout_seconds() -> (s: u64)
    ensures
        s == 99999999,
{
    99999999
}

} // verus!
