//! EventBridge Scheduler schedules and their targets.

use std::collections::HashMap;
use std::time::SystemTime;
use crate::aws::iam::role::{role_arn_of, RoleInput, RoleOutput};
use crate::aws::sfn::state_machine::{StateMachineInput, StateMachineOutput};
use crate::aws::ArnProvider;
use crate::json::views;
use crate::resource::{output_missing, Binding, ResourceError, SharedResource};
use crate::json::{json_object, json_str, json_text, json_text_of, lemma_members2, JsonValue};
use vstd::prelude::*;

verus! {

#[derive(Debug, Clone, Default)]
pub struct SerializableCreateScheduleInput {
    pub name: Option<String>,
    pub group_name: Option<String>,
    pub schedule_expression: Option<String>,
    pub start_date: Option<SystemTime>,
    pub end_date: Option<SystemTime>,
    pub description: Option<String>,
    pub schedule_expression_timezone: Option<String>,
    pub state: Option<SerializableScheduleState>,
    pub kms_key_arn: Option<String>,
    pub target: Option<SerializableTarget>,
    pub flexible_time_window: SerializableFlexibleTimeWindow,
    pub client_token: Option<String>,
    pub action_after_completion: Option<SerializableActionAfterCompletion>,
}

#[derive(Debug, Clone, Default)]
pub struct SerializableGetScheduleOutput {
    pub arn: Option<String>,
    pub group_name: Option<String>,
    pub name: Option<String>,
    pub schedule_expression: Option<String>,
    pub start_date: Option<SystemTime>,
    pub end_date: Option<SystemTime>,
    pub description: Option<String>,
    pub schedule_expression_timezone: Option<String>,
    pub state: Option<SerializableScheduleState>,
    pub creation_date: Option<SystemTime>,
    pub last_modification_date: Option<SystemTime>,
    pub kms_key_arn: Option<String>,
    pub target: Option<SerializableTarget>,
    pub flexible_time_window: Option<SerializableFlexibleTimeWindow>,
    pub action_after_completion: Option<SerializableActionAfterCompletion>,
}

#[derive(Debug, Clone, Default)]
pub enum SerializableActionAfterCompletion {
    Delete,
    #[default]
    NoAction,
    Unknown,
}

#[derive(Debug, Clone, Default)]
pub struct SerializableFlexibleTimeWindow {
    pub mode: SerializableFlexibleTimeWindowMode,
    pub maximum_window_in_minutes: Option<i32>,
}

#[derive(Debug, Clone, Default)]
pub enum SerializableFlexibleTimeWindowMode {
    Flexible,
    #[default]
    Off,
    Unknown,
}

#[derive(Debug, Clone, Default)]
pub enum SerializableScheduleState {
    #[default]
    Disabled,
    Enabled,
    Unknown,
}

#[derive(Debug, Clone, Default)]
pub struct SerializableTarget {
    pub arn: String,
    pub role_arn: String,
    pub dead_letter_config: Option<SerializableSDeadLetterConfig>,
    pub retry_policy: Option<SerializableRetryPolicy>,
    pub input: Option<String>,
    pub ecs_parameters: Option<SerializableEcsParameters>,
    pub event_bridge_parameters: Option<SerializableEventBridgeParameters>,
    pub kinesis_parameters: Option<SerializableKinesisParameters>,
    pub sage_maker_pipeline_parameters: Option<SerializableSageMakerPipelineParameters>,
    pub sqs_parameters: Option<SerializableSqsParameters>,
}

#[derive(Debug, Clone, Default)]
pub struct SerializableSqsParameters {
    pub message_group_id: Option<String>,
}

#[derive(Debug, Clone, Default)]
pub struct SerializableSageMakerPipelineParameters {
    pub pipeline_parameter_list: Option<Vec<SerializableSageMakerPipelineParameter>>,
}

#[derive(Debug, Clone, Default)]
pub struct SerializableSageMakerPipelineParameter {
    pub name: String,
    pub value: String,
}

#[derive(Debug, Clone, Default)]
pub struct SerializableKinesisParameters {
    pub partition_key: String,
}

#[derive(Debug, Clone, Default)]
pub struct SerializableEventBridgeParameters {
    pub detail_type: String,
    pub source: String,
}

#[derive(Debug, Clone, Default)]
pub struct SerializableEcsParameters {
    pub task_definition_arn: String,
    pub task_count: Option<i32>,
    pub launch_type: Option<SerializableLaunchType>,
    pub network_configuration: Option<SerializableNetworkConfiguration>,
    pub platform_version: Option<String>,
    pub group: Option<String>,
    pub capacity_provider_strategy: Option<Vec<SerializableCapacityProviderStrategyItem>>,
    pub enable_ecs_managed_tags: Option<bool>,
    pub enable_execute_command: Option<bool>,
    pub placement_constraints: Option<Vec<SerializablePlacementConstraint>>,
    pub placement_strategy: Option<Vec<SerializablePlacementStrategy>>,
    pub propagate_tags: Option<SerializablePropagateTags>,
    pub reference_id: Option<String>,
    pub tags: Option<Vec<HashMap<String, String>>>,
}

#[derive(Debug, Clone, Default)]
pub enum SerializablePropagateTags {
    #[default]
    TaskDefinition,
    Unknown,
}

#[derive(Debug, Clone, Default)]
pub struct SerializablePlacementStrategy {
    pub strategy_type: Option<SerializablePlacementStrategyType>,
    pub field: Option<String>,
}

#[derive(Debug, Clone, Default)]
pub enum SerializablePlacementStrategyType {
    #[default]
    Binpack,
    Random,
    Spread,
    Unknown,
}

#[derive(Debug, Clone, Default)]
pub struct SerializablePlacementConstraint {
    pub constraint_type: Option<SerializablePlacementConstraintType>,
    pub expression: Option<String>,
}

#[derive(Debug, Clone, Default)]
pub enum SerializablePlacementConstraintType {
    #[default]
    DistinctInstance,
    MemberOf,
    Unknown,
}

#[derive(Debug, Clone, Default)]
pub struct SerializableCapacityProviderStrategyItem {
    pub capacity_provider: String,
    pub weight: i32,
    pub base: i32,
}

#[derive(Debug, Clone, Default)]
pub struct SerializableNetworkConfiguration {
    pub awsvpc_configuration: Option<SerializableAwsVpcConfiguration>,
}

#[derive(Debug, Clone, Default)]
pub struct SerializableAwsVpcConfiguration {
    pub subnets: Vec<String>,
    pub security_groups: Option<Vec<String>>,
    pub assign_public_ip: Option<SerializableAssignPublicIp>,
}

#[derive(Debug, Clone, Default)]
pub enum SerializableAssignPublicIp {
    #[default]
    Disabled,
    Enabled,
    Unknown,
}

#[derive(Debug, Clone, Default)]
pub enum SerializableLaunchType {
    #[default]
    Ec2,
    External,
    Fargate,
    Unknown,
}

#[derive(Debug, Clone, Default)]
pub struct SerializableRetryPolicy {
    pub maximum_event_age_in_seconds: Option<i32>,
    pub maximum_retry_attempts: Option<i32>,
}

#[derive(Debug, Clone, Default)]
pub struct SerializableSDeadLetterConfig {
    pub arn: Option<String>,
}

pub type ScheduleInput = SerializableCreateScheduleInput;
pub type ScheduleOutput = SerializableGetScheduleOutput;

impl ArnProvider for SerializableGetScheduleOutput {
    open spec fn arns_told(&self) -> Option<Seq<Seq<char>>> {
        Some(seq![match self.arn {
            Some(arn) => arn@,
            None => Seq::<char>::empty(),
        }])
    }

    /// The ARN of the schedule; the empty string when the record holds none.
    fn arn(&self) -> (r: Option<Vec<String>>)
        ensures
            r matches Some(v) && v@.len() == 1 && match self.arn {
                Some(arn) => v@[0] == arn,
                None => v@[0]@.len() == 0,
            },
    {
        let r = {
            match &self.arn {
                Some(arn) => Some(vec![arn.clone()]),
                None => Some(vec![String::new()]),
            }
        };
        proof {
            if r is Some {
                assert(views(r->0@) =~= self.arns_told()->0);
            }
        }
        r
    }
}

/// Setting the role ARN `arn` on the target of the schedule input `before` leaves `after`:
/// the target's role ARN is `arn`, the rest of a target it had is kept, a schedule without
/// a target gets one that holds nothing else, and nothing but the target changes.
pub open spec fn role_arn_set(before: ScheduleInput, arn: String, after: ScheduleInput) -> bool {
    &&& after.target matches Some(target) && target.role_arn == arn
    &&& before.target matches Some(t) ==> after.target == Some(
        SerializableTarget { role_arn: arn, ..t },
    )
    &&& before.target is None ==> (after.target matches Some(t) && t.arn@.len() == 0
        && t.dead_letter_config is None && t.retry_policy is None && t.input is None
        && t.ecs_parameters is None && t.event_bridge_parameters is None
        && t.kinesis_parameters is None && t.sage_maker_pipeline_parameters is None
        && t.sqs_parameters is None)
    &&& after == (ScheduleInput { target: after.target, ..before })
}

/// The schedule's target is invoked under the role: the target's role ARN is the
/// role's ARN; a schedule without a target gets one that holds nothing else.
pub fn copy_target_role_arn(input: &mut ScheduleInput, role: &RoleOutput)
    ensures
        role_arn_set(*old(input), role.arn, *final(input)),
{
    match input.target.take() {
        Some(mut target) => {
            target.role_arn = role.arn.clone();
            input.target = Some(target);
        },
        None => {
            input.target = Some(
                SerializableTarget {
                    arn: String::new(),
                    role_arn: role.arn.clone(),
                    dead_letter_config: None,
                    retry_policy: None,
                    input: None,
                    ecs_parameters: None,
                    event_bridge_parameters: None,
                    kinesis_parameters: None,
                    sage_maker_pipeline_parameters: None,
                    sqs_parameters: None,
                },
            );
        },
    }
}

/// The schedule's target is invoked under the role whose ARN is `arn` (see `role_arn_set`).
pub fn set_target_role_arn(input: &mut ScheduleInput, arn: String)
    ensures
        role_arn_set(*old(input), arn, *final(input)),
{
    match input.target.take() {
        Some(mut target) => {
            target.role_arn = arn;
            input.target = Some(target);
        },
        None => {
            input.target = Some(
                SerializableTarget {
                    arn: String::new(),
                    role_arn: arn,
                    dead_letter_config: None,
                    retry_policy: None,
                    input: None,
                    ecs_parameters: None,
                    event_bridge_parameters: None,
                    kinesis_parameters: None,
                    sage_maker_pipeline_parameters: None,
                    sqs_parameters: None,
                },
            );
        },
    }
}

/// Binds a schedule to the role its target is invoked under (see `copy_target_role_arn`).
pub struct ScheduleRoleBinding {
    pub role: SharedResource<RoleInput, RoleOutput>,
}

impl Binding<ScheduleInput> for ScheduleRoleBinding {
    /// The ARN of the role, as its output is now, is set on the target (see `role_arn_set`),
    /// or, while the role has no output, the input is left as it was.
    open spec fn binds(
        &self,
        before: ScheduleInput,
        after: ScheduleInput,
        r: Result<(), ResourceError>,
    ) -> bool {
        ||| r is Ok && exists|o: RoleOutput|
            #[trigger] role_arn_set(before, o.arn, after) && self.role.can_output(o)
        ||| output_missing(r) && after == before
    }

    /// Only `target` of the input may change; when the dependency has no output yet, nothing does.
    fn apply(&self, input: &mut ScheduleInput) -> (r: Result<(), ResourceError>)
        ensures
            *final(input) == (ScheduleInput { target: final(input).target, ..*old(input) }),
            r is Err ==> *final(input) == *old(input) && r matches Err(
                ResourceError::DependencyOutputIsMissing(_),
            ),
    {
        match self.role.read_output(role_arn_of) {
            Ok(arn) => {
                set_target_role_arn(input, arn);
                proof {
                    let o = choose|o: RoleOutput|
                        #![trigger self.role.can_output(o)]
                        o.arn == arn && self.role.can_output(o);
                    assert(role_arn_set(*old(input), o.arn, *input));
                }
                Ok(())
            },
            Err(err) => Err(err),
        }
    }
}

/// The input of the Step Functions `StartExecution` call that starts the state machine
/// `state_machine_arn` with `input`: `{"Input": input, "StateMachineArn": state_machine_arn}`.
pub open spec fn start_execution_model(input: Seq<char>, state_machine_arn: Seq<char>) -> JsonValue {
    JsonValue::Object(
        seq![
            ("Input"@, JsonValue::Str(input)),
            ("StateMachineArn"@, JsonValue::Str(state_machine_arn)),
        ],
    )
}

/// The text of the input of the `StartExecution` call.
fn start_execution_input(input: &str, state_machine_arn: &str) -> (s: String)
    ensures
        s@ == json_text_of(start_execution_model(input@, state_machine_arn@)),
{
    let members = vec![
        ("Input".to_string(), json_str(input)),
        ("StateMachineArn".to_string(), json_str(state_machine_arn)),
    ];
    proof {
        lemma_members2(members@);
    }
    let call = json_object(members);
    json_text(&call)
}

/// The universal target that starts a Step Functions execution.
pub open spec fn start_execution_arn() -> Seq<char> {
    "arn:aws:scheduler:::aws-sdk:sfn:startExecution"@
}

/// Setting the schedule input `before` to start the state machine `state_machine_arn` with
/// `execution_input` leaves `after`: its target is the universal StartExecution target with
/// that call's input; the rest of a target it had is kept, a schedule without a target gets
/// one that holds nothing else, and nothing but the target changes.
pub open spec fn state_machine_target_set(
    before: ScheduleInput,
    state_machine_arn: Seq<char>,
    execution_input: Seq<char>,
    after: ScheduleInput,
) -> bool {
    &&& after.target matches Some(target) && target.arn@ == start_execution_arn() && (
    target.input matches Some(text) && text@ == json_text_of(
        start_execution_model(execution_input, state_machine_arn),
    ))
    &&& before.target matches Some(t) ==> (after.target matches Some(n) && n == (
    SerializableTarget { arn: n.arn, input: n.input, ..t }))
    &&& before.target is None ==> (after.target matches Some(t) && t.role_arn@.len() == 0
        && t.dead_letter_config is None && t.retry_policy is None && t.ecs_parameters is None
        && t.event_bridge_parameters is None && t.kinesis_parameters is None
        && t.sage_maker_pipeline_parameters is None && t.sqs_parameters is None)
    &&& after == (ScheduleInput { target: after.target, ..before })
}

/// The schedule starts the state machine `state_machine_arn` with `input` (JSON text) (see
/// `state_machine_target_set`).
pub fn copy_state_machine_target(input: &mut ScheduleInput, state_machine_arn: &str, execution_input: &str)
    ensures
        state_machine_target_set(*old(input), state_machine_arn@, execution_input@, *final(input)),
{
    let text = start_execution_input(execution_input, state_machine_arn);
    let arn = "arn:aws:scheduler:::aws-sdk:sfn:startExecution".to_string();
    match input.target.take() {
        Some(mut target) => {
            target.arn = arn;
            target.input = Some(text);
            input.target = Some(target);
        },
        None => {
            input.target = Some(
                SerializableTarget {
                    arn,
                    role_arn: String::new(),
                    dead_letter_config: None,
                    retry_policy: None,
                    input: Some(text),
                    ecs_parameters: None,
                    event_bridge_parameters: None,
                    kinesis_parameters: None,
                    sage_maker_pipeline_parameters: None,
                    sqs_parameters: None,
                },
            );
        },
    }
}

/// The ARN of the state machine `sm`.
pub fn state_machine_arn_of(sm: &StateMachineOutput) -> (arn: String)
    ensures
        arn == sm.state_machine_arn,
{
    sm.state_machine_arn.clone()
}

/// Binds a schedule to the state machine it starts, with the execution input `input` (JSON
/// text): the target starts the state machine whose ARN its output tells (see
/// `copy_state_machine_target`).
pub struct ScheduleStateMachineBinding {
    pub state_machine: SharedResource<StateMachineInput, StateMachineOutput>,
    pub input: String,
}

impl Binding<ScheduleInput> for ScheduleStateMachineBinding {
    /// The target starts the state machine, as its output is now, with the execution input
    /// (see `state_machine_target_set`); while the state machine has no output, the input is
    /// left as it was.
    open spec fn binds(
        &self,
        before: ScheduleInput,
        after: ScheduleInput,
        r: Result<(), ResourceError>,
    ) -> bool {
        ||| r is Ok && exists|o: StateMachineOutput|
            #[trigger] state_machine_target_set(before, o.state_machine_arn@, self.input@, after)
                && self.state_machine.can_output(o)
        ||| output_missing(r) && after == before
    }

    fn apply(&self, input: &mut ScheduleInput) -> (r: Result<(), ResourceError>) {
        match self.state_machine.read_output(state_machine_arn_of) {
            Ok(arn) => {
                copy_state_machine_target(input, arn.as_str(), self.input.as_str());
                proof {
                    let o = choose|o: StateMachineOutput|
                        #![trigger self.state_machine.can_output(o)]
                        o.state_machine_arn == arn && self.state_machine.can_output(o);
                    assert(state_machine_target_set(
                        *old(input),
                        o.state_machine_arn@,
                        self.input@,
                        *input,
                    ));
                }
                Ok(())
            },
            Err(err) => Err(err),
        }
    }
}

/// A schedule bound to a state machine starts that state machine: its target is the universal
/// StartExecution target, and the call's input names, as `StateMachineArn`, the ARN in an output
/// the state machine can have (see `SharedResource::can_output`), with the binding's execution
/// input as `Input`; while the state machine has no output, nothing changes.
pub proof fn law_schedule_starts_the_state_machine(
    b: ScheduleStateMachineBinding,
    before: ScheduleInput,
    after: ScheduleInput,
    r: Result<(), ResourceError>,
)
    requires
        b.binds(before, after, r),
    ensures
        r is Ok ==> exists|o: StateMachineOutput|
            #![trigger b.state_machine.can_output(o)]
            b.state_machine.can_output(o) && (after.target matches Some(t) && t.arn@
                == start_execution_arn() && (t.input matches Some(text) && text@ == json_text_of(
                JsonValue::Object(
                    seq![
                        ("Input"@, JsonValue::Str(b.input@)),
                        ("StateMachineArn"@, JsonValue::Str(o.state_machine_arn@)),
                    ],
                ),
            ))),
        r is Err ==> after == before,
{
    if r is Ok {
        let o = choose|o: StateMachineOutput|
            #[trigger] state_machine_target_set(before, o.state_machine_arn@, b.input@, after)
                && b.state_machine.can_output(o);
        assert(b.state_machine.can_output(o));
    }
}

} // verus!
