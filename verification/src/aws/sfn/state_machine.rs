//! Step Functions state machines.

use crate::aws::ec2::vpc::SerializableTag;
use crate::aws::iam::role::{role_arn_of, RoleInput, RoleOutput};
use crate::aws::sfn::schema::{State, StateMachineDocument, TaskState};
use crate::aws::{arns_of, ArnProvider};
use crate::json::views;
use crate::resource::{output_missing, Binding, ResourceError, SharedResource};
use vstd::prelude::*;

verus! {

#[derive(Debug, Clone, Default)]
pub struct SerializableCreateStateMachineInput {
    pub name: Option<String>,
    pub definition: Option<StateMachineDocument>,
    pub role_arn: Option<String>,
    pub state_machine_type: Option<SerializableStateMachineType>,
    pub logging_configuration: Option<SerializableLoggingConfigurationForSM>,
    pub tags: Option<Vec<SerializableTag>>,
    pub tracing_configuration: Option<SerializableTracingConfiguration>,
    pub publish: Option<bool>,
    pub version_description: Option<String>,
}

#[derive(Debug, Clone)]
pub struct SerializableStateMachine {
    pub state_machine_arn: String,
    pub name: String,
    pub status: Option<SerializableStateMachineStatus>,
    pub definition: StateMachineDocument,
    pub role_arn: String,
    pub state_machine_type: SerializableStateMachineType,
    pub logging_configuration: Option<SerializableLoggingConfigurationForSM>,
    pub tracing_configuration: Option<SerializableTracingConfiguration>,
    pub label: Option<String>,
    pub revision_id: Option<String>,
    pub description: Option<String>,
}

pub type StateMachineInput = SerializableCreateStateMachineInput;
pub type StateMachineOutput = SerializableStateMachine;

/// A state machine named nothing is named after its resource id.
pub fn input_hook(id: &str, input: &mut StateMachineInput)
    ensures
        old(input).name is None ==> (final(input).name matches Some(name) && name@ == id@),
        old(input).name is Some ==> final(input).name == old(input).name,
        *final(input) == (StateMachineInput { name: final(input).name, ..*old(input) }),
{
    if input.name.is_none() {
        input.name = Some(id.to_string());
    }
}

impl ArnProvider for SerializableStateMachine {
    open spec fn arns_told(&self) -> Option<Seq<Seq<char>>> {
        Some(seq![self.state_machine_arn@])
    }

    /// The ARN of the state machine.
    fn arn(&self) -> (r: Option<Vec<String>>)
        ensures
            r matches Some(v) && v@.len() == 1 && v@[0] == self.state_machine_arn,
    {
        let r = {
            Some(vec![self.state_machine_arn.clone()])
        };
        proof {
            if r is Some {
                assert(views(r->0@) =~= self.arns_told()->0);
            }
        }
        r
    }
}

/// The state machine runs under the role: its role ARN is the role's ARN.
pub fn copy_role_arn(input: &mut StateMachineInput, role: &RoleOutput)
    ensures
        *final(input) == (StateMachineInput { role_arn: Some(role.arn), ..*old(input) }),
{
    input.role_arn = Some(role.arn.clone());
}

/// Binds a state machine to the role it runs under (see `copy_role_arn`).
pub struct StateMachineRoleBinding {
    pub role: SharedResource<RoleInput, RoleOutput>,
}

/// The input `before` with what the binding takes from the role's output `o`.
pub open spec fn with_role_arn(before: StateMachineInput, o: RoleOutput) -> StateMachineInput {
    StateMachineInput { role_arn: Some(o.arn), ..before }
}

impl Binding<StateMachineInput> for StateMachineRoleBinding {
    open spec fn binds(
        &self,
        before: StateMachineInput,
        after: StateMachineInput,
        r: Result<(), ResourceError>,
    ) -> bool {
        ||| r is Ok && exists|o: RoleOutput|
            after == #[trigger] with_role_arn(before, o) && self.role.can_output(o)
        ||| output_missing(r) && after == before
    }

    fn apply(&self, input: &mut StateMachineInput) -> (r: Result<(), ResourceError>) {
        match self.role.read_output(role_arn_of) {
            Ok(value) => {
                input.role_arn = Some(value);
                proof {
                    let o = choose|o: RoleOutput|
                        #![trigger self.role.can_output(o)]
                        o.arn == value && self.role.can_output(o);
                    assert(*input == with_role_arn(*old(input), o));
                }
                Ok(())
            },
            Err(err) => Err(err),
        }
    }
}

/// `i` is the position of the first state named `name` among `states`.
pub open spec fn is_first_named(states: Seq<(String, State)>, name: Seq<char>, i: int) -> bool {
    &&& 0 <= i < states.len()
    &&& states[i].0@ == name
    &&& forall|j: int| 0 <= j < i ==> (#[trigger] states[j]).0@ != name
}

/// Some state among `states` is named `name`.
pub open spec fn names_state(states: Seq<(String, State)>, name: Seq<char>) -> bool {
    exists|i: int| 0 <= i < states.len() && (#[trigger] states[i]).0@ == name
}

/// The position of the first state named `name`, if any.
fn find_state(states: &Vec<(String, State)>, name: &str) -> (r: Option<usize>)
    ensures
        match r {
            Some(i) => is_first_named(states@, name@, i as int),
            None => !names_state(states@, name@),
        },
{
    let mut i: usize = 0;
    while i < states.len()
        invariant
            i <= states@.len(),
            forall|j: int| 0 <= j < i ==> (#[trigger] states@[j]).0@ != name@,
        decreases states@.len() - i,
    {
        if str_equal(states[i].0.as_str(), name) {
            return Some(i);
        }
        i = i + 1;
    }
    None
}

/// Whether the two strings are the same.
fn str_equal(a: &str, b: &str) -> (r: bool)
    ensures
        r == (a@ == b@),
{
    let n = a.unicode_len();
    if n != b.unicode_len() {
        return false;
    }
    let mut i: usize = 0;
    while i < n
        invariant
            n == a@.len(),
            n == b@.len(),
            i <= n,
            forall|j: int| 0 <= j < i ==> a@[j] == b@[j],
        decreases n - i,
    {
        if a.get_char(i) != b.get_char(i) {
            return false;
        }
        i = i + 1;
    }
    assert(a@ =~= b@);
    true
}

/// A function can be bound to the state `state_name` only when the state machine has a
/// definition and the definition has a state of that name.
pub fn check_state(input: &StateMachineInput, state_name: &str) -> (r: Result<(), ResourceError>)
    ensures
        input.definition is None ==> (r matches Err(ResourceError::BindingFail(m)) && m@
            == "State machine has no definition"@),
        input.definition matches Some(d) ==> (r is Ok <==> names_state(d.states@, state_name@)),
        input.definition matches Some(d) && !names_state(d.states@, state_name@) ==> (r matches Err(
            ResourceError::BindingFail(m),
        ) && m@ == "State "@ + state_name@ + " was not found in the state machine definition"@),
{
    match &input.definition {
        Some(definition) => match find_state(&definition.states, state_name) {
            Some(_) => Ok(()),
            None => {
                let mut m = "State ".to_string();
                m.append(state_name);
                m.append(" was not found in the state machine definition");
                Err(ResourceError::BindingFail(m))
            },
        },
        None => Err(ResourceError::BindingFail("State machine has no definition".to_string())),
    }
}

/// Running the function `arn` at the state named `name` of the state machine input `before`
/// leaves `after`: when the definition's first state of that name is a task, its resource is
/// `arn`; otherwise nothing changes.
pub open spec fn task_resource_set(
    before: StateMachineInput,
    name: Seq<char>,
    arn: String,
    after: StateMachineInput,
) -> bool {
    match before.definition {
        Some(d) => if exists|i: int| #[trigger]
            is_first_named(d.states@, name, i) && d.states@[i].1 is Task {
            let i = choose|i: int| #[trigger]
                is_first_named(d.states@, name, i) && d.states@[i].1 is Task;
            match d.states@[i].1 {
                State::Task(t) => after == (StateMachineInput {
                    definition: Some(
                        StateMachineDocument { states: after.definition->0.states, ..d },
                    ),
                    ..before
                }) && after.definition->0.states@ == d.states@.update(
                    i,
                    (d.states@[i].0, State::Task(TaskState { resource: arn, ..t })),
                ),
                _ => after == before,
            }
        } else {
            after == before
        },
        None => after == before,
    }
}

/// The task state named `state_name` runs the function `arn` (see `task_resource_set`).
pub fn set_task_resource(input: &mut StateMachineInput, state_name: &str, arn: String)
    ensures
        task_resource_set(*old(input), state_name@, arn, *final(input)),
{
    let ghost before = *input;
    let mut definition = match input.definition.take() {
        Some(definition) => definition,
        None => {
            assert(*input == before);
            return ;
        },
    };
    let ghost d = definition;
    match find_state(&definition.states, state_name) {
        Some(i) => {
            proof {
                lemma_first_named_unique(d.states@, state_name@, i as int);
            }
            let is_task = match &definition.states[i].1 {
                State::Task(_) => true,
                _ => false,
            };
            if is_task {
                let (name, state) = definition.states.remove(i);
                match state {
                    State::Task(task) => {
                        let ghost t = task;
                        let set = State::Task(TaskState { resource: arn, ..task });
                        definition.states.insert(i, (name, set));
                        proof {
                            assert(definition.states@ =~= d.states@.update(
                                i as int,
                                (d.states@[i as int].0, State::Task(TaskState { resource: arn, ..t })),
                            ));
                        }
                        input.definition = Some(definition);
                        assert(task_resource_set(before, state_name@, arn, *input));
                    },
                    other => {
                        assert(false);
                        definition.states.insert(i, (name, other));
                        input.definition = Some(definition);
                    },
                }
            } else {
                input.definition = Some(definition);
                assert(*input == before);
            }
        },
        None => {
            input.definition = Some(definition);
            assert(*input == before);
        },
    }
}

/// Only one position holds the first state of a name.
proof fn lemma_first_named_unique(states: Seq<(String, State)>, name: Seq<char>, i: int)
    requires
        is_first_named(states, name, i),
    ensures
        forall|j: int| is_first_named(states, name, j) ==> j == i,
{
    assert forall|j: int| is_first_named(states, name, j) implies j == i by {
        if j < i {
            assert(states[j].0@ != name);
        } else if i < j {
            assert(states[i].0@ != name);
        }
    }
}

/// Setting the task state `name` of the state machine input `before` to run the first of the
/// ARNs `arns` leaves `after` (see `task_resource_set`); without ARNs, or with an empty list of
/// them, nothing changes.
pub open spec fn task_resource_told(
    before: StateMachineInput,
    name: Seq<char>,
    arns: Option<Seq<Seq<char>>>,
    after: StateMachineInput,
) -> bool {
    match arns {
        Some(a) => if a.len() > 0 {
            exists|arn: String| arn@ == a[0] && #[trigger] task_resource_set(before, name, arn, after)
        } else {
            after == before
        },
        None => after == before,
    }
}

/// Binds the task state `state_name` of a state machine to the function (or any resource that
/// tells its ARNs) it runs: the state runs the first ARN the resource's output tells (see
/// `set_task_resource`). A resource that tells no ARN, or an empty list of them, leaves the
/// state machine as it is.
#[verifier::reject_recursive_types(I2)]
#[verifier::reject_recursive_types(O2)]
pub struct StateMachineTaskBinding<I2, O2> {
    pub resource: SharedResource<I2, O2>,
    pub state_name: String,
}

impl<I2, O2: Clone + ArnProvider> Binding<StateMachineInput> for StateMachineTaskBinding<I2, O2> {
    open spec fn binds(
        &self,
        before: StateMachineInput,
        after: StateMachineInput,
        r: Result<(), ResourceError>,
    ) -> bool {
        ||| r is Ok && exists|o: O2| #[trigger] task_resource_told(
            before,
            self.state_name@,
            o.arns_told(),
            after,
        ) && self.resource.can_output(o)
        ||| output_missing(r) && after == before
    }

    fn apply(&self, input: &mut StateMachineInput) -> (r: Result<(), ResourceError>) {
        match self.resource.read_output(arns_of::<O2>) {
            Ok(told) => {
                let ghost output = choose|o: O2|
                    #![trigger self.resource.can_output(o)]
                    (match told {
                        Some(v) => o.arns_told() == Some(views(v@)),
                        None => o.arns_told() is None,
                    }) && self.resource.can_output(o);
                match told {
                    Some(arns) => if arns.len() > 0 {
                        let arn = arns[0].clone();
                        assert(arn@ == views(arns@)[0]);
                        set_task_resource(input, self.state_name.as_str(), arn);
                    },
                    None => {},
                }
                assert(task_resource_told(*old(input), self.state_name@, output.arns_told(), *input));
                Ok(())
            },
            Err(err) => Err(err),
        }
    }
}

#[derive(Debug, Clone, Default)]
pub struct SerializableTracingConfiguration {
    pub enabled: bool,
}

#[derive(Debug, Clone, Default)]
pub struct SerializableLoggingConfigurationForSM {
    pub level: Option<SerializableLogLevelForSM>,
    pub include_execution_data: bool,
    pub destinations: Option<Vec<SerializableLogDestinationForSM>>,
}

#[derive(Debug, Clone, Default)]
pub struct SerializableLogDestinationForSM {
    pub cloud_watch_logs_log_group: Option<SerializableCloudWatchLogsLogGroupForSM>,
}

#[derive(Debug, Clone, Default)]
pub struct SerializableCloudWatchLogsLogGroupForSM {
    pub log_group_arn: Option<String>,
}

#[derive(Debug, Clone, Default)]
pub enum SerializableLogLevelForSM {
    All,
    #[default]
    Error,
    Fatal,
    Off,
    Unknown,
}

#[derive(Debug, Clone, Default)]
pub enum SerializableStateMachineStatus {
    #[default]
    Active,
    Deleting,
    Unknown,
}

#[derive(Debug, Clone, Default)]
pub enum SerializableStateMachineType {
    #[default]
    Express,
    Standard,
    Unknown,
}

} // verus!
