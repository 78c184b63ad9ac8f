//! The task lifecycle invariant: task states follow the task state machine.
use vstd::prelude::*;
use super::{Invariant, InvariantResult, InvariantViolation, ViolationView, result_view};
use crate::domain::{Task, TaskState, state_name, state_name_str};
use crate::task_fsm::{TaskStateMachine, is_terminal, valid_transition};
use crate::text::{push_str, owned};

verus! {

/// The reason given for a forbidden transition.
pub open spec fn transition_reason(from: TaskState, to: TaskState) -> Seq<char> {
    "Invalid state transition from "@ + state_name(from) + " to "@ + state_name(to)
}

/// The reason given for a state that is neither terminal nor a known working state.
pub open spec fn bad_state_reason(s: TaskState) -> Seq<char> {
    "State "@ + state_name(s) + " is not a valid non-terminal state"@
}

/// States that are terminal or one of the known non-terminal states.
pub open spec fn state_is_known(s: TaskState) -> bool {
    is_terminal(s) || s == TaskState::Submitted || s == TaskState::Working
        || s == TaskState::InputRequired || s == TaskState::AuthRequired
}

/// What the lifecycle invariant says of a task in state `s`.
pub open spec fn task_state_verdict(s: TaskState) -> Result<(), ViolationView> {
    if state_is_known(s) {
        Ok(())
    } else {
        Err(ViolationView::TaskStateViolation { reason: bad_state_reason(s) })
    }
}

/// The transitions that lead a task from `Submitted` to state `s`: none for
/// `Submitted`, through `Working` for the states only `Working` leads to, and
/// the direct step otherwise.
pub open spec fn implied_path(s: TaskState) -> Seq<(TaskState, TaskState)> {
    match s {
        TaskState::Submitted => Seq::empty(),
        TaskState::Completed | TaskState::InputRequired => seq![
            (TaskState::Submitted, TaskState::Working),
            (TaskState::Working, s),
        ],
        _ => seq![(TaskState::Submitted, s)],
    }
}

/// Each step is allowed by the state machine and starts where the previous one ended.
pub open spec fn is_valid_path(path: Seq<(TaskState, TaskState)>) -> bool {
    &&& forall|i: int| 0 <= i < path.len() ==> valid_transition(#[trigger] path[i].0, path[i].1)
    &&& forall|i: int| 0 < i < path.len() ==> (#[trigger] path[i]).0 == path[i - 1].1
}

/// Every state the basic invariant accepts is reached from `Submitted` by a
/// valid path, which ends in it.
pub proof fn lemma_known_states_reachable(s: TaskState)
    requires
        state_is_known(s),
    ensures
        is_valid_path(implied_path(s)),
        implied_path(s).len() > 0 ==> implied_path(s)[0].0 == TaskState::Submitted
            && implied_path(s).last().1 == s,
{
}

/// What the strict lifecycle invariant says of a task in state `s`: a known
/// state whose implied path from `Submitted` is valid (every known state is,
/// by `lemma_known_states_reachable`).
pub open spec fn strict_verdict(s: TaskState) -> Result<(), ViolationView> {
    if !state_is_known(s) {
        Err(ViolationView::TaskStateViolation { reason: bad_state_reason(s) })
    } else {
        Ok(())
    }
}

/// Invariant: a task's state is one the task state machine knows.
pub struct TaskStateInvariant {
    fsm: TaskStateMachine,
}

impl TaskStateInvariant {
    /// The name of the state machine checked against.
    pub closed spec fn machine_name(&self) -> Seq<char> {
        self.fsm.name@
    }

    /// The invariant, checked against the reference state machine.
    pub fn new() -> (r: Self)
        ensures
            r.machine_name() == "reference"@,
    {
        TaskStateInvariant { fsm: TaskStateMachine::new(owned("reference")) }
    }

    /// `Ok` iff the state machine allows moving from `from` to `to`.
    pub fn validate_transition(&self, from: &TaskState, to: &TaskState) -> (r: InvariantResult)
        ensures
            r is Ok <==> valid_transition(*from, *to),
            r is Err ==> result_view(r) == Err::<(), ViolationView>(
                ViolationView::TaskStateViolation { reason: transition_reason(*from, *to) }),
    {
        if !self.fsm.is_valid_transition(from, to) {
            let mut reason = owned("Invalid state transition from ");
            push_str(&mut reason, state_name_str(from));
            push_str(&mut reason, " to ");
            push_str(&mut reason, state_name_str(to));
            return Err(InvariantViolation::TaskStateViolation { reason });
        }
        Ok(())
    }

    /// `Ok` iff `state` is terminal or one of the known non-terminal states.
    pub fn validate_terminal_state(&self, state: &TaskState) -> (r: InvariantResult)
        ensures
            result_view(r) == task_state_verdict(*state),
    {
        if TaskStateMachine::is_terminal_state(state) {
            Ok(())
        } else {
            match state {
                TaskState::Submitted | TaskState::Working | TaskState::InputRequired
                | TaskState::AuthRequired => Ok(()),
                _ => {
                    let mut reason = owned("State ");
                    push_str(&mut reason, state_name_str(state));
                    push_str(&mut reason, " is not a valid non-terminal state");
                    Err(InvariantViolation::TaskStateViolation { reason })
                },
            }
        }
    }
}

impl Default for TaskStateInvariant {
    fn default() -> (r: Self)
        ensures
            r.machine_name() == "reference"@,
    {
        Self::new()
    }
}

impl Invariant<Task> for TaskStateInvariant {
    open spec fn verdict(&self, value: Task) -> Result<(), ViolationView> {
        task_state_verdict(value.status.state)
    }

    fn check(&self, task: &Task) -> (r: InvariantResult) {
        // A state outside the machine is refused; any known state is
        // reachable from `Submitted`, with or without history.
        self.validate_terminal_state(&task.status.state)
    }

    fn name(&self) -> (r: &str)
        ensures
            r@ == "task_state_machine"@,
    {
        "task_state_machine"
    }

    fn description(&self) -> (r: &str)
        ensures
            r@ == "Validates that task state transitions follow FSM rules"@,
    {
        "Validates that task state transitions follow FSM rules"
    }
}

/// Invariant: as `TaskStateInvariant`, and the move from `Submitted` to the
/// current state is one the state machine allows.
pub struct StrictTaskStateInvariant {
    fsm: TaskStateMachine,
}

impl StrictTaskStateInvariant {
    /// The name of the state machine checked against.
    pub closed spec fn machine_name(&self) -> Seq<char> {
        self.fsm.name@
    }

    /// The invariant, checked against the reference state machine.
    pub fn new() -> (r: Self)
        ensures
            r.machine_name() == "reference"@,
    {
        StrictTaskStateInvariant { fsm: TaskStateMachine::new(owned("reference")) }
    }

    /// The transitions implied by a task: the path from `Submitted` to its
    /// current state.
    pub fn extract_transitions(&self, task: &Task) -> (r: Vec<(TaskState, TaskState)>)
        ensures
            r@ == implied_path(task.status.state),
    {
        let mut transitions: Vec<(TaskState, TaskState)> = Vec::new();
        let current = TaskState::Submitted;
        match task.status.state {
            TaskState::Submitted => {},
            TaskState::Completed | TaskState::InputRequired => {
                transitions.push((current, TaskState::Working));
                transitions.push((TaskState::Working, task.status.state));
            },
            _ => {
                transitions.push((current, task.status.state));
            },
        }
        assert(transitions@ =~= implied_path(task.status.state));
        transitions
    }
}

impl Default for StrictTaskStateInvariant {
    fn default() -> (r: Self)
        ensures
            r.machine_name() == "reference"@,
    {
        Self::new()
    }
}

impl Invariant<Task> for StrictTaskStateInvariant {
    open spec fn verdict(&self, value: Task) -> Result<(), ViolationView> {
        strict_verdict(value.status.state)
    }

    fn check(&self, task: &Task) -> (r: InvariantResult) {
        let basic = TaskStateInvariant::new();
        let b = basic.check(task);
        if b.is_err() {
            return b;
        }
        let transitions = self.extract_transitions(task);
        proof { lemma_known_states_reachable(task.status.state); }
        let mut i: usize = 0;
        while i < transitions.len()
            invariant
                i <= transitions@.len(),
                transitions@ == implied_path(task.status.state),
                state_is_known(task.status.state),
                is_valid_path(transitions@),
            decreases transitions@.len() - i,
        {
            let from = transitions[i].0;
            let to = transitions[i].1;
            assert(valid_transition(transitions@[i as int].0, transitions@[i as int].1));
            if !self.fsm.is_valid_transition(&from, &to) {
                let mut reason = owned("Invalid transition in history: ");
                push_str(&mut reason, state_name_str(&from));
                push_str(&mut reason, " -> ");
                push_str(&mut reason, state_name_str(&to));
                return Err(InvariantViolation::TaskStateViolation { reason });
            }
            i = i + 1;
        }
        Ok(())
    }

    fn name(&self) -> (r: &str)
        ensures
            r@ == "strict_task_state_machine"@,
    {
        "strict_task_state_machine"
    }

    fn description(&self) -> (r: &str)
        ensures
            r@ == "Strictly validates all task state transitions in history"@,
    {
        "Strictly validates all task state transitions in history"
    }
}

} // verus!
