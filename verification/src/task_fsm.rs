//! The finite-state machine of the task lifecycle.
use vstd::prelude::*;
use crate::domain::TaskState;

verus! {

/// States from which no transition leads anywhere.
pub open spec fn is_terminal(s: TaskState) -> bool {
    match s {
        TaskState::Completed | TaskState::Failed | TaskState::Canceled | TaskState::Rejected => true,
        _ => false,
    }
}

/// The transitions that the task lifecycle allows.
pub open spec fn valid_transition(from: TaskState, to: TaskState) -> bool {
    match from {
        TaskState::Submitted => match to {
            TaskState::Working | TaskState::Rejected | TaskState::Canceled | TaskState::Failed
            | TaskState::AuthRequired => true,
            _ => false,
        },
        TaskState::Working => match to {
            TaskState::Completed | TaskState::Failed | TaskState::Canceled
            | TaskState::InputRequired | TaskState::AuthRequired => true,
            _ => false,
        },
        TaskState::InputRequired | TaskState::AuthRequired => match to {
            TaskState::Working | TaskState::Canceled | TaskState::Failed => true,
            _ => false,
        },
        _ => false,
    }
}

/// A task state machine, named for audit purposes.
#[derive(Debug)]
pub struct TaskStateMachine {
    pub name: String,
}

impl TaskStateMachine {
    /// A state machine with the given name.
    pub fn new(name: String) -> (r: TaskStateMachine)
        ensures
            r.name == name,
    {
        TaskStateMachine { name }
    }

    /// `true` iff `state` is terminal.
    pub fn is_terminal_state(state: &TaskState) -> (r: bool)
        ensures
            r == is_terminal(*state),
    {
        match state {
            TaskState::Completed | TaskState::Failed | TaskState::Canceled | TaskState::Rejected => true,
            _ => false,
        }
    }

    /// `true` iff the lifecycle allows moving from `from` to `to`.
    pub fn is_valid_transition(&self, from: &TaskState, to: &TaskState) -> (r: bool)
        ensures
            r == valid_transition(*from, *to),
    {
        match from {
            TaskState::Submitted => match to {
                TaskState::Working | TaskState::Rejected | TaskState::Canceled | TaskState::Failed
                | TaskState::AuthRequired => true,
                _ => false,
            },
            TaskState::Working => match to {
                TaskState::Completed | TaskState::Failed | TaskState::Canceled
                | TaskState::InputRequired | TaskState::AuthRequired => true,
                _ => false,
            },
            TaskState::InputRequired | TaskState::AuthRequired => match to {
                TaskState::Working | TaskState::Canceled | TaskState::Failed => true,
                _ => false,
            },
            _ => false,
        }
    }
}

/// No transition leaves a terminal state.
pub proof fn lemma_terminal_states_are_final(from: TaskState, to: TaskState)
    requires
        is_terminal(from),
    ensures
        !valid_transition(from, to),
{
}

/// No transition leads back to `Submitted`, nor from a state to itself.
pub proof fn lemma_no_self_or_resubmit(from: TaskState, to: TaskState)
    requires
        valid_transition(from, to),
    ensures
        to != TaskState::Submitted,
        from != to,
{
}

} // verus!
