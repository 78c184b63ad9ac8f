use a2a_rs::domain::{Message, Task, TaskState};
use a2a_rs::invariants::task_state::{StrictTaskStateInvariant, TaskStateInvariant};
use a2a_rs::invariants::Invariant;

#[test]
fn test_valid_initial_state() {
    let invariant = TaskStateInvariant::new();
    let task = Task::new("task-1".to_string(), "ctx-1".to_string());
    assert!(invariant.check(&task).is_ok());
}

#[test]
fn test_valid_working_state() {
    let invariant = TaskStateInvariant::new();
    let mut task = Task::new("task-1".to_string(), "ctx-1".to_string());
    task.update_status(TaskState::Working, None);
    assert!(invariant.check(&task).is_ok());
}

#[test]
fn test_valid_completed_state() {
    let invariant = TaskStateInvariant::new();
    let mut task = Task::new("task-1".to_string(), "ctx-1".to_string());
    task.update_status(TaskState::Working, None);
    task.update_status(TaskState::Completed, None);
    assert!(invariant.check(&task).is_ok());
}

#[test]
fn test_all_terminal_states_valid() {
    let invariant = TaskStateInvariant::new();
    for state in [TaskState::Completed, TaskState::Failed, TaskState::Canceled, TaskState::Rejected] {
        let mut task = Task::new("task-1".to_string(), "ctx-1".to_string());
        task.status.state = state;
        assert!(invariant.check(&task).is_ok());
    }
}

#[test]
fn test_all_non_terminal_states_valid() {
    let invariant = TaskStateInvariant::new();
    for state in [TaskState::Submitted, TaskState::Working, TaskState::InputRequired, TaskState::AuthRequired] {
        let mut task = Task::new("task-1".to_string(), "ctx-1".to_string());
        task.status.state = state;
        assert!(invariant.check(&task).is_ok());
    }
}

#[test]
fn test_validate_single_transition() {
    let invariant = TaskStateInvariant::new();
    assert!(invariant.validate_transition(&TaskState::Submitted, &TaskState::Working).is_ok());
    assert!(invariant.validate_transition(&TaskState::Working, &TaskState::Completed).is_ok());
    assert!(invariant.validate_transition(&TaskState::Working, &TaskState::InputRequired).is_ok());
    assert!(invariant.validate_transition(&TaskState::Submitted, &TaskState::Completed).is_err());
    assert!(invariant.validate_transition(&TaskState::Completed, &TaskState::Working).is_err());
}

#[test]
fn task_state_test_task_with_history() {
    let invariant = TaskStateInvariant::new();
    let mut task = Task::new("task-1".to_string(), "ctx-1".to_string());
    let msg1 = Message::agent_text("Starting work".to_string(), "msg-1".to_string());
    task.update_status(TaskState::Working, Some(msg1));
    let msg2 = Message::agent_text("Done".to_string(), "msg-2".to_string());
    task.update_status(TaskState::Completed, Some(msg2));
    assert!(invariant.check(&task).is_ok());
}

#[test]
fn unknown_state_is_refused() {
    let invariant = TaskStateInvariant::new();
    let mut task = Task::new("task-1".to_string(), "ctx-1".to_string());
    task.status.state = TaskState::Unknown;
    assert!(invariant.check(&task).is_err());
    assert_eq!(invariant.name(), "task_state_machine");
}

#[test]
fn test_strict_invariant_validates_transitions() {
    let invariant = StrictTaskStateInvariant::new();
    let mut task = Task::new("task-1".to_string(), "ctx-1".to_string());

    // Valid transition: Submitted -> Working
    task.update_status(TaskState::Working, None);
    assert!(invariant.check(&task).is_ok());

    // Valid transition: Working -> Completed
    task.update_status(TaskState::Completed, None);
    assert!(invariant.check(&task).is_ok());
}

#[test]
fn strict_invariant_accepts_a_fresh_task_and_refuses_unknown() {
    let invariant = StrictTaskStateInvariant::new();
    let mut task = Task::new("task-1".to_string(), "ctx-1".to_string());
    assert!(invariant.check(&task).is_ok());
    let path = invariant.extract_transitions(&task);
    assert!(path.is_empty());
    task.status.state = TaskState::InputRequired;
    let path = invariant.extract_transitions(&task);
    assert_eq!(path, vec![(TaskState::Submitted, TaskState::Working), (TaskState::Working, TaskState::InputRequired)]);
    assert!(invariant.check(&task).is_ok());
    task.status.state = TaskState::Unknown;
    assert!(invariant.check(&task).is_err());
}

#[test]
fn standard_registry_holds_the_task_state_machine() {
    use_registry();
}

fn use_registry() {
    let registry = a2a_rs::invariants::InvariantRegistry::<Task>::with_standard_invariants();
    assert_eq!(registry.keys(), vec!["task_state_machine"]);
    assert_eq!(registry.len(), 1);
    let mut task = Task::new("task-1".to_string(), "ctx-1".to_string());
    assert!(registry.check_all(&task).is_ok());
    task.status.state = TaskState::Unknown;
    assert!(registry.check_all(&task).is_err());
}
