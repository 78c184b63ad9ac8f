use a2a_rs::domain::{Artifact, Message, Part, Task, TaskState};
use a2a_rs::invariants::event::{EventOrderingInvariant, EventSequence, TaskEvent};
use a2a_rs::invariants::{Invariant, InvariantViolation};

fn now_millis() -> i64 {
    chrono::Utc::now().timestamp_millis()
}

#[test]
fn test_empty_sequence() {
    let sequence = EventSequence::new();
    assert_eq!(sequence.len(), 0);
    assert!(sequence.is_empty());
    assert!(sequence.is_chronological());
}

#[test]
fn test_chronological_sequence() {
    let mut sequence = EventSequence::new();
    let now = now_millis();
    sequence.push(TaskEvent::StatusUpdate {
        task_id: "task-1".to_string(),
        old_state: TaskState::Submitted,
        new_state: TaskState::Working,
        timestamp: now,
    });
    sequence.push(TaskEvent::StatusUpdate {
        task_id: "task-1".to_string(),
        old_state: TaskState::Working,
        new_state: TaskState::Completed,
        timestamp: now + 1000,
    });
    assert!(sequence.is_chronological());
}

#[test]
fn test_non_chronological_sequence() {
    let mut sequence = EventSequence::new();
    let now = now_millis();
    sequence.push(TaskEvent::StatusUpdate {
        task_id: "task-1".to_string(),
        old_state: TaskState::Submitted,
        new_state: TaskState::Working,
        timestamp: now + 1000,
    });
    sequence.push(TaskEvent::StatusUpdate {
        task_id: "task-1".to_string(),
        old_state: TaskState::Working,
        new_state: TaskState::Completed,
        timestamp: now,
    });
    assert!(!sequence.is_chronological());
}

#[test]
fn event_test_empty_task() {
    let invariant = EventOrderingInvariant::new();
    let task = Task::new("task-1".to_string(), "ctx-1".to_string());
    assert!(invariant.check(&task).is_ok());
}

#[test]
fn event_test_task_with_history() {
    let invariant = EventOrderingInvariant::new();
    let mut task = Task::new("task-1".to_string(), "ctx-1".to_string());
    let msg1 = Message::agent_text("Hello".to_string(), "msg-1".to_string());
    let msg2 = Message::agent_text("World".to_string(), "msg-2".to_string());
    task.update_status(TaskState::Working, Some(msg1));
    task.update_status(TaskState::Completed, Some(msg2));
    assert!(invariant.check(&task).is_ok());
}

#[test]
fn test_duplicate_message_ids() {
    let invariant = EventOrderingInvariant::new();
    let mut task = Task::new("task-1".to_string(), "ctx-1".to_string());
    let msg1 = Message::agent_text("Hello".to_string(), "msg-1".to_string());
    let msg2 = Message::agent_text("World".to_string(), "msg-1".to_string());
    task.history = Some(vec![msg1, msg2]);
    let result = invariant.check(&task);
    assert!(result.is_err());
    assert!(matches!(result.unwrap_err(), InvariantViolation::EventOrderingViolation { .. }));
}

#[test]
fn test_duplicate_artifact_ids() {
    let invariant = EventOrderingInvariant::new();
    let mut task = Task::new("task-1".to_string(), "ctx-1".to_string());
    let art1 = Artifact {
        artifact_id: "art-1".to_string(),
        name: Some("test1.txt".to_string()),
        description: None,
        parts: vec![Part::text("Hello".to_string())],
    };
    let art2 = Artifact {
        artifact_id: "art-1".to_string(),
        name: Some("test2.txt".to_string()),
        description: None,
        parts: vec![Part::text("World".to_string())],
    };
    task.artifacts = Some(vec![art1, art2]);
    let result = invariant.check(&task);
    assert!(result.is_err());
    assert!(matches!(result.unwrap_err(), InvariantViolation::EventOrderingViolation { .. }));
}

#[test]
fn test_valid_status_transition() {
    let invariant = EventOrderingInvariant::new();
    let mut sequence = EventSequence::new();
    let result = invariant.validate_status_update(&TaskState::Submitted, &TaskState::Working, &sequence);
    assert!(result.is_ok());
    sequence.push(TaskEvent::StatusUpdate {
        task_id: "task-1".to_string(),
        old_state: TaskState::Submitted,
        new_state: TaskState::Working,
        timestamp: now_millis(),
    });
    let result = invariant.validate_status_update(&TaskState::Working, &TaskState::Completed, &sequence);
    assert!(result.is_ok());
}

#[test]
fn test_invalid_transition_from_terminal() {
    let invariant = EventOrderingInvariant::new();
    let mut sequence = EventSequence::new();
    sequence.push(TaskEvent::StatusUpdate {
        task_id: "task-1".to_string(),
        old_state: TaskState::Working,
        new_state: TaskState::Completed,
        timestamp: now_millis(),
    });
    let result = invariant.validate_status_update(&TaskState::Completed, &TaskState::Working, &sequence);
    assert!(result.is_err());
}

#[test]
fn test_event_sequence_last() {
    let mut sequence = EventSequence::new();
    assert!(sequence.last().is_none());
    sequence.push(TaskEvent::StatusUpdate {
        task_id: "task-1".to_string(),
        old_state: TaskState::Submitted,
        new_state: TaskState::Working,
        timestamp: now_millis(),
    });
    assert!(sequence.last().is_some());
}

#[test]
fn event_reasons_name_the_fault() {
    let invariant = EventOrderingInvariant::new();
    let mut task = Task::new("t".to_string(), "c".to_string());
    task.history = Some(vec![
        Message::agent_text("a".to_string(), "m-1".to_string()),
        Message::agent_text("b".to_string(), "".to_string()),
    ]);
    match invariant.check(&task) {
        Err(InvariantViolation::EventOrderingViolation { reason }) => {
            assert_eq!(reason, "Message at index 1 has empty message_id")
        }
        other => panic!("unexpected {:?}", other),
    }
    task.history = Some(vec![
        Message::agent_text("a".to_string(), "m-1".to_string()),
        Message::agent_text("b".to_string(), "m-2".to_string()),
        Message::agent_text("c".to_string(), "m-2".to_string()),
    ]);
    match invariant.check(&task) {
        Err(InvariantViolation::EventOrderingViolation { reason }) => {
            assert_eq!(reason, "Duplicate message_id in history: m-2")
        }
        other => panic!("unexpected {:?}", other),
    }
    task.status.timestamp = None;
    match invariant.check(&task) {
        Err(InvariantViolation::EventOrderingViolation { reason }) => {
            assert_eq!(reason, "Task status must have a timestamp")
        }
        other => panic!("unexpected {:?}", other),
    }
}

#[test]
fn event_transition_reasons() {
    let invariant = EventOrderingInvariant::new();
    let mut sequence = EventSequence::new();
    match invariant.validate_status_update(&TaskState::Completed, &TaskState::Working, &sequence) {
        Err(InvariantViolation::EventOrderingViolation { reason }) => {
            assert_eq!(reason, "Invalid state transition in event: Completed -> Working")
        }
        other => panic!("unexpected {:?}", other),
    }
    sequence.push(TaskEvent::StatusUpdate {
        task_id: "task-1".to_string(),
        old_state: TaskState::Working,
        new_state: TaskState::Failed,
        timestamp: 5,
    });
    match invariant.validate_status_update(&TaskState::Failed, &TaskState::Working, &sequence) {
        Err(InvariantViolation::EventOrderingViolation { reason }) => {
            assert_eq!(reason, "Cannot update status after terminal state Failed")
        }
        other => panic!("unexpected {:?}", other),
    }
    assert!(invariant.validate_artifact_update("a", &sequence).is_err());
    assert!(invariant.validate_artifact_update("a", &EventSequence::new()).is_ok());
    assert_eq!(sequence.last().unwrap().task_id(), "task-1");
    assert_eq!(sequence.last().unwrap().timestamp(), 5);
    assert_eq!(invariant.tracked_count(), 0);
}
