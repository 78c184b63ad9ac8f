use a2a_rs::domain::{Artifact, Part, TaskState};
use a2a_rs::events::{is_terminal_state, Event, EventError, EventKind, EventSequencer};

#[test]
fn events_are_numbered_in_order() {
    let mut seq = EventSequencer::new("task-123".to_string());
    let first = seq.status_event(TaskState::Working, None).unwrap();
    assert_eq!(first.sequence(), 0);
    assert_eq!(first.kind(), EventKind::TaskStatus);
    assert!(!first.is_final());
    assert_eq!(first.task_id(), "task-123");
    let artifact = Artifact {
        artifact_id: "a".to_string(),
        name: None,
        description: None,
        parts: vec![Part::text("x".to_string())],
    };
    let second = seq.artifact_event(artifact, None, Some(true)).unwrap();
    assert_eq!(second.sequence(), 1);
    assert_eq!(second.kind(), EventKind::Artifact);
    assert!(second.is_final());
    let third = seq.error_event(500, "boom".to_string(), true).unwrap();
    assert_eq!(third.sequence(), 2);
    assert!(third.is_final());
    assert_eq!(seq.current_sequence(), 3);
    match seq.status_event(TaskState::Completed, None).unwrap() {
        Event::TaskStatus(e) => assert!(e.is_final),
        _ => panic!("expected a status event"),
    }
}

#[test]
fn events_refused_after_close() {
    let mut seq = EventSequencer::new("t".to_string());
    seq.close();
    assert!(seq.is_closed());
    assert!(matches!(seq.status_event(TaskState::Working, None), Err(EventError::StreamClosed)));
    assert_eq!(seq.current_sequence(), 0);
    assert_eq!(EventError::StreamClosed.message(), "Event stream already closed");
    assert_eq!(EventError::BufferFull { capacity: 4 }.message(), "Event buffer full (capacity: 4)");
    assert!(is_terminal_state(&TaskState::Unknown));
    assert!(!is_terminal_state(&TaskState::Working));
}
