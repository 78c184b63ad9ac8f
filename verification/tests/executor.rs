use a2a_rs::domain::{Message, Task, TaskState, TaskStatus};
use a2a_rs::guards::{Guard, RequiredFieldGuard};
use a2a_rs::invariants::InvariantRegistry;
use a2a_rs::ontology::OntologyState;
use a2a_rs::runtime::executor::{Operation, Runtime, RuntimeError};
use a2a_rs::runtime::scheduler::{PriorityClass, Scheduler};
use std::sync::Arc;

fn submitted_task(id: &str, ctx: &str) -> Task {
    let mut task = Task::new(id.to_string(), ctx.to_string());
    task.status = TaskStatus::default();
    task
}

#[test]
fn test_runtime_creation() {
    let runtime = Runtime::default_runtime();
    assert_eq!(runtime.ontology().task_count(), 0);
}

#[test]
fn test_create_task_operation() {
    let mut runtime = Runtime::default_runtime();
    let task = submitted_task("task-1", "ctx-1");
    let operation = Operation::CreateTask { task, initial_message: None, priority: Some(PriorityClass::Normal) };
    let result = runtime.handle(operation);
    assert!(result.is_ok());
    let output = result.unwrap();
    assert!(output.receipt.success);
    assert_eq!(output.tasks.len(), 1);
}

#[test]
fn test_send_message_operation() {
    let mut runtime = Runtime::default_runtime();
    let task = submitted_task("task-1", "ctx-1");
    runtime.ontology_mut().put_task(task).unwrap();
    let message = Message::user_text("Hello".to_string(), "msg-1".to_string());
    let operation = Operation::SendMessage { task_id: "task-1".to_string(), message };
    let result = runtime.handle(operation);
    assert!(result.is_ok());
    let output = result.unwrap();
    assert!(output.receipt.success);
}

#[test]
fn test_type_check_failure() {
    let mut runtime = Runtime::default_runtime();
    let message = Message::user_text("Hello".to_string(), "msg-1".to_string());
    let operation = Operation::SendMessage { task_id: "nonexistent".to_string(), message };
    let result = runtime.handle(operation);
    assert!(result.is_ok());
    let output = result.unwrap();
    assert!(!output.receipt.success);
    assert!(!output.errors.is_empty());
}

#[test]
fn test_execution_receipt() {
    let mut runtime = Runtime::default_runtime().with_policy_epoch(42);
    let task = submitted_task("task-1", "ctx-1");
    let operation = Operation::CreateTask { task, initial_message: None, priority: None };
    let result = runtime.handle(operation);
    assert!(result.is_ok());
    let output = result.unwrap();
    assert_eq!(output.receipt.policy_epoch, 42);
    assert!(output.receipt.duration_ms > 0);
    assert!(!output.receipt.stages_completed.is_empty());
}

#[test]
fn runtime_stages_of_a_full_run() {
    let mut runtime = Runtime::default_runtime();
    let task = submitted_task("t", "c");
    let msg = Message::user_text("hi".to_string(), "m-1".to_string());
    let output = runtime
        .handle(Operation::CreateTask { task, initial_message: Some(msg), priority: Some(PriorityClass::High) })
        .unwrap();
    assert_eq!(
        output.receipt.stages_completed,
        vec!["type_check", "admission_guard", "transformations", "invariants", "delta_execution", "receipt_emission"]
    );
    assert_eq!(runtime.ontology().message_count("t"), 1);
    assert_eq!(runtime.scheduler().pending_count(), 1);

    let output = runtime.handle(Operation::UpdateTaskState { task_id: "t".to_string(), state: TaskState::Working }).unwrap();
    assert!(output.receipt.success);
    assert_eq!(runtime.ontology().get_task("t").unwrap().status.state, TaskState::Working);
}

#[test]
fn runtime_refusals_change_nothing() {
    let mut runtime = Runtime::default_runtime();
    let output = runtime.handle(Operation::UpdateTaskState { task_id: "x".to_string(), state: TaskState::Working }).unwrap();
    assert!(output.receipt.stages_completed.is_empty());
    match &output.errors[0] {
        RuntimeError::TypeCheckFailed { message } => assert_eq!(message, "Task x not found"),
        other => panic!("unexpected {:?}", other),
    }

    let guards: Vec<Arc<dyn Guard>> = vec![Arc::new(RequiredFieldGuard::new("station".to_string()))];
    let mut guarded = Runtime::new(OntologyState::new(), Scheduler::new(10), guards, InvariantRegistry::new());
    let output = guarded.handle(Operation::CancelTask { task_id: "t".to_string() }).unwrap();
    assert_eq!(output.receipt.stages_completed, vec!["type_check"]);
    assert!(matches!(output.errors[0], RuntimeError::AdmissionDenied { .. }));
    assert_eq!(output.events.len(), 1);
    assert_eq!(guarded.scheduler().pending_count(), 0);
}

#[test]
fn runtime_scheduler_errors_are_reported() {
    let mut runtime = Runtime::default_runtime().with_update_limit(5);
    let output = runtime.handle(Operation::CancelTask { task_id: "ghost".to_string() }).unwrap();
    assert!(!output.receipt.success);
    assert_eq!(
        output.receipt.stages_completed,
        vec!["type_check", "admission_guard", "invariants", "delta_execution", "receipt_emission"]
    );
    assert_eq!(output.errors[0].message(), "Scheduler error: Task not found: ghost");
}
