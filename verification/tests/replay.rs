use a2a_rs::domain::{Task, TaskStatus};
use a2a_rs::replay::debugger::{ReplayDebugger, StepResult};
use a2a_rs::replay::recording::{
    DifferenceKind, ExecutionRecorder, ExecutionReplayer, ReceiptChainVerifier, RecordedStep, StateSnapshot,
};
use a2a_rs::runtime::executor::{ExecutionReceipt, Operation, Runtime};

fn submitted_task(id: &str) -> Task {
    let mut task = Task::new(id.to_string(), "ctx-1".to_string());
    task.status = TaskStatus::default();
    task
}

fn create_test_step(num: usize) -> RecordedStep {
    let task = submitted_task(&format!("task-{}", num));
    RecordedStep {
        step_number: num,
        operation: Operation::CreateTask { task, initial_message: None, priority: None },
        state_before: StateSnapshot::empty(),
        state_after: StateSnapshot::empty(),
        execution_receipt: ExecutionReceipt {
            execution_id: format!("exec-{}", num),
            operation: "CreateTask".to_string(),
            timestamp: chrono::Utc::now().to_rfc3339(),
            duration_ms: 10,
            stages_completed: vec!["type_check".to_string()],
            success: true,
            policy_epoch: 0,
        },
        receipt: None,
    }
}

#[test]
fn test_debugger_creation() {
    let steps = vec![create_test_step(0), create_test_step(1)];
    let debugger = ReplayDebugger::new(steps);
    assert_eq!(debugger.total_steps(), 2);
    assert_eq!(debugger.current_position(), None);
}

#[test]
fn test_step_forward() {
    let steps = vec![create_test_step(0), create_test_step(1)];
    let mut debugger = ReplayDebugger::new(steps);
    assert_eq!(debugger.current_position(), None);
    let result = debugger.step_forward();
    assert_eq!(result, StepResult::Moved { from: None, to: Some(0) });
    assert_eq!(debugger.current_position(), Some(0));
    let result = debugger.step_forward();
    assert_eq!(result, StepResult::Moved { from: Some(0), to: Some(1) });
    assert_eq!(debugger.current_position(), Some(1));
    let result = debugger.step_forward();
    assert_eq!(result, StepResult::AtBoundary);
    assert_eq!(debugger.current_position(), Some(1));
}

#[test]
fn test_step_back() {
    let steps = vec![create_test_step(0), create_test_step(1)];
    let mut debugger = ReplayDebugger::new(steps);
    debugger.goto_end();
    assert_eq!(debugger.current_position(), Some(1));
    let result = debugger.step_back();
    assert_eq!(result, StepResult::Moved { from: Some(1), to: Some(0) });
    let result = debugger.step_back();
    assert_eq!(result, StepResult::Moved { from: Some(0), to: None });
    let result = debugger.step_back();
    assert_eq!(result, StepResult::AtBoundary);
}

#[test]
fn test_goto_step() {
    let steps = vec![create_test_step(0), create_test_step(1), create_test_step(2)];
    let mut debugger = ReplayDebugger::new(steps);
    let result = debugger.goto_step(1);
    assert_eq!(result, StepResult::Moved { from: None, to: Some(1) });
    assert_eq!(debugger.current_position(), Some(1));
    let result = debugger.goto_step(10);
    assert_eq!(result, StepResult::InvalidPosition);
    assert_eq!(debugger.current_position(), Some(1));
}

#[test]
fn test_reset_and_goto_end() {
    let steps = vec![create_test_step(0), create_test_step(1)];
    let mut debugger = ReplayDebugger::new(steps);
    debugger.step_forward();
    assert_eq!(debugger.current_position(), Some(0));
    debugger.reset();
    assert_eq!(debugger.current_position(), None);
    debugger.goto_end();
    assert_eq!(debugger.current_position(), Some(1));
}

#[test]
fn test_breakpoints() {
    let steps = vec![create_test_step(0), create_test_step(1), create_test_step(2)];
    let mut debugger = ReplayDebugger::new(steps);
    assert!(debugger.add_breakpoint(1));
    assert_eq!(debugger.list_breakpoints(), &[1]);
    debugger.step_forward();
    let result = debugger.step_forward();
    assert_eq!(result, StepResult::BreakpointHit { at: 1 });
    assert!(debugger.remove_breakpoint(1));
    assert!(debugger.list_breakpoints().is_empty());
}

#[test]
fn test_continue_execution() {
    let steps = vec![create_test_step(0), create_test_step(1), create_test_step(2), create_test_step(3)];
    let mut debugger = ReplayDebugger::new(steps);
    debugger.add_breakpoint(2);
    let result = debugger.continue_execution();
    assert_eq!(result, StepResult::BreakpointHit { at: 2 });
    assert_eq!(debugger.current_position(), Some(2));
    debugger.clear_breakpoints();
    let result = debugger.continue_execution();
    assert_eq!(result, StepResult::AtBoundary);
    assert_eq!(debugger.current_position(), Some(3));
}

#[test]
fn test_diff_states() {
    let step0 = create_test_step(0);
    let mut step1 = create_test_step(1);
    step1.state_after.tasks.insert("task-1".to_string(), submitted_task("task-1"));
    let steps = vec![step0, step1];
    let debugger = ReplayDebugger::new(steps);
    let diff = debugger.diff_states(0, 1).unwrap();
    assert!(!diff.is_identical);
}

#[test]
fn test_status() {
    let steps = vec![create_test_step(0), create_test_step(1)];
    let mut debugger = ReplayDebugger::new(steps);
    debugger.step_forward();
    let status = debugger.status();
    assert_eq!(status.total_steps, 2);
    assert_eq!(status.current_position, Some(0));
    assert!(status.current_step_summary.is_some());
}

#[test]
fn test_search() {
    let steps = vec![create_test_step(0), create_test_step(1), create_test_step(2)];
    let debugger = ReplayDebugger::new(steps);
    let results = debugger.search_by_operation("CreateTask");
    assert_eq!(results.len(), 3);
    let results = debugger.search(|step: &RecordedStep| step.step_number == 1);
    assert_eq!(results, vec![1]);
}

#[test]
fn test_inspect_current() {
    let steps = vec![create_test_step(0)];
    let mut debugger = ReplayDebugger::new(steps);
    assert!(debugger.inspect_current().is_none());
    debugger.step_forward();
    let report = debugger.inspect_current().unwrap();
    assert_eq!(report.step_number, 0);
    assert!(report.operation.contains("CreateTask"));
    assert!(report.execution_success);
}

#[test]
fn test_list_all_steps() {
    let steps = vec![create_test_step(0), create_test_step(1)];
    let mut debugger = ReplayDebugger::new(steps);
    debugger.add_breakpoint(1);
    let summaries = debugger.list_all_steps();
    assert_eq!(summaries.len(), 2);
    assert_eq!(summaries[0].step_number, 0);
    assert!(!summaries[0].has_breakpoint);
    assert!(summaries[1].has_breakpoint);
}

#[test]
fn replay_texts_and_diffs() {
    let mut step = create_test_step(7);
    step.state_after.tasks.insert("task-7".to_string(), submitted_task("task-7"));
    let debugger = ReplayDebugger::new(vec![create_test_step(0), step]);
    let mut debugger = debugger;
    debugger.goto_step(1);
    assert_eq!(debugger.status().current_step_summary, Some("Step 7: CreateTask(task-7)".to_string()));
    let report = debugger.inspect_current().unwrap();
    assert_eq!(report.state_after_summary, "tasks=1, messages=0, artifacts=0");
    assert_eq!(report.state_diff.differences, vec![DifferenceKind::TasksMismatch { left_count: 0, right_count: 1 }]);
    let d = debugger.diff_with_previous().unwrap();
    assert!(!d.is_identical);
    assert!(debugger.diff_states(0, 0).unwrap().is_identical);
    assert!(debugger.diff_states(0, 5).is_none());
}

#[test]
fn replay_recorder_and_replayer() {
    let mut recorder = ExecutionRecorder::new();
    let mut runtime = Runtime::default_runtime();
    let op = Operation::CreateTask { task: submitted_task("t"), initial_message: None, priority: None };
    let before = StateSnapshot::empty();
    let out = runtime.handle(op.clone()).unwrap();
    let mut after = StateSnapshot::empty();
    after.tasks.insert("t".to_string(), submitted_task("t"));
    recorder.record_step(op, before, after, out.receipt);
    assert_eq!(recorder.steps().len(), 1);
    assert_eq!(recorder.receipt_chain().len(), 1);
    assert!(ReceiptChainVerifier::verify_chain(recorder.receipt_chain()).is_ok());
    assert!(ReceiptChainVerifier::verify_identical_chains(recorder.receipt_chain(), recorder.receipt_chain()));
    let hash = recorder.steps()[0].receipt.as_ref().unwrap().receipt_hash.clone();

    let mut debugger = ReplayDebugger::from_recorder(&recorder);
    assert_eq!(debugger.goto_receipt(&hash), Some(0));
    assert_eq!(debugger.goto_receipt("nope"), None);

    let mut replayer = ExecutionReplayer::new(recorder.steps().to_vec());
    let mut fresh = Runtime::default_runtime();
    let results = replayer.replay_all(&mut fresh);
    assert_eq!(results.len(), 1);
    assert!(results[0].is_deterministic());
    assert!(results[0].differences().is_empty());
    assert!(replayer.replay_next_step(&mut fresh).is_none());
    assert_eq!(replayer.current_step(), 1);
    assert_eq!(StateSnapshot::empty().compute_hash(), StateSnapshot::empty().compute_hash());
    assert_ne!(StateSnapshot::empty().compute_hash(), recorder.steps()[0].state_after.compute_hash());
}
