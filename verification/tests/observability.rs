use a2a_rs::observability::{ObservabilityContext, OperationTiming, RuntimeMetrics};
use a2a_rs::invariants::task_state::TaskStateInvariant;
use a2a_rs::observability::InstrumentedInvariant;
use a2a_rs::domain::{Task, TaskState};
use std::time::Duration;

#[test]
fn test_metrics_creation() {
    let metrics = RuntimeMetrics::new();
    let snapshot = metrics.snapshot();

    assert_eq!(snapshot.guard_admissions, 0);
    assert_eq!(snapshot.guard_rejections, 0);
    assert_eq!(snapshot.total_errors(), 0);
}

#[test]
fn test_metrics_recording() {
    let mut metrics = RuntimeMetrics::new();

    metrics.record_guard_admission("test_guard");
    metrics.record_guard_rejection("test_guard", "test reason");
    metrics.record_invariant_passed("test_invariant");
    metrics.record_task_submitted("task-1", "normal");

    let snapshot = metrics.snapshot();
    assert_eq!(snapshot.guard_admissions, 1);
    assert_eq!(snapshot.guard_rejections, 1);
    assert_eq!(snapshot.invariant_checks_passed, 1);
    assert_eq!(snapshot.tasks_submitted, 1);
}

#[test]
fn test_metrics_reset() {
    let mut metrics = RuntimeMetrics::new();

    metrics.record_guard_admission("test");
    metrics.record_task_submitted("task-1", "normal");

    metrics.reset();

    let snapshot = metrics.snapshot();
    assert_eq!(snapshot.guard_admissions, 0);
    assert_eq!(snapshot.tasks_submitted, 0);
}

#[test]
fn test_operation_timing() {
    let mut timing = OperationTiming::new("test_op".to_string(), Duration::from_millis(100));

    timing.add_stage("stage1".to_string(), 30);
    timing.add_stage("stage2".to_string(), 70);

    assert_eq!(timing.duration_ms, 100);
    assert_eq!(timing.stages.len(), 2);

    let (slowest, duration) = timing.slowest_stage().unwrap();
    assert_eq!(slowest, "stage2");
    assert_eq!(duration, 70);
}

#[test]
fn test_observability_context() {
    let ctx = ObservabilityContext::new("exec-123".to_string(), 42);

    assert_eq!(ctx.execution_id, "exec-123");
    assert_eq!(ctx.policy_epoch, 42);
    assert!(ctx.elapsed().as_nanos() > 0);
}

#[test]
fn error_counters_sum_into_total() {
    let mut metrics = RuntimeMetrics::new();
    metrics.record_type_check_error("t");
    metrics.record_admission_error("g", "r");
    metrics.record_transformation_error("x");
    metrics.record_invariant_error("i", "v");
    metrics.record_execution_error("e");
    metrics.record_execution_error("e");
    metrics.record_invariant_failed("i", "v");
    let s = metrics.snapshot();
    assert_eq!(s.total_errors(), 6);
    assert_eq!(s.invariant_checks_failed, 1);
    assert_eq!(s.guard_admissions, 0);
}

#[test]
fn scheduler_counters_are_separate() {
    let mut metrics = RuntimeMetrics::new();
    metrics.record_task_completed("a");
    metrics.record_task_cancelled("b");
    metrics.record_task_cancelled("c");
    metrics.record_scheduler_selection("a");
    let s = metrics.snapshot();
    assert_eq!(s.tasks_completed, 1);
    assert_eq!(s.tasks_cancelled, 2);
    assert_eq!(s.scheduler_selections, 1);
    assert_eq!(s.tasks_submitted, 0);
}

#[test]
fn replaced_stage_keeps_latest_duration() {
    let mut timing = OperationTiming::from_millis("op".to_string(), 5, "a".to_string(), "b".to_string());
    assert!(timing.slowest_stage().is_none());
    timing.add_stage("b".to_string(), 40);
    timing.add_stage("a".to_string(), 40);
    timing.add_stage("c".to_string(), 10);
    // Equal durations: the last stage in name order wins.
    assert_eq!(timing.slowest_stage(), Some(("b", 40)));
    timing.add_stage("b".to_string(), 1);
    assert_eq!(timing.stages.len(), 3);
    assert_eq!(timing.slowest_stage(), Some(("a", 40)));
}

#[test]
fn created_timing_has_no_stages() {
    let ctx = ObservabilityContext::new("e".to_string(), 1);
    let t = ctx.create_timing("op".to_string());
    assert_eq!(t.operation, "op");
    assert!(t.stages.is_empty());
    assert!(!t.started_at.is_empty());
}

#[test]
fn instrumented_invariant_gives_the_wrapped_verdict() {
    let metrics = RuntimeMetrics::new();
    let mut inst = InstrumentedInvariant::new(TaskStateInvariant::new(), metrics);
    let task = Task::new("t".to_string(), "c".to_string());
    assert!(inst.check_recorded(&task).is_ok());
    assert_eq!(TaskState::Submitted, task.status.state);
}
