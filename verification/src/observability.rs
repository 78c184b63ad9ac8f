//! Counters and timings for the runtime: guard and invariant outcomes,
//! scheduler activity and errors by stage.
use vstd::prelude::*;
use crate::invariants::{Invariant, InvariantResult, result_view, ViolationView};
use crate::strmap::StrMap;
use std::time::{Duration, Instant};

verus! {

/// One step of a counter: add one, wrapping at `u64::MAX`.
pub open spec fn bump(x: u64) -> u64 {
    if x == u64::MAX { 0 } else { (x + 1) as u64 }
}

fn bumped(x: u64) -> (r: u64)
    ensures
        r == bump(x),
{
    x.wrapping_add(1)
}

/// Point-in-time values of every counter.
#[derive(Debug, Clone, Copy, PartialEq, Eq, Structural)]
pub struct MetricsSnapshot {
    pub guard_admissions: u64,
    pub guard_rejections: u64,
    pub invariant_checks_passed: u64,
    pub invariant_checks_failed: u64,
    pub tasks_submitted: u64,
    pub tasks_completed: u64,
    pub tasks_cancelled: u64,
    pub scheduler_selections: u64,
    pub type_check_errors: u64,
    pub admission_errors: u64,
    pub transformation_errors: u64,
    pub invariant_errors: u64,
    pub execution_errors: u64,
}

/// Every counter at zero.
pub open spec fn zero_snapshot() -> MetricsSnapshot {
    MetricsSnapshot {
        guard_admissions: 0,
        guard_rejections: 0,
        invariant_checks_passed: 0,
        invariant_checks_failed: 0,
        tasks_submitted: 0,
        tasks_completed: 0,
        tasks_cancelled: 0,
        scheduler_selections: 0,
        type_check_errors: 0,
        admission_errors: 0,
        transformation_errors: 0,
        invariant_errors: 0,
        execution_errors: 0,
    }
}

/// The sum of the error counters.
pub open spec fn error_sum(s: MetricsSnapshot) -> int {
    s.type_check_errors + s.admission_errors + s.transformation_errors + s.invariant_errors
        + s.execution_errors
}

impl MetricsSnapshot {
    /// All errors, over every category.
    pub fn total_errors(&self) -> (r: u64)
        requires
            error_sum(*self) <= u64::MAX,
        ensures
            r == error_sum(*self),
    {
        self.type_check_errors + self.admission_errors + self.transformation_errors
            + self.invariant_errors + self.execution_errors
    }
}

/// Counters of observable runtime events.
#[derive(Debug, Clone)]
pub struct RuntimeMetrics {
    counts: MetricsSnapshot,
}

impl View for RuntimeMetrics {
    type V = MetricsSnapshot;

    closed spec fn view(&self) -> MetricsSnapshot {
        self.counts
    }
}

impl RuntimeMetrics {
    /// A registry with every counter at zero.
    pub fn new() -> (r: Self)
        ensures
            r@ == zero_snapshot(),
    {
        RuntimeMetrics {
            counts: MetricsSnapshot {
                guard_admissions: 0,
                guard_rejections: 0,
                invariant_checks_passed: 0,
                invariant_checks_failed: 0,
                tasks_submitted: 0,
                tasks_completed: 0,
                tasks_cancelled: 0,
                scheduler_selections: 0,
                type_check_errors: 0,
                admission_errors: 0,
                transformation_errors: 0,
                invariant_errors: 0,
                execution_errors: 0,
            },
        }
    }

    /// Notes an operation of the given type; no counter is kept for it.
    pub fn increment_operations_total(&self, operation_type: &str) {
    }

    /// Notes a completed stage; no counter is kept for it.
    pub fn increment_stage_completions(&self, stage: &str) {
    }

    /// Counts a guard admission.
    pub fn record_guard_admission(&mut self, guard_name: &str)
        ensures
            final(self)@ == (MetricsSnapshot { guard_admissions: bump(old(self)@.guard_admissions), ..old(self)@ }),
    {
        self.counts.guard_admissions = bumped(self.counts.guard_admissions);
    }

    /// Counts a guard rejection.
    pub fn record_guard_rejection(&mut self, guard_name: &str, reason: &str)
        ensures
            final(self)@ == (MetricsSnapshot { guard_rejections: bump(old(self)@.guard_rejections), ..old(self)@ }),
    {
        self.counts.guard_rejections = bumped(self.counts.guard_rejections);
    }

    /// Counts an invariant check that passed.
    pub fn record_invariant_passed(&mut self, invariant_name: &str)
        ensures
            final(self)@ == (MetricsSnapshot {
                invariant_checks_passed: bump(old(self)@.invariant_checks_passed),
                ..old(self)@
            }),
    {
        self.counts.invariant_checks_passed = bumped(self.counts.invariant_checks_passed);
    }

    /// Counts an invariant check that failed.
    pub fn record_invariant_failed(&mut self, invariant_name: &str, violation: &str)
        ensures
            final(self)@ == (MetricsSnapshot {
                invariant_checks_failed: bump(old(self)@.invariant_checks_failed),
                ..old(self)@
            }),
    {
        self.counts.invariant_checks_failed = bumped(self.counts.invariant_checks_failed);
    }

    /// Counts a task submitted to the scheduler.
    pub fn record_task_submitted(&mut self, task_id: &str, priority: &str)
        ensures
            final(self)@ == (MetricsSnapshot { tasks_submitted: bump(old(self)@.tasks_submitted), ..old(self)@ }),
    {
        self.counts.tasks_submitted = bumped(self.counts.tasks_submitted);
    }

    /// Counts a completed task.
    pub fn record_task_completed(&mut self, task_id: &str)
        ensures
            final(self)@ == (MetricsSnapshot { tasks_completed: bump(old(self)@.tasks_completed), ..old(self)@ }),
    {
        self.counts.tasks_completed = bumped(self.counts.tasks_completed);
    }

    /// Counts a cancelled task.
    pub fn record_task_cancelled(&mut self, task_id: &str)
        ensures
            final(self)@ == (MetricsSnapshot { tasks_cancelled: bump(old(self)@.tasks_cancelled), ..old(self)@ }),
    {
        self.counts.tasks_cancelled = bumped(self.counts.tasks_cancelled);
    }

    /// Counts a scheduler selection.
    pub fn record_scheduler_selection(&mut self, task_id: &str)
        ensures
            final(self)@ == (MetricsSnapshot {
                scheduler_selections: bump(old(self)@.scheduler_selections),
                ..old(self)@
            }),
    {
        self.counts.scheduler_selections = bumped(self.counts.scheduler_selections);
    }

    /// Counts a type check error.
    pub fn record_type_check_error(&mut self, message: &str)
        ensures
            final(self)@ == (MetricsSnapshot { type_check_errors: bump(old(self)@.type_check_errors), ..old(self)@ }),
    {
        self.counts.type_check_errors = bumped(self.counts.type_check_errors);
    }

    /// Counts an admission error.
    pub fn record_admission_error(&mut self, guard: &str, reason: &str)
        ensures
            final(self)@ == (MetricsSnapshot { admission_errors: bump(old(self)@.admission_errors), ..old(self)@ }),
    {
        self.counts.admission_errors = bumped(self.counts.admission_errors);
    }

    /// Counts a transformation error.
    pub fn record_transformation_error(&mut self, message: &str)
        ensures
            final(self)@ == (MetricsSnapshot {
                transformation_errors: bump(old(self)@.transformation_errors),
                ..old(self)@
            }),
    {
        self.counts.transformation_errors = bumped(self.counts.transformation_errors);
    }

    /// Counts an invariant error.
    pub fn record_invariant_error(&mut self, invariant: &str, violation: &str)
        ensures
            final(self)@ == (MetricsSnapshot { invariant_errors: bump(old(self)@.invariant_errors), ..old(self)@ }),
    {
        self.counts.invariant_errors = bumped(self.counts.invariant_errors);
    }

    /// Counts an execution error.
    pub fn record_execution_error(&mut self, message: &str)
        ensures
            final(self)@ == (MetricsSnapshot { execution_errors: bump(old(self)@.execution_errors), ..old(self)@ }),
    {
        self.counts.execution_errors = bumped(self.counts.execution_errors);
    }

    /// The current value of every counter.
    pub fn snapshot(&self) -> (r: MetricsSnapshot)
        ensures
            r == self@,
    {
        self.counts
    }

    /// Sets every counter back to zero.
    pub fn reset(&mut self)
        ensures
            final(self)@ == zero_snapshot(),
    {
        self.counts = MetricsSnapshot {
            guard_admissions: 0,
            guard_rejections: 0,
            invariant_checks_passed: 0,
            invariant_checks_failed: 0,
            tasks_submitted: 0,
            tasks_completed: 0,
            tasks_cancelled: 0,
            scheduler_selections: 0,
            type_check_errors: 0,
            admission_errors: 0,
            transformation_errors: 0,
            invariant_errors: 0,
            execution_errors: 0,
        };
    }
}

impl Default for RuntimeMetrics {
    fn default() -> (r: Self)
        ensures
            r@ == zero_snapshot(),
    {
        Self::new()
    }
}


/// Per-stage and total timings of one operation.
#[derive(Debug)]
pub struct OperationTiming {
    /// The operation's name.
    pub operation: String,
    /// Total duration in milliseconds.
    pub duration_ms: u64,
    /// Duration in milliseconds of each stage, by stage name.
    pub stages: StrMap<u64>,
    /// When the operation started (RFC 3339).
    pub started_at: String,
    /// When the operation completed (RFC 3339).
    pub completed_at: String,
}

impl OperationTiming {
    /// A timing record that ends now and lasted `duration`.
    pub fn new(operation: String, duration: Duration) -> (r: Self)
        ensures
            r.operation@ == operation@,
            r.stages.wf(),
            r.stages.map() == Map::<Seq<char>, u64>::empty(),
    {
        let millis = duration_millis(&duration);
        let (started_at, completed_at) = rfc3339_span_ending_now(duration);
        Self::from_millis(operation, millis as u64, started_at, completed_at)
    }

    /// A timing record with the given total and timestamps, and no stage yet.
    pub fn from_millis(operation: String, duration_ms: u64, started_at: String, completed_at: String) -> (r: Self)
        ensures
            r.operation@ == operation@,
            r.duration_ms == duration_ms,
            r.started_at@ == started_at@,
            r.completed_at@ == completed_at@,
            r.stages.wf(),
            r.stages.map() == Map::<Seq<char>, u64>::empty(),
    {
        OperationTiming { operation, duration_ms, stages: StrMap::new(), started_at, completed_at }
    }

    /// Records the duration of a stage, replacing an earlier one of the same name.
    pub fn add_stage(&mut self, stage: String, duration_ms: u64)
        requires
            old(self).stages.wf(),
        ensures
            final(self).stages.wf(),
            final(self).stages.map() == old(self).stages.map().insert(stage@, duration_ms),
            final(self).operation == old(self).operation,
            final(self).duration_ms == old(self).duration_ms,
            final(self).started_at == old(self).started_at,
            final(self).completed_at == old(self).completed_at,
    {
        self.stages.insert(stage, duration_ms);
    }

    /// The stage that took longest; of stages that took equally long, the
    /// last in name order.
    pub fn slowest_stage(&self) -> (r: Option<(&str, u64)>)
        requires
            self.stages.wf(),
        ensures
            r is None <==> self.stages.keys().len() == 0,
            r matches Some((name, d)) ==> exists|i: int|
                0 <= i < self.stages.keys().len()
                && #[trigger] self.stages.keys()[i] == name@
                && self.stages.vals()[i] == d
                && (forall|j: int| 0 <= j < self.stages.keys().len() ==> self.stages.vals()[j] <= d)
                && (forall|j: int| i < j < self.stages.keys().len() ==> self.stages.vals()[j] < d),
    {
        let pairs = self.stages.iter_pairs();
        if pairs.len() == 0 {
            return None;
        }
        let mut best: usize = 0;
        let mut i: usize = 1;
        while i < pairs.len()
            invariant
                pairs@.len() == self.stages.keys().len(),
                forall|j: int| 0 <= j < pairs@.len() ==> (#[trigger] pairs@[j]).0@ == self.stages.keys()[j]
                    && *pairs@[j].1 == self.stages.vals()[j],
                1 <= i <= pairs@.len(),
                best < i,
                forall|j: int| 0 <= j < i ==> self.stages.vals()[j] <= self.stages.vals()[best as int],
                forall|j: int| best < j < i ==> self.stages.vals()[j] < self.stages.vals()[best as int],
            decreases pairs@.len() - i,
        {
            assert(*pairs@[i as int].1 == self.stages.vals()[i as int]);
            assert(*pairs@[best as int].1 == self.stages.vals()[best as int]);
            if *pairs[i].1 >= *pairs[best].1 {
                best = i;
            }
            i = i + 1;
        }
        assert(pairs@[best as int].0@ == self.stages.keys()[best as int]);
        let (name, d) = pairs[best];
        Some((name.as_str(), *d))
    }
}

/// Metrics and identity of one execution.
#[derive(Debug)]
pub struct ObservabilityContext {
    /// The counters of this execution.
    pub metrics: RuntimeMetrics,
    /// Identifier for correlation.
    pub execution_id: String,
    /// The policy epoch in force.
    pub policy_epoch: u64,
    /// When the context was made.
    pub start_time: Instant,
}

impl ObservabilityContext {
    /// A context with fresh counters, started now.
    pub fn new(execution_id: String, policy_epoch: u64) -> (r: Self)
        ensures
            r.metrics@ == zero_snapshot(),
            r.execution_id@ == execution_id@,
            r.policy_epoch == policy_epoch,
    {
        ObservabilityContext {
            metrics: RuntimeMetrics::new(),
            execution_id,
            policy_epoch,
            start_time: instant_now(),
        }
    }

    /// A context with the given counters, started now.
    pub fn with_metrics(execution_id: String, policy_epoch: u64, metrics: RuntimeMetrics) -> (r: Self)
        ensures
            r.metrics@ == metrics@,
            r.execution_id@ == execution_id@,
            r.policy_epoch == policy_epoch,
    {
        ObservabilityContext { metrics, execution_id, policy_epoch, start_time: instant_now() }
    }

    /// The time since the context was made.
    pub fn elapsed(&self) -> Duration {
        instant_elapsed(&self.start_time)
    }

    /// A timing record for `operation`, lasting from the start of the context until now.
    pub fn create_timing(&self, operation: String) -> (r: OperationTiming)
        ensures
            r.operation@ == operation@,
            r.stages.wf(),
            r.stages.map() == Map::<Seq<char>, u64>::empty(),
    {
        OperationTiming::new(operation, self.elapsed())
    }
}

/// A guard whose outcomes are counted.
#[derive(Debug)]
pub struct InstrumentedGuard<G> {
    guard: G,
    metrics: RuntimeMetrics,
}

impl<G> InstrumentedGuard<G> {
    /// Wraps `guard`, counting into `metrics`.
    pub fn new(guard: G, metrics: RuntimeMetrics) -> (r: Self)
        ensures
            r.inner() == guard,
            r.metrics_view() == metrics@,
    {
        InstrumentedGuard { guard, metrics }
    }

    /// The wrapped guard.
    pub closed spec fn inner(&self) -> G {
        self.guard
    }

    /// The counters so far.
    pub closed spec fn metrics_view(&self) -> MetricsSnapshot {
        self.metrics@
    }
}

/// An invariant whose outcomes are counted.
#[derive(Debug)]
pub struct InstrumentedInvariant<I> {
    wrapped: I,
    metrics: RuntimeMetrics,
}

impl<I> InstrumentedInvariant<I> {
    /// Wraps `inv`, counting into `metrics`.
    pub fn new(inv: I, metrics: RuntimeMetrics) -> (r: Self)
        ensures
            r.inner() == inv,
            r.metrics_view() == metrics@,
    {
        InstrumentedInvariant { wrapped: inv, metrics }
    }

    /// The wrapped invariant.
    pub closed spec fn inner(&self) -> I {
        self.wrapped
    }

    /// The counters so far.
    pub closed spec fn metrics_view(&self) -> MetricsSnapshot {
        self.metrics@
    }

    /// Checks the wrapped invariant and counts the outcome.
    pub fn check_recorded<T>(&mut self, value: &T) -> (r: InvariantResult)
        where I: Invariant<T>,
        ensures
            result_view(r) == old(self).inner().verdict(*value),
            final(self).inner() == old(self).inner(),
            r is Ok ==> final(self).metrics_view() == (MetricsSnapshot {
                invariant_checks_passed: bump(old(self).metrics_view().invariant_checks_passed),
                ..old(self).metrics_view()
            }),
            r is Err ==> final(self).metrics_view() == (MetricsSnapshot {
                invariant_checks_failed: bump(old(self).metrics_view().invariant_checks_failed),
                ..old(self).metrics_view()
            }),
    {
        let r = self.wrapped.check(value);
        match &r {
            Ok(()) => self.metrics.record_invariant_passed(self.wrapped.name()),
            Err(_) => self.metrics.record_invariant_failed(self.wrapped.name(), "violation"),
        }
        r
    }
}

impl<T, I: Invariant<T>> Invariant<T> for InstrumentedInvariant<I> {
    open spec fn verdict(&self, value: T) -> Result<(), ViolationView> {
        self.inner().verdict(value)
    }

    fn check(&self, value: &T) -> (r: InvariantResult) {
        self.wrapped.check(value)
    }

    fn name(&self) -> &str {
        self.wrapped.name()
    }

    fn description(&self) -> &str {
        self.wrapped.description()
    }
}

#[verifier::external_type_specification]
#[verifier::external_body]
pub struct ExInstant(std::time::Instant);

#[verifier::external_body]
pub(crate) fn instant_now() -> Instant {
    Instant::now()
}

/// `Instant::elapsed`: the time since `t`; depends on the clock, so nothing is stated.
#[verifier::external_body]
pub(crate) fn instant_elapsed(t: &Instant) -> Duration {
    t.elapsed()
}

/// `Duration::as_millis`: whole milliseconds in `d`.
#[verifier::external_body]
fn duration_millis(d: &Duration) -> u128 {
    d.as_millis()
}

/// `Duration::as_nanos`: whole nanoseconds in `d`.
#[verifier::external_body]
pub(crate) fn duration_nanos(d: &Duration) -> u128 {
    d.as_nanos()
}

/// The current UTC time and the time `d` before it, both written in RFC 3339
/// by chrono (`Utc::now`, `TimeDelta::from_std`, `DateTime::checked_sub_signed`,
/// `DateTime::to_rfc3339`); the start falls back to now when `d` is out of
/// chrono's range. Both depend on the clock, so nothing is stated of them.
/// chrono's `DateTime` cannot be declared to Verus (its bound names an outside
/// trait), so the calls share one item that hands back only strings.
#[verifier::external_body]
fn rfc3339_span_ending_now(d: Duration) -> (String, String) {
    let now = chrono::Utc::now();
    let delta = chrono::TimeDelta::from_std(d).unwrap_or_default();
    let start = now.checked_sub_signed(delta).unwrap_or(now);
    (start.to_rfc3339(), now.to_rfc3339())
}

} // verus!
