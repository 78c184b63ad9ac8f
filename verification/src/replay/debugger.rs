//! A debugger over a recording: a cursor that steps forward and back through
//! the recorded steps, breakpoints, diffs between the states after steps,
//! search, and reports.
use vstd::prelude::*;
use crate::domain::state_name;
use crate::replay::recording::{ExecutionRecorder, RecordedStep, SnapshotDiff, StateSnapshot, differences_of, lens_total, steps_agree, steps_ready};
use crate::runtime::executor::Operation;
use crate::text::{dec_of, has_substring, owned, push_decimal, push_str, str_contains, str_eq, strings_view, clone_strings};
use crate::domain::state_name_str;

verus! {

/// How the debugger shows things.
#[derive(Debug, Clone, Copy)]
pub struct DebuggerConfig {
    pub verbose_receipts: bool,
    pub verbose_state: bool,
    pub max_diff_lines: usize,
    pub break_on_diff: bool,
}

impl Default for DebuggerConfig {
    fn default() -> (r: Self)
        ensures
            !r.verbose_receipts,
            !r.verbose_state,
            r.max_diff_lines == 50,
            !r.break_on_diff,
    {
        DebuggerConfig { verbose_receipts: false, verbose_state: false, max_diff_lines: 50, break_on_diff: false }
    }
}

/// What a move of the cursor did.
#[derive(Debug, Clone, Copy, PartialEq, Eq, Structural)]
pub enum StepResult {
    Moved { from: Option<usize>, to: Option<usize> },
    AtBoundary,
    InvalidPosition,
    BreakpointHit { at: usize },
}

/// Where the debugger stands.
#[derive(Debug)]
pub struct DebuggerStatus {
    pub total_steps: usize,
    pub current_position: Option<usize>,
    pub breakpoint_count: usize,
    pub current_step_summary: Option<String>,
}

/// A detailed report on one step.
#[derive(Debug)]
pub struct StepReport {
    pub step_number: usize,
    pub operation: String,
    pub operation_details: String,
    pub execution_success: bool,
    pub stages_completed: Vec<String>,
    pub state_before_summary: String,
    pub state_after_summary: String,
    pub state_diff: SnapshotDiff,
    pub receipt_hash: Option<String>,
}

/// A line about one step.
#[derive(Debug)]
pub struct StepSummary {
    pub step_number: usize,
    pub operation: String,
    pub success: bool,
    pub has_breakpoint: bool,
}

/// A short description of an operation: its kind and its task.
pub open spec fn operation_summary_text(op: Operation) -> Seq<char> {
    match op {
        Operation::CreateTask { task, .. } => "CreateTask("@ + task.id@ + ")"@,
        Operation::SendMessage { task_id, .. } => "SendMessage("@ + task_id@ + ")"@,
        Operation::UpdateTaskState { task_id, state } => "UpdateTaskState("@ + task_id@ + ", "@ + state_name(state) + ")"@,
        Operation::AddArtifact { task_id, .. } => "AddArtifact("@ + task_id@ + ")"@,
        Operation::CompleteTask { task_id, .. } => "CompleteTask("@ + task_id@ + ")"@,
        Operation::CancelTask { task_id } => "CancelTask("@ + task_id@ + ")"@,
    }
}

fn operation_summary(op: &Operation) -> (r: String)
    ensures
        r@ == operation_summary_text(*op),
{
    let mut m = String::new();
    match op {
        Operation::CreateTask { task, .. } => {
            push_str(&mut m, "CreateTask(");
            push_str(&mut m, task.id.as_str());
        },
        Operation::SendMessage { task_id, .. } => {
            push_str(&mut m, "SendMessage(");
            push_str(&mut m, task_id.as_str());
        },
        Operation::UpdateTaskState { task_id, state } => {
            push_str(&mut m, "UpdateTaskState(");
            push_str(&mut m, task_id.as_str());
            push_str(&mut m, ", ");
            push_str(&mut m, state_name_str(state));
        },
        Operation::AddArtifact { task_id, .. } => {
            push_str(&mut m, "AddArtifact(");
            push_str(&mut m, task_id.as_str());
        },
        Operation::CompleteTask { task_id, .. } => {
            push_str(&mut m, "CompleteTask(");
            push_str(&mut m, task_id.as_str());
        },
        Operation::CancelTask { task_id } => {
            push_str(&mut m, "CancelTask(");
            push_str(&mut m, task_id.as_str());
        },
    }
    push_str(&mut m, ")");
    assert(m@ =~= operation_summary_text(*op));
    m
}

/// A one-line summary of a snapshot's counts.
pub open spec fn state_summary_text(s: StateSnapshot) -> Seq<char> {
    "tasks="@ + dec_of(s.tasks.keys().len()) + ", messages="@ + dec_of(lens_total(s.messages.vals())) + ", artifacts="@
        + dec_of(lens_total(s.artifacts.vals()))
}

fn state_summary(s: &StateSnapshot) -> (r: String)
    requires
        s.wf(),
        s.countable(),
    ensures
        r@ == state_summary_text(*s),
{
    let mut m = owned("tasks=");
    push_decimal(s.tasks.len() as u64, &mut m);
    push_str(&mut m, ", messages=");
    let messages = crate::replay::recording::total_len(&s.messages);
    push_decimal(messages as u64, &mut m);
    push_str(&mut m, ", artifacts=");
    let artifacts = crate::replay::recording::total_len(&s.artifacts);
    push_decimal(artifacts as u64, &mut m);
    m
}


/// Indices in strictly increasing order, all below `n`.
pub open spec fn marks_ok(b: Seq<usize>, n: nat) -> bool {
    &&& forall|i: int, j: int| 0 <= i < j < b.len() ==> b[i] < b[j]
    &&& forall|i: int| 0 <= i < b.len() ==> b[i] < n
}

/// The first marked position from `q` on, below `n`, if any.
pub open spec fn run_to_mark(b: Seq<usize>, q: int, n: int) -> Option<int>
    decreases n - q,
{
    if q >= n || q < 0 {
        None
    } else if b.contains(q as usize) {
        Some(q)
    } else {
        run_to_mark(b, q + 1, n)
    }
}

/// Where a step forward from `p` goes among `n` steps; `None` at the end.
pub open spec fn forward_target(p: Option<usize>, n: nat) -> Option<usize> {
    match p {
        None => if n == 0 { None } else { Some(0usize) },
        Some(q) => if q + 1 < n { Some((q + 1) as usize) } else { None },
    }
}

/// What arriving at `to` from `from` reports: a breakpoint there is hit.
pub open spec fn arrival(b: Seq<usize>, from: Option<usize>, to: usize) -> StepResult {
    if b.contains(to) {
        StepResult::BreakpointHit { at: to }
    } else {
        StepResult::Moved { from, to: Some(to) }
    }
}

/// The step holds a receipt with hash `h`.
pub open spec fn has_receipt_hash(s: RecordedStep, h: Seq<char>) -> bool {
    s.receipt matches Some(x) && x.receipt_hash@ == h
}

fn has_mark(b: &Vec<usize>, x: usize) -> (r: bool)
    ensures
        r == b@.contains(x),
{
    let mut i: usize = 0;
    while i < b.len()
        invariant
            i <= b@.len(),
            forall|j: int| 0 <= j < i ==> b@[j] != x,
        decreases b@.len() - i,
    {
        if b[i] == x {
            assert(b@[i as int] == x);
            return true;
        }
        i = i + 1;
    }
    false
}

/// The summary of the step under the cursor, as `status` gives it.
pub open spec fn step_line(s: RecordedStep) -> Seq<char> {
    "Step "@ + dec_of(s.step_number as nat) + ": "@ + operation_summary_text(s.operation)
}

/// The position a step forward from `p` would reach.
pub open spec fn next_index(p: Option<usize>) -> int {
    match p {
        None => 0,
        Some(q) => q + 1,
    }
}

/// A debugger over recorded steps.
pub struct ReplayDebugger {
    steps: Vec<RecordedStep>,
    current_position: Option<usize>,
    breakpoints: Vec<usize>,
    config: DebuggerConfig,
}

impl ReplayDebugger {
    /// The recorded steps.
    pub closed spec fn steps_view(&self) -> Seq<RecordedStep> {
        self.steps@
    }

    /// The cursor: `None` before the first step.
    pub closed spec fn position(&self) -> Option<usize> {
        self.current_position
    }

    /// The breakpoints, in increasing order.
    pub closed spec fn marks(&self) -> Seq<usize> {
        self.breakpoints@
    }

    /// The configuration.
    pub closed spec fn cfg(&self) -> DebuggerConfig {
        self.config
    }

    /// The cursor is on a step, the breakpoints are sorted steps, and every
    /// snapshot can be compared.
    pub closed spec fn wf(&self) -> bool {
        &&& (self.current_position matches Some(p) ==> p < self.steps@.len())
        &&& marks_ok(self.breakpoints@, self.steps@.len())
        &&& forall|i: int| 0 <= i < self.steps@.len() ==> steps_ready(#[trigger] self.steps@[i])
    }

    /// A debugger before the first of `steps`, with no breakpoint and the
    /// default configuration.
    pub fn new(steps: Vec<RecordedStep>) -> (r: Self)
        requires
            forall|i: int| 0 <= i < steps@.len() ==> steps_ready(#[trigger] steps@[i]),
        ensures
            r.wf(),
            r.steps_view() == steps@,
            r.position() is None,
            r.marks() == Seq::<usize>::empty(),
    {
        ReplayDebugger { steps, current_position: None, breakpoints: Vec::new(), config: DebuggerConfig::default() }
    }

    /// A debugger before the first of the recorder's steps.
    pub fn from_recorder(recorder: &ExecutionRecorder) -> (r: Self)
        requires
            forall|i: int| 0 <= i < recorder.recorded().len() ==> steps_ready(#[trigger] recorder.recorded()[i]),
        ensures
            r.wf(),
            r.steps_view().len() == recorder.recorded().len(),
            forall|i: int| 0 <= i < r.steps_view().len() ==> steps_agree(#[trigger] r.steps_view()[i], recorder.recorded()[i]),
            r.position() is None,
            r.marks() == Seq::<usize>::empty(),
    {
        let src = recorder.steps();
        let mut steps: Vec<RecordedStep> = Vec::new();
        let mut i: usize = 0;
        while i < src.len()
            invariant
                src@ == recorder.recorded(),
                i <= src@.len(),
                steps@.len() == i,
                forall|j: int| 0 <= j < src@.len() ==> steps_ready(#[trigger] src@[j]),
                forall|j: int| 0 <= j < i ==> steps_ready(#[trigger] steps@[j]) && steps_agree(steps@[j], src@[j]),
            decreases src@.len() - i,
        {
            steps.push(src[i].clone());
            i = i + 1;
        }
        Self::new(steps)
    }

    /// The number of steps.
    pub fn total_steps(&self) -> (r: usize)
        ensures
            r == self.steps_view().len(),
    {
        self.steps.len()
    }

    /// The cursor.
    pub fn current_position(&self) -> (r: Option<usize>)
        ensures
            r == self.position(),
    {
        self.current_position
    }

    /// The step under the cursor.
    pub fn current_step(&self) -> (r: Option<&RecordedStep>)
        requires
            self.wf(),
        ensures
            match self.position() {
                Some(p) => r == Some(&self.steps_view()[p as int]),
                None => r is None,
            },
    {
        match self.current_position {
            Some(p) => Some(&self.steps[p]),
            None => None,
        }
    }

    /// The state after the step under the cursor.
    pub fn current_state(&self) -> (r: Option<&StateSnapshot>)
        requires
            self.wf(),
        ensures
            match self.position() {
                Some(p) => r == Some(&self.steps_view()[p as int].state_after),
                None => r is None,
            },
    {
        match self.current_position {
            Some(p) => Some(&self.steps[p].state_after),
            None => None,
        }
    }

    /// Moves the cursor to the next step, reporting a breakpoint there; at
    /// the end nothing moves.
    pub fn step_forward(&mut self) -> (r: StepResult)
        requires
            old(self).wf(),
        ensures
            final(self).wf(),
            final(self).steps_view() == old(self).steps_view(),
            final(self).marks() == old(self).marks(),
            final(self).cfg() == old(self).cfg(),
            match forward_target(old(self).position(), old(self).steps_view().len()) {
                Some(t) => final(self).position() == Some(t) && r == arrival(old(self).marks(), old(self).position(), t),
                None => final(self).position() == old(self).position() && r == StepResult::AtBoundary,
            },
    {
        let from = self.current_position;
        let to: usize = match self.current_position {
            None => {
                if self.steps.len() == 0 {
                    return StepResult::AtBoundary;
                }
                0
            },
            Some(pos) => {
                if pos < self.steps.len() - 1 {
                    pos + 1
                } else {
                    return StepResult::AtBoundary;
                }
            },
        };
        self.current_position = Some(to);
        if has_mark(&self.breakpoints, to) {
            StepResult::BreakpointHit { at: to }
        } else {
            StepResult::Moved { from, to: Some(to) }
        }
    }

    /// Moves the cursor to the step before, or before the first step.
    pub fn step_back(&mut self) -> (r: StepResult)
        requires
            old(self).wf(),
        ensures
            final(self).wf(),
            final(self).steps_view() == old(self).steps_view(),
            final(self).marks() == old(self).marks(),
            final(self).cfg() == old(self).cfg(),
            match old(self).position() {
                None => r == StepResult::AtBoundary && final(self).position() is None,
                Some(p) => {
                    let to = if p == 0 { None } else { Some((p - 1) as usize) };
                    final(self).position() == to && r == (StepResult::Moved { from: Some(p), to })
                },
            },
    {
        let from = self.current_position;
        let to = match self.current_position {
            None => {
                return StepResult::AtBoundary;
            },
            Some(0) => None,
            Some(pos) => Some(pos - 1),
        };
        self.current_position = to;
        StepResult::Moved { from, to }
    }

    /// Moves the cursor to step `index`, reporting a breakpoint there.
    pub fn goto_step(&mut self, index: usize) -> (r: StepResult)
        requires
            old(self).wf(),
        ensures
            final(self).wf(),
            final(self).steps_view() == old(self).steps_view(),
            final(self).marks() == old(self).marks(),
            final(self).cfg() == old(self).cfg(),
            index >= old(self).steps_view().len() ==> r == StepResult::InvalidPosition && final(self).position() == old(
                self,
            ).position(),
            index < old(self).steps_view().len() ==> final(self).position() == Some(index) && r == arrival(
                old(self).marks(),
                old(self).position(),
                index,
            ),
    {
        if index >= self.steps.len() {
            return StepResult::InvalidPosition;
        }
        let from = self.current_position;
        self.current_position = Some(index);
        if has_mark(&self.breakpoints, index) {
            StepResult::BreakpointHit { at: index }
        } else {
            StepResult::Moved { from, to: Some(index) }
        }
    }

    /// Moves the cursor to the first step whose receipt has hash
    /// `receipt_hash`, and gives its index.
    pub fn goto_receipt(&mut self, receipt_hash: &str) -> (r: Option<usize>)
        requires
            old(self).wf(),
        ensures
            final(self).wf(),
            final(self).steps_view() == old(self).steps_view(),
            final(self).marks() == old(self).marks(),
            final(self).cfg() == old(self).cfg(),
            match r {
                Some(i) => i < old(self).steps_view().len() && has_receipt_hash(old(self).steps_view()[i as int], receipt_hash@)
                    && (forall|j: int| 0 <= j < i ==> !has_receipt_hash(#[trigger] old(self).steps_view()[j], receipt_hash@))
                    && final(self).position() == Some(i),
                None => (forall|j: int| 0 <= j < old(self).steps_view().len() ==> !has_receipt_hash(
                    #[trigger] old(self).steps_view()[j],
                    receipt_hash@,
                )) && final(self).position() == old(self).position(),
            },
    {
        let mut i: usize = 0;
        while i < self.steps.len()
            invariant
                i <= self.steps@.len(),
                self.wf(),
                self.steps@ == old(self).steps@,
                self.breakpoints@ == old(self).breakpoints@,
                self.config == old(self).config,
                self.current_position == old(self).current_position,
                forall|j: int| 0 <= j < i ==> !has_receipt_hash(#[trigger] self.steps@[j], receipt_hash@),
            decreases self.steps@.len() - i,
        {
            match &self.steps[i].receipt {
                Some(x) => {
                    if str_eq(x.receipt_hash.as_str(), receipt_hash) {
                        self.current_position = Some(i);
                        return Some(i);
                    }
                },
                None => {},
            }
            i = i + 1;
        }
        None
    }

    /// Moves the cursor before the first step.
    pub fn reset(&mut self)
        requires
            old(self).wf(),
        ensures
            final(self).wf(),
            final(self).steps_view() == old(self).steps_view(),
            final(self).marks() == old(self).marks(),
            final(self).cfg() == old(self).cfg(),
            final(self).position() is None,
    {
        self.current_position = None;
    }

    /// Moves the cursor to the last step.
    pub fn goto_end(&mut self) -> (r: StepResult)
        requires
            old(self).wf(),
        ensures
            final(self).wf(),
            final(self).steps_view() == old(self).steps_view(),
            final(self).marks() == old(self).marks(),
            final(self).cfg() == old(self).cfg(),
            old(self).steps_view().len() == 0 ==> r == StepResult::AtBoundary && final(self).position() == old(
                self,
            ).position(),
            old(self).steps_view().len() > 0 ==> {
                let to = Some((old(self).steps_view().len() - 1) as usize);
                final(self).position() == to && r == (StepResult::Moved { from: old(self).position(), to })
            },
    {
        if self.steps.len() == 0 {
            return StepResult::AtBoundary;
        }
        let from = self.current_position;
        let to = Some(self.steps.len() - 1);
        self.current_position = to;
        StepResult::Moved { from, to }
    }

    /// How the state after step `step1` differs from the state after step
    /// `step2`; `None` when either is not a step.
    pub fn diff_states(&self, step1: usize, step2: usize) -> (r: Option<SnapshotDiff>)
        requires
            self.wf(),
        ensures
            match r {
                Some(d) => step1 < self.steps_view().len() && step2 < self.steps_view().len()
                    && d.differences@ == differences_of(
                    self.steps_view()[step1 as int].state_after,
                    self.steps_view()[step2 as int].state_after,
                ) && d.is_identical == (d.differences@.len() == 0),
                None => step1 >= self.steps_view().len() || step2 >= self.steps_view().len(),
            },
    {
        if step1 >= self.steps.len() || step2 >= self.steps.len() {
            return None;
        }
        assert(steps_ready(self.steps@[step1 as int]));
        assert(steps_ready(self.steps@[step2 as int]));
        Some(self.steps[step1].state_after.diff(&self.steps[step2].state_after))
    }

    /// How the state under the cursor differs from the state after `step`.
    pub fn diff_with_current(&self, step: usize) -> (r: Option<SnapshotDiff>)
        requires
            self.wf(),
        ensures
            match self.position() {
                None => r is None,
                Some(p) => match r {
                    Some(d) => step < self.steps_view().len() && d.differences@ == differences_of(
                        self.steps_view()[p as int].state_after,
                        self.steps_view()[step as int].state_after,
                    ),
                    None => step >= self.steps_view().len(),
                },
            },
    {
        match self.current_position {
            None => None,
            Some(p) => self.diff_states(p, step),
        }
    }

    /// How the state before the cursor's step differs from the state under
    /// the cursor; `None` before the second step.
    pub fn diff_with_previous(&self) -> (r: Option<SnapshotDiff>)
        requires
            self.wf(),
        ensures
            match self.position() {
                Some(p) => if p == 0 {
                    r is None
                } else {
                    r matches Some(d) && d.differences@ == differences_of(
                        self.steps_view()[p - 1].state_after,
                        self.steps_view()[p as int].state_after,
                    )
                },
                None => r is None,
            },
    {
        match self.current_position {
            None => None,
            Some(p) => {
                if p == 0 {
                    None
                } else {
                    self.diff_states(p - 1, p)
                }
            },
        }
    }

    /// Sets a breakpoint at `step`; `false` when `step` is not a step.
    pub fn add_breakpoint(&mut self, step: usize) -> (r: bool)
        requires
            old(self).wf(),
        ensures
            final(self).wf(),
            final(self).steps_view() == old(self).steps_view(),
            final(self).position() == old(self).position(),
            final(self).cfg() == old(self).cfg(),
            r == (step < old(self).steps_view().len()),
            r ==> final(self).marks().to_set() == old(self).marks().to_set().insert(step),
            !r ==> final(self).marks() == old(self).marks(),
    {
        if step >= self.steps.len() {
            return false;
        }
        if has_mark(&self.breakpoints, step) {
            assert(self.marks().to_set() =~= old(self).marks().to_set().insert(step));
            return true;
        }
        let mut k: usize = 0;
        while k < self.breakpoints.len() && self.breakpoints[k] < step
            invariant
                k <= self.breakpoints@.len(),
                forall|j: int| 0 <= j < k ==> self.breakpoints@[j] < step,
            decreases self.breakpoints@.len() - k,
        {
            k = k + 1;
        }
        let ghost b = self.breakpoints@;
        self.breakpoints.insert(k, step);
        proof {
            assert(self.breakpoints@ == b.insert(k as int, step));
            assert(!b.contains(step));
            assert forall|j: int| k <= j < b.len() implies step < b[j] by {
                if j == k {
                    assert(b[j] != step);
                } else {
                    assert(b[k as int] < b[j]);
                    assert(b[k as int] != step);
                }
            }
            assert(self.marks().to_set() =~= b.to_set().insert(step)) by {
                assert forall|x: usize| self.marks().to_set().contains(x) == b.to_set().insert(step).contains(x) by {
                    if b.contains(x) {
                        let j = choose|j: int| 0 <= j < b.len() && b[j] == x;
                        if j < k {
                            assert(self.breakpoints@[j] == x);
                        } else {
                            assert(self.breakpoints@[j + 1] == x);
                        }
                    }
                    if self.breakpoints@.contains(x) {
                        let j = choose|j: int| 0 <= j < self.breakpoints@.len() && self.breakpoints@[j] == x;
                        if j < k {
                            assert(b[j] == x);
                        } else if j > k {
                            assert(b[j - 1] == x);
                        }
                    }
                    if x == step {
                        assert(self.breakpoints@[k as int] == step);
                    }
                }
            }
        }
        true
    }

    /// Removes the breakpoint at `step`; `false` when there is none.
    pub fn remove_breakpoint(&mut self, step: usize) -> (r: bool)
        requires
            old(self).wf(),
        ensures
            final(self).wf(),
            final(self).steps_view() == old(self).steps_view(),
            final(self).position() == old(self).position(),
            final(self).cfg() == old(self).cfg(),
            r == old(self).marks().contains(step),
            final(self).marks().to_set() == old(self).marks().to_set().remove(step),
    {
        let mut k: usize = 0;
        while k < self.breakpoints.len()
            invariant
                k <= self.breakpoints@.len(),
                old(self).wf(),
                self.steps@ == old(self).steps@,
                self.current_position == old(self).current_position,
                self.config == old(self).config,
                self.breakpoints@ == old(self).breakpoints@,
                forall|j: int| 0 <= j < k ==> self.breakpoints@[j] != step,
            decreases self.breakpoints@.len() - k,
        {
            if self.breakpoints[k] == step {
                let ghost b = self.breakpoints@;
                self.breakpoints.remove(k);
                proof {
                    assert(self.breakpoints@ == b.remove(k as int));
                    assert(self.marks().to_set() =~= b.to_set().remove(step)) by {
                        assert forall|x: usize| self.marks().to_set().contains(x) == b.to_set().remove(step).contains(x) by {
                            if self.breakpoints@.contains(x) {
                                let j = choose|j: int| 0 <= j < self.breakpoints@.len() && self.breakpoints@[j] == x;
                                if j < k {
                                    assert(b[j] == x);
                                } else {
                                    assert(b[j + 1] == x);
                                }
                            }
                            if b.contains(x) && x != step {
                                let j = choose|j: int| 0 <= j < b.len() && b[j] == x;
                                if j < k {
                                    assert(self.breakpoints@[j] == x);
                                } else {
                                    assert(j != k);
                                    assert(self.breakpoints@[j - 1] == x);
                                }
                            }
                        }
                    }
                    assert(b[k as int] == step);
                    assert(marks_ok(self.breakpoints@, self.steps@.len())) by {
                        assert forall|a: int, c: int| 0 <= a < c < self.breakpoints@.len() implies self.breakpoints@[a]
                            < self.breakpoints@[c] by {
                            let a2 = if a < k { a } else { a + 1 };
                            let c2 = if c < k { c } else { c + 1 };
                            assert(self.breakpoints@[a] == b[a2]);
                            assert(self.breakpoints@[c] == b[c2]);
                        }
                        assert forall|a: int| 0 <= a < self.breakpoints@.len() implies self.breakpoints@[a]
                            < self.steps@.len() by {
                            let a2 = if a < k { a } else { a + 1 };
                            assert(self.breakpoints@[a] == b[a2]);
                        }
                    }
                }
                return true;
            }
            k = k + 1;
        }
        assert(self.marks().to_set() =~= old(self).marks().to_set().remove(step));
        false
    }

    /// The breakpoints, in increasing order.
    pub fn list_breakpoints(&self) -> (r: &[usize])
        ensures
            r@ == self.marks(),
    {
        self.breakpoints.as_slice()
    }

    /// Removes every breakpoint.
    pub fn clear_breakpoints(&mut self)
        requires
            old(self).wf(),
        ensures
            final(self).wf(),
            final(self).steps_view() == old(self).steps_view(),
            final(self).position() == old(self).position(),
            final(self).cfg() == old(self).cfg(),
            final(self).marks() == Seq::<usize>::empty(),
    {
        self.breakpoints.clear();
    }

    /// Steps forward until a breakpoint is hit or the last step is reached.
    pub fn continue_execution(&mut self) -> (r: StepResult)
        requires
            old(self).wf(),
        ensures
            final(self).wf(),
            final(self).steps_view() == old(self).steps_view(),
            final(self).marks() == old(self).marks(),
            final(self).cfg() == old(self).cfg(),
            ({
                let n = old(self).steps_view().len() as int;
                let start = match old(self).position() {
                    None => 0,
                    Some(p) => p + 1,
                };
                match run_to_mark(old(self).marks(), start, n) {
                    Some(q) => r == (StepResult::BreakpointHit { at: q as usize }) && final(self).position() == Some(
                        q as usize,
                    ),
                    None => r == StepResult::AtBoundary && final(self).position() == if start < n {
                        Some((n - 1) as usize)
                    } else {
                        old(self).position()
                    },
                }
            }),
    {
        let ghost n = self.steps@.len() as int;
        let ghost start: int = match self.current_position {
            None => 0,
            Some(p) => p + 1,
        };
        let len = self.steps.len();
        loop
            invariant
                self.wf(),
                self.steps@ == old(self).steps@,
                self.breakpoints@ == old(self).breakpoints@,
                self.config == old(self).config,
                n == self.steps@.len(),
                n == len,
                start == (match old(self).position() {
                    None => 0,
                    Some(p) => p + 1,
                }),
                start <= next_index(self.current_position),
                self.current_position == old(self).current_position || (self.current_position matches Some(c) && start
                    <= c < n),
                run_to_mark(self.breakpoints@, start, n) == run_to_mark(self.breakpoints@, next_index(self.current_position), n),
            decreases n - next_index(self.current_position),
        {
            let ghost here = next_index(self.current_position);
            let ghost before = self.current_position;
            let r = self.step_forward();
            proof {
                assert(forward_target(before, self.steps@.len()) matches Some(t) ==> t as int == here && here < n);
                assert(forward_target(before, self.steps@.len()) is None ==> here >= n);
            }
            match r {
                StepResult::BreakpointHit { at } => {
                    assert(at as int == here);
                    assert(run_to_mark(self.breakpoints@, here, n) == Some(at as int));
                    return r;
                },
                StepResult::AtBoundary => {
                    assert(here >= n);
                    assert(run_to_mark(self.breakpoints@, here, n) is None);
                    return r;
                },
                _ => {
                    assert(self.current_position == Some(here as usize));
                    assert(!self.breakpoints@.contains(here as usize));
                    assert(run_to_mark(self.breakpoints@, here, n) == run_to_mark(self.breakpoints@, here + 1, n));
                },
            }
        }
    }

    /// Where the debugger stands.
    pub fn status(&self) -> (r: DebuggerStatus)
        requires
            self.wf(),
        ensures
            r.total_steps == self.steps_view().len(),
            r.current_position == self.position(),
            r.breakpoint_count == self.marks().len(),
            match self.position() {
                Some(p) => r.current_step_summary matches Some(t) && t@ == step_line(self.steps_view()[p as int]),
                None => r.current_step_summary is None,
            },
    {
        let current_step_summary = match self.current_position {
            Some(p) => {
                let step = &self.steps[p];
                let mut t = owned("Step ");
                push_decimal(step.step_number as u64, &mut t);
                push_str(&mut t, ": ");
                push_str(&mut t, operation_summary(&step.operation).as_str());
                Some(t)
            },
            None => None,
        };
        DebuggerStatus {
            total_steps: self.steps.len(),
            current_position: self.current_position,
            breakpoint_count: self.breakpoints.len(),
            current_step_summary,
        }
    }

    /// Replaces the configuration.
    pub fn configure(&mut self, config: DebuggerConfig)
        requires
            old(self).wf(),
        ensures
            final(self).wf(),
            final(self).steps_view() == old(self).steps_view(),
            final(self).position() == old(self).position(),
            final(self).marks() == old(self).marks(),
            final(self).cfg() == config,
    {
        self.config = config;
    }

    /// The configuration.
    pub fn config(&self) -> (r: &DebuggerConfig)
        ensures
            *r == self.cfg(),
    {
        &self.config
    }

    /// The indices, in increasing order, of the steps on which `predicate`
    /// answers `true`.
    pub fn search<F: Fn(&RecordedStep) -> bool>(&self, predicate: F) -> (r: Vec<usize>)
        requires
            forall|i: int| 0 <= i < self.steps_view().len() ==> call_requires(predicate, (&#[trigger] self.steps_view()[i],)),
        ensures
            forall|a: int, b: int| 0 <= a < b < r@.len() ==> r@[a] < r@[b],
            forall|a: int| 0 <= a < r@.len() ==> r@[a] < self.steps_view().len(),
            forall|i: int| 0 <= i < self.steps_view().len() ==> (r@.contains(i as usize) ==> call_ensures(
                predicate,
                (&#[trigger] self.steps_view()[i],),
                true,
            )) && (!r@.contains(i as usize) ==> call_ensures(predicate, (&self.steps_view()[i],), false)),
    {
        let mut r: Vec<usize> = Vec::new();
        let mut i: usize = 0;
        while i < self.steps.len()
            invariant
                i <= self.steps@.len(),
                forall|j: int| 0 <= j < self.steps_view().len() ==> call_requires(predicate, (&#[trigger] self.steps_view()[j],)),
                self.steps_view() == self.steps@,
                forall|a: int, b: int| 0 <= a < b < r@.len() ==> r@[a] < r@[b],
                forall|a: int| 0 <= a < r@.len() ==> r@[a] < i,
                forall|j: int| 0 <= j < i ==> (r@.contains(j as usize) ==> call_ensures(
                    predicate,
                    (&#[trigger] self.steps@[j],),
                    true,
                )) && (!r@.contains(j as usize) ==> call_ensures(predicate, (&self.steps@[j],), false)),
            decreases self.steps@.len() - i,
        {
            let hit = predicate(&self.steps[i]);
            let ghost before = r@;
            if hit {
                r.push(i);
            }
            proof {
                assert forall|j: int| 0 <= j < i + 1 implies (r@.contains(j as usize) ==> call_ensures(
                    predicate,
                    (&#[trigger] self.steps@[j],),
                    true,
                )) && (!r@.contains(j as usize) ==> call_ensures(predicate, (&self.steps@[j],), false)) by {
                    if j < i {
                        if r@.contains(j as usize) && !before.contains(j as usize) {
                            let a = choose|a: int| 0 <= a < r@.len() && r@[a] == j as usize;
                            assert(a == before.len());
                        }
                        if before.contains(j as usize) {
                            let a = choose|a: int| 0 <= a < before.len() && before[a] == j as usize;
                            assert(r@[a] == j as usize);
                        }
                    } else {
                        if !hit && r@.contains(j as usize) {
                            let a = choose|a: int| 0 <= a < r@.len() && r@[a] == j as usize;
                        }
                        if hit {
                            assert(r@[before.len() as int] == i);
                        }
                    }
                }
            }
            i = i + 1;
        }
        r
    }

    /// The indices, in increasing order, of the steps whose operation
    /// summary contains `operation_type`.
    pub fn search_by_operation(&self, operation_type: &str) -> (r: Vec<usize>)
        ensures
            forall|a: int, b: int| 0 <= a < b < r@.len() ==> r@[a] < r@[b],
            forall|a: int| 0 <= a < r@.len() ==> r@[a] < self.steps_view().len(),
            forall|i: int| 0 <= i < self.steps_view().len() ==> (r@.contains(i as usize) <==> has_substring(
                operation_summary_text(#[trigger] self.steps_view()[i].operation),
                operation_type@,
            )),
    {
        let mut r: Vec<usize> = Vec::new();
        let mut i: usize = 0;
        while i < self.steps.len()
            invariant
                i <= self.steps@.len(),
                forall|a: int, b: int| 0 <= a < b < r@.len() ==> r@[a] < r@[b],
                forall|a: int| 0 <= a < r@.len() ==> r@[a] < i,
                forall|j: int| 0 <= j < i ==> (r@.contains(j as usize) <==> has_substring(
                    operation_summary_text(#[trigger] self.steps@[j].operation),
                    operation_type@,
                )),
            decreases self.steps@.len() - i,
        {
            let hit = str_contains(operation_summary(&self.steps[i].operation).as_str(), operation_type);
            let ghost before = r@;
            if hit {
                r.push(i);
            }
            proof {
                assert forall|j: int| 0 <= j < i + 1 implies (r@.contains(j as usize) <==> has_substring(
                    operation_summary_text(#[trigger] self.steps@[j].operation),
                    operation_type@,
                )) by {
                    if j < i {
                        if r@.contains(j as usize) && !before.contains(j as usize) {
                            let a = choose|a: int| 0 <= a < r@.len() && r@[a] == j as usize;
                            assert(a == before.len());
                        }
                        if before.contains(j as usize) {
                            let a = choose|a: int| 0 <= a < before.len() && before[a] == j as usize;
                            assert(r@[a] == j as usize);
                        }
                    } else {
                        if !hit && r@.contains(j as usize) {
                            let a = choose|a: int| 0 <= a < r@.len() && r@[a] == j as usize;
                        }
                        if hit {
                            assert(r@[before.len() as int] == i);
                        }
                    }
                }
            }
            i = i + 1;
        }
        r
    }

    /// A report on the step under the cursor.
    pub fn inspect_current(&self) -> (r: Option<StepReport>)
        requires
            self.wf(),
        ensures
            match self.position() {
                None => r is None,
                Some(p) => r matches Some(rep) && ({
                    let s = self.steps_view()[p as int];
                    &&& rep.step_number == s.step_number
                    &&& rep.operation@ == operation_summary_text(s.operation)
                    &&& rep.execution_success == s.execution_receipt.success
                    &&& strings_view(rep.stages_completed@) == strings_view(s.execution_receipt.stages_completed@)
                    &&& rep.state_before_summary@ == state_summary_text(s.state_before)
                    &&& rep.state_after_summary@ == state_summary_text(s.state_after)
                    &&& rep.state_diff.differences@ == differences_of(s.state_before, s.state_after)
                    &&& match s.receipt {
                        Some(x) => rep.receipt_hash matches Some(h) && h@ == x.receipt_hash@,
                        None => rep.receipt_hash is None,
                    }
                }),
            },
    {
        let p = match self.current_position {
            Some(p) => p,
            None => {
                return None;
            },
        };
        let step = &self.steps[p];
        assert(steps_ready(self.steps@[p as int]));
        Some(StepReport {
            step_number: step.step_number,
            operation: operation_summary(&step.operation),
            operation_details: crate::runtime::executor::operation_text(&step.operation),
            execution_success: step.execution_receipt.success,
            stages_completed: clone_strings(&step.execution_receipt.stages_completed),
            state_before_summary: state_summary(&step.state_before),
            state_after_summary: state_summary(&step.state_after),
            state_diff: step.state_before.diff(&step.state_after),
            receipt_hash: match &step.receipt {
                Some(x) => Some(x.receipt_hash.clone()),
                None => None,
            },
        })
    }

    /// A summary line for every step, in order; a step is marked when a
    /// breakpoint is set at its step number.
    pub fn list_all_steps(&self) -> (r: Vec<StepSummary>)
        ensures
            r@.len() == self.steps_view().len(),
            forall|i: int| 0 <= i < r@.len() ==> {
                let s = self.steps_view()[i];
                &&& (#[trigger] r@[i]).step_number == s.step_number
                &&& r@[i].operation@ == operation_summary_text(s.operation)
                &&& r@[i].success == s.execution_receipt.success
                &&& r@[i].has_breakpoint == self.marks().contains(s.step_number)
            },
    {
        let mut r: Vec<StepSummary> = Vec::new();
        let mut i: usize = 0;
        while i < self.steps.len()
            invariant
                i <= self.steps@.len(),
                r@.len() == i,
                forall|j: int| 0 <= j < i ==> {
                    let s = self.steps@[j];
                    &&& (#[trigger] r@[j]).step_number == s.step_number
                    &&& r@[j].operation@ == operation_summary_text(s.operation)
                    &&& r@[j].success == s.execution_receipt.success
                    &&& r@[j].has_breakpoint == self.breakpoints@.contains(s.step_number)
                },
            decreases self.steps@.len() - i,
        {
            let step = &self.steps[i];
            r.push(StepSummary {
                step_number: step.step_number,
                operation: operation_summary(&step.operation),
                success: step.execution_receipt.success,
                has_breakpoint: has_mark(&self.breakpoints, step.step_number),
            });
            i = i + 1;
        }
        r
    }
}

} // verus!
