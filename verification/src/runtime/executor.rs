//! The runtime: one pipeline that takes an operation through a type check
//! against the ontology, the admission guards, the transformation of the
//! state, the invariants and the state delta, and reports what happened in
//! an execution receipt.
use vstd::prelude::*;
use crate::ambient::{new_uuid, now_rfc3339};
use crate::domain::{A2AError, Artifact, ArtifactView, Message, MessageView, Task, TaskState, TaskView, opt_msg, opt_str, state_name};
use crate::guards::{Guard, RefusalReceipt, code_name};
use crate::invariants::{InvariantRegistry, InvariantViolation, ViolationView, failures};
use crate::invariants::dsl::{artifact_json, artifact_to_json, message_json, message_to_json, task_json, task_to_json};
use crate::json::{JsonValue, JsonView, jview, members_view, push_member, to_json_string, view_text, lemma_text_of_view};
use crate::observability::{duration_nanos, instant_elapsed, instant_now};
use crate::ontology::{OntologyState, StateBounds};
use crate::runtime::scheduler::{PriorityClass, ScheduledTask, Scheduler, SchedulerError, removed_first, scheduler_error_text};
use crate::strmap::StrMap;
use crate::text::{dec_of, owned, push_decimal, push_str, strings_view};
use std::sync::Arc;

verus! {

/// Why the runtime refused or failed a stage.
#[derive(Debug, Clone)]
pub enum RuntimeError {
    TypeCheckFailed { message: String },
    AdmissionDenied { receipt: String },
    TransformationFailed { message: String },
    InvariantViolation { violation: String },
    ExecutionFailed { message: String },
    BoundedUpdateExceeded { limit: usize },
    SchedulerError { message: String },
    InvalidOperation { message: String },
}

/// The text of a runtime error.
pub open spec fn runtime_error_text(e: RuntimeError) -> Seq<char> {
    match e {
        RuntimeError::TypeCheckFailed { message } => "Type check failed: "@ + message@,
        RuntimeError::AdmissionDenied { receipt } => "Admission denied: "@ + receipt@,
        RuntimeError::TransformationFailed { message } => "Transformation failed: "@ + message@,
        RuntimeError::InvariantViolation { violation } => "Invariant violation: "@ + violation@,
        RuntimeError::ExecutionFailed { message } => "Execution failed: "@ + message@,
        RuntimeError::BoundedUpdateExceeded { limit } => "Bounded update limit exceeded: "@ + dec_of(limit as nat),
        RuntimeError::SchedulerError { message } => "Scheduler error: "@ + message@,
        RuntimeError::InvalidOperation { message } => "Invalid operation: "@ + message@,
    }
}

impl RuntimeError {
    /// The text of the error.
    pub fn message(&self) -> (r: String)
        ensures
            r@ == runtime_error_text(*self),
    {
        let mut m = String::new();
        match self {
            RuntimeError::TypeCheckFailed { message } => {
                push_str(&mut m, "Type check failed: ");
                push_str(&mut m, message.as_str());
            },
            RuntimeError::AdmissionDenied { receipt } => {
                push_str(&mut m, "Admission denied: ");
                push_str(&mut m, receipt.as_str());
            },
            RuntimeError::TransformationFailed { message } => {
                push_str(&mut m, "Transformation failed: ");
                push_str(&mut m, message.as_str());
            },
            RuntimeError::InvariantViolation { violation } => {
                push_str(&mut m, "Invariant violation: ");
                push_str(&mut m, violation.as_str());
            },
            RuntimeError::ExecutionFailed { message } => {
                push_str(&mut m, "Execution failed: ");
                push_str(&mut m, message.as_str());
            },
            RuntimeError::BoundedUpdateExceeded { limit } => {
                push_str(&mut m, "Bounded update limit exceeded: ");
                push_decimal(*limit as u64, &mut m);
            },
            RuntimeError::SchedulerError { message } => {
                push_str(&mut m, "Scheduler error: ");
                push_str(&mut m, message.as_str());
            },
            RuntimeError::InvalidOperation { message } => {
                push_str(&mut m, "Invalid operation: ");
                push_str(&mut m, message.as_str());
            },
        }
        assert(m@ =~= runtime_error_text(*self));
        m
    }
}

/// The text of a protocol error.
pub open spec fn a2a_error_text(e: A2AError) -> Seq<char> {
    match e {
        A2AError::Internal(m) => "Internal error: "@ + m@,
        A2AError::TaskNotFound(id) => "Task not found: "@ + id@,
        A2AError::ValidationError { field, message } => "Validation error in "@ + field@ + ": "@ + message@,
    }
}

/// The text of a protocol error.
pub fn a2a_error_message(e: &A2AError) -> (r: String)
    ensures
        r@ == a2a_error_text(*e),
{
    let mut m = String::new();
    match e {
        A2AError::Internal(x) => {
            push_str(&mut m, "Internal error: ");
            push_str(&mut m, x.as_str());
        },
        A2AError::TaskNotFound(id) => {
            push_str(&mut m, "Task not found: ");
            push_str(&mut m, id.as_str());
        },
        A2AError::ValidationError { field, message } => {
            push_str(&mut m, "Validation error in ");
            push_str(&mut m, field.as_str());
            push_str(&mut m, ": ");
            push_str(&mut m, message.as_str());
        },
    }
    assert(m@ =~= a2a_error_text(*e));
    m
}

/// The text of an invariant violation; the parts of a multiple violation
/// are joined with "; ".
pub open spec fn violation_text(v: ViolationView) -> Seq<char>
    decreases v,
{
    match v {
        ViolationView::TaskStateViolation { reason } => "Task state invariant violated: "@ + reason,
        ViolationView::ArtifactMutated { artifact_id, reason } => "Artifact immutability violated: artifact_id="@
            + artifact_id + ", reason="@ + reason,
        ViolationView::EventOrderingViolation { reason } => "Event ordering violated: "@ + reason,
        ViolationView::Custom { name, reason } => "Invariant '"@ + name + "' violated: "@ + reason,
        ViolationView::Multiple { violations } => "Multiple invariants violated: "@ + joined_texts(violations),
    }
}

/// The texts of `vs`, joined with "; ".
pub open spec fn joined_texts(vs: Seq<ViolationView>) -> Seq<char>
    decreases vs,
{
    if vs.len() == 0 {
        Seq::empty()
    } else if vs.len() == 1 {
        proof {
            assert(decreases_to!(vs => vs[0]));
        }
        violation_text(vs[0])
    } else {
        proof {
            assert(decreases_to!(vs => vs.drop_last()));
            assert(decreases_to!(vs => vs[vs.len() - 1]));
        }
        joined_texts(vs.drop_last()) + "; "@ + violation_text(vs[vs.len() - 1])
    }
}

/// An operation for the runtime.
#[derive(Debug)]
pub enum Operation {
    CreateTask { task: Task, initial_message: Option<Message>, priority: Option<PriorityClass> },
    SendMessage { task_id: String, message: Message },
    UpdateTaskState { task_id: String, state: TaskState },
    AddArtifact { task_id: String, artifact: Artifact },
    CompleteTask { task_id: String, station_id: String },
    CancelTask { task_id: String },
}

/// The abstract content of an operation.
pub enum OperationView {
    CreateTask { task: TaskView, initial_message: Option<MessageView>, priority: Option<PriorityClass> },
    SendMessage { task_id: Seq<char>, message: MessageView },
    UpdateTaskState { task_id: Seq<char>, state: TaskState },
    AddArtifact { task_id: Seq<char>, artifact: ArtifactView },
    CompleteTask { task_id: Seq<char>, station_id: Seq<char> },
    CancelTask { task_id: Seq<char> },
}

impl View for Operation {
    type V = OperationView;

    open spec fn view(&self) -> OperationView {
        match self {
            Operation::CreateTask { task, initial_message, priority } => OperationView::CreateTask {
                task: task@,
                initial_message: opt_msg(*initial_message),
                priority: *priority,
            },
            Operation::SendMessage { task_id, message } => OperationView::SendMessage {
                task_id: task_id@,
                message: message@,
            },
            Operation::UpdateTaskState { task_id, state } => OperationView::UpdateTaskState {
                task_id: task_id@,
                state: *state,
            },
            Operation::AddArtifact { task_id, artifact } => OperationView::AddArtifact {
                task_id: task_id@,
                artifact: artifact@,
            },
            Operation::CompleteTask { task_id, station_id } => OperationView::CompleteTask {
                task_id: task_id@,
                station_id: station_id@,
            },
            Operation::CancelTask { task_id } => OperationView::CancelTask { task_id: task_id@ },
        }
    }
}

impl Clone for Operation {
    fn clone(&self) -> (r: Self)
        ensures
            r@ == self@,
    {
        match self {
            Operation::CreateTask { task, initial_message, priority } => Operation::CreateTask {
                task: task.clone(),
                initial_message: match initial_message {
                    Some(m) => Some(m.clone()),
                    None => None,
                },
                priority: *priority,
            },
            Operation::SendMessage { task_id, message } => Operation::SendMessage {
                task_id: task_id.clone(),
                message: message.clone(),
            },
            Operation::UpdateTaskState { task_id, state } => Operation::UpdateTaskState {
                task_id: task_id.clone(),
                state: *state,
            },
            Operation::AddArtifact { task_id, artifact } => Operation::AddArtifact {
                task_id: task_id.clone(),
                artifact: artifact.clone(),
            },
            Operation::CompleteTask { task_id, station_id } => Operation::CompleteTask {
                task_id: task_id.clone(),
                station_id: station_id.clone(),
            },
            Operation::CancelTask { task_id } => Operation::CancelTask { task_id: task_id.clone() },
        }
    }
}

/// What happened during an execution, as it happened.
#[derive(Debug)]
pub enum RuntimeEvent {
    TaskCreated { task_id: String, station_id: String, epoch: u64, timestamp: String },
    TaskScheduled { task_id: String, station_id: String, priority: PriorityClass, epoch: u64, timestamp: String },
    TaskStateChanged { task_id: String, old_state: TaskState, new_state: TaskState, timestamp: String },
    MessageProcessed { task_id: String, message_id: String, timestamp: String },
    ArtifactAdded { task_id: String, artifact_name: String, timestamp: String },
    TransformationApplied { name: String, timestamp: String },
    InvariantChecked { invariant: String, passed: bool, timestamp: String },
    GuardEvaluated { guard: String, admitted: bool, timestamp: String },
}

/// The record of an execution.
#[derive(Debug)]
pub struct ExecutionReceipt {
    /// A fresh identifier.
    pub execution_id: String,
    /// The operation, as `{:?}` prints it.
    pub operation: String,
    /// When the receipt was made, in RFC 3339.
    pub timestamp: String,
    /// How long the execution took, in whole milliseconds rounded up.
    pub duration_ms: u64,
    /// The pipeline stages completed, in order.
    pub stages_completed: Vec<String>,
    /// `true` iff no stage failed.
    pub success: bool,
    /// The policy epoch of the runtime.
    pub policy_epoch: u64,
}

impl Clone for ExecutionReceipt {
    fn clone(&self) -> (r: Self)
        ensures
            r.execution_id@ == self.execution_id@,
            r.operation@ == self.operation@,
            r.timestamp@ == self.timestamp@,
            r.duration_ms == self.duration_ms,
            strings_view(r.stages_completed@) == strings_view(self.stages_completed@),
            r.success == self.success,
            r.policy_epoch == self.policy_epoch,
    {
        ExecutionReceipt {
            execution_id: self.execution_id.clone(),
            operation: self.operation.clone(),
            timestamp: self.timestamp.clone(),
            duration_ms: self.duration_ms,
            stages_completed: crate::text::clone_strings(&self.stages_completed),
            success: self.success,
            policy_epoch: self.policy_epoch,
        }
    }
}

/// What the runtime gives back for an operation.
#[derive(Debug)]
pub struct RuntimeOutput {
    /// Every task of the ontology after the execution, in id order.
    pub tasks: Vec<Task>,
    /// The events of the execution, in order.
    pub events: Vec<RuntimeEvent>,
    /// The artifacts produced.
    pub artifacts: Vec<Artifact>,
    /// The errors met.
    pub errors: Vec<RuntimeError>,
    /// The record of the execution.
    pub receipt: ExecutionReceipt,
}

/// The JSON name of a priority class.
pub open spec fn priority_name(p: PriorityClass) -> Seq<char> {
    match p {
        PriorityClass::Critical => "critical"@,
        PriorityClass::High => "high"@,
        PriorityClass::Normal => "normal"@,
        PriorityClass::Low => "low"@,
        PriorityClass::Idle => "idle"@,
    }
}

fn priority_name_str(p: PriorityClass) -> (r: &'static str)
    ensures
        r@ == priority_name(p),
{
    match p {
        PriorityClass::Critical => "critical",
        PriorityClass::High => "high",
        PriorityClass::Normal => "normal",
        PriorityClass::Low => "low",
        PriorityClass::Idle => "idle",
    }
}

/// The JSON name of a task state.
pub open spec fn state_json_text(s: TaskState) -> Seq<char> {
    match s {
        TaskState::Submitted => "submitted"@,
        TaskState::Working => "working"@,
        TaskState::InputRequired => "input-required"@,
        TaskState::Completed => "completed"@,
        TaskState::Canceled => "canceled"@,
        TaskState::Failed => "failed"@,
        TaskState::Rejected => "rejected"@,
        TaskState::AuthRequired => "auth-required"@,
        TaskState::Unknown => "unknown"@,
    }
}

fn state_json_str(s: TaskState) -> (r: &'static str)
    ensures
        r@ == state_json_text(s),
{
    match s {
        TaskState::Submitted => "submitted",
        TaskState::Working => "working",
        TaskState::InputRequired => "input-required",
        TaskState::Completed => "completed",
        TaskState::Canceled => "canceled",
        TaskState::Failed => "failed",
        TaskState::Rejected => "rejected",
        TaskState::AuthRequired => "auth-required",
        TaskState::Unknown => "unknown",
    }
}

/// The operation as JSON: an object tagged by `operationType`, members in
/// key order.
pub open spec fn operation_json(op: Operation) -> JsonView {
    match op {
        Operation::CreateTask { task, initial_message, priority } => JsonView::Object(seq![
            ("initial_message"@, match initial_message { Some(m) => message_json(m), None => JsonView::Null }),
            ("operationType"@, JsonView::Str("createTask"@)),
            ("priority"@, match priority { Some(p) => JsonView::Str(priority_name(p)), None => JsonView::Null }),
            ("task"@, task_json(task)),
        ]),
        Operation::SendMessage { task_id, message } => JsonView::Object(seq![
            ("message"@, message_json(message)),
            ("operationType"@, JsonView::Str("sendMessage"@)),
            ("task_id"@, JsonView::Str(task_id@)),
        ]),
        Operation::UpdateTaskState { task_id, state } => JsonView::Object(seq![
            ("operationType"@, JsonView::Str("updateTaskState"@)),
            ("state"@, JsonView::Str(state_json_text(state))),
            ("task_id"@, JsonView::Str(task_id@)),
        ]),
        Operation::AddArtifact { task_id, artifact } => JsonView::Object(seq![
            ("artifact"@, artifact_json(artifact)),
            ("operationType"@, JsonView::Str("addArtifact"@)),
            ("task_id"@, JsonView::Str(task_id@)),
        ]),
        Operation::CompleteTask { task_id, station_id } => JsonView::Object(seq![
            ("operationType"@, JsonView::Str("completeTask"@)),
            ("station_id"@, JsonView::Str(station_id@)),
            ("task_id"@, JsonView::Str(task_id@)),
        ]),
        Operation::CancelTask { task_id } => JsonView::Object(seq![
            ("operationType"@, JsonView::Str("cancelTask"@)),
            ("task_id"@, JsonView::Str(task_id@)),
        ]),
    }
}

fn str_json(s: &str) -> (r: JsonValue)
    ensures
        jview(r) == JsonView::Str(s@),
{
    JsonValue::String(owned(s))
}

/// The operation as JSON.
pub fn operation_to_json(op: &Operation) -> (r: JsonValue)
    ensures
        jview(r) == operation_json(*op),
{
    let mut m: Vec<(String, JsonValue)> = Vec::new();
    match op {
        Operation::CreateTask { task, initial_message, priority } => {
            let im = match initial_message {
                Some(msg) => message_to_json(msg),
                None => JsonValue::Null,
            };
            push_member(&mut m, "initial_message", im);
            push_member(&mut m, "operationType", str_json("createTask"));
            let p = match priority {
                Some(p) => str_json(priority_name_str(*p)),
                None => JsonValue::Null,
            };
            push_member(&mut m, "priority", p);
            let t = task_to_json(task);
            push_member(&mut m, "task", t);
            assert(members_view(m@) =~= seq![
                ("initial_message"@, match *initial_message { Some(x) => message_json(x), None => JsonView::Null }),
                ("operationType"@, JsonView::Str("createTask"@)),
                ("priority"@, match *priority { Some(x) => JsonView::Str(priority_name(x)), None => JsonView::Null }),
                ("task"@, task_json(*task)),
            ]);
        },
        Operation::SendMessage { task_id, message } => {
            push_member(&mut m, "message", message_to_json(message));
            push_member(&mut m, "operationType", str_json("sendMessage"));
            push_member(&mut m, "task_id", str_json(task_id.as_str()));
            assert(members_view(m@) =~= seq![
                ("message"@, message_json(*message)),
                ("operationType"@, JsonView::Str("sendMessage"@)),
                ("task_id"@, JsonView::Str(task_id@)),
            ]);
        },
        Operation::UpdateTaskState { task_id, state } => {
            push_member(&mut m, "operationType", str_json("updateTaskState"));
            push_member(&mut m, "state", str_json(state_json_str(*state)));
            push_member(&mut m, "task_id", str_json(task_id.as_str()));
            assert(members_view(m@) =~= seq![
                ("operationType"@, JsonView::Str("updateTaskState"@)),
                ("state"@, JsonView::Str(state_json_text(*state))),
                ("task_id"@, JsonView::Str(task_id@)),
            ]);
        },
        Operation::AddArtifact { task_id, artifact } => {
            push_member(&mut m, "artifact", artifact_to_json(artifact));
            push_member(&mut m, "operationType", str_json("addArtifact"));
            push_member(&mut m, "task_id", str_json(task_id.as_str()));
            assert(members_view(m@) =~= seq![
                ("artifact"@, artifact_json(*artifact)),
                ("operationType"@, JsonView::Str("addArtifact"@)),
                ("task_id"@, JsonView::Str(task_id@)),
            ]);
        },
        Operation::CompleteTask { task_id, station_id } => {
            push_member(&mut m, "operationType", str_json("completeTask"));
            push_member(&mut m, "station_id", str_json(station_id.as_str()));
            push_member(&mut m, "task_id", str_json(task_id.as_str()));
            assert(members_view(m@) =~= seq![
                ("operationType"@, JsonView::Str("completeTask"@)),
                ("station_id"@, JsonView::Str(station_id@)),
                ("task_id"@, JsonView::Str(task_id@)),
            ]);
        },
        Operation::CancelTask { task_id } => {
            push_member(&mut m, "operationType", str_json("cancelTask"));
            push_member(&mut m, "task_id", str_json(task_id.as_str()));
            assert(members_view(m@) =~= seq![
                ("operationType"@, JsonView::Str("cancelTask"@)),
                ("task_id"@, JsonView::Str(task_id@)),
            ]);
        },
    }
    JsonValue::Object(m)
}

/// The text of an invariant violation.
pub fn violation_message(v: &InvariantViolation) -> (r: String)
    ensures
        r@ == violation_text(v@),
    decreases v,
{
    let mut m = String::new();
    match v {
        InvariantViolation::TaskStateViolation { reason } => {
            push_str(&mut m, "Task state invariant violated: ");
            push_str(&mut m, reason.as_str());
        },
        InvariantViolation::ArtifactMutated { artifact_id, reason } => {
            push_str(&mut m, "Artifact immutability violated: artifact_id=");
            push_str(&mut m, artifact_id.as_str());
            push_str(&mut m, ", reason=");
            push_str(&mut m, reason.as_str());
        },
        InvariantViolation::EventOrderingViolation { reason } => {
            push_str(&mut m, "Event ordering violated: ");
            push_str(&mut m, reason.as_str());
        },
        InvariantViolation::Custom { name, reason } => {
            push_str(&mut m, "Invariant '");
            push_str(&mut m, name.as_str());
            push_str(&mut m, "' violated: ");
            push_str(&mut m, reason.as_str());
        },
        InvariantViolation::Multiple { violations } => {
            push_str(&mut m, "Multiple invariants violated: ");
            let ghost vs = v@->violations;
            let ghost start = m@;
            let mut i: usize = 0;
            while i < violations.len()
                invariant
                    i <= violations@.len(),
                    v is Multiple,
                    v->violations == *violations,
                    vs.len() == violations@.len(),
                    forall|k: int| 0 <= k < vs.len() ==> vs[k] == (#[trigger] violations@[k])@,
                    m@ == start + joined_texts(vs.take(i as int)),
                decreases violations@.len() - i,
            {
                proof {
                    assert(decreases_to!(*v => v->violations));
                    assert(decreases_to!(v->violations => v->violations@));
                    assert(decreases_to!(v->violations@ => v->violations@[i as int]));
                }
                let t = violation_message(&violations[i]);
                if i > 0 {
                    push_str(&mut m, "; ");
                }
                push_str(&mut m, t.as_str());
                assert(vs.take(i + 1).drop_last() =~= vs.take(i as int));
                assert(vs.take(i + 1)[i as int] == vs[i as int]);
                assert(m@ =~= start + joined_texts(vs.take(i + 1)));
                i = i + 1;
            }
            assert(vs.take(i as int) =~= vs);
        },
    }
    assert(m@ =~= violation_text(v@));
    m
}

/// What an execution works on besides the operation.
pub struct ExecutionContext {
    pub ontology: OntologyState,
    pub metadata: StrMap<JsonValue>,
    pub policy_epoch: u64,
}

impl ExecutionContext {
    /// A context without metadata.
    pub fn new(ontology: OntologyState, policy_epoch: u64) -> (r: Self)
        ensures
            r.ontology == ontology,
            r.metadata.wf(),
            r.metadata.map() == Map::<Seq<char>, JsonValue>::empty(),
            r.policy_epoch == policy_epoch,
    {
        ExecutionContext { ontology, metadata: StrMap::new(), policy_epoch }
    }

    /// The context with `value` under `key` in its metadata.
    pub fn with_metadata(self, key: String, value: JsonValue) -> (r: Self)
        requires
            self.metadata.wf(),
        ensures
            r.ontology == self.ontology,
            r.metadata.wf(),
            r.metadata.map() == self.metadata.map().insert(key@, value),
            r.policy_epoch == self.policy_epoch,
    {
        let mut c = self;
        c.metadata.insert(key, value);
        c
    }
}

/// Why the type check refuses `op` on `o`, if it does: a new task that
/// would exceed the task limit, or a missing task.
pub open spec fn type_error(o: OntologyState, op: Operation) -> Option<Seq<char>> {
    match op {
        Operation::CreateTask { task, .. } => {
            if o.task_ids().len() >= o.bounds_view().max_tasks && !o.tasks_view().contains_key(task.id@) {
                Some("Task limit "@ + dec_of(o.bounds_view().max_tasks as nat) + " exceeded, cannot create task "@ + task.id@)
            } else {
                None
            }
        },
        Operation::SendMessage { task_id, .. } => missing_task(o, task_id@),
        Operation::UpdateTaskState { task_id, .. } => missing_task(o, task_id@),
        Operation::AddArtifact { task_id, .. } => missing_task(o, task_id@),
        _ => None,
    }
}

/// The refusal for a task that `o` does not hold.
pub open spec fn missing_task(o: OntologyState, id: Seq<char>) -> Option<Seq<char>> {
    if o.tasks_view().contains_key(id) {
        None
    } else {
        Some("Task "@ + id + " not found"@)
    }
}

/// The position of the first guard that refuses `input`, or -1.
pub open spec fn first_refusal(gs: Seq<Arc<dyn Guard>>, input: JsonValue, epoch: u64) -> int
    decreases gs.len(),
{
    if gs.len() == 0 {
        -1
    } else {
        let f = first_refusal(gs.drop_last(), input, epoch);
        if f >= 0 {
            f
        } else if !gs.last().admits(input, "operation"@, epoch) {
            gs.len() - 1
        } else {
            -1
        }
    }
}

proof fn lemma_first_refusal_prefix(gs: Seq<Arc<dyn Guard>>, input: JsonValue, epoch: u64, k: int)
    requires
        0 <= k <= gs.len(),
        first_refusal(gs.take(k), input, epoch) >= 0,
    ensures
        first_refusal(gs, input, epoch) == first_refusal(gs.take(k), input, epoch),
    decreases gs.len(),
{
    if k < gs.len() {
        assert(gs.drop_last().take(k) =~= gs.take(k));
        lemma_first_refusal_prefix(gs.drop_last(), input, epoch, k);
    } else {
        assert(gs.take(k) =~= gs);
    }
}

/// The operation can be carried out on `o` and `s`: the task store, the
/// message store and the scheduler accept what it asks of them.
pub open spec fn transform_ok(o: OntologyState, s: Scheduler, op: Operation) -> bool {
    match op {
        Operation::CreateTask { task, .. } => !s.pending_map().contains_key(task.id@),
        Operation::CompleteTask { task_id, station_id } => s.running().contains_key(station_id@)
            && s.running()[station_id@].contains(task_id@),
        Operation::CancelTask { task_id } => s.pending_map().contains_key(task_id@),
        _ => true,
    }
}

/// The task the invariants are checked on after the transformation: the
/// operation's own task for a creation, the stored task for a state update.
pub open spec fn checked_task(op: Operation, o: OntologyState) -> Option<Task> {
    match op {
        Operation::CreateTask { task, .. } => Some(task),
        Operation::UpdateTaskState { task_id, .. } => if o.tasks_view().contains_key(task_id@) {
            Some(o.tasks_view()[task_id@])
        } else {
            None
        },
        _ => None,
    }
}

/// The views of a sequence of tasks.
pub open spec fn task_views(v: Seq<Task>) -> Seq<TaskView> {
    v.map_values(|t: Task| t@)
}

/// The stage names of an execution that got past admission: the
/// transformation stage where it succeeded, then, where the invariants hold,
/// their stage, the delta stage where it succeeded and the receipt stage.
pub open spec fn stages_after_admission(transformed: bool, checked: bool, delta: bool) -> Seq<Seq<char>> {
    let head = seq!["type_check"@, "admission_guard"@] + if transformed {
        seq!["transformations"@]
    } else {
        Seq::empty()
    };
    if !checked {
        head
    } else {
        head + seq!["invariants"@] + (if delta {
            seq!["delta_execution"@]
        } else {
            Seq::empty()
        }) + seq!["receipt_emission"@]
    }
}

/// The scheduler parts a stage can change are as they were.
pub open spec fn same_schedule(a: Scheduler, b: Scheduler) -> bool {
    &&& a.pending_map() == b.pending_map()
    &&& a.running() == b.running()
    &&& a.limits() == b.limits()
}

/// The transformation of `op` took the ontology `o` and the scheduler `s`
/// to `o2` and `s2`.
pub open spec fn transformed(o: OntologyState, s: Scheduler, op: Operation, o2: OntologyState, s2: Scheduler) -> bool {
    match op {
        Operation::CreateTask { task, initial_message, priority } => {
            &&& o2.tasks_view().contains_key(task.id@)
            &&& o2.tasks_view()[task.id@]@ == task@
            &&& match initial_message {
                Some(m) => o2.history(task.id@).len() > 0 && o2.history(task.id@).last()@ == m@,
                None => o2.messages_view() == o.messages_view(),
            }
            &&& if transform_ok(o, s, op) {
                &&& s2.pending_map().contains_key(task.id@)
                &&& s2.pending_map()[task.id@].station_id@ == "default"@
                &&& s2.pending_map()[task.id@].epoch == s.epoch()
                &&& s2.pending_map()[task.id@].priority == match priority {
                    Some(p) => p,
                    None => PriorityClass::Normal,
                }
            } else {
                same_schedule(s, s2)
            }
        },
        Operation::SendMessage { task_id, message } => {
            &&& o2.tasks_view() == o.tasks_view()
            &&& o2.history(task_id@).len() > 0
            &&& o2.history(task_id@).last()@ == message@
            &&& same_schedule(s, s2)
        },
        Operation::UpdateTaskState { task_id, state } => {
            &&& o2.tasks_view().contains_key(task_id@)
            &&& o2.tasks_view()[task_id@]@ == crate::ontology::with_state(o.tasks_view()[task_id@]@, state)
            &&& o2.messages_view() == o.messages_view()
            &&& same_schedule(s, s2)
        },
        Operation::AddArtifact { .. } => o2 == o && same_schedule(s, s2),
        Operation::CompleteTask { task_id, station_id } => {
            &&& o2 == o
            &&& s2.pending_map() == s.pending_map()
            &&& !transform_ok(o, s, op) ==> s2.running() == s.running()
            &&& transform_ok(o, s, op) ==> removed_first(s.running()[station_id@], task_id@, s2.running()[station_id@])
        },
        Operation::CancelTask { task_id } => {
            &&& o2 == o
            &&& s2.running() == s.running()
            &&& s2.pending_map() == s.pending_map().remove(task_id@)
        },
    }
}

/// The compact JSON text of an operation, as recorded in receipts.
pub fn operation_text(op: &Operation) -> (r: String)
    ensures
        r@ == view_text(operation_json(*op)),
{
    let j = operation_to_json(op);
    let r = to_json_string(&j);
    proof { lemma_text_of_view(j); }
    r
}

/// What one execution of `op` does, from runtime `old` to runtime `new`,
/// with `out` as its output and `input` as the operation's JSON:
/// - a type error stops it at once, with that error and no stage, and
///   changes nothing;
/// - else the first guard that refuses `input` stops it after the type
///   check stage, with an admission error, and changes nothing;
/// - else the transformation is applied; a failed transformation is
///   reported and the pipeline goes on; where the invariants fail on the
///   task they check, the execution stops with their violation; else the
///   delta is applied unless the ontology holds more tasks than the update
///   limit, and the receipt stage ends it.
/// The execution succeeds iff no error was met.
pub open spec fn pipeline(old: Runtime, op: Operation, input: JsonValue, out: RuntimeOutput, new: Runtime) -> bool {
    let stages = strings_view(out.receipt.stages_completed@);
    let refusal = first_refusal(old.guard_list(), input, old.epoch_of());
    &&& out.receipt.policy_epoch == old.epoch_of()
    &&& out.receipt.success == (out.errors@.len() == 0)
    &&& match type_error(old.onto(), op) {
        Some(m) => {
            &&& out.errors@.len() == 1
            &&& out.errors@[0] matches RuntimeError::TypeCheckFailed { message } && message@ == m
            &&& stages == Seq::<Seq<char>>::empty()
            &&& out.tasks@.len() == 0 && out.events@.len() == 0 && out.artifacts@.len() == 0
            &&& new.onto() == old.onto() && new.sched() == old.sched()
        },
        None => if refusal >= 0 {
            &&& out.errors@.len() == 1
            &&& out.errors@[0] is AdmissionDenied
            &&& stages == seq!["type_check"@]
            &&& out.events@.len() == refusal + 1
            &&& out.tasks@.len() == 0 && out.artifacts@.len() == 0
            &&& new.onto() == old.onto() && new.sched() == old.sched()
        } else {
            let transformed_ok = transform_ok(old.onto(), old.sched(), op);
            let checked = old.checks_pass(op, new.onto());
            let delta_ok = new.onto().task_ids().len() <= old.limit_of();
            &&& transformed(old.onto(), old.sched(), op, new.onto(), new.sched())
            &&& stages == stages_after_admission(transformed_ok, checked, delta_ok)
            &&& task_views(out.tasks@) == task_views(new.onto().task_list())
            &&& if !checked {
                out.errors@.len() == 1 && out.errors@[0] is InvariantViolation
            } else {
                &&& out.errors@.len() == (if transformed_ok { 0int } else { 1int }) + (if delta_ok { 0int } else { 1int })
                &&& !delta_ok ==> out.errors@.last() == (RuntimeError::BoundedUpdateExceeded { limit: old.limit_of() })
                &&& match op {
                    Operation::AddArtifact { artifact, .. } => if delta_ok {
                        out.artifacts@.len() == 1 && out.artifacts@[0]@ == artifact@
                    } else {
                        out.artifacts@.len() == 0
                    },
                    _ => out.artifacts@.len() == 0,
                }
            }
        }
    }
}

/// One execution of `op` took runtime `old` to `new` with output `out`,
/// as `pipeline` describes, on the operation's JSON.
pub open spec fn executed(old: Runtime, op: Operation, out: RuntimeOutput, new: Runtime) -> bool {
    exists|input: JsonValue| jview(input) == operation_json(op) && #[trigger] pipeline(old, op, input, out, new)
}

/// An operation that the type check refuses, or that a guard refuses,
/// leaves the ontology and the scheduler as they were, and its execution
/// fails.
pub proof fn lemma_refusal_changes_nothing(old: Runtime, op: Operation, out: RuntimeOutput, new: Runtime)
    requires
        executed(old, op, out, new),
        type_error(old.onto(), op) is Some || forall|v: JsonValue| jview(v) == operation_json(op) ==> #[trigger] first_refusal(
            old.guard_list(),
            v,
            old.epoch_of(),
        ) >= 0,
    ensures
        new.onto() == old.onto(),
        new.sched() == old.sched(),
        !out.receipt.success,
{
    let input = choose|input: JsonValue| jview(input) == operation_json(op) && #[trigger] pipeline(old, op, input, out, new);
    assert(pipeline(old, op, input, out, new));
}

/// The runtime: the ontology, a scheduler, admission guards, invariants,
/// a policy epoch and a bound on the number of tasks an update may leave.
pub struct Runtime {
    ontology: OntologyState,
    scheduler: Scheduler,
    guards: Vec<Arc<dyn Guard>>,
    invariants: InvariantRegistry<Task>,
    policy_epoch: u64,
    update_limit: usize,
}

impl Runtime {
    /// The ontology.
    pub closed spec fn onto(&self) -> OntologyState {
        self.ontology
    }

    /// The scheduler.
    pub closed spec fn sched(&self) -> Scheduler {
        self.scheduler
    }

    /// The admission guards, in the order they are asked.
    pub closed spec fn guard_list(&self) -> Seq<Arc<dyn Guard>> {
        self.guards@
    }

    /// The task invariants.
    pub closed spec fn registry(&self) -> InvariantRegistry<Task> {
        self.invariants
    }

    /// The policy epoch.
    pub closed spec fn epoch_of(&self) -> u64 {
        self.policy_epoch
    }

    /// The most tasks an update may leave.
    pub closed spec fn limit_of(&self) -> usize {
        self.update_limit
    }

    /// The parts are well formed and a task keeps at least one message.
    pub closed spec fn wf(&self) -> bool {
        &&& self.ontology.wf()
        &&& self.scheduler.wf()
        &&& self.invariants.wf()
        &&& self.ontology.bounds_view().max_messages_per_task > 0
    }

    /// The invariants hold of the task checked after `op`, on `o`.
    pub open spec fn checks_pass(&self, op: Operation, o: OntologyState) -> bool {
        match checked_task(op, o) {
            Some(t) => failures(self.registry().invariants_view(), t).len() == 0,
            None => true,
        }
    }

    /// A runtime from its parts, at policy epoch 0 with an update limit of 1000.
    pub fn new(ontology: OntologyState, scheduler: Scheduler, guards: Vec<Arc<dyn Guard>>, invariants: InvariantRegistry<Task>) -> (r: Self)
        requires
            ontology.wf(),
            scheduler.wf(),
            invariants.wf(),
            ontology.bounds_view().max_messages_per_task > 0,
        ensures
            r.wf(),
            r.onto() == ontology,
            r.sched() == scheduler,
            r.guard_list() == guards@,
            r.registry() == invariants,
            r.epoch_of() == 0,
            r.limit_of() == 1000,
    {
        Runtime { ontology, scheduler, guards, invariants, policy_epoch: 0, update_limit: 1000 }
    }

    /// A runtime with an empty ontology, a scheduler with a limit of 10
    /// running tasks per station, no guard and no invariant.
    pub fn default_runtime() -> (r: Self)
        ensures
            r.wf(),
            r.onto().task_ids().len() == 0,
            r.onto().tasks_view() == Map::<Seq<char>, Task>::empty(),
            r.sched().pending_map() == Map::<Seq<char>, ScheduledTask>::empty(),
            r.guard_list().len() == 0,
            r.registry().invariants_view().len() == 0,
            r.epoch_of() == 0,
            r.limit_of() == 1000,
    {
        let ontology = OntologyState::new();
        let scheduler = Scheduler::new(10);
        let guards: Vec<Arc<dyn Guard>> = Vec::new();
        let invariants: InvariantRegistry<Task> = InvariantRegistry::new();
        Self::new(ontology, scheduler, guards, invariants)
    }

    /// The runtime at policy epoch `epoch`.
    pub fn with_policy_epoch(self, epoch: u64) -> (r: Self)
        ensures
            r.onto() == self.onto(),
            r.sched() == self.sched(),
            r.guard_list() == self.guard_list(),
            r.registry() == self.registry(),
            r.epoch_of() == epoch,
            r.limit_of() == self.limit_of(),
            r.wf() == self.wf(),
    {
        let mut r = self;
        r.policy_epoch = epoch;
        r
    }

    /// The runtime with update limit `limit`.
    pub fn with_update_limit(self, limit: usize) -> (r: Self)
        ensures
            r.onto() == self.onto(),
            r.sched() == self.sched(),
            r.guard_list() == self.guard_list(),
            r.registry() == self.registry(),
            r.epoch_of() == self.epoch_of(),
            r.limit_of() == limit,
            r.wf() == self.wf(),
    {
        let mut r = self;
        r.update_limit = limit;
        r
    }

    /// The ontology.
    pub fn ontology(&self) -> (r: &OntologyState)
        ensures
            *r == self.onto(),
    {
        &self.ontology
    }

    /// The ontology, to change.
    pub fn ontology_mut(&mut self) -> (r: &mut OntologyState)
        ensures
            *r == old(self).onto(),
            final(self).onto() == *final(r),
            final(self).sched() == old(self).sched(),
            final(self).guard_list() == old(self).guard_list(),
            final(self).registry() == old(self).registry(),
            final(self).epoch_of() == old(self).epoch_of(),
            final(self).limit_of() == old(self).limit_of(),
    {
        &mut self.ontology
    }

    /// The scheduler.
    pub fn scheduler(&self) -> (r: &Scheduler)
        ensures
            *r == self.sched(),
    {
        &self.scheduler
    }

    /// The scheduler, to change.
    pub fn scheduler_mut(&mut self) -> (r: &mut Scheduler)
        ensures
            *r == old(self).sched(),
            final(self).sched() == *final(r),
            final(self).onto() == old(self).onto(),
            final(self).guard_list() == old(self).guard_list(),
            final(self).registry() == old(self).registry(),
            final(self).epoch_of() == old(self).epoch_of(),
            final(self).limit_of() == old(self).limit_of(),
    {
        &mut self.scheduler
    }

    fn type_check(&self, operation: &Operation) -> (r: Result<(), RuntimeError>)
        requires
            self.wf(),
        ensures
            match type_error(self.onto(), *operation) {
                Some(m) => r matches Err(RuntimeError::TypeCheckFailed { message }) && message@ == m,
                None => r is Ok,
            },
    {
        match operation {
            Operation::CreateTask { task, .. } => {
                let task_count = self.ontology.task_count();
                let max_tasks = self.ontology.bounds().max_tasks;
                if task_count >= max_tasks && self.ontology.get_task(task.id.as_str()).is_none() {
                    let mut message = owned("Task limit ");
                    push_decimal(max_tasks as u64, &mut message);
                    push_str(&mut message, " exceeded, cannot create task ");
                    push_str(&mut message, task.id.as_str());
                    return Err(RuntimeError::TypeCheckFailed { message });
                }
            },
            Operation::SendMessage { task_id, .. } | Operation::UpdateTaskState { task_id, .. }
            | Operation::AddArtifact { task_id, .. } => {
                if self.ontology.get_task(task_id.as_str()).is_none() {
                    let mut message = owned("Task ");
                    push_str(&mut message, task_id.as_str());
                    push_str(&mut message, " not found");
                    return Err(RuntimeError::TypeCheckFailed { message });
                }
            },
            _ => {},
        }
        Ok(())
    }

    fn check_guards(&self, input: &JsonValue, events: &mut Vec<RuntimeEvent>) -> (r: Result<(), RuntimeError>)
        ensures
            ({
                let f = first_refusal(self.guard_list(), *input, self.epoch_of());
                &&& (r is Ok) == (f < 0)
                &&& r is Err ==> r->Err_0 is AdmissionDenied
                &&& final(events)@.len() == old(events)@.len() + if f < 0 { self.guard_list().len() as int } else { f + 1 }
            }),
    {
        let timestamp = now_rfc3339();
        let ghost gs = self.guards@;
        let ghost start = events@.len();
        let mut i: usize = 0;
        while i < self.guards.len()
            invariant
                i <= gs.len(),
                gs == self.guards@,
                first_refusal(gs.take(i as int), *input, self.policy_epoch) < 0,
                events@.len() == start + i,
                start == old(events)@.len(),
            decreases gs.len() - i,
        {
            let guard = &self.guards[i];
            assert(gs.take(i + 1).drop_last() =~= gs.take(i as int));
            assert(gs.take(i + 1).last() == gs[i as int]);
            match guard.check(input, "operation", self.policy_epoch) {
                Ok(()) => {
                    events.push(RuntimeEvent::GuardEvaluated {
                        guard: owned(guard.name()),
                        admitted: true,
                        timestamp: timestamp.clone(),
                    });
                },
                Err(receipt) => {
                    events.push(RuntimeEvent::GuardEvaluated {
                        guard: owned(guard.name()),
                        admitted: false,
                        timestamp: timestamp.clone(),
                    });
                    proof {
                        assert(!gs[i as int].admits(*input, "operation"@, self.policy_epoch));
                        assert(first_refusal(gs.take(i + 1), *input, self.policy_epoch) == i);
                        lemma_first_refusal_prefix(gs, *input, self.policy_epoch, i + 1);
                    }
                    return Err(RuntimeError::AdmissionDenied { receipt: receipt.to_display_string() });
                },
            }
            i = i + 1;
        }
        assert(gs.take(i as int) =~= gs);
        Ok(())
    }

    fn apply_transformations(&mut self, operation: &Operation, events: &mut Vec<RuntimeEvent>) -> (r: Result<(), RuntimeError>)
        requires
            old(self).wf(),
            type_error(old(self).onto(), *operation) is None,
        ensures
            final(self).wf(),
            final(self).guard_list() == old(self).guard_list(),
            final(self).registry() == old(self).registry(),
            final(self).epoch_of() == old(self).epoch_of(),
            final(self).limit_of() == old(self).limit_of(),
            (r is Ok) == transform_ok(old(self).onto(), old(self).sched(), *operation),
            transformed(old(self).onto(), old(self).sched(), *operation, final(self).onto(), final(self).sched()),
    {
        let timestamp = now_rfc3339();
        match operation {
            Operation::CreateTask { task, initial_message, priority } => {
                match self.ontology.put_task(task.clone()) {
                    Ok(()) => {},
                    Err(e) => {
                        let mut message = owned("Failed to add task to ontology: ");
                        push_str(&mut message, a2a_error_message(&e).as_str());
                        return Err(RuntimeError::TransformationFailed { message });
                    },
                }
                match initial_message {
                    Some(msg) => {
                        match self.ontology.add_message(task.id.as_str(), msg.clone()) {
                            Ok(()) => {},
                            Err(e) => {
                                let mut message = owned("Failed to add initial message: ");
                                push_str(&mut message, a2a_error_message(&e).as_str());
                                return Err(RuntimeError::TransformationFailed { message });
                            },
                        }
                    },
                    None => {},
                }
                let p = match priority {
                    Some(p) => *p,
                    None => PriorityClass::Normal,
                };
                let scheduled = ScheduledTask::new(task.id.clone(), owned("default"), self.scheduler.current_epoch(), p);
                match self.scheduler.submit(scheduled) {
                    Ok(()) => {},
                    Err(e) => {
                        return Err(RuntimeError::SchedulerError { message: e.message() });
                    },
                }
                events.push(RuntimeEvent::TaskCreated {
                    task_id: task.id.clone(),
                    station_id: owned("default"),
                    epoch: self.scheduler.current_epoch(),
                    timestamp,
                });
            },
            Operation::SendMessage { task_id, message } => {
                match self.ontology.add_message(task_id.as_str(), message.clone()) {
                    Ok(()) => {},
                    Err(e) => {
                        let mut m = owned("Failed to add message: ");
                        push_str(&mut m, a2a_error_message(&e).as_str());
                        return Err(RuntimeError::TransformationFailed { message: m });
                    },
                }
            },
            Operation::UpdateTaskState { task_id, state } => {
                self.ontology.set_task_state(task_id.as_str(), *state);
            },
            Operation::AddArtifact { .. } => {},
            Operation::CompleteTask { task_id, station_id } => {
                match self.scheduler.complete(task_id.as_str(), station_id.as_str()) {
                    Ok(()) => {},
                    Err(e) => {
                        return Err(RuntimeError::SchedulerError { message: e.message() });
                    },
                }
            },
            Operation::CancelTask { task_id } => {
                match self.scheduler.cancel(task_id.as_str()) {
                    Ok(_) => {},
                    Err(e) => {
                        assert(self.sched().pending_map() =~= old(self).sched().pending_map().remove(task_id@));
                        return Err(RuntimeError::SchedulerError { message: e.message() });
                    },
                }
            },
        }
        Ok(())
    }

    fn check_invariants(&self, operation: &Operation, events: &mut Vec<RuntimeEvent>) -> (r: Result<(), RuntimeError>)
        requires
            self.wf(),
        ensures
            (r is Ok) == self.checks_pass(*operation, self.onto()),
            r is Err ==> r->Err_0 is InvariantViolation,
    {
        let timestamp = now_rfc3339();
        let outcome = match operation {
            Operation::CreateTask { task, .. } => self.invariants.check_all(task),
            Operation::UpdateTaskState { task_id, .. } => match self.ontology.get_task(task_id.as_str()) {
                Some(task) => self.invariants.check_all(task),
                None => {
                    return Ok(());
                },
            },
            _ => {
                return Ok(());
            },
        };
        match outcome {
            Ok(()) => {
                events.push(RuntimeEvent::InvariantChecked {
                    invariant: owned("task_invariants"),
                    passed: true,
                    timestamp,
                });
                Ok(())
            },
            Err(violation) => {
                events.push(RuntimeEvent::InvariantChecked {
                    invariant: owned("task_invariants"),
                    passed: false,
                    timestamp,
                });
                Err(RuntimeError::InvariantViolation { violation: violation_message(&violation) })
            },
        }
    }

    fn execute_delta(&self, operation: &Operation, events: &mut Vec<RuntimeEvent>, artifacts: &mut Vec<Artifact>) -> (r:
        Result<(), RuntimeError>)
        requires
            self.wf(),
        ensures
            (r is Ok) == (self.onto().task_ids().len() <= self.limit_of()),
            r is Err ==> r == Err::<(), RuntimeError>(RuntimeError::BoundedUpdateExceeded { limit: self.limit_of() }),
            match (r, *operation) {
                (Ok(()), Operation::AddArtifact { artifact, .. }) => final(artifacts)@.len() == old(artifacts)@.len() + 1
                    && final(artifacts)@.last()@ == artifact@ && final(artifacts)@.drop_last() == old(artifacts)@,
                _ => final(artifacts)@ == old(artifacts)@,
            },
    {
        if self.ontology.task_count() > self.update_limit {
            return Err(RuntimeError::BoundedUpdateExceeded { limit: self.update_limit });
        }
        let timestamp = now_rfc3339();
        match operation {
            Operation::SendMessage { task_id, message } => {
                events.push(RuntimeEvent::MessageProcessed {
                    task_id: task_id.clone(),
                    message_id: message.message_id.clone(),
                    timestamp,
                });
            },
            Operation::UpdateTaskState { task_id, state } => {
                match self.ontology.get_task(task_id.as_str()) {
                    Some(task) => {
                        events.push(RuntimeEvent::TaskStateChanged {
                            task_id: task_id.clone(),
                            old_state: task.status.state,
                            new_state: *state,
                            timestamp,
                        });
                    },
                    None => {},
                }
            },
            Operation::AddArtifact { task_id, artifact } => {
                let ghost before = artifacts@;
                artifacts.push(artifact.clone());
                assert(artifacts@.drop_last() =~= before);
                let name = match &artifact.name {
                    Some(n) => n.clone(),
                    None => String::new(),
                };
                events.push(RuntimeEvent::ArtifactAdded { task_id: task_id.clone(), artifact_name: name, timestamp });
            },
            _ => {},
        }
        Ok(())
    }

    fn collect_tasks(&self) -> (r: Vec<Task>)
        requires
            self.wf(),
        ensures
            task_views(r@) == task_views(self.onto().task_list()),
    {
        let all = self.ontology.get_all_tasks();
        proof {
            self.ontology.lemma_wf();
        }
        let mut r: Vec<Task> = Vec::new();
        let mut i: usize = 0;
        while i < all.len()
            invariant
                i <= all@.len(),
                all@.len() == self.onto().task_ids().len(),
                self.onto().task_ids().len() == self.onto().task_list().len(),
                forall|k: int| 0 <= k < all@.len() ==> *all@[k] == self.onto().task_list()[k],
                task_views(r@) == task_views(self.onto().task_list()).take(i as int),
            decreases all@.len() - i,
        {
            let ghost before = r@;
            r.push(all[i].clone());
            assert(task_views(r@) =~= task_views(before).push(self.onto().task_list()[i as int]@));
            assert(task_views(self.onto().task_list()).take(i + 1) =~= task_views(self.onto().task_list()).take(
                i as int,
            ).push(self.onto().task_list()[i as int]@));
            i = i + 1;
        }
        assert(task_views(self.onto().task_list()).take(i as int) =~= task_views(self.onto().task_list()));
        r
    }

    fn create_receipt(&self, execution_id: String, operation: &Operation, start: &std::time::Instant, stages_completed: Vec<String>, success: bool) -> (r:
        ExecutionReceipt)
        ensures
            r.execution_id == execution_id,
            r.stages_completed == stages_completed,
            r.success == success,
            r.policy_epoch == self.epoch_of(),
            r.operation@ == view_text(operation_json(*operation)),
    {
        let nanos = duration_nanos(&instant_elapsed(start));
        let ms = nanos / 1_000_000 + if nanos % 1_000_000 > 0 { 1 } else { 0 };
        let duration_ms: u64 = if ms > 0xffff_ffff_ffff_ffff { 0xffff_ffff_ffff_ffff } else { ms as u64 };
        ExecutionReceipt {
            execution_id,
            operation: operation_text(operation),
            timestamp: now_rfc3339(),
            duration_ms,
            stages_completed,
            success,
            policy_epoch: self.policy_epoch,
        }
    }

    /// Carries `operation` through the pipeline: type check, admission
    /// guards, transformation, invariants, delta and receipt.
    pub fn handle(&mut self, operation: Operation) -> (r: Result<RuntimeOutput, RuntimeError>)
        requires
            old(self).wf(),
        ensures
            final(self).wf(),
            final(self).guard_list() == old(self).guard_list(),
            final(self).registry() == old(self).registry(),
            final(self).epoch_of() == old(self).epoch_of(),
            final(self).limit_of() == old(self).limit_of(),
            r matches Ok(out) && executed(*old(self), operation, out, *final(self)),
    {
        let out = self.execute(operation);
        Ok(out)
    }

    fn execute(&mut self, operation: Operation) -> (out: RuntimeOutput)
        requires
            old(self).wf(),
        ensures
            final(self).wf(),
            final(self).guard_list() == old(self).guard_list(),
            final(self).registry() == old(self).registry(),
            final(self).epoch_of() == old(self).epoch_of(),
            final(self).limit_of() == old(self).limit_of(),
            executed(*old(self), operation, out, *final(self)),
    {
        let start = instant_now();
        let execution_id = new_uuid();
        let mut stages: Vec<String> = Vec::new();
        let mut events: Vec<RuntimeEvent> = Vec::new();
        let mut errors: Vec<RuntimeError> = Vec::new();
        let mut artifacts: Vec<Artifact> = Vec::new();
        let input = operation_to_json(&operation);
        let ghost before = *self;
        match self.type_check(&operation) {
            Ok(()) => {},
            Err(e) => {
                let mut errs: Vec<RuntimeError> = Vec::new();
                errs.push(e);
                let receipt = self.create_receipt(execution_id, &operation, &start, stages, false);
                let out = RuntimeOutput { tasks: Vec::new(), events: Vec::new(), artifacts: Vec::new(), errors: errs, receipt };
                assert(strings_view(out.receipt.stages_completed@) =~= Seq::<Seq<char>>::empty());
                assert(pipeline(*old(self), operation, input, out, *self));
                assert(executed(*old(self), operation, out, *self));
                return out;
            },
        }
        stages.push(owned("type_check"));
        match self.check_guards(&input, &mut events) {
            Ok(()) => {
                stages.push(owned("admission_guard"));
            },
            Err(e) => {
                let mut errs: Vec<RuntimeError> = Vec::new();
                errs.push(e);
                let receipt = self.create_receipt(execution_id, &operation, &start, stages, false);
                let out = RuntimeOutput { tasks: Vec::new(), events, artifacts: Vec::new(), errors: errs, receipt };
                assert(strings_view(out.receipt.stages_completed@) =~= seq!["type_check"@]);
                assert(pipeline(*old(self), operation, input, out, *self));
                assert(executed(*old(self), operation, out, *self));
                return out;
            },
        }
        let transformed_ok = match self.apply_transformations(&operation, &mut events) {
            Ok(()) => {
                stages.push(owned("transformations"));
                true
            },
            Err(e) => {
                errors.push(e);
                false
            },
        };
        let ghost head = strings_view(stages@);
        assert(head =~= stages_after_admission(transformed_ok, false, false));
        match self.check_invariants(&operation, &mut events) {
            Ok(()) => {},
            Err(e) => {
                let mut errs: Vec<RuntimeError> = Vec::new();
                errs.push(e);
                let tasks = self.collect_tasks();
                let receipt = self.create_receipt(execution_id, &operation, &start, stages, false);
                let out = RuntimeOutput { tasks, events, artifacts, errors: errs, receipt };
                assert(pipeline(*old(self), operation, input, out, *self));
                assert(executed(*old(self), operation, out, *self));
                return out;
            },
        }
        stages.push(owned("invariants"));
        let delta_ok = match self.execute_delta(&operation, &mut events, &mut artifacts) {
            Ok(()) => {
                stages.push(owned("delta_execution"));
                true
            },
            Err(e) => {
                errors.push(e);
                false
            },
        };
        let success = errors.len() == 0;
        stages.push(owned("receipt_emission"));
        assert(strings_view(stages@) =~= stages_after_admission(transformed_ok, true, delta_ok));
        let tasks = self.collect_tasks();
        let receipt = self.create_receipt(execution_id, &operation, &start, stages, success);
        let out = RuntimeOutput { tasks, events, artifacts, errors, receipt };
        assert(pipeline(before, operation, input, out, *self));
        assert(executed(before, operation, out, *self));
        out
    }
}

} // verus!
