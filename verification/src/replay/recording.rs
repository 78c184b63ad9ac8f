//! Recording executions with state snapshots, replaying them on a runtime,
//! and comparing the outcomes.
use vstd::prelude::*;
use vstd::utf8::encode_utf8;
use crate::artifacts::text_digest;
use crate::digest::sha256_hex_of;
use crate::domain::{Artifact, Message, Task};
use crate::invariants::dsl::{artifact_json, artifact_to_json, message_json, message_to_json, task_json, task_to_json};
use crate::json::{
    JsonValue, JsonView, items_view, jview, lemma_items_push, lemma_members_push, lemma_text_of_view, members_view,
    push_member, to_json_string, view_text,
};
use crate::receipts::{Receipt, ReceiptChain, ReceiptError, ReceiptErrorView, chain_outcome, fresh_receipt, outcome_view, receipts_view};
use crate::runtime::executor::{ExecutionReceipt, Operation, Runtime, RuntimeError, RuntimeOutput, executed, operation_json, operation_to_json, runtime_error_text};
use crate::strmap::StrMap;
use crate::text::{dec_of, owned, push_str, str_eq, strings_view};

verus! {

/// The state around an execution step: tasks, messages and artifacts by
/// task id, and metadata, each in key order.
pub struct StateSnapshot {
    pub tasks: StrMap<Task>,
    pub messages: StrMap<Vec<Message>>,
    pub artifacts: StrMap<Vec<Artifact>>,
    pub metadata: StrMap<String>,
}

/// The tasks of a snapshot as a JSON object.
pub open spec fn tasks_object(m: StrMap<Task>) -> JsonView {
    JsonView::Object(Seq::new(m.keys().len(), |i: int| (m.keys()[i], task_json(m.vals()[i]))))
}

/// Messages as a JSON array.
pub open spec fn messages_array(v: Seq<Message>) -> JsonView {
    JsonView::Array(Seq::new(v.len(), |j: int| message_json(v[j])))
}

/// Artifacts as a JSON array.
pub open spec fn artifacts_array(v: Seq<Artifact>) -> JsonView {
    JsonView::Array(Seq::new(v.len(), |j: int| artifact_json(v[j])))
}

/// The messages of a snapshot as a JSON object.
pub open spec fn messages_object(m: StrMap<Vec<Message>>) -> JsonView {
    JsonView::Object(Seq::new(m.keys().len(), |i: int| (m.keys()[i], messages_array(m.vals()[i]@))))
}

/// The artifacts of a snapshot as a JSON object.
pub open spec fn artifacts_object(m: StrMap<Vec<Artifact>>) -> JsonView {
    JsonView::Object(Seq::new(m.keys().len(), |i: int| (m.keys()[i], artifacts_array(m.vals()[i]@))))
}

/// The metadata of a snapshot as a JSON object.
pub open spec fn metadata_object(m: StrMap<String>) -> JsonView {
    JsonView::Object(Seq::new(m.keys().len(), |i: int| (m.keys()[i], JsonView::Str(m.vals()[i]@))))
}

/// A snapshot as JSON, its fields in declaration order.
pub open spec fn snapshot_json(s: StateSnapshot) -> JsonView {
    JsonView::Object(seq![
        ("tasks"@, tasks_object(s.tasks)),
        ("messages"@, messages_object(s.messages)),
        ("artifacts"@, artifacts_object(s.artifacts)),
        ("metadata"@, metadata_object(s.metadata)),
    ])
}

/// The total length of a sequence of vectors.
pub open spec fn lens_total<T>(v: Seq<Vec<T>>) -> nat
    decreases v.len(),
{
    if v.len() == 0 {
        0
    } else {
        lens_total(v.drop_last()) + v.last()@.len()
    }
}

proof fn lemma_lens_total_prefix<T>(v: Seq<Vec<T>>, k: int)
    requires
        0 <= k <= v.len(),
    ensures
        lens_total(v.take(k)) <= lens_total(v),
    decreases v.len(),
{
    if k < v.len() {
        assert(v.drop_last().take(k) =~= v.take(k));
        lemma_lens_total_prefix(v.drop_last(), k);
    } else {
        assert(v.take(k) =~= v);
    }
}

pub(crate) fn total_len<T>(m: &StrMap<Vec<T>>) -> (r: usize)
    requires
        lens_total(m.vals()) <= usize::MAX,
    ensures
        r == lens_total(m.vals()),
{
    let vals = m.values();
    let ghost vs = m.vals();
    let mut total: usize = 0;
    let mut i: usize = 0;
    while i < vals.len()
        invariant
            i <= vals@.len(),
            vals@.len() == vs.len(),
            forall|k: int| 0 <= k < vals@.len() ==> *vals@[k] == vs[k],
            total == lens_total(vs.take(i as int)),
            lens_total(vs) <= usize::MAX,
        decreases vals@.len() - i,
    {
        assert(vs.take(i + 1).drop_last() =~= vs.take(i as int));
        proof {
            lemma_lens_total_prefix(vs, i + 1);
        }
        total = total + vals[i].len();
        i = i + 1;
    }
    assert(vs.take(i as int) =~= vs);
    total
}

proof fn lemma_lens_cloned<T: Clone>(a: Seq<Vec<T>>, b: Seq<Vec<T>>)
    requires
        a.len() == b.len(),
        forall|i: int| 0 <= i < a.len() ==> cloned::<Vec<T>>(a[i], #[trigger] b[i]),
    ensures
        lens_total(a) == lens_total(b),
    decreases a.len(),
{
    if a.len() > 0 {
        let i = a.len() - 1;
        assert(cloned::<Vec<T>>(a[i], b[i]));
        assert(b[i]@.len() == a[i]@.len());
        lemma_lens_cloned(a.drop_last(), b.drop_last());
    }
}

impl Clone for StateSnapshot {
    fn clone(&self) -> (r: Self)
        ensures
            r.tasks.keys() == self.tasks.keys(),
            r.messages.keys() == self.messages.keys(),
            r.artifacts.keys() == self.artifacts.keys(),
            r.metadata.keys() == self.metadata.keys(),
            self.wf() ==> r.wf(),
            self.countable() ==> r.countable(),
    {
        let tasks = self.tasks.clone();
        let messages = self.messages.clone();
        let artifacts = self.artifacts.clone();
        let metadata = self.metadata.clone();
        proof {
            lemma_lens_cloned(self.messages.vals(), messages.vals());
            lemma_lens_cloned(self.artifacts.vals(), artifacts.vals());
        }
        StateSnapshot { tasks, messages, artifacts, metadata }
    }
}

/// Which part of two snapshots differs.
#[derive(Debug, Clone, Copy, PartialEq, Eq, Structural)]
pub enum DifferenceKind {
    TasksMismatch { left_count: usize, right_count: usize },
    MessagesMismatch { left_count: usize, right_count: usize },
    ArtifactsMismatch { left_count: usize, right_count: usize },
    MetadataMismatch,
}

/// How two snapshots differ.
#[derive(Debug, Clone, PartialEq, Eq)]
pub struct SnapshotDiff {
    pub is_identical: bool,
    pub differences: Vec<DifferenceKind>,
}

/// The differences between `a` and `b`: the tasks, the messages and the
/// artifacts are compared by their JSON text, and each part that differs is
/// listed with the counts on both sides.
pub open spec fn differences_of(a: StateSnapshot, b: StateSnapshot) -> Seq<DifferenceKind> {
    let t = if view_text(tasks_object(a.tasks)) != view_text(tasks_object(b.tasks)) {
        seq![DifferenceKind::TasksMismatch {
            left_count: a.tasks.keys().len() as usize,
            right_count: b.tasks.keys().len() as usize,
        }]
    } else {
        Seq::empty()
    };
    let m = if view_text(messages_object(a.messages)) != view_text(messages_object(b.messages)) {
        seq![DifferenceKind::MessagesMismatch {
            left_count: lens_total(a.messages.vals()) as usize,
            right_count: lens_total(b.messages.vals()) as usize,
        }]
    } else {
        Seq::empty()
    };
    let r = if view_text(artifacts_object(a.artifacts)) != view_text(artifacts_object(b.artifacts)) {
        seq![DifferenceKind::ArtifactsMismatch {
            left_count: lens_total(a.artifacts.vals()) as usize,
            right_count: lens_total(b.artifacts.vals()) as usize,
        }]
    } else {
        Seq::empty()
    };
    t + m + r
}

fn tasks_to_json(m: &StrMap<Task>) -> (r: JsonValue)
    requires
        m.wf(),
    ensures
        jview(r) == tasks_object(*m),
{
    let pairs = m.iter_pairs();
    let mut out: Vec<(String, JsonValue)> = Vec::new();
    let mut i: usize = 0;
    let ghost target = Seq::new(m.keys().len(), |k: int| (m.keys()[k], task_json(m.vals()[k])));
    while i < pairs.len()
        invariant
            i <= pairs@.len(),
            pairs@.len() == m.keys().len(),
            m.keys().len() == m.vals().len(),
            forall|k: int| 0 <= k < pairs@.len() ==> (#[trigger] pairs@[k]).0@ == m.keys()[k] && *pairs@[k].1 == m.vals()[k],
            target == Seq::new(m.keys().len(), |k: int| (m.keys()[k], task_json(m.vals()[k]))),
            members_view(out@) == target.take(i as int),
        decreases pairs@.len() - i,
    {
        let (k, t) = pairs[i];
        let x = task_to_json(t);
        let ghost before = out@;
        let key = k.clone();
        let ghost entry = (key, x);
        out.push((key, x));
        proof {
            lemma_members_push(before, entry);
            assert(target.take(i + 1) =~= target.take(i as int).push(target[i as int]));
        }
        assert(members_view(out@) =~= target.take(i + 1));
        i = i + 1;
    }
    assert(target.take(i as int) =~= target);
    JsonValue::Object(out)
}

fn messages_to_json(v: &Vec<Message>) -> (r: JsonValue)
    ensures
        jview(r) == messages_array(v@),
{
    let mut out: Vec<JsonValue> = Vec::new();
    let mut i: usize = 0;
    while i < v.len()
        invariant
            i <= v@.len(),
            items_view(out@) == Seq::new(i as nat, |j: int| message_json(v@[j])),
        decreases v@.len() - i,
    {
        let x = message_to_json(&v[i]);
        let ghost before = out@;
        out.push(x);
        proof {
            lemma_items_push(before, x);
        }
        assert(items_view(out@) =~= Seq::new((i + 1) as nat, |j: int| message_json(v@[j])));
        i = i + 1;
    }
    assert(Seq::new(i as nat, |j: int| message_json(v@[j])) =~= Seq::new(v@.len(), |j: int| message_json(v@[j])));
    JsonValue::Array(out)
}

fn artifacts_to_json(v: &Vec<Artifact>) -> (r: JsonValue)
    ensures
        jview(r) == artifacts_array(v@),
{
    let mut out: Vec<JsonValue> = Vec::new();
    let mut i: usize = 0;
    while i < v.len()
        invariant
            i <= v@.len(),
            items_view(out@) == Seq::new(i as nat, |j: int| artifact_json(v@[j])),
        decreases v@.len() - i,
    {
        let x = artifact_to_json(&v[i]);
        let ghost before = out@;
        out.push(x);
        proof {
            lemma_items_push(before, x);
        }
        assert(items_view(out@) =~= Seq::new((i + 1) as nat, |j: int| artifact_json(v@[j])));
        i = i + 1;
    }
    assert(Seq::new(i as nat, |j: int| artifact_json(v@[j])) =~= Seq::new(v@.len(), |j: int| artifact_json(v@[j])));
    JsonValue::Array(out)
}

fn message_lists_to_json(m: &StrMap<Vec<Message>>) -> (r: JsonValue)
    requires
        m.wf(),
    ensures
        jview(r) == messages_object(*m),
{
    let pairs = m.iter_pairs();
    let mut out: Vec<(String, JsonValue)> = Vec::new();
    let mut i: usize = 0;
    let ghost target = Seq::new(m.keys().len(), |k: int| (m.keys()[k], messages_array(m.vals()[k]@)));
    while i < pairs.len()
        invariant
            i <= pairs@.len(),
            pairs@.len() == m.keys().len(),
            m.keys().len() == m.vals().len(),
            forall|k: int| 0 <= k < pairs@.len() ==> (#[trigger] pairs@[k]).0@ == m.keys()[k] && *pairs@[k].1 == m.vals()[k],
            target == Seq::new(m.keys().len(), |k: int| (m.keys()[k], messages_array(m.vals()[k]@))),
            members_view(out@) == target.take(i as int),
        decreases pairs@.len() - i,
    {
        let (k, t) = pairs[i];
        let x = messages_to_json(t);
        let ghost before = out@;
        let key = k.clone();
        let ghost entry = (key, x);
        out.push((key, x));
        proof {
            lemma_members_push(before, entry);
            assert(target.take(i + 1) =~= target.take(i as int).push(target[i as int]));
        }
        assert(members_view(out@) =~= target.take(i + 1));
        i = i + 1;
    }
    assert(target.take(i as int) =~= target);
    JsonValue::Object(out)
}

fn artifact_lists_to_json(m: &StrMap<Vec<Artifact>>) -> (r: JsonValue)
    requires
        m.wf(),
    ensures
        jview(r) == artifacts_object(*m),
{
    let pairs = m.iter_pairs();
    let mut out: Vec<(String, JsonValue)> = Vec::new();
    let mut i: usize = 0;
    let ghost target = Seq::new(m.keys().len(), |k: int| (m.keys()[k], artifacts_array(m.vals()[k]@)));
    while i < pairs.len()
        invariant
            i <= pairs@.len(),
            pairs@.len() == m.keys().len(),
            m.keys().len() == m.vals().len(),
            forall|k: int| 0 <= k < pairs@.len() ==> (#[trigger] pairs@[k]).0@ == m.keys()[k] && *pairs@[k].1 == m.vals()[k],
            target == Seq::new(m.keys().len(), |k: int| (m.keys()[k], artifacts_array(m.vals()[k]@))),
            members_view(out@) == target.take(i as int),
        decreases pairs@.len() - i,
    {
        let (k, t) = pairs[i];
        let x = artifacts_to_json(t);
        let ghost before = out@;
        let key = k.clone();
        let ghost entry = (key, x);
        out.push((key, x));
        proof {
            lemma_members_push(before, entry);
            assert(target.take(i + 1) =~= target.take(i as int).push(target[i as int]));
        }
        assert(members_view(out@) =~= target.take(i + 1));
        i = i + 1;
    }
    assert(target.take(i as int) =~= target);
    JsonValue::Object(out)
}

fn metadata_to_json(m: &StrMap<String>) -> (r: JsonValue)
    requires
        m.wf(),
    ensures
        jview(r) == metadata_object(*m),
{
    let pairs = m.iter_pairs();
    let mut out: Vec<(String, JsonValue)> = Vec::new();
    let mut i: usize = 0;
    let ghost target = Seq::new(m.keys().len(), |k: int| (m.keys()[k], JsonView::Str(m.vals()[k]@)));
    while i < pairs.len()
        invariant
            i <= pairs@.len(),
            pairs@.len() == m.keys().len(),
            m.keys().len() == m.vals().len(),
            forall|k: int| 0 <= k < pairs@.len() ==> (#[trigger] pairs@[k]).0@ == m.keys()[k] && *pairs@[k].1 == m.vals()[k],
            target == Seq::new(m.keys().len(), |k: int| (m.keys()[k], JsonView::Str(m.vals()[k]@))),
            members_view(out@) == target.take(i as int),
        decreases pairs@.len() - i,
    {
        let (k, t) = pairs[i];
        let x = JsonValue::String(t.clone());
        let ghost before = out@;
        let key = k.clone();
        let ghost entry = (key, x);
        out.push((key, x));
        proof {
            lemma_members_push(before, entry);
            assert(target.take(i + 1) =~= target.take(i as int).push(target[i as int]));
        }
        assert(members_view(out@) =~= target.take(i + 1));
        i = i + 1;
    }
    assert(target.take(i as int) =~= target);
    JsonValue::Object(out)
}

fn same_text(a: &JsonValue, b: &JsonValue) -> (r: bool)
    ensures
        r == (view_text(jview(*a)) == view_text(jview(*b))),
{
    let ta = to_json_string(a);
    let tb = to_json_string(b);
    proof {
        lemma_text_of_view(*a);
        lemma_text_of_view(*b);
    }
    str_eq(ta.as_str(), tb.as_str())
}

impl StateSnapshot {
    /// Every map of the snapshot is well formed.
    pub open spec fn wf(&self) -> bool {
        &&& self.tasks.wf()
        &&& self.messages.wf()
        &&& self.artifacts.wf()
        &&& self.metadata.wf()
    }

    /// The message and artifact counts fit in a `usize`.
    pub open spec fn countable(&self) -> bool {
        &&& lens_total(self.messages.vals()) <= usize::MAX
        &&& lens_total(self.artifacts.vals()) <= usize::MAX
    }

    /// An empty snapshot.
    pub fn empty() -> (r: Self)
        ensures
            r.wf(),
            r.tasks.keys().len() == 0,
            r.messages.keys().len() == 0,
            r.artifacts.keys().len() == 0,
            r.metadata.keys().len() == 0,
    {
        StateSnapshot { tasks: StrMap::new(), messages: StrMap::new(), artifacts: StrMap::new(), metadata: StrMap::new() }
    }

    /// The snapshot as JSON.
    pub fn to_json_value(&self) -> (r: JsonValue)
        requires
            self.wf(),
        ensures
            jview(r) == snapshot_json(*self),
    {
        let mut m: Vec<(String, JsonValue)> = Vec::new();
        push_member(&mut m, "tasks", tasks_to_json(&self.tasks));
        push_member(&mut m, "messages", message_lists_to_json(&self.messages));
        push_member(&mut m, "artifacts", artifact_lists_to_json(&self.artifacts));
        push_member(&mut m, "metadata", metadata_to_json(&self.metadata));
        assert(members_view(m@) =~= seq![
            ("tasks"@, tasks_object(self.tasks)),
            ("messages"@, messages_object(self.messages)),
            ("artifacts"@, artifacts_object(self.artifacts)),
            ("metadata"@, metadata_object(self.metadata)),
        ]);
        JsonValue::Object(m)
    }

    /// The SHA-256 of the snapshot's JSON text, in hexadecimal.
    pub fn compute_hash(&self) -> (r: String)
        requires
            self.wf(),
        ensures
            r@ == text_digest(view_text(snapshot_json(*self))),
    {
        let v = self.to_json_value();
        let text = to_json_string(&v);
        proof {
            lemma_text_of_view(v);
        }
        sha256_hex_of(text.as_str().as_bytes())
    }

    /// How this snapshot differs from `other`.
    pub fn diff(&self, other: &StateSnapshot) -> (r: SnapshotDiff)
        requires
            self.wf(),
            other.wf(),
            self.countable(),
            other.countable(),
        ensures
            r.differences@ == differences_of(*self, *other),
            r.is_identical == (r.differences@.len() == 0),
    {
        let mut differences: Vec<DifferenceKind> = Vec::new();
        if !same_text(&tasks_to_json(&self.tasks), &tasks_to_json(&other.tasks)) {
            differences.push(DifferenceKind::TasksMismatch { left_count: self.tasks.len(), right_count: other.tasks.len() });
        }
        let ghost after_tasks = differences@;
        if !same_text(&message_lists_to_json(&self.messages), &message_lists_to_json(&other.messages)) {
            differences.push(DifferenceKind::MessagesMismatch {
                left_count: total_len(&self.messages),
                right_count: total_len(&other.messages),
            });
        }
        let ghost after_messages = differences@;
        if !same_text(&artifact_lists_to_json(&self.artifacts), &artifact_lists_to_json(&other.artifacts)) {
            differences.push(DifferenceKind::ArtifactsMismatch {
                left_count: total_len(&self.artifacts),
                right_count: total_len(&other.artifacts),
            });
        }
        assert(differences@ =~= differences_of(*self, *other));
        let is_identical = differences.len() == 0;
        SnapshotDiff { is_identical, differences }
    }
}

/// The two execution receipts agree on every field.
pub open spec fn receipts_agree(a: ExecutionReceipt, b: ExecutionReceipt) -> bool {
    &&& a.execution_id@ == b.execution_id@
    &&& a.operation@ == b.operation@
    &&& a.timestamp@ == b.timestamp@
    &&& a.duration_ms == b.duration_ms
    &&& strings_view(a.stages_completed@) == strings_view(b.stages_completed@)
    &&& a.success == b.success
    &&& a.policy_epoch == b.policy_epoch
}

/// One recorded execution step: the operation, the state before and after,
/// the execution receipt, and a hash receipt of the transition.
pub struct RecordedStep {
    pub step_number: usize,
    pub operation: Operation,
    pub state_before: StateSnapshot,
    pub state_after: StateSnapshot,
    pub execution_receipt: ExecutionReceipt,
    pub receipt: Option<Receipt>,
}

/// The two recorded steps agree on their number, operation, execution
/// receipt and hash receipt.
pub open spec fn steps_agree(a: RecordedStep, b: RecordedStep) -> bool {
    &&& a.step_number == b.step_number
    &&& a.operation@ == b.operation@
    &&& receipts_agree(a.execution_receipt, b.execution_receipt)
    &&& match (a.receipt, b.receipt) {
        (Some(x), Some(y)) => x@ == y@,
        (None, None) => true,
        _ => false,
    }
}

/// The snapshots of the step are well formed and can be counted.
pub open spec fn steps_ready(s: RecordedStep) -> bool {
    &&& s.state_before.wf()
    &&& s.state_before.countable()
    &&& s.state_after.wf()
    &&& s.state_after.countable()
}

impl Clone for RecordedStep {
    fn clone(&self) -> (r: Self)
        ensures
            steps_agree(r, *self),
            steps_ready(*self) ==> steps_ready(r),
    {
        RecordedStep {
            step_number: self.step_number,
            operation: self.operation.clone(),
            state_before: self.state_before.clone(),
            state_after: self.state_after.clone(),
            execution_receipt: self.execution_receipt.clone(),
            receipt: match &self.receipt {
                Some(x) => Some(x.clone()),
                None => None,
            },
        }
    }
}

/// The bytes of the JSON text of `v`.
pub open spec fn json_bytes(v: JsonView) -> Seq<u8> {
    encode_utf8(view_text(v))
}

/// Records execution steps, with a hash receipt of each transition in a
/// chain.
pub struct ExecutionRecorder {
    steps: Vec<RecordedStep>,
    receipt_chain: ReceiptChain,
}

impl ExecutionRecorder {
    /// The steps recorded, in order.
    pub closed spec fn recorded(&self) -> Seq<RecordedStep> {
        self.steps@
    }

    /// The chain of transition receipts.
    pub closed spec fn chain(&self) -> ReceiptChain {
        self.receipt_chain
    }

    /// A recorder with no step.
    pub fn new() -> (r: Self)
        ensures
            r.recorded().len() == 0,
            r.chain().receipts@.len() == 0,
    {
        ExecutionRecorder { steps: Vec::new(), receipt_chain: ReceiptChain::new() }
    }

    /// Records a step: it is numbered after the steps before it, and a
    /// receipt of the JSON of the state before, the operation and the state
    /// after is kept with it and appended to the chain.
    pub fn record_step(&mut self, operation: Operation, state_before: StateSnapshot, state_after: StateSnapshot, execution_receipt: ExecutionReceipt)
        requires
            state_before.wf(),
            state_after.wf(),
            old(self).chain().receipts@.len() < u64::MAX,
        ensures
            final(self).recorded().len() == old(self).recorded().len() + 1,
            final(self).recorded().drop_last() == old(self).recorded(),
            ({
                let s = final(self).recorded().last();
                &&& s.step_number == old(self).recorded().len()
                &&& s.operation == operation
                &&& s.state_before == state_before
                &&& s.state_after == state_after
                &&& s.execution_receipt == execution_receipt
                &&& s.receipt matches Some(x) && fresh_receipt(
                    x@,
                    json_bytes(snapshot_json(state_before)),
                    json_bytes(operation_json(operation)),
                    json_bytes(snapshot_json(state_after)),
                )
                &&& final(self).chain().receipts@.len() == old(self).chain().receipts@.len() + 1
                &&& final(self).chain().receipts@.drop_last() == old(self).chain().receipts@
                &&& final(self).chain().receipts@.last().receipt_hash@ == s.receipt->0@.receipt_hash
            }),
    {
        let before_json = state_before.to_json_value();
        let observation = to_json_string(&before_json);
        let action_json = operation_to_json(&operation);
        let action = to_json_string(&action_json);
        let after_json = state_after.to_json_value();
        let delta = to_json_string(&after_json);
        proof {
            lemma_text_of_view(before_json);
            lemma_text_of_view(action_json);
            lemma_text_of_view(after_json);
        }
        let receipt = Receipt::new(observation.as_str().as_bytes(), action.as_str().as_bytes(), delta.as_str().as_bytes());
        self.receipt_chain.add_receipt(receipt.clone());
        let step = RecordedStep {
            step_number: self.steps.len(),
            operation,
            state_before,
            state_after,
            execution_receipt,
            receipt: Some(receipt),
        };
        let ghost before = self.steps@;
        self.steps.push(step);
        assert(self.steps@.drop_last() =~= before);
    }

    /// The steps recorded, in order.
    pub fn steps(&self) -> (r: &[RecordedStep])
        ensures
            r@ == self.recorded(),
    {
        self.steps.as_slice()
    }

    /// The chain of transition receipts.
    pub fn receipt_chain(&self) -> (r: &ReceiptChain)
        ensures
            *r == self.chain(),
    {
        &self.receipt_chain
    }
}

impl Default for ExecutionRecorder {
    fn default() -> (r: Self)
        ensures
            r.recorded().len() == 0,
            r.chain().receipts@.len() == 0,
    {
        Self::new()
    }
}

/// The outcome of replaying one recorded step.
pub struct ReplayResult {
    pub step_number: usize,
    pub recorded_step: RecordedStep,
    pub replay_output: Result<RuntimeOutput, RuntimeError>,
}

/// The text `{}` writes for a boolean.
pub open spec fn bool_text(b: bool) -> Seq<char> {
    if b { "true"@ } else { "false"@ }
}

/// The replay is deterministic: it succeeded as the recording did, through
/// the same stages; or it failed where the recording did not succeed.
pub open spec fn deterministic(r: ReplayResult) -> bool {
    match r.replay_output {
        Ok(out) => r.recorded_step.execution_receipt.success == out.receipt.success
            && strings_view(r.recorded_step.execution_receipt.stages_completed@) == strings_view(out.receipt.stages_completed@),
        Err(_) => !r.recorded_step.execution_receipt.success,
    }
}

/// How the replay differs from the recording, in words.
pub open spec fn replay_differences(r: ReplayResult) -> Seq<Seq<char>> {
    let rec = r.recorded_step.execution_receipt;
    match r.replay_output {
        Ok(out) => {
            (if rec.success != out.receipt.success {
                seq!["Success flag mismatch: recorded="@ + bool_text(rec.success) + ", replay="@ + bool_text(out.receipt.success)]
            } else {
                Seq::empty()
            }) + (if strings_view(rec.stages_completed@) != strings_view(out.receipt.stages_completed@) {
                seq!["Stages completed mismatch"@]
            } else {
                Seq::empty()
            }) + (if rec.operation@ != out.receipt.operation@ {
                seq!["Operation mismatch"@]
            } else {
                Seq::empty()
            })
        },
        Err(e) => if rec.success {
            seq!["Recorded succeeded but replay failed: "@ + runtime_error_text(e)]
        } else {
            Seq::empty()
        },
    }
}

fn bool_str(b: bool) -> (r: &'static str)
    ensures
        r@ == bool_text(b),
{
    if b { "true" } else { "false" }
}

fn same_strings(a: &Vec<String>, b: &Vec<String>) -> (r: bool)
    ensures
        r == (strings_view(a@) == strings_view(b@)),
{
    if a.len() != b.len() {
        assert(strings_view(a@).len() != strings_view(b@).len());
        return false;
    }
    let mut i: usize = 0;
    while i < a.len()
        invariant
            a@.len() == b@.len(),
            i <= a@.len(),
            forall|k: int| 0 <= k < i ==> a@[k]@ == b@[k]@,
        decreases a@.len() - i,
    {
        if !str_eq(a[i].as_str(), b[i].as_str()) {
            assert(strings_view(a@)[i as int] != strings_view(b@)[i as int]);
            return false;
        }
        i = i + 1;
    }
    assert(strings_view(a@) =~= strings_view(b@));
    true
}

impl ReplayResult {
    /// `true` iff the replay matches the recording in outcome and stages.
    pub fn is_deterministic(&self) -> (r: bool)
        ensures
            r == deterministic(*self),
    {
        let rec = &self.recorded_step.execution_receipt;
        match &self.replay_output {
            Ok(out) => rec.success == out.receipt.success && same_strings(&rec.stages_completed, &out.receipt.stages_completed),
            Err(_) => !rec.success,
        }
    }

    /// How the replay differs from the recording.
    pub fn differences(&self) -> (r: Vec<String>)
        ensures
            strings_view(r@) == replay_differences(*self),
    {
        let rec = &self.recorded_step.execution_receipt;
        let mut diffs: Vec<String> = Vec::new();
        match &self.replay_output {
            Ok(out) => {
                if rec.success != out.receipt.success {
                    let mut m = owned("Success flag mismatch: recorded=");
                    push_str(&mut m, bool_str(rec.success));
                    push_str(&mut m, ", replay=");
                    push_str(&mut m, bool_str(out.receipt.success));
                    diffs.push(m);
                }
                let ghost d1 = strings_view(diffs@);
                if !same_strings(&rec.stages_completed, &out.receipt.stages_completed) {
                    diffs.push(owned("Stages completed mismatch"));
                }
                let ghost d2 = strings_view(diffs@);
                if !str_eq(rec.operation.as_str(), out.receipt.operation.as_str()) {
                    diffs.push(owned("Operation mismatch"));
                }
                assert(strings_view(diffs@) =~= replay_differences(*self));
            },
            Err(e) => {
                if rec.success {
                    let mut m = owned("Recorded succeeded but replay failed: ");
                    push_str(&mut m, e.message().as_str());
                    diffs.push(m);
                }
                assert(strings_view(diffs@) =~= replay_differences(*self));
            },
        }
        diffs
    }
}

/// Replays recorded steps on a runtime, one at a time.
pub struct ExecutionReplayer {
    recording: Vec<RecordedStep>,
    current_step: usize,
}

impl ExecutionReplayer {
    /// The steps to replay.
    pub closed spec fn steps_view(&self) -> Seq<RecordedStep> {
        self.recording@
    }

    /// The position of the next step to replay.
    pub closed spec fn position(&self) -> usize {
        self.current_step
    }

    /// A replayer at the first step of `recording`.
    pub fn new(recording: Vec<RecordedStep>) -> (r: Self)
        ensures
            r.steps_view() == recording@,
            r.position() == 0,
    {
        ExecutionReplayer { recording, current_step: 0 }
    }

    /// The number of recorded steps.
    pub fn total_steps(&self) -> (r: usize)
        ensures
            r == self.steps_view().len(),
    {
        self.recording.len()
    }

    /// The position of the next step to replay.
    pub fn current_step(&self) -> (r: usize)
        ensures
            r == self.position(),
    {
        self.current_step
    }

    /// Replays the next step on `runtime`: a copy of its operation is
    /// handled, and the step, copied, is returned with the output. `None`
    /// when every step was replayed.
    pub fn replay_next_step(&mut self, runtime: &mut Runtime) -> (r: Option<ReplayResult>)
        requires
            old(runtime).wf(),
        ensures
            final(runtime).wf(),
            final(self).steps_view() == old(self).steps_view(),
            old(self).position() >= old(self).steps_view().len() ==> r is None && *final(runtime) == *old(runtime)
                && final(self).position() == old(self).position(),
            old(self).position() < old(self).steps_view().len() ==> {
                let rec = old(self).steps_view()[old(self).position() as int];
                &&& final(self).position() == old(self).position() + 1
                &&& r matches Some(res)
                &&& res.step_number == rec.step_number
                &&& steps_agree(res.recorded_step, rec)
                &&& res.replay_output matches Ok(out)
                &&& exists|op: Operation| op@ == rec.operation@ && #[trigger] executed(*old(runtime), op, out, *final(runtime))
            },
    {
        if self.current_step >= self.recording.len() {
            return None;
        }
        let recorded = self.recording[self.current_step].clone();
        self.current_step = self.current_step + 1;
        let op = recorded.operation.clone();
        let ghost op_copy = op;
        let replay_output = runtime.handle(op);
        Some(ReplayResult { step_number: recorded.step_number, recorded_step: recorded, replay_output })
    }

    /// Replays every remaining step, in order.
    pub fn replay_all(&mut self, runtime: &mut Runtime) -> (r: Vec<ReplayResult>)
        requires
            old(runtime).wf(),
        ensures
            final(runtime).wf(),
            final(self).steps_view() == old(self).steps_view(),
            r@.len() == if old(self).position() < old(self).steps_view().len() {
                old(self).steps_view().len() - old(self).position()
            } else {
                0
            },
            forall|i: int| 0 <= i < r@.len() ==> steps_agree(
                (#[trigger] r@[i]).recorded_step,
                old(self).steps_view()[old(self).position() + i],
            ),
    {
        let mut results: Vec<ReplayResult> = Vec::new();
        let ghost start = self.current_step;
        let ghost steps = self.recording@;
        while self.current_step < self.recording.len()
            invariant
                runtime.wf(),
                self.recording@ == steps,
                steps == old(self).steps_view(),
                start == old(self).position(),
                start < steps.len() ==> self.current_step == start + results@.len() && self.current_step <= steps.len(),
                start >= steps.len() ==> results@.len() == 0 && self.current_step == start,
                forall|i: int| 0 <= i < results@.len() ==> steps_agree(
                    (#[trigger] results@[i]).recorded_step,
                    steps[start + i],
                ),
            decreases steps.len() - self.current_step,
        {
            let res = self.replay_next_step(runtime);
            match res {
                Some(x) => {
                    results.push(x);
                },
                None => {},
            }
        }
        results
    }
}

/// Checks of receipt chains.
pub struct ReceiptChainVerifier;

impl ReceiptChainVerifier {
    /// Checks the chain's hashes, links and numbering.
    pub fn verify_chain(chain: &ReceiptChain) -> (r: Result<(), ReceiptError>)
        ensures
            outcome_view(r) == chain_outcome(receipts_view(chain.receipts@)),
    {
        chain.verify_integrity()
    }

    /// `true` iff the chains have the same length and the same receipt hash
    /// at every position.
    pub fn verify_identical_chains(chain1: &ReceiptChain, chain2: &ReceiptChain) -> (r: bool)
        ensures
            r == (chain1.receipts@.len() == chain2.receipts@.len() && forall|i: int|
                0 <= i < chain1.receipts@.len() ==> (#[trigger] chain1.receipts@[i]).receipt_hash@
                    == chain2.receipts@[i].receipt_hash@),
    {
        if chain1.len() != chain2.len() {
            return false;
        }
        let mut i: usize = 0;
        while i < chain1.len()
            invariant
                chain1.receipts@.len() == chain2.receipts@.len(),
                i <= chain1.receipts@.len(),
                forall|k: int| 0 <= k < i ==> (#[trigger] chain1.receipts@[k]).receipt_hash@ == chain2.receipts@[k].receipt_hash@,
            decreases chain1.receipts@.len() - i,
        {
            let r1 = &chain1.receipts[i];
            let r2 = &chain2.receipts[i];
            if !str_eq(r1.receipt_hash.as_str(), r2.receipt_hash.as_str()) {
                return false;
            }
            i = i + 1;
        }
        true
    }
}

} // verus!
