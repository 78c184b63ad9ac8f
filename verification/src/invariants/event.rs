//! The event ordering invariant: a task's status and artifact events come
//! in a valid order, and its history and artifacts are well sequenced.
use vstd::prelude::*;
use super::{Invariant, InvariantResult, InvariantViolation, ViolationView, result_view};
use crate::domain::{
    Artifact, ArtifactView, Message, MessageView, Task, TaskState, TaskView, artifacts_of, artifacts_view,
    history_of, messages_view, state_name, state_name_str,
};
use crate::task_fsm::{TaskStateMachine, is_terminal, valid_transition};
use crate::text::{dec_of, owned, push_decimal, push_str, str_eq, strings_view};
use crate::strmap::StrMap;

verus! {

/// An event in the life of a task. Timestamps count milliseconds since the
/// Unix epoch.
#[derive(Debug, Clone, PartialEq, Eq)]
pub enum TaskEvent {
    /// The task's status changed.
    StatusUpdate { task_id: String, old_state: TaskState, new_state: TaskState, timestamp: i64 },
    /// An artifact was added or extended.
    ArtifactUpdate { task_id: String, artifact_id: String, timestamp: i64, append: bool },
}

/// When the event happened.
pub open spec fn event_time(e: TaskEvent) -> i64 {
    match e {
        TaskEvent::StatusUpdate { timestamp, .. } => timestamp,
        TaskEvent::ArtifactUpdate { timestamp, .. } => timestamp,
    }
}

/// The task the event belongs to.
pub open spec fn event_task(e: TaskEvent) -> Seq<char> {
    match e {
        TaskEvent::StatusUpdate { task_id, .. } => task_id@,
        TaskEvent::ArtifactUpdate { task_id, .. } => task_id@,
    }
}

impl TaskEvent {
    /// When the event happened.
    pub fn timestamp(&self) -> (r: i64)
        ensures
            r == event_time(*self),
    {
        match self {
            TaskEvent::StatusUpdate { timestamp, .. } => *timestamp,
            TaskEvent::ArtifactUpdate { timestamp, .. } => *timestamp,
        }
    }

    /// The task the event belongs to.
    pub fn task_id(&self) -> (r: &str)
        ensures
            r@ == event_task(*self),
    {
        match self {
            TaskEvent::StatusUpdate { task_id, .. } => task_id.as_str(),
            TaskEvent::ArtifactUpdate { task_id, .. } => task_id.as_str(),
        }
    }
}

/// No event is earlier than the one before it.
pub open spec fn chronological(s: Seq<TaskEvent>) -> bool {
    forall|i: int| #![trigger s[i]] 1 <= i < s.len() ==> event_time(s[i - 1]) <= event_time(s[i])
}

/// The events of a task, in the order they were recorded.
#[derive(Debug, Clone)]
pub struct EventSequence {
    events: Vec<TaskEvent>,
}

impl View for EventSequence {
    type V = Seq<TaskEvent>;

    closed spec fn view(&self) -> Seq<TaskEvent> {
        self.events@
    }
}

impl EventSequence {
    /// An empty sequence.
    pub fn new() -> (r: Self)
        ensures
            r@ == Seq::<TaskEvent>::empty(),
    {
        EventSequence { events: Vec::new() }
    }

    /// Appends `event`.
    pub fn push(&mut self, event: TaskEvent)
        ensures
            final(self)@ == old(self)@.push(event),
    {
        self.events.push(event);
    }

    /// The events in order.
    pub fn events(&self) -> (r: &[TaskEvent])
        ensures
            r@ == self@,
    {
        self.events.as_slice()
    }

    /// The number of events.
    pub fn len(&self) -> (r: usize)
        ensures
            r == self@.len(),
    {
        self.events.len()
    }

    /// `true` iff there is no event.
    pub fn is_empty(&self) -> (r: bool)
        ensures
            r == (self@.len() == 0),
    {
        self.events.len() == 0
    }

    /// `true` iff no event is earlier than the one before it.
    pub fn is_chronological(&self) -> (r: bool)
        ensures
            r == chronological(self@),
    {
        let mut i: usize = 1;
        while i < self.events.len()
            invariant
                1 <= i,
                i <= self@.len() || self@.len() == 0,
                self@ == self.events@,
                forall|k: int| #![trigger self@[k]] 1 <= k < i && k < self@.len() ==> event_time(self@[k - 1]) <= event_time(self@[k]),
            decreases self@.len() - i,
        {
            if self.events[i].timestamp() < self.events[i - 1].timestamp() {
                assert(!(event_time(self@[i - 1]) <= event_time(self@[i as int])));
                return false;
            }
            i = i + 1;
        }
        true
    }

    /// The most recent event, if any.
    pub fn last(&self) -> (r: Option<&TaskEvent>)
        ensures
            match r {
                Some(e) => self@.len() > 0 && *e == self@.last(),
                None => self@.len() == 0,
            },
    {
        if self.events.len() == 0 {
            None
        } else {
            Some(&self.events[self.events.len() - 1])
        }
    }
}

impl Default for EventSequence {
    fn default() -> (r: Self)
        ensures
            r@ == Seq::<TaskEvent>::empty(),
    {
        Self::new()
    }
}

/// The terminal state the task reached with its last event, if the last
/// event is a status update to a terminal state.
pub open spec fn terminal_end(s: Seq<TaskEvent>) -> Option<TaskState> {
    if s.len() == 0 {
        None
    } else {
        match s.last() {
            TaskEvent::StatusUpdate { new_state, .. } => if is_terminal(new_state) { Some(new_state) } else { None },
            TaskEvent::ArtifactUpdate { .. } => None,
        }
    }
}

/// What `validate_status_update` answers to a move from `from` to `to`
/// after the events `s`.
pub open spec fn status_update_verdict(from: TaskState, to: TaskState, s: Seq<TaskEvent>) -> Result<(), ViolationView> {
    match terminal_end(s) {
        Some(last) => Err(ViolationView::EventOrderingViolation {
            reason: "Cannot update status after terminal state "@ + state_name(last),
        }),
        None => if valid_transition(from, to) {
            Ok(())
        } else {
            Err(ViolationView::EventOrderingViolation {
                reason: "Invalid state transition in event: "@ + state_name(from) + " -> "@ + state_name(to),
            })
        },
    }
}

/// What `validate_artifact_update` answers after the events `s`.
pub open spec fn artifact_update_verdict(s: Seq<TaskEvent>) -> Result<(), ViolationView> {
    match terminal_end(s) {
        Some(_) => Err(ViolationView::EventOrderingViolation { reason: "Cannot update artifacts after terminal state"@ }),
        None => Ok(()),
    }
}

/// The identifiers of messages, in order.
pub open spec fn message_ids(h: Seq<MessageView>) -> Seq<Seq<char>> {
    h.map_values(|m: MessageView| m.message_id)
}

/// The identifiers of artifacts, in order.
pub open spec fn artifact_id_seq(a: Seq<ArtifactView>) -> Seq<Seq<char>> {
    a.map_values(|x: ArtifactView| x.artifact_id)
}

/// The position of the first empty string of `s`, or -1.
pub open spec fn first_empty(s: Seq<Seq<char>>) -> int
    decreases s.len(),
{
    if s.len() == 0 {
        -1
    } else {
        let f = first_empty(s.drop_last());
        if f >= 0 {
            f
        } else if s.last().len() == 0 {
            s.len() - 1
        } else {
            -1
        }
    }
}

/// The position of the first string of `s` that occurs earlier in `s`, or -1.
pub open spec fn first_repeat(s: Seq<Seq<char>>) -> int
    decreases s.len(),
{
    if s.len() == 0 {
        -1
    } else {
        let f = first_repeat(s.drop_last());
        if f >= 0 {
            f
        } else if s.drop_last().contains(s.last()) {
            s.len() - 1
        } else {
            -1
        }
    }
}

proof fn lemma_first_empty_prefix(s: Seq<Seq<char>>, k: int)
    requires
        0 <= k <= s.len(),
        first_empty(s.take(k)) >= 0,
    ensures
        first_empty(s) == first_empty(s.take(k)),
    decreases s.len(),
{
    if k < s.len() {
        assert(s.drop_last().take(k) =~= s.take(k));
        lemma_first_empty_prefix(s.drop_last(), k);
    } else {
        assert(s.take(k) =~= s);
    }
}

proof fn lemma_first_repeat_prefix(s: Seq<Seq<char>>, k: int)
    requires
        0 <= k <= s.len(),
        first_repeat(s.take(k)) >= 0,
    ensures
        first_repeat(s) == first_repeat(s.take(k)),
    decreases s.len(),
{
    if k < s.len() {
        assert(s.drop_last().take(k) =~= s.take(k));
        lemma_first_repeat_prefix(s.drop_last(), k);
    } else {
        assert(s.take(k) =~= s);
    }
}

/// What the event ordering invariant says of a task: its status is stamped,
/// every message of its history has an identifier, no identifier of a
/// message or of an artifact occurs twice.
pub open spec fn ordering_verdict(t: TaskView) -> Result<(), ViolationView> {
    let mids = message_ids(history_of(t));
    let aids = artifact_id_seq(artifacts_of(t));
    if t.status.timestamp is None {
        Err(ViolationView::EventOrderingViolation { reason: "Task status must have a timestamp"@ })
    } else if first_empty(mids) >= 0 {
        Err(ViolationView::EventOrderingViolation {
            reason: "Message at index "@ + dec_of(first_empty(mids) as nat) + " has empty message_id"@,
        })
    } else if first_repeat(mids) >= 0 {
        Err(ViolationView::EventOrderingViolation {
            reason: "Duplicate message_id in history: "@ + mids[first_repeat(mids)],
        })
    } else if first_repeat(aids) >= 0 {
        Err(ViolationView::EventOrderingViolation {
            reason: "Duplicate artifact_id in task: "@ + aids[first_repeat(aids)],
        })
    } else {
        Ok(())
    }
}

fn message_id_list(h: &Vec<Message>) -> (r: Vec<String>)
    ensures
        strings_view(r@) == message_ids(messages_view(h@)),
{
    let mut r: Vec<String> = Vec::new();
    let mut i: usize = 0;
    while i < h.len()
        invariant
            i <= h@.len(),
            strings_view(r@) == message_ids(messages_view(h@)).take(i as int),
        decreases h@.len() - i,
    {
        let ghost before = r@;
        r.push(h[i].message_id.clone());
        assert(strings_view(r@) =~= strings_view(before).push(h@[i as int].message_id@));
        assert(message_ids(messages_view(h@)).take(i + 1) =~= message_ids(messages_view(h@)).take(i as int).push(
            h@[i as int].message_id@,
        ));
        i = i + 1;
    }
    assert(message_ids(messages_view(h@)).take(i as int) =~= message_ids(messages_view(h@)));
    r
}

fn artifact_id_list(a: &Vec<Artifact>) -> (r: Vec<String>)
    ensures
        strings_view(r@) == artifact_id_seq(artifacts_view(a@)),
{
    let mut r: Vec<String> = Vec::new();
    let mut i: usize = 0;
    while i < a.len()
        invariant
            i <= a@.len(),
            strings_view(r@) == artifact_id_seq(artifacts_view(a@)).take(i as int),
        decreases a@.len() - i,
    {
        let ghost before = r@;
        r.push(a[i].artifact_id.clone());
        assert(strings_view(r@) =~= strings_view(before).push(a@[i as int].artifact_id@));
        assert(artifact_id_seq(artifacts_view(a@)).take(i + 1) =~= artifact_id_seq(artifacts_view(a@)).take(
            i as int,
        ).push(a@[i as int].artifact_id@));
        i = i + 1;
    }
    assert(artifact_id_seq(artifacts_view(a@)).take(i as int) =~= artifact_id_seq(artifacts_view(a@)));
    r
}

/// The position of the first empty string, if any.
fn find_empty(ids: &Vec<String>) -> (r: Option<usize>)
    ensures
        match r {
            Some(i) => i < ids@.len() && first_empty(strings_view(ids@)) == i,
            None => first_empty(strings_view(ids@)) == -1,
        },
{
    let ghost sv = strings_view(ids@);
    let mut i: usize = 0;
    while i < ids.len()
        invariant
            i <= ids@.len(),
            sv == strings_view(ids@),
            first_empty(sv.take(i as int)) == -1,
        decreases ids@.len() - i,
    {
        assert(sv.take(i + 1).drop_last() =~= sv.take(i as int));
        if ids[i].as_str().unicode_len() == 0 {
            assert(sv.take(i + 1).last() == ids@[i as int]@);
            proof {
                lemma_first_empty_prefix(sv, i + 1);
            }
            return Some(i);
        }
        i = i + 1;
    }
    assert(sv.take(i as int) =~= sv);
    None
}

/// `true` iff the string at `j` occurs before `j`.
fn occurs_before(ids: &Vec<String>, j: usize) -> (r: bool)
    requires
        j < ids@.len(),
    ensures
        r == strings_view(ids@).take(j as int).contains(ids@[j as int]@),
{
    let ghost sv = strings_view(ids@);
    let mut i: usize = 0;
    while i < j
        invariant
            j < ids@.len(),
            i <= j,
            sv == strings_view(ids@),
            forall|k: int| 0 <= k < i ==> sv[k] != sv[j as int],
        decreases j - i,
    {
        if str_eq(ids[i].as_str(), ids[j].as_str()) {
            assert(sv.take(j as int)[i as int] == sv[j as int]);
            return true;
        }
        i = i + 1;
    }
    assert(!sv.take(j as int).contains(sv[j as int])) by {
        if sv.take(j as int).contains(sv[j as int]) {
            let k = choose|k: int| 0 <= k < j && sv.take(j as int)[k] == sv[j as int];
            assert(sv[k] == sv[j as int]);
        }
    }
    false
}

/// The position of the first string that occurs earlier, if any.
fn find_repeat(ids: &Vec<String>) -> (r: Option<usize>)
    ensures
        match r {
            Some(i) => i < ids@.len() && first_repeat(strings_view(ids@)) == i,
            None => first_repeat(strings_view(ids@)) == -1,
        },
{
    let ghost sv = strings_view(ids@);
    let mut i: usize = 0;
    while i < ids.len()
        invariant
            i <= ids@.len(),
            sv == strings_view(ids@),
            first_repeat(sv.take(i as int)) == -1,
        decreases ids@.len() - i,
    {
        assert(sv.take(i + 1).drop_last() =~= sv.take(i as int));
        assert(sv.take(i + 1).last() == sv[i as int]);
        if occurs_before(ids, i) {
            proof {
                lemma_first_repeat_prefix(sv, i + 1);
            }
            return Some(i);
        }
        i = i + 1;
    }
    assert(sv.take(i as int) =~= sv);
    None
}

/// Invariant: events occur in a valid order. Tracks event sequences per task.
pub struct EventOrderingInvariant {
    sequences: StrMap<EventSequence>,
}

impl EventOrderingInvariant {
    /// The number of tasks whose events are tracked.
    pub closed spec fn tracked_len(&self) -> nat {
        self.sequences.keys().len()
    }

    /// Well-formed: the sequence map is well formed.
    pub closed spec fn wf(&self) -> bool {
        self.sequences.wf()
    }

    /// An invariant that tracks no task yet.
    pub fn new() -> (r: Self)
        ensures
            r.wf(),
            r.tracked_len() == 0,
    {
        EventOrderingInvariant { sequences: StrMap::new() }
    }

    /// Whether a status update from `old_state` to `new_state` may follow the
    /// events `sequence`: not after a terminal state, and only along a
    /// transition of the task state machine.
    pub fn validate_status_update(&self, old_state: &TaskState, new_state: &TaskState, sequence: &EventSequence) -> (r:
        InvariantResult)
        ensures
            result_view(r) == status_update_verdict(*old_state, *new_state, sequence@),
    {
        match sequence.last() {
            Some(TaskEvent::StatusUpdate { new_state: last_state, .. }) => {
                if TaskStateMachine::is_terminal_state(last_state) {
                    let mut reason = owned("Cannot update status after terminal state ");
                    push_str(&mut reason, state_name_str(last_state));
                    return Err(InvariantViolation::EventOrderingViolation { reason });
                }
            },
            _ => {},
        }
        let fsm = TaskStateMachine::new(owned("validation"));
        if !fsm.is_valid_transition(old_state, new_state) {
            let mut reason = owned("Invalid state transition in event: ");
            push_str(&mut reason, state_name_str(old_state));
            push_str(&mut reason, " -> ");
            push_str(&mut reason, state_name_str(new_state));
            return Err(InvariantViolation::EventOrderingViolation { reason });
        }
        Ok(())
    }

    /// Whether an artifact update may follow the events `sequence`: not after
    /// a terminal state.
    pub fn validate_artifact_update(&self, _artifact_id: &str, sequence: &EventSequence) -> (r: InvariantResult)
        ensures
            result_view(r) == artifact_update_verdict(sequence@),
    {
        match sequence.last() {
            Some(TaskEvent::StatusUpdate { new_state: last_state, .. }) => {
                if TaskStateMachine::is_terminal_state(last_state) {
                    return Err(InvariantViolation::EventOrderingViolation {
                        reason: owned("Cannot update artifacts after terminal state"),
                    });
                }
            },
            _ => {},
        }
        Ok(())
    }

    /// Forgets every tracked sequence.
    pub fn clear(&mut self)
        requires
            old(self).wf(),
        ensures
            final(self).wf(),
            final(self).tracked_len() == 0,
    {
        self.sequences.clear();
    }

    /// The number of tasks whose events are tracked.
    pub fn tracked_count(&self) -> (r: usize)
        requires
            self.wf(),
        ensures
            r == self.tracked_len(),
    {
        self.sequences.len()
    }
}

impl Default for EventOrderingInvariant {
    fn default() -> (r: Self)
        ensures
            r.wf(),
            r.tracked_len() == 0,
    {
        Self::new()
    }
}

impl Invariant<Task> for EventOrderingInvariant {
    open spec fn verdict(&self, value: Task) -> Result<(), ViolationView> {
        ordering_verdict(value@)
    }

    fn check(&self, task: &Task) -> (r: InvariantResult) {
        if task.status.timestamp.is_none() {
            return Err(InvariantViolation::EventOrderingViolation { reason: owned("Task status must have a timestamp") });
        }
        let ghost t = task@;
        match &task.history {
            Some(h) => {
                assert(history_of(t) == messages_view(h@));
                let ids = message_id_list(h);
                match find_empty(&ids) {
                    Some(i) => {
                        let mut reason = owned("Message at index ");
                        push_decimal(i as u64, &mut reason);
                        push_str(&mut reason, " has empty message_id");
                        return Err(InvariantViolation::EventOrderingViolation { reason });
                    },
                    None => {},
                }
                match find_repeat(&ids) {
                    Some(j) => {
                        let mut reason = owned("Duplicate message_id in history: ");
                        push_str(&mut reason, ids[j].as_str());
                        return Err(InvariantViolation::EventOrderingViolation { reason });
                    },
                    None => {},
                }
            },
            None => {
                assert(message_ids(history_of(t)) =~= Seq::<Seq<char>>::empty());
            },
        }
        match &task.artifacts {
            Some(a) => {
                assert(artifacts_of(t) == artifacts_view(a@));
                let ids = artifact_id_list(a);
                match find_repeat(&ids) {
                    Some(j) => {
                        let mut reason = owned("Duplicate artifact_id in task: ");
                        push_str(&mut reason, ids[j].as_str());
                        return Err(InvariantViolation::EventOrderingViolation { reason });
                    },
                    None => {},
                }
            },
            None => {
                assert(artifact_id_seq(artifacts_of(t)) =~= Seq::<Seq<char>>::empty());
            },
        }
        Ok(())
    }

    fn name(&self) -> (r: &str)
        ensures
            r@ == "event_ordering"@,
    {
        "event_ordering"
    }

    fn description(&self) -> (r: &str)
        ensures
            r@ == "Validates that events occur in a valid temporal sequence"@,
    {
        "Validates that events occur in a valid temporal sequence"
    }
}

} // verus!
