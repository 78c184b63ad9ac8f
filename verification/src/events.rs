//! Task lifecycle events: status transitions, artifacts and errors, each
//! numbered for ordering.
use vstd::prelude::*;
use crate::ambient::now_rfc3339;
use crate::domain::{Artifact, Message, TaskState};
use crate::text::{dec_of, push_decimal, push_str};

verus! {

/// Why an event operation failed.
#[derive(Debug, Clone)]
pub enum EventError {
    BufferFull { capacity: usize },
    ChannelClosed,
    InvalidSequence { expected: u64, actual: u64 },
    StreamClosed,
}

/// The text of an event error.
pub open spec fn event_error_text(e: EventError) -> Seq<char> {
    match e {
        EventError::BufferFull { capacity } => "Event buffer full (capacity: "@ + dec_of(capacity as nat) + ")"@,
        EventError::ChannelClosed => "Subscription channel closed"@,
        EventError::InvalidSequence { expected, actual } => "Invalid sequence number: expected "@ + dec_of(expected as nat)
            + ", got "@ + dec_of(actual as nat),
        EventError::StreamClosed => "Event stream already closed"@,
    }
}

impl EventError {
    /// The text of the error.
    pub fn message(&self) -> (r: String)
        ensures
            r@ == event_error_text(*self),
    {
        let mut m = String::new();
        match self {
            EventError::BufferFull { capacity } => {
                push_str(&mut m, "Event buffer full (capacity: ");
                push_decimal(*capacity as u64, &mut m);
                push_str(&mut m, ")");
            },
            EventError::ChannelClosed => {
                push_str(&mut m, "Subscription channel closed");
            },
            EventError::InvalidSequence { expected, actual } => {
                push_str(&mut m, "Invalid sequence number: expected ");
                push_decimal(*expected, &mut m);
                push_str(&mut m, ", got ");
                push_decimal(*actual, &mut m);
            },
            EventError::StreamClosed => {
                push_str(&mut m, "Event stream already closed");
            },
        }
        assert(m@ =~= event_error_text(*self));
        m
    }
}

/// The kind of an event.
#[derive(Debug, Clone, Copy, PartialEq, Eq, Structural)]
pub enum EventKind {
    TaskStatus,
    Artifact,
    Error,
}

/// A status transition of a task.
#[derive(Debug)]
pub struct TaskStatusEvent {
    pub task_id: String,
    pub state: TaskState,
    pub message: Option<Message>,
    /// `true` iff the state ends the task.
    pub is_final: bool,
    /// When it happened, in RFC 3339.
    pub timestamp: String,
    pub sequence: u64,
}

/// An artifact emitted for a task.
#[derive(Debug)]
pub struct ArtifactEvent {
    pub task_id: String,
    pub artifact: Artifact,
    pub append: Option<bool>,
    pub last_chunk: Option<bool>,
    /// When it happened, in RFC 3339.
    pub timestamp: String,
    pub sequence: u64,
}

/// An error of a task.
#[derive(Debug)]
pub struct ErrorEvent {
    pub task_id: String,
    pub code: i32,
    pub message: String,
    pub is_fatal: bool,
    /// When it happened, in RFC 3339.
    pub timestamp: String,
    pub sequence: u64,
}

/// An event of any kind.
#[derive(Debug)]
pub enum Event {
    TaskStatus(TaskStatusEvent),
    Artifact(ArtifactEvent),
    Error(ErrorEvent),
}

/// The states after which a stream reports the task as final.
pub open spec fn ends_stream(s: TaskState) -> bool {
    s == TaskState::Completed || s == TaskState::Failed || s == TaskState::Canceled || s == TaskState::Rejected
        || s == TaskState::Unknown
}

/// `true` iff `state` ends an event stream.
pub fn is_terminal_state(state: &TaskState) -> (r: bool)
    ensures
        r == ends_stream(*state),
{
    match state {
        TaskState::Completed | TaskState::Failed | TaskState::Canceled | TaskState::Rejected | TaskState::Unknown => true,
        _ => false,
    }
}

/// Whether the event ends its task's stream: a final status, a last
/// artifact chunk, or a fatal error.
pub open spec fn event_final(e: Event) -> bool {
    match e {
        Event::TaskStatus(x) => x.is_final,
        Event::Artifact(x) => x.last_chunk == Some(true),
        Event::Error(x) => x.is_fatal,
    }
}

impl Event {
    /// The task of the event.
    pub fn task_id(&self) -> (r: &str)
        ensures
            r@ == match *self {
                Event::TaskStatus(x) => x.task_id@,
                Event::Artifact(x) => x.task_id@,
                Event::Error(x) => x.task_id@,
            },
    {
        match self {
            Event::TaskStatus(e) => e.task_id.as_str(),
            Event::Artifact(e) => e.task_id.as_str(),
            Event::Error(e) => e.task_id.as_str(),
        }
    }

    /// The sequence number of the event.
    pub fn sequence(&self) -> (r: u64)
        ensures
            r == match *self {
                Event::TaskStatus(x) => x.sequence,
                Event::Artifact(x) => x.sequence,
                Event::Error(x) => x.sequence,
            },
    {
        match self {
            Event::TaskStatus(e) => e.sequence,
            Event::Artifact(e) => e.sequence,
            Event::Error(e) => e.sequence,
        }
    }

    /// When the event happened, in RFC 3339.
    pub fn timestamp(&self) -> (r: &str)
        ensures
            r@ == match *self {
                Event::TaskStatus(x) => x.timestamp@,
                Event::Artifact(x) => x.timestamp@,
                Event::Error(x) => x.timestamp@,
            },
    {
        match self {
            Event::TaskStatus(e) => e.timestamp.as_str(),
            Event::Artifact(e) => e.timestamp.as_str(),
            Event::Error(e) => e.timestamp.as_str(),
        }
    }

    /// The kind of the event.
    pub fn kind(&self) -> (r: EventKind)
        ensures
            r == match *self {
                Event::TaskStatus(_) => EventKind::TaskStatus,
                Event::Artifact(_) => EventKind::Artifact,
                Event::Error(_) => EventKind::Error,
            },
    {
        match self {
            Event::TaskStatus(_) => EventKind::TaskStatus,
            Event::Artifact(_) => EventKind::Artifact,
            Event::Error(_) => EventKind::Error,
        }
    }

    /// `true` iff the event ends its task's stream.
    pub fn is_final(&self) -> (r: bool)
        ensures
            r == event_final(*self),
    {
        match self {
            Event::TaskStatus(e) => e.is_final,
            Event::Artifact(e) => match e.last_chunk {
                Some(b) => b,
                None => false,
            },
            Event::Error(e) => e.is_fatal,
        }
    }
}

/// The numbering of a task's events, and whether its stream is closed.
pub struct EventSequencer {
    task_id: String,
    next: u64,
    closed: bool,
}

impl EventSequencer {
    /// The task numbered.
    pub closed spec fn task(&self) -> Seq<char> {
        self.task_id@
    }

    /// The number the next event gets.
    pub closed spec fn upcoming(&self) -> u64 {
        self.next
    }

    /// `true` once the stream is closed.
    pub closed spec fn is_shut(&self) -> bool {
        self.closed
    }

    /// A sequencer at number 0, open.
    pub fn new(task_id: String) -> (r: Self)
        ensures
            r.task() == task_id@,
            r.upcoming() == 0,
            !r.is_shut(),
    {
        EventSequencer { task_id, next: 0, closed: false }
    }

    /// The number the next event gets.
    pub fn current_sequence(&self) -> (r: u64)
        ensures
            r == self.upcoming(),
    {
        self.next
    }

    /// `true` iff the stream is closed.
    pub fn is_closed(&self) -> (r: bool)
        ensures
            r == self.is_shut(),
    {
        self.closed
    }

    /// Closes the stream: no more events are numbered.
    pub fn close(&mut self)
        ensures
            final(self).is_shut(),
            final(self).task() == old(self).task(),
            final(self).upcoming() == old(self).upcoming(),
    {
        self.closed = true;
    }

    fn take_number(&mut self) -> (r: Result<u64, EventError>)
        requires
            old(self).upcoming() < u64::MAX,
        ensures
            final(self).task() == old(self).task(),
            final(self).is_shut() == old(self).is_shut(),
            old(self).is_shut() ==> r == Err::<u64, EventError>(EventError::StreamClosed) && final(self).upcoming() == old(
                self,
            ).upcoming(),
            !old(self).is_shut() ==> r == Ok::<u64, EventError>(old(self).upcoming()) && final(self).upcoming()
                == old(self).upcoming() + 1,
    {
        if self.closed {
            return Err(EventError::StreamClosed);
        }
        let n = self.next;
        self.next = n + 1;
        Ok(n)
    }

    /// The next status event, numbered in turn and stamped now; refused once
    /// the stream is closed.
    pub fn status_event(&mut self, state: TaskState, message: Option<Message>) -> (r: Result<Event, EventError>)
        requires
            old(self).upcoming() < u64::MAX,
        ensures
            final(self).task() == old(self).task(),
            final(self).is_shut() == old(self).is_shut(),
            old(self).is_shut() ==> (r matches Err(EventError::StreamClosed) && final(self).upcoming() == old(self).upcoming()),
            !old(self).is_shut() ==> final(self).upcoming() == old(self).upcoming() + 1,
            !old(self).is_shut() ==> (r matches Ok(Event::TaskStatus(e))
                && e.task_id@ == old(self).task() && e.state == state && e.message == message && e.is_final == ends_stream(state)
                && e.sequence == old(self).upcoming()),
    {
        let sequence = match self.take_number() {
            Ok(n) => n,
            Err(e) => {
                return Err(e);
            },
        };
        Ok(Event::TaskStatus(TaskStatusEvent {
            task_id: self.task_id.clone(),
            state,
            message,
            is_final: is_terminal_state(&state),
            timestamp: now_rfc3339(),
            sequence,
        }))
    }

    /// The next artifact event, numbered in turn and stamped now; refused
    /// once the stream is closed.
    pub fn artifact_event(&mut self, artifact: Artifact, append: Option<bool>, last_chunk: Option<bool>) -> (r: Result<
        Event,
        EventError,
    >)
        requires
            old(self).upcoming() < u64::MAX,
        ensures
            final(self).task() == old(self).task(),
            final(self).is_shut() == old(self).is_shut(),
            old(self).is_shut() ==> (r matches Err(EventError::StreamClosed) && final(self).upcoming() == old(self).upcoming()),
            !old(self).is_shut() ==> final(self).upcoming() == old(self).upcoming() + 1,
            !old(self).is_shut() ==> (r matches Ok(Event::Artifact(e))
                && e.task_id@ == old(self).task() && e.artifact == artifact && e.append == append && e.last_chunk == last_chunk
                && e.sequence == old(self).upcoming()),
    {
        let sequence = match self.take_number() {
            Ok(n) => n,
            Err(e) => {
                return Err(e);
            },
        };
        Ok(Event::Artifact(ArtifactEvent {
            task_id: self.task_id.clone(),
            artifact,
            append,
            last_chunk,
            timestamp: now_rfc3339(),
            sequence,
        }))
    }

    /// The next error event, numbered in turn and stamped now; refused once
    /// the stream is closed.
    pub fn error_event(&mut self, code: i32, message: String, is_fatal: bool) -> (r: Result<Event, EventError>)
        requires
            old(self).upcoming() < u64::MAX,
        ensures
            final(self).task() == old(self).task(),
            final(self).is_shut() == old(self).is_shut(),
            old(self).is_shut() ==> (r matches Err(EventError::StreamClosed) && final(self).upcoming() == old(self).upcoming()),
            !old(self).is_shut() ==> final(self).upcoming() == old(self).upcoming() + 1,
            !old(self).is_shut() ==> (r matches Ok(Event::Error(e))
                && e.task_id@ == old(self).task() && e.code == code && e.message == message && e.is_fatal == is_fatal
                && e.sequence == old(self).upcoming()),
    {
        let sequence = match self.take_number() {
            Ok(n) => n,
            Err(e) => {
                return Err(e);
            },
        };
        Ok(Event::Error(ErrorEvent {
            task_id: self.task_id.clone(),
            code,
            message,
            is_fatal,
            timestamp: now_rfc3339(),
            sequence,
        }))
    }
}

} // verus!
