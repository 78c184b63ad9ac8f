//! Protocol entities: tasks, their states, messages, parts and artifacts.
use vstd::prelude::*;
use crate::json::JsonValue;
use crate::ambient::now_rfc3339;

verus! {

/// The lifecycle state of a task.
#[derive(Debug, Clone, Copy, PartialEq, Eq, Structural)]
pub enum TaskState {
    Submitted,
    Working,
    InputRequired,
    Completed,
    Canceled,
    Failed,
    Rejected,
    AuthRequired,
    Unknown,
}

/// Who authored a message.
#[derive(Debug, Clone, Copy, PartialEq, Eq, Structural)]
pub enum Role {
    User,
    Agent,
}

/// One piece of message or artifact content.
#[derive(Debug)]
pub enum Part {
    /// Plain text.
    Text { text: String },
    /// A file, by reference or inline (base64) content.
    File { name: Option<String>, mime_type: Option<String>, uri: Option<String>, bytes: Option<String> },
    /// Structured data, held as its JSON text.
    Data { data: String },
}

/// The abstract content of a part.
pub enum PartView {
    Text { text: Seq<char> },
    File { name: Option<Seq<char>>, mime_type: Option<Seq<char>>, uri: Option<Seq<char>>, bytes: Option<Seq<char>> },
    Data { data: Seq<char> },
}

/// The view of an optional string.
pub open spec fn opt_str(o: Option<String>) -> Option<Seq<char>> {
    match o {
        Some(s) => Some(s@),
        None => None,
    }
}

impl View for Part {
    type V = PartView;

    open spec fn view(&self) -> PartView {
        match self {
            Part::Text { text } => PartView::Text { text: text@ },
            Part::File { name, mime_type, uri, bytes } => PartView::File {
                name: opt_str(*name),
                mime_type: opt_str(*mime_type),
                uri: opt_str(*uri),
                bytes: opt_str(*bytes),
            },
            Part::Data { data } => PartView::Data { data: data@ },
        }
    }
}

impl Clone for Part {
    fn clone(&self) -> (r: Self)
        ensures
            r == *self,
    {
        match self {
            Part::Text { text } => Part::Text { text: text.clone() },
            Part::File { name, mime_type, uri, bytes } => Part::File {
                name: name.clone(),
                mime_type: mime_type.clone(),
                uri: uri.clone(),
                bytes: bytes.clone(),
            },
            Part::Data { data } => Part::Data { data: data.clone() },
        }
    }
}

impl Part {
    /// A text part.
    pub fn text(text: String) -> (r: Part)
        ensures
            r == (Part::Text { text }),
    {
        Part::Text { text }
    }
}

/// A message exchanged between a user and an agent.
#[derive(Debug)]
pub struct Message {
    pub role: Role,
    pub parts: Vec<Part>,
    pub message_id: String,
    pub task_id: Option<String>,
    pub context_id: Option<String>,
}

/// The abstract content of a message.
pub struct MessageView {
    pub role: Role,
    pub parts: Seq<Part>,
    pub message_id: Seq<char>,
    pub task_id: Option<Seq<char>>,
    pub context_id: Option<Seq<char>>,
}

impl View for Message {
    type V = MessageView;

    open spec fn view(&self) -> MessageView {
        MessageView {
            role: self.role,
            parts: self.parts@,
            message_id: self.message_id@,
            task_id: opt_str(self.task_id),
            context_id: opt_str(self.context_id),
        }
    }
}

/// A copy of a vector of parts.
pub fn clone_parts(parts: &Vec<Part>) -> (r: Vec<Part>)
    ensures
        r@ == parts@,
{
    let r = parts.clone();
    assert(r@ =~= parts@);
    r
}

impl Clone for Message {
    fn clone(&self) -> (r: Self)
        ensures
            r@ == self@,
    {
        Message {
            role: self.role,
            parts: clone_parts(&self.parts),
            message_id: self.message_id.clone(),
            task_id: self.task_id.clone(),
            context_id: self.context_id.clone(),
        }
    }
}

impl Message {
    /// A single-part text message from the user.
    pub fn user_text(text: String, message_id: String) -> (r: Message)
        ensures
            r.role == Role::User,
            r.parts@ == seq![Part::Text { text }],
            r.message_id == message_id,
            r.task_id is None,
            r.context_id is None,
    {
        let mut parts: Vec<Part> = Vec::new();
        parts.push(Part::text(text));
        Message { role: Role::User, parts, message_id, task_id: None, context_id: None }
    }

    /// A single-part text message from the agent.
    pub fn agent_text(text: String, message_id: String) -> (r: Message)
        ensures
            r.role == Role::Agent,
            r.parts@ == seq![Part::Text { text }],
            r.message_id == message_id,
            r.task_id is None,
            r.context_id is None,
    {
        let mut parts: Vec<Part> = Vec::new();
        parts.push(Part::text(text));
        Message { role: Role::Agent, parts, message_id, task_id: None, context_id: None }
    }
}

/// The current status of a task.
#[derive(Debug)]
pub struct TaskStatus {
    pub state: TaskState,
    pub message: Option<Message>,
    /// When the status was set, in RFC 3339.
    pub timestamp: Option<String>,
}

/// The abstract status of a task.
pub struct TaskStatusView {
    pub state: TaskState,
    pub message: Option<MessageView>,
    pub timestamp: Option<Seq<char>>,
}

/// The view of an optional message.
pub open spec fn opt_msg(o: Option<Message>) -> Option<MessageView> {
    match o {
        Some(m) => Some(m@),
        None => None,
    }
}

impl View for TaskStatus {
    type V = TaskStatusView;

    open spec fn view(&self) -> TaskStatusView {
        TaskStatusView { state: self.state, message: opt_msg(self.message), timestamp: opt_str(self.timestamp) }
    }
}

impl Clone for TaskStatus {
    fn clone(&self) -> (r: Self)
        ensures
            r@ == self@,
    {
        let message = match &self.message {
            Some(m) => Some(m.clone()),
            None => None,
        };
        let timestamp = match &self.timestamp {
            Some(t) => Some(t.clone()),
            None => None,
        };
        TaskStatus { state: self.state, message, timestamp }
    }
}

impl Default for TaskStatus {
    fn default() -> (r: Self)
        ensures
            r.state == TaskState::Submitted,
            r.message is None,
            r.timestamp is None,
    {
        TaskStatus { state: TaskState::Submitted, message: None, timestamp: None }
    }
}

/// An output produced by an agent for a task.
#[derive(Debug)]
pub struct Artifact {
    pub artifact_id: String,
    pub name: Option<String>,
    pub description: Option<String>,
    pub parts: Vec<Part>,
}

/// The abstract content of an artifact.
pub struct ArtifactView {
    pub artifact_id: Seq<char>,
    pub name: Option<Seq<char>>,
    pub description: Option<Seq<char>>,
    pub parts: Seq<Part>,
}

impl View for Artifact {
    type V = ArtifactView;

    open spec fn view(&self) -> ArtifactView {
        ArtifactView {
            artifact_id: self.artifact_id@,
            name: opt_str(self.name),
            description: opt_str(self.description),
            parts: self.parts@,
        }
    }
}

impl Clone for Artifact {
    fn clone(&self) -> (r: Self)
        ensures
            r@ == self@,
    {
        Artifact {
            artifact_id: self.artifact_id.clone(),
            name: self.name.clone(),
            description: self.description.clone(),
            parts: clone_parts(&self.parts),
        }
    }
}

/// A unit of work tracked by the protocol.
#[derive(Debug)]
pub struct Task {
    pub id: String,
    pub context_id: String,
    pub status: TaskStatus,
    pub history: Option<Vec<Message>>,
    pub artifacts: Option<Vec<Artifact>>,
}

/// The views of a sequence of messages.
pub open spec fn messages_view(v: Seq<Message>) -> Seq<MessageView> {
    v.map_values(|m: Message| m@)
}

/// The views of a sequence of artifacts.
pub open spec fn artifacts_view(v: Seq<Artifact>) -> Seq<ArtifactView> {
    v.map_values(|a: Artifact| a@)
}

/// A copy of a vector of messages.
pub fn clone_messages(v: &Vec<Message>) -> (r: Vec<Message>)
    ensures
        messages_view(r@) == messages_view(v@),
{
    let mut r: Vec<Message> = Vec::new();
    let mut i: usize = 0;
    while i < v.len()
        invariant
            i <= v.len(),
            r@.len() == i,
            forall|j: int| 0 <= j < i ==> r@[j]@ == v@[j]@,
        decreases v.len() - i,
    {
        r.push(v[i].clone());
        i = i + 1;
    }
    assert(messages_view(r@) =~= messages_view(v@));
    r
}

/// A copy of a vector of artifacts.
pub fn clone_artifacts(v: &Vec<Artifact>) -> (r: Vec<Artifact>)
    ensures
        artifacts_view(r@) == artifacts_view(v@),
{
    let mut r: Vec<Artifact> = Vec::new();
    let mut i: usize = 0;
    while i < v.len()
        invariant
            i <= v.len(),
            r@.len() == i,
            forall|j: int| 0 <= j < i ==> r@[j]@ == v@[j]@,
        decreases v.len() - i,
    {
        r.push(v[i].clone());
        i = i + 1;
    }
    assert(artifacts_view(r@) =~= artifacts_view(v@));
    r
}

/// The abstract content of a task.
pub struct TaskView {
    pub id: Seq<char>,
    pub context_id: Seq<char>,
    pub status: TaskStatusView,
    pub history: Option<Seq<MessageView>>,
    pub artifacts: Option<Seq<ArtifactView>>,
}

impl View for Task {
    type V = TaskView;

    open spec fn view(&self) -> TaskView {
        TaskView {
            id: self.id@,
            context_id: self.context_id@,
            status: self.status@,
            history: match self.history {
                Some(h) => Some(messages_view(h@)),
                None => None,
            },
            artifacts: match self.artifacts {
                Some(a) => Some(artifacts_view(a@)),
                None => None,
            },
        }
    }
}

impl Clone for Task {
    fn clone(&self) -> (r: Self)
        ensures
            r@ == self@,
    {
        let history = match &self.history {
            Some(h) => Some(clone_messages(h)),
            None => None,
        };
        let artifacts = match &self.artifacts {
            Some(a) => Some(clone_artifacts(a)),
            None => None,
        };
        Task {
            id: self.id.clone(),
            context_id: self.context_id.clone(),
            status: self.status.clone(),
            history,
            artifacts,
        }
    }
}

/// The messages recorded in a task's history, as a sequence.
pub open spec fn history_of(task: TaskView) -> Seq<MessageView> {
    match task.history {
        Some(h) => h,
        None => Seq::empty(),
    }
}

/// The artifacts of a task, as a sequence.
pub open spec fn artifacts_of(task: TaskView) -> Seq<ArtifactView> {
    match task.artifacts {
        Some(a) => a,
        None => Seq::empty(),
    }
}

impl Task {
    /// A freshly submitted task with no history and no artifacts.
    pub fn new(id: String, context_id: String) -> (r: Task)
        ensures
            r@.id == id@,
            r@.context_id == context_id@,
            r@.status.state == TaskState::Submitted,
            r@.status.message is None,
            r@.status.timestamp is Some,
            r@.history is None,
            r@.artifacts is None,
    {
        Task {
            id,
            context_id,
            status: TaskStatus { state: TaskState::Submitted, message: None, timestamp: Some(now_rfc3339()) },
            history: None,
            artifacts: None,
        }
    }

    /// Moves the task to `state`, stamped with the current time; a given
    /// message becomes the status message and is appended to the history.
    pub fn update_status(&mut self, state: TaskState, message: Option<Message>)
        ensures
            final(self)@.id == old(self)@.id,
            final(self)@.context_id == old(self)@.context_id,
            final(self)@.artifacts == old(self)@.artifacts,
            final(self)@.status.state == state,
            final(self)@.status.message == opt_msg(message),
            final(self)@.status.timestamp is Some,
            match message {
                Some(m) => final(self)@.history is Some
                    && history_of(final(self)@) == history_of(old(self)@).push(m@),
                None => final(self)@.history == old(self)@.history,
            },
    {
        match message {
            Some(m) => {
                let copy = m.clone();
                self.status = TaskStatus { state, message: Some(m), timestamp: Some(now_rfc3339()) };
                match &mut self.history {
                    Some(h) => {
                        let ghost before = h@;
                        h.push(copy);
                        assert(messages_view(h@) =~= messages_view(before).push(copy@));
                    },
                    None => {
                        let mut h: Vec<Message> = Vec::new();
                        h.push(copy);
                        self.history = Some(h);
                        assert(history_of(self@) =~= Seq::<MessageView>::empty().push(copy@));
                    },
                }
            },
            None => {
                self.status = TaskStatus { state, message: None, timestamp: Some(now_rfc3339()) };
            },
        }
    }

    /// Appends an artifact to the task.
    pub fn add_artifact(&mut self, artifact: Artifact)
        ensures
            final(self)@.id == old(self)@.id,
            final(self)@.context_id == old(self)@.context_id,
            final(self)@.status == old(self)@.status,
            final(self)@.history == old(self)@.history,
            final(self)@.artifacts is Some,
            artifacts_of(final(self)@) == artifacts_of(old(self)@).push(artifact@),
    {
        match &mut self.artifacts {
            Some(a) => {
                let ghost before = a@;
                a.push(artifact);
                assert(artifacts_view(a@) =~= artifacts_view(before).push(artifact@));
            },
            None => {
                let mut a: Vec<Artifact> = Vec::new();
                let ghost av = artifact@;
                a.push(artifact);
                self.artifacts = Some(a);
                assert(artifacts_of(self@) =~= Seq::<ArtifactView>::empty().push(av));
            },
        }
    }
}

/// The description of an agent.
#[derive(Debug)]
pub struct AgentCard {
    pub name: String,
    pub description: String,
    pub url: String,
    pub version: String,
}

impl Clone for AgentCard {
    fn clone(&self) -> (r: Self)
        ensures
            r == *self,
    {
        AgentCard {
            name: self.name.clone(),
            description: self.description.clone(),
            url: self.url.clone(),
            version: self.version.clone(),
        }
    }
}

/// Where and how to deliver push notifications.
#[derive(Debug)]
pub struct PushNotificationConfig {
    pub id: Option<String>,
    pub url: String,
    pub token: Option<String>,
}

/// A push notification configuration bound to a task.
#[derive(Debug)]
pub struct TaskPushNotificationConfig {
    pub task_id: String,
    pub push_notification_config: PushNotificationConfig,
}

/// Errors of the protocol layer.
#[derive(Debug)]
pub enum A2AError {
    /// An internal failure, with its description.
    Internal(String),
    /// The named task does not exist.
    TaskNotFound(String),
    /// A field failed validation.
    ValidationError { field: String, message: String },
}

} // verus!

verus! {

/// The name of a task state, as `{:?}` prints it.
pub open spec fn state_name(s: TaskState) -> Seq<char> {
    match s {
        TaskState::Submitted => "Submitted"@,
        TaskState::Working => "Working"@,
        TaskState::InputRequired => "InputRequired"@,
        TaskState::Completed => "Completed"@,
        TaskState::Canceled => "Canceled"@,
        TaskState::Failed => "Failed"@,
        TaskState::Rejected => "Rejected"@,
        TaskState::AuthRequired => "AuthRequired"@,
        TaskState::Unknown => "Unknown"@,
    }
}

/// The name of a task state, as `{:?}` prints it.
pub fn state_name_str(s: &TaskState) -> (r: &'static str)
    ensures
        r@ == state_name(*s),
{
    match s {
        TaskState::Submitted => "Submitted",
        TaskState::Working => "Working",
        TaskState::InputRequired => "InputRequired",
        TaskState::Completed => "Completed",
        TaskState::Canceled => "Canceled",
        TaskState::Failed => "Failed",
        TaskState::Rejected => "Rejected",
        TaskState::AuthRequired => "AuthRequired",
        TaskState::Unknown => "Unknown",
    }
}

} // verus!

verus! {

/// How a `message/send` request wants to be answered.
#[derive(Debug)]
pub struct MessageSendConfiguration {
    pub accepted_output_modes: Vec<String>,
    pub history_length: Option<u32>,
    pub push_notification_config: Option<PushNotificationConfig>,
    pub blocking: Option<bool>,
}

/// Parameters of `message/send` and `message/stream`.
#[derive(Debug)]
pub struct MessageSendParams {
    pub message: Message,
    pub configuration: Option<MessageSendConfiguration>,
    pub metadata: Option<JsonValue>,
}

/// Parameters of `tasks/get`.
#[derive(Debug)]
pub struct TaskQueryParams {
    pub id: String,
    pub history_length: Option<u32>,
    pub metadata: Option<JsonValue>,
}

/// Parameters naming one task (`tasks/cancel`, `tasks/resubscribe`).
#[derive(Debug)]
pub struct TaskIdParams {
    pub id: String,
    pub metadata: Option<JsonValue>,
}

/// Parameters of `tasks/list`.
#[derive(Debug)]
pub struct ListTasksParams {
    pub context_id: Option<String>,
    pub status: Option<TaskState>,
    pub page_size: Option<u32>,
    pub page_token: Option<String>,
    pub history_length: Option<u32>,
    pub include_artifacts: Option<bool>,
    pub last_updated_after: Option<i64>,
    pub metadata: Option<JsonValue>,
}

/// Result of `tasks/list`.
#[derive(Debug)]
pub struct ListTasksResult {
    pub tasks: Vec<Task>,
    pub total_size: u32,
    pub page_size: u32,
    pub next_page_token: String,
}

/// Parameters of `tasks/pushNotificationConfig/get`.
#[derive(Debug)]
pub struct GetTaskPushNotificationConfigParams {
    pub id: String,
    pub push_notification_config_id: Option<String>,
    pub metadata: Option<JsonValue>,
}

/// Parameters of `tasks/pushNotificationConfig/list`.
#[derive(Debug)]
pub struct ListTaskPushNotificationConfigParams {
    pub id: String,
    pub metadata: Option<JsonValue>,
}

/// Parameters of `tasks/pushNotificationConfig/delete`.
#[derive(Debug)]
pub struct DeleteTaskPushNotificationConfigParams {
    pub id: String,
    pub push_notification_config_id: String,
    pub metadata: Option<JsonValue>,
}

/// A change of a task's status, as streamed.
#[derive(Debug)]
pub struct TaskStatusUpdateEvent {
    pub task_id: String,
    pub context_id: String,
    pub status: TaskStatus,
    /// `true` on the last event of the stream.
    pub is_final: bool,
}

/// A new or extended artifact of a task, as streamed.
#[derive(Debug)]
pub struct TaskArtifactUpdateEvent {
    pub task_id: String,
    pub context_id: String,
    pub artifact: Artifact,
    pub append: Option<bool>,
    pub last_chunk: Option<bool>,
}

} // verus!
