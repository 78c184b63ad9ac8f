//! Protocol method stations: one typed unit per JSON-RPC method, with the
//! checks its parameters must pass before a handler sees them.
use vstd::prelude::*;
use crate::domain::{
    AgentCard, DeleteTaskPushNotificationConfigParams, GetTaskPushNotificationConfigParams,
    ListTaskPushNotificationConfigParams, ListTasksParams, ListTasksResult, Message, MessageSendParams, Task,
    TaskArtifactUpdateEvent, TaskIdParams, TaskPushNotificationConfig, TaskQueryParams, TaskStatusUpdateEvent,
};
use crate::guards::{RefusalCode, RefusalReceipt};
use crate::text::{dec_of, owned, push_decimal, push_str, starts_with, str_eq, bool_text, debug_str, int_dec,
    push_bool, push_signed_decimal, str_debug_text};
use crate::domain::{state_name, state_name_str};
use crate::json::{view_debug, write_debug};

verus! {

/// A typed processing unit for one protocol method.
///
/// `admits` states which inputs `validate` lets through.
pub trait Station {
    /// The method's parameters.
    type Input;
    /// The method's result.
    type Output;

    /// `true` iff `validate` admits `input`.
    spec fn admits(input: Self::Input) -> bool;

    /// Checks the parameters before processing; refusals are made under policy epoch 1.
    fn validate(input: &Self::Input) -> (r: Result<(), RefusalReceipt>)
        ensures
            (r is Ok) == Self::admits(*input),
            r matches Err(e) ==> e.policy_epoch == 1,
    ;

    /// What the method does.
    fn description() -> &'static str;
}

/// A refusal made by a station.
fn refuse(code: RefusalCode, station: &str, input_hash: String, reason: &str) -> (r: RefusalReceipt)
    ensures
        r.code == code,
        r.violated_guard@ == station@,
        r.input_hash@ == input_hash@,
        r.policy_epoch == 1,
        r.reason@ == reason@,
        r.metadata is None,
{
    RefusalReceipt::new(code, owned(station), input_hash, 1, owned(reason))
}

/// The reason given for a history length over the maximum.
pub open spec fn history_reason(len: nat) -> Seq<char> {
    "History length "@ + dec_of(len) + " exceeds maximum of 1000"@
}

fn history_refusal(station: &str, input_hash: String, len: u32) -> (r: RefusalReceipt)
    ensures
        r.code == RefusalCode::ValueOutOfRange,
        r.violated_guard@ == station@,
        r.input_hash@ == input_hash@,
        r.policy_epoch == 1,
        r.reason@ == history_reason(len as nat),
{
    let mut reason = owned("History length ");
    push_decimal(len as u64, &mut reason);
    push_str(&mut reason, " exceeds maximum of 1000");
    RefusalReceipt::new(RefusalCode::ValueOutOfRange, owned(station), input_hash, 1, reason)
}

/// Station of `message/send`.
#[derive(Debug, Clone, Copy)]
pub struct SendMessageStation;

impl SendMessageStation {
    /// The JSON-RPC method name.
    pub const METHOD_NAME: &'static str = "message/send";
}

impl Station for SendMessageStation {
    type Input = MessageSendParams;
    type Output = MessageSendResult;

    open spec fn admits(input: MessageSendParams) -> bool {
        input.message.parts@.len() > 0
    }

    fn validate(input: &MessageSendParams) -> (r: Result<(), RefusalReceipt>)
        ensures
            r matches Err(e) ==> e.code == RefusalCode::MissingRequiredField
                && e.violated_guard@ == "SendMessageStation"@
                && e.input_hash@ == input.message.message_id@
                && e.reason@ == "Message must contain at least one part"@,
    {
        if input.message.parts.len() == 0 {
            return Err(refuse(
                RefusalCode::MissingRequiredField,
                "SendMessageStation",
                input.message.message_id.clone(),
                "Message must contain at least one part",
            ));
        }
        Ok(())
    }

    fn description() -> (r: &'static str)
        ensures
            r@ == "Send a message to an agent, optionally creating or continuing a task"@,
    {
        "Send a message to an agent, optionally creating or continuing a task"
    }
}

/// Result of `message/send`: a task (asynchronous) or a message (blocking).
#[derive(Debug)]
pub enum MessageSendResult {
    Task(Task),
    Message(Message),
}

/// Station of `message/stream`.
#[derive(Debug, Clone, Copy)]
pub struct SendStreamingMessageStation;

impl SendStreamingMessageStation {
    /// The JSON-RPC method name.
    pub const METHOD_NAME: &'static str = "message/stream";
}

impl Station for SendStreamingMessageStation {
    type Input = MessageSendParams;
    type Output = StreamingMessageResult;

    open spec fn admits(input: MessageSendParams) -> bool {
        SendMessageStation::admits(input)
    }

    fn validate(input: &MessageSendParams) -> (r: Result<(), RefusalReceipt>)
        ensures
            r matches Err(e) ==> e.code == RefusalCode::MissingRequiredField
                && e.violated_guard@ == "SendMessageStation"@
                && e.reason@ == "Message must contain at least one part"@,
    {
        SendMessageStation::validate(input)
    }

    fn description() -> (r: &'static str)
        ensures
            r@ == "Send a message with real-time streaming updates via WebSocket or SSE"@,
    {
        "Send a message with real-time streaming updates via WebSocket or SSE"
    }
}

/// Result of `message/stream`: the initial task, then streamed events.
#[derive(Debug)]
pub enum StreamingMessageResult {
    InitialTask(Task),
    StatusUpdate(TaskStatusUpdateEvent),
    ArtifactUpdate(TaskArtifactUpdateEvent),
    MessageUpdate(Message),
}

/// Station of `tasks/get`.
#[derive(Debug, Clone, Copy)]
pub struct GetTaskStation;

impl GetTaskStation {
    /// The JSON-RPC method name.
    pub const METHOD_NAME: &'static str = "tasks/get";
}

impl Station for GetTaskStation {
    type Input = TaskQueryParams;
    type Output = Task;

    open spec fn admits(input: TaskQueryParams) -> bool {
        &&& input.id@.len() > 0
        &&& input.history_length matches Some(n) ==> n <= 1000
    }

    fn validate(input: &TaskQueryParams) -> (r: Result<(), RefusalReceipt>)
        ensures
            r matches Err(e) ==> e.violated_guard@ == "GetTaskStation"@ && e.input_hash@ == input.id@,
            r matches Err(e) ==> (input.id@.len() == 0 ==> e.code == RefusalCode::MissingRequiredField
                && e.reason@ == "Task ID must not be empty"@),
            r matches Err(e) ==> (input.id@.len() > 0 ==> e.code == RefusalCode::ValueOutOfRange
                && e.reason@ == history_reason(input.history_length->0 as nat)),
    {
        if input.id.as_str().is_empty() {
            return Err(refuse(RefusalCode::MissingRequiredField, "GetTaskStation", input.id.clone(), "Task ID must not be empty"));
        }
        if let Some(len) = input.history_length {
            if len > 1000 {
                return Err(history_refusal("GetTaskStation", input.id.clone(), len));
            }
        }
        Ok(())
    }

    fn description() -> (r: &'static str)
        ensures
            r@ == "Retrieve task status and optional message history"@,
    {
        "Retrieve task status and optional message history"
    }
}

/// `Some(..)` around a present value's text, or `None`.
pub open spec fn opt_debug(present: bool, text: Seq<char>) -> Seq<char> {
    if present { "Some("@ + text + ")"@ } else { "None"@ }
}

/// The `Debug` text of list parameters, field by field as `derive` lays it out.
pub open spec fn list_params_debug(p: ListTasksParams) -> Seq<char> {
    "ListTasksParams { context_id: "@
        + opt_debug(p.context_id is Some, str_debug_text(p.context_id->0@))
        + ", status: "@ + opt_debug(p.status is Some, state_name(p.status->0))
        + ", page_size: "@ + opt_debug(p.page_size is Some, dec_of(p.page_size->0 as nat))
        + ", page_token: "@ + opt_debug(p.page_token is Some, str_debug_text(p.page_token->0@))
        + ", history_length: "@ + opt_debug(p.history_length is Some, dec_of(p.history_length->0 as nat))
        + ", include_artifacts: "@ + opt_debug(p.include_artifacts is Some, bool_text(p.include_artifacts->0))
        + ", last_updated_after: "@ + opt_debug(p.last_updated_after is Some, int_dec(p.last_updated_after->0 as int))
        + ", metadata: "@ + opt_debug(p.metadata is Some, view_debug(p.metadata->0@))
        + " }"@
}

fn push_opt_str(o: &Option<String>, out: &mut String)
    ensures
        final(out)@ == old(out)@ + opt_debug(o is Some, str_debug_text(o->0@)),
{
    match o {
        Some(c) => {
            push_str(out, "Some(");
            let d = debug_str(c.as_str());
            push_str(out, d.as_str());
            push_str(out, ")");
        },
        None => push_str(out, "None"),
    }
    assert(out@ =~= old(out)@ + opt_debug(o is Some, str_debug_text(o->0@)));
}

fn push_opt_u32(o: Option<u32>, out: &mut String)
    ensures
        final(out)@ == old(out)@ + opt_debug(o is Some, dec_of(o->0 as nat)),
{
    match o {
        Some(n) => {
            push_str(out, "Some(");
            push_decimal(n as u64, out);
            push_str(out, ")");
        },
        None => push_str(out, "None"),
    }
    assert(out@ =~= old(out)@ + opt_debug(o is Some, dec_of(o->0 as nat)));
}

fn push_opt_rest(p: &ListTasksParams, out: &mut String)
    ensures
        final(out)@ == old(out)@ + ", include_artifacts: "@ + opt_debug(p.include_artifacts is Some, bool_text(p.include_artifacts->0))
            + ", last_updated_after: "@ + opt_debug(p.last_updated_after is Some, int_dec(p.last_updated_after->0 as int))
            + ", metadata: "@ + opt_debug(p.metadata is Some, view_debug(p.metadata->0@)) + " }"@,
{
    push_str(out, ", include_artifacts: ");
    let ghost a = out@;
    match p.include_artifacts {
        Some(b) => {
            push_str(out, "Some(");
            push_bool(b, out);
            push_str(out, ")");
        },
        None => push_str(out, "None"),
    }
    let ghost b = out@;
    assert(b =~= a + opt_debug(p.include_artifacts is Some, bool_text(p.include_artifacts->0)));
    push_str(out, ", last_updated_after: ");
    let ghost c = out@;
    match p.last_updated_after {
        Some(n) => {
            push_str(out, "Some(");
            push_signed_decimal(n, out);
            push_str(out, ")");
        },
        None => push_str(out, "None"),
    }
    let ghost d = out@;
    assert(d =~= c + opt_debug(p.last_updated_after is Some, int_dec(p.last_updated_after->0 as int)));
    push_str(out, ", metadata: ");
    let ghost e = out@;
    match &p.metadata {
        Some(m) => {
            push_str(out, "Some(");
            write_debug(m, out);
            push_str(out, ")");
        },
        None => push_str(out, "None"),
    }
    let ghost f = out@;
    assert(f =~= e + opt_debug(p.metadata is Some, view_debug(p.metadata->0@)));
    push_str(out, " }");
    assert(out@ =~= old(out)@ + ", include_artifacts: "@ + opt_debug(p.include_artifacts is Some, bool_text(p.include_artifacts->0))
            + ", last_updated_after: "@ + opt_debug(p.last_updated_after is Some, int_dec(p.last_updated_after->0 as int))
            + ", metadata: "@ + opt_debug(p.metadata is Some, view_debug(p.metadata->0@)) + " }"@);
}

/// The `Debug` text of list parameters.
fn debug_list_params(p: &ListTasksParams) -> (r: String)
    ensures
        r@ == list_params_debug(*p),
{
    let mut r = owned("ListTasksParams { context_id: ");
    push_opt_str(&p.context_id, &mut r);
    push_str(&mut r, ", status: ");
    let ghost a = r@;
    match &p.status {
        Some(st) => {
            push_str(&mut r, "Some(");
            push_str(&mut r, state_name_str(st));
            push_str(&mut r, ")");
        },
        None => push_str(&mut r, "None"),
    }
    assert(r@ =~= a + opt_debug(p.status is Some, state_name(p.status->0)));
    push_str(&mut r, ", page_size: ");
    push_opt_u32(p.page_size, &mut r);
    push_str(&mut r, ", page_token: ");
    push_opt_str(&p.page_token, &mut r);
    push_str(&mut r, ", history_length: ");
    push_opt_u32(p.history_length, &mut r);
    push_opt_rest(p, &mut r);
    assert(r@ =~= list_params_debug(*p));
    r
}

/// Station of `tasks/list`.
#[derive(Debug, Clone, Copy)]
pub struct ListTasksStation;

impl ListTasksStation {
    /// The JSON-RPC method name.
    pub const METHOD_NAME: &'static str = "tasks/list";
}

/// The reason given for a page size out of range.
pub open spec fn page_size_reason(n: nat) -> Seq<char> {
    "Page size "@ + dec_of(n) + " must be between 1 and 100"@
}

impl Station for ListTasksStation {
    type Input = ListTasksParams;
    type Output = ListTasksResult;

    open spec fn admits(input: ListTasksParams) -> bool {
        &&& input.page_size matches Some(n) ==> 1 <= n <= 100
        &&& input.history_length matches Some(n) ==> n <= 1000
    }

    fn validate(input: &ListTasksParams) -> (r: Result<(), RefusalReceipt>)
        ensures
            r matches Err(e) ==> e.code == RefusalCode::ValueOutOfRange && e.violated_guard@ == "ListTasksStation"@,
            r matches Err(e) ==> (!(input.page_size matches Some(n) ==> 1 <= n <= 100) ==>
                e.reason@ == page_size_reason(input.page_size->0 as nat)),
            r matches Err(e) ==> ((input.page_size matches Some(n) ==> 1 <= n <= 100) ==>
                e.reason@ == history_reason(input.history_length->0 as nat)),
            r matches Err(e) ==> e.input_hash@ == list_params_debug(*input),
    {
        if let Some(page_size) = input.page_size {
            if page_size < 1 || page_size > 100 {
                let mut reason = owned("Page size ");
                push_decimal(page_size as u64, &mut reason);
                push_str(&mut reason, " must be between 1 and 100");
                return Err(RefusalReceipt::new(
                    RefusalCode::ValueOutOfRange,
                    owned("ListTasksStation"),
                    debug_list_params(input),
                    1,
                    reason,
                ));
            }
        }
        if let Some(len) = input.history_length {
            if len > 1000 {
                return Err(history_refusal("ListTasksStation", debug_list_params(input), len));
            }
        }
        Ok(())
    }

    fn description() -> (r: &'static str)
        ensures
            r@ == "List tasks with filtering, pagination, and optional history (v0.3.0)"@,
    {
        "List tasks with filtering, pagination, and optional history (v0.3.0)"
    }
}

/// Station of `tasks/cancel`.
#[derive(Debug, Clone, Copy)]
pub struct CancelTaskStation;

impl CancelTaskStation {
    /// The JSON-RPC method name.
    pub const METHOD_NAME: &'static str = "tasks/cancel";
}

impl Station for CancelTaskStation {
    type Input = TaskIdParams;
    type Output = Task;

    open spec fn admits(input: TaskIdParams) -> bool {
        input.id@.len() > 0
    }

    fn validate(input: &TaskIdParams) -> (r: Result<(), RefusalReceipt>)
        ensures
            r matches Err(e) ==> e.code == RefusalCode::MissingRequiredField
                && e.violated_guard@ == "CancelTaskStation"@
                && e.input_hash@ == input.id@
                && e.reason@ == "Task ID must not be empty"@,
    {
        if input.id.as_str().is_empty() {
            return Err(refuse(RefusalCode::MissingRequiredField, "CancelTaskStation", input.id.clone(), "Task ID must not be empty"));
        }
        Ok(())
    }

    fn description() -> (r: &'static str)
        ensures
            r@ == "Request cancellation of a running task"@,
    {
        "Request cancellation of a running task"
    }
}

/// Station of `tasks/resubscribe`.
#[derive(Debug, Clone, Copy)]
pub struct TaskResubscribeStation;

impl TaskResubscribeStation {
    /// The JSON-RPC method name.
    pub const METHOD_NAME: &'static str = "tasks/resubscribe";
}

impl Station for TaskResubscribeStation {
    type Input = TaskIdParams;
    type Output = Task;

    open spec fn admits(input: TaskIdParams) -> bool {
        CancelTaskStation::admits(input)
    }

    fn validate(input: &TaskIdParams) -> (r: Result<(), RefusalReceipt>)
        ensures
            r matches Err(e) ==> e.code == RefusalCode::MissingRequiredField
                && e.violated_guard@ == "CancelTaskStation"@
                && e.reason@ == "Task ID must not be empty"@,
    {
        CancelTaskStation::validate(input)
    }

    fn description() -> (r: &'static str)
        ensures
            r@ == "Resume a streaming connection to an existing task after disconnect"@,
    {
        "Resume a streaming connection to an existing task after disconnect"
    }
}

/// Station of `tasks/pushNotificationConfig/set`.
#[derive(Debug, Clone, Copy)]
pub struct SetPushNotificationConfigStation;

impl SetPushNotificationConfigStation {
    /// The JSON-RPC method name.
    pub const METHOD_NAME: &'static str = "tasks/pushNotificationConfig/set";
}

/// A webhook URL uses `http://` or `https://`.
pub open spec fn is_http_url(url: Seq<char>) -> bool {
    ||| "http://"@.is_prefix_of(url)
    ||| "https://"@.is_prefix_of(url)
}

impl Station for SetPushNotificationConfigStation {
    type Input = TaskPushNotificationConfig;
    type Output = TaskPushNotificationConfig;

    open spec fn admits(input: TaskPushNotificationConfig) -> bool {
        &&& input.task_id@.len() > 0
        &&& input.push_notification_config.url@.len() > 0
        &&& is_http_url(input.push_notification_config.url@)
    }

    fn validate(input: &TaskPushNotificationConfig) -> (r: Result<(), RefusalReceipt>)
        ensures
            r matches Err(e) ==> e.violated_guard@ == "SetPushNotificationConfigStation"@ && e.input_hash@ == input.task_id@,
            r matches Err(e) ==> (input.task_id@.len() == 0 ==> e.code == RefusalCode::MissingRequiredField
                && e.reason@ == "Task ID must not be empty"@),
            r matches Err(e) ==> (input.task_id@.len() > 0 && input.push_notification_config.url@.len() == 0 ==>
                e.code == RefusalCode::MissingRequiredField && e.reason@ == "Webhook URL must not be empty"@),
            r matches Err(e) ==> (input.task_id@.len() > 0 && input.push_notification_config.url@.len() > 0 ==>
                e.code == RefusalCode::InvalidFormat && e.reason@ == "Webhook URL must use http:// or https://"@),
    {
        let station = "SetPushNotificationConfigStation";
        if input.task_id.as_str().is_empty() {
            return Err(refuse(RefusalCode::MissingRequiredField, station, input.task_id.clone(), "Task ID must not be empty"));
        }
        let url = input.push_notification_config.url.as_str();
        if url.is_empty() {
            return Err(refuse(RefusalCode::MissingRequiredField, station, input.task_id.clone(), "Webhook URL must not be empty"));
        }
        if !starts_with(url, "http://") && !starts_with(url, "https://") {
            return Err(refuse(
                RefusalCode::InvalidFormat,
                station,
                input.task_id.clone(),
                "Webhook URL must use http:// or https://",
            ));
        }
        Ok(())
    }

    fn description() -> (r: &'static str)
        ensures
            r@ == "Configure webhook endpoint for task status update notifications"@,
    {
        "Configure webhook endpoint for task status update notifications"
    }
}

/// Station of `tasks/pushNotificationConfig/get`.
#[derive(Debug, Clone, Copy)]
pub struct GetPushNotificationConfigStation;

impl GetPushNotificationConfigStation {
    /// The JSON-RPC method name.
    pub const METHOD_NAME: &'static str = "tasks/pushNotificationConfig/get";
}

impl Station for GetPushNotificationConfigStation {
    type Input = GetTaskPushNotificationConfigParams;
    type Output = TaskPushNotificationConfig;

    open spec fn admits(input: GetTaskPushNotificationConfigParams) -> bool {
        input.id@.len() > 0
    }

    fn validate(input: &GetTaskPushNotificationConfigParams) -> (r: Result<(), RefusalReceipt>)
        ensures
            r matches Err(e) ==> e.code == RefusalCode::MissingRequiredField
                && e.violated_guard@ == "GetPushNotificationConfigStation"@
                && e.input_hash@ == input.id@
                && e.reason@ == "Task ID must not be empty"@,
    {
        if input.id.as_str().is_empty() {
            return Err(refuse(
                RefusalCode::MissingRequiredField,
                "GetPushNotificationConfigStation",
                input.id.clone(),
                "Task ID must not be empty",
            ));
        }
        Ok(())
    }

    fn description() -> (r: &'static str)
        ensures
            r@ == "Retrieve a specific push notification configuration by ID (v0.3.0)"@,
    {
        "Retrieve a specific push notification configuration by ID (v0.3.0)"
    }
}

/// Station of `tasks/pushNotificationConfig/list`.
#[derive(Debug, Clone, Copy)]
pub struct ListPushNotificationConfigsStation;

impl ListPushNotificationConfigsStation {
    /// The JSON-RPC method name.
    pub const METHOD_NAME: &'static str = "tasks/pushNotificationConfig/list";
}

impl Station for ListPushNotificationConfigsStation {
    type Input = ListTaskPushNotificationConfigParams;
    type Output = Vec<TaskPushNotificationConfig>;

    open spec fn admits(input: ListTaskPushNotificationConfigParams) -> bool {
        input.id@.len() > 0
    }

    fn validate(input: &ListTaskPushNotificationConfigParams) -> (r: Result<(), RefusalReceipt>)
        ensures
            r matches Err(e) ==> e.code == RefusalCode::MissingRequiredField
                && e.violated_guard@ == "ListPushNotificationConfigsStation"@
                && e.input_hash@ == input.id@
                && e.reason@ == "Task ID must not be empty"@,
    {
        if input.id.as_str().is_empty() {
            return Err(refuse(
                RefusalCode::MissingRequiredField,
                "ListPushNotificationConfigsStation",
                input.id.clone(),
                "Task ID must not be empty",
            ));
        }
        Ok(())
    }

    fn description() -> (r: &'static str)
        ensures
            r@ == "List all push notification configurations for a task (v0.3.0)"@,
    {
        "List all push notification configurations for a task (v0.3.0)"
    }
}

/// Station of `tasks/pushNotificationConfig/delete`.
#[derive(Debug, Clone, Copy)]
pub struct DeletePushNotificationConfigStation;

impl DeletePushNotificationConfigStation {
    /// The JSON-RPC method name.
    pub const METHOD_NAME: &'static str = "tasks/pushNotificationConfig/delete";
}

impl Station for DeletePushNotificationConfigStation {
    type Input = DeleteTaskPushNotificationConfigParams;
    type Output = ();

    open spec fn admits(input: DeleteTaskPushNotificationConfigParams) -> bool {
        input.id@.len() > 0 && input.push_notification_config_id@.len() > 0
    }

    fn validate(input: &DeleteTaskPushNotificationConfigParams) -> (r: Result<(), RefusalReceipt>)
        ensures
            r matches Err(e) ==> e.code == RefusalCode::MissingRequiredField
                && e.violated_guard@ == "DeletePushNotificationConfigStation"@
                && e.input_hash@ == input.id@,
            r matches Err(e) ==> (input.id@.len() == 0 ==> e.reason@ == "Task ID must not be empty"@),
            r matches Err(e) ==> (input.id@.len() > 0 ==> e.reason@ == "Push notification config ID must not be empty"@),
    {
        let station = "DeletePushNotificationConfigStation";
        if input.id.as_str().is_empty() {
            return Err(refuse(RefusalCode::MissingRequiredField, station, input.id.clone(), "Task ID must not be empty"));
        }
        if input.push_notification_config_id.as_str().is_empty() {
            return Err(refuse(
                RefusalCode::MissingRequiredField,
                station,
                input.id.clone(),
                "Push notification config ID must not be empty",
            ));
        }
        Ok(())
    }

    fn description() -> (r: &'static str)
        ensures
            r@ == "Delete a specific push notification configuration (v0.3.0)"@,
    {
        "Delete a specific push notification configuration (v0.3.0)"
    }
}

/// Station of `agent/getAuthenticatedExtendedCard`.
#[derive(Debug, Clone, Copy)]
pub struct GetAuthenticatedExtendedCardStation;

impl GetAuthenticatedExtendedCardStation {
    /// The JSON-RPC method name.
    pub const METHOD_NAME: &'static str = "agent/getAuthenticatedExtendedCard";
}

/// The empty parameters of the agent card request.
#[derive(Debug, Clone, Copy)]
pub struct EmptyParams {}

impl Station for GetAuthenticatedExtendedCardStation {
    type Input = EmptyParams;
    type Output = AgentCard;

    open spec fn admits(input: EmptyParams) -> bool {
        true
    }

    fn validate(input: &EmptyParams) -> (r: Result<(), RefusalReceipt>) {
        Ok(())
    }

    fn description() -> (r: &'static str)
        ensures
            r@ == "Retrieve extended agent card with authenticated-only information (v0.3.0)"@,
    {
        "Retrieve extended agent card with authenticated-only information (v0.3.0)"
    }
}

/// The method names of the protocol, in registry order.
pub open spec fn method_names() -> Seq<Seq<char>> {
    seq![
        "message/send"@,
        "message/stream"@,
        "tasks/get"@,
        "tasks/list"@,
        "tasks/cancel"@,
        "tasks/resubscribe"@,
        "tasks/pushNotificationConfig/set"@,
        "tasks/pushNotificationConfig/get"@,
        "tasks/pushNotificationConfig/list"@,
        "tasks/pushNotificationConfig/delete"@,
        "agent/getAuthenticatedExtendedCard"@,
    ]
}

/// The descriptions of the methods, in registry order.
pub open spec fn method_descriptions() -> Seq<Seq<char>> {
    seq![
        "Send a message to an agent, optionally creating or continuing a task"@,
        "Send a message with real-time streaming updates via WebSocket or SSE"@,
        "Retrieve task status and optional message history"@,
        "List tasks with filtering, pagination, and optional history (v0.3.0)"@,
        "Request cancellation of a running task"@,
        "Resume a streaming connection to an existing task after disconnect"@,
        "Configure webhook endpoint for task status update notifications"@,
        "Retrieve a specific push notification configuration by ID (v0.3.0)"@,
        "List all push notification configurations for a task (v0.3.0)"@,
        "Delete a specific push notification configuration (v0.3.0)"@,
        "Retrieve extended agent card with authenticated-only information (v0.3.0)"@,
    ]
}

/// Lookup of the protocol's stations by method name.
#[derive(Debug, Clone, Copy)]
pub struct StationRegistry;

impl StationRegistry {
    /// Every method name, in registry order.
    pub fn all_methods() -> (r: Vec<&'static str>)
        ensures
            r@.len() == method_names().len(),
            forall|i: int| 0 <= i < r@.len() ==> r@[i]@ == method_names()[i],
    {
        let r = vec![
            SendMessageStation::METHOD_NAME,
            SendStreamingMessageStation::METHOD_NAME,
            GetTaskStation::METHOD_NAME,
            ListTasksStation::METHOD_NAME,
            CancelTaskStation::METHOD_NAME,
            TaskResubscribeStation::METHOD_NAME,
            SetPushNotificationConfigStation::METHOD_NAME,
            GetPushNotificationConfigStation::METHOD_NAME,
            ListPushNotificationConfigsStation::METHOD_NAME,
            DeletePushNotificationConfigStation::METHOD_NAME,
            GetAuthenticatedExtendedCardStation::METHOD_NAME,
        ];
        r
    }

    /// `true` iff the method is one of the protocol's.
    pub fn is_supported(method: &str) -> (r: bool)
        ensures
            r == method_names().contains(method@),
    {
        let all = Self::all_methods();
        let mut i: usize = 0;
        while i < all.len()
            invariant
                all@.len() == method_names().len(),
                forall|j: int| 0 <= j < all@.len() ==> all@[j]@ == method_names()[j],
                i <= all@.len(),
                forall|j: int| 0 <= j < i ==> method_names()[j] != method@,
            decreases all@.len() - i,
        {
            if str_eq(all[i], method) {
                assert(method_names()[i as int] == method@);
                return true;
            }
            i = i + 1;
        }
        false
    }

    /// The description of a method, if it is one of the protocol's.
    pub fn description(method: &str) -> (r: Option<&'static str>)
        ensures
            r is Some == method_names().contains(method@),
            forall|i: int| 0 <= i < method_names().len() && method_names()[i] == method@
                && (forall|j: int| 0 <= j < i ==> method_names()[j] != method@) ==>
                (r matches Some(d) && d@ == method_descriptions()[i]),
    {
        let all = Self::all_methods();
        let descs = vec![
            SendMessageStation::description(),
            SendStreamingMessageStation::description(),
            GetTaskStation::description(),
            ListTasksStation::description(),
            CancelTaskStation::description(),
            TaskResubscribeStation::description(),
            SetPushNotificationConfigStation::description(),
            GetPushNotificationConfigStation::description(),
            ListPushNotificationConfigsStation::description(),
            DeletePushNotificationConfigStation::description(),
            GetAuthenticatedExtendedCardStation::description(),
        ];
        let mut i: usize = 0;
        while i < all.len()
            invariant
                all@.len() == method_names().len(),
                descs@.len() == method_names().len(),
                forall|j: int| 0 <= j < all@.len() ==> all@[j]@ == method_names()[j],
                forall|j: int| 0 <= j < descs@.len() ==> descs@[j]@ == method_descriptions()[j],
                i <= all@.len(),
                forall|j: int| 0 <= j < i ==> method_names()[j] != method@,
            decreases all@.len() - i,
        {
            if str_eq(all[i], method) {
                return Some(descs[i]);
            }
            i = i + 1;
        }
        None
    }
}

/// The table of protocol coverage: every method of the protocol has a station.
#[derive(Debug, Clone, Copy)]
pub struct CoverageTable;

} // verus!
