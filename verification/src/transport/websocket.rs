//! Session and connection bookkeeping of the WebSocket client.
use vstd::prelude::*;
use crate::observability::{duration_nanos, instant_elapsed, instant_now};
use crate::ambient::new_uuid;
use std::time::{Duration, Instant};

verus! {

/// A client session.
#[derive(Debug)]
pub struct SessionState {
    /// Unique session identifier.
    pub session_id: String,
    /// When the session connected.
    pub connected_at: Instant,
    /// When the session was last active.
    pub last_activity: Instant,
    /// How often the session reconnected.
    pub reconnect_count: u32,
}

/// The expiry rule: a session idle for `idle_ns` nanoseconds has expired
/// under a timeout of `timeout_ns` nanoseconds iff it was idle strictly longer.
pub fn expired(idle_ns: u128, timeout_ns: u128) -> (r: bool)
    ensures
        r == (idle_ns > timeout_ns),
{
    idle_ns > timeout_ns
}

/// `Duration::from_secs`.
#[verifier::external_body]
fn seconds(n: u64) -> Duration {
    Duration::from_secs(n)
}

impl SessionState {
    /// A new session, connected and active now, never reconnected.
    pub fn new() -> (r: Self)
        ensures
            r.reconnect_count == 0,
            r.connected_at == r.last_activity,
    {
        let now = instant_now();
        SessionState { session_id: new_uuid(), connected_at: now, last_activity: now, reconnect_count: 0 }
    }

    /// Marks the session active now.
    pub fn touch(&mut self)
        ensures
            final(self).session_id == old(self).session_id,
            final(self).connected_at == old(self).connected_at,
            final(self).reconnect_count == old(self).reconnect_count,
    {
        self.last_activity = instant_now();
    }

    /// `true` iff the session has been idle longer than `timeout`: the
    /// idle time read from the clock and the timeout, both in whole
    /// nanoseconds, decided by `expired`.
    pub fn is_expired(&self, timeout: Duration) -> bool {
        let idle = instant_elapsed(&self.last_activity);
        expired(duration_nanos(&idle), duration_nanos(&timeout))
    }
}

/// Where a client connection stands.
#[derive(Debug, Clone, Copy, PartialEq, Eq, Structural)]
pub enum ConnectionStatus {
    Disconnected,
    Connecting,
    Connected,
    Reconnecting,
    Closed,
}

impl ConnectionStatus {
    /// `true` iff connected.
    pub fn is_connected(&self) -> (r: bool)
        ensures
            r == (*self == ConnectionStatus::Connected),
    {
        match self {
            ConnectionStatus::Connected => true,
            _ => false,
        }
    }

    /// `true` iff requests may be sent (connected, or queued while reconnecting).
    pub fn can_send(&self) -> (r: bool)
        ensures
            r == (*self == ConnectionStatus::Connected || *self == ConnectionStatus::Reconnecting),
    {
        match self {
            ConnectionStatus::Connected | ConnectionStatus::Reconnecting => true,
            _ => false,
        }
    }
}

/// Heartbeat settings.
#[derive(Debug, Clone, Copy)]
pub struct HeartbeatConfig {
    pub enabled: bool,
    /// Time between heartbeats (30 s by default).
    pub interval: Duration,
    /// Time without an answer after which the connection is dead (10 s by default).
    pub timeout: Duration,
}

impl Default for HeartbeatConfig {
    fn default() -> (r: Self)
        ensures
            r.enabled,
    {
        HeartbeatConfig { enabled: true, interval: seconds(30), timeout: seconds(10) }
    }
}

/// Offline request queue settings.
#[derive(Debug, Clone, Copy)]
pub struct QueueConfig {
    pub enabled: bool,
    /// Largest number of queued requests.
    pub max_size: usize,
    /// Age after which a queued request is dropped (300 s by default).
    pub max_age: Duration,
    /// Attempts per request.
    pub max_retries: u32,
}

impl Default for QueueConfig {
    fn default() -> (r: Self)
        ensures
            r.enabled,
            r.max_size == 1000,
            r.max_retries == 3,
    {
        QueueConfig { enabled: true, max_size: 1000, max_age: seconds(300), max_retries: 3 }
    }
}

/// Whether a queued request is still sent after a reconnection: it is
/// dropped once older than `max_age` or when its retries are used up.
pub fn keep_queued_request(config: &QueueConfig, older_than_max_age: bool, retry_count: u32) -> (r: bool)
    ensures
        r == (!older_than_max_age && retry_count < config.max_retries),
{
    !older_than_max_age && retry_count < config.max_retries
}

/// Why a request cannot be queued, as `(current, capacity)` of the queue:
/// `(0, 0)` when queueing is off, the queue's size and limit when it is full.
pub fn queue_refusal(config: &QueueConfig, queue_len: usize) -> (r: Option<(usize, usize)>)
    ensures
        !config.enabled ==> r == Some((0usize, 0usize)),
        config.enabled && queue_len >= config.max_size ==> r == Some((queue_len, config.max_size)),
        config.enabled && queue_len < config.max_size ==> r is None,
{
    if !config.enabled {
        Some((0, 0))
    } else if queue_len >= config.max_size {
        Some((queue_len, config.max_size))
    } else {
        None
    }
}

} // verus!
