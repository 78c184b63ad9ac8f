//! Connection states and heartbeat settings of the reconnecting WebSocket client.
use vstd::prelude::*;

verus! {

/// Where a client connection stands.
#[derive(Debug, Clone, Copy, PartialEq, Eq, Structural)]
pub enum ConnectionState {
    Disconnected,
    Connecting,
    Connected,
    Reconnecting,
    Closed,
}

/// Ping/pong settings.
#[derive(Debug, Clone, Copy, PartialEq, Eq, Structural)]
pub struct HeartbeatConfig {
    /// Seconds between pings.
    pub ping_interval_secs: u64,
    /// Seconds to wait for a pong.
    pub pong_timeout_secs: u64,
    pub enabled: bool,
}

impl Default for HeartbeatConfig {
    fn default() -> (r: Self)
        ensures
            r.ping_interval_secs == 30,
            r.pong_timeout_secs == 10,
            r.enabled,
    {
        HeartbeatConfig { ping_interval_secs: 30, pong_timeout_secs: 10, enabled: true }
    }
}

/// `true` when the heartbeat has timed out: the last pong came more than
/// `pong_timeout_secs + ping_interval_secs` ago (given in milliseconds).
pub fn heartbeat_timed_out(config: &HeartbeatConfig, since_last_pong_ms: Option<u64>) -> (r: bool)
    ensures
        r == match since_last_pong_ms {
            Some(ms) => ms > (config.pong_timeout_secs + config.ping_interval_secs) * 1000,
            None => false,
        },
{
    match since_last_pong_ms {
        Some(ms) => {
            let limit: u128 = (config.pong_timeout_secs as u128 + config.ping_interval_secs as u128) * 1000;
            (ms as u128) > limit
        },
        None => false,
    }
}

} // verus!
