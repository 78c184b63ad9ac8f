use a2a_rs::transport::websocket::{
    keep_queued_request, queue_refusal, ConnectionStatus, HeartbeatConfig as WsHeartbeat, QueueConfig, SessionState,
};
use a2a_rs::transport::ws_client::{heartbeat_timed_out, ConnectionState, HeartbeatConfig};
use a2a_rs::transport::zerocopy::{keeps_returned, BufferClass, PoolSizes, ZeroCopyStats};
use std::sync::atomic::{AtomicUsize, Ordering};
use std::time::Duration;

#[test]
fn test_default_heartbeat_config() {
    let config = HeartbeatConfig::default();
    assert_eq!(config.ping_interval_secs, 30);
    assert_eq!(config.pong_timeout_secs, 10);
    assert!(config.enabled);
}

#[test]
fn test_buffer_stats() {
    let stats = ZeroCopyStats {
        total_allocated: AtomicUsize::new(1000),
        total_in_use: AtomicUsize::new(500),
        active_buffers: AtomicUsize::new(5),
        buffer_reuses: AtomicUsize::new(10),
        buffer_copies: AtomicUsize::new(2),
    };
    assert_eq!(stats.total_allocated.load(Ordering::Relaxed), 1000);
    assert_eq!(stats.total_in_use.load(Ordering::Relaxed), 500);
    assert_eq!(stats.active_buffers.load(Ordering::Relaxed), 5);
    assert_eq!(stats.buffer_reuses.load(Ordering::Relaxed), 10);
    assert_eq!(stats.buffer_copies.load(Ordering::Relaxed), 2);
    let snap = stats.snapshot();
    assert_eq!(snap.buffer_reuses, 10);
}

#[test]
fn connection_states_differ() {
    assert_ne!(ConnectionState::Connected, ConnectionState::Reconnecting);
    assert!(ConnectionStatus::Connected.is_connected());
    assert!(!ConnectionStatus::Reconnecting.is_connected());
    assert!(ConnectionStatus::Reconnecting.can_send());
    assert!(!ConnectionStatus::Closed.can_send());
}

#[test]
fn heartbeat_timeout_after_pong_and_ping_window() {
    let config = HeartbeatConfig::default();
    assert!(!heartbeat_timed_out(&config, None));
    assert!(!heartbeat_timed_out(&config, Some(40_000)));
    assert!(heartbeat_timed_out(&config, Some(40_001)));
}

#[test]
fn websocket_defaults() {
    let hb = WsHeartbeat::default();
    assert!(hb.enabled);
    assert_eq!(hb.interval, Duration::from_secs(30));
    assert_eq!(hb.timeout, Duration::from_secs(10));
    let q = QueueConfig::default();
    assert_eq!(q.max_size, 1000);
    assert_eq!(q.max_age, Duration::from_secs(300));
    assert_eq!(q.max_retries, 3);
}

#[test]
fn queue_decisions() {
    let mut q = QueueConfig::default();
    assert!(keep_queued_request(&q, false, 2));
    assert!(!keep_queued_request(&q, false, 3));
    assert!(!keep_queued_request(&q, true, 0));
    assert_eq!(queue_refusal(&q, 999), None);
    assert_eq!(queue_refusal(&q, 1000), Some((1000, 1000)));
    q.enabled = false;
    assert_eq!(queue_refusal(&q, 1), Some((0, 0)));
}

#[test]
fn sessions_start_fresh() {
    let mut s = SessionState::new();
    assert_eq!(s.reconnect_count, 0);
    assert_eq!(s.session_id.len(), 36);
    s.touch();
    assert!(!s.is_expired(Duration::from_secs(60)));
}

#[test]
fn buffer_classes() {
    let p = PoolSizes::default();
    assert_eq!(p.class_for(1024), BufferClass::Small);
    assert_eq!(p.class_for(4097), BufferClass::Medium);
    assert_eq!(p.class_for(1048576), BufferClass::Large);
    assert_eq!(p.class_for(1048577), BufferClass::Oversized);
    assert_eq!(p.capacity_for(1024), 4096);
    assert_eq!(p.capacity_for(2_000_000), 2_000_000);
    assert!(keeps_returned(&p, 4096, 99));
    assert!(!keeps_returned(&p, 4096, 100));
    assert!(!keeps_returned(&p, 2_000_000, 0));
}

#[test]
fn expiry_rule_is_strictly_longer() {
    assert!(a2a_rs::transport::websocket::expired(5, 3));
    assert!(!a2a_rs::transport::websocket::expired(3, 3));
    assert!(!a2a_rs::transport::websocket::expired(0, 3));
}
