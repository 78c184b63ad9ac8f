//! Decisions and configuration of the HTTP and WebSocket transports.
pub mod middleware;
pub mod health;
pub mod websocket;
pub mod ws_client;
pub mod openapi;
pub mod zerocopy;
