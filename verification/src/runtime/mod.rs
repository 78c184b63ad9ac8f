//! Runtime pieces: a deterministic scheduler and bounded actuation.

pub mod scheduler;
pub mod actuation;
pub mod executor;
