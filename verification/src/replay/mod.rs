//! Replay: recording executions, replaying them, and stepping through a
//! recording.

pub mod recording;
pub mod debugger;
