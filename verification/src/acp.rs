//! The Agent Client Protocol, both halves of it: the agent an editor drives,
//! and a peer that drives one.
//!
//! Frames go in and decisions come out. Reading a pipe, running a turn and
//! waiting on a peer are the caller's; which frame is answered with what, who
//! holds a session's one prompt slot and what counts as a grant are decided
//! here.
pub mod bridge;
pub mod client;
pub mod content;
pub mod frame;
pub mod updates;
pub mod wire;
