//! The logic of the tetanus command line and of its Agent Client Protocol
//! bridge: what a turn reads as, what a failure says, what a peer is answered.
//!
//! Everything here is a function from plain values to plain values. Reading a
//! key, drawing a row and moving a frame are the program's; deciding which row,
//! which answer and which status is this crate's.
use vstd::prelude::*;

pub mod acp;
pub mod carrier;
pub mod chat;
pub mod command;
pub mod event;
pub mod input;
pub mod journal;
pub mod json;
pub mod mcp;
pub mod paint;
pub mod prompt;
pub mod render;
pub mod rpc;
pub mod run;
pub mod settings;
pub mod text;

verus! {

} // verus!
