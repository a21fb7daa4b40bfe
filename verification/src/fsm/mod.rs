//! The client protocol engine: a state machine without I/O.

pub mod action;
pub mod engine;
pub mod laws;
pub mod state;
