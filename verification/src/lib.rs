//! Session protocol engine for a small line-oriented chat client.
//!
//! The crate models the protocol's message union, the textual frame
//! format it travels in, the local command grammar, the rendering of
//! inbound messages, and the session state machine that drives a
//! connection from identity assignment to termination.

pub mod digits;
pub mod msg;
pub mod codec;
pub mod command;
pub mod render;
pub mod session;
