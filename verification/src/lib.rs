//! Client-side state engine for a real-time group chat.
//!
//! The crate maintains a live view of who is online (the roster) and what has
//! been said (the transcript), driven by typed envelopes that arrive over an
//! external transport. It provides the wire codec for those envelopes, a pure
//! classifier that picks a rendering category for a message body, the two
//! stores, and the session engine that dispatches decoded envelopes and builds
//! outgoing ones.

pub mod classify;
pub mod codec;
pub mod engine;
pub mod store;
pub mod types;
pub mod wire;
