//! Core of a NEAR-intents solver-bus client: the wire-message codec, the
//! intent-to-quote pipeline, and the dispatch and keep-alive state machines.
//!
//! Transport (the websocket itself) and the pricing and signing collaborators
//! stay outside this crate; the library states and proves what is computed
//! between those edges.

pub mod codec;
pub mod dispatch;
pub mod keepalive;
pub mod pipeline;
pub mod types;
