//! A transport-agnostic JSON-RPC engine connecting a client to a set of
//! server-exposed tools, prompts and resources.
//!
//! The crate is organised bottom-up: the error taxonomy, a JSON value model
//! with a verified serializer and parser, the JSON-RPC codec on top of it,
//! the connection state machine shared by every transport, and finally the
//! client and server engines.

pub mod auth;
pub mod client;
pub mod codec;
pub mod error;
pub mod events;
pub mod json;
pub mod prompt;
pub mod resource;
pub mod server;
pub mod stdio;
pub mod tools;
pub mod text;
pub mod transport;
