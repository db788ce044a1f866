//! An interactive client for a JSON-over-WebSocket RPC protocol, with its
//! logic verified: the schema type system and its text-to-JSON conversion
//! engine, the wire codec for the request envelope and the tagged response
//! union, the connection state machine with its sequence counter, and the
//! session state machine that the terminal front end drives.
//!
//! The front end itself — terminal drawing, the socket, prompts and files —
//! lives outside this crate and only feeds events in and carries frames out.

pub mod codec;
pub mod config;
pub mod convert;
pub mod json;
pub mod log;
pub mod schema;
pub mod state;
pub mod text;
pub mod transport;
pub mod types;

pub use json::JsonValue;
