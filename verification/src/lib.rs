//! Core of a desktop client that relays prompts to a conversational gateway
//! over one WebSocket session: the session state machine, the wire envelopes,
//! the device fingerprint, the conversation bookkeeping rules and the update
//! check.

pub mod text;
pub mod commands;
pub mod database;
pub mod hwid;
pub mod probe;
pub mod version;
pub mod websocket;
