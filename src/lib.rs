//! Message protocol and session state of a real-time chat client.
//!
//! - `protocol`: the wire envelope, chat messages and user profiles.
//! - `json`: the JSON framing of those values, with string escaping
//!   delegated to serde_json.
//! - `codec`: envelope and chat-message encoding and decoding.
//! - `store`: the roster and message history derived from received envelopes.
//! - `bus`: the publish/subscribe relay between the connection and its consumers.
//! - `outbound`: envelopes that the client itself sends.
pub mod protocol;
pub mod json;
pub mod codec;
pub mod outbound;
pub mod store;
pub mod bus;
