//! The core of a websocket broadcast relay: a registry that tracks the
//! connected sessions and tells them every few seconds how many they are,
//! and the liveness protocol that each session runs with its client.
//!
//! The library decides; it neither listens nor sends. `server` holds the
//! registry, whose broadcast reaches the sessions through their actix
//! mailboxes. `session` holds the state machine of one connection, from
//! events to commands, and `liveness` what its rules add up to over time.
//! `seqno` hands out session ids, `text` words the broadcast, and `history`
//! relates the size of a registry to what it went through.

pub mod history;
pub mod liveness;
pub mod seqno;
pub mod server;
pub mod session;
pub mod text;
