//! Core of a room-based chat service: the per-connection protocol state
//! machine, the hub that tracks connected sessions and room membership, and
//! the records the storage gateway keeps.
//!
//! All text handled here (room names, display names, message bodies) is kept
//! as bytes; the transport layer converts between its own text frames and
//! these byte strings.

pub mod auth;
pub mod models;
pub mod protocol;
pub mod hub;
pub mod texts;
pub mod session;
