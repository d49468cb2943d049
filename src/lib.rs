//! A line-oriented multi-client chat service: the message protocol, the
//! coordinator that owns the client registry, and the per-session line
//! grammar and rendering.

pub mod client;
pub mod error;
pub mod message;
pub mod server;
