//! Verified core of a peer-to-peer terminal-session sharing tool.
//!
//! A host exposes a local terminal-multiplexer session to a single guest
//! over an encrypted peer-to-peer connection. This crate holds the logic
//! of that exchange: the length-prefixed codec for session metadata, the
//! pre-shared-secret authentication protocol of both roles, discovery of
//! the local session from an explicit environment value, and the model of
//! the stream-forwarding bridge that multiplexes independent links over
//! the shared connection. The transport and socket I/O around this logic
//! live outside the crate and feed it plain values.

pub mod auth;
pub mod bridge;
pub mod cli;
pub mod codec;
pub mod session;
