//! The command surface: host a session, or join one.
//!
//! Argument parsing itself happens outside the crate; these are the plain
//! values it produces.

use vstd::prelude::*;

verus! {

/// What a guest needs to join: the host's public node identifier and the
/// pre-shared secret, both from the host's join instruction.
#[derive(Debug, Clone)]
pub struct JoinArgs {
    pub host: String,
    pub secret: String,
}

/// The two subcommands: share the current session, or join a shared one.
#[derive(Debug, Clone)]
pub enum Command {
    Host,
    Join(JoinArgs),
}

} // verus!
