//! Request/reply protocol client for remote control of a running game
//! process: a JSON envelope codec, a WebSocket protocol client that
//! correlates replies to requests, and a command dispatcher.

use vstd::prelude::*;

pub mod cli;
pub mod commands;
pub mod dispatch;
pub mod envelope;
pub mod json;
pub mod json_laws;
pub mod json_parser;
pub mod protocol;
pub mod ws;

verus! {

/// Protocol version shared by the codec and the client.
/// Changing it is a one-point edit.
pub const PROTOCOL_VERSION: u32 = 1;

/// The compiled-in protocol version carried by every envelope this
/// client sends and checked against every reply it accepts.
pub fn protocol_version() -> (v: u32)
    ensures
        v == PROTOCOL_VERSION,
{
    PROTOCOL_VERSION
}

} // verus!
