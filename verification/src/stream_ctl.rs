//! Decisions of the two streaming directions.
//!
//! The server runs two concurrent loops per request: one forwards the
//! inbound body to the subprocess's input, the other relays the
//! subprocess's output to the client. The loops themselves are I/O; what
//! each loop does with the value the I/O yielded is decided here, so that
//! the decisions carry contracts: every body chunk is forwarded verbatim
//! and in order, the subprocess's input is closed exactly when the body
//! ends (an empty body closes it at once, before anything is written), and
//! the output relay stops exactly on the empty read that means
//! end-of-stream.

use vstd::prelude::*;

verus! {

/// What the body-forwarding loop does next with the subprocess's input.
#[derive(Debug, Clone, PartialEq, Eq)]
pub enum StdinStep {
    /// Write these bytes, unaltered, to the subprocess's input.
    Forward(Vec<u8>),
    /// The body is exhausted: close the input so the subprocess observes
    /// end-of-input instead of blocking on a read.
    CloseStdin,
}

/// Decides one step of body forwarding from the next body event: a chunk is
/// forwarded byte for byte, the end of the body — including the very first
/// event of an empty body — closes the subprocess's input.
pub fn plan_stdin_step(chunk: Option<Vec<u8>>) -> (a: StdinStep)
    ensures
        match chunk {
            Some(c) => a == StdinStep::Forward(c),
            None => a == StdinStep::CloseStdin,
        },
{
    match chunk {
        Some(c) => StdinStep::Forward(c),
        None => StdinStep::CloseStdin,
    }
}

/// Decides one step of the output relay from one read of the subprocess's
/// output: a read of zero bytes means end-of-stream and stops the relay;
/// anything else is sent onward unaltered, so the client sees the
/// subprocess's bytes in order.
pub fn plan_relay_step(chunk: Vec<u8>) -> (r: Option<Vec<u8>>)
    ensures
        chunk@.len() == 0 ==> r is None,
        chunk@.len() > 0 ==> r == Some(chunk),
{
    if chunk.len() == 0 {
        None
    } else {
        Some(chunk)
    }
}

} // verus!
