//! Bridge between an HTTP front end and the CGI program `git http-backend`.
//!
//! The library holds the protocol logic of the bridge: building the CGI
//! environment for one request, parsing the CGI header block out of the
//! subprocess's output byte stream, turning that block into an HTTP response
//! head, and deciding the two streaming directions (request body to the
//! subprocess, subprocess output to the client). The surrounding server —
//! routing, the subprocess itself, and all socket and pipe I/O — lives
//! outside the library and hands it plain values.

use vstd::prelude::*;

pub mod byteops;
pub mod cgi_env;
pub mod header_parse;
pub mod response_head;
pub mod stream_ctl;

verus! {

/// The ways one bridged request can fail.
#[derive(Clone, Copy, Debug, PartialEq, Eq, Structural)]
pub enum CgiFailure {
    /// The CGI subprocess could not be started; fatal for the request.
    Spawn,
    /// The subprocess closed its input early while the request body was
    /// still being forwarded.
    UpstreamWrite,
    /// The subprocess's output ended before a complete header block was
    /// seen.
    TruncatedHeader,
    /// Reading the subprocess's output failed after the header block.
    UpstreamRead,
}

} // verus!
