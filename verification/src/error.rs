//! The failure taxonomy of an adaptation attempt. Every failure is terminal
//! for the attempt; nothing is retried internally.

use vstd::prelude::*;

verus! {

/// Why a server reply was classified as an error.
#[derive(Clone, Copy, Debug, PartialEq, Eq, Structural)]
pub enum ServerErrorReason {
    /// A status outside the dispatch table answered a preview request.
    UnknownResponseForPreview,
    /// A continue status answered a request that already carried the whole
    /// body.
    UnexpectedContinue,
}

/// Ways an adaptation attempt fails.
#[derive(Debug)]
pub enum AdaptationError {
    /// Writing to the adaptation server failed.
    WriteFailed,
    /// The server's reply was missing, over the configured header bound, or
    /// malformed.
    ReadOrParseFailed,
    /// The server answered with an error status: classification, code and
    /// reason phrase.
    ServerErrorResponse(ServerErrorReason, u16, Vec<u8>),
    /// The server used a feature this client does not implement.
    NotImplemented(&'static str),
    /// No progress was observed within the configured idle allowance.
    /// The byte-level model never waits, so only the I/O shell that runs
    /// a real exchange classifies an expired idle timer this way.
    Timeout,
}

} // verus!
