//! The error taxonomy of the protocol: every way a request can fail, from
//! frame decoding through instruction execution to response delivery.

use vstd::prelude::*;

verus! {

/// Everything that can go wrong while handling one request.
#[derive(Clone, Copy, Debug, PartialEq, Eq, Structural)]
pub enum NftpError {
    /// The buffer does not start with the 4-byte protocol literal.
    ProtocolMismatch,
    /// The version byte names a (major, minor) pair with no registered handler.
    UnsupportedVersion,
    /// The buffer ends before a declared field does.
    Truncated,
    /// A path is not valid UTF-8.
    InvalidEncoding,
    /// The declared path count is outside `1..=MAX_PATHS`.
    InvalidPathCount,
    /// The instruction code is reserved or unknown.
    UnknownInstruction,
    /// The instruction rejected its arguments.
    InvalidArgument,
    /// The requested path does not name an existing regular file.
    NotFound,
    /// Reading the filesystem or writing the stream failed.
    IOFailure,
    /// The error frame could not be delivered within the retry budget.
    ResponseDeliveryFailure,
}

} // verus!
