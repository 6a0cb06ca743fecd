//! A minimal binary wire protocol ("nFTP") for remote directory listing and
//! single-file retrieval: a bounds-checked frame decoder, version and
//! instruction dispatch, response-header encoding, a directory-tree text
//! serializer, the per-connection request lifecycle, and the bounded-retry
//! error-reporting schedule.

pub mod bytes;
pub mod conn;
pub mod errors;
pub mod frame;
pub mod parser;
pub mod response;
pub mod retry;
pub mod tree;
pub mod version;

use vstd::prelude::*;

verus! {

/// Response code for a successful request; the response carries a body.
pub const RC_OK: u8 = 1;

/// Response code for the generic error frame; such a response carries no body.
pub const RC_ERROR: u8 = 2;

/// Largest number of paths a request frame may declare.
pub const MAX_PATHS: u8 = 10;

/// The version byte of protocol revision 1.0: major nibble 1, minor nibble 0.
pub const VERSION_BYTE_1_0: u8 = 0x10;

/// Instruction code of GET: retrieve one file.
pub const INSTRUCTION_GET: u8 = 0;

/// Instruction code of LIST: serialize the directory tree.
pub const INSTRUCTION_LIST: u8 = 1;

/// Size of the fixed receive buffer for one request.
pub const MAX_HEADER_BUF: usize = 1024;

/// First byte of the protocol literal: ASCII 'n'.
pub const MAGIC_0: u8 = 110;

/// Second byte of the protocol literal: ASCII 'F'.
pub const MAGIC_1: u8 = 70;

/// Third byte of the protocol literal: ASCII 'T'.
pub const MAGIC_2: u8 = 84;

/// Fourth byte of the protocol literal: ASCII 'P'.
pub const MAGIC_3: u8 = 80;

/// The 4-byte protocol literal, ASCII "nFTP", that opens every request and
/// response frame.
pub open spec fn spec_magic() -> Seq<u8> {
    seq![MAGIC_0, MAGIC_1, MAGIC_2, MAGIC_3]
}

} // verus!
