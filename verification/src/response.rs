//! The response encoder: builds and mutates the reply header.
//!
//! Two header shapes exist on the wire: a 6-byte header (magic, version,
//! code) for bodiless codes, and a 14-byte header that appends an 8-byte
//! big-endian payload length for codes that carry a body.

use vstd::prelude::*;
use crate::bytes::{spec_u64_from_be_bytes, spec_u64_to_be_bytes, push_u64_be_bytes};
use crate::{spec_magic, MAGIC_0, MAGIC_1, MAGIC_2, MAGIC_3};

verus! {

/// The version byte: high nibble major, low nibble minor.
pub open spec fn spec_version_byte(version_major: u8, version_minor: u8) -> u8 {
    (version_major << 4) | version_minor
}

/// The header bytes for one response: magic, version byte, response code,
/// and, when a payload length is given, its 8-byte big-endian encoding.
pub open spec fn spec_header_bytes(version_byte: u8, response_code: u8, payload_dim: Option<u64>) -> Seq<u8> {
    let fixed = spec_magic() + seq![version_byte, response_code];
    match payload_dim {
        Some(d) => fixed + spec_u64_to_be_bytes(d),
        None => fixed,
    }
}

/// A response header for the nFTP protocol, held as the exact bytes that go
/// on the wire.
pub struct ResponseHeader {
    header_bytes: Vec<u8>,
}

impl View for ResponseHeader {
    type V = Seq<u8>;

    closed spec fn view(&self) -> Seq<u8> {
        self.header_bytes@
    }
}

impl ResponseHeader {
    /// A header is well formed when it has one of the two wire shapes:
    /// 6 bytes without the payload-length field, 14 bytes with it.
    pub open spec fn wf(&self) -> bool {
        self@.len() == 6 || self@.len() == 14
    }

    /// Builds the header for the given version nibbles, response code, and
    /// optional payload length.
    pub fn new(version_major: u8, version_minor: u8, response_code: u8, payload_dim: Option<u64>) -> (h: Self)
        ensures
            h@ == spec_header_bytes(spec_version_byte(version_major, version_minor), response_code, payload_dim),
            h.wf(),
    {
        let mut output_bytes: Vec<u8> = Vec::with_capacity(if payload_dim.is_some() { 14 } else { 6 });
        output_bytes.push(MAGIC_0);
        output_bytes.push(MAGIC_1);
        output_bytes.push(MAGIC_2);
        output_bytes.push(MAGIC_3);
        output_bytes.push((version_major << 4) | version_minor);
        output_bytes.push(response_code);
        assert(output_bytes@ =~= spec_magic() + seq![spec_version_byte(version_major, version_minor), response_code]);
        if let Some(d) = payload_dim {
            push_u64_be_bytes(&mut output_bytes, d);
        }
        ResponseHeader { header_bytes: output_bytes }
    }

    /// Overwrites the version byte; every other byte stays as it was.
    pub fn set_new_version(&mut self, version_major: u8, version_minor: u8)
        requires
            old(self).wf(),
        ensures
            final(self)@ == old(self)@.update(4, spec_version_byte(version_major, version_minor)),
            final(self).wf(),
    {
        *vstd::std_specs::vec::vec_index_mut(&mut self.header_bytes, 4) =
            (version_major << 4) | version_minor;
    }

    /// Overwrites the response code; every other byte stays as it was.
    pub fn set_new_response_code(&mut self, response_code: u8)
        requires
            old(self).wf(),
        ensures
            final(self)@ == old(self)@.update(5, response_code),
            final(self).wf(),
    {
        *vstd::std_specs::vec::vec_index_mut(&mut self.header_bytes, 5) = response_code;
    }

    /// Adds, overwrites, or removes the trailing payload-length field.
    ///
    /// The first 6 bytes — magic, version, code — are kept as they are; the
    /// header ends up 14 bytes long when a length is given and 6 bytes long
    /// when none is.
    pub fn set_new_payload_dim(&mut self, payload_dim: Option<u64>)
        requires
            old(self).wf(),
        ensures
            final(self)@ == match payload_dim {
                Some(d) => old(self)@.take(6) + spec_u64_to_be_bytes(d),
                None => old(self)@.take(6),
            },
            final(self).wf(),
    {
        self.header_bytes.truncate(6);
        assert(self.header_bytes@ =~= old(self)@.take(6));
        if let Some(d) = payload_dim {
            push_u64_be_bytes(&mut self.header_bytes, d);
        }
    }

    /// The header bytes, ready to be written to the wire.
    pub fn get_header(&self) -> (r: &Vec<u8>)
        ensures
            r@ == self@,
    {
        &self.header_bytes
    }
}

/// Reassembles 8 bytes into the 64-bit unsigned integer they encode
/// big-endian, as a reader of the payload-length field does.
pub fn reassemble_u64_from_bytes(bytes: &[u8]) -> (res: u64)
    requires
        bytes@.len() >= 8,
    ensures
        res == spec_u64_from_be_bytes(bytes@),
{
    ((bytes[0] as u64) << 56) | ((bytes[1] as u64) << 48) | ((bytes[2] as u64) << 40)
        | ((bytes[3] as u64) << 32) | ((bytes[4] as u64) << 24) | ((bytes[5] as u64) << 16)
        | ((bytes[6] as u64) << 8) | (bytes[7] as u64)
}


/// The generic error frame sent on failure: the distinguished error code and
/// no payload-length field, 6 bytes in all.
pub fn error_response_header() -> (h: ResponseHeader)
    ensures
        h@ == spec_header_bytes(spec_version_byte(1, 0), crate::RC_ERROR, None::<u64>),
        h@.len() == 6,
        h.wf(),
{
    ResponseHeader::new(1, 0, crate::RC_ERROR, None)
}

/// Law: toggling the payload-length field between present and absent moves a
/// well-formed header between its two shapes — 14 bytes with the field, 6
/// without — while the magic, version, and code bytes stay what they were.
pub proof fn lemma_payload_dim_toggle(h: Seq<u8>, d: u64)
    requires
        h.len() == 6 || h.len() == 14,
    ensures
        (h.take(6) + spec_u64_to_be_bytes(d)).len() == 14,
        h.take(6).len() == 6,
        forall|i: int|
            0 <= i < 6 ==> (h.take(6) + spec_u64_to_be_bytes(d))[i] == h[i] && #[trigger] h.take(
                6,
            )[i] == h[i],
{
}

} // verus!
