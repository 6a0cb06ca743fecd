//! Big-endian views of the protocol's integer fields: the 2-byte path length
//! and the 8-byte payload length.

use vstd::prelude::*;

verus! {

/// Byte `i` (0 = most significant) of the big-endian encoding of `v`.
pub open spec fn spec_u64_be_byte(v: u64, i: int) -> u8
    recommends
        0 <= i < 8,
{
    (v >> ((7 - i) * 8)) as u8
}

/// The 8-byte big-endian encoding of `v`, most significant byte first.
pub open spec fn spec_u64_to_be_bytes(v: u64) -> Seq<u8> {
    Seq::new(8, |i: int| spec_u64_be_byte(v, i))
}

/// The unsigned 64-bit value read big-endian from the first 8 bytes of `s`.
pub open spec fn spec_u64_from_be_bytes(s: Seq<u8>) -> u64
    recommends
        s.len() >= 8,
{
    (((s[0] as u64) << 56) | ((s[1] as u64) << 48) | ((s[2] as u64) << 40) | ((s[3] as u64) << 32)
        | ((s[4] as u64) << 24) | ((s[5] as u64) << 16) | ((s[6] as u64) << 8) | (s[7] as u64)) as u64
}

/// The unsigned 16-bit value read big-endian from bytes `i` and `i + 1` of `s`,
/// as the decoder reads a path-length field.
pub open spec fn spec_u16_from_be_bytes(s: Seq<u8>, i: int) -> u16
    recommends
        0 <= i && i + 2 <= s.len(),
{
    (((s[i] as u16) << 8) | (s[i + 1] as u16)) as u16
}

/// Reading back the 8 bytes of a big-endian encoding yields the encoded value.
pub proof fn lemma_u64_be_roundtrip(v: u64)
    ensures
        spec_u64_from_be_bytes(spec_u64_to_be_bytes(v)) == v,
{
    let s = spec_u64_to_be_bytes(v);
    assert(s[0] == (v >> 56) as u8);
    assert(s[1] == (v >> 48) as u8);
    assert(s[2] == (v >> 40) as u8);
    assert(s[3] == (v >> 32) as u8);
    assert(s[4] == (v >> 24) as u8);
    assert(s[5] == (v >> 16) as u8);
    assert(s[6] == (v >> 8) as u8);
    assert(s[7] == (v >> 0) as u8);
    assert(((((v >> 56) as u8) as u64) << 56
        | (((v >> 48) as u8) as u64) << 48
        | (((v >> 40) as u8) as u64) << 40
        | (((v >> 32) as u8) as u64) << 32
        | (((v >> 24) as u8) as u64) << 24
        | (((v >> 16) as u8) as u64) << 16
        | (((v >> 8) as u8) as u64) << 8
        | (((v >> 0) as u8) as u64)) as u64 == v) by (bit_vector);
}

/// Pushes the 8-byte big-endian encoding of `v` onto `out`.
pub fn push_u64_be_bytes(out: &mut Vec<u8>, v: u64)
    ensures
        final(out)@ == old(out)@ + spec_u64_to_be_bytes(v),
{
    out.push(#[verifier::truncate] ((v >> 56) as u8));
    out.push(#[verifier::truncate] ((v >> 48) as u8));
    out.push(#[verifier::truncate] ((v >> 40) as u8));
    out.push(#[verifier::truncate] ((v >> 32) as u8));
    out.push(#[verifier::truncate] ((v >> 24) as u8));
    out.push(#[verifier::truncate] ((v >> 16) as u8));
    out.push(#[verifier::truncate] ((v >> 8) as u8));
    out.push(#[verifier::truncate] (v as u8));
    assert(out@ =~= old(out)@ + spec_u64_to_be_bytes(v)) by {
        assert(v as u8 == (v >> 0) as u8) by (bit_vector);
    }
}

/// Appends every byte of `src` to `out`.
pub fn push_bytes(out: &mut Vec<u8>, src: &Vec<u8>)
    ensures
        final(out)@ == old(out)@ + src@,
{
    let mut j: usize = 0;
    while j < src.len()
        invariant
            j <= src@.len(),
            out@ == old(out)@ + src@.subrange(0, j as int),
        decreases src@.len() - j,
    {
        out.push(src[j]);
        j = j + 1;
        proof {
            assert(out@ =~= old(out)@ + src@.subrange(0, j as int));
        }
    }
    proof {
        assert(old(out)@ + src@.subrange(0, src@.len() as int) =~= old(out)@ + src@);
    }
}

} // verus!
