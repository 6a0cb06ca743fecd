//! The frame decoder: cursor-driven, bounds-checked recognition of the
//! protocol fields in a request buffer.
//!
//! Every operation works over `(buffer, total_len, acc_len, index)`:
//! `acc_len` accumulates how far the frame is known to reach, `index` points
//! at the field being read. A shortfall of the buffer is a decode failure,
//! never a panic, and the whole frame is abandoned on the first failure.

use vstd::prelude::*;
use vstd::utf8::valid_utf8;
use crate::bytes::spec_u16_from_be_bytes;
use crate::errors::NftpError;
use crate::version::{Version1_0, VersionHandler};
use crate::{spec_magic, MAGIC_0, MAGIC_1, MAGIC_2, MAGIC_3, MAX_PATHS};

verus! {

/// Relies on core::str::from_utf8: it accepts exactly the byte sequences
/// that are valid UTF-8, the sequences vstd's `valid_utf8` describes.
#[verifier::external_body]
fn utf8_check(bytes: &[u8]) -> (r: bool)
    ensures
        r == valid_utf8(bytes@),
{
    core::str::from_utf8(bytes).is_ok()
}

/// What recognizing the protocol literal yields: the cursor past the literal
/// and over the version byte, or a mismatch.
pub open spec fn spec_protocol_recognition(bytes: Seq<u8>, total: int, acc: int, index: int) -> Result<
    (int, int),
    NftpError,
> {
    if total > acc && acc - index == 4 && bytes.subrange(index, acc) == spec_magic() {
        Ok((acc + 1, acc))
    } else {
        Err(NftpError::ProtocolMismatch)
    }
}

/// What recognizing the version byte yields: the byte itself when its high
/// nibble (major) is 1 and its low nibble (minor) is 0; the cursor does not
/// move.
pub open spec fn spec_version_recognition(bytes: Seq<u8>, total: int, acc: int, index: int) -> Result<
    u8,
    NftpError,
> {
    if total <= acc {
        Err(NftpError::Truncated)
    } else {
        let b = bytes[index];
        if b >> 4 == 1 && b & 0x0f == 0 {
            Ok(b)
        } else {
            Err(NftpError::UnsupportedVersion)
        }
    }
}

/// What recognizing the instruction byte yields: the byte at `acc`, with the
/// cursor advanced past it.
pub open spec fn spec_istruction_recognition(bytes: Seq<u8>, total: int, acc: int) -> Result<
    (u8, int, int),
    NftpError,
> {
    if total <= acc + 1 {
        Err(NftpError::Truncated)
    } else {
        Ok((bytes[acc], acc + 1, acc))
    }
}

/// What decoding `n` path entries starting at `acc` yields: the paths in wire
/// order and the cursor after them. Each entry is a 2-byte big-endian length
/// followed by that many bytes of UTF-8.
pub open spec fn spec_decode_paths(bytes: Seq<u8>, total: int, acc: int, index: int, n: nat) -> Result<
    (Seq<Seq<u8>>, int, int),
    NftpError,
>
    decreases n,
{
    if n == 0 {
        Ok((Seq::empty(), acc, index))
    } else if total <= acc + 2 {
        Err(NftpError::Truncated)
    } else {
        let dim = spec_u16_from_be_bytes(bytes, acc) as int;
        if total - (acc + 2) < dim {
            Err(NftpError::Truncated)
        } else if !valid_utf8(bytes.subrange(acc + 2, acc + 2 + dim)) {
            Err(NftpError::InvalidEncoding)
        } else {
            match spec_decode_paths(bytes, total, acc + 2 + dim, acc + 2, (n - 1) as nat) {
                Ok((rest, acc2, idx2)) => Ok(
                    (seq![bytes.subrange(acc + 2, acc + 2 + dim)] + rest, acc2, idx2),
                ),
                Err(e) => Err(e),
            }
        }
    }
}

/// What recognizing the path list yields: the count byte at `acc` must lie in
/// `1..=MAX_PATHS`, and that many entries follow.
pub open spec fn spec_path_recognition(bytes: Seq<u8>, total: int, acc: int) -> Result<
    (Seq<Seq<u8>>, int, int),
    NftpError,
> {
    if total <= acc + 1 {
        Err(NftpError::Truncated)
    } else {
        let n = bytes[acc];
        if n < 1 || n > MAX_PATHS {
            Err(NftpError::InvalidPathCount)
        } else {
            spec_decode_paths(bytes, total, acc + 1, acc, n as nat)
        }
    }
}

/// Checks that the 4 bytes from `index` up to `acc_len` are the protocol
/// literal "nFTP"; on success the cursor is advanced over the version byte.
///
/// Fails `ProtocolMismatch` for every buffer that does not carry the exact
/// literal there, including truncated prefixes; on failure the cursor is left
/// as it was.
pub fn protocol_recognition(input_bytes: &Vec<u8>, total_len: usize, acc_len: &mut usize, index: &mut usize) -> (r: Result<
    (),
    NftpError,
>)
    requires
        *old(index) <= *old(acc_len),
        total_len <= input_bytes@.len(),
    ensures
        match spec_protocol_recognition(
            input_bytes@,
            total_len as int,
            *old(acc_len) as int,
            *old(index) as int,
        ) {
            Ok((acc2, idx2)) => r == Ok::<(), NftpError>(()) && *final(acc_len) == acc2
                && *final(index) == idx2,
            Err(e) => r == Err::<(), NftpError>(e) && *final(acc_len) == *old(acc_len)
                && *final(index) == *old(index),
        },
{
    let ghost s = spec_magic();
    if total_len <= *acc_len {
        return Err(NftpError::ProtocolMismatch);
    }
    if *acc_len - *index != 4 {
        return Err(NftpError::ProtocolMismatch);
    }
    let i = *index;
    if input_bytes[i] != MAGIC_0 || input_bytes[i + 1] != MAGIC_1 || input_bytes[i + 2] != MAGIC_2
        || input_bytes[i + 3] != MAGIC_3 {
        proof {
            let sub = input_bytes@.subrange(i as int, *acc_len as int);
            assert(sub != s) by {
                if sub == s {
                    assert(sub[0] == MAGIC_0 && sub[1] == MAGIC_1 && sub[2] == MAGIC_2 && sub[3]
                        == MAGIC_3);
                }
            }
        }
        return Err(NftpError::ProtocolMismatch);
    }
    proof {
        assert(input_bytes@.subrange(i as int, *acc_len as int) =~= s);
    }
    *index = *acc_len;
    *acc_len = *acc_len + 1;
    Ok(())
}

/// Reads the version byte at `index`, splits it into major and minor nibbles,
/// and resolves the handler registered for that pair: only (1, 0) has one.
///
/// Fails `Truncated` when the buffer is known not to reach the byte, and
/// `UnsupportedVersion` for every nibble pair other than (1, 0). The cursor
/// does not move.
pub fn version_recognition(input_bytes: &Vec<u8>, total_len: usize, acc_len: &mut usize, index: &mut usize) -> (r: Result<
    VersionHandler,
    NftpError,
>)
    requires
        *old(index) <= *old(acc_len),
        total_len <= input_bytes@.len(),
    ensures
        *final(acc_len) == *old(acc_len),
        *final(index) == *old(index),
        match spec_version_recognition(
            input_bytes@,
            total_len as int,
            *old(acc_len) as int,
            *old(index) as int,
        ) {
            Ok(b) => r == Ok::<VersionHandler, NftpError>(VersionHandler::V1_0(Version1_0)),
            Err(e) => r == Err::<VersionHandler, NftpError>(e),
        },
{
    if total_len <= *acc_len {
        return Err(NftpError::Truncated);
    }
    let b = input_bytes[*index];
    if b >> 4 == 1 && b & 0x0f == 0 {
        Ok(VersionHandler::V1_0(Version1_0))
    } else {
        Err(NftpError::UnsupportedVersion)
    }
}

/// Law: version recognition accepts exactly one version byte, 0x10 —
/// major 1, minor 0; every other nibble pair is rejected.
pub proof fn lemma_version_recognition_exact(bytes: Seq<u8>, total: int, acc: int, index: int)
    requires
        0 <= index < bytes.len(),
    ensures
        spec_version_recognition(bytes, total, acc, index) is Ok <==> (total > acc && bytes[index]
            == 0x10),
{
    let b = bytes[index];
    assert((b >> 4 == 1 && b & 0x0f == 0) <==> b == 0x10) by (bit_vector);
}

/// Reads the instruction byte at the cursor and advances past it.
///
/// Fails `Truncated` when the buffer does not reach past the byte; on failure
/// the cursor is left as it was.
pub fn istruction_recognition(input_bytes: &Vec<u8>, total_len: usize, acc_len: &mut usize, index: &mut usize) -> (r: Result<
    u8,
    NftpError,
>)
    requires
        total_len <= input_bytes@.len(),
    ensures
        match spec_istruction_recognition(input_bytes@, total_len as int, *old(acc_len) as int) {
            Ok((code, acc2, idx2)) => r == Ok::<u8, NftpError>(code) && *final(acc_len) == acc2
                && *final(index) == idx2,
            Err(e) => r == Err::<u8, NftpError>(e) && *final(acc_len) == *old(acc_len)
                && *final(index) == *old(index),
        },
{
    if total_len <= *acc_len || total_len - *acc_len <= 1 {
        return Err(NftpError::Truncated);
    }
    *index = *acc_len;
    let code = input_bytes[*index];
    *acc_len = *acc_len + 1;
    Ok(code)
}

/// Reads the path-count byte, then that many path entries, each a 2-byte
/// big-endian length followed by that many bytes of UTF-8 path text.
///
/// Returns exactly as many paths as the frame declares, in wire order. Fails
/// `Truncated` whenever a declared length reaches past the buffer,
/// `InvalidPathCount` when the count is outside `1..=MAX_PATHS`, and
/// `InvalidEncoding` when a path is not UTF-8; on failure the cursor is left
/// as it was.
pub fn path_recognition(input_bytes: &Vec<u8>, total_len: usize, acc_len: &mut usize, index: &mut usize) -> (r: Result<
    Vec<Vec<u8>>,
    NftpError,
>)
    requires
        total_len <= input_bytes@.len(),
    ensures
        match spec_path_recognition(input_bytes@, total_len as int, *old(acc_len) as int) {
            Ok((paths, acc2, idx2)) => (r matches Ok(v) && v.deep_view() == paths)
                && *final(acc_len) == acc2 && *final(index) == idx2,
            Err(e) => r == Err::<Vec<Vec<u8>>, NftpError>(e) && *final(acc_len) == *old(acc_len)
                && *final(index) == *old(index),
        },
{
    let ghost bytes = input_bytes@;
    let ghost total = total_len as int;
    if total_len <= *acc_len || total_len - *acc_len <= 1 {
        return Err(NftpError::Truncated);
    }
    let mut idx: usize = *acc_len;
    let n_paths = input_bytes[idx];
    let mut acc: usize = *acc_len + 1;
    if n_paths < 1 || n_paths > MAX_PATHS {
        return Err(NftpError::InvalidPathCount);
    }
    let ghost acc0 = acc as int;
    let ghost idx0 = idx as int;
    let mut paths: Vec<Vec<u8>> = Vec::with_capacity(n_paths as usize);
    let mut k: u8 = 0;
    proof {
        assert(paths.deep_view() =~= Seq::<Seq<u8>>::empty());
        match spec_decode_paths(bytes, total, acc0, idx0, n_paths as nat) {
            Ok((rest, acc2, idx2)) => {
                assert(paths.deep_view() + rest =~= rest);
            },
            Err(e) => {},
        }
    }
    while k < n_paths
        invariant
            total_len <= input_bytes@.len(),
            bytes == input_bytes@,
            total == total_len as int,
            *acc_len == *old(acc_len),
            *index == *old(index),
            spec_path_recognition(bytes, total, *old(acc_len) as int) == spec_decode_paths(
                bytes,
                total,
                acc0,
                idx0,
                n_paths as nat,
            ),
            k <= n_paths,
            acc <= total_len,
            idx <= acc,
            paths.deep_view().len() == k as int,
            match spec_decode_paths(bytes, total, acc as int, idx as int, (n_paths - k) as nat) {
                Ok((rest, acc2, idx2)) => spec_decode_paths(bytes, total, acc0, idx0, n_paths as nat)
                    == Ok::<(Seq<Seq<u8>>, int, int), NftpError>(
                    (paths.deep_view() + rest, acc2, idx2),
                ),
                Err(e) => spec_decode_paths(bytes, total, acc0, idx0, n_paths as nat) == Err::<
                    (Seq<Seq<u8>>, int, int),
                    NftpError,
                >(e),
            },
        decreases n_paths - k,
    {
        let ghost acc_at = acc as int;
        let ghost idx_at = idx as int;
        let ghost m = (n_paths - k) as nat;
        if total_len <= acc || total_len - acc <= 2 {
            return Err(NftpError::Truncated);
        }
        idx = acc;
        let dim: u16 = ((input_bytes[idx] as u16) << 8) | (input_bytes[idx + 1] as u16);
        acc = acc + 2;
        idx = acc;
        if total_len - acc < dim as usize {
            return Err(NftpError::Truncated);
        }
        acc = acc + dim as usize;
        let ghost piece = bytes.subrange(acc_at + 2, acc_at + 2 + dim as int);
        let mut p: Vec<u8> = Vec::new();
        let mut j: usize = idx;
        proof {
            assert(p@ =~= bytes.subrange(idx as int, idx as int));
        }
        while j < acc
            invariant
                bytes == input_bytes@,
                idx <= j <= acc,
                acc <= total_len <= input_bytes@.len(),
                p@ == bytes.subrange(idx as int, j as int),
            decreases acc - j,
        {
            p.push(input_bytes[j]);
            j = j + 1;
            proof {
                assert(p@ =~= bytes.subrange(idx as int, j as int));
            }
        }
        let ghost pv = p@;
        proof {
            assert(pv == piece);
        }
        if !utf8_check(p.as_slice()) {
            return Err(NftpError::InvalidEncoding);
        }
        let ghost old_paths = paths.deep_view();
        paths.push(p);
        k = k + 1;
        proof {
            assert(paths@[(k - 1) as int].deep_view() =~= pv);
            assert(paths.deep_view() =~= old_paths + seq![piece]);
            match spec_decode_paths(bytes, total, acc as int, idx as int, (n_paths - k) as nat) {
                Ok((rest, acc2, idx2)) => {
                    assert(spec_decode_paths(bytes, total, acc_at, idx_at, m) == Ok::<
                        (Seq<Seq<u8>>, int, int),
                        NftpError,
                    >((seq![piece] + rest, acc2, idx2)));
                    assert(old_paths + (seq![piece] + rest) =~= paths.deep_view() + rest);
                },
                Err(e) => {
                    assert(spec_decode_paths(bytes, total, acc_at, idx_at, m) == Err::<
                        (Seq<Seq<u8>>, int, int),
                        NftpError,
                    >(e));
                },
            }
        }
    }
    proof {
        assert(spec_decode_paths(bytes, total, acc as int, idx as int, 0) == Ok::<
            (Seq<Seq<u8>>, int, int),
            NftpError,
        >((Seq::empty(), acc as int, idx as int)));
        assert(paths.deep_view() + Seq::<Seq<u8>>::empty() =~= paths.deep_view());
    }
    *acc_len = acc;
    *index = idx;
    Ok(paths)
}


/// Decoding `n` entries yields exactly `n` paths.
proof fn lemma_decode_paths_count(bytes: Seq<u8>, total: int, acc: int, index: int, n: nat)
    ensures
        spec_decode_paths(bytes, total, acc, index, n) matches Ok((paths, _, _)) ==> paths.len()
            == n,
    decreases n,
{
    if n > 0 {
        if total > acc + 2 {
            let dim = spec_u16_from_be_bytes(bytes, acc) as int;
            if total - (acc + 2) >= dim && valid_utf8(bytes.subrange(acc + 2, acc + 2 + dim)) {
                lemma_decode_paths_count(bytes, total, acc + 2 + dim, acc + 2, (n - 1) as nat);
            }
        }
    }
}

/// Law: path recognition returns exactly as many paths as the frame's count
/// byte declares.
pub proof fn lemma_path_recognition_exact_count(bytes: Seq<u8>, total: int, acc: int)
    ensures
        spec_path_recognition(bytes, total, acc) matches Ok((paths, _, _)) ==> paths.len()
            == bytes[acc] as int,
{
    if total > acc + 1 {
        let n = bytes[acc];
        if 1 <= n <= MAX_PATHS {
            lemma_decode_paths_count(bytes, total, acc + 1, acc, n as nat);
        }
    }
}

} // verus!
