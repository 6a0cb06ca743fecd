//! Whole-frame encoding and decoding of requests, and the round-trip law:
//! decoding an encoded frame yields the frame's field values back.

use vstd::prelude::*;
use vstd::utf8::valid_utf8;
use crate::bytes::{push_bytes, spec_u16_from_be_bytes};
use crate::errors::NftpError;
use crate::parser::{
    protocol_recognition, spec_decode_paths, spec_istruction_recognition,
    spec_path_recognition, spec_protocol_recognition, spec_version_recognition,
    version_recognition,
};
use crate::response::spec_version_byte;
use crate::version::{spec_parse_v1_0, Instruction, SpecInstruction};
use crate::{spec_magic, MAGIC_0, MAGIC_1, MAGIC_2, MAGIC_3, MAX_PATHS};

verus! {

/// The field values of one request frame: version nibbles, instruction code,
/// and the declared paths in wire order.
pub struct RequestFrame {
    pub version_major: u8,
    pub version_minor: u8,
    pub instruction_code: u8,
    pub paths: Vec<Vec<u8>>,
}

/// The mathematical value of a request frame.
pub struct SpecFrame {
    pub version_major: u8,
    pub version_minor: u8,
    pub instruction_code: u8,
    pub paths: Seq<Seq<u8>>,
}

impl View for RequestFrame {
    type V = SpecFrame;

    open spec fn view(&self) -> SpecFrame {
        SpecFrame {
            version_major: self.version_major,
            version_minor: self.version_minor,
            instruction_code: self.instruction_code,
            paths: self.paths.deep_view(),
        }
    }
}

/// One path entry on the wire: a 2-byte big-endian length, then the bytes.
pub open spec fn spec_encode_path_entry(p: Seq<u8>) -> Seq<u8> {
    seq![((p.len() as u16) >> 8) as u8, (p.len() as u16) as u8] + p
}

/// The wire form of a path list: the entries in order.
pub open spec fn spec_encode_paths(paths: Seq<Seq<u8>>) -> Seq<u8>
    decreases paths.len(),
{
    if paths.len() == 0 {
        Seq::empty()
    } else {
        spec_encode_path_entry(paths[0]) + spec_encode_paths(paths.drop_first())
    }
}

/// The wire form of a whole request frame.
pub open spec fn spec_encode_frame(f: SpecFrame) -> Seq<u8> {
    spec_magic() + seq![
        spec_version_byte(f.version_major, f.version_minor),
        f.instruction_code,
        f.paths.len() as u8,
    ] + spec_encode_paths(f.paths)
}

/// A frame the protocol can carry: version 1.0, between 1 and `MAX_PATHS`
/// paths, each a UTF-8 text of at most 65535 bytes, the last one nonempty —
/// the decoder insists that at least one byte follows every length field.
pub open spec fn spec_frame_wf(f: SpecFrame) -> bool {
    &&& f.version_major == 1
    &&& f.version_minor == 0
    &&& 1 <= f.paths.len() <= MAX_PATHS
    &&& (forall|i: int|
        0 <= i < f.paths.len() ==> (#[trigger] f.paths[i]).len() <= 0xffff && valid_utf8(
            f.paths[i],
        ))
    &&& f.paths[f.paths.len() - 1].len() >= 1
}

/// What decoding a whole buffer yields: the frame's field values, by running
/// the four recognition steps in order from the initial cursor.
pub open spec fn spec_decode_frame(bytes: Seq<u8>, total: int) -> Result<SpecFrame, NftpError> {
    match spec_protocol_recognition(bytes, total, 4, 0) {
        Err(e) => Err(e),
        Ok((acc1, idx1)) => match spec_version_recognition(bytes, total, acc1, idx1) {
            Err(e) => Err(e),
            Ok(vb) => match spec_istruction_recognition(bytes, total, acc1) {
                Err(e) => Err(e),
                Ok((code, acc2, _)) => match spec_path_recognition(bytes, total, acc2) {
                    Err(e) => Err(e),
                    Ok((paths, _, _)) => Ok(
                        SpecFrame {
                            version_major: vb >> 4,
                            version_minor: vb & 0x0f,
                            instruction_code: code,
                            paths,
                        },
                    ),
                },
            },
        },
    }
}

/// What decoding and dispatching a whole buffer yields: the instruction,
/// after the resolved version handler maps the code to its variant.
pub open spec fn spec_decode_request(bytes: Seq<u8>, total: int) -> Result<
    SpecInstruction,
    NftpError,
> {
    match spec_protocol_recognition(bytes, total, 4, 0) {
        Err(e) => Err(e),
        Ok((acc1, idx1)) => match spec_version_recognition(bytes, total, acc1, idx1) {
            Err(e) => Err(e),
            Ok(_) => spec_parse_v1_0(bytes, total, acc1),
        },
    }
}

/// Encoding distributes over concatenation of path lists.
pub proof fn lemma_encode_paths_concat(s: Seq<Seq<u8>>, t: Seq<Seq<u8>>)
    ensures
        spec_encode_paths(s + t) == spec_encode_paths(s) + spec_encode_paths(t),
    decreases s.len(),
{
    if s.len() == 0 {
        assert(s + t =~= t);
        assert(spec_encode_paths(s) + spec_encode_paths(t) =~= spec_encode_paths(t));
    } else {
        assert((s + t).len() > 0);
        assert((s + t)[0] == s[0]);
        assert((s + t).drop_first() =~= s.drop_first() + t);
        lemma_encode_paths_concat(s.drop_first(), t);
        assert(spec_encode_path_entry(s[0]) + (spec_encode_paths(s.drop_first())
            + spec_encode_paths(t)) =~= (spec_encode_path_entry(s[0]) + spec_encode_paths(
            s.drop_first(),
        )) + spec_encode_paths(t));
    }
}

/// Builds the wire bytes of a request frame: magic, version byte, instruction
/// code, path count, then each path as a 2-byte big-endian length and its
/// bytes.
pub fn encode_frame(frame: &RequestFrame) -> (out: Vec<u8>)
    requires
        frame@.paths.len() <= 255,
        forall|i: int| 0 <= i < frame@.paths.len() ==> (#[trigger] frame@.paths[i]).len() <= 0xffff,
    ensures
        out@ == spec_encode_frame(frame@),
{
    let ghost f = frame@;
    let mut out: Vec<u8> = Vec::new();
    out.push(MAGIC_0);
    out.push(MAGIC_1);
    out.push(MAGIC_2);
    out.push(MAGIC_3);
    out.push((frame.version_major << 4) | frame.version_minor);
    out.push(frame.instruction_code);
    out.push(frame.paths.len() as u8);
    let ghost head = spec_magic() + seq![
        spec_version_byte(f.version_major, f.version_minor),
        f.instruction_code,
        f.paths.len() as u8,
    ];
    proof {
        assert(out@ =~= head);
        assert(spec_encode_paths(f.paths.take(0)) =~= Seq::<u8>::empty()) by {
            assert(f.paths.take(0) =~= Seq::<Seq<u8>>::empty());
        }
        assert(out@ =~= head + spec_encode_paths(f.paths.take(0)));
    }
    let mut i: usize = 0;
    while i < frame.paths.len()
        invariant
            f == frame@,
            i <= f.paths.len(),
            f.paths.len() <= 255,
            forall|q: int| 0 <= q < f.paths.len() ==> (#[trigger] f.paths[q]).len() <= 0xffff,
            out@ == head + spec_encode_paths(f.paths.take(i as int)),
        decreases f.paths.len() - i,
    {
        let p: &Vec<u8> = &frame.paths[i];
        proof {
            assert(p@ == f.paths[i as int]);
            assert(p@.len() <= 0xffff);
        }
        let l: usize = p.len();
        let d: u16 = l as u16;
        out.push(#[verifier::truncate] ((d >> 8) as u8));
        out.push(#[verifier::truncate] (d as u8));
        push_bytes(&mut out, p);
        proof {
            assert(p@ == f.paths[i as int]);
            assert(seq![((d >> 8) as u8), (d as u8)] + p@ =~= spec_encode_path_entry(p@));
            lemma_encode_paths_concat(f.paths.take(i as int), seq![f.paths[i as int]]);
            assert(f.paths.take(i as int) + seq![f.paths[i as int]] =~= f.paths.take(i as int + 1));
            let s1 = seq![f.paths[i as int]];
            assert(s1.drop_first() =~= Seq::<Seq<u8>>::empty());
            assert(spec_encode_paths(s1.drop_first()) =~= Seq::<u8>::empty());
            assert(spec_encode_paths(s1) == spec_encode_path_entry(s1[0]) + spec_encode_paths(
                s1.drop_first(),
            ));
            assert(spec_encode_paths(s1) =~= spec_encode_path_entry(f.paths[i as int]));
            assert(out@ =~= head + spec_encode_paths(f.paths.take(i as int + 1)));
        }
        i = i + 1;
    }
    proof {
        assert(f.paths.take(f.paths.len() as int) =~= f.paths);
    }
    out
}

/// Runs the shared recognition steps over a whole buffer and returns the
/// frame's field values.
pub fn decode_frame(input_bytes: &Vec<u8>, total_len: usize) -> (r: Result<
    RequestFrame,
    NftpError,
>)
    requires
        total_len <= input_bytes@.len(),
    ensures
        match spec_decode_frame(input_bytes@, total_len as int) {
            Ok(f) => r matches Ok(rf) && rf@ == f,
            Err(e) => r == Err::<RequestFrame, NftpError>(e),
        },
{
    let mut acc: usize = 4;
    let mut idx: usize = 0;
    match protocol_recognition(input_bytes, total_len, &mut acc, &mut idx) {
        Ok(_) => (),
        Err(e) => {
            return Err(e);
        },
    }
    match version_recognition(input_bytes, total_len, &mut acc, &mut idx) {
        Ok(_) => (),
        Err(e) => {
            return Err(e);
        },
    }
    let version_byte = input_bytes[idx];
    let code = match crate::parser::istruction_recognition(input_bytes, total_len, &mut acc, &mut idx) {
        Ok(c) => c,
        Err(e) => {
            return Err(e);
        },
    };
    let paths = match crate::parser::path_recognition(input_bytes, total_len, &mut acc, &mut idx) {
        Ok(p) => p,
        Err(e) => {
            return Err(e);
        },
    };
    Ok(
        RequestFrame {
            version_major: version_byte >> 4,
            version_minor: version_byte & 0x0f,
            instruction_code: code,
            paths,
        },
    )
}

/// Runs the whole decode pipeline over a request buffer: protocol literal,
/// version dispatch, then the resolved handler's instruction decode. This is
/// the computation a connection handler runs on the bytes it has read.
pub fn decode_request(input_bytes: &Vec<u8>, total_len: usize) -> (r: Result<
    Instruction,
    NftpError,
>)
    requires
        total_len <= input_bytes@.len(),
    ensures
        match spec_decode_request(input_bytes@, total_len as int) {
            Ok(si) => r matches Ok(i) && i@ == si,
            Err(e) => r == Err::<Instruction, NftpError>(e),
        },
{
    let mut acc: usize = 4;
    let mut idx: usize = 0;
    match protocol_recognition(input_bytes, total_len, &mut acc, &mut idx) {
        Ok(_) => (),
        Err(e) => {
            return Err(e);
        },
    }
    let version = match version_recognition(input_bytes, total_len, &mut acc, &mut idx) {
        Ok(v) => v,
        Err(e) => {
            return Err(e);
        },
    };
    version.parse(input_bytes, total_len, &mut acc, &mut idx)
}


/// Decoding the path entries that an encoding produced yields the same path
/// list back, consuming the buffer to its end.
proof fn lemma_decode_encoded_paths(bytes: Seq<u8>, total: int, acc: int, idx: int, paths: Seq<Seq<u8>>)
    requires
        total == bytes.len(),
        0 <= acc <= total,
        bytes.subrange(acc, total) == spec_encode_paths(paths),
        forall|i: int|
            0 <= i < paths.len() ==> (#[trigger] paths[i]).len() <= 0xffff && valid_utf8(paths[i]),
        paths.len() >= 1 ==> paths[paths.len() - 1].len() >= 1,
    ensures
        spec_decode_paths(bytes, total, acc, idx, paths.len() as nat) matches Ok((ps, acc2, idx2))
            && ps == paths && acc2 == total,
    decreases paths.len(),
{
    let sub = bytes.subrange(acc, total);
    if paths.len() == 0 {
        assert(spec_encode_paths(paths) =~= Seq::<u8>::empty());
        assert(total - acc == 0);
        assert(spec_decode_paths(bytes, total, acc, idx, 0) == Ok::<
            (Seq<Seq<u8>>, int, int),
            NftpError,
        >((Seq::empty(), acc, idx)));
        assert(Seq::<Seq<u8>>::empty() =~= paths);
    } else {
        let p0 = paths[0];
        let rest = paths.drop_first();
        let l = p0.len() as int;
        let entry = spec_encode_path_entry(p0);
        let enc_rest = spec_encode_paths(rest);
        assert(sub == entry + enc_rest);
        assert(entry.len() == 2 + l);
        // the buffer reaches past the length field: the first path itself is
        // nonempty when it is the last one, and another entry follows otherwise
        if paths.len() == 1 {
            assert(enc_rest =~= Seq::<u8>::empty()) by {
                assert(rest =~= Seq::<Seq<u8>>::empty());
            }
            assert(l >= 1);
        } else {
            assert(rest.len() >= 1);
            assert(enc_rest.len() >= 2) by {
                assert(enc_rest == spec_encode_path_entry(rest[0]) + spec_encode_paths(
                    rest.drop_first(),
                ));
            }
        }
        assert(total - acc == 2 + l + enc_rest.len());
        assert(total > acc + 2);
        // the length field reads back as the path's length
        let d = p0.len() as u16;
        assert(p0.len() as u16 == l);
        assert(bytes[acc] == ((d >> 8) as u8) && bytes[acc + 1] == (d as u8)) by {
            assert(sub[0] == entry[0] && sub[1] == entry[1]);
        }
        assert((((((d >> 8) as u8) as u16) << 8) | (((d as u8)) as u16)) as u16 == d)
            by (bit_vector);
        assert(spec_u16_from_be_bytes(bytes, acc) == d);
        assert(total - (acc + 2) >= l);
        // the data field reads back as the path's bytes
        assert(bytes.subrange(acc + 2, acc + 2 + l) =~= p0) by {
            assert forall|i: int| 0 <= i < l implies bytes[acc + 2 + i] == p0[i] by {
                assert(sub[2 + i] == entry[2 + i]);
                assert(entry[2 + i] == p0[i]);
            }
        }
        assert(valid_utf8(p0));
        // the remaining entries decode by induction
        assert(bytes.subrange(acc + 2 + l, total) =~= enc_rest) by {
            assert forall|j: int| 0 <= j < enc_rest.len() implies bytes[acc + 2 + l + j]
                == enc_rest[j] by {
                assert(sub[2 + l + j] == enc_rest[j]);
            }
        }
        assert forall|i: int|
            0 <= i < rest.len() implies (#[trigger] rest[i]).len() <= 0xffff && valid_utf8(
            rest[i],
        ) by {
            assert(rest[i] == paths[i + 1]);
        }
        if rest.len() >= 1 {
            assert(rest[rest.len() - 1] == paths[paths.len() - 1]);
        }
        lemma_decode_encoded_paths(bytes, total, acc + 2 + l, acc + 2, rest);
        match spec_decode_paths(bytes, total, acc + 2 + l, acc + 2, rest.len() as nat) {
            Ok((rest_ps, acc2, idx2)) => {
                assert(spec_decode_paths(bytes, total, acc, idx, paths.len() as nat) == Ok::<
                    (Seq<Seq<u8>>, int, int),
                    NftpError,
                >((seq![bytes.subrange(acc + 2, acc + 2 + l)] + rest_ps, acc2, idx2)));
                assert(seq![bytes.subrange(acc + 2, acc + 2 + l)] + rest_ps =~= paths);
            },
            Err(_) => {
                assert(false);
            },
        }
    }
}

/// Law: round-trip symmetry. For every frame the protocol can carry, decoding
/// the frame's encoding yields equivalent field values — the same version
/// nibbles, the same instruction code, and the same paths in the same order.
pub proof fn lemma_decode_encode_roundtrip(f: SpecFrame)
    requires
        spec_frame_wf(f),
    ensures
        spec_decode_frame(spec_encode_frame(f), spec_encode_frame(f).len() as int) == Ok::<
            SpecFrame,
            NftpError,
        >(f),
{
    let bytes = spec_encode_frame(f);
    let total = bytes.len() as int;
    let vb = spec_version_byte(f.version_major, f.version_minor);
    let head = spec_magic() + seq![vb, f.instruction_code, f.paths.len() as u8];
    let ep = spec_encode_paths(f.paths);
    assert(bytes == head + ep);
    assert(ep.len() >= 2) by {
        assert(ep == spec_encode_path_entry(f.paths[0]) + spec_encode_paths(f.paths.drop_first()));
    }
    assert(total >= 9);
    // the protocol literal is recognized at the start
    assert(bytes.subrange(0, 4) =~= spec_magic());
    assert(spec_protocol_recognition(bytes, total, 4, 0) == Ok::<(int, int), NftpError>((5, 4)));
    // the version byte reads back as nibbles (1, 0)
    assert(bytes[4] == vb);
    assert(vb == spec_version_byte(1, 0));
    assert(spec_version_byte(1, 0) >> 4 == 1 && spec_version_byte(1, 0) & 0x0f == 0)
        by (bit_vector);
    assert(spec_version_recognition(bytes, total, 5, 4) == Ok::<u8, NftpError>(vb));
    // the instruction byte reads back
    assert(bytes[5] == f.instruction_code);
    assert(spec_istruction_recognition(bytes, total, 5) == Ok::<(u8, int, int), NftpError>(
        (f.instruction_code, 6, 5),
    ));
    // the count byte reads back, and the entries decode to the same paths
    assert(bytes[6] == f.paths.len() as u8);
    assert(1 <= f.paths.len() <= MAX_PATHS);
    assert((f.paths.len() as u8) as nat == f.paths.len());
    assert(bytes.subrange(7, total) =~= ep);
    lemma_decode_encoded_paths(bytes, total, 7, 6, f.paths);
    match spec_decode_paths(bytes, total, 7, 6, f.paths.len() as nat) {
        Ok((ps, acc2, idx2)) => {
            assert(spec_path_recognition(bytes, total, 6) == Ok::<
                (Seq<Seq<u8>>, int, int),
                NftpError,
            >((ps, acc2, idx2)));
            assert(ps == f.paths);
            let ma = f.version_major;
            let mi = f.version_minor;
            assert(vb >> 4 == ma && vb & 0x0f == mi) by (bit_vector)
                requires
                    vb == (ma << 4) | mi,
                    ma == 1,
                    mi == 0,
            ;
        },
        Err(_) => {
            assert(false);
        },
    }
}

} // verus!
