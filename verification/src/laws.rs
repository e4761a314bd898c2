//! General properties of the parser, stated over the spec-level functions
//! that the exec functions' contracts are proved against.

use vstd::prelude::*;

use crate::collab::inflate_zlib_of;
use crate::model::{ChunkModel, PayloadModel, PngError};
use crate::parse::{
    be_u32_of, ihdr_type, signature_ok, spec_chunk, spec_decode_payload, spec_parse, text_type,
    ztxt_type,
};

verus! {

/// The four bytes of `v` in big-endian order: the inverse of `be_u32_of`.
pub open spec fn be_bytes_of(v: u32) -> Seq<u8> {
    seq![
        (v / 0x1000000) as u8,
        ((v / 0x10000) % 0x100) as u8,
        ((v / 0x100) % 0x100) as u8,
        (v % 0x100) as u8,
    ]
}

/// Re-encoding the big-endian value read at `i` reproduces the four bytes
/// it was read from.
pub proof fn lemma_be_bytes_roundtrip(b: Seq<u8>, i: int)
    requires
        0 <= i,
        i + 4 <= b.len(),
    ensures
        be_bytes_of(be_u32_of(b, i)) == b.subrange(i, i + 4),
{
    let x0 = b[i] as int;
    let x1 = b[i + 1] as int;
    let x2 = b[i + 2] as int;
    let x3 = b[i + 3] as int;
    let v = x0 * 0x1000000 + x1 * 0x10000 + x2 * 0x100 + x3;
    assert(v / 0x1000000 == x0 && (v / 0x10000) % 0x100 == x1 && (v / 0x100) % 0x100 == x2 && v
        % 0x100 == x3) by (nonlinear_arith)
        requires
            0 <= x0 < 256,
            0 <= x1 < 256,
            0 <= x2 < 256,
            0 <= x3 < 256,
            v == x0 * 0x1000000 + x1 * 0x10000 + x2 * 0x100 + x3,
    ;
    assert(be_u32_of(b, i) == v);
    assert(be_bytes_of(be_u32_of(b, i)) =~= b.subrange(i, i + 4));
}

/// Round-trip framing: a successfully framed chunk consumes exactly
/// `4 + 4 + length + 4` bytes, and for a chunk of unrecognized type, whose
/// payload is kept verbatim, re-encoding the length, type code, payload and
/// declared CRC reproduces the frame's bytes in the input.
pub proof fn lemma_round_trip_framing(input: Seq<u8>, pos: int)
    requires
        0 <= pos,
    ensures
        spec_chunk(input, pos) matches Ok((c, next)) ==> next == pos + 12 + be_u32_of(input, pos),
        (match spec_chunk(input, pos) {
            Ok((c, next)) => match c.payload {
                PayloadModel::Unknown(d) => input.subrange(pos, next) == be_bytes_of(
                    d.len() as u32,
                ) + c.chunk_type + d + be_bytes_of(c.declared_crc),
                _ => true,
            },
            Err(_) => true,
        }),
{
    if let Ok((c, next)) = spec_chunk(input, pos) {
        let len = be_u32_of(input, pos) as int;
        if let PayloadModel::Unknown(d) = c.payload {
            assert(d == input.subrange(pos + 8, pos + 8 + len));
            lemma_be_bytes_roundtrip(input, pos);
            lemma_be_bytes_roundtrip(input, pos + 8 + len);
            assert(d.len() as u32 == be_u32_of(input, pos));
            assert(input.subrange(pos, next) =~= input.subrange(pos, pos + 4) + input.subrange(
                pos + 4,
                pos + 8,
            ) + input.subrange(pos + 8, pos + 8 + len) + input.subrange(pos + 8 + len, next));
            assert(be_bytes_of(d.len() as u32) == input.subrange(pos, pos + 4));
            assert(c.chunk_type == input.subrange(pos + 4, pos + 8));
            assert(be_bytes_of(c.declared_crc) == input.subrange(pos + 8 + len, next));
        }
    }
}

/// Checksum coverage: every successfully framed chunk's computed CRC is the
/// CRC-32 of its type bytes followed by its raw payload bytes, whatever its
/// declared CRC holds.
pub proof fn lemma_checksum_over_type_and_payload(input: Seq<u8>, pos: int)
    requires
        0 <= pos,
    ensures
        spec_chunk(input, pos) matches Ok((c, next)) ==> c.computed_crc == crate::collab::crc32_of(
            c.chunk_type + input.subrange(pos + 8, next - 4),
        ),
{
    if let Ok((c, next)) = spec_chunk(input, pos) {
        let len = be_u32_of(input, pos) as int;
        assert(input.subrange(pos + 4, pos + 8 + len) =~= c.chunk_type + input.subrange(
            pos + 8,
            next - 4,
        ));
    }
}

/// Signature gate: an input that does not start with the eight-byte magic
/// sequence fails with a format error at offset zero, whatever follows.
pub proof fn lemma_signature_gate(input: Seq<u8>)
    requires
        !signature_ok(input),
    ensures
        spec_parse(input) == Err::<Seq<ChunkModel>, PngError>(PngError::Format { offset: 0 }),
{
}

/// Truncation detection: cutting the input anywhere inside a chunk's frame
/// (its payload, its trailing CRC, or earlier) turns that chunk's parse
/// into a truncation error at the frame's first byte.
pub proof fn lemma_truncation_detected(input: Seq<u8>, pos: int, c: ChunkModel, next: int, cut: int)
    requires
        0 <= pos,
        spec_chunk(input, pos) == Ok::<(ChunkModel, int), PngError>((c, next)),
        pos <= cut < next,
    ensures
        spec_chunk(input.subrange(0, cut), pos) == Err::<(ChunkModel, int), PngError>(
            PngError::TruncatedInput { offset: pos as usize },
        ),
{
    let short = input.subrange(0, cut);
    let len = be_u32_of(input, pos) as int;
    assert(next == pos + 12 + len);
    if cut - pos >= 8 {
        assert(be_u32_of(short, pos) == be_u32_of(input, pos)) by {
            assert(short[pos] == input[pos]);
            assert(short[pos + 1] == input[pos + 1]);
            assert(short[pos + 2] == input[pos + 2]);
            assert(short[pos + 3] == input[pos + 3]);
        }
        assert(short.len() - (pos + 8) < len + 4);
    }
}

/// Lossy text decoding: a tEXt payload decodes successfully exactly when it
/// holds the null delimiter; the bytes on either side of the delimiter
/// never cause a failure, since undecodable text is replaced rather than
/// rejected.
pub proof fn lemma_text_lossy_decoding(p: Seq<u8>, off: int)
    ensures
        (exists|i: int| 0 <= i < p.len() && p[i] == 0u8) ==> spec_decode_payload(
            text_type(),
            p,
            off,
        ) is Ok,
        !(exists|i: int| 0 <= i < p.len() && p[i] == 0u8) ==> spec_decode_payload(
            text_type(),
            p,
            off,
        ) == Err::<PayloadModel, PngError>(PngError::MalformedChunk { offset: off as usize }),
{
    assert(text_type() != ihdr_type()) by {
        assert(text_type()[0] == 0x74u8);
        assert(ihdr_type()[0] == 0x49u8);
    }
    p.index_of_first_ensures(0u8);
}

/// Decompression failure: a zTXt payload whose compressed bytes the zlib
/// inflater rejects fails with a decompression error, and with nothing
/// else, however the rest of the payload reads.
pub proof fn lemma_ztxt_decompression_failure(p: Seq<u8>, off: int, k: int)
    requires
        0 <= k < p.len(),
        p[k] == 0u8,
        forall|j: int| 0 <= j < k ==> p[j] != 0u8,
        p.len() - k >= 2,
        inflate_zlib_of(p.subrange(k + 2, p.len() as int)) is None,
    ensures
        spec_decode_payload(ztxt_type(), p, off) == Err::<PayloadModel, PngError>(
            PngError::Decompression { offset: off as usize },
        ),
{
    assert(ztxt_type() != ihdr_type()) by {
        assert(ztxt_type()[0] == 0x7au8);
        assert(ihdr_type()[0] == 0x49u8);
    }
    assert(ztxt_type() != text_type()) by {
        assert(ztxt_type()[1] == 0x54u8);
        assert(text_type()[1] == 0x45u8);
    }
    assert(p.contains(0u8));
    p.index_of_first_ensures(0u8);
    assert(p.index_of_first(0u8) == Some(k));
}

} // verus!
