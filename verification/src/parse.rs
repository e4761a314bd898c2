//! The parser: a forward-only cursor over an immutable byte buffer. The
//! spec-level functions here define, over sequences, exactly what each exec
//! function reads, and the exec functions are proved to implement them.

use vstd::prelude::*;

use crate::collab::{crc32_ieee, crc32_of, inflate_zlib, inflate_zlib_of, utf8_lossy, utf8_lossy_of};
use crate::model::{Chunk, ChunkModel, Ihdr, Payload, PayloadModel, Png, PngError, TextData, TextModel};

verus! {

/// The fixed eight-byte PNG file signature.
pub open spec fn spec_signature() -> Seq<u8> {
    seq![0x89u8, 0x50u8, 0x4eu8, 0x47u8, 0x0du8, 0x0au8, 0x1au8, 0x0au8]
}

/// The four type-code bytes of an IHDR chunk.
pub open spec fn ihdr_type() -> Seq<u8> {
    seq![0x49u8, 0x48u8, 0x44u8, 0x52u8]
}

/// The four type-code bytes of a tEXt chunk.
pub open spec fn text_type() -> Seq<u8> {
    seq![0x74u8, 0x45u8, 0x58u8, 0x74u8]
}

/// The four type-code bytes of a zTXt chunk.
pub open spec fn ztxt_type() -> Seq<u8> {
    seq![0x7au8, 0x54u8, 0x58u8, 0x74u8]
}

/// The big-endian unsigned value of the four bytes of `b` starting at `i`.
pub open spec fn be_u32_of(b: Seq<u8>, i: int) -> u32
    recommends
        0 <= i,
        i + 4 <= b.len(),
{
    (b[i] * 0x1000000 + b[i + 1] * 0x10000 + b[i + 2] * 0x100 + b[i + 3]) as u32
}

/// The input starts with the PNG signature.
pub open spec fn signature_ok(input: Seq<u8>) -> bool {
    input.len() >= 8 && input.subrange(0, 8) == spec_signature()
}

/// Reads the big-endian `u32` at `pos`.
fn be_u32_at(b: &[u8], pos: usize) -> (r: u32)
    requires
        pos + 4 <= b@.len(),
    ensures
        r == be_u32_of(b@, pos as int),
{
    let x0 = b[pos] as u32;
    let x1 = b[pos + 1] as u32;
    let x2 = b[pos + 2] as u32;
    let x3 = b[pos + 3] as u32;
    x0 * 0x1000000 + x1 * 0x10000 + x2 * 0x100 + x3
}

/// What decoding a payload of type `ty` yields, as a function of the raw
/// payload bytes. `off` is the byte offset of the owning chunk's frame,
/// carried into any error.
pub open spec fn spec_decode_payload(ty: Seq<u8>, p: Seq<u8>, off: int) -> Result<
    PayloadModel,
    PngError,
> {
    if ty == ihdr_type() {
        if p.len() < 13 {
            Err(PngError::MalformedChunk { offset: off as usize })
        } else {
            Ok(PayloadModel::Header(Ihdr {
                width: be_u32_of(p, 0),
                height: be_u32_of(p, 4),
                bit_depth: p[8],
                color_type: p[9],
                compression_method: p[10],
                filter_method: p[11],
                interlace_method: p[12],
            }))
        }
    } else if ty == text_type() {
        match p.index_of_first(0u8) {
            Some(k) => Ok(PayloadModel::Text(TextModel {
                keyword: utf8_lossy_of(p.subrange(0, k)),
                text: utf8_lossy_of(p.subrange(k + 1, p.len() as int)),
            })),
            None => Err(PngError::MalformedChunk { offset: off as usize }),
        }
    } else if ty == ztxt_type() {
        match p.index_of_first(0u8) {
            Some(k) => if p.len() - k < 2 {
                Err(PngError::MalformedChunk { offset: off as usize })
            } else {
                match inflate_zlib_of(p.subrange(k + 2, p.len() as int)) {
                    Some(d) => Ok(PayloadModel::CompressedText(TextModel {
                        keyword: utf8_lossy_of(p.subrange(0, k)),
                        text: utf8_lossy_of(d),
                    })),
                    None => Err(PngError::Decompression { offset: off as usize }),
                }
            },
            None => Err(PngError::MalformedChunk { offset: off as usize }),
        }
    } else {
        Ok(PayloadModel::Unknown(p))
    }
}

/// What framing one chunk at `pos` yields: the chunk's model and the cursor
/// position after its frame, or the error that aborts the parse. A frame is
/// a four-byte big-endian length, four type bytes, exactly `length` payload
/// bytes, and a four-byte big-endian declared CRC.
pub open spec fn spec_chunk(input: Seq<u8>, pos: int) -> Result<(ChunkModel, int), PngError> {
    if input.len() - pos < 8 {
        Err(PngError::TruncatedInput { offset: pos as usize })
    } else {
        let len = be_u32_of(input, pos) as int;
        if input.len() - (pos + 8) < len + 4 {
            Err(PngError::TruncatedInput { offset: pos as usize })
        } else {
            let ty = input.subrange(pos + 4, pos + 8);
            let payload = input.subrange(pos + 8, pos + 8 + len);
            match spec_decode_payload(ty, payload, pos) {
                Ok(pm) => Ok((
                    ChunkModel {
                        chunk_type: ty,
                        payload: pm,
                        declared_crc: be_u32_of(input, pos + 8 + len),
                        computed_crc: crc32_of(input.subrange(pos + 4, pos + 8 + len)),
                    },
                    pos + 12 + len,
                )),
                Err(e) => Err(e),
            }
        }
    }
}

/// What framing chunks from `pos` to the end of the input yields: the models
/// of all remaining chunks, in input order, or the first error.
pub open spec fn spec_chunks(input: Seq<u8>, pos: int) -> Result<Seq<ChunkModel>, PngError>
    decreases input.len() - pos,
{
    if pos >= input.len() {
        Ok(Seq::empty())
    } else {
        match spec_chunk(input, pos) {
            Ok((c, next)) => match spec_chunks(input, next) {
                Ok(rest) => Ok(seq![c] + rest),
                Err(e) => Err(e),
            },
            Err(e) => Err(e),
        }
    }
}

/// What parsing a whole input yields: the signature is validated, then
/// chunks are framed until the input is exhausted; an input with a valid
/// signature but no chunk is a format error.
pub open spec fn spec_parse(input: Seq<u8>) -> Result<Seq<ChunkModel>, PngError> {
    if !signature_ok(input) {
        Err(PngError::Format { offset: 0 })
    } else {
        match spec_chunks(input, 8) {
            Ok(cs) => if cs.len() == 0 {
                Err(PngError::Format { offset: 8 })
            } else {
                Ok(cs)
            },
            Err(e) => Err(e),
        }
    }
}

/// Validates the fixed file signature: succeeds exactly when the first
/// eight bytes of the input are the PNG magic sequence, and otherwise
/// fails with a format error at offset zero.
pub fn check_signature(input: &[u8]) -> (r: Result<(), PngError>)
    ensures
        r is Ok <==> signature_ok(input@),
        r is Err ==> r == Err::<(), PngError>(PngError::Format { offset: 0 }),
{
    proof {
        assert(spec_signature()[0] == 0x89u8);
        assert(spec_signature()[1] == 0x50u8);
        assert(spec_signature()[2] == 0x4eu8);
        assert(spec_signature()[3] == 0x47u8);
        assert(spec_signature()[4] == 0x0du8);
        assert(spec_signature()[5] == 0x0au8);
        assert(spec_signature()[6] == 0x1au8);
        assert(spec_signature()[7] == 0x0au8);
    }
    if input.len() < 8 {
        return Err(PngError::Format { offset: 0 });
    }
    let ok = input[0] == 0x89 && input[1] == 0x50 && input[2] == 0x4e && input[3] == 0x47
        && input[4] == 0x0d && input[5] == 0x0a && input[6] == 0x1a && input[7] == 0x0a;
    if ok {
        proof {
            assert(input@.subrange(0, 8) =~= spec_signature());
        }
        Ok(())
    } else {
        proof {
            assert(input@.subrange(0, 8) != spec_signature()) by {
                if input@.subrange(0, 8) == spec_signature() {
                    assert(input@[0] == input@.subrange(0, 8)[0]);
                    assert(input@[1] == input@.subrange(0, 8)[1]);
                    assert(input@[2] == input@.subrange(0, 8)[2]);
                    assert(input@[3] == input@.subrange(0, 8)[3]);
                    assert(input@[4] == input@.subrange(0, 8)[4]);
                    assert(input@[5] == input@.subrange(0, 8)[5]);
                    assert(input@[6] == input@.subrange(0, 8)[6]);
                    assert(input@[7] == input@.subrange(0, 8)[7]);
                }
            }
        }
        Err(PngError::Format { offset: 0 })
    }
}

/// Finds the first null byte of `p`, the delimiter between a text chunk's
/// keyword and what follows it.
fn find_null(p: &[u8]) -> (r: Option<usize>)
    ensures
        match r {
            Some(k) => p@.index_of_first(0u8) == Some(k as int),
            None => p@.index_of_first(0u8) == None::<int>,
        },
{
    proof {
        p@.index_of_first_ensures(0u8);
    }
    let n = p.len();
    let mut i: usize = 0;
    while i < n
        invariant
            i <= n,
            n == p@.len(),
            forall|j: int| 0 <= j < i ==> p@[j] != 0u8,
        decreases n - i,
    {
        if p[i] == 0 {
            proof {
                assert(p@.contains(0u8));
                p@.index_of_first_ensures(0u8);
            }
            return Some(i);
        }
        i = i + 1;
    }
    proof {
        assert(forall|j: int| 0 <= j < p@.len() ==> p@[j] != 0u8);
        assert(!p@.contains(0u8));
        p@.index_of_first_ensures(0u8);
    }
    None
}

/// Decodes an IHDR payload: exactly the fixed thirteen-byte header, read as
/// two big-endian dimensions and five single-byte fields, in on-disk order;
/// a shorter payload is a malformed chunk.
pub fn ihdr(payload: &[u8], off: usize) -> (r: Result<Payload, PngError>)
    ensures
        match r {
            Ok(p) => spec_decode_payload(ihdr_type(), payload@, off as int) == Ok::<
                PayloadModel,
                PngError,
            >(p@),
            Err(e) => spec_decode_payload(ihdr_type(), payload@, off as int) == Err::<
                PayloadModel,
                PngError,
            >(e),
        },
{
    if payload.len() < 13 {
        return Err(PngError::MalformedChunk { offset: off });
    }
    let h = Ihdr {
        width: be_u32_at(payload, 0),
        height: be_u32_at(payload, 4),
        bit_depth: payload[8],
        color_type: payload[9],
        compression_method: payload[10],
        filter_method: payload[11],
        interlace_method: payload[12],
    };
    Ok(Payload::Header(h))
}

/// Decodes a tEXt payload: the bytes before the first null byte are the
/// keyword, the null is discarded, and everything after it is the text,
/// both decoded lossily from UTF-8. A payload without a null byte is a
/// malformed chunk.
pub fn text(payload: &[u8], off: usize) -> (r: Result<Payload, PngError>)
    ensures
        match r {
            Ok(p) => spec_decode_payload(text_type(), payload@, off as int) == Ok::<
                PayloadModel,
                PngError,
            >(p@),
            Err(e) => spec_decode_payload(text_type(), payload@, off as int) == Err::<
                PayloadModel,
                PngError,
            >(e),
        },
{
    proof {
        assert(text_type() != ihdr_type()) by {
            assert(text_type()[0] == 0x74u8);
            assert(ihdr_type()[0] == 0x49u8);
        }
    }
    match find_null(payload) {
        None => Err(PngError::MalformedChunk { offset: off }),
        Some(k) => {
            let n = payload.len();
            proof {
                payload@.index_of_first_ensures(0u8);
                assert(k < n);
            }
            let keyword = utf8_lossy(vstd::slice::slice_subrange(payload, 0, k));
            let rest = utf8_lossy(vstd::slice::slice_subrange(payload, k + 1, n));
            Ok(Payload::Text(TextData { keyword, text: rest }))
        },
    }
}

/// Decodes a zTXt payload: the bytes before the first null byte are the
/// keyword; the byte after the null names the compression method and is not
/// validated; the remaining bytes are zlib-inflated and the result decoded
/// lossily from UTF-8. A payload without a null byte, or without room for
/// the method byte, is a malformed chunk; compressed bytes the inflater
/// rejects are a decompression error.
pub fn ztxt(payload: &[u8], off: usize) -> (r: Result<Payload, PngError>)
    ensures
        match r {
            Ok(p) => spec_decode_payload(ztxt_type(), payload@, off as int) == Ok::<
                PayloadModel,
                PngError,
            >(p@),
            Err(e) => spec_decode_payload(ztxt_type(), payload@, off as int) == Err::<
                PayloadModel,
                PngError,
            >(e),
        },
{
    proof {
        assert(ztxt_type() != ihdr_type()) by {
            assert(ztxt_type()[0] == 0x7au8);
            assert(ihdr_type()[0] == 0x49u8);
        }
        assert(ztxt_type() != text_type()) by {
            assert(ztxt_type()[0] == 0x7au8);
            assert(text_type()[0] == 0x74u8);
        }
    }
    match find_null(payload) {
        None => Err(PngError::MalformedChunk { offset: off }),
        Some(k) => {
            proof {
                payload@.index_of_first_ensures(0u8);
                assert(k < payload@.len());
            }
            if payload.len() - k < 2 {
                return Err(PngError::MalformedChunk { offset: off });
            }
            let compressed = vstd::slice::slice_subrange(payload, k + 2, payload.len());
            match inflate_zlib(compressed) {
                Err(_) => Err(PngError::Decompression { offset: off }),
                Ok(inflated) => {
                    let keyword = utf8_lossy(vstd::slice::slice_subrange(payload, 0, k));
                    let rest = utf8_lossy(inflated.as_slice());
                    Ok(Payload::CompressedText(TextData { keyword, text: rest }))
                },
            }
        },
    }
}

/// Frames one chunk starting at `pos` and decodes its payload: reads the
/// four-byte big-endian length, the four type bytes, exactly `length`
/// payload bytes, and the four-byte big-endian declared CRC, computing the
/// CRC-32 of the type and payload bytes along the way. On success the
/// returned cursor has advanced past the frame's `4 + 4 + length + 4`
/// bytes; an input too short for any of those fields is a truncation error
/// at the frame's first byte.
pub fn chunk(input: &[u8], pos: usize) -> (r: Result<(Chunk, usize), PngError>)
    requires
        pos <= input@.len(),
    ensures
        match r {
            Ok((c, next)) => spec_chunk(input@, pos as int) == Ok::<(ChunkModel, int), PngError>(
                (c@, next as int),
            ) && pos < next <= input@.len(),
            Err(e) => spec_chunk(input@, pos as int) == Err::<(ChunkModel, int), PngError>(e),
        },
{
    let n = input.len();
    if n - pos < 8 {
        return Err(PngError::TruncatedInput { offset: pos });
    }
    let length = be_u32_at(input, pos);
    let rem = n - (pos + 8);
    if (rem as u64) < (length as u64) + 4 {
        return Err(PngError::TruncatedInput { offset: pos });
    }
    let len_us = length as usize;
    let data_end = pos + 8 + len_us;
    let t0 = input[pos + 4];
    let t1 = input[pos + 5];
    let t2 = input[pos + 6];
    let t3 = input[pos + 7];
    let chunk_type: [u8; 4] = [t0, t1, t2, t3];
    let ghost ty = input@.subrange(pos as int + 4, pos as int + 8);
    proof {
        assert(chunk_type@ =~= ty);
    }
    let payload = vstd::slice::slice_subrange(input, pos + 8, data_end);
    let decoded = if t0 == 0x49 && t1 == 0x48 && t2 == 0x44 && t3 == 0x52 {
        proof {
            assert(ty =~= ihdr_type());
        }
        ihdr(payload, pos)
    } else if t0 == 0x74 && t1 == 0x45 && t2 == 0x58 && t3 == 0x74 {
        proof {
            assert(ty =~= text_type());
        }
        text(payload, pos)
    } else if t0 == 0x7a && t1 == 0x54 && t2 == 0x58 && t3 == 0x74 {
        proof {
            assert(ty =~= ztxt_type());
        }
        ztxt(payload, pos)
    } else {
        proof {
            assert(ty != ihdr_type()) by {
                if ty == ihdr_type() {
                    assert(ty[0] == 0x49u8 && ty[1] == 0x48u8 && ty[2] == 0x44u8 && ty[3]
                        == 0x52u8);
                }
            }
            assert(ty != text_type()) by {
                if ty == text_type() {
                    assert(ty[0] == 0x74u8 && ty[1] == 0x45u8 && ty[2] == 0x58u8 && ty[3]
                        == 0x74u8);
                }
            }
            assert(ty != ztxt_type()) by {
                if ty == ztxt_type() {
                    assert(ty[0] == 0x7au8 && ty[1] == 0x54u8 && ty[2] == 0x58u8 && ty[3]
                        == 0x74u8);
                }
            }
        }
        Ok(Payload::Unknown(vstd::slice::slice_to_vec(payload)))
    };
    let payload_value = match decoded {
        Ok(p) => p,
        Err(e) => {
            return Err(e);
        },
    };
    let hashed = vstd::slice::slice_subrange(input, pos + 4, data_end);
    let computed_crc = crc32_ieee(hashed);
    let declared_crc = be_u32_at(input, data_end);
    let c = Chunk { chunk_type, payload: payload_value, declared_crc, computed_crc };
    let next = data_end + 4;
    proof {
        assert(spec_chunk(input@, pos as int) == Ok::<(ChunkModel, int), PngError>(
            (c@, next as int),
        )) by {
            let leni = be_u32_of(input@, pos as int) as int;
            assert(input@.subrange(pos as int + 8, pos as int + 8 + leni) == payload@);
            match spec_decode_payload(ty, payload@, pos as int) {
                Ok(pm) => {
                    assert(c@ =~= (ChunkModel {
                        chunk_type: ty,
                        payload: pm,
                        declared_crc: be_u32_of(input@, pos as int + 8 + leni),
                        computed_crc: crc32_of(input@.subrange(pos as int + 4, pos as int + 8 + leni)),
                    }));
                },
                Err(_) => {},
            }
        }
    }
    Ok((c, next))
}

/// Parses a complete PNG input: validates the signature, then frames
/// chunks until the input is exhausted. The document holds every chunk in
/// input order; the whole document is built, or the first error anywhere
/// aborts the parse.
pub fn png(input: &[u8]) -> (r: Result<Png, PngError>)
    ensures
        match r {
            Ok(doc) => spec_parse(input@) == Ok::<Seq<ChunkModel>, PngError>(doc@) && doc.wf(),
            Err(e) => spec_parse(input@) == Err::<Seq<ChunkModel>, PngError>(e),
        },
{
    if let Err(e) = check_signature(input) {
        return Err(e);
    }
    let mut chunks: Vec<Chunk> = Vec::new();
    let mut pos: usize = 8;
    proof {
        assert(chunks@.map_values(|c: Chunk| c@) =~= Seq::<ChunkModel>::empty());
    }
    while pos < input.len()
        invariant
            signature_ok(input@),
            8 <= pos <= input@.len(),
            (match spec_chunks(input@, pos as int) {
                Ok(rest) => spec_chunks(input@, 8) == Ok::<Seq<ChunkModel>, PngError>(
                    chunks@.map_values(|c: Chunk| c@) + rest,
                ),
                Err(e) => spec_chunks(input@, 8) == Err::<Seq<ChunkModel>, PngError>(e),
            }),
        decreases input@.len() - pos,
    {
        let ghost done = chunks@.map_values(|c: Chunk| c@);
        match chunk(input, pos) {
            Err(e) => {
                return Err(e);
            },
            Ok((c, next)) => {
                proof {
                    match spec_chunks(input@, next as int) {
                        Ok(rest) => {
                            assert(done + (seq![c@] + rest) =~= done.push(c@) + rest);
                            assert(done.push(c@) =~= chunks@.push(c).map_values(
                                |x: Chunk| x@,
                            ));
                        },
                        Err(_) => {},
                    }
                }
                chunks.push(c);
                pos = next;
            },
        }
    }
    proof {
        assert(spec_chunks(input@, pos as int) == Ok::<Seq<ChunkModel>, PngError>(
            Seq::<ChunkModel>::empty(),
        ));
        assert(chunks@.map_values(|c: Chunk| c@) + Seq::<ChunkModel>::empty() =~= chunks@
            .map_values(|c: Chunk| c@));
    }
    if chunks.len() == 0 {
        return Err(PngError::Format { offset: 8 });
    }
    let doc = Png { chunks };
    proof {
        assert(doc@.len() == doc.chunks@.len());
    }
    Ok(doc)
}

} // verus!
