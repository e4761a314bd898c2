//! Data model: the document produced by a successful parse, the payload
//! variants, the error taxonomy, and the mathematical views that the
//! parser's contracts are stated over.

use vstd::prelude::*;

verus! {

/// Image-header fields of an IHDR chunk, in on-disk order. No range
/// validation is performed on them; a width of zero is representable.
#[derive(Clone, Copy, Debug, PartialEq, Eq, Structural)]
pub struct Ihdr {
    pub width: u32,
    pub height: u32,
    pub bit_depth: u8,
    pub color_type: u8,
    pub compression_method: u8,
    pub filter_method: u8,
    pub interlace_method: u8,
}

/// A keyword/text pair from a tEXt or zTXt chunk, decoded lossily from
/// UTF-8: undecodable byte sequences become replacement characters.
#[derive(Clone, Debug, PartialEq, Eq)]
pub struct TextData {
    pub keyword: String,
    pub text: String,
}

/// The decoded payload of a chunk, selected by its four-byte type code.
#[derive(Clone, Debug, PartialEq, Eq)]
pub enum Payload {
    /// An IHDR chunk's fixed thirteen-byte header.
    Header(Ihdr),
    /// A tEXt chunk's keyword and plain text.
    Text(TextData),
    /// A zTXt chunk's keyword and inflated text.
    CompressedText(TextData),
    /// Any other chunk type: the raw payload bytes, copied verbatim.
    Unknown(Vec<u8>),
}

/// One parsed chunk. `computed_crc` is the CRC-32 of the type bytes followed
/// by the raw payload bytes; whether it equals `declared_crc` is left for
/// the caller to check, so that files with stale checksums can still be
/// inspected.
#[derive(Clone, Debug, PartialEq, Eq)]
pub struct Chunk {
    pub chunk_type: [u8; 4],
    pub payload: Payload,
    pub declared_crc: u32,
    pub computed_crc: u32,
}

/// A fully parsed document: every chunk of the input, in file order.
#[derive(Clone, Debug, PartialEq, Eq)]
pub struct Png {
    pub chunks: Vec<Chunk>,
}

/// Why a parse failed. Every error is fatal to the whole parse; `offset` is
/// the byte position of the element that failed (for chunk-level errors, the
/// first byte of the chunk's frame).
#[derive(Clone, Copy, Debug, PartialEq, Eq, Structural)]
pub enum PngError {
    /// The input lacks the eight-byte signature, or holds no chunk after it.
    Format { offset: usize },
    /// The input ended inside a chunk's frame.
    TruncatedInput { offset: usize },
    /// A type-specific structural invariant of a payload was violated.
    MalformedChunk { offset: usize },
    /// The compressed bytes of a zTXt chunk were rejected by inflation.
    Decompression { offset: usize },
}

/// Mathematical view of a text payload.
#[verifier::ext_equal]
pub struct TextModel {
    pub keyword: Seq<char>,
    pub text: Seq<char>,
}

/// Mathematical view of a payload.
#[verifier::ext_equal]
pub enum PayloadModel {
    Header(Ihdr),
    Text(TextModel),
    CompressedText(TextModel),
    Unknown(Seq<u8>),
}

/// Mathematical view of a chunk.
#[verifier::ext_equal]
pub struct ChunkModel {
    pub chunk_type: Seq<u8>,
    pub payload: PayloadModel,
    pub declared_crc: u32,
    pub computed_crc: u32,
}

impl View for TextData {
    type V = TextModel;

    open spec fn view(&self) -> TextModel {
        TextModel { keyword: self.keyword@, text: self.text@ }
    }
}

impl View for Payload {
    type V = PayloadModel;

    open spec fn view(&self) -> PayloadModel {
        match self {
            Payload::Header(h) => PayloadModel::Header(*h),
            Payload::Text(t) => PayloadModel::Text(t@),
            Payload::CompressedText(t) => PayloadModel::CompressedText(t@),
            Payload::Unknown(d) => PayloadModel::Unknown(d@),
        }
    }
}

impl View for Chunk {
    type V = ChunkModel;

    open spec fn view(&self) -> ChunkModel {
        ChunkModel {
            chunk_type: self.chunk_type@,
            payload: self.payload@,
            declared_crc: self.declared_crc,
            computed_crc: self.computed_crc,
        }
    }
}

impl View for Png {
    type V = Seq<ChunkModel>;

    open spec fn view(&self) -> Seq<ChunkModel> {
        self.chunks@.map_values(|c: Chunk| c@)
    }
}

impl Png {
    /// A document is well formed when it holds at least one chunk.
    pub open spec fn wf(&self) -> bool {
        self.chunks@.len() >= 1
    }
}

} // verus!
