use png_chunks::model::{Payload, PngError};
use png_chunks::parse::{check_signature, chunk, ihdr, png, text, ztxt};

const SIGNATURE: [u8; 8] = [0x89, 0x50, 0x4E, 0x47, 0x0D, 0x0A, 0x1A, 0x0A];

fn crc32(bytes: &[u8]) -> u32 {
    crc::Crc::<u32>::new(&crc::CRC_32_ISO_HDLC).checksum(bytes)
}

/// A chunk frame with a correct declared CRC: length, type, payload, CRC.
fn frame(chunk_type: &[u8; 4], payload: &[u8]) -> Vec<u8> {
    let mut out = Vec::new();
    out.extend_from_slice(&(payload.len() as u32).to_be_bytes());
    out.extend_from_slice(chunk_type);
    out.extend_from_slice(payload);
    let mut hashed = chunk_type.to_vec();
    hashed.extend_from_slice(payload);
    out.extend_from_slice(&crc32(&hashed).to_be_bytes());
    out
}

fn document(frames: &[Vec<u8>]) -> Vec<u8> {
    let mut out = SIGNATURE.to_vec();
    for f in frames {
        out.extend_from_slice(f);
    }
    out
}

const IHDR_1X1: [u8; 13] = [0, 0, 0, 1, 0, 0, 0, 1, 8, 2, 0, 0, 0];

#[test]
fn signature_gate_rejects_bad_magic() {
    let mut input = document(&[frame(b"fooB", &[1, 2, 3])]);
    input[0] = 0x88;
    assert_eq!(png(&input), Err(PngError::Format { offset: 0 }));
    assert_eq!(png(&[]), Err(PngError::Format { offset: 0 }));
    assert_eq!(png(&SIGNATURE[..7]), Err(PngError::Format { offset: 0 }));
    assert_eq!(check_signature(&SIGNATURE), Ok(()));
}

#[test]
fn signature_without_chunks_is_format_error() {
    assert_eq!(png(&SIGNATURE), Err(PngError::Format { offset: 8 }));
}

#[test]
fn header_and_text_document() {
    let ihdr_frame = frame(b"IHDR", &IHDR_1X1);
    let text_frame = frame(b"tEXt", b"Author\0Test");
    let input = document(&[ihdr_frame, text_frame]);
    let doc = png(&input).unwrap();
    assert_eq!(doc.chunks.len(), 2);

    let first = &doc.chunks[0];
    assert_eq!(&first.chunk_type, b"IHDR");
    match &first.payload {
        Payload::Header(h) => {
            assert_eq!(h.width, 1);
            assert_eq!(h.height, 1);
            assert_eq!(h.bit_depth, 8);
            assert_eq!(h.color_type, 2);
            assert_eq!(h.compression_method, 0);
            assert_eq!(h.filter_method, 0);
            assert_eq!(h.interlace_method, 0);
        },
        other => panic!("expected a header payload, got {:?}", other),
    }
    let mut hashed = b"IHDR".to_vec();
    hashed.extend_from_slice(&IHDR_1X1);
    assert_eq!(first.computed_crc, crc32(&hashed));
    assert_eq!(first.computed_crc, first.declared_crc);

    let second = &doc.chunks[1];
    assert_eq!(&second.chunk_type, b"tEXt");
    match &second.payload {
        Payload::Text(t) => {
            assert_eq!(t.keyword, "Author");
            assert_eq!(t.text, "Test");
        },
        other => panic!("expected a text payload, got {:?}", other),
    }
    let mut hashed = b"tEXt".to_vec();
    hashed.extend_from_slice(b"Author\0Test");
    assert_eq!(second.computed_crc, crc32(&hashed));
    assert_eq!(second.computed_crc, second.declared_crc);
}

#[test]
fn unknown_chunk_keeps_payload_verbatim() {
    let payload = [0x00, 0x01, 0xFE, 0xFF, 0x42];
    let input = document(&[frame(b"fooB", &payload)]);
    let doc = png(&input).unwrap();
    assert_eq!(doc.chunks.len(), 1);
    assert_eq!(&doc.chunks[0].chunk_type, b"fooB");
    assert_eq!(doc.chunks[0].payload, Payload::Unknown(payload.to_vec()));
}

#[test]
fn truncation_anywhere_in_a_frame_is_detected() {
    let input = document(&[frame(b"IHDR", &IHDR_1X1)]);
    for cut in 9..input.len() {
        assert_eq!(
            png(&input[..cut]),
            Err(PngError::TruncatedInput { offset: 8 }),
            "cut at {}",
            cut
        );
    }
}

#[test]
fn lossy_text_decoding_replaces_invalid_utf8() {
    let mut payload = b"Comment\0".to_vec();
    payload.extend_from_slice(&[0xFF, 0xFE]);
    let input = document(&[frame(b"tEXt", &payload)]);
    let doc = png(&input).unwrap();
    match &doc.chunks[0].payload {
        Payload::Text(t) => {
            assert_eq!(t.keyword, "Comment");
            assert_eq!(t.text, "\u{FFFD}\u{FFFD}");
        },
        other => panic!("expected a text payload, got {:?}", other),
    }
}

#[test]
fn text_without_null_delimiter_is_malformed() {
    let input = document(&[frame(b"tEXt", b"no delimiter here")]);
    assert_eq!(png(&input), Err(PngError::MalformedChunk { offset: 8 }));
}

#[test]
fn short_header_payload_is_malformed() {
    let input = document(&[frame(b"IHDR", &IHDR_1X1[..12])]);
    assert_eq!(png(&input), Err(PngError::MalformedChunk { offset: 8 }));
}

#[test]
fn compressed_text_round_trips_through_inflation() {
    let mut payload = b"Title\0".to_vec();
    payload.push(0);
    payload.extend_from_slice(&miniz_oxide::deflate::compress_to_vec_zlib(
        "hello compressed world".as_bytes(),
        6,
    ));
    let input = document(&[frame(b"zTXt", &payload)]);
    let doc = png(&input).unwrap();
    match &doc.chunks[0].payload {
        Payload::CompressedText(t) => {
            assert_eq!(t.keyword, "Title");
            assert_eq!(t.text, "hello compressed world");
        },
        other => panic!("expected a compressed text payload, got {:?}", other),
    }
}

#[test]
fn corrupt_compressed_bytes_abort_with_decompression_error() {
    let ihdr_frame = frame(b"IHDR", &IHDR_1X1);
    let second_chunk_offset = 8 + ihdr_frame.len();
    let mut payload = b"Title\0".to_vec();
    payload.push(0);
    payload.extend_from_slice(&[0x01, 0x02, 0x03]);
    let input = document(&[ihdr_frame, frame(b"zTXt", &payload)]);
    assert_eq!(
        png(&input),
        Err(PngError::Decompression { offset: second_chunk_offset })
    );
}

#[test]
fn compressed_text_without_method_byte_is_malformed() {
    let input = document(&[frame(b"zTXt", b"Title\0")]);
    assert_eq!(png(&input), Err(PngError::MalformedChunk { offset: 8 }));
}

#[test]
fn crc_mismatch_is_surfaced_not_fatal() {
    let mut f = frame(b"fooB", &[9, 9, 9]);
    let last = f.len() - 1;
    f[last] ^= 0xFF;
    let input = document(&[f]);
    let doc = png(&input).unwrap();
    let c = &doc.chunks[0];
    assert_ne!(c.declared_crc, c.computed_crc);
    assert_eq!(c.computed_crc, crc32(b"fooB\x09\x09\x09"));
}

#[test]
fn computed_crc_matches_known_value() {
    let input = document(&[frame(b"IEND", &[])]);
    let doc = png(&input).unwrap();
    assert_eq!(doc.chunks[0].computed_crc, 0xAE42_6082);
    assert_eq!(doc.chunks[0].declared_crc, 0xAE42_6082);
}

#[test]
fn single_chunk_framing_consumes_exactly_its_bytes() {
    let f = frame(b"fooB", &[1, 2, 3, 4, 5]);
    let mut input = SIGNATURE.to_vec();
    input.extend_from_slice(&f);
    let (c, next) = chunk(&input, 8).unwrap();
    assert_eq!(next, 8 + 4 + 4 + 5 + 4);
    assert_eq!(next, input.len());
    assert_eq!(&c.chunk_type, b"fooB");
    let data = match &c.payload {
        Payload::Unknown(d) => d.clone(),
        other => panic!("expected an opaque payload, got {:?}", other),
    };
    let mut reencoded = (data.len() as u32).to_be_bytes().to_vec();
    reencoded.extend_from_slice(&c.chunk_type);
    reencoded.extend_from_slice(&data);
    reencoded.extend_from_slice(&c.declared_crc.to_be_bytes());
    assert_eq!(reencoded, f);
}

#[test]
fn payload_decoders_work_standalone() {
    match ihdr(&IHDR_1X1, 0).unwrap() {
        Payload::Header(h) => {
            assert_eq!((h.width, h.height), (1, 1));
        },
        other => panic!("expected a header payload, got {:?}", other),
    }
    match text(b"k\0v", 0).unwrap() {
        Payload::Text(t) => {
            assert_eq!(t.keyword, "k");
            assert_eq!(t.text, "v");
        },
        other => panic!("expected a text payload, got {:?}", other),
    }
    assert_eq!(text(b"", 3), Err(PngError::MalformedChunk { offset: 3 }));
    assert_eq!(ztxt(b"k", 7), Err(PngError::MalformedChunk { offset: 7 }));
}
