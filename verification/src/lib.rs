//! A streaming decoder for the PNG container format: it validates the fixed
//! eight-byte file signature, then parses a sequence of length-prefixed,
//! typed, CRC-protected chunks into a structured document. Header (IHDR),
//! plain text (tEXt) and compressed text (zTXt) payloads are decoded; every
//! other chunk type is kept as opaque bytes. Each chunk carries both the CRC
//! declared in the file and one recomputed over the type and payload bytes,
//! so callers can detect corruption without the parse failing on it.

pub mod collab;
pub mod laws;
pub mod model;
pub mod parse;
