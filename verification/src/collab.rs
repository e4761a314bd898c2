//! The parser's external collaborators: CRC-32 checksumming, zlib
//! inflation, and lossy UTF-8 decoding. Each call is made through a small
//! wrapper whose contract names the call's result, since all three are
//! functions of their input bytes alone.

use vstd::prelude::*;

verus! {

/// The CRC-32 (IEEE 802.3 polynomial, zlib/PNG convention) of a byte
/// sequence.
pub uninterp spec fn crc32_of(bytes: Seq<u8>) -> u32;

/// The result of zlib-inflating a byte sequence: the decompressed bytes,
/// or `None` when the sequence is not a valid zlib stream.
pub uninterp spec fn inflate_zlib_of(bytes: Seq<u8>) -> Option<Seq<u8>>;

/// The lossy UTF-8 decoding of a byte sequence: invalid sequences are
/// replaced with the replacement character, so decoding never fails.
pub uninterp spec fn utf8_lossy_of(bytes: Seq<u8>) -> Seq<char>;

/// Relies on crc::Crc::<u32>::checksum with the CRC_32_ISO_HDLC algorithm:
/// the standard CRC-32 used by PNG and zlib, a function of the bytes alone.
#[verifier::external_body]
pub(crate) fn crc32_ieee(bytes: &[u8]) -> (r: u32)
    ensures
        r == crc32_of(bytes@),
{
    crc::Crc::<u32>::new(&crc::CRC_32_ISO_HDLC).checksum(bytes)
}

/// The error value miniz_oxide returns when a zlib stream is invalid.
#[verifier::external_type_specification]
#[verifier::external_body]
pub struct ExDecompressError(miniz_oxide::inflate::DecompressError);

/// Relies on miniz_oxide::inflate::decompress_to_vec_zlib: whether a byte
/// sequence inflates, and to what, is a function of the bytes alone.
#[verifier::external_body]
pub(crate) fn inflate_zlib(bytes: &[u8]) -> (r: Result<
    Vec<u8>,
    miniz_oxide::inflate::DecompressError,
>)
    ensures
        match r {
            Ok(v) => inflate_zlib_of(bytes@) == Some(v@),
            Err(_) => inflate_zlib_of(bytes@) == None::<Seq<u8>>,
        },
{
    miniz_oxide::inflate::decompress_to_vec_zlib(bytes)
}

/// Relies on String::from_utf8_lossy: the decoding depends on the bytes
/// alone, and never fails.
#[verifier::external_body]
pub(crate) fn utf8_lossy(bytes: &[u8]) -> (r: String)
    ensures
        r@ == utf8_lossy_of(bytes@),
{
    String::from_utf8_lossy(bytes).into_owned()
}

} // verus!
