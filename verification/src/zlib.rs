//! The zlib container: a two-byte header, a DEFLATE stream, and the
//! Adler-32 of the uncompressed bytes.

use crate::adler32::adler32_checksum;
use crate::bytes::be32;
use crate::deflate::{block_count, lemma_stored_stream_len, stored_stream};
use vstd::prelude::*;

verus! {

/// The compression method: 8 is DEFLATE.
pub const ZLIB_CM: u8 = 8;

/// The window size, as the base-2 logarithm less eight: 7 is 32 KiB.
pub const ZLIB_CINFO: u8 = 7;

/// The compression level hint: 2 is the default level.
pub const ZLIB_FLEVEL: u8 = 2;

/// Whether a preset dictionary follows the header: 0 is none.
pub const ZLIB_FDICT: u8 = 0;

/// The check bits, which make the header a multiple of 31.
pub const ZLIB_FCHECK: u8 = 28;

/// The first header byte, CMF: `CINFO` in the high four bits, `CM` in the
/// low four.
pub open spec fn zlib_cmf() -> u8 {
    (ZLIB_CINFO * 16 + ZLIB_CM) as u8
}

/// The second header byte, FLG: `FLEVEL` in the high two bits, then `FDICT`,
/// then the five check bits.
pub open spec fn zlib_flg() -> u8 {
    (ZLIB_FLEVEL * 64 + ZLIB_FDICT * 32 + ZLIB_FCHECK) as u8
}

/// The header of every stream that this library writes.
pub open spec fn zlib_header() -> Seq<u8> {
    seq![zlib_cmf(), zlib_flg()]
}

/// The zlib stream that stores `data`.
pub open spec fn zlib_stream(data: Seq<u8>) -> Seq<u8> {
    zlib_header() + stored_stream(data) + be32(adler32_checksum(data))
}

/// The length of the zlib stream that stores `n` bytes: two bytes of header,
/// five for each block, the bytes themselves, and four of checksum.
pub open spec fn zlib_stream_len(n: nat) -> nat {
    2 + 5 * block_count(n) + n + 4
}

/// The zlib stream that stores `data` has the length that `zlib_stream_len`
/// gives.
pub proof fn lemma_zlib_stream_len(data: Seq<u8>)
    ensures
        zlib_stream(data).len() == zlib_stream_len(data.len()),
{
    lemma_stored_stream_len(data);
}

/// The header is `78 9C`, and read as one 16-bit number, CMF first, it is a
/// multiple of 31.
pub proof fn lemma_zlib_header()
    ensures
        zlib_header() == seq![0x78u8, 0x9Cu8],
        (zlib_cmf() * 256 + zlib_flg()) % 31 == 0,
{
}

/// The header of a zlib stream.
#[derive(Debug)]
pub struct ZlibHeader;

impl ZlibHeader {
    /// Appends the two header bytes to `writer`.
    pub fn write_to(&self, writer: &mut Vec<u8>)
        ensures
            final(writer)@ == old(writer)@ + zlib_header(),
    {
        // [CINFO=0111] 32k window size
        // [CM=1000] DEFLATE algorithm
        writer.push(0b0111_1000);
        // [FLEVEL=10] default compression level
        // [FDICT=0] no dictionary
        // [FCHECK=11100] check bits
        writer.push(0b1001_1100);
    }
}

} // verus!
