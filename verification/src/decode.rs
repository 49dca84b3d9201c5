//! What a reader makes of the files that this library writes.
//!
//! Nothing here runs. The functions say how a PNG reader takes a file apart:
//! chunk by chunk with every checksum checked, then the zlib stream, its
//! stored blocks, and the scanlines. They serve to state that encoding loses
//! nothing: reading an encoded image gives the image back.

use crate::adler32::adler32_checksum;
use crate::bytes::{
    be32, from_be32, from_le16, le16, lemma_be32_round_trip, lemma_le16_round_trip,
};
use crate::chunk::{
    chunk_bytes, filter_scanlines, lemma_filter_scanlines_len, scanline, FILTER_TYPE_NONE,
    IDAT_TAG, IEND_TAG, IHDR_TAG,
};
use crate::crc::crc32_checksum;
use crate::deflate::{
    blocks_bytes, lemma_split_blocks, payloads, split_blocks, stored_stream, StoredBlock,
};
use crate::encoder::PNG_SIGNATURE;
use crate::png::{image_data_len, image_header, image_scanlines, png_bytes};
use crate::zlib::{lemma_zlib_header, lemma_zlib_stream_len, zlib_header, zlib_stream};
use vstd::prelude::*;

verus! {

/// A chunk read from the front of a file, and what follows it.
pub struct ParsedChunk {
    /// The four-letter type.
    pub tag: Seq<u8>,
    /// The data.
    pub data: Seq<u8>,
    /// The rest of the file.
    pub rest: Seq<u8>,
}

/// An image read from a file.
pub struct DecodedImage {
    /// The number of pixels in a row.
    pub width: u32,
    /// The number of rows.
    pub height: u32,
    /// The pixels, row by row from the top, four bytes each.
    pub pixels: Seq<u8>,
}

/// The chunk at the front of `file`. There is none if `file` ends before
/// the chunk does, or if the stored checksum is not the CRC-32 of type and
/// data.
pub open spec fn parse_chunk(file: Seq<u8>) -> Option<ParsedChunk> {
    if file.len() < 12 {
        None
    } else {
        let len = from_be32(file.subrange(0, 4)) as int;
        if file.len() < 12 + len {
            None
        } else {
            let tag = file.subrange(4, 8);
            let data = file.subrange(8, 8 + len);
            let crc = from_be32(file.subrange(8 + len, 12 + len));
            if crc != crc32_checksum(tag + data) {
                None
            } else {
                Some(ParsedChunk { tag, data, rest: file.skip(12 + len) })
            }
        }
    }
}

/// The bytes that the stored blocks at the front of `stream` carry, up to
/// and with the block that ends the stream, and the number of bytes that
/// the blocks take. There are none if `stream` ends before its last block,
/// if a block is not a stored block, or if the two lengths of a block do
/// not agree.
pub open spec fn inflate_stored(stream: Seq<u8>) -> Option<(Seq<u8>, int)>
    decreases stream.len(),
{
    if stream.len() < 5 {
        None
    } else {
        let header = stream[0];
        let len = from_le16(stream.subrange(1, 3));
        let nlen = from_le16(stream.subrange(3, 5));
        if header > 1 || nlen != !len || stream.len() < 5 + len {
            None
        } else {
            let payload = stream.subrange(5, 5 + len);
            if header == 1 {
                Some((payload, 5 + len))
            } else {
                match inflate_stored(stream.skip(5 + len)) {
                    Some((rest, read)) => Some((payload + rest, 5 + len + read)),
                    None => None,
                }
            }
        }
    }
}

/// Whether `cmf` and `flg` head a zlib stream that a PNG reader accepts:
/// DEFLATE with a window of at most 32 KiB, no preset dictionary, and the
/// two bytes together a multiple of 31.
pub open spec fn zlib_header_accepted(cmf: u8, flg: u8) -> bool {
    &&& cmf % 16 == 8
    &&& cmf / 16 <= 7
    &&& flg / 32 % 2 == 0
    &&& (cmf * 256 + flg) % 31 == 0
}

/// The bytes that the zlib stream `stream` stores. There are none if the
/// header is not accepted, if the blocks cannot be read, if the checksum
/// behind them is not the Adler-32 of what they carry, or if anything
/// follows the checksum.
pub open spec fn zlib_decode(stream: Seq<u8>) -> Option<Seq<u8>> {
    if stream.len() < 2 || !zlib_header_accepted(stream[0], stream[1]) {
        None
    } else {
        match inflate_stored(stream.skip(2)) {
            Some((data, read)) => {
                if stream.len() == 2 + read + 4 && from_be32(stream.skip(2 + read))
                    == adler32_checksum(data) {
                    Some(data)
                } else {
                    None
                }
            },
            None => None,
        }
    }
}

/// The rows of `scanlines` without their filter type bytes. There are none
/// if `scanlines` is not `rows` scanlines of `stride` bytes, or if a row is
/// filtered.
pub open spec fn unfilter(scanlines: Seq<u8>, stride: int, rows: int) -> Option<Seq<u8>>
    decreases rows,
{
    if rows <= 0 {
        if scanlines.len() == 0 {
            Some(Seq::empty())
        } else {
            None
        }
    } else {
        let above = (rows - 1) * (stride + 1);
        if scanlines.len() != above + 1 + stride || above < 0 || scanlines[above]
            != FILTER_TYPE_NONE {
            None
        } else {
            match unfilter(scanlines.take(above), stride, rows - 1) {
                Some(pixels) => Some(pixels + scanlines.skip(above + 1)),
                None => None,
            }
        }
    }
}

/// Whether `data` is the data of a header chunk for eight-bit RGBA pixels,
/// DEFLATE, adaptive filtering and no interlacing.
pub open spec fn ihdr_accepted(data: Seq<u8>) -> bool {
    &&& data.len() == 13
    &&& data[8] == 8
    &&& data[9] == 6
    &&& data[10] == 0
    &&& data[11] == 0
    &&& data[12] == 0
}

/// The data of the header chunk and of the image data chunk of `file`.
/// There are none unless `file` is the signature, a header chunk, one image
/// data chunk and the end marker, and nothing else, all with the right
/// checksums.
pub open spec fn read_chunks(file: Seq<u8>) -> Option<(Seq<u8>, Seq<u8>)> {
    if file.len() < 8 || file.take(8) != PNG_SIGNATURE@ {
        None
    } else {
        match parse_chunk(file.skip(8)) {
            Some(ihdr) => match parse_chunk(ihdr.rest) {
                Some(idat) => match parse_chunk(idat.rest) {
                    Some(iend) => {
                        if ihdr.tag == IHDR_TAG@ && idat.tag == IDAT_TAG@ && iend.tag
                            == IEND_TAG@ && iend.data.len() == 0 && iend.rest.len() == 0 {
                            Some((ihdr.data, idat.data))
                        } else {
                            None
                        }
                    },
                    None => None,
                },
                None => None,
            },
            None => None,
        }
    }
}

/// The image that `file` holds. There is none unless the chunks of `file`
/// can be read, the header is accepted, and the image data is a zlib stream
/// of as many unfiltered scanlines as the header says.
pub open spec fn decode_png(file: Seq<u8>) -> Option<DecodedImage> {
    match read_chunks(file) {
        Some((ihdr, idat)) => {
            if !ihdr_accepted(ihdr) {
                None
            } else {
                let width = from_be32(ihdr.subrange(0, 4));
                let height = from_be32(ihdr.subrange(4, 8));
                match zlib_decode(idat) {
                    Some(scanlines) => match unfilter(scanlines, 4 * width, height as int) {
                        Some(pixels) => Some(DecodedImage { width, height, pixels }),
                        None => None,
                    },
                    None => None,
                }
            }
        },
        None => None,
    }
}

/// A framed chunk is read back as its type and data, with what follows it
/// left over.
pub proof fn lemma_parse_chunk(tag: Seq<u8>, data: Seq<u8>, rest: Seq<u8>)
    requires
        tag.len() == 4,
        data.len() <= u32::MAX,
    ensures
        parse_chunk(chunk_bytes(tag, data) + rest) == Some(ParsedChunk { tag, data, rest }),
{
    let file = chunk_bytes(tag, data) + rest;
    let len = data.len() as int;
    let crc = crc32_checksum(tag + data);
    lemma_be32_round_trip(len as u32);
    lemma_be32_round_trip(crc);
    assert(file.subrange(0, 4) =~= be32(len as u32));
    assert(file.subrange(4, 8) =~= tag);
    assert(file.subrange(8, 8 + len) =~= data);
    assert(file.subrange(8 + len, 12 + len) =~= be32(crc));
    assert(file.skip(12 + len) =~= rest);
}

/// Blocks that are well formed, with the last one and no other ending the
/// stream, are read back as their payloads, and the reader stops behind the
/// last block.
pub proof fn lemma_inflate_blocks(blocks: Seq<StoredBlock>, rest: Seq<u8>)
    requires
        blocks.len() > 0,
        forall|i: int| 0 <= i < blocks.len() ==> (#[trigger] blocks[i]).wf(),
        forall|i: int|
            0 <= i < blocks.len() ==> ((#[trigger] blocks[i]).final_flag <==> i == blocks.len() - 1),
    ensures
        inflate_stored(blocks_bytes(blocks) + rest) == Some(
            (payloads(blocks), blocks_bytes(blocks).len() as int),
        ),
    decreases blocks.len(),
{
    let first = blocks.first();
    let others = blocks.drop_first();
    let stream = blocks_bytes(blocks) + rest;
    let len = first.len as int;
    assert(first.wf());
    lemma_le16_round_trip(first.len);
    lemma_le16_round_trip(first.nlen);
    assert(stream.subrange(1, 3) =~= le16(first.len));
    assert(stream.subrange(3, 5) =~= le16(first.nlen));
    assert(stream.subrange(5, 5 + len) =~= first.payload);
    assert(stream.skip(5 + len) =~= blocks_bytes(others) + rest);
    assert(stream[0] == first.header());
    if blocks.len() == 1 {
        assert(first.final_flag);
        assert(blocks_bytes(others) =~= Seq::<u8>::empty());
        assert(payloads(others) =~= Seq::<u8>::empty());
        assert(payloads(blocks) =~= first.payload);
    } else {
        assert(!first.final_flag);
        assert forall|i: int| 0 <= i < others.len() implies (#[trigger] others[i]).wf() && (
        others[i].final_flag <==> i == others.len() - 1) by {
            assert(others[i] == blocks[i + 1]);
        }
        lemma_inflate_blocks(others, rest);
    }
}

/// The stream that stores `data` is read back as `data`.
pub proof fn lemma_inflate_stored(data: Seq<u8>, rest: Seq<u8>)
    ensures
        inflate_stored(stored_stream(data) + rest) == Some(
            (data, stored_stream(data).len() as int),
        ),
{
    lemma_split_blocks(data);
    lemma_inflate_blocks(split_blocks(data), rest);
}

/// A stream with an accepted header, blocks that are read back as `data`
/// and the Adler-32 of `data` behind them is read back as `data`.
proof fn lemma_zlib_decode_in_turn(stream: Seq<u8>, data: Seq<u8>, read: int)
    requires
        0 <= read,
        stream.len() == 2 + read + 4,
        zlib_header_accepted(stream[0], stream[1]),
        inflate_stored(stream.skip(2)) == Some((data, read)),
        from_be32(stream.skip(2 + read)) == adler32_checksum(data),
    ensures
        zlib_decode(stream) == Some(data),
{
}

/// The header, blocks that are read back as `data` whatever follows them,
/// and the four bytes of `checksum`, which is the Adler-32 of `data`, are
/// read back as `data`.
proof fn lemma_zlib_decode_parts(blocks: Seq<u8>, data: Seq<u8>, checksum: u32)
    requires
        inflate_stored(blocks + be32(checksum)) == Some((data, blocks.len() as int)),
        checksum == adler32_checksum(data),
    ensures
        zlib_decode(zlib_header() + blocks + be32(checksum)) == Some(data),
{
    let trailer = be32(checksum);
    let stream = zlib_header() + blocks + trailer;
    lemma_zlib_header();
    lemma_be32_round_trip(checksum);
    assert(stream[0] == 0x78 && stream[1] == 0x9C);
    assert(zlib_header_accepted(0x78, 0x9C));
    assert(stream.skip(2) =~= blocks + trailer);
    assert(stream.skip(2 + blocks.len() as int) =~= trailer);
    lemma_zlib_decode_in_turn(stream, data, blocks.len() as int);
}

/// The zlib stream that stores `data` is read back as `data`.
pub proof fn lemma_zlib_decode(data: Seq<u8>)
    ensures
        zlib_decode(zlib_stream(data)) == Some(data),
{
    let checksum = adler32_checksum(data);
    lemma_inflate_stored(data, be32(checksum));
    lemma_zlib_decode_parts(stored_stream(data), data, checksum);
}

/// The first `rows` scanlines are read back as the first `rows` rows.
pub proof fn lemma_unfilter(pixels: Seq<u8>, stride: int, rows: int)
    requires
        0 <= stride,
        0 <= rows,
        rows * stride <= pixels.len(),
    ensures
        unfilter(filter_scanlines(pixels, stride, rows), stride, rows) == Some(
            pixels.take(rows * stride),
        ),
    decreases rows,
{
    if rows == 0 {
        assert(rows * stride == 0) by (nonlinear_arith)
            requires
                rows == 0,
        ;
        assert(pixels.take(0) =~= Seq::<u8>::empty());
    } else {
        let scanlines = filter_scanlines(pixels, stride, rows);
        let above = filter_scanlines(pixels, stride, rows - 1);
        let line = scanline(pixels, stride, rows - 1);
        assert(rows * stride == (rows - 1) * stride + stride && 0 <= (rows - 1) * stride
            && (rows - 1) * (stride + 1) >= 0) by (nonlinear_arith)
            requires
                rows >= 1,
                stride >= 0,
        ;
        lemma_filter_scanlines_len(pixels, stride, rows - 1);
        lemma_unfilter(pixels, stride, rows - 1);
        let cut = (rows - 1) * (stride + 1);
        assert(scanlines.take(cut) =~= above);
        assert(scanlines.skip(cut + 1) =~= pixels.subrange((rows - 1) * stride, rows * stride));
        assert(pixels.take((rows - 1) * stride) + pixels.subrange(
            (rows - 1) * stride,
            rows * stride,
        ) =~= pixels.take(rows * stride));
    }
}

/// A file that begins with the signature and goes on with three chunks has
/// the signature in its first eight bytes and the chunks behind them.
proof fn lemma_file_parts(first: Seq<u8>, second: Seq<u8>, third: Seq<u8>)
    ensures
        (PNG_SIGNATURE@ + first + second + third).len() >= 8,
        (PNG_SIGNATURE@ + first + second + third).take(8) == PNG_SIGNATURE@,
        (PNG_SIGNATURE@ + first + second + third).skip(8) == first + (second + third),
{
    let file = PNG_SIGNATURE@ + first + second + third;
    assert(file.take(8) =~= PNG_SIGNATURE@);
    assert(file.skip(8) =~= first + (second + third));
}

/// A file whose three chunks are read one behind the other, with the right
/// types and nothing in or behind the end marker, gives the data of the
/// first two.
proof fn lemma_read_chunks_in_turn(
    file: Seq<u8>,
    ihdr: ParsedChunk,
    idat: ParsedChunk,
    iend: ParsedChunk,
)
    requires
        file.len() >= 8,
        file.take(8) == PNG_SIGNATURE@,
        parse_chunk(file.skip(8)) == Some(ihdr),
        parse_chunk(ihdr.rest) == Some(idat),
        parse_chunk(idat.rest) == Some(iend),
        ihdr.tag == IHDR_TAG@,
        idat.tag == IDAT_TAG@,
        iend.tag == IEND_TAG@,
        iend.data.len() == 0,
        iend.rest.len() == 0,
    ensures
        read_chunks(file) == Some((ihdr.data, idat.data)),
{
}

/// The file that frames `ihdr_data` and `idat_data` in a header chunk and
/// an image data chunk, with the signature before them and the end marker
/// behind, is read back as the two.
pub proof fn lemma_read_framed_chunks(ihdr_data: Seq<u8>, idat_data: Seq<u8>)
    requires
        ihdr_data.len() <= u32::MAX,
        idat_data.len() <= u32::MAX,
    ensures
        read_chunks(
            PNG_SIGNATURE@ + chunk_bytes(IHDR_TAG@, ihdr_data) + chunk_bytes(
                IDAT_TAG@,
                idat_data,
            ) + chunk_bytes(IEND_TAG@, Seq::empty()),
        ) == Some((ihdr_data, idat_data)),
{
    let none = Seq::<u8>::empty();
    let first = chunk_bytes(IHDR_TAG@, ihdr_data);
    let second = chunk_bytes(IDAT_TAG@, idat_data);
    let third = chunk_bytes(IEND_TAG@, none);
    let file = PNG_SIGNATURE@ + first + second + third;
    let ihdr = ParsedChunk { tag: IHDR_TAG@, data: ihdr_data, rest: second + third };
    let idat = ParsedChunk { tag: IDAT_TAG@, data: idat_data, rest: third };
    let iend = ParsedChunk { tag: IEND_TAG@, data: none, rest: none };
    lemma_file_parts(first, second, third);
    lemma_parse_chunk(IHDR_TAG@, ihdr_data, second + third);
    lemma_parse_chunk(IDAT_TAG@, idat_data, third);
    assert(parse_chunk(third) == Some(iend)) by {
        lemma_parse_chunk(IEND_TAG@, none, none);
        assert(third + none =~= third);
    }
    lemma_read_chunks_in_turn(file, ihdr, idat, iend);
}

/// The chunks of the file of an image are read back: the header chunk with
/// the size of the image, and the image data chunk with the zlib stream of
/// its scanlines.
pub proof fn lemma_read_chunks(width: u32, height: u32, pixels: Seq<u8>)
    requires
        zlib_stream(image_scanlines(width, height, pixels)).len() <= u32::MAX,
    ensures
        read_chunks(png_bytes(width, height, pixels)) == Some(
            (
                image_header(width, height).data(),
                zlib_stream(image_scanlines(width, height, pixels)),
            ),
        ),
{
    let ihdr_data = image_header(width, height).data();
    let idat_data = zlib_stream(image_scanlines(width, height, pixels));
    assert(ihdr_data.len() == 13);
    lemma_read_framed_chunks(ihdr_data, idat_data);
}

/// The data of a header chunk for eight-bit RGBA pixels is accepted, and
/// width and height are read back from it.
pub proof fn lemma_header_read_back(width: u32, height: u32)
    ensures
        ({
            let data = image_header(width, height).data();
            &&& ihdr_accepted(data)
            &&& from_be32(data.subrange(0, 4)) == width
            &&& from_be32(data.subrange(4, 8)) == height
        }),
{
    let data = image_header(width, height).data();
    lemma_be32_round_trip(width);
    lemma_be32_round_trip(height);
    assert(data.subrange(0, 4) =~= be32(width));
    assert(data.subrange(4, 8) =~= be32(height));
}

/// The scanlines of an image are read back as its pixels, and the zlib
/// stream that stores them is short enough for a chunk.
pub proof fn lemma_scanlines_read_back(width: u32, height: u32, pixels: Seq<u8>)
    requires
        pixels.len() == width * height * 4,
        image_data_len(width, height) <= u32::MAX,
    ensures
        zlib_stream(image_scanlines(width, height, pixels)).len() <= u32::MAX,
        unfilter(image_scanlines(width, height, pixels), 4 * width, height as int) == Some(
            pixels,
        ),
{
    let scanlines = image_scanlines(width, height, pixels);
    assert(height * (4 * width) == pixels.len() && height * (4 * width + 1) == height * (4
        * width) + height) by (nonlinear_arith)
        requires
            pixels.len() == width * height * 4,
    ;
    lemma_filter_scanlines_len(pixels, 4 * width, height as int);
    lemma_zlib_stream_len(scanlines);
    lemma_unfilter(pixels, 4 * width, height as int);
    assert(pixels.take(height * (4 * width)) =~= pixels);
}

/// Reading the file of an image gives the image back: its width, its
/// height and every byte of its pixels.
pub proof fn lemma_png_round_trip(width: u32, height: u32, pixels: Seq<u8>)
    requires
        pixels.len() == width * height * 4,
        image_data_len(width, height) <= u32::MAX,
    ensures
        decode_png(png_bytes(width, height, pixels)) == Some(
            DecodedImage { width, height, pixels },
        ),
{
    lemma_scanlines_read_back(width, height, pixels);
    lemma_read_chunks(width, height, pixels);
    lemma_header_read_back(width, height);
    lemma_zlib_decode(image_scanlines(width, height, pixels));
}

} // verus!
