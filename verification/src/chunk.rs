//! The three chunks of a PNG file: the header, the image data and the end
//! marker.
//!
//! Every chunk is a length, a four-letter type, the data, and the CRC-32 of
//! type and data. `write_chunk` frames any chunk: the length goes out
//! first, then type and data go through a `CrcWriter`, which appends the
//! checksum. The three chunks differ in their data alone.

use crate::adler32::{
    adler32_checksum, adler_fold, adler_initial, lemma_adler_fold_concat,
    lemma_adler_fold_is_checksum, Adler32Writer,
};
use crate::bytes::{be32, take_sink, u32_to_be_bytes, write_u32_be};
use crate::crc::{crc32_checksum, lemma_crc_fold_concat, CrcWriter, CRC_INITIAL};
use crate::deflate::deflate_stored;
use crate::zlib::{zlib_stream, ZlibHeader};
use vstd::prelude::*;
use vstd::slice::slice_subrange;

verus! {

/// The type of the header chunk, `IHDR` in ASCII.
pub const IHDR_TAG: [u8; 4] = [0x49, 0x48, 0x44, 0x52];

/// The type of the image data chunk, `IDAT` in ASCII.
pub const IDAT_TAG: [u8; 4] = [0x49, 0x44, 0x41, 0x54];

/// The type of the end marker, `IEND` in ASCII.
pub const IEND_TAG: [u8; 4] = [0x49, 0x45, 0x4E, 0x44];

/// The filter type that leaves a scanline as it is.
pub const FILTER_TYPE_NONE: u8 = 0;

/// A chunk as it stands in the file: the length of the data in four bytes,
/// the type, the data, and the CRC-32 of type and data in four bytes, both
/// numbers most significant byte first.
pub open spec fn chunk_bytes(tag: Seq<u8>, data: Seq<u8>) -> Seq<u8>
    recommends
        tag.len() == 4,
        data.len() <= u32::MAX,
{
    be32(data.len() as u32) + tag + data + be32(crc32_checksum(tag + data))
}

/// Row `row` of `data` behind its filter type byte.
pub open spec fn scanline(data: Seq<u8>, stride: int, row: int) -> Seq<u8> {
    seq![FILTER_TYPE_NONE] + data.subrange(row * stride, row * stride + stride)
}

/// The first `rows` rows of `data`, top to bottom, each behind its filter
/// type byte.
pub open spec fn filter_scanlines(data: Seq<u8>, stride: int, rows: int) -> Seq<u8>
    decreases rows,
{
    if rows <= 0 {
        Seq::empty()
    } else {
        filter_scanlines(data, stride, rows - 1) + scanline(data, stride, rows - 1)
    }
}

/// Every row grows by its filter type byte.
pub proof fn lemma_filter_scanlines_len(data: Seq<u8>, stride: int, rows: int)
    requires
        0 <= stride,
        0 <= rows,
        rows * stride <= data.len(),
    ensures
        filter_scanlines(data, stride, rows).len() == rows * (stride + 1),
    decreases rows,
{
    if rows > 0 {
        lemma_row_bounds(rows - 1, rows, stride);
        assert((rows - 1) * (stride + 1) + stride + 1 == rows * (stride + 1))
            by (nonlinear_arith);
        lemma_filter_scanlines_len(data, stride, rows - 1);
    } else {
        assert(rows * (stride + 1) == 0) by (nonlinear_arith)
            requires
                rows == 0,
        ;
    }
}

/// Among the first `rows` scanlines, the one of row `row` stands where
/// `row` scanlines end: its filter type byte first, then the bytes of the
/// row.
pub proof fn lemma_scanline_at(data: Seq<u8>, stride: int, rows: int, row: int)
    requires
        0 <= stride,
        0 <= row < rows,
        rows * stride <= data.len(),
    ensures
        0 <= row * (stride + 1),
        (row + 1) * (stride + 1) <= filter_scanlines(data, stride, rows).len(),
        filter_scanlines(data, stride, rows).subrange(
            row * (stride + 1),
            (row + 1) * (stride + 1),
        ) == scanline(data, stride, row),
    decreases rows,
{
    let above = filter_scanlines(data, stride, rows - 1);
    let last = scanline(data, stride, rows - 1);
    lemma_row_bounds(rows - 1, rows, stride);
    lemma_filter_scanlines_len(data, stride, rows - 1);
    lemma_filter_scanlines_len(data, stride, rows);
    lemma_row_bounds(row, rows, stride + 1);
    assert((row + 1) * (stride + 1) == row * (stride + 1) + stride + 1) by (nonlinear_arith);
    if row == rows - 1 {
        assert((above + last).subrange(above.len() as int, (above.len() + last.len()) as int) =~= last);
    } else {
        lemma_scanline_at(data, stride, rows - 1, row);
        assert((above + last).subrange(row * (stride + 1), (row + 1) * (stride + 1))
            =~= above.subrange(row * (stride + 1), (row + 1) * (stride + 1)));
    }
}

/// Appends to `writer` the chunk of type `tag` that carries `data`. The
/// length of `data` has to fit the four bytes that a chunk has for it.
pub fn write_chunk(tag: &[u8; 4], data: &[u8], writer: &mut Vec<u8>)
    requires
        data@.len() <= u32::MAX,
    ensures
        final(writer)@ == old(writer)@ + chunk_bytes(tag@, data@),
{
    write_u32_be(writer, data.len() as u32);

    let mut writer_crc = CrcWriter::new(take_sink(writer));
    writer_crc.write(tag.as_slice());
    writer_crc.write(data);
    proof {
        lemma_crc_fold_concat(CRC_INITIAL, tag@, data@);
    }
    *writer = writer_crc.finish();
}

/// The header chunk: the size of the image and the layout of its pixels.
#[derive(Debug, Clone)]
pub struct IhdrChunk {
    /// The number of pixels in a row.
    pub width: u32,
    /// The number of rows.
    pub height: u32,
    /// The number of bits in a sample.
    pub bit_depth: u8,
    /// Which samples make up a pixel.
    pub color_type: u8,
}

impl IhdrChunk {
    /// Red, green, blue and alpha samples.
    pub const COLOR_TYPE_RGBA: u8 = 6;

    const COMPRESSION_METHOD_DEFLATE: u8 = 0;

    const FILTER_METHOD_ADAPTIVE: u8 = 0;

    const INTERLACE_METHOD_NONE: u8 = 0;

    /// The data of the chunk: width and height in four bytes each, most
    /// significant first, then bit depth, colour type, compression method,
    /// filter method and interlace method, one byte each.
    pub open spec fn data(&self) -> Seq<u8> {
        be32(self.width) + be32(self.height) + seq![
            self.bit_depth,
            self.color_type,
            0u8,
            0u8,
            0u8,
        ]
    }

    /// The chunk as it stands in the file.
    pub open spec fn bytes(&self) -> Seq<u8> {
        chunk_bytes(IHDR_TAG@, self.data())
    }

    /// Appends the chunk to `writer`.
    pub fn write_to(&self, writer: &mut Vec<u8>)
        ensures
            final(writer)@ == old(writer)@ + self.bytes(),
    {
        let width = u32_to_be_bytes(self.width);
        let height = u32_to_be_bytes(self.height);
        let data: [u8; 13] = [
            width[0],
            width[1],
            width[2],
            width[3],
            height[0],
            height[1],
            height[2],
            height[3],
            self.bit_depth,
            self.color_type,
            Self::COMPRESSION_METHOD_DEFLATE,
            Self::FILTER_METHOD_ADAPTIVE,
            Self::INTERLACE_METHOD_NONE,
        ];
        assert(data@ =~= self.data());
        write_chunk(&IHDR_TAG, data.as_slice(), writer);
    }
}

/// The end marker, which closes the file and carries no data.
#[derive(Debug, Clone)]
pub struct IendChunk;

impl IendChunk {
    /// The chunk as it stands in the file.
    pub open spec fn bytes(&self) -> Seq<u8> {
        chunk_bytes(IEND_TAG@, Seq::empty())
    }

    /// Appends the chunk to `writer`.
    pub fn write_to(&self, writer: &mut Vec<u8>)
        ensures
            final(writer)@ == old(writer)@ + self.bytes(),
    {
        let data: [u8; 0] = [];
        write_chunk(&IEND_TAG, data.as_slice(), writer);
    }
}

/// The image data chunk: the scanlines of the image in a zlib stream.
#[derive(Debug, Clone)]
pub struct IdatChunk<'a> {
    /// The number of bytes in one row of pixels.
    pub stride: usize,
    /// The number of rows.
    pub rows: usize,
    /// The rows of pixels, top to bottom, with nothing between them.
    pub data: &'a [u8],
}

impl<'a> IdatChunk<'a> {
    /// The pixel data is `rows` rows of `stride` bytes.
    pub open spec fn wf(&self) -> bool {
        self.data@.len() == self.rows * self.stride
    }

    /// The scanlines: every row behind its filter type byte.
    pub open spec fn scanlines(&self) -> Seq<u8> {
        filter_scanlines(self.data@, self.stride as int, self.rows as int)
    }

    /// The data of the chunk: the zlib stream that stores the scanlines.
    pub open spec fn chunk_data(&self) -> Seq<u8> {
        zlib_stream(self.scanlines())
    }

    /// The chunk as it stands in the file.
    pub open spec fn bytes(&self) -> Seq<u8> {
        chunk_bytes(IDAT_TAG@, self.chunk_data())
    }

    /// Appends the chunk to `writer`. The length of the data has to fit the
    /// four bytes that a chunk has for it.
    pub fn write_to(&self, writer: &mut Vec<u8>)
        requires
            self.wf(),
            self.chunk_data().len() <= u32::MAX,
        ensures
            final(writer)@ == old(writer)@ + self.bytes(),
    {
        let mut chunk_data = Vec::new();
        self.write_chunk_data_to(&mut chunk_data);
        write_chunk(&IDAT_TAG, chunk_data.as_slice(), writer);
    }

    /// Appends the data of the chunk to `writer`: the zlib header, the
    /// scanlines in stored blocks, and their Adler-32.
    pub fn write_chunk_data_to(&self, writer: &mut Vec<u8>)
        requires
            self.wf(),
        ensures
            final(writer)@ == old(writer)@ + self.chunk_data(),
    {
        ZlibHeader.write_to(writer);

        let checked = self.checked_scanlines();
        let scanlines_len = checked.len() - 4;
        assert(checked@.subrange(0, scanlines_len as int) =~= self.scanlines());

        deflate_stored(slice_subrange(checked.as_slice(), 0, scanlines_len), writer);

        writer.extend_from_slice(slice_subrange(checked.as_slice(), scanlines_len, checked.len()));
    }

    /// The scanlines with their Adler-32 behind them: every row goes behind
    /// its filter type byte through the checksum writer.
    fn checked_scanlines(&self) -> (checked: Vec<u8>)
        requires
            self.wf(),
        ensures
            checked@ == self.scanlines() + be32(adler32_checksum(self.scanlines())),
    {
        let mut filter = Adler32Writer::new(Vec::new());
        let len = self.data.len();
        let mut row: usize = 0;
        while row < self.rows
            invariant
                self.wf(),
                len == self.data@.len(),
                row <= self.rows,
                filter.wf(),
                filter.sink() == filter_scanlines(self.data@, self.stride as int, row as int),
                filter.sums() == adler_fold(adler_initial(), filter.sink()),
            decreases self.rows - row,
        {
            proof {
                lemma_row_bounds(row as int, self.rows as int, self.stride as int);
            }
            let start = row * self.stride;
            let end = start + self.stride;
            let filter_type: [u8; 1] = [FILTER_TYPE_NONE];
            let row_bytes = slice_subrange(self.data, start, end);
            let ghost above = filter.sink();
            filter.write(filter_type.as_slice());
            filter.write(row_bytes);
            proof {
                lemma_adler_fold_concat(adler_initial(), above, filter_type@);
                lemma_adler_fold_concat(adler_initial(), above + filter_type@, row_bytes@);
            }
            row += 1;
        }
        proof {
            lemma_adler_fold_is_checksum(self.scanlines());
        }
        filter.finish()
    }
}

/// Row `row` of `rows` rows of `stride` bytes lies within the rows.
proof fn lemma_row_bounds(row: int, rows: int, stride: int)
    by (nonlinear_arith)
    requires
        0 <= row < rows,
        0 <= stride,
    ensures
        0 <= row * stride,
        row * stride + stride <= rows * stride,
{
}

} // verus!
