//! The image and its encoding as a PNG file.

use crate::chunk::{
    chunk_bytes, filter_scanlines, lemma_filter_scanlines_len, IdatChunk, IendChunk, IhdrChunk,
    IDAT_TAG,
};
use crate::encoder::PNG_SIGNATURE;
use crate::zlib::{lemma_zlib_stream_len, zlib_stream, zlib_stream_len};
use vstd::prelude::*;

verus! {

/// The scanlines of an image of `width` by `height` pixels of four bytes.
pub open spec fn image_scanlines(width: u32, height: u32, pixels: Seq<u8>) -> Seq<u8> {
    filter_scanlines(pixels, 4 * width, height as int)
}

/// The header chunk of an image of `width` by `height` pixels: eight bits
/// to a sample, and red, green, blue and alpha samples to a pixel.
pub open spec fn image_header(width: u32, height: u32) -> IhdrChunk {
    IhdrChunk { width, height, bit_depth: 8, color_type: 6 }
}

/// The PNG file of an image of `width` by `height` pixels: the signature,
/// then the header chunk, the image data chunk and the end marker.
pub open spec fn png_bytes(width: u32, height: u32, pixels: Seq<u8>) -> Seq<u8> {
    PNG_SIGNATURE@ + image_header(width, height).bytes() + chunk_bytes(
        IDAT_TAG@,
        zlib_stream(image_scanlines(width, height, pixels)),
    ) + IendChunk.bytes()
}

/// The length of the data of the image data chunk, for an image of `width`
/// by `height` pixels.
pub open spec fn image_data_len(width: u32, height: u32) -> nat {
    zlib_stream_len((height * (4 * width + 1)) as nat)
}

/// An image of eight-bit red, green, blue and alpha samples.
#[derive(Debug)]
pub struct PngRgbaImage {
    width: u32,
    height: u32,
    data: Vec<u8>,
}

impl PngRgbaImage {
    /// Every pixel has its four bytes.
    #[verifier::type_invariant]
    spec fn well_sized(self) -> bool {
        self.data@.len() == self.width * self.height * 4
    }

    /// The number of pixels in a row.
    pub closed spec fn width(&self) -> u32 {
        self.width
    }

    /// The number of rows.
    pub closed spec fn height(&self) -> u32 {
        self.height
    }

    /// The pixels, row by row from the top, four bytes each.
    pub closed spec fn pixels(&self) -> Seq<u8> {
        self.data@
    }

    /// The image as a PNG file.
    pub open spec fn encoded(&self) -> Seq<u8> {
        png_bytes(self.width(), self.height(), self.pixels())
    }

    /// The data of the image data chunk is short enough for the four bytes
    /// that a chunk has for its length.
    pub open spec fn encodable(&self) -> bool {
        image_data_len(self.width(), self.height()) <= u32::MAX
    }

    /// The image of `width` by `height` pixels that `data` holds, if `data`
    /// has four bytes for each pixel, and nothing otherwise.
    pub fn new(width: u32, height: u32, data: Vec<u8>) -> (image: Option<Self>)
        ensures
            image is Some <==> data@.len() == width * height * 4,
            image matches Some(image) ==> {
                &&& image.width() == width
                &&& image.height() == height
                &&& image.pixels() == data@
            },
    {
        assert(width * height <= 0xFFFF_FFFF * 0xFFFF_FFFF) by (nonlinear_arith)
            requires
                width <= 0xFFFF_FFFF,
                height <= 0xFFFF_FFFF,
        ;
        let pixels: u64 = width as u64 * height as u64;
        let len: u64 = data.len() as u64;
        if len % 4 != 0 || len / 4 != pixels {
            None
        } else {
            Some(Self { width, height, data })
        }
    }

    /// Whether `write_to` can write the image.
    pub fn is_encodable(&self) -> (encodable: bool)
        ensures
            encodable == self.encodable(),
    {
        proof {
            use_type_invariant(self);
            assert(self.height * (4 * self.width + 1) == self.width * self.height * 4
                + self.height) by (nonlinear_arith);
        }
        if self.data.len() > 0xFFFF_FFFF {
            return false;
        }
        let scanlines: u64 = self.data.len() as u64 + self.height as u64;
        let blocks: u64 = if scanlines == 0 {
            1
        } else {
            (scanlines + 0xFFFF - 1) / 0xFFFF
        };
        2 + 5 * blocks + scanlines + 4 <= 0xFFFF_FFFF
    }

    /// Appends the image to `writer` as a PNG file.
    pub fn write_to(&self, writer: &mut Vec<u8>)
        requires
            self.encodable(),
        ensures
            final(writer)@ == old(writer)@ + self.encoded(),
    {
        proof {
            use_type_invariant(self);
        }
        writer.extend_from_slice(PNG_SIGNATURE.as_slice());

        IhdrChunk {
            width: self.width,
            height: self.height,
            bit_depth: 8,
            color_type: IhdrChunk::COLOR_TYPE_RGBA,
        }.write_to(writer);

        proof {
            lemma_image_rows(self.width, self.height, self.data@.len());
        }
        let stride: usize = if self.height == 0 {
            0
        } else {
            self.width as usize * 4
        };
        let idat = IdatChunk { stride, rows: self.height as usize, data: self.data.as_slice() };
        proof {
            lemma_image_data(self.width, self.height, self.data@, stride as int);
        }
        idat.write_to(writer);

        IendChunk.write_to(writer);
        assert(writer@ =~= old(writer)@ + self.encoded());
    }
}

impl Clone for PngRgbaImage {
    /// A second image of the same size with the same pixels.
    fn clone(&self) -> (copy: Self)
        ensures
            copy.width() == self.width(),
            copy.height() == self.height(),
            copy.pixels() == self.pixels(),
    {
        proof {
            use_type_invariant(self);
        }
        let data = self.data.clone();
        Self { width: self.width, height: self.height, data }
    }
}

/// The rows of an image, taken with no stride where there is no row, are
/// its scanlines, and the zlib stream of the scanlines has the length that
/// `image_data_len` gives.
proof fn lemma_image_data(width: u32, height: u32, pixels: Seq<u8>, stride: int)
    requires
        pixels.len() == width * height * 4,
        stride == if height == 0 {
            0
        } else {
            4 * width
        },
    ensures
        pixels.len() == height * stride,
        filter_scanlines(pixels, stride, height as int) == image_scanlines(width, height, pixels),
        zlib_stream(image_scanlines(width, height, pixels)).len() == image_data_len(
            width,
            height,
        ),
{
    lemma_image_rows(width, height, pixels.len());
    lemma_filter_scanlines_len(pixels, 4 * width, height as int);
    lemma_zlib_stream_len(image_scanlines(width, height, pixels));
    if height == 0 {
        assert(height * stride == 0) by (nonlinear_arith)
            requires
                height == 0,
        ;
    }
}

/// The rows of an image that has four bytes for each pixel.
proof fn lemma_image_rows(width: u32, height: u32, len: nat)
    by (nonlinear_arith)
    requires
        len == width * height * 4,
    ensures
        height * (4 * width) == len,
        height * (4 * width + 1) == len + height,
        height > 0 ==> 4 * width <= len,
{
}

} // verus!
