//! Encoding of in-memory RGBA rasters as PNG byte streams.
//!
//! The encoder is a stack of small layers: checksum writers (CRC-32 and
//! Adler-32), a DEFLATE writer that emits stored blocks only, the zlib
//! header, the chunk framing and, on top, the image itself. Every layer is
//! described by a function on byte sequences, and every executable function
//! is proved to produce exactly the bytes that its description gives.

pub mod adler32;
pub mod bytes;
pub mod chunk;
pub mod crc;
pub mod crc_table;
pub mod decode;
pub mod deflate;
pub mod encoder;
pub mod png;
pub mod zlib;

pub use adler32::Adler32Writer;
pub use chunk::{IdatChunk, IendChunk, IhdrChunk};
pub use crc::CrcWriter;
pub use deflate::DeflateNoCompressionWriter;
pub use encoder::{PngChunk, PngFile, PNG_SIGNATURE};
pub use png::PngRgbaImage;
pub use zlib::ZlibHeader;
