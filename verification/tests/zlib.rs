use nopng::zlib::{ZlibHeader, ZLIB_CINFO, ZLIB_CM, ZLIB_FCHECK, ZLIB_FDICT, ZLIB_FLEVEL};

#[test]
fn zlib_header_is_78_9c() {
    let mut out = Vec::new();
    ZlibHeader.write_to(&mut out);
    assert_eq!(out, vec![0x78, 0x9C]);
}

#[test]
fn zlib_header_appends_to_the_writer() {
    let mut out = vec![1, 2];
    ZlibHeader.write_to(&mut out);
    assert_eq!(out, vec![1, 2, 0x78, 0x9C]);
}

#[test]
fn zlib_header_is_made_of_its_fields() {
    let mut out = Vec::new();
    ZlibHeader.write_to(&mut out);
    assert_eq!(out[0], ZLIB_CINFO << 4 | ZLIB_CM);
    assert_eq!(out[1], ZLIB_FLEVEL << 6 | ZLIB_FDICT << 5 | ZLIB_FCHECK);
    assert_eq!(out[0] & 0x0F, 8);
    assert_eq!(out[0] >> 4, 7);
    assert_eq!(out[1] >> 6, 2);
    assert_eq!(out[1] >> 5 & 1, 0);
}

#[test]
fn zlib_header_is_a_multiple_of_31() {
    let mut out = Vec::new();
    ZlibHeader.write_to(&mut out);
    assert_eq!((out[0] as u32 * 256 + out[1] as u32) % 31, 0);
}
