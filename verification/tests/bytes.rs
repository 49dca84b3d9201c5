use nopng::bytes::{u16_to_le_bytes, u32_to_be_bytes, write_u32_be};

#[test]
fn u32_goes_most_significant_byte_first() {
    assert_eq!(u32_to_be_bytes(0x1234_5678), [0x12, 0x34, 0x56, 0x78]);
    assert_eq!(u32_to_be_bytes(0), [0, 0, 0, 0]);
    assert_eq!(u32_to_be_bytes(13), [0, 0, 0, 13]);
    assert_eq!(u32_to_be_bytes(0xFFFF_FFFF), [0xFF, 0xFF, 0xFF, 0xFF]);
}

#[test]
fn u32_bytes_agree_with_std() {
    for x in [1u32, 0x100, 0x1_0000, 0x100_0000, 0xAE42_6082, 0x8000_0001] {
        assert_eq!(u32_to_be_bytes(x), x.to_be_bytes());
    }
}

#[test]
fn u16_goes_least_significant_byte_first() {
    assert_eq!(u16_to_le_bytes(0xABCD), [0xCD, 0xAB]);
    assert_eq!(u16_to_le_bytes(0), [0, 0]);
    assert_eq!(u16_to_le_bytes(5), [5, 0]);
    assert_eq!(u16_to_le_bytes(0xFFFA), [0xFA, 0xFF]);
    assert_eq!(u16_to_le_bytes(0xFFFF), [0xFF, 0xFF]);
}

#[test]
fn u16_bytes_agree_with_std() {
    for x in [1u16, 0x80, 0x100, 0x7FFF, 0x8000, 0xFF00] {
        assert_eq!(u16_to_le_bytes(x), x.to_le_bytes());
    }
}

#[test]
fn write_u32_be_appends_four_bytes() {
    let mut out = vec![1, 2, 3];
    write_u32_be(&mut out, 0x0A0B_0C0D);
    assert_eq!(out, vec![1, 2, 3, 0x0A, 0x0B, 0x0C, 0x0D]);
}
