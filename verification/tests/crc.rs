use nopng::crc::{make_crc_table, update_crc, CrcWriter, CRC_INITIAL, CRC_POLYNOMIAL};
use nopng::crc_table::CRC_TABLE;
use nopng::encoder::PngChunk;

/// CRC-32 one bit at a time, with no table.
fn bitwise_crc32(bytes: &[u8]) -> u32 {
    let mut crc: u32 = 0xFFFF_FFFF;
    for &byte in bytes {
        crc ^= byte as u32;
        for _ in 0..8 {
            crc = if crc & 1 != 0 { 0xEDB8_8320 ^ (crc >> 1) } else { crc >> 1 };
        }
    }
    crc ^ 0xFFFF_FFFF
}

/// The checksum that a writer appends after the given writes.
fn streamed_crc32(chunks: &[&[u8]]) -> u32 {
    let mut writer = CrcWriter::new(Vec::new());
    let mut total = 0;
    for chunk in chunks {
        assert_eq!(writer.write(chunk), chunk.len());
        total += chunk.len();
    }
    let sink = writer.finish();
    assert_eq!(sink.len(), total + 4);
    u32::from_be_bytes([sink[total], sink[total + 1], sink[total + 2], sink[total + 3]])
}

fn sample(len: usize) -> Vec<u8> {
    (0..len).map(|i| ((i * 7 + 3) % 251) as u8).collect()
}

#[test]
fn crc_constants_are_the_standard_ones() {
    assert_eq!(CRC_INITIAL, 0xFFFF_FFFF);
    assert_eq!(CRC_POLYNOMIAL, 0xEDB8_8320);
}

#[test]
fn crc_table_has_the_known_entries() {
    assert_eq!(CRC_TABLE[0], 0x0000_0000);
    assert_eq!(CRC_TABLE[1], 0x7707_3096);
    assert_eq!(CRC_TABLE[2], 0xEE0E_612C);
    assert_eq!(CRC_TABLE[128], 0xEDB8_8320);
    assert_eq!(CRC_TABLE[255], 0x2D02_EF8D);
}

#[test]
fn crc_table_entries_are_eight_steps_from_their_index() {
    for n in 0..256u32 {
        let mut c = n;
        for _ in 0..8 {
            c = if c & 1 != 0 { 0xEDB8_8320 ^ (c >> 1) } else { c >> 1 };
        }
        assert_eq!(CRC_TABLE[n as usize], c, "entry {}", n);
    }
}

#[test]
fn make_crc_table_builds_the_constant_table() {
    let table = make_crc_table();
    assert_eq!(table.len(), 256);
    assert_eq!(table, CRC_TABLE);
}

#[test]
fn update_crc_takes_one_byte() {
    // The register after the single byte 'a', complemented, is the CRC-32 of "a".
    assert_eq!(update_crc(0xFFFF_FFFF, 0x61) ^ 0xFFFF_FFFF, 0xE8B7_BE43);
    assert_eq!(update_crc(0, 0), 0);
    assert_eq!(update_crc(0, 1), 0x7707_3096);
    assert_eq!(update_crc(0x0000_0100, 0), 0x0000_0001);
}

#[test]
fn update_crc_agrees_with_eight_single_steps() {
    for &crc in &[0u32, 1, 0xFFFF_FFFF, 0x1234_5678, 0xDEAD_BEEF, 0x8000_0000] {
        for byte in 0..=255u8 {
            let mut c = crc ^ byte as u32;
            for _ in 0..8 {
                c = if c & 1 != 0 { 0xEDB8_8320 ^ (c >> 1) } else { c >> 1 };
            }
            assert_eq!(update_crc(crc, byte), c);
        }
    }
}

#[test]
fn crc_writer_gives_the_check_value() {
    assert_eq!(streamed_crc32(&[b"123456789"]), 0xCBF4_3926);
}

#[test]
fn crc_writer_of_nothing_appends_zero() {
    let sink = CrcWriter::new(Vec::new()).finish();
    assert_eq!(sink, vec![0, 0, 0, 0]);
}

#[test]
fn crc_writer_forwards_bytes_unchanged() {
    let mut writer = CrcWriter::new(Vec::new());
    writer.write(b"IEND");
    let sink = writer.finish();
    assert_eq!(sink, vec![0x49, 0x45, 0x4E, 0x44, 0xAE, 0x42, 0x60, 0x82]);
}

#[test]
fn crc_writer_leaves_out_what_the_sink_held() {
    let mut writer = CrcWriter::new(vec![0xAA, 0xBB]);
    writer.write(b"IEND");
    let sink = writer.finish();
    assert_eq!(sink, vec![0xAA, 0xBB, 0x49, 0x45, 0x4E, 0x44, 0xAE, 0x42, 0x60, 0x82]);
}

#[test]
fn crc_writer_accepts_an_empty_write() {
    let mut writer = CrcWriter::new(Vec::new());
    assert_eq!(writer.write(&[]), 0);
    writer.write(b"IE");
    assert_eq!(writer.write(&[]), 0);
    writer.write(b"ND");
    assert_eq!(writer.finish(), vec![0x49, 0x45, 0x4E, 0x44, 0xAE, 0x42, 0x60, 0x82]);
}

#[test]
fn crc_streaming_equals_batch_for_every_split_in_two() {
    let data = sample(300);
    let whole = streamed_crc32(&[&data]);
    assert_eq!(whole, bitwise_crc32(&data));
    for cut in 0..=data.len() {
        assert_eq!(streamed_crc32(&[&data[..cut], &data[cut..]]), whole, "cut at {}", cut);
    }
}

#[test]
fn crc_streaming_equals_batch_for_splits_in_three() {
    let data = sample(40);
    let whole = bitwise_crc32(&data);
    for first in 0..=data.len() {
        for second in first..=data.len() {
            let chunks: [&[u8]; 3] = [&data[..first], &data[first..second], &data[second..]];
            assert_eq!(streamed_crc32(&chunks), whole);
        }
    }
}

#[test]
fn crc_streaming_byte_by_byte_equals_batch() {
    let data = sample(1000);
    let chunks: Vec<&[u8]> = data.chunks(1).collect();
    assert_eq!(streamed_crc32(&chunks), bitwise_crc32(&data));
}

#[test]
fn crc_streaming_equals_the_chunk_checksum() {
    let data = sample(70_000);
    let chunk = PngChunk {
        size: (data.len() - 4) as u32,
        ty: [data[0], data[1], data[2], data[3]],
        data: data[4..].to_vec(),
        crc: 0,
    };
    assert_eq!(chunk.calculate_crc(), 0xBF92_7B1A);
    assert_eq!(streamed_crc32(&[&data[..1], &data[1..65_000], &data[65_000..]]), 0xBF92_7B1A);
}
