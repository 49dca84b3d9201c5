use nopng::deflate::{deflate_stored, DeflateNoCompressionWriter, MAX_BLOCK_LEN};

struct Block {
    is_final: bool,
    len: u16,
    nlen: u16,
    payload: Vec<u8>,
}

/// Takes a stream of stored blocks apart, to its end.
fn blocks_of(stream: &[u8]) -> Vec<Block> {
    let mut blocks = Vec::new();
    let mut at = 0;
    while at < stream.len() {
        let header = stream[at];
        assert!(header <= 1, "not a stored block");
        let len = u16::from_le_bytes([stream[at + 1], stream[at + 2]]);
        let nlen = u16::from_le_bytes([stream[at + 3], stream[at + 4]]);
        let end = at + 5 + len as usize;
        blocks.push(Block { is_final: header == 1, len, nlen, payload: stream[at + 5..end].to_vec() });
        at = end;
    }
    assert_eq!(at, stream.len());
    blocks
}

fn stored(data: &[u8]) -> Vec<u8> {
    let mut out = Vec::new();
    deflate_stored(data, &mut out);
    out
}

fn sample(len: usize) -> Vec<u8> {
    (0..len).map(|i| ((i * 13 + 5) % 253) as u8).collect()
}

#[test]
fn block_limit_is_65535() {
    assert_eq!(MAX_BLOCK_LEN, 65535);
}

#[test]
fn empty_input_is_one_empty_final_block() {
    assert_eq!(stored(&[]), vec![0x01, 0x00, 0x00, 0xFF, 0xFF]);
}

#[test]
fn short_input_is_one_final_block() {
    assert_eq!(
        stored(&[0, 10, 20, 30, 255]),
        vec![0x01, 0x05, 0x00, 0xFA, 0xFF, 0, 10, 20, 30, 255]
    );
}

#[test]
fn a_full_block_is_the_only_block() {
    let data = sample(65535);
    let stream = stored(&data);
    assert_eq!(stream.len(), 65535 + 5);
    assert_eq!(&stream[..5], &[0x01, 0xFF, 0xFF, 0x00, 0x00]);
    assert_eq!(&stream[5..], &data[..]);
}

#[test]
fn one_byte_more_than_a_block_makes_two_blocks() {
    let data = sample(65536);
    let stream = stored(&data);
    assert_eq!(stream.len(), 65536 + 10);
    assert_eq!(&stream[..5], &[0x00, 0xFF, 0xFF, 0x00, 0x00]);
    assert_eq!(&stream[5..65540], &data[..65535]);
    assert_eq!(&stream[65540..65545], &[0x01, 0x01, 0x00, 0xFE, 0xFF]);
    assert_eq!(stream[65545], data[65535]);
}

#[test]
fn deflate_stored_appends_to_the_writer() {
    let mut out = vec![0x78, 0x9C];
    deflate_stored(&[7], &mut out);
    assert_eq!(out, vec![0x78, 0x9C, 0x01, 0x01, 0x00, 0xFE, 0xFF, 7]);
}

#[test]
fn blocks_of_every_length_are_well_formed() {
    for &n in &[0usize, 1, 2, 65534, 65535, 65536, 65537, 131069, 131070, 131071, 200_000] {
        let data = sample(n);
        let blocks = blocks_of(&stored(&data));
        let expected = (std::cmp::max(n, 1) + 65534) / 65535;
        assert_eq!(blocks.len(), expected, "number of blocks for {} bytes", n);
        let mut payloads = Vec::new();
        for (i, block) in blocks.iter().enumerate() {
            assert_eq!(block.nlen, !block.len);
            assert_eq!(block.payload.len(), block.len as usize);
            assert_eq!(block.is_final, i == blocks.len() - 1);
            if i < blocks.len() - 1 {
                assert_eq!(block.len, 0xFFFF);
            }
            payloads.extend_from_slice(&block.payload);
        }
        assert_eq!(payloads, data);
    }
}

#[test]
fn writer_leaves_the_stream_open_by_default() {
    let mut writer = DeflateNoCompressionWriter::new(Vec::new());
    assert_eq!(writer.write(&[1, 2, 3]), 3);
    assert_eq!(writer.finish(), vec![0x00, 0x03, 0x00, 0xFC, 0xFF, 1, 2, 3]);
}

#[test]
fn writer_with_nothing_to_say_writes_nothing() {
    let writer = DeflateNoCompressionWriter::new(vec![0xAB]);
    assert_eq!(writer.finish(), vec![0xAB]);
}

#[test]
fn writer_ends_the_stream_when_told() {
    let mut writer = DeflateNoCompressionWriter::new(Vec::new());
    writer.set_final_block(true);
    writer.write(&[1, 2, 3]);
    assert_eq!(writer.finish(), vec![0x01, 0x03, 0x00, 0xFC, 0xFF, 1, 2, 3]);
}

#[test]
fn writer_ends_an_empty_stream_with_an_empty_block() {
    let mut writer = DeflateNoCompressionWriter::new(vec![0x78, 0x9C]);
    writer.set_final_block(true);
    assert_eq!(writer.finish(), vec![0x78, 0x9C, 0x01, 0x00, 0x00, 0xFF, 0xFF]);
}

#[test]
fn writer_can_be_told_otherwise_again() {
    let mut writer = DeflateNoCompressionWriter::new(Vec::new());
    writer.set_final_block(true);
    writer.set_final_block(false);
    writer.write(&[9]);
    assert_eq!(writer.finish(), vec![0x00, 0x01, 0x00, 0xFE, 0xFF, 9]);
}

#[test]
fn writer_holds_back_up_to_one_block() {
    let data = sample(65535);
    let mut writer = DeflateNoCompressionWriter::new(Vec::new());
    writer.set_final_block(true);
    writer.write(&data);
    // A full block may still be the last one, so it waits for `finish`.
    writer.write(&[]);
    let stream = writer.finish();
    assert_eq!(stream, stored(&data));
    assert_eq!(blocks_of(&stream).len(), 1);
}

#[test]
fn flush_of_nothing_ends_the_stream_with_an_empty_block() {
    let mut writer = DeflateNoCompressionWriter::new(Vec::new());
    writer.set_final_block(true);
    writer.flush();
    assert_eq!(writer.finish(), vec![0x01, 0x00, 0x00, 0xFF, 0xFF]);
}

#[test]
fn flush_ends_the_stream_when_told() {
    let mut writer = DeflateNoCompressionWriter::new(Vec::new());
    writer.set_final_block(true);
    writer.write(&[0, 10, 20, 30, 255]);
    writer.flush();
    assert_eq!(
        writer.finish(),
        vec![0x01, 0x05, 0x00, 0xFA, 0xFF, 0x00, 0x0A, 0x14, 0x1E, 0xFF]
    );
}

#[test]
fn flush_of_a_full_block_ends_the_stream_with_it() {
    let mut writer = DeflateNoCompressionWriter::new(Vec::new());
    writer.set_final_block(true);
    writer.write(&[0xAB; 65535]);
    writer.flush();
    let stream = writer.finish();
    assert_eq!(stream.len(), 65540);
    assert_eq!(&stream[..5], &[0x01, 0xFF, 0xFF, 0x00, 0x00]);
    assert!(stream[5..].iter().all(|&byte| byte == 0xAB));
}

#[test]
fn flush_ends_the_stream_behind_a_full_block() {
    let mut writer = DeflateNoCompressionWriter::new(Vec::new());
    writer.set_final_block(true);
    writer.write(&[0u8; 65535]);
    writer.write(&[7]);
    writer.flush();
    let stream = writer.finish();
    assert_eq!(stream.len(), 65546);
    assert_eq!(&stream[..5], &[0x00, 0xFF, 0xFF, 0x00, 0x00]);
    assert!(stream[5..65540].iter().all(|&byte| byte == 0));
    assert_eq!(&stream[65540..], &[0x01, 0x01, 0x00, 0xFE, 0xFF, 0x07]);
}

#[test]
fn flush_goes_by_what_set_final_block_said_last() {
    let mut open = DeflateNoCompressionWriter::new(Vec::new());
    open.write(&[9]);
    open.set_final_block(false);
    open.flush();
    assert_eq!(open.finish(), vec![0x00, 0x01, 0x00, 0xFE, 0xFF, 0x09]);

    let mut ended = DeflateNoCompressionWriter::new(Vec::new());
    ended.write(&[9]);
    ended.set_final_block(true);
    ended.flush();
    assert_eq!(ended.finish(), vec![0x01, 0x01, 0x00, 0xFE, 0xFF, 0x09]);
}

#[test]
fn flush_ends_the_stream_however_the_input_was_cut() {
    for &n in &[0usize, 1, 65534, 65535, 65536, 131070, 131071, 200_000] {
        let data = sample(n);
        for &size in &[977usize, 65535, 65536, 200_000] {
            let mut writer = DeflateNoCompressionWriter::new(Vec::new());
            writer.set_final_block(true);
            for chunk in data.chunks(size) {
                assert_eq!(writer.write(chunk), chunk.len());
            }
            writer.flush();
            let stream = writer.finish();
            let count = (std::cmp::max(n, 1) + 65534) / 65535;
            assert_eq!(stream.len(), n + 5 * count);
            assert_eq!(stream, stored(&data));
            let blocks = blocks_of(&stream);
            assert_eq!(blocks.len(), count);
            for (i, block) in blocks.iter().enumerate() {
                assert_eq!(block.is_final, i == count - 1);
                assert_eq!(block.nlen, !block.len);
            }
        }
    }
}

#[test]
fn flush_leaves_the_stream_open_when_not_told() {
    let mut writer = DeflateNoCompressionWriter::new(Vec::new());
    writer.write(&[1, 2]);
    writer.flush();
    writer.write(&[3]);
    writer.set_final_block(true);
    let stream = writer.finish();
    assert_eq!(
        stream,
        vec![0x00, 0x02, 0x00, 0xFD, 0xFF, 1, 2, 0x01, 0x01, 0x00, 0xFE, 0xFF, 3]
    );
}

#[test]
fn flush_with_nothing_held_back_writes_nothing_when_not_told() {
    let mut writer = DeflateNoCompressionWriter::new(vec![5]);
    writer.flush();
    writer.write(&[1]);
    writer.flush();
    writer.flush();
    assert_eq!(writer.finish(), vec![5, 0x00, 0x01, 0x00, 0xFE, 0xFF, 1]);
}

#[test]
fn the_stream_is_ended_once() {
    let mut writer = DeflateNoCompressionWriter::new(Vec::new());
    writer.set_final_block(true);
    writer.write(&[4, 5]);
    writer.flush();
    // The stream has its last block: neither a second flush nor finish adds one.
    writer.flush();
    assert_eq!(writer.finish(), vec![0x01, 0x02, 0x00, 0xFD, 0xFF, 4, 5]);
}

#[test]
fn streaming_equals_batch_however_the_input_is_cut() {
    let data = sample(150_000);
    let whole = stored(&data);
    for &size in &[1000usize, 4096, 65534, 65535, 65536, 65537, 100_000, 150_000] {
        let mut writer = DeflateNoCompressionWriter::new(Vec::new());
        writer.set_final_block(true);
        for chunk in data.chunks(size) {
            assert_eq!(writer.write(chunk), chunk.len());
        }
        assert_eq!(writer.finish(), whole, "writes of {} bytes", size);
    }
}

#[test]
fn streaming_in_small_writes_equals_batch() {
    let data = sample(70_000);
    let mut writer = DeflateNoCompressionWriter::new(Vec::new());
    writer.set_final_block(true);
    for chunk in data.chunks(7) {
        writer.write(chunk);
    }
    assert_eq!(writer.finish(), stored(&data));
}

#[test]
fn final_flag_may_be_set_after_the_writes() {
    let data = sample(131_070);
    let mut writer = DeflateNoCompressionWriter::new(Vec::new());
    writer.write(&data);
    writer.set_final_block(true);
    let stream = writer.finish();
    assert_eq!(stream, stored(&data));
    let blocks = blocks_of(&stream);
    assert_eq!(blocks.len(), 2);
    assert!(!blocks[0].is_final);
    assert!(blocks[1].is_final);
}

#[test]
fn a_long_input_goes_out_block_by_block() {
    let data = sample(5_000_000);
    let stream = stored(&data);
    let count = (data.len() + 65534) / 65535;
    assert_eq!(count, 77);
    assert_eq!(stream.len(), data.len() + 5 * count);
    let blocks = blocks_of(&stream);
    assert_eq!(blocks.len(), count);
    assert!(blocks[..count - 1].iter().all(|block| !block.is_final && block.len == 0xFFFF));
    assert!(blocks[count - 1].is_final);
    assert_eq!(blocks[count - 1].len as usize, data.len() - 76 * 65535);
}

#[test]
fn write_tops_up_what_is_held_back() {
    let data = sample(200_000);
    let mut writer = DeflateNoCompressionWriter::new(Vec::new());
    writer.set_final_block(true);
    // 65000 bytes are held back; the next write fills the block and goes on.
    writer.write(&data[..65_000]);
    writer.write(&data[65_000..140_000]);
    // 8930 bytes are held back now, and a full block fits in twice more.
    writer.write(&data[140_000..]);
    assert_eq!(writer.finish(), stored(&data));
}
