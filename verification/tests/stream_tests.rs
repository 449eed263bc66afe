use rpeg::codec::{bytes_to_codewords, codewords_to_bytes, decode_stream};
use rpeg::compression::pack_encoded_quanta;
use rpeg::grid::Grid;
use rpeg::structures::{CodecError, EncodedQuanta};

fn block(a: u64, b: i64, c: i64, d: i64, pb_avg: u64, pr_avg: u64) -> EncodedQuanta {
    EncodedQuanta { a, b, c, d, pb_avg, pr_avg }
}

#[test]
fn codewords_to_bytes_is_big_endian() {
    let g = Grid::from_row_major(2, 1, vec![0x0102_0304u32, 0xAABB_CCDDu32]).unwrap();
    let bytes = codewords_to_bytes(&g);
    assert_eq!(bytes, vec![0x01, 0x02, 0x03, 0x04, 0xAA, 0xBB, 0xCC, 0xDD]);
}

#[test]
fn bytes_to_codewords_reassembles_big_endian() {
    let bytes = vec![0x01, 0x02, 0x03, 0x04, 0xAA, 0xBB, 0xCC, 0xDD];
    let words = bytes_to_codewords(&bytes).unwrap();
    assert_eq!(words, vec![0x0102_0304u32, 0xAABB_CCDDu32]);
}

#[test]
fn bytes_to_codewords_rejects_ragged_stream() {
    let bytes = vec![0u8; 7];
    assert_eq!(bytes_to_codewords(&bytes), Err(CodecError::ByteLengthNotAligned));
    assert!(bytes_to_codewords(&Vec::new()).is_ok());
}

#[test]
fn decode_stream_rejects_ragged_stream() {
    let bytes = vec![0u8; 7];
    assert_eq!(decode_stream(&bytes, 2, 2), Err(CodecError::ByteLengthNotAligned));
}

#[test]
fn decode_stream_rejects_wrong_codeword_count() {
    // 8 bytes are two codewords, but a 2x2 image has exactly one block.
    let bytes = vec![0u8; 8];
    assert_eq!(decode_stream(&bytes, 2, 2), Err(CodecError::CodewordCountMismatch));
    // 4 bytes are one codeword, but a 4x4 image has four blocks.
    let bytes = vec![0u8; 4];
    assert_eq!(decode_stream(&bytes, 4, 4), Err(CodecError::CodewordCountMismatch));
}

#[test]
fn decode_stream_unpacks_blocks_row_major() {
    // One codeword with a known bit pattern, then a zero word.
    let bytes = vec![0xFF, 0xBE, 0x20, 0x00, 0x00, 0x00, 0x00, 0x00];
    let g = decode_stream(&bytes, 4, 2).unwrap();
    assert_eq!(g.width, 2);
    assert_eq!(g.height, 1);
    assert_eq!(g.data[0], block(511, 15, -15, 0, 0, 0));
    assert_eq!(g.data[1], block(0, 0, 0, 0, 0, 0));
}

#[test]
fn stream_roundtrip_restores_blocks() {
    let blocks = vec![
        block(10, -3, 2, -1, 4, 5),
        block(511, 15, -16, 0, 15, 0),
        block(0, 0, 0, 0, 0, 0),
        block(77, 7, -7, 7, 1, 2),
        block(300, 5, -5, 10, 8, 1),
        block(1, 1, -1, 1, 2, 3),
    ];
    // A 6x4 image has a 3x2 block grid.
    let grid = Grid::from_row_major(3, 2, blocks.clone()).unwrap();
    let bytes = codewords_to_bytes(&pack_encoded_quanta(&grid));
    assert_eq!(bytes.len(), 24);
    let back = decode_stream(&bytes, 6, 4).unwrap();
    assert_eq!(back.width, 3);
    assert_eq!(back.height, 2);
    assert_eq!(back.data, blocks);
}

#[test]
fn decode_stream_floors_odd_dimensions() {
    // Odd declared dimensions count blocks by floor division: a 5x4 header
    // asks for a 2x2 block grid, sixteen bytes.
    let g = decode_stream(&vec![0u8; 16], 5, 4).unwrap();
    assert_eq!(g.width, 2);
    assert_eq!(g.height, 2);
    assert_eq!(decode_stream(&vec![0u8; 20], 5, 4), Err(CodecError::CodewordCountMismatch));
}

#[test]
fn all_zero_blocks_make_an_all_zero_stream() {
    // A uniform black image quantizes to all-zero coefficient fields; the
    // packed stream is then all zero bytes and decodes back to zero blocks.
    let zero = block(0, 0, 0, 0, 0, 0);
    let grid = Grid::from_row_major(2, 2, vec![zero; 4]).unwrap();
    let bytes = codewords_to_bytes(&pack_encoded_quanta(&grid));
    assert_eq!(bytes, vec![0u8; 16]);
    let back = decode_stream(&bytes, 4, 4).unwrap();
    assert!(back.data.iter().all(|e| *e == zero));
}

#[test]
fn decode_stream_accepts_empty_image() {
    let g = decode_stream(&Vec::new(), 0, 0).unwrap();
    assert_eq!(g.width, 0);
    assert_eq!(g.height, 0);
    assert_eq!(g.data.len(), 0);
}
