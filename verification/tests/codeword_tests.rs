use rpeg::compression::{new_encoded_quanta_array, pack_block, pack_encoded_quanta};
use rpeg::decompression::{extract_encoded_data, unpack_block};
use rpeg::grid::Grid;
use rpeg::structures::EncodedQuanta;

fn block(a: u64, b: i64, c: i64, d: i64, pb_avg: u64, pr_avg: u64) -> EncodedQuanta {
    EncodedQuanta { a, b, c, d, pb_avg, pr_avg }
}

#[test]
fn codeword_layout_exact() {
    // A literal bit-pattern check of the fixed layout: bits 31..=23 hold the
    // unsigned a, bits 22..=18 the two's-complement b, and so on down to pr.
    let w = pack_block(&block(511, 15, -15, 0, 0, 0));
    assert_eq!(w >> 23, 511);
    assert_eq!((w >> 18) & 0x1F, 15);
    assert_eq!((w >> 13) & 0x1F, 0b10001); // two's-complement encoding of -15
    assert_eq!((w >> 8) & 0x1F, 0);
    assert_eq!((w >> 4) & 0xF, 0);
    assert_eq!(w & 0xF, 0);
    assert_eq!(w, 0xFFBE_2000);
}

#[test]
fn pack_block_all_fields_placed() {
    let w = pack_block(&block(0x12A, 3, -1, -16, 9, 6));
    assert_eq!(w >> 23, 0x12A);
    assert_eq!((w >> 18) & 0x1F, 3);
    assert_eq!((w >> 13) & 0x1F, 0x1F); // -1 in 5 bits
    assert_eq!((w >> 8) & 0x1F, 0x10); // -16 in 5 bits
    assert_eq!((w >> 4) & 0xF, 9);
    assert_eq!(w & 0xF, 6);
}

#[test]
fn block_roundtrip_through_codeword() {
    let samples = [
        block(0, 0, 0, 0, 0, 0),
        block(511, 15, 15, 15, 15, 15),
        block(0, -16, -16, -16, 0, 0),
        block(255, -1, 7, -8, 3, 12),
        block(300, 5, -5, 10, 8, 1),
    ];
    for e in samples.iter() {
        let unpacked = unpack_block(pack_block(e));
        assert_eq!(unpacked, *e);
    }
}

#[test]
fn codeword_roundtrip_through_block() {
    // The six fields cover all 32 bits, so unpack followed by pack is the
    // identity on every codeword.
    for w in [0u32, 0xFFFF_FFFF, 0xDEAD_BEEF, 0x0000_0001, 0x8000_0000, 0xFFBE_2000] {
        assert_eq!(pack_block(&unpack_block(w)), w);
    }
}

#[test]
fn new_encoded_quanta_array_is_zeroed() {
    let g = new_encoded_quanta_array(3, 2);
    assert_eq!(g.width, 3);
    assert_eq!(g.height, 2);
    assert_eq!(g.data.len(), 6);
    for e in g.data.iter() {
        assert_eq!(*e, block(0, 0, 0, 0, 0, 0));
    }
}

#[test]
fn grid_pack_then_extract_restores_blocks() {
    let blocks = vec![
        block(10, -3, 2, -1, 4, 5),
        block(511, 15, -16, 0, 15, 0),
        block(0, 0, 0, 0, 0, 0),
        block(77, 7, -7, 7, 1, 2),
    ];
    let grid = Grid::from_row_major(2, 2, blocks.clone()).unwrap();
    let words = pack_encoded_quanta(&grid);
    assert_eq!(words.width, 2);
    assert_eq!(words.height, 2);
    let back = extract_encoded_data(&words);
    assert_eq!(back.data, blocks);
}
