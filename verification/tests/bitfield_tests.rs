use rpeg::bitfield::{get_signed, get_unsigned, pack_signed, pack_unsigned};

// The (width, lsb) pairs of the codeword layout: 9-bit a, 5-bit b/c/d,
// 4-bit pb/pr indices.
const UNSIGNED_FIELDS: [(u32, u32); 3] = [(9, 23), (4, 4), (4, 0)];
const SIGNED_FIELDS: [(u32, u32); 3] = [(5, 18), (5, 13), (5, 8)];

#[test]
fn unsigned_roundtrip_across_layout() {
    for &(width, lsb) in UNSIGNED_FIELDS.iter() {
        let max = (1u32 << width) - 1;
        for value in [0u32, 1, max / 2, max] {
            for word in [0u32, 0xFFFF_FFFF, 0x1234_5678] {
                let packed = pack_unsigned(word, width, lsb, value).unwrap();
                assert_eq!(get_unsigned(packed, width, lsb).unwrap(), value);
            }
        }
    }
}

#[test]
fn signed_roundtrip_across_layout() {
    for &(width, lsb) in SIGNED_FIELDS.iter() {
        for value in [-16i32, -15, -1, 0, 1, 14, 15] {
            for word in [0u32, 0xFFFF_FFFF, 0x1234_5678] {
                let packed = pack_signed(word, width, lsb, value).unwrap();
                assert_eq!(get_signed(packed, width, lsb).unwrap(), value);
            }
        }
    }
}

#[test]
fn unsigned_value_too_wide_is_refused() {
    assert_eq!(pack_unsigned(0, 4, 0, 16), None);
    assert_eq!(pack_unsigned(0, 9, 23, 512), None);
    assert_eq!(pack_unsigned(0, 4, 0, 15), Some(15));
}

#[test]
fn signed_value_out_of_range_is_refused() {
    assert_eq!(pack_signed(0, 5, 0, 16), None);
    assert_eq!(pack_signed(0, 5, 0, -17), None);
    assert!(pack_signed(0, 5, 0, 15).is_some());
    assert!(pack_signed(0, 5, 0, -16).is_some());
}

#[test]
fn field_outside_word_is_refused() {
    assert_eq!(get_unsigned(0, 9, 24), None);
    assert_eq!(get_signed(0, 5, 28), None);
    assert_eq!(pack_unsigned(0, 9, 24, 0), None);
    assert_eq!(pack_signed(0, 5, 28, 0), None);
    assert!(get_unsigned(0, 9, 23).is_some());
    assert!(get_signed(0, 5, 27).is_some());
}

#[test]
fn unsigned_extraction_exact() {
    assert_eq!(get_unsigned(0xFF00_0000, 8, 24), Some(0xFF));
    assert_eq!(get_unsigned(0x1234_5678, 16, 8), Some(0x3456));
    assert_eq!(get_unsigned(0xFFFF_FFFF, 0, 10), Some(0));
}

#[test]
fn signed_extraction_sign_extends() {
    // The 5-bit field 0b10001 is the two's-complement encoding of -15.
    assert_eq!(get_signed(0b10001, 5, 0), Some(-15));
    assert_eq!(get_signed(0b11111, 5, 0), Some(-1));
    assert_eq!(get_signed(0b10000, 5, 0), Some(-16));
    assert_eq!(get_signed(0b01111, 5, 0), Some(15));
    assert_eq!(pack_signed(0, 5, 0, -1), Some(0b11111));
}

#[test]
fn packing_leaves_disjoint_fields_alone() {
    let word = pack_unsigned(0, 9, 23, 0x155).unwrap();
    let word = pack_signed(word, 5, 18, -7).unwrap();
    assert_eq!(get_unsigned(word, 9, 23), Some(0x155));
    assert_eq!(get_signed(word, 5, 18), Some(-7));
    assert_eq!(get_unsigned(word, 4, 0), Some(0));
}

#[test]
fn packing_overwrites_only_its_field() {
    let word = pack_unsigned(0xFFFF_FFFF, 4, 4, 0).unwrap();
    assert_eq!(word, 0xFFFF_FF0F);
    assert_eq!(get_unsigned(word, 4, 4), Some(0));
    assert_eq!(get_unsigned(word, 4, 0), Some(0xF));
}
