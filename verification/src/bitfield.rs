//! Overflow-checked packing and extraction of unsigned and signed integers
//! into bit ranges of a single 32-bit word.
//!
//! A field is named by its `width` in bits and the position `lsb` of its
//! least significant bit. Packing writes a value into such a field and leaves
//! every other bit of the word alone; extraction reads it back, sign-extending
//! for the signed variant. A value that does not fit its declared width is
//! refused with `None` rather than silently truncated, since truncation would
//! corrupt the bitstream undetectably.

use vstd::prelude::*;

verus! {

/// The mask with the low `width` bits of a word set.
pub open spec fn low_mask(width: u32) -> u32 {
    if width >= 32 {
        0xffff_ffffu32
    } else {
        ((1u32 << width) - 1) as u32
    }
}

/// An unsigned value fits a field exactly when it needs no more than `width`
/// bits.
pub open spec fn fits_unsigned(value: u32, width: u32) -> bool {
    value <= low_mask(width)
}

/// A signed value fits a field of `width` bits exactly when it lies in the
/// two's-complement range of that width: all bits above the sign bit agree
/// with it.
pub open spec fn fits_signed(value: i32, width: u32) -> bool {
    if width == 0 {
        false
    } else if width >= 32 {
        true
    } else {
        value >> ((width - 1) as u32) == 0 || value >> ((width - 1) as u32) == -1
    }
}

/// The unsigned field of `width` bits at `lsb` in `word`.
pub open spec fn get_unsigned_spec(word: u32, width: u32, lsb: u32) -> u32 {
    (word >> lsb) & low_mask(width)
}

/// `word` with the field of `width` bits at `lsb` replaced by `value`.
pub open spec fn pack_unsigned_spec(word: u32, width: u32, lsb: u32, value: u32) -> u32 {
    (word & !(low_mask(width) << lsb)) | (value << lsb)
}

/// A `width`-bit field reinterpreted as a two's-complement value of the full
/// word width.
pub open spec fn sign_extend(field: u32, width: u32) -> i32 {
    if width == 0 {
        0
    } else if width >= 32 {
        field as i32
    } else if (field >> ((width - 1) as u32)) & 1 == 1 {
        (field | !low_mask(width)) as i32
    } else {
        field as i32
    }
}

/// The signed field of `width` bits at `lsb` in `word`.
pub open spec fn get_signed_spec(word: u32, width: u32, lsb: u32) -> i32 {
    sign_extend(get_unsigned_spec(word, width, lsb), width)
}

/// The low `width` bits of a signed value: its image inside a field.
pub open spec fn to_field(value: i32, width: u32) -> u32 {
    (value as u32) & low_mask(width)
}

/// `word` with the field of `width` bits at `lsb` replaced by the
/// two's-complement image of `value`.
pub open spec fn pack_signed_spec(word: u32, width: u32, lsb: u32, value: i32) -> u32 {
    pack_unsigned_spec(word, width, lsb, to_field(value, width))
}

/// The mask with the low `width` bits set, as a run-time value.
fn mask_of(width: u32) -> (m: u32)
    requires
        width <= 32,
    ensures
        m == low_mask(width),
{
    if width == 32 {
        u32::MAX
    } else {
        proof {
            assert(1u32 << width >= 1) by (bit_vector)
                requires
                    width < 32,
            ;
        }
        (1u32 << width) - 1
    }
}

/// Extracts the unsigned field of `width` bits at `lsb` from `word`.
/// `None` exactly when the field does not lie within the 32-bit word.
pub fn get_unsigned(word: u32, width: u32, lsb: u32) -> (r: Option<u32>)
    ensures
        r is Some <==> width + lsb <= 32,
        r is Some ==> r == Some(get_unsigned_spec(word, width, lsb)),
{
    if width > 32 || lsb > 32 - width {
        return None;
    }
    if width == 0 {
        proof {
            assert((word >> lsb) & low_mask(0) == 0) by (bit_vector);
        }
        return Some(0);
    }
    let m = mask_of(width);
    Some((word >> lsb) & m)
}

/// Extracts and sign-extends the signed field of `width` bits at `lsb` from
/// `word`. `None` exactly when the field does not lie within the 32-bit word.
pub fn get_signed(word: u32, width: u32, lsb: u32) -> (r: Option<i32>)
    ensures
        r is Some <==> width + lsb <= 32,
        r is Some ==> r == Some(get_signed_spec(word, width, lsb)),
{
    if width > 32 || lsb > 32 - width {
        return None;
    }
    if width == 0 {
        proof {
            assert((word >> lsb) & low_mask(0) == 0) by (bit_vector);
        }
        return Some(0);
    }
    let m = mask_of(width);
    let field = (word >> lsb) & m;
    if width < 32 && (field >> (width - 1)) & 1 == 1 {
        Some((field | !m) as i32)
    } else {
        Some(field as i32)
    }
}

/// Writes the unsigned `value` into the field of `width` bits at `lsb` of
/// `word`, returning the new word and leaving every other bit unchanged.
/// `None` exactly when the field does not lie within the 32-bit word or the
/// value does not fit the width.
pub fn pack_unsigned(word: u32, width: u32, lsb: u32, value: u32) -> (r: Option<u32>)
    ensures
        r is Some <==> width + lsb <= 32 && fits_unsigned(value, width),
        r is Some ==> r == Some(pack_unsigned_spec(word, width, lsb, value)),
{
    if width > 32 || lsb > 32 - width {
        return None;
    }
    let m = mask_of(width);
    if value > m {
        return None;
    }
    if width == 0 {
        proof {
            assert((word & !(low_mask(0) << lsb)) | (value << lsb) == word) by (bit_vector)
                requires
                    value <= low_mask(0),
            ;
        }
        return Some(word);
    }
    Some((word & !(m << lsb)) | (value << lsb))
}

/// Writes the two's-complement image of the signed `value` into the field of
/// `width` bits at `lsb` of `word`, returning the new word and leaving every
/// other bit unchanged. `None` exactly when the field does not lie within the
/// 32-bit word or the value does not fit the width.
pub fn pack_signed(word: u32, width: u32, lsb: u32, value: i32) -> (r: Option<u32>)
    ensures
        r is Some <==> width + lsb <= 32 && fits_signed(value, width),
        r is Some ==> r == Some(pack_signed_spec(word, width, lsb, value)),
{
    if width == 0 || width > 32 || lsb > 32 - width {
        return None;
    }
    if width < 32 {
        let s = value >> (width - 1);
        if !(s == 0 || s == -1) {
            return None;
        }
    }
    let m = mask_of(width);
    let field = (value as u32) & m;
    Some((word & !(m << lsb)) | (field << lsb))
}

/// Law: extracting an unsigned field immediately after packing it yields the
/// packed value back, for every word, every value that fits, and every field
/// that lies within the word.
pub proof fn lemma_unsigned_roundtrip(word: u32, width: u32, lsb: u32, value: u32)
    requires
        width + lsb <= 32,
        fits_unsigned(value, width),
    ensures
        get_unsigned_spec(pack_unsigned_spec(word, width, lsb, value), width, lsb) == value,
{
    assert(get_unsigned_spec(pack_unsigned_spec(word, width, lsb, value), width, lsb) == value)
        by (bit_vector)
        requires
            width + lsb <= 32,
            value <= low_mask(width),
    ;
}

/// Law: extracting a signed field immediately after packing it yields the
/// packed value back, for every word, every value that fits, and every field
/// that lies within the word.
pub proof fn lemma_signed_roundtrip(word: u32, width: u32, lsb: u32, value: i32)
    requires
        width + lsb <= 32,
        fits_signed(value, width),
    ensures
        get_signed_spec(pack_signed_spec(word, width, lsb, value), width, lsb) == value,
{
    assert(get_signed_spec(pack_signed_spec(word, width, lsb, value), width, lsb) == value)
        by (bit_vector)
        requires
            width + lsb <= 32,
            fits_signed(value, width),
    ;
}

/// Law: packing a field leaves every disjoint field of the word untouched, so
/// sequential packing at non-overlapping offsets composes into one layout.
pub proof fn lemma_pack_preserves_disjoint(
    word: u32,
    width: u32,
    lsb: u32,
    value: u32,
    width2: u32,
    lsb2: u32,
)
    requires
        width + lsb <= 32,
        fits_unsigned(value, width),
        width2 + lsb2 <= 32,
        lsb2 + width2 <= lsb || lsb + width <= lsb2,
    ensures
        get_unsigned_spec(pack_unsigned_spec(word, width, lsb, value), width2, lsb2)
            == get_unsigned_spec(word, width2, lsb2),
{
    assert(get_unsigned_spec(pack_unsigned_spec(word, width, lsb, value), width2, lsb2)
        == get_unsigned_spec(word, width2, lsb2)) by (bit_vector)
        requires
            width + lsb <= 32,
            value <= low_mask(width),
            width2 + lsb2 <= 32,
            lsb2 + width2 <= lsb || lsb + width <= lsb2,
    ;
}

} // verus!
