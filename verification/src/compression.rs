//! The compression side of the codeword stage: packing the quantized
//! coefficients of each 2x2 block into one 32-bit codeword.
//!
//! The layout is fixed: bits 31..=23 hold the 9-bit unsigned `a`, bits
//! 22..=18, 17..=13 and 12..=8 the 5-bit two's-complement `b`, `c` and `d`,
//! and bits 7..=4 and 3..=0 the 4-bit chroma table indices `pb_avg` and
//! `pr_avg`.

use vstd::prelude::*;

use crate::bitfield::{fits_signed, fits_unsigned, pack_signed, pack_signed_spec, pack_unsigned,
    pack_unsigned_spec};
use crate::grid::Grid;
use crate::structures::EncodedQuanta;

verus! {

/// The codeword that holds the fields of `e`, each truncated to its declared
/// width and placed at its fixed offset.
pub open spec fn pack_block_spec(e: EncodedQuanta) -> u32 {
    (((e.a as u32) & 0x1ff) << 23) | (((e.b as u32) & 0x1f) << 18) | (((e.c as u32) & 0x1f) << 13)
        | (((e.d as u32) & 0x1f) << 8) | (((e.pb_avg as u32) & 0xf) << 4) | ((e.pr_avg as u32)
        & 0xf)
}

/// Packs one well-formed block into its codeword by writing the six fields in
/// turn at their fixed offsets.
pub fn pack_block(e: &EncodedQuanta) -> (w: u32)
    requires
        e.well_formed(),
    ensures
        w == pack_block_spec(*e),
{
    let a: u32 = e.a as u32;
    let b: i32 = e.b as i32;
    let c: i32 = e.c as i32;
    let d: i32 = e.d as i32;
    let pb: u32 = e.pb_avg as u32;
    let pr: u32 = e.pr_avg as u32;
    proof {
        assert(fits_unsigned(a, 9) && fits_signed(b, 5) && fits_signed(c, 5) && fits_signed(d, 5)
            && fits_unsigned(pb, 4) && fits_unsigned(pr, 4)) by (bit_vector)
            requires
                a <= 511,
                -16 <= b <= 15,
                -16 <= c <= 15,
                -16 <= d <= 15,
                pb <= 15,
                pr <= 15,
        ;
    }
    let w1 = pack_unsigned(0, 9, 23, a).unwrap();
    let w2 = pack_signed(w1, 5, 18, b).unwrap();
    let w3 = pack_signed(w2, 5, 13, c).unwrap();
    let w4 = pack_signed(w3, 5, 8, d).unwrap();
    let w5 = pack_unsigned(w4, 4, 4, pb).unwrap();
    let w6 = pack_unsigned(w5, 4, 0, pr).unwrap();
    proof {
        let b64: i64 = e.b;
        let c64: i64 = e.c;
        let d64: i64 = e.d;
        assert(pack_unsigned_spec(
            pack_unsigned_spec(
                pack_signed_spec(
                    pack_signed_spec(pack_signed_spec(pack_unsigned_spec(0u32, 9, 23, a), 5, 18, b),
                        5,
                        13,
                        c,
                    ),
                    5,
                    8,
                    d,
                ),
                4,
                4,
                pb,
            ),
            4,
            0,
            pr,
        ) == ((a & 0x1ff) << 23) | (((b64 as u32) & 0x1f) << 18) | (((c64 as u32) & 0x1f) << 13) | (
        ((d64 as u32) & 0x1f) << 8) | ((pb & 0xf) << 4) | (pr & 0xf)) by (bit_vector)
            requires
                a <= 511,
                -16 <= b64 <= 15,
                -16 <= c64 <= 15,
                -16 <= d64 <= 15,
                pb <= 15,
                pr <= 15,
                b == b64 as i32,
                c == c64 as i32,
                d == d64 as i32,
        ;
    }
    w6
}

/// Builds the block grid of the given dimensions with every field of every
/// block zero, the starting point the compression stage fills in.
pub fn new_encoded_quanta_array(width: usize, height: usize) -> (g: Grid<EncodedQuanta>)
    requires
        width * height <= usize::MAX,
    ensures
        g.wf(),
        g.width == width,
        g.height == height,
        forall|i: int|
            0 <= i < g.data@.len() ==> g.data@[i] == (EncodedQuanta {
                a: 0,
                b: 0,
                c: 0,
                d: 0,
                pb_avg: 0,
                pr_avg: 0,
            }),
{
    let zero = EncodedQuanta { a: 0, b: 0, c: 0, d: 0, pb_avg: 0, pr_avg: 0 };
    Grid::new_filled(width, height, zero).unwrap()
}

/// Packs every block of the grid into its codeword, cell for cell in
/// row-major order, so that the codeword grid mirrors the block grid.
pub fn pack_encoded_quanta(encoded_quanta_array: &Grid<EncodedQuanta>) -> (codewords: Grid<u32>)
    requires
        encoded_quanta_array.wf(),
        forall|i: int|
            0 <= i < encoded_quanta_array.data@.len()
                ==> encoded_quanta_array.data@[i].well_formed(),
    ensures
        codewords.wf(),
        codewords.width == encoded_quanta_array.width,
        codewords.height == encoded_quanta_array.height,
        codewords.data@.len() == encoded_quanta_array.data@.len(),
        forall|i: int|
            0 <= i < codewords.data@.len() ==> codewords.data@[i] == pack_block_spec(
                encoded_quanta_array.data@[i],
            ),
{
    let n: usize = encoded_quanta_array.data.len();
    let mut words: Vec<u32> = Vec::new();
    let mut i: usize = 0;
    while i < n
        invariant
            i <= n,
            n == encoded_quanta_array.data@.len(),
            forall|j: int|
                0 <= j < encoded_quanta_array.data@.len()
                    ==> encoded_quanta_array.data@[j].well_formed(),
            words@.len() == i,
            forall|j: int|
                0 <= j < i ==> words@[j] == pack_block_spec(encoded_quanta_array.data@[j]),
        decreases n - i,
    {
        let w = pack_block(&encoded_quanta_array.data[i]);
        words.push(w);
        i = i + 1;
    }
    Grid { width: encoded_quanta_array.width, height: encoded_quanta_array.height, data: words }
}

} // verus!
