//! The decompression side of the codeword stage: extracting the quantized
//! coefficients of each 2x2 block back out of its 32-bit codeword, using the
//! same fixed field layout as the compression side.

use vstd::prelude::*;

use crate::bitfield::{get_signed, get_signed_spec, get_unsigned, get_unsigned_spec};
use crate::grid::Grid;
use crate::structures::EncodedQuanta;

verus! {

/// The block whose fields are the six fixed-offset fields of `codeword`,
/// sign-extended where the layout declares them signed.
pub open spec fn unpack_block_spec(codeword: u32) -> EncodedQuanta {
    EncodedQuanta {
        a: get_unsigned_spec(codeword, 9, 23) as u64,
        b: get_signed_spec(codeword, 5, 18) as i64,
        c: get_signed_spec(codeword, 5, 13) as i64,
        d: get_signed_spec(codeword, 5, 8) as i64,
        pb_avg: get_unsigned_spec(codeword, 4, 4) as u64,
        pr_avg: get_unsigned_spec(codeword, 4, 0) as u64,
    }
}

/// Unpacks one codeword into its block. The result is always well formed:
/// each extracted field lies in the range its declared width allows.
pub fn unpack_block(codeword: u32) -> (e: EncodedQuanta)
    ensures
        e == unpack_block_spec(codeword),
        e.well_formed(),
{
    let a: u32 = get_unsigned(codeword, 9, 23).unwrap();
    let b: i32 = get_signed(codeword, 5, 18).unwrap();
    let c: i32 = get_signed(codeword, 5, 13).unwrap();
    let d: i32 = get_signed(codeword, 5, 8).unwrap();
    let pb: u32 = get_unsigned(codeword, 4, 4).unwrap();
    let pr: u32 = get_unsigned(codeword, 4, 0).unwrap();
    proof {
        assert(get_unsigned_spec(codeword, 9, 23) <= 511 && -16 <= get_signed_spec(
            codeword,
            5,
            18,
        ) <= 15 && -16 <= get_signed_spec(codeword, 5, 13) <= 15 && -16 <= get_signed_spec(
            codeword,
            5,
            8,
        ) <= 15 && get_unsigned_spec(codeword, 4, 4) <= 15 && get_unsigned_spec(codeword, 4, 0)
            <= 15) by (bit_vector);
    }
    EncodedQuanta {
        a: a as u64,
        b: b as i64,
        c: c as i64,
        d: d as i64,
        pb_avg: pb as u64,
        pr_avg: pr as u64,
    }
}

/// Unpacks every codeword of the grid into its block, cell for cell in
/// row-major order, so that the block grid mirrors the codeword grid.
pub fn extract_encoded_data(codewords_array: &Grid<u32>) -> (encoded: Grid<EncodedQuanta>)
    requires
        codewords_array.wf(),
    ensures
        encoded.wf(),
        encoded.width == codewords_array.width,
        encoded.height == codewords_array.height,
        encoded.data@.len() == codewords_array.data@.len(),
        forall|i: int|
            0 <= i < encoded.data@.len() ==> encoded.data@[i] == unpack_block_spec(
                codewords_array.data@[i],
            ),
        forall|i: int| 0 <= i < encoded.data@.len() ==> encoded.data@[i].well_formed(),
{
    let n: usize = codewords_array.data.len();
    let mut blocks: Vec<EncodedQuanta> = Vec::new();
    let mut i: usize = 0;
    while i < n
        invariant
            i <= n,
            n == codewords_array.data@.len(),
            blocks@.len() == i,
            forall|j: int|
                0 <= j < i ==> blocks@[j] == unpack_block_spec(codewords_array.data@[j]),
            forall|j: int| 0 <= j < i ==> blocks@[j].well_formed(),
        decreases n - i,
    {
        let e = unpack_block(codewords_array.data[i]);
        blocks.push(e);
        i = i + 1;
    }
    Grid { width: codewords_array.width, height: codewords_array.height, data: blocks }
}

} // verus!
