//! The edges of the pipeline that the two passes share: trimming an image to
//! even dimensions, framing codewords as big-endian bytes and back, checking
//! the shape of an incoming stream, and the laws that tie the compression and
//! decompression sides together.

use vstd::prelude::*;

use vstd::arithmetic::div_mod::lemma_fundamental_div_mod;

use crate::bitfield::{get_signed_spec, get_unsigned_spec};
use crate::compression::pack_block_spec;
use crate::decompression::{extract_encoded_data, unpack_block_spec};
use crate::grid::{lemma_row_major_index, Grid};
use crate::structures::{CodecError, EncodedQuanta, RgbInt};

verus! {

/// Trims a pixel grid to even dimensions by dropping the last column when the
/// width is odd and the last row when the height is odd; every kept pixel is
/// unchanged, and nothing is ever padded.
pub fn trim_array(pixel_array: &Grid<RgbInt>) -> (trimmed: Grid<RgbInt>)
    requires
        pixel_array.wf(),
    ensures
        trimmed.wf(),
        trimmed.width == pixel_array.width - pixel_array.width % 2,
        trimmed.height == pixel_array.height - pixel_array.height % 2,
        forall|c: int, r: int|
            0 <= c < trimmed.width && 0 <= r < trimmed.height ==> trimmed.cell(c, r)
                == pixel_array.cell(c, r),
{
    let new_width: usize = pixel_array.width - pixel_array.width % 2;
    let new_height: usize = pixel_array.height - pixel_array.height % 2;
    let mut data: Vec<RgbInt> = Vec::new();
    let mut r: usize = 0;
    while r < new_height
        invariant
            r <= new_height,
            pixel_array.wf(),
            new_width == pixel_array.width - pixel_array.width % 2,
            new_height == pixel_array.height - pixel_array.height % 2,
            data@.len() == r * new_width,
            forall|cc: int, rr: int|
                0 <= cc < new_width && 0 <= rr < r ==> data@[rr * new_width + cc]
                    == pixel_array.cell(cc, rr),
        decreases new_height - r,
    {
        let mut c: usize = 0;
        while c < new_width
            invariant
                c <= new_width,
                r < new_height,
                pixel_array.wf(),
                new_width == pixel_array.width - pixel_array.width % 2,
                new_height == pixel_array.height - pixel_array.height % 2,
                data@.len() == r * new_width + c,
                forall|cc: int, rr: int|
                    0 <= cc < new_width && 0 <= rr < r ==> data@[rr * new_width + cc]
                        == pixel_array.cell(cc, rr),
                forall|cc: int|
                    0 <= cc < c ==> data@[r * new_width + cc] == pixel_array.cell(cc, r as int),
            decreases new_width - c,
        {
            let px = *pixel_array.get(c, r);
            data.push(px);
            proof {
                assert forall|cc: int, rr: int|
                    0 <= cc < new_width && 0 <= rr < r implies data@[rr * new_width + cc]
                    == pixel_array.cell(cc, rr) by {
                    lemma_row_major_index(new_width as int, r as int, cc, rr);
                }
            }
            c = c + 1;
        }
        proof {
            assert((r + 1) * new_width == r * new_width + new_width) by (nonlinear_arith);
        }
        r = r + 1;
    }
    proof {
        assert(new_height * new_width == new_width * new_height) by (nonlinear_arith);
    }
    Grid { width: new_width, height: new_height, data }
}

/// The big-endian codeword whose four bytes are `b0`, `b1`, `b2`, `b3`, most
/// significant first. Big-endian order on the wire is a compatibility
/// requirement of the format, not a choice.
pub open spec fn be_word_spec(b0: u8, b1: u8, b2: u8, b3: u8) -> u32 {
    ((b0 as u32) << 24) | ((b1 as u32) << 16) | ((b2 as u32) << 8) | (b3 as u32)
}

/// Law: a codeword split into its four big-endian bytes and reassembled is
/// unchanged, for every codeword.
pub proof fn lemma_be_word_roundtrip(w: u32)
    ensures
        be_word_spec((w >> 24) as u8, (w >> 16) as u8, (w >> 8) as u8, w as u8) == w,
{
    assert(be_word_spec((w >> 24) as u8, (w >> 16) as u8, (w >> 8) as u8, w as u8) == w)
        by (bit_vector);
}

/// Law: four bytes assembled into a big-endian codeword and split again are
/// unchanged, for all byte values.
pub proof fn lemma_be_bytes_roundtrip(b0: u8, b1: u8, b2: u8, b3: u8)
    ensures
        (be_word_spec(b0, b1, b2, b3) >> 24) as u8 == b0,
        (be_word_spec(b0, b1, b2, b3) >> 16) as u8 == b1,
        (be_word_spec(b0, b1, b2, b3) >> 8) as u8 == b2,
        be_word_spec(b0, b1, b2, b3) as u8 == b3,
{
    assert((be_word_spec(b0, b1, b2, b3) >> 24) as u8 == b0 && (be_word_spec(b0, b1, b2, b3)
        >> 16) as u8 == b1 && (be_word_spec(b0, b1, b2, b3) >> 8) as u8 == b2 && be_word_spec(
        b0,
        b1,
        b2,
        b3,
    ) as u8 == b3) by (bit_vector);
}

/// Flattens a codeword grid into its wire bytes: each codeword contributes
/// its four bytes most significant first, codewords in row-major order.
pub fn codewords_to_bytes(codewords: &Grid<u32>) -> (bytes: Vec<u8>)
    requires
        codewords.wf(),
    ensures
        bytes@.len() == 4 * codewords.data@.len(),
        forall|i: int|
            0 <= i < codewords.data@.len() ==> {
                let w = #[trigger] codewords.data@[i];
                &&& bytes@[4 * i] == (w >> 24) as u8
                &&& bytes@[4 * i + 1] == (w >> 16) as u8
                &&& bytes@[4 * i + 2] == (w >> 8) as u8
                &&& bytes@[4 * i + 3] == w as u8
            },
{
    let n: usize = codewords.data.len();
    let mut bytes: Vec<u8> = Vec::new();
    let mut i: usize = 0;
    while i < n
        invariant
            i <= n,
            n == codewords.data@.len(),
            bytes@.len() == 4 * i,
            forall|j: int|
                0 <= j < i ==> {
                    let w = #[trigger] codewords.data@[j];
                    &&& bytes@[4 * j] == (w >> 24) as u8
                    &&& bytes@[4 * j + 1] == (w >> 16) as u8
                    &&& bytes@[4 * j + 2] == (w >> 8) as u8
                    &&& bytes@[4 * j + 3] == w as u8
                },
        decreases n - i,
    {
        let w: u32 = codewords.data[i];
        bytes.push((w >> 24) as u8);
        bytes.push((w >> 16) as u8);
        bytes.push((w >> 8) as u8);
        bytes.push(w as u8);
        i = i + 1;
    }
    bytes
}

/// Groups wire bytes back into big-endian codewords. Fails with
/// `ByteLengthNotAligned` exactly when the stream is not a whole number of
/// 4-byte codewords.
pub fn bytes_to_codewords(bytes: &Vec<u8>) -> (r: Result<Vec<u32>, CodecError>)
    ensures
        r is Ok <==> bytes@.len() % 4 == 0,
        r is Err ==> r == Err::<Vec<u32>, CodecError>(CodecError::ByteLengthNotAligned),
        r is Ok ==> {
            let words = r.unwrap();
            &&& words@.len() == bytes@.len() / 4
            &&& forall|i: int|
                0 <= i < words@.len() ==> #[trigger] words@[i] == be_word_spec(
                    bytes@[4 * i],
                    bytes@[4 * i + 1],
                    bytes@[4 * i + 2],
                    bytes@[4 * i + 3],
                )
        },
{
    let n: usize = bytes.len();
    if n % 4 != 0 {
        return Err(CodecError::ByteLengthNotAligned);
    }
    let m: usize = n / 4;
    proof {
        lemma_fundamental_div_mod(n as int, 4);
    }
    let mut words: Vec<u32> = Vec::new();
    let mut i: usize = 0;
    while i < m
        invariant
            i <= m,
            n == bytes@.len(),
            n == 4 * m,
            words@.len() == i,
            forall|j: int|
                0 <= j < i ==> #[trigger] words@[j] == be_word_spec(
                    bytes@[4 * j],
                    bytes@[4 * j + 1],
                    bytes@[4 * j + 2],
                    bytes@[4 * j + 3],
                ),
        decreases m - i,
    {
        let b0: u8 = bytes[4 * i];
        let b1: u8 = bytes[4 * i + 1];
        let b2: u8 = bytes[4 * i + 2];
        let b3: u8 = bytes[4 * i + 3];
        let w: u32 = ((b0 as u32) << 24) | ((b1 as u32) << 16) | ((b2 as u32) << 8) | (b3 as u32);
        words.push(w);
        i = i + 1;
    }
    Ok(words)
}

/// Parses a compressed stream body against its declared dimensions: the bytes
/// must form whole codewords and their count must match one codeword per 2x2
/// block of the trimmed image. On success, hands back the unpacked block
/// grid, `width / 2` columns by `height / 2` rows in row-major order.
pub fn decode_stream(bytes: &Vec<u8>, width: usize, height: usize) -> (r: Result<
    Grid<EncodedQuanta>,
    CodecError,
>)
    ensures
        r is Ok <==> (bytes@.len() % 4 == 0 && bytes@.len() == 4 * ((width / 2) * (height / 2))),
        r == Err::<Grid<EncodedQuanta>, CodecError>(CodecError::ByteLengthNotAligned) <==> bytes@.len()
            % 4 != 0,
        r == Err::<Grid<EncodedQuanta>, CodecError>(CodecError::CodewordCountMismatch) <==> (
        bytes@.len() % 4 == 0 && bytes@.len() != 4 * ((width / 2) * (height / 2))),
        r is Ok ==> {
            let g = r.unwrap();
            &&& g.wf()
            &&& g.width == width / 2
            &&& g.height == height / 2
            &&& g.data@.len() == (width / 2) * (height / 2)
            &&& forall|i: int|
                0 <= i < g.data@.len() ==> #[trigger] g.data@[i] == unpack_block_spec(
                    be_word_spec(
                        bytes@[4 * i],
                        bytes@[4 * i + 1],
                        bytes@[4 * i + 2],
                        bytes@[4 * i + 3],
                    ),
                )
            &&& forall|i: int| 0 <= i < g.data@.len() ==> #[trigger] g.data@[i].well_formed()
        },
{
    let words = match bytes_to_codewords(bytes) {
        Ok(words) => words,
        Err(e) => {
            return Err(e);
        },
    };
    proof {
        lemma_fundamental_div_mod(bytes@.len() as int, 4);
    }
    let bw: usize = width / 2;
    let bh: usize = height / 2;
    match bw.checked_mul(bh) {
        Some(n_blocks) => {
            if words.len() != n_blocks {
                return Err(CodecError::CodewordCountMismatch);
            }
            let grid: Grid<u32> = Grid::from_row_major(bw, bh, words).unwrap();
            Ok(extract_encoded_data(&grid))
        },
        None => {
            let l: usize = words.len();
            proof {
                assert(l < (width / 2) * (height / 2));
            }
            Err(CodecError::CodewordCountMismatch)
        },
    }
}

/// Law: unpacking the codeword packed from a well-formed block yields the
/// block back, field for field — packing loses nothing within the declared
/// widths.
pub proof fn lemma_block_roundtrip(e: EncodedQuanta)
    requires
        e.well_formed(),
    ensures
        unpack_block_spec(pack_block_spec(e)) == e,
{
    let a64: u64 = e.a;
    let b64: i64 = e.b;
    let c64: i64 = e.c;
    let d64: i64 = e.d;
    let p64: u64 = e.pb_avg;
    let q64: u64 = e.pr_avg;
    let w: u32 = pack_block_spec(e);
    assert(get_unsigned_spec(w, 9, 23) as u64 == a64 && get_signed_spec(w, 5, 18) as i64 == b64
        && get_signed_spec(w, 5, 13) as i64 == c64 && get_signed_spec(w, 5, 8) as i64 == d64
        && get_unsigned_spec(w, 4, 4) as u64 == p64 && get_unsigned_spec(w, 4, 0) as u64 == q64)
        by (bit_vector)
        requires
            a64 <= 511,
            -16 <= b64 <= 15,
            -16 <= c64 <= 15,
            -16 <= d64 <= 15,
            p64 <= 15,
            q64 <= 15,
            w == (((a64 as u32) & 0x1ff) << 23) | (((b64 as u32) & 0x1f) << 18) | (((c64 as u32)
                & 0x1f) << 13) | (((d64 as u32) & 0x1f) << 8) | (((p64 as u32) & 0xf) << 4) | ((
            q64 as u32) & 0xf),
    ;
}

/// Law: the 4-point block transform and its inverse are exact algebraic
/// inverses. Scaling by 4 states it over the integers: if a, b, c, d are a
/// quarter of the four signed sums of y1..y4, then the inverse combinations
/// recover y1..y4 exactly. The executable stages compute this in floating
/// point, whose rounding this law does not speak of.
pub proof fn lemma_block_transform_inverse(
    y1: int,
    y2: int,
    y3: int,
    y4: int,
    a: int,
    b: int,
    c: int,
    d: int,
)
    requires
        4 * a == y4 + y3 + y2 + y1,
        4 * b == y4 + y3 - y2 - y1,
        4 * c == y4 - y3 + y2 - y1,
        4 * d == y4 - y3 - y2 + y1,
    ensures
        a - b - c + d == y1,
        a - b + c - d == y2,
        a + b - c - d == y3,
        a + b + c + d == y4,
{
}

/// Law: a well-formed block survives the whole wire trip: packed into a
/// codeword, split into its four big-endian stream bytes, reassembled and
/// unpacked, it comes back field for field.
pub proof fn lemma_block_wire_roundtrip(e: EncodedQuanta)
    requires
        e.well_formed(),
    ensures
        ({
            let w = pack_block_spec(e);
            unpack_block_spec(
                be_word_spec((w >> 24) as u8, (w >> 16) as u8, (w >> 8) as u8, w as u8),
            ) == e
        }),
{
    let w = pack_block_spec(e);
    lemma_be_word_roundtrip(w);
    lemma_block_roundtrip(e);
}

/// Law: packing the block unpacked from a codeword yields the codeword back,
/// for every 32-bit word — the six fields cover the word exactly, so the
/// layout wastes no bit and the wire format is a bijection on codewords.
pub proof fn lemma_codeword_roundtrip(w: u32)
    ensures
        pack_block_spec(unpack_block_spec(w)) == w,
{
    assert(((((get_unsigned_spec(w, 9, 23) as u64) as u32) & 0x1ff) << 23) | ((((get_signed_spec(
        w,
        5,
        18,
    ) as i64) as u32) & 0x1f) << 18) | ((((get_signed_spec(w, 5, 13) as i64) as u32) & 0x1f)
        << 13) | ((((get_signed_spec(w, 5, 8) as i64) as u32) & 0x1f) << 8) | ((((get_unsigned_spec(
        w,
        4,
        4,
    ) as u64) as u32) & 0xf) << 4) | (((get_unsigned_spec(w, 4, 0) as u64) as u32) & 0xf) == w)
        by (bit_vector);
}

} // verus!
