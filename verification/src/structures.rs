//! The plain data carried between the pipeline stages, and the codec's error
//! type.

use vstd::prelude::*;

verus! {

/// A raw pixel: three channel samples, each expected in 0..=255.
#[derive(Clone, Copy, Debug, PartialEq, Eq, Structural)]
pub struct RgbInt {
    pub red: u16,
    pub green: u16,
    pub blue: u16,
}

/// The quantized coefficients of one 2x2 block, each held in a machine
/// integer wide enough for its packed field: `a` is a 9-bit unsigned value,
/// `b`, `c` and `d` are 5-bit two's-complement values, and `pb_avg` and
/// `pr_avg` are 4-bit chroma table indices.
#[derive(Clone, Copy, Debug, PartialEq, Eq, Structural)]
pub struct EncodedQuanta {
    pub a: u64,
    pub b: i64,
    pub c: i64,
    pub d: i64,
    pub pb_avg: u64,
    pub pr_avg: u64,
}

impl EncodedQuanta {
    /// Every field fits losslessly in its declared bit width of the codeword
    /// layout. The quantizers always saturate into these ranges, so packing a
    /// block that breaks this is a programming error, not an input error.
    pub open spec fn well_formed(&self) -> bool {
        &&& self.a <= 511
        &&& -16 <= self.b <= 15
        &&& -16 <= self.c <= 15
        &&& -16 <= self.d <= 15
        &&& self.pb_avg <= 15
        &&& self.pr_avg <= 15
    }
}

/// A shape fault of an incoming compressed stream. Decoding fails fast on
/// these; they are the only recoverable errors the core reports.
#[derive(Clone, Copy, Debug, PartialEq, Eq, Structural)]
pub enum CodecError {
    /// The byte stream is not a whole number of 4-byte codewords.
    ByteLengthNotAligned,
    /// The number of codewords disagrees with the declared dimensions.
    CodewordCountMismatch,
}

} // verus!
