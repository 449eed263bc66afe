//! A lossy still-image codec core: 2x2 pixel blocks are turned into packed
//! 32-bit codewords and back. This crate holds the integer heart of the
//! pipeline — the bitfield codec, the codeword layout, the big-endian stream
//! framing with its shape checks, and the pixel-grid bookkeeping — each with a
//! proved contract.

pub mod bitfield;
pub mod blocks;
pub mod codec;
pub mod compression;
pub mod decompression;
pub mod grid;
pub mod structures;
