//! Lossless block codecs for BF16 weights.
pub mod bf16;
pub mod bitpack;
pub mod bits;
pub mod block;
pub mod matrix;
pub mod measure;
pub mod plane;
pub mod rle;
pub mod zlib;
