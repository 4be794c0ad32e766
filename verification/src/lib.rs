//! Decoder for the layered compression schemes of a 1990s DOS game's
//! graphics and map resources: an LSB-first bit stream, a 256-node binary-tree
//! Huffman decoder, a self-referential back-reference expander, a run-length
//! word expander, and the 24-bit offset table that locates each compressed
//! chunk inside a resource blob.

pub mod bitstream;
pub mod carmackization;
pub mod egagraph;
pub mod error;
pub mod framing;
pub mod huffman;
pub mod images;
pub mod parse_graphics;
pub mod parse_maps;
pub mod rlew;
pub mod versions;
