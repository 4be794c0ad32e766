//! Little-endian field readers and the decompressed-length header that
//! length-prefixed chunks carry in front of their Huffman-coded bits.

use vstd::prelude::*;

use crate::error::DecodeError;

verus! {

/// The 16-bit little-endian word formed by a low and a high byte.
pub open spec fn word_le(lo: u8, hi: u8) -> int {
    lo + 256 * hi
}

/// The 24-bit little-endian value stored at byte offset `i`.
pub open spec fn u24_le_at(s: Seq<u8>, i: int) -> int {
    s[i] + 256 * s[i + 1] + 65536 * s[i + 2]
}

/// The 32-bit little-endian value stored at byte offset `i`.
pub open spec fn u32_le_at(s: Seq<u8>, i: int) -> int {
    s[i] + 256 * s[i + 1] + 65536 * s[i + 2] + 16777216 * s[i + 3]
}

/// Reads the 16-bit little-endian word at byte offset `at`.
pub fn read_u16_le(data: &[u8], at: usize) -> (r: u16)
    requires
        at + 2 <= data@.len(),
    ensures
        r == word_le(data@[at as int], data@[at + 1]),
{
    (data[at] as u16) + 256 * (data[at + 1] as u16)
}

/// Reads the 24-bit little-endian value at byte offset `at`.
pub fn read_u24_le(data: &[u8], at: usize) -> (r: u32)
    requires
        at + 3 <= data@.len(),
    ensures
        r == u24_le_at(data@, at as int),
        r < 0x1000000,
{
    (data[at] as u32) + 256 * (data[at + 1] as u32) + 65536 * (data[at + 2] as u32)
}

/// Reads the 32-bit little-endian value at byte offset `at`.
pub fn read_u32_le(data: &[u8], at: usize) -> (r: u32)
    requires
        at + 4 <= data@.len(),
    ensures
        r == u32_le_at(data@, at as int),
{
    (data[at] as u32) + 256 * (data[at + 1] as u32) + 65536 * (data[at + 2] as u32)
        + 16777216 * (data[at + 3] as u32)
}

/// The decompressed length a length-prefixed chunk announces in its first
/// four bytes.
pub open spec fn length_prefix(chunk: Seq<u8>) -> int {
    u32_le_at(chunk, 0)
}

/// Splits a length-prefixed chunk into its announced decompressed length and
/// the Huffman-coded bytes that follow the header. A chunk too short to hold
/// the four header bytes is a truncated stream.
pub fn parse_length_prefix<'a>(chunk: &'a [u8]) -> (r: Result<(u32, &'a [u8]), DecodeError>)
    ensures
        (match r {
            Ok((n, rest)) => chunk@.len() >= 4 && n == length_prefix(chunk@) && rest@ == chunk@.skip(4),
            Err(e) => chunk@.len() < 4 && e == (DecodeError::TruncatedStream { offset: 0 }),
        }),
{
    if chunk.len() < 4 {
        return Err(DecodeError::TruncatedStream { offset: 0 });
    }
    let n = read_u32_le(chunk, 0);
    let rest = slice_skip(chunk, 4);
    Ok((n, rest))
}

/// The tail of a slice from byte offset `from` on.
pub fn slice_skip<'a>(data: &'a [u8], from: usize) -> (r: &'a [u8])
    requires
        from <= data@.len(),
    ensures
        r@ == data@.skip(from as int),
{
    let r = &data[from..data.len()];
    assert(r@ =~= data@.skip(from as int));
    r
}

} // verus!
