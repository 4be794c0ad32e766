//! The failure taxonomy shared by every decoder in this crate.

use vstd::prelude::*;

verus! {

/// Why a decode call failed. No failure is recovered internally: a chunk
/// either fully decodes or the whole operation reports one of these.
///
/// - `MalformedContainer`: a structural invariant of the container format is
///   violated (offset-table size or boundary values, dictionary size). The
///   fields carry the value that was seen and the value the format demands.
/// - `TruncatedStream`: a token promised trailing payload bytes that the
///   stream does not hold. `offset` is the position of the token whose
///   payload is missing. The two designed end-of-stream states (an even
///   natural end, and a single odd trailing literal byte) are not errors.
/// - `OutOfRange`: a chunk index, chunk offset or computed back-reference
///   address falls outside the buffer it must address; `offset` is the
///   requested position and `limit` the bound it broke.
#[derive(Debug, Clone, Copy, PartialEq, Eq, Structural)]
pub enum DecodeError {
    MalformedContainer { found: usize, expected: usize },
    TruncatedStream { offset: usize },
    OutOfRange { offset: usize, limit: usize },
}

} // verus!
