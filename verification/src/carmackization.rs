//! Expansion of back-reference-compressed data: a stream of `(count, tag)`
//! byte pairs whose reserved tags copy already-emitted bytes of the output
//! buffer back onto its own end, near ones by a relative distance, far ones
//! by an absolute word offset.

use vstd::prelude::*;

use crate::error::DecodeError;
use crate::framing::{read_u16_le, word_le};

verus! {

/// The reserved tag byte that introduces a near (relative) back-reference.
pub const NEAR_TAG: u8 = 0xA7;

/// The reserved tag byte that introduces a far (absolute) back-reference.
pub const FAR_TAG: u8 = 0xA8;

/// `out` with `n` bytes appended, read one at a time from position `start`
/// onward of the very buffer being grown: a copy that observes its own
/// output, so a source range reaching into the appended region repeats
/// earlier bytes.
pub open spec fn extend_from_within(out: Seq<u8>, start: int, n: nat) -> Seq<u8>
    decreases n,
{
    if n == 0 {
        out
    } else {
        extend_from_within(out.push(out[start]), start + 1, (n - 1) as nat)
    }
}

/// What expanding `input` from byte position `i` onward turns the output
/// built so far into. Each token is a `(count, tag)` pair: a reserved tag
/// with `count == 0` escapes one literal occurrence of the tag byte itself;
/// a reserved tag with a nonzero count copies `2 * count` bytes back out of
/// the output; any other pair is two literal bytes. A lone trailing byte is
/// a clean end, but payload bytes missing after a reserved tag, or a copy
/// source outside the bytes already emitted, fail the whole expansion.
pub open spec fn expand_from(input: Seq<u8>, i: int, out: Seq<u8>) -> Result<Seq<u8>, DecodeError>
    decreases input.len() - i,
{
    if i >= input.len() {
        Ok(out)
    } else if i + 2 > input.len() {
        Ok(out.push(input[i]))
    } else {
        let count = input[i];
        let tag = input[i + 1];
        if tag == NEAR_TAG {
            if i + 3 > input.len() {
                Err(DecodeError::TruncatedStream { offset: i as usize })
            } else {
                let distance = input[i + 2];
                if count == 0 {
                    expand_from(input, i + 3, out + seq![distance, tag])
                } else if distance == 0 || out.len() < 2 * distance {
                    Err(
                        DecodeError::OutOfRange {
                            offset: (2 * distance) as usize,
                            limit: out.len() as usize,
                        },
                    )
                } else {
                    expand_from(
                        input,
                        i + 3,
                        extend_from_within(out, out.len() - 2 * distance, (2 * count) as nat),
                    )
                }
            }
        } else if tag == FAR_TAG {
            if count == 0 {
                if i + 3 > input.len() {
                    Err(DecodeError::TruncatedStream { offset: i as usize })
                } else {
                    expand_from(input, i + 3, out + seq![input[i + 2], tag])
                }
            } else {
                if i + 4 > input.len() {
                    Err(DecodeError::TruncatedStream { offset: i as usize })
                } else {
                    let offset = word_le(input[i + 2], input[i + 3]);
                    if out.len() <= 2 * offset {
                        Err(
                            DecodeError::OutOfRange {
                                offset: (2 * offset) as usize,
                                limit: out.len() as usize,
                            },
                        )
                    } else {
                        expand_from(input, i + 4, extend_from_within(out, 2 * offset, (2 * count) as nat))
                    }
                }
            }
        } else {
            expand_from(input, i + 2, out + seq![count, tag])
        }
    }
}

/// What expanding a whole buffer yields, starting from an empty output.
pub open spec fn expanded(input: Seq<u8>) -> Result<Seq<u8>, DecodeError> {
    expand_from(input, 0, Seq::empty())
}

/// Appends `n` bytes to `out`, read one at a time from position `start` of
/// `out` itself, so that a source range overlapping the appended region
/// observes the bytes this very copy has written.
fn copy_within_extend(out: &mut Vec<u8>, start: usize, n: usize)
    requires
        start < old(out)@.len(),
    ensures
        final(out)@ == extend_from_within(old(out)@, start as int, n as nat),
{
    let mut j: usize = 0;
    while j < n
        invariant
            start < old(out)@.len(),
            out@.len() == old(out)@.len() + j,
            j <= n,
            extend_from_within(old(out)@, start as int, n as nat) == extend_from_within(
                out@,
                start + j,
                (n - j) as nat,
            ),
        decreases n - j,
    {
        let grown = out.len();
        assert(start + j < grown);
        let b = out[start + j];
        out.push(b);
        j = j + 1;
    }
}

/// Expands a back-reference-compressed buffer into its raw bytes, building
/// the output incrementally and resolving every reference against the bytes
/// already emitted.
pub fn expand(compressed: &[u8]) -> (r: Result<Vec<u8>, DecodeError>)
    ensures
        (match r {
            Ok(v) => expanded(compressed@) == Ok::<Seq<u8>, DecodeError>(v@),
            Err(e) => expanded(compressed@) == Err::<Seq<u8>, DecodeError>(e),
        }),
{
    let mut out: Vec<u8> = Vec::new();
    let len = compressed.len();
    let mut i: usize = 0;
    loop
        invariant
            i <= len,
            len == compressed@.len(),
            expanded(compressed@) == expand_from(compressed@, i as int, out@),
        decreases len - i,
    {
        if i >= len {
            return Ok(out);
        }
        if i + 1 == len {
            out.push(compressed[i]);
            return Ok(out);
        }
        let count = compressed[i];
        let tag = compressed[i + 1];
        if tag == NEAR_TAG {
            if i + 2 >= len {
                return Err(DecodeError::TruncatedStream { offset: i });
            }
            let distance = compressed[i + 2];
            if count == 0 {
                proof {
                    assert(out@ + seq![distance, tag] =~= out@.push(distance).push(tag));
                }
                out.push(distance);
                out.push(tag);
            } else {
                let back = 2 * (distance as usize);
                if distance == 0 || out.len() < back {
                    return Err(DecodeError::OutOfRange { offset: back, limit: out.len() });
                }
                let start = out.len() - back;
                copy_within_extend(&mut out, start, 2 * (count as usize));
            }
            i = i + 3;
        } else if tag == FAR_TAG {
            if count == 0 {
                if i + 2 >= len {
                    return Err(DecodeError::TruncatedStream { offset: i });
                }
                let escapee = compressed[i + 2];
                proof {
                    assert(out@ + seq![escapee, tag] =~= out@.push(escapee).push(tag));
                }
                out.push(escapee);
                out.push(tag);
                i = i + 3;
            } else {
                if len - i < 4 {
                    return Err(DecodeError::TruncatedStream { offset: i });
                }
                let offset = read_u16_le(compressed, i + 2);
                let start = 2 * (offset as usize);
                if out.len() <= start {
                    return Err(DecodeError::OutOfRange { offset: start, limit: out.len() });
                }
                copy_within_extend(&mut out, start, 2 * (count as usize));
                i = i + 4;
            }
        } else {
            proof {
                assert(out@ + seq![count, tag] =~= out@.push(count).push(tag));
            }
            out.push(count);
            out.push(tag);
            i = i + 2;
        }
    }
}

proof fn lemma_literal_expand_from(input: Seq<u8>, i: int)
    requires
        input.len() % 2 == 0,
        0 <= i <= input.len(),
        i % 2 == 0,
        forall|k: int| 0 <= k < input.len() && k % 2 == 1 ==> input[k] != NEAR_TAG && input[k] != FAR_TAG,
    ensures
        expand_from(input, i, input.take(i)) == Ok::<Seq<u8>, DecodeError>(input),
    decreases input.len() - i,
{
    if i >= input.len() {
        assert(input.take(i) =~= input);
    } else {
        assert(i + 2 <= input.len());
        assert(input[i + 1] != NEAR_TAG && input[i + 1] != FAR_TAG);
        assert(input.take(i) + seq![input[i], input[i + 1]] =~= input.take(i + 2));
        lemma_literal_expand_from(input, i + 2);
    }
}

/// A buffer made only of literal pairs, with no reserved tag byte in any tag
/// position, expands to itself unchanged.
pub proof fn lemma_literal_pairs_round_trip(input: Seq<u8>)
    requires
        input.len() % 2 == 0,
        forall|k: int| 0 <= k < input.len() && k % 2 == 1 ==> input[k] != NEAR_TAG && input[k] != FAR_TAG,
    ensures
        expanded(input) == Ok::<Seq<u8>, DecodeError>(input),
{
    assert(input.take(0) =~= Seq::<u8>::empty());
    lemma_literal_expand_from(input, 0);
}

} // verus!
