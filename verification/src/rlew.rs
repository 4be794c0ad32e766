//! Expansion of run-length-encoded 16-bit word streams: a caller-supplied
//! key word escapes a `(count, value)` run, every other word passes through
//! unchanged, and a lone trailing byte is a clean end of stream.

use vstd::prelude::*;

use crate::error::DecodeError;
use crate::framing::{read_u16_le, word_le};

verus! {

/// The two bytes of a word repeated `n` times, little-endian order kept.
pub open spec fn repeat_word(lo: u8, hi: u8, n: nat) -> Seq<u8> {
    Seq::new(2 * n, |k: int| if k % 2 == 0 { lo } else { hi })
}

/// What expanding `input` from byte position `i` onward turns the output
/// built so far into. Words are read as 16-bit little-endian pairs; a word
/// equal to `key` must be followed by a count word and a value word, and
/// stands for `count` repetitions of the value; missing run fields fail the
/// whole expansion.
pub open spec fn expand_from(input: Seq<u8>, key: u16, i: int, out: Seq<u8>) -> Result<
    Seq<u8>,
    DecodeError,
>
    decreases input.len() - i,
{
    if i >= input.len() {
        Ok(out)
    } else if i + 2 > input.len() {
        Ok(out.push(input[i]))
    } else if word_le(input[i], input[i + 1]) == key {
        if i + 6 > input.len() {
            Err(DecodeError::TruncatedStream { offset: i as usize })
        } else {
            let n = word_le(input[i + 2], input[i + 3]);
            expand_from(input, key, i + 6, out + repeat_word(input[i + 4], input[i + 5], n as nat))
        }
    } else {
        expand_from(input, key, i + 2, out + seq![input[i], input[i + 1]])
    }
}

/// What expanding a whole buffer against `key` yields, starting from an
/// empty output.
pub open spec fn expanded(input: Seq<u8>, key: u16) -> Result<Seq<u8>, DecodeError> {
    expand_from(input, key, 0, Seq::empty())
}

/// Expands a run-length-encoded word stream against the given key word.
pub fn expand(compressed: &[u8], key: u16) -> (r: Result<Vec<u8>, DecodeError>)
    ensures
        (match r {
            Ok(v) => expanded(compressed@, key) == Ok::<Seq<u8>, DecodeError>(v@),
            Err(e) => expanded(compressed@, key) == Err::<Seq<u8>, DecodeError>(e),
        }),
{
    let mut out: Vec<u8> = Vec::new();
    let len = compressed.len();
    let mut i: usize = 0;
    loop
        invariant
            i <= len,
            len == compressed@.len(),
            expanded(compressed@, key) == expand_from(compressed@, key, i as int, out@),
        decreases len - i,
    {
        if i >= len {
            return Ok(out);
        }
        if i + 1 == len {
            out.push(compressed[i]);
            return Ok(out);
        }
        let word = read_u16_le(compressed, i);
        if word == key {
            if len - i < 6 {
                return Err(DecodeError::TruncatedStream { offset: i });
            }
            let n = read_u16_le(compressed, i + 2);
            let lo = compressed[i + 4];
            let hi = compressed[i + 5];
            let ghost entry = out@;
            let mut c: u16 = 0;
            while c < n
                invariant
                    c <= n,
                    out@ == entry + repeat_word(lo, hi, c as nat),
                decreases n - c,
            {
                out.push(lo);
                out.push(hi);
                proof {
                    assert(entry + repeat_word(lo, hi, c as nat) + seq![lo, hi] =~= entry
                        + repeat_word(lo, hi, (c + 1) as nat));
                    assert(out@ =~= entry + repeat_word(lo, hi, c as nat) + seq![lo, hi]);
                }
                c = c + 1;
            }
            i = i + 6;
        } else {
            proof {
                assert(out@ + seq![compressed@[i as int], compressed@[i + 1]] =~= out@.push(
                    compressed@[i as int],
                ).push(compressed@[i + 1]));
            }
            let lo = compressed[i];
            let hi = compressed[i + 1];
            out.push(lo);
            out.push(hi);
            i = i + 2;
        }
    }
}

proof fn lemma_key_free_expand_from(input: Seq<u8>, key: u16, i: int)
    requires
        0 <= i <= input.len(),
        i % 2 == 0,
        forall|k: int|
            0 <= k && k % 2 == 0 && k + 1 < input.len() ==> #[trigger] word_le(
                input[k],
                input[k + 1],
            ) != key,
    ensures
        expand_from(input, key, i, input.take(i)) == Ok::<Seq<u8>, DecodeError>(input),
    decreases input.len() - i,
{
    if i >= input.len() {
        assert(input.take(i) =~= input);
    } else if i + 2 > input.len() {
        assert(input.take(i).push(input[i]) =~= input);
    } else {
        assert(word_le(input[i], input[i + 1]) != key);
        assert(input.take(i) + seq![input[i], input[i + 1]] =~= input.take(i + 2));
        lemma_key_free_expand_from(input, key, i + 2);
    }
}

/// A buffer in which no word equals the key expands to itself exactly,
/// a lone odd trailing byte passed through unchanged.
pub proof fn lemma_key_free_round_trip(input: Seq<u8>, key: u16)
    requires
        forall|k: int|
            0 <= k && k % 2 == 0 && k + 1 < input.len() ==> #[trigger] word_le(
                input[k],
                input[k + 1],
            ) != key,
    ensures
        expanded(input, key) == Ok::<Seq<u8>, DecodeError>(input),
{
    assert(input.take(0) =~= Seq::<u8>::empty());
    lemma_key_free_expand_from(input, key, 0);
}

} // verus!
