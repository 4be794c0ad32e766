//! The chunk index of a graphics resource: a table of 24-bit little-endian
//! offsets (the graph head) validated against the data blob, plus a cursor
//! that decodes one chunk per step in either of two modes — length-prefixed
//! chunks, and raw chunks whose decoded length the caller supplies.

use vstd::prelude::*;

use crate::bitstream::bits_of;
use crate::error::DecodeError;
use crate::framing::{parse_length_prefix, read_u24_le, slice_skip, u24_le_at, u32_le_at};
use crate::huffman;
use crate::huffman::{dict_of, huffman_decode, Node};

verus! {

/// The 24-bit offset value that marks a chunk slot as empty.
pub const EMPTY_CHUNK: usize = 0xffffff;

/// How many bytes a dictionary blob must hold: four per node of the fixed
/// 256-node tree.
pub const DICT_BYTES: usize = 1024;

/// The first `n` offsets a graph head stores, each a 24-bit little-endian
/// value three bytes apart.
pub open spec fn head_offset_seq(head: Seq<u8>, n: int) -> Seq<usize> {
    Seq::new(n as nat, |k: int| u24_le_at(head, 3 * k) as usize)
}

/// What parsing a graph head against a blob of `data_len` bytes yields: the
/// chunk offsets with the trailing sentinel dropped, or the structural fault.
/// The head must be a whole number of 3-byte entries, hold at least the
/// sentinel, start at offset 0, and end with a sentinel equal to `data_len`.
pub open spec fn graph_head_spec(head: Seq<u8>, data_len: int) -> Result<Seq<usize>, DecodeError> {
    let n = head.len() / 3;
    if head.len() % 3 != 0 {
        Err(
            DecodeError::MalformedContainer {
                found: head.len() as usize,
                expected: (head.len() - head.len() % 3) as usize,
            },
        )
    } else if n == 0 {
        Err(DecodeError::MalformedContainer { found: 0, expected: 3 })
    } else if u24_le_at(head, 0) != 0 {
        Err(DecodeError::MalformedContainer { found: u24_le_at(head, 0) as usize, expected: 0 })
    } else if u24_le_at(head, 3 * (n - 1)) != data_len {
        Err(
            DecodeError::MalformedContainer {
                found: u24_le_at(head, 3 * (n - 1)) as usize,
                expected: data_len as usize,
            },
        )
    } else {
        Ok(head_offset_seq(head, n - 1))
    }
}

/// Parses and validates a graph head: 3-byte little-endian offsets, the
/// first exactly 0, the last exactly `graph_data_len`; that trailing
/// sentinel is dropped from the result, as it addresses no chunk.
pub fn parse_graph_head(data: &[u8], graph_data_len: usize) -> (r: Result<Vec<usize>, DecodeError>)
    ensures
        (match r {
            Ok(v) => graph_head_spec(data@, graph_data_len as int) == Ok::<Seq<usize>, DecodeError>(
                v@,
            ),
            Err(e) => graph_head_spec(data@, graph_data_len as int) == Err::<
                Seq<usize>,
                DecodeError,
            >(e),
        }),
        r is Ok ==> forall|k: int| 0 <= k < r->Ok_0@.len() ==> (#[trigger] r->Ok_0@[k]) <= 0xffffff,
{
    let len = data.len();
    if len % 3 != 0 {
        return Err(DecodeError::MalformedContainer { found: len, expected: len - len % 3 });
    }
    let n = len / 3;
    if n == 0 {
        return Err(DecodeError::MalformedContainer { found: 0, expected: 3 });
    }
    let mut values: Vec<usize> = Vec::new();
    let mut k: usize = 0;
    while k < n
        invariant
            data@.len() % 3 == 0,
            len == data@.len(),
            n == len / 3,
            k <= n,
            values@ == head_offset_seq(data@, k as int),
            forall|j: int| 0 <= j < values@.len() ==> (#[trigger] values@[j]) <= 0xffffff,
        decreases n - k,
    {
        proof {
            assert(3 * (n as int) == data@.len()) by {
                vstd::arithmetic::div_mod::lemma_fundamental_div_mod(data@.len() as int, 3);
            };
        }
        let v = read_u24_le(data, 3 * k);
        values.push(v as usize);
        proof {
            assert(values@ =~= head_offset_seq(data@, k + 1));
        }
        k = k + 1;
    }
    if values[0] != 0 {
        return Err(DecodeError::MalformedContainer { found: values[0], expected: 0 });
    }
    if values[n - 1] != graph_data_len {
        return Err(
            DecodeError::MalformedContainer { found: values[n - 1], expected: graph_data_len },
        );
    }
    values.pop();
    proof {
        assert(values@ =~= head_offset_seq(data@, n - 1));
    }
    Ok(values)
}

/// What decoding the length-prefixed chunk at `offset` of `data` yields: an
/// empty buffer for the sentinel offset without touching the data; else the
/// 4-byte little-endian decompressed length read at the offset, and the
/// bytes after it Huffman-decoded to exactly that length.
pub open spec fn decode_prefixed_at(data: Seq<u8>, dict: Seq<Node>, offset: usize) -> Result<
    Seq<u8>,
    DecodeError,
> {
    if offset == EMPTY_CHUNK {
        Ok(Seq::empty())
    } else if offset > data.len() {
        Err(DecodeError::OutOfRange { offset, limit: data.len() as usize })
    } else if offset + 4 > data.len() {
        Err(DecodeError::TruncatedStream { offset })
    } else {
        Ok(
            huffman_decode(
                bits_of(data.skip(offset + 4)),
                dict,
                u32_le_at(data, offset as int) as nat,
            ),
        )
    }
}

/// What decoding the raw chunk at `offset` of `data` yields: an empty
/// buffer for the sentinel offset without touching the data; else the bytes
/// from the offset on Huffman-decoded to the caller-supplied `target`
/// length.
pub open spec fn decode_raw_at(data: Seq<u8>, dict: Seq<Node>, offset: usize, target: nat) -> Result<
    Seq<u8>,
    DecodeError,
> {
    if offset == EMPTY_CHUNK {
        Ok(Seq::empty())
    } else if offset > data.len() {
        Err(DecodeError::OutOfRange { offset, limit: data.len() as usize })
    } else {
        Ok(huffman_decode(bits_of(data.skip(offset as int)), dict, target))
    }
}

/// A sentinel-valued chunk slot decodes to an empty buffer in either mode:
/// neither mode reads a single data byte for it.
pub proof fn lemma_empty_sentinel_chunk(data: Seq<u8>, dict: Seq<Node>, target: nat)
    ensures
        decode_prefixed_at(data, dict, EMPTY_CHUNK) == Ok::<Seq<u8>, DecodeError>(Seq::empty()),
        decode_raw_at(data, dict, EMPTY_CHUNK, target) == Ok::<Seq<u8>, DecodeError>(Seq::empty()),
{
}

/// A graph head whose byte count is not a whole number of 3-byte entries,
/// or whose trailing sentinel does not equal the data blob's length, is
/// rejected as a malformed container.
pub proof fn lemma_malformed_head_rejected(head: Seq<u8>, data_len: int)
    ensures
        head.len() % 3 != 0 ==> (graph_head_spec(head, data_len) matches Err(
            DecodeError::MalformedContainer { .. },
        )),
        (head.len() % 3 == 0 && head.len() > 0 && u24_le_at(head, head.len() - 3) != data_len)
            ==> (graph_head_spec(head, data_len) matches Err(DecodeError::MalformedContainer { .. })),
{
    if head.len() % 3 == 0 && head.len() > 0 {
        let n = head.len() / 3;
        assert(3 * (n as int) == head.len()) by {
            vstd::arithmetic::div_mod::lemma_fundamental_div_mod(head.len() as int, 3);
        };
        assert(3 * (n - 1) == head.len() - 3);
    }
}

/// The decompressed chunks of one graphics resource, walked in order: the
/// raw data blob, the validated chunk offsets, the Huffman tree, and a
/// cursor that steps one chunk per decode call, can back up by one, and
/// reports exhaustion.
#[derive(Debug)]
pub struct ChunkIterator<'a> {
    data: &'a [u8],
    chunk_offsets: Vec<usize>,
    dict: Vec<Node>,
    index: usize,
}

impl<'a> ChunkIterator<'a> {
    /// The raw data blob the chunk offsets address.
    pub closed spec fn data_bytes(&self) -> Seq<u8> {
        self.data@
    }

    /// The usable chunk offsets, sentinel entry dropped.
    pub closed spec fn offsets(&self) -> Seq<usize> {
        self.chunk_offsets@
    }

    /// The decoding tree built from the dictionary blob.
    pub closed spec fn tree(&self) -> Seq<Node> {
        self.dict@
    }

    /// The cursor: how many chunks have been stepped past.
    pub closed spec fn pos(&self) -> int {
        self.index as int
    }

    /// The tree is full, the cursor in range, and every offset a 24-bit
    /// value.
    pub closed spec fn wf(&self) -> bool {
        &&& self.dict@.len() == 256
        &&& self.index <= self.chunk_offsets@.len()
        &&& forall|k: int|
            0 <= k < self.chunk_offsets@.len() ==> (#[trigger] self.chunk_offsets@[k]) <= 0xffffff
    }

    /// Validates the graph head against the data blob, builds the decoding
    /// tree from a full 1024-byte dictionary blob, and starts the cursor at
    /// the first chunk.
    pub fn new(data: &'a [u8], head: &[u8], dict: &[u8]) -> (r: Result<ChunkIterator<'a>, DecodeError>)
        ensures
            (match r {
                Ok(it) => {
                    &&& dict@.len() == DICT_BYTES
                    &&& it.wf()
                    &&& it.data_bytes() == data@
                    &&& graph_head_spec(head@, data@.len() as int) == Ok::<Seq<usize>, DecodeError>(
                        it.offsets(),
                    )
                    &&& it.tree() == dict_of(dict@)
                    &&& it.pos() == 0
                },
                Err(e) => {
                    if graph_head_spec(head@, data@.len() as int) is Err {
                        graph_head_spec(head@, data@.len() as int) == Err::<Seq<usize>, DecodeError>(
                            e,
                        )
                    } else {
                        &&& dict@.len() != DICT_BYTES
                        &&& e == (DecodeError::MalformedContainer {
                            found: dict@.len() as usize,
                            expected: DICT_BYTES,
                        })
                    }
                },
            }),
    {
        let chunk_offsets = match parse_graph_head(head, data.len()) {
            Ok(v) => v,
            Err(e) => {
                return Err(e);
            },
        };
        if dict.len() != DICT_BYTES {
            return Err(
                DecodeError::MalformedContainer { found: dict.len(), expected: DICT_BYTES },
            );
        }
        let dict_nodes = huffman::parse_dict(dict);
        Ok(ChunkIterator { data, chunk_offsets, dict: dict_nodes, index: 0 })
    }

    /// Whether the cursor has stepped past the last chunk.
    pub fn at_end(&self) -> (r: bool)
        requires
            self.wf(),
        ensures
            r == (self.pos() == self.offsets().len()),
    {
        self.index >= self.chunk_offsets.len()
    }

    /// The offset of the chunk the next decode call would take, without
    /// advancing.
    pub fn peek_next(&self) -> (r: Option<usize>)
        requires
            self.wf(),
        ensures
            (match r {
                Some(o) => self.pos() < self.offsets().len() && o == self.offsets()[self.pos()],
                None => self.pos() == self.offsets().len(),
            }),
    {
        if self.index >= self.chunk_offsets.len() {
            None
        } else {
            Some(self.chunk_offsets[self.index])
        }
    }

    /// Backs the cursor up by exactly one chunk, for a caller that probed
    /// one chunk too far; reports whether there was a step to take back.
    pub fn rewind_one(&mut self) -> (r: bool)
        requires
            old(self).wf(),
        ensures
            final(self).wf(),
            final(self).data_bytes() == old(self).data_bytes(),
            final(self).offsets() == old(self).offsets(),
            final(self).tree() == old(self).tree(),
            r == (old(self).pos() > 0),
            final(self).pos() == if old(self).pos() > 0 {
                old(self).pos() - 1
            } else {
                0int
            },
    {
        if self.index > 0 {
            self.index = self.index - 1;
            true
        } else {
            false
        }
    }

    /// Decodes the chunk under the cursor in length-prefixed mode and steps
    /// past it: the chunk's first four bytes announce the decompressed
    /// length, the rest are Huffman-coded. A cursor already past the last
    /// chunk is out of range and does not move.
    pub fn next(&mut self) -> (r: Result<Vec<u8>, DecodeError>)
        requires
            old(self).wf(),
        ensures
            final(self).wf(),
            final(self).data_bytes() == old(self).data_bytes(),
            final(self).offsets() == old(self).offsets(),
            final(self).tree() == old(self).tree(),
            (if old(self).pos() == old(self).offsets().len() {
                &&& final(self).pos() == old(self).pos()
                &&& r == Err::<Vec<u8>, DecodeError>(
                    DecodeError::OutOfRange {
                        offset: old(self).pos() as usize,
                        limit: old(self).offsets().len() as usize,
                    },
                )
            } else {
                &&& final(self).pos() == old(self).pos() + 1
                &&& (match r {
                    Ok(v) => decode_prefixed_at(
                        old(self).data_bytes(),
                        old(self).tree(),
                        old(self).offsets()[old(self).pos()],
                    ) == Ok::<Seq<u8>, DecodeError>(v@),
                    Err(e) => decode_prefixed_at(
                        old(self).data_bytes(),
                        old(self).tree(),
                        old(self).offsets()[old(self).pos()],
                    ) == Err::<Seq<u8>, DecodeError>(e),
                })
            }),
    {
        if self.index >= self.chunk_offsets.len() {
            return Err(
                DecodeError::OutOfRange { offset: self.index, limit: self.chunk_offsets.len() },
            );
        }
        let offset = self.chunk_offsets[self.index];
        self.index = self.index + 1;
        if offset == EMPTY_CHUNK {
            return Ok(Vec::new());
        }
        if offset > self.data.len() {
            return Err(DecodeError::OutOfRange { offset, limit: self.data.len() });
        }
        let chunk = slice_skip(self.data, offset);
        match parse_length_prefix(chunk) {
            Err(_) => Err(DecodeError::TruncatedStream { offset }),
            Ok((n, rest)) => {
                proof {
                    assert(rest@ =~= self.data@.skip(offset + 4));
                }
                Ok(huffman::decompress(rest, self.dict.as_slice(), n as usize))
            },
        }
    }

    /// Decodes the chunk under the cursor in raw mode and steps past it:
    /// no length header, the caller supplies the decoded length out of
    /// band. A cursor already past the last chunk is out of range and does
    /// not move.
    pub fn next_with_length(&mut self, desired_length: usize) -> (r: Result<Vec<u8>, DecodeError>)
        requires
            old(self).wf(),
        ensures
            final(self).wf(),
            final(self).data_bytes() == old(self).data_bytes(),
            final(self).offsets() == old(self).offsets(),
            final(self).tree() == old(self).tree(),
            (if old(self).pos() == old(self).offsets().len() {
                &&& final(self).pos() == old(self).pos()
                &&& r == Err::<Vec<u8>, DecodeError>(
                    DecodeError::OutOfRange {
                        offset: old(self).pos() as usize,
                        limit: old(self).offsets().len() as usize,
                    },
                )
            } else {
                &&& final(self).pos() == old(self).pos() + 1
                &&& (match r {
                    Ok(v) => decode_raw_at(
                        old(self).data_bytes(),
                        old(self).tree(),
                        old(self).offsets()[old(self).pos()],
                        desired_length as nat,
                    ) == Ok::<Seq<u8>, DecodeError>(v@),
                    Err(e) => decode_raw_at(
                        old(self).data_bytes(),
                        old(self).tree(),
                        old(self).offsets()[old(self).pos()],
                        desired_length as nat,
                    ) == Err::<Seq<u8>, DecodeError>(e),
                })
            }),
    {
        if self.index >= self.chunk_offsets.len() {
            return Err(
                DecodeError::OutOfRange { offset: self.index, limit: self.chunk_offsets.len() },
            );
        }
        let offset = self.chunk_offsets[self.index];
        self.index = self.index + 1;
        if offset == EMPTY_CHUNK {
            return Ok(Vec::new());
        }
        if offset > self.data.len() {
            return Err(DecodeError::OutOfRange { offset, limit: self.data.len() });
        }
        let chunk = slice_skip(self.data, offset);
        Ok(huffman::decompress(chunk, self.dict.as_slice(), desired_length))
    }
}

} // verus!
