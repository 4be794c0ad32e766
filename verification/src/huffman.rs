//! Canonical binary-tree Huffman decoding over a fixed 256-node table,
//! driven LSB-first by a [`BitStream`], stopping exactly at a caller-supplied
//! target length.

use vstd::prelude::*;

use crate::bitstream::{bits_of, BitStream};

verus! {

/// The slot of the table where every walk of the tree starts.
pub const START_NODE: usize = 254;

/// One edge of a tree node: either a literal output byte, or the index of
/// the node to visit next.
#[derive(Debug, Clone, Copy, PartialEq, Eq, Structural)]
pub enum Link {
    Leaf(u8),
    Branch(u8),
}

/// One node of the decoding tree, read from a 4-byte dictionary record.
#[derive(Debug, Clone, Copy, PartialEq, Eq, Structural)]
pub struct Node {
    pub left: Link,
    pub right: Link,
}

/// The edge a dictionary `(value, flag)` byte pair describes: a flag of 0
/// marks the value as a literal leaf byte, anything else as a branch index.
pub open spec fn link_of(value: u8, flag: u8) -> Link {
    if flag == 0 {
        Link::Leaf(value)
    } else {
        Link::Branch(value)
    }
}

/// The node stored in record `k` of a dictionary blob of 4-byte records
/// `[left_value, left_flag, right_value, right_flag]`.
pub open spec fn node_at(s: Seq<u8>, k: int) -> Node {
    Node { left: link_of(s[4 * k], s[4 * k + 1]), right: link_of(s[4 * k + 2], s[4 * k + 3]) }
}

/// The whole decoding table a dictionary blob describes, in record order.
pub open spec fn dict_of(s: Seq<u8>) -> Seq<Node> {
    Seq::new((s.len() / 4) as nat, |k: int| node_at(s, k))
}

/// What walking the tree from `node` over `bits` emits, stopping as soon as
/// `remaining` more bytes have been emitted or the bits run out.
pub open spec fn decode_from(bits: Seq<bool>, dict: Seq<Node>, node: int, remaining: nat) -> Seq<u8>
    decreases bits.len(),
{
    if remaining == 0 || bits.len() == 0 {
        Seq::empty()
    } else {
        let link = if bits[0] {
            dict[node].right
        } else {
            dict[node].left
        };
        match link {
            Link::Leaf(v) => seq![v] + decode_from(
                bits.drop_first(),
                dict,
                START_NODE as int,
                (remaining - 1) as nat,
            ),
            Link::Branch(b) => decode_from(bits.drop_first(), dict, b as int, remaining),
        }
    }
}

/// What decoding `bits` against `dict` emits: a walk from the start node,
/// cut off at `target` bytes.
pub open spec fn huffman_decode(bits: Seq<bool>, dict: Seq<Node>, target: nat) -> Seq<u8> {
    decode_from(bits, dict, START_NODE as int, target)
}

/// The edge a `(value, flag)` byte pair describes.
fn link_from(value: u8, flag: u8) -> (r: Link)
    ensures
        r == link_of(value, flag),
{
    if flag == 0 {
        Link::Leaf(value)
    } else {
        Link::Branch(value)
    }
}

/// Builds the decoding table from a dictionary blob of 4-byte records, one
/// per node in node-index order.
pub fn parse_dict(data: &[u8]) -> (r: Vec<Node>)
    requires
        data@.len() % 4 == 0,
    ensures
        r@ == dict_of(data@),
{
    let mut nodes: Vec<Node> = Vec::new();
    let len = data.len();
    let n = len / 4;
    let mut k: usize = 0;
    while k < n
        invariant
            data@.len() % 4 == 0,
            len == data@.len(),
            n == len / 4,
            k <= n,
            nodes@ == dict_of(data@).take(k as int),
        decreases n - k,
    {
        proof {
            assert(4 * (n as int) == data@.len()) by {
                vstd::arithmetic::div_mod::lemma_fundamental_div_mod(data@.len() as int, 4);
            };
        }
        let left = link_from(data[4 * k], data[4 * k + 1]);
        let right = link_from(data[4 * k + 2], data[4 * k + 3]);
        nodes.push(Node { left, right });
        proof {
            assert(nodes@ =~= dict_of(data@).take(k + 1));
        }
        k = k + 1;
    }
    proof {
        assert(nodes@ =~= dict_of(data@));
    }
    nodes
}

/// Decodes `data` against a full 256-node table until `desired_length` bytes
/// have been emitted or the bits run out, whichever comes first. Bits beyond
/// the last needed one are never consumed or interpreted.
pub fn decompress(data: &[u8], dict: &[Node], desired_length: usize) -> (r: Vec<u8>)
    requires
        dict@.len() == 256,
    ensures
        r@ == huffman_decode(bits_of(data@), dict@, desired_length as nat),
{
    let mut output: Vec<u8> = Vec::new();
    if desired_length == 0 {
        return output;
    }
    let mut node_index: usize = START_NODE;
    let mut stream = BitStream::new(data);
    let ghost bits = bits_of(data@);
    proof {
        assert(bits.skip(0) =~= bits);
        assert(output@ + decode_from(bits, dict@, START_NODE as int, desired_length as nat)
            =~= decode_from(bits, dict@, START_NODE as int, desired_length as nat));
    }
    loop
        invariant
            stream.wf(),
            stream.bytes() == data@,
            bits == bits_of(data@),
            0 <= stream.pos() <= bits.len(),
            dict@.len() == 256,
            node_index < 256,
            output@.len() < desired_length,
            huffman_decode(bits, dict@, desired_length as nat) == output@ + decode_from(
                bits.skip(stream.pos()),
                dict@,
                node_index as int,
                (desired_length - output@.len()) as nat,
            ),
        decreases bits.len() - stream.pos(),
    {
        let ghost pos = stream.pos();
        match stream.next() {
            None => {
                proof {
                    assert(bits.skip(pos).len() == 0);
                }
                return output;
            },
            Some(bit) => {
                proof {
                    assert(bits.skip(pos)[0] == bits[pos]);
                    assert(bits.skip(pos).drop_first() =~= bits.skip(pos + 1));
                }
                let node = dict[node_index];
                let link = if bit {
                    node.right
                } else {
                    node.left
                };
                match link {
                    Link::Leaf(v) => {
                        let ghost tail = decode_from(
                            bits.skip(pos + 1),
                            dict@,
                            START_NODE as int,
                            (desired_length - output@.len() - 1) as nat,
                        );
                        proof {
                            assert(output@ + (seq![v] + tail) =~= (output@ + seq![v]) + tail);
                        }
                        output.push(v);
                        if output.len() == desired_length {
                            proof {
                                assert(output@ + tail =~= output@);
                            }
                            return output;
                        }
                        node_index = START_NODE;
                    },
                    Link::Branch(b) => {
                        node_index = b as usize;
                    },
                }
            },
        }
    }
}

/// The decoded output never grows past the target length, whatever the bits
/// hold.
proof fn lemma_decode_from_len(bits: Seq<bool>, dict: Seq<Node>, node: int, remaining: nat)
    ensures
        decode_from(bits, dict, node, remaining).len() <= remaining,
    decreases bits.len(),
{
    if remaining == 0 || bits.len() == 0 {
    } else {
        let link = if bits[0] {
            dict[node].right
        } else {
            dict[node].left
        };
        match link {
            Link::Leaf(_) => {
                lemma_decode_from_len(bits.drop_first(), dict, START_NODE as int, (remaining - 1) as nat);
            },
            Link::Branch(b) => {
                lemma_decode_from_len(bits.drop_first(), dict, b as int, remaining);
            },
        }
    }
}

/// Decoding never emits more than `target` bytes, regardless of the input
/// bits.
pub proof fn lemma_decode_bounded(bits: Seq<bool>, dict: Seq<Node>, target: nat)
    ensures
        huffman_decode(bits, dict, target).len() <= target,
{
    lemma_decode_from_len(bits, dict, START_NODE as int, target);
}

proof fn lemma_decode_from_append(
    bits: Seq<bool>,
    extra: Seq<bool>,
    dict: Seq<Node>,
    node: int,
    remaining: nat,
)
    requires
        decode_from(bits, dict, node, remaining).len() == remaining,
    ensures
        decode_from(bits + extra, dict, node, remaining) == decode_from(bits, dict, node, remaining),
    decreases bits.len(),
{
    if remaining == 0 {
    } else if bits.len() == 0 {
        assert(decode_from(bits, dict, node, remaining).len() == 0);
    } else {
        assert((bits + extra).len() > 0);
        assert((bits + extra)[0] == bits[0]);
        assert((bits + extra).drop_first() =~= bits.drop_first() + extra);
        let link = if bits[0] {
            dict[node].right
        } else {
            dict[node].left
        };
        match link {
            Link::Leaf(v) => {
                lemma_decode_from_append(
                    bits.drop_first(),
                    extra,
                    dict,
                    START_NODE as int,
                    (remaining - 1) as nat,
                );
            },
            Link::Branch(b) => {
                lemma_decode_from_append(bits.drop_first(), extra, dict, b as int, remaining);
            },
        }
    }
}

/// A buffer holding exactly enough bits to reach the target length decodes
/// to the same output with or without garbage bytes appended after it: the
/// trailing bits are never interpreted.
pub proof fn lemma_trailing_garbage_ignored(
    data: Seq<u8>,
    garbage: Seq<u8>,
    dict: Seq<Node>,
    target: nat,
)
    requires
        huffman_decode(bits_of(data), dict, target).len() == target,
    ensures
        huffman_decode(bits_of(data + garbage), dict, target) == huffman_decode(
            bits_of(data),
            dict,
            target,
        ),
{
    crate::bitstream::lemma_bits_of_append(data, garbage);
    lemma_decode_from_append(bits_of(data), bits_of(garbage), dict, START_NODE as int, target);
}

} // verus!
