//! A cursor over the individual bits of a byte buffer, least-significant bit
//! first within each byte, bytes in forward order.

use vstd::prelude::*;

verus! {

/// Whether bit `i` of `bytes` is set, counting LSB-first inside each byte.
pub open spec fn bit_at(bytes: Seq<u8>, i: int) -> bool {
    (bytes[i / 8] >> ((i % 8) as u8)) & 1 == 1
}

/// Every bit of `bytes` in stream order: eight booleans per byte, the
/// least-significant bit of each byte first.
pub open spec fn bits_of(bytes: Seq<u8>) -> Seq<bool> {
    Seq::new(bytes.len() * 8, |i: int| bit_at(bytes, i))
}

/// The bit expansion of two buffers laid end to end is the two expansions
/// laid end to end: bits never straddle a byte boundary.
pub proof fn lemma_bits_of_append(a: Seq<u8>, b: Seq<u8>)
    ensures
        bits_of(a + b) == bits_of(a) + bits_of(b),
{
    let la = a.len() as int;
    assert forall|i: int| 0 <= i < (la + b.len()) * 8 implies bits_of(a + b)[i] == (bits_of(a)
        + bits_of(b))[i] by {
        if i < 8 * la {
            assert(i / 8 < la);
            assert((a + b)[i / 8] == a[i / 8]);
        } else {
            let j = i - 8 * la;
            assert(i / 8 == j / 8 + la && i % 8 == j % 8) by {
                vstd::arithmetic::div_mod::lemma_fundamental_div_mod(j, 8);
                vstd::arithmetic::div_mod::lemma_fundamental_div_mod_converse(
                    i,
                    8,
                    j / 8 + la,
                    j % 8,
                );
            };
            assert((a + b)[i / 8] == b[j / 8]);
        }
    };
    assert(bits_of(a + b) =~= bits_of(a) + bits_of(b));
}

/// A position inside a byte buffer, tracked as a byte index plus a single-bit
/// mask inside that byte. Yields one boolean per bit until the buffer is
/// exhausted; an empty buffer yields nothing.
pub struct BitStream<'a> {
    data: &'a [u8],
    byte_index: usize,
    bit_mask: u8,
}

impl<'a> BitStream<'a> {
    /// The bytes this stream walks.
    pub closed spec fn bytes(&self) -> Seq<u8> {
        self.data@
    }

    /// Which bit of the current byte the mask selects.
    closed spec fn mask_index(&self) -> int {
        if self.bit_mask == 1 {
            0
        } else if self.bit_mask == 2 {
            1
        } else if self.bit_mask == 4 {
            2
        } else if self.bit_mask == 8 {
            3
        } else if self.bit_mask == 16 {
            4
        } else if self.bit_mask == 32 {
            5
        } else if self.bit_mask == 64 {
            6
        } else {
            7
        }
    }

    /// How many bits have been yielded so far.
    pub closed spec fn pos(&self) -> int {
        8 * self.byte_index + self.mask_index()
    }

    /// The mask holds a single set bit and the cursor sits inside the buffer,
    /// or just past its end with the mask reset.
    pub closed spec fn wf(&self) -> bool {
        &&& (self.bit_mask == 1 || self.bit_mask == 2 || self.bit_mask == 4 || self.bit_mask == 8
            || self.bit_mask == 16 || self.bit_mask == 32 || self.bit_mask == 64
            || self.bit_mask == 128)
        &&& self.byte_index <= self.data@.len()
        &&& self.byte_index == self.data@.len() ==> self.bit_mask == 1
    }

    /// A fresh stream at the first bit of `data`.
    pub fn new(data: &'a [u8]) -> (r: Self)
        ensures
            r.wf(),
            r.bytes() == data@,
            r.pos() == 0,
    {
        BitStream { data, byte_index: 0, bit_mask: 1 }
    }

    /// Yields the next bit and advances, or reports exhaustion.
    pub fn next(&mut self) -> (r: Option<bool>)
        requires
            old(self).wf(),
        ensures
            final(self).wf(),
            final(self).bytes() == old(self).bytes(),
            (match r {
                Some(b) => {
                    &&& old(self).pos() < old(self).bytes().len() * 8
                    &&& b == bits_of(old(self).bytes())[old(self).pos()]
                    &&& final(self).pos() == old(self).pos() + 1
                },
                None => {
                    &&& old(self).pos() == old(self).bytes().len() * 8
                    &&& final(self).pos() == old(self).pos()
                },
            }),
    {
        if self.byte_index >= self.data.len() {
            return None;
        }
        let byte = self.data[self.byte_index];
        let mask = self.bit_mask;
        let is_set = byte & mask != 0;
        proof {
            let k: u8 = self.mask_index() as u8;
            assert((byte & mask != 0) == ((byte >> k) & 1 == 1)) by (bit_vector)
                requires
                    (mask == 1 && k == 0) || (mask == 2 && k == 1) || (mask == 4 && k == 2)
                        || (mask == 8 && k == 3) || (mask == 16 && k == 4)
                        || (mask == 32 && k == 5) || (mask == 64 && k == 6)
                        || (mask == 128 && k == 7),
            ;
            assert(self.pos() / 8 == self.byte_index && self.pos() % 8 == k as int);
        }
        if self.bit_mask == 128 {
            self.byte_index = self.byte_index + 1;
            self.bit_mask = 1;
        } else {
            let shifted = self.bit_mask << 1u8;
            proof {
                let m = self.bit_mask;
                assert(m < 128 ==> (m << 1u8) == 2 * m) by (bit_vector);
            }
            self.bit_mask = shifted;
        }
        Some(is_set)
    }
}

} // verus!
