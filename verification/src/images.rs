//! Combination of planar EGA data into indexed pixels: each plane
//! contributes one bit per pixel, most-significant bit of each plane byte
//! first, plane `p` filling bit `p` of the pixel's colour index.

use vstd::prelude::*;

verus! {

/// Whether plane `p` sets the bit of pixel `px`: bit `7 - px % 8` of byte
/// `px / 8` of that plane, each plane `bpp` bytes long.
pub open spec fn plane_bit(data: Seq<u8>, bpp: int, p: int, px: int) -> bool {
    data[p * bpp + px / 8] & (0x80u8 >> ((px % 8) as u8)) != 0
}

/// The single-bit mask plane `p` contributes to a pixel's index.
pub open spec fn plane_mask_of(p: int) -> u8 {
    1u8 << (p as u8)
}

/// The colour index of pixel `px` once the first `nplanes` planes have
/// contributed their bits.
pub open spec fn pixel_value(data: Seq<u8>, bpp: int, nplanes: int, px: int) -> u8
    decreases nplanes,
{
    if nplanes <= 0 {
        0u8
    } else {
        pixel_value(data, bpp, nplanes - 1, px) | (if plane_bit(data, bpp, nplanes - 1, px) {
            plane_mask_of(nplanes - 1)
        } else {
            0u8
        })
    }
}

/// How many whole planes the buffer holds, capped at the `planes` the
/// caller asked for.
pub open spec fn plane_count(data_len: int, bpp: int, planes: int) -> int {
    if data_len / bpp < planes {
        data_len / bpp
    } else {
        planes
    }
}

proof fn lemma_or_zero(x: u8)
    by (bit_vector)
    ensures
        x | 0u8 == x,
{
}

/// Combines up to `planes` whole planes of `width_div_8 * height` bytes
/// each into one colour index per pixel, plane `p` filling bit `p`, pixels
/// in row order, eight per plane byte, most-significant bit leftmost.
pub fn combine_planes(data: &[u8], width_div_8: usize, height: usize, planes: usize) -> (r: Vec<
    u8,
>)
    requires
        width_div_8 >= 1,
        height >= 1,
        planes <= 8,
        8 * (width_div_8 * height) <= usize::MAX,
    ensures
        r@.len() == 8 * (width_div_8 * height),
        forall|px: int|
            0 <= px < r@.len() ==> r@[px] == pixel_value(
                data@,
                (width_div_8 * height) as int,
                plane_count(data@.len() as int, (width_div_8 * height) as int, planes as int),
                px,
            ),
{
    let bpp = width_div_8 * height;
    proof {
        assert(width_div_8 * height >= 1) by (nonlinear_arith)
            requires
                width_div_8 >= 1,
                height >= 1,
        ;
    }
    let total = 8 * bpp;
    let dlen = data.len();
    let mut avail = dlen / bpp;
    if avail > planes {
        avail = planes;
    }
    proof {
        vstd::arithmetic::div_mod::lemma_fundamental_div_mod(data@.len() as int, bpp as int);
        vstd::arithmetic::div_mod::lemma_mod_bound(data@.len() as int, bpp as int);
        vstd::arithmetic::mul::lemma_mul_inequality(
            avail as int,
            data@.len() as int / (bpp as int),
            bpp as int,
        );
        vstd::arithmetic::mul::lemma_mul_is_commutative(
            data@.len() as int / (bpp as int),
            bpp as int,
        );
    }
    let mut out: Vec<u8> = Vec::new();
    let mut px: usize = 0;
    while px < total
        invariant
            1 <= bpp,
            total == 8 * bpp,
            avail == plane_count(data@.len() as int, bpp as int, planes as int),
            avail <= planes <= 8,
            dlen == data@.len(),
            (avail as int) * (bpp as int) <= dlen,
            px <= total,
            out@.len() == px,
            forall|i: int|
                0 <= i < px ==> out@[i] == pixel_value(data@, bpp as int, avail as int, i),
        decreases total - px,
    {
        let byte_index = px / 8;
        let bitmask = 0x80u8 >> ((px % 8) as u8);
        assert(byte_index < bpp);
        let mut val: u8 = 0;
        let mut p: usize = 0;
        while p < avail
            invariant
                1 <= bpp,
                byte_index < bpp,
                byte_index == px / 8,
                bitmask == 0x80u8 >> ((px as int % 8) as u8),
                avail <= 8,
                dlen == data@.len(),
                (avail as int) * (bpp as int) <= dlen,
                p <= avail,
                val == pixel_value(data@, bpp as int, p as int, px as int),
            decreases avail - p,
        {
            proof {
                vstd::arithmetic::mul::lemma_mul_inequality(p as int + 1, avail as int, bpp as int);
                assert((p as int + 1) * (bpp as int) == (p as int) * (bpp as int) + bpp)
                    by (nonlinear_arith);
            }
            let byte = data[p * bpp + byte_index];
            if byte & bitmask != 0 {
                val = val | (1u8 << (p as u8));
            } else {
                proof {
                    lemma_or_zero(val);
                }
            }
            p = p + 1;
        }
        out.push(val);
        px = px + 1;
    }
    out
}

} // verus!
