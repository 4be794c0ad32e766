//! The size tables stored in the first chunks of a graphics resource, and
//! the length heuristic used while walking its auto-length tile sections.

use vstd::prelude::*;

use crate::framing::word_le;

verus! {

/// Decoded lengths that still count as one unmasked 16x16 tile while
/// walking that section: the exact tile is 128 bytes, and an auto-length
/// decode may run a little past it.
pub const TILE16_LEN_MIN: usize = 128;

pub const TILE16_LEN_MAX: usize = 159;

/// Decoded lengths that still count as one masked 16x16 tile: the exact
/// tile is 160 bytes, with the same slack past it.
pub const TILE16_MASKED_LEN_MIN: usize = 160;

pub const TILE16_MASKED_LEN_MAX: usize = 176;

/// How one decoded auto-length chunk is read while walking a tile section.
#[derive(Debug, Clone, Copy, PartialEq, Eq, Structural)]
pub enum TileScan {
    Tile,
    EmptySlot,
    SectionEnd,
}

/// How a decoded chunk of `len` bytes is classified against a tile
/// section whose lengths lie in `min ..= max`: a tile inside the range, an
/// empty slot at zero, and the end of the section anywhere else.
pub open spec fn classify_tile_len(len: usize, min: usize, max: usize) -> TileScan {
    if min <= len && len <= max {
        TileScan::Tile
    } else if len == 0 {
        TileScan::EmptySlot
    } else {
        TileScan::SectionEnd
    }
}

/// Classifies one decoded auto-length chunk against a tile section's
/// length range.
pub fn classify_tile_chunk(len: usize, min: usize, max: usize) -> (r: TileScan)
    ensures
        r == classify_tile_len(len, min, max),
{
    if min <= len && len <= max {
        TileScan::Tile
    } else if len == 0 {
        TileScan::EmptySlot
    } else {
        TileScan::SectionEnd
    }
}

/// One entry of the unmasked or masked picture table: the picture's width
/// in 8-pixel bytes and its height in pixels.
#[derive(Debug, Clone, Copy, PartialEq, Eq, Structural)]
pub struct PictureTableEntry {
    pub width_div_8: u32,
    pub height: u32,
}

/// The entry stored in record `k` of a picture table of 4-byte records.
pub open spec fn picture_entry_at(s: Seq<u8>, k: int) -> PictureTableEntry {
    PictureTableEntry {
        width_div_8: word_le(s[4 * k], s[4 * k + 1]) as u32,
        height: word_le(s[4 * k + 2], s[4 * k + 3]) as u32,
    }
}

/// The whole picture table a chunk holds; trailing bytes short of a whole
/// record are dropped.
pub open spec fn picture_table_of(s: Seq<u8>) -> Seq<PictureTableEntry> {
    Seq::new((s.len() / 4) as nat, |k: int| picture_entry_at(s, k))
}

/// Reads the picture table from its decoded chunk: one 4-byte record per
/// picture, two little-endian words each.
pub fn parse_picture_table(data: &[u8]) -> (r: Vec<PictureTableEntry>)
    ensures
        r@ == picture_table_of(data@),
{
    let len = data.len();
    let n = len / 4;
    let mut entries: Vec<PictureTableEntry> = Vec::new();
    let mut k: usize = 0;
    while k < n
        invariant
            len == data@.len(),
            n == len / 4,
            k <= n,
            entries@ == picture_table_of(data@).take(k as int),
        decreases n - k,
    {
        proof {
            assert(4 * (n as int) <= len) by {
                vstd::arithmetic::div_mod::lemma_fundamental_div_mod(len as int, 4);
                vstd::arithmetic::div_mod::lemma_mod_bound(len as int, 4);
            };
        }
        let width_div_8 = crate::framing::read_u16_le(data, 4 * k) as u32;
        let height = crate::framing::read_u16_le(data, 4 * k + 2) as u32;
        entries.push(PictureTableEntry { width_div_8, height });
        proof {
            assert(entries@ =~= picture_table_of(data@).take(k + 1));
        }
        k = k + 1;
    }
    proof {
        assert(entries@ =~= picture_table_of(data@));
    }
    entries
}

/// One entry of the sprite table: the drawing size plus the placement and
/// clipping words the game engine reads (kept for completeness, unused by
/// decoding).
#[derive(Debug, Clone, Copy, PartialEq, Eq, Structural)]
pub struct SpriteTableEntry {
    pub width_div_8: u32,
    pub height: u32,
    pub _x_offset: u32,
    pub _y_offset: u32,
    pub _clip_left: u32,
    pub _clip_top: u32,
    pub _clip_right: u32,
    pub _clip_bottom: u32,
    pub _shifts: u32,
}

/// The entry stored in record `k` of a sprite table of 18-byte records.
pub open spec fn sprite_entry_at(s: Seq<u8>, k: int) -> SpriteTableEntry {
    SpriteTableEntry {
        width_div_8: word_le(s[18 * k], s[18 * k + 1]) as u32,
        height: word_le(s[18 * k + 2], s[18 * k + 3]) as u32,
        _x_offset: word_le(s[18 * k + 4], s[18 * k + 5]) as u32,
        _y_offset: word_le(s[18 * k + 6], s[18 * k + 7]) as u32,
        _clip_left: word_le(s[18 * k + 8], s[18 * k + 9]) as u32,
        _clip_top: word_le(s[18 * k + 10], s[18 * k + 11]) as u32,
        _clip_right: word_le(s[18 * k + 12], s[18 * k + 13]) as u32,
        _clip_bottom: word_le(s[18 * k + 14], s[18 * k + 15]) as u32,
        _shifts: word_le(s[18 * k + 16], s[18 * k + 17]) as u32,
    }
}

/// The whole sprite table a chunk holds; trailing bytes short of a whole
/// record are dropped.
pub open spec fn sprite_table_of(s: Seq<u8>) -> Seq<SpriteTableEntry> {
    Seq::new((s.len() / 18) as nat, |k: int| sprite_entry_at(s, k))
}

/// Reads the sprite table from its decoded chunk: one 18-byte record per
/// sprite, nine little-endian words each.
pub fn parse_sprite_table(data: &[u8]) -> (r: Vec<SpriteTableEntry>)
    ensures
        r@ == sprite_table_of(data@),
{
    let len = data.len();
    let n = len / 18;
    let mut entries: Vec<SpriteTableEntry> = Vec::new();
    let mut k: usize = 0;
    while k < n
        invariant
            len == data@.len(),
            n == len / 18,
            k <= n,
            entries@ == sprite_table_of(data@).take(k as int),
        decreases n - k,
    {
        proof {
            assert(18 * (n as int) <= len) by {
                vstd::arithmetic::div_mod::lemma_fundamental_div_mod(len as int, 18);
                vstd::arithmetic::div_mod::lemma_mod_bound(len as int, 18);
            };
        }
        let base = 18 * k;
        entries.push(
            SpriteTableEntry {
                width_div_8: crate::framing::read_u16_le(data, base) as u32,
                height: crate::framing::read_u16_le(data, base + 2) as u32,
                _x_offset: crate::framing::read_u16_le(data, base + 4) as u32,
                _y_offset: crate::framing::read_u16_le(data, base + 6) as u32,
                _clip_left: crate::framing::read_u16_le(data, base + 8) as u32,
                _clip_top: crate::framing::read_u16_le(data, base + 10) as u32,
                _clip_right: crate::framing::read_u16_le(data, base + 12) as u32,
                _clip_bottom: crate::framing::read_u16_le(data, base + 14) as u32,
                _shifts: crate::framing::read_u16_le(data, base + 16) as u32,
            },
        );
        proof {
            assert(entries@ =~= sprite_table_of(data@).take(k + 1));
        }
        k = k + 1;
    }
    proof {
        assert(entries@ =~= sprite_table_of(data@));
    }
    entries
}

} // verus!
