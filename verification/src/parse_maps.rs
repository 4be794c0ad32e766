//! Decompression and assembly of map planes: each compressed plane goes
//! through back-reference expansion, then run-length word expansion, and
//! must come out as exactly one 16-bit word per map tile; three such planes
//! combine into a grid of tiles.

use vstd::prelude::*;

use crate::carmackization;
use crate::error::DecodeError;
use crate::framing::{read_u16_le, read_u32_le, u32_le_at, word_le};
use crate::rlew;

verus! {

/// The smallest map offset the map head treats as unused.
pub const MAP_OFFSET_LIMIT: usize = 9999999;

/// The plausible offsets among the first `k` records of a map head, in
/// order: a zero or absurdly large entry marks an unused slot and is
/// dropped. Records are 4-byte little-endian values starting at byte 2.
pub open spec fn maphead_offsets(data: Seq<u8>, k: int) -> Seq<usize>
    decreases k,
{
    if k <= 0 {
        Seq::empty()
    } else {
        let v = u32_le_at(data, 2 + 4 * (k - 1));
        maphead_offsets(data, k - 1) + (if 1 <= v <= MAP_OFFSET_LIMIT {
            seq![v as usize]
        } else {
            Seq::empty()
        })
    }
}

/// The map head embedded in the executable: the run-length key for every
/// map, and the file offset of each map inside the maps resource.
#[derive(Debug)]
pub struct MapHead {
    pub rlew_key: u16,
    pub offsets: Vec<usize>,
}

impl MapHead {
    /// Reads the run-length key word and the plausible map offsets from the
    /// map-head blob; a blob too short to hold the key is malformed.
    pub fn parse(data: &[u8]) -> (r: Result<MapHead, DecodeError>)
        ensures
            (match r {
                Ok(h) => {
                    &&& data@.len() >= 2
                    &&& h.rlew_key == word_le(data@[0], data@[1])
                    &&& h.offsets@ == maphead_offsets(data@, (data@.len() - 2) / 4)
                },
                Err(e) => data@.len() < 2 && e == (DecodeError::MalformedContainer {
                    found: data@.len() as usize,
                    expected: 2,
                }),
            }),
    {
        let len = data.len();
        if len < 2 {
            return Err(DecodeError::MalformedContainer { found: len, expected: 2 });
        }
        let rlew_key = read_u16_le(data, 0);
        let n = (len - 2) / 4;
        let mut offsets: Vec<usize> = Vec::new();
        let mut k: usize = 0;
        while k < n
            invariant
                2 <= len == data@.len(),
                n == (len - 2) / 4,
                k <= n,
                offsets@ == maphead_offsets(data@, k as int),
            decreases n - k,
        {
            proof {
                assert(4 * (n as int) <= len - 2) by {
                    vstd::arithmetic::div_mod::lemma_fundamental_div_mod((len - 2) as int, 4);
                    vstd::arithmetic::div_mod::lemma_mod_bound((len - 2) as int, 4);
                };
            }
            let v = read_u32_le(data, 2 + 4 * k);
            let vu = v as usize;
            if 1 <= vu && vu <= MAP_OFFSET_LIMIT {
                offsets.push(vu);
                proof {
                    assert(offsets@ =~= maphead_offsets(data@, k + 1));
                }
            } else {
                proof {
                    assert(offsets@ =~= maphead_offsets(data@, k + 1));
                }
            }
            k = k + 1;
        }
        Ok(MapHead { rlew_key, offsets })
    }
}

/// The header of one map inside the maps resource: where each of its three
/// compressed planes lies, the map's size in tiles, and its raw name bytes.
#[derive(Debug)]
pub struct Header {
    pub offset_plane_0: usize,
    pub offset_plane_1: usize,
    pub offset_plane_2: usize,
    pub len_plane_0: usize,
    pub len_plane_1: usize,
    pub len_plane_2: usize,
    pub width_tiles: usize,
    pub height_tiles: usize,
    pub name: Vec<u8>,
}

impl Header {
    /// Reads one map header: three 32-bit plane offsets, three 16-bit
    /// compressed plane lengths, the width and height in tiles, and the
    /// name bytes up to their terminating NUL.
    pub fn parse(data: &[u8]) -> (r: Result<Header, DecodeError>)
        ensures
            (match r {
                Ok(h) => {
                    &&& data@.len() >= 22
                    &&& h.offset_plane_0 == u32_le_at(data@, 0)
                    &&& h.offset_plane_1 == u32_le_at(data@, 4)
                    &&& h.offset_plane_2 == u32_le_at(data@, 8)
                    &&& h.len_plane_0 == word_le(data@[12], data@[13])
                    &&& h.len_plane_1 == word_le(data@[14], data@[15])
                    &&& h.len_plane_2 == word_le(data@[16], data@[17])
                    &&& h.width_tiles == word_le(data@[18], data@[19])
                    &&& h.height_tiles == word_le(data@[20], data@[21])
                    &&& h.name@ == data@.subrange(22, 22 + h.name@.len() as int)
                    &&& forall|j: int| 0 <= j < h.name@.len() ==> h.name@[j] != 0
                    &&& (22 + h.name@.len() == data@.len() || data@[22 + h.name@.len() as int] == 0)
                },
                Err(e) => data@.len() < 22 && e == (DecodeError::MalformedContainer {
                    found: data@.len() as usize,
                    expected: 22,
                }),
            }),
    {
        let len = data.len();
        if len < 22 {
            return Err(DecodeError::MalformedContainer { found: len, expected: 22 });
        }
        let mut name: Vec<u8> = Vec::new();
        let mut i: usize = 22;
        while i < len && data[i] != 0
            invariant
                22 <= i <= len,
                len == data@.len(),
                name@ == data@.subrange(22, i as int),
                forall|j: int| 0 <= j < name@.len() ==> name@[j] != 0,
            decreases len - i,
        {
            name.push(data[i]);
            proof {
                assert(name@ =~= data@.subrange(22, i + 1));
            }
            i = i + 1;
        }
        Ok(
            Header {
                offset_plane_0: read_u32_le(data, 0) as usize,
                offset_plane_1: read_u32_le(data, 4) as usize,
                offset_plane_2: read_u32_le(data, 8) as usize,
                len_plane_0: read_u16_le(data, 12) as usize,
                len_plane_1: read_u16_le(data, 14) as usize,
                len_plane_2: read_u16_le(data, 16) as usize,
                width_tiles: read_u16_le(data, 18) as usize,
                height_tiles: read_u16_le(data, 20) as usize,
                name,
            },
        )
    }
}

/// The 16-bit little-endian words a byte buffer holds, in order.
pub open spec fn words_of(bytes: Seq<u8>) -> Seq<u16> {
    Seq::new((bytes.len() / 2) as nat, |k: int| word_le(bytes[2 * k], bytes[2 * k + 1]) as u16)
}

/// What the two expansion stages make of one compressed plane: the
/// back-reference expansion first, its output fed whole to the run-length
/// word expansion; the first failure wins.
pub open spec fn plane_spec(compressed: Seq<u8>, rlew_key: u16) -> Result<Seq<u8>, DecodeError> {
    match carmackization::expanded(compressed) {
        Ok(half) => rlew::expanded(half, rlew_key),
        Err(e) => Err(e),
    }
}

/// Decompresses one map plane and reads it as tile words: back-reference
/// expansion, then run-length word expansion against `rlew_key`, then the
/// check that the result holds exactly `expected_tiles` 16-bit words.
pub fn parse_plane(compressed: &[u8], rlew_key: u16, expected_tiles: usize) -> (r: Result<
    Vec<u16>,
    DecodeError,
>)
    requires
        2 * expected_tiles <= usize::MAX,
    ensures
        (match r {
            Ok(v) => {
                &&& plane_spec(compressed@, rlew_key) is Ok
                &&& plane_spec(compressed@, rlew_key)->Ok_0.len() == 2 * expected_tiles
                &&& v@ == words_of(plane_spec(compressed@, rlew_key)->Ok_0)
            },
            Err(e) => {
                if plane_spec(compressed@, rlew_key) is Err {
                    e == plane_spec(compressed@, rlew_key)->Err_0
                } else {
                    &&& plane_spec(compressed@, rlew_key)->Ok_0.len() != 2 * expected_tiles
                    &&& e == (DecodeError::MalformedContainer {
                        found: plane_spec(compressed@, rlew_key)->Ok_0.len() as usize,
                        expected: (2 * expected_tiles) as usize,
                    })
                }
            },
        }),
{
    let half = match carmackization::expand(compressed) {
        Ok(v) => v,
        Err(e) => {
            return Err(e);
        },
    };
    let full = match rlew::expand(half.as_slice(), rlew_key) {
        Ok(v) => v,
        Err(e) => {
            return Err(e);
        },
    };
    if full.len() != 2 * expected_tiles {
        return Err(
            DecodeError::MalformedContainer { found: full.len(), expected: 2 * expected_tiles },
        );
    }
    let mut words: Vec<u16> = Vec::new();
    let mut k: usize = 0;
    while k < expected_tiles
        invariant
            2 * expected_tiles <= usize::MAX,
            full@.len() == 2 * expected_tiles,
            k <= expected_tiles,
            words@ == words_of(full@).take(k as int),
        decreases expected_tiles - k,
    {
        let w = read_u16_le(full.as_slice(), 2 * k);
        words.push(w);
        proof {
            assert(words@ =~= words_of(full@).take(k + 1));
        }
        k = k + 1;
    }
    proof {
        assert(words@ =~= words_of(full@));
    }
    Ok(words)
}


/// One decoded map cell: the background tile index, and the foreground and
/// sprite indices where their plane words are nonzero (the stored word is
/// one above the index, zero meaning none).
#[derive(Debug, Clone, Copy, PartialEq, Eq)]
pub struct MapTile {
    pub background: u16,
    pub foreground: Option<u16>,
    pub _sprite: Option<u16>,
}

/// The cell three plane words describe.
pub open spec fn tile_of(b: u16, f: u16, s: u16) -> MapTile {
    MapTile {
        background: b,
        foreground: if f == 0 {
            None
        } else {
            Some((f - 1) as u16)
        },
        _sprite: if s == 0 {
            None
        } else {
            Some((s - 1) as u16)
        },
    }
}

/// The smaller of three lengths: how many cells all three planes can fill.
pub open spec fn min3(a: int, b: int, c: int) -> int {
    if a <= b && a <= c {
        a
    } else if b <= c {
        b
    } else {
        c
    }
}

/// The grid of cells three planes describe, row by row, `width` cells per
/// row; cells past the last whole row are dropped.
pub open spec fn tile_grid(p0: Seq<u16>, p1: Seq<u16>, p2: Seq<u16>, width: int) -> Seq<
    Seq<MapTile>,
> {
    let cells = min3(p0.len() as int, p1.len() as int, p2.len() as int);
    Seq::new(
        (cells / width) as nat,
        |r: int| Seq::new(width as nat, |c: int| tile_of(p0[r * width + c], p1[r * width + c], p2[r * width + c])),
    )
}

/// Combines three expanded planes into rows of map cells, `width` cells per
/// row, dropping any cells past the last whole row.
pub fn tiles_from_planes(plane_0: &[u16], plane_1: &[u16], plane_2: &[u16], width: usize) -> (r:
    Vec<Vec<MapTile>>)
    requires
        width >= 1,
    ensures
        r@.len() == tile_grid(plane_0@, plane_1@, plane_2@, width as int).len(),
        forall|i: int|
            0 <= i < r@.len() ==> (#[trigger] r@[i])@ == tile_grid(
                plane_0@,
                plane_1@,
                plane_2@,
                width as int,
            )[i],
{
    let mut cells = plane_0.len();
    if plane_1.len() < cells {
        cells = plane_1.len();
    }
    if plane_2.len() < cells {
        cells = plane_2.len();
    }
    let rows = cells / width;
    let ghost grid = tile_grid(plane_0@, plane_1@, plane_2@, width as int);
    let mut out: Vec<Vec<MapTile>> = Vec::new();
    let mut r: usize = 0;
    while r < rows
        invariant
            width >= 1,
            cells == min3(plane_0@.len() as int, plane_1@.len() as int, plane_2@.len() as int),
            rows == cells / width,
            grid == tile_grid(plane_0@, plane_1@, plane_2@, width as int),
            r <= rows,
            out@.len() == r,
            forall|i: int| 0 <= i < r ==> (#[trigger] out@[i])@ == grid[i],
        decreases rows - r,
    {
        proof {
            assert((rows as int) * width <= cells) by {
                vstd::arithmetic::div_mod::lemma_fundamental_div_mod(cells as int, width as int);
                vstd::arithmetic::div_mod::lemma_mod_bound(cells as int, width as int);
            };
            vstd::arithmetic::mul::lemma_mul_inequality(r as int + 1, rows as int, width as int);
            assert((r as int + 1) * (width as int) == (r as int) * (width as int) + width)
                by (nonlinear_arith);
        }
        let base = r * width;
        let mut row: Vec<MapTile> = Vec::new();
        let mut c: usize = 0;
        while c < width
            invariant
                width >= 1,
                base == (r as int) * width,
                base + width <= cells,
                cells <= plane_0@.len(),
                cells <= plane_1@.len(),
                cells <= plane_2@.len(),
                c <= width,
                row@.len() == c,
                forall|j: int|
                    0 <= j < c ==> (#[trigger] row@[j]) == tile_of(
                        plane_0@[base + j],
                        plane_1@[base + j],
                        plane_2@[base + j],
                    ),
            decreases width - c,
        {
            let b = plane_0[base + c];
            let f = plane_1[base + c];
            let s = plane_2[base + c];
            let foreground: Option<u16> = if f == 0 {
                None
            } else {
                Some(f - 1)
            };
            let sprite: Option<u16> = if s == 0 {
                None
            } else {
                Some(s - 1)
            };
            row.push(MapTile { background: b, foreground, _sprite: sprite });
            c = c + 1;
        }
        proof {
            assert(row@ =~= grid[r as int]);
        }
        out.push(row);
        r = r + 1;
    }
    out
}


/// What one plane of a map yields: the slice the header names inside the
/// maps resource, expanded by both stages and read as tile words; a slice
/// reaching past the resource, a failed expansion, or a wrong expanded size
/// is the plane's failure.
pub open spec fn plane_result(
    gamemaps: Seq<u8>,
    off: int,
    len: int,
    rlew_key: u16,
    expected_tiles: int,
) -> Result<Seq<u16>, DecodeError> {
    if off + len > gamemaps.len() {
        Err(DecodeError::OutOfRange { offset: off as usize, limit: gamemaps.len() as usize })
    } else {
        match plane_spec(gamemaps.subrange(off, off + len), rlew_key) {
            Ok(bytes) => if bytes.len() == 2 * expected_tiles {
                Ok(words_of(bytes))
            } else {
                Err(
                    DecodeError::MalformedContainer {
                        found: bytes.len() as usize,
                        expected: (2 * expected_tiles) as usize,
                    },
                )
            },
            Err(e) => Err(e),
        }
    }
}

/// One decompressed map: its raw name bytes, its size in tiles, and its
/// rows of cells.
#[derive(Debug)]
pub struct GameMap {
    pub name: Vec<u8>,
    pub width: usize,
    pub height: usize,
    pub tiles: Vec<Vec<MapTile>>,
}

impl GameMap {
    /// Decompresses the three planes a header names inside the maps
    /// resource, checks each against the map's tile count, and combines
    /// them into rows of cells; the first failing plane fails the map.
    pub fn parse(gamemaps: &[u8], header: Header, rlew_key: u16) -> (r: Result<
        GameMap,
        DecodeError,
    >)
        requires
            2 * (header.width_tiles * header.height_tiles) <= usize::MAX,
        ensures
            (match r {
                Ok(m) => {
                    let expected = (header.width_tiles * header.height_tiles) as int;
                    let p0 = plane_result(
                        gamemaps@,
                        header.offset_plane_0 as int,
                        header.len_plane_0 as int,
                        rlew_key,
                        expected,
                    );
                    let p1 = plane_result(
                        gamemaps@,
                        header.offset_plane_1 as int,
                        header.len_plane_1 as int,
                        rlew_key,
                        expected,
                    );
                    let p2 = plane_result(
                        gamemaps@,
                        header.offset_plane_2 as int,
                        header.len_plane_2 as int,
                        rlew_key,
                        expected,
                    );
                    &&& p0 is Ok
                    &&& p1 is Ok
                    &&& p2 is Ok
                    &&& m.width == header.width_tiles
                    &&& m.height == header.height_tiles
                    &&& m.name@ == header.name@
                    &&& (if header.width_tiles == 0 {
                        m.tiles@.len() == 0
                    } else {
                        let grid = tile_grid(
                            p0->Ok_0,
                            p1->Ok_0,
                            p2->Ok_0,
                            header.width_tiles as int,
                        );
                        &&& m.tiles@.len() == grid.len()
                        &&& forall|i: int|
                            0 <= i < grid.len() ==> (#[trigger] m.tiles@[i])@ == grid[i]
                    })
                },
                Err(e) => {
                    let expected = (header.width_tiles * header.height_tiles) as int;
                    let p0 = plane_result(
                        gamemaps@,
                        header.offset_plane_0 as int,
                        header.len_plane_0 as int,
                        rlew_key,
                        expected,
                    );
                    let p1 = plane_result(
                        gamemaps@,
                        header.offset_plane_1 as int,
                        header.len_plane_1 as int,
                        rlew_key,
                        expected,
                    );
                    let p2 = plane_result(
                        gamemaps@,
                        header.offset_plane_2 as int,
                        header.len_plane_2 as int,
                        rlew_key,
                        expected,
                    );
                    if p0 is Err {
                        e == p0->Err_0
                    } else if p1 is Err {
                        e == p1->Err_0
                    } else {
                        p2 is Err && e == p2->Err_0
                    }
                },
            }),
    {
        let expected = header.width_tiles * header.height_tiles;
        let glen = gamemaps.len();

        if header.len_plane_0 > glen || header.offset_plane_0 > glen - header.len_plane_0 {
            return Err(DecodeError::OutOfRange { offset: header.offset_plane_0, limit: glen });
        }
        let slice = &gamemaps[header.offset_plane_0..header.offset_plane_0 + header.len_plane_0];
        let plane_0 = match parse_plane(slice, rlew_key, expected) {
            Ok(v) => v,
            Err(e) => {
                return Err(e);
            },
        };

        if header.len_plane_1 > glen || header.offset_plane_1 > glen - header.len_plane_1 {
            return Err(DecodeError::OutOfRange { offset: header.offset_plane_1, limit: glen });
        }
        let slice = &gamemaps[header.offset_plane_1..header.offset_plane_1 + header.len_plane_1];
        let plane_1 = match parse_plane(slice, rlew_key, expected) {
            Ok(v) => v,
            Err(e) => {
                return Err(e);
            },
        };

        if header.len_plane_2 > glen || header.offset_plane_2 > glen - header.len_plane_2 {
            return Err(DecodeError::OutOfRange { offset: header.offset_plane_2, limit: glen });
        }
        let slice = &gamemaps[header.offset_plane_2..header.offset_plane_2 + header.len_plane_2];
        let plane_2 = match parse_plane(slice, rlew_key, expected) {
            Ok(v) => v,
            Err(e) => {
                return Err(e);
            },
        };

        let tiles: Vec<Vec<MapTile>> = if header.width_tiles == 0 {
            Vec::new()
        } else {
            tiles_from_planes(
                plane_0.as_slice(),
                plane_1.as_slice(),
                plane_2.as_slice(),
                header.width_tiles,
            )
        };
        Ok(
            GameMap {
                name: header.name,
                width: header.width_tiles,
                height: header.height_tiles,
                tiles,
            },
        )
    }
}

} // verus!
