// Map decompression and assembly, the graphics size tables, the tile-length
// heuristic, and planar pixel combination.

use dopefish_decoder::error::DecodeError;
use dopefish_decoder::images::combine_planes;
use dopefish_decoder::parse_graphics::{
    classify_tile_chunk, parse_picture_table, parse_sprite_table, PictureTableEntry, TileScan,
    TILE16_LEN_MAX, TILE16_LEN_MIN,
};
use dopefish_decoder::parse_maps::{
    parse_plane, tiles_from_planes, GameMap, Header, MapHead, MapTile,
};

#[test]
fn maphead_reads_key_and_plausible_offsets() {
    // Key word, then: a kept offset, an unused zero slot, one just past the
    // plausible limit (dropped), and one at the limit (kept).
    let mut data: Vec<u8> = vec![0x11, 0x22];
    data.extend_from_slice(&[1, 0, 0, 0]);
    data.extend_from_slice(&[0, 0, 0, 0]);
    data.extend_from_slice(&[0x80, 0x96, 0x98, 0]); // 10000000
    data.extend_from_slice(&[0x7F, 0x96, 0x98, 0]); // 9999999
    let head = MapHead::parse(&data).unwrap();
    assert_eq!(head.rlew_key, 0x2211);
    assert_eq!(head.offsets, vec![1, 9999999]);
}

#[test]
fn maphead_too_short_is_malformed() {
    assert_eq!(
        MapHead::parse(&[7]).unwrap_err(),
        DecodeError::MalformedContainer { found: 1, expected: 2 }
    );
}

fn sample_header_bytes() -> Vec<u8> {
    let mut data: Vec<u8> = Vec::new();
    data.extend_from_slice(&[0, 0, 0, 0]); // plane 0 offset
    data.extend_from_slice(&[4, 0, 0, 0]); // plane 1 offset
    data.extend_from_slice(&[8, 0, 0, 0]); // plane 2 offset
    data.extend_from_slice(&[4, 0, 4, 0, 4, 0]); // compressed lengths
    data.extend_from_slice(&[2, 0, 1, 0]); // width and height in tiles
    data.extend_from_slice(b"HI\0padding");
    data
}

#[test]
fn header_reads_fields_and_name() {
    let h = Header::parse(&sample_header_bytes()).unwrap();
    assert_eq!(h.offset_plane_0, 0);
    assert_eq!(h.offset_plane_1, 4);
    assert_eq!(h.offset_plane_2, 8);
    assert_eq!(h.len_plane_0, 4);
    assert_eq!(h.len_plane_1, 4);
    assert_eq!(h.len_plane_2, 4);
    assert_eq!(h.width_tiles, 2);
    assert_eq!(h.height_tiles, 1);
    assert_eq!(h.name, b"HI".to_vec());
}

#[test]
fn header_too_short_is_malformed() {
    assert_eq!(
        Header::parse(&[0; 10]).unwrap_err(),
        DecodeError::MalformedContainer { found: 10, expected: 22 }
    );
}

#[test]
fn plane_expands_and_reads_words() {
    // Literal pairs for the back-reference stage, no key word for the
    // run-length stage: four bytes, two tile words.
    let words = parse_plane(&[0x01, 0x00, 0x02, 0x00], 0xFFFF, 2).unwrap();
    assert_eq!(words, vec![0x0001, 0x0002]);
}

#[test]
fn plane_failures_propagate_and_size_is_checked() {
    // A near pointer missing its distance byte fails the first stage.
    assert_eq!(
        parse_plane(&[0x01, 0xA7], 0xFFFF, 1).unwrap_err(),
        DecodeError::TruncatedStream { offset: 0 }
    );
    // A plane of the wrong expanded size is malformed.
    assert_eq!(
        parse_plane(&[0x01, 0x00], 0xFFFF, 2).unwrap_err(),
        DecodeError::MalformedContainer { found: 2, expected: 4 }
    );
}

#[test]
fn tiles_combine_three_planes() {
    let rows = tiles_from_planes(&[1, 2, 3], &[0, 5, 6], &[7, 0, 9], 2);
    assert_eq!(rows.len(), 1);
    assert_eq!(
        rows[0],
        vec![
            MapTile { background: 1, foreground: None, _sprite: Some(6) },
            MapTile { background: 2, foreground: Some(4), _sprite: None },
        ]
    );
}

#[test]
fn map_parse_decompresses_all_planes() {
    // Three four-byte planes at offsets 0, 4 and 8, each already literal.
    let gamemaps: Vec<u8> = vec![
        0x01, 0x00, 0x02, 0x00, // backgrounds 1, 2
        0x00, 0x00, 0x03, 0x00, // foregrounds none, 3
        0x00, 0x00, 0x00, 0x00, // no sprites
    ];
    let header = Header::parse(&sample_header_bytes()).unwrap();
    let map = GameMap::parse(&gamemaps, header, 0xFFFF).unwrap();
    assert_eq!(map.name, b"HI".to_vec());
    assert_eq!(map.width, 2);
    assert_eq!(map.height, 1);
    assert_eq!(map.tiles.len(), 1);
    assert_eq!(
        map.tiles[0],
        vec![
            MapTile { background: 1, foreground: None, _sprite: None },
            MapTile { background: 2, foreground: Some(2), _sprite: None },
        ]
    );
}

#[test]
fn map_parse_rejects_plane_past_resource() {
    let gamemaps: Vec<u8> = vec![0; 8];
    let header = Header::parse(&sample_header_bytes()).unwrap();
    // Plane 2 claims bytes 8..12 of an 8-byte resource.
    assert_eq!(
        GameMap::parse(&gamemaps, header, 0xFFFF).unwrap_err(),
        DecodeError::OutOfRange { offset: 8, limit: 8 }
    );
}

#[test]
fn tile_length_heuristic() {
    assert_eq!(classify_tile_chunk(128, TILE16_LEN_MIN, TILE16_LEN_MAX), TileScan::Tile);
    assert_eq!(classify_tile_chunk(159, TILE16_LEN_MIN, TILE16_LEN_MAX), TileScan::Tile);
    assert_eq!(classify_tile_chunk(0, TILE16_LEN_MIN, TILE16_LEN_MAX), TileScan::EmptySlot);
    assert_eq!(classify_tile_chunk(127, TILE16_LEN_MIN, TILE16_LEN_MAX), TileScan::SectionEnd);
    assert_eq!(classify_tile_chunk(160, TILE16_LEN_MIN, TILE16_LEN_MAX), TileScan::SectionEnd);
}

#[test]
fn picture_table_reads_whole_records() {
    // Two whole 4-byte records; the trailing byte is dropped.
    let table = parse_picture_table(&[2, 0, 8, 0, 3, 0, 16, 0, 9]);
    assert_eq!(
        table,
        vec![
            PictureTableEntry { width_div_8: 2, height: 8 },
            PictureTableEntry { width_div_8: 3, height: 16 },
        ]
    );
}

#[test]
fn sprite_table_reads_all_nine_words() {
    let mut data: Vec<u8> = Vec::new();
    for w in 1..=9u8 {
        data.extend_from_slice(&[w, 0]);
    }
    let table = parse_sprite_table(&data);
    assert_eq!(table.len(), 1);
    let e = table[0];
    assert_eq!(e.width_div_8, 1);
    assert_eq!(e.height, 2);
    assert_eq!(e._x_offset, 3);
    assert_eq!(e._y_offset, 4);
    assert_eq!(e._clip_left, 5);
    assert_eq!(e._clip_top, 6);
    assert_eq!(e._clip_right, 7);
    assert_eq!(e._clip_bottom, 8);
    assert_eq!(e._shifts, 9);
}

#[test]
fn planes_combine_into_indexed_pixels() {
    // One byte per plane, eight pixels: plane 0 sets pixel 0, plane 1 sets
    // pixel 1, plane 3 sets pixels 0 and 1.
    let data: Vec<u8> = vec![0b1000_0000, 0b0100_0000, 0b0000_0000, 0b1100_0000];
    let pixels = combine_planes(&data, 1, 1, 4);
    assert_eq!(pixels, vec![9, 10, 0, 0, 0, 0, 0, 0]);
}

#[test]
fn missing_planes_contribute_nothing() {
    // Only one whole plane fits the buffer, so only bit 0 is ever set.
    let pixels = combine_planes(&[0xFF], 1, 1, 4);
    assert_eq!(pixels, vec![1; 8]);
}
