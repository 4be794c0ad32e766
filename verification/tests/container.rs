// Huffman decoding, dictionary parsing, graph-head validation, and the
// chunk cursor over a tiny hand-built resource container.

use dopefish_decoder::egagraph::ChunkIterator;
use dopefish_decoder::egagraph::{parse_graph_head, DICT_BYTES};
use dopefish_decoder::error::DecodeError;
use dopefish_decoder::framing::{parse_length_prefix, read_u16_le, read_u24_le, read_u32_le};
use dopefish_decoder::huffman::{decompress, parse_dict, Link, Node};
use dopefish_decoder::versions::{determine_exe_version, ExeVersion};

// A tree whose start node emits 0xAA for a 0 bit, and for a 1 bit moves to
// node 200, which emits 0xBB for 0 and 0xCC for 1.
fn test_tree() -> Vec<Node> {
    let mut dict: Vec<Node> = Vec::new();
    for _ in 0..256 {
        dict.push(Node { left: Link::Leaf(0), right: Link::Leaf(0) });
    }
    dict[254] = Node { left: Link::Leaf(0xAA), right: Link::Branch(200) };
    dict[200] = Node { left: Link::Leaf(0xBB), right: Link::Leaf(0xCC) };
    dict
}

// The same tree as a 1024-byte dictionary blob, four bytes per node.
fn test_tree_blob() -> Vec<u8> {
    let mut blob: Vec<u8> = vec![0; DICT_BYTES];
    blob[254 * 4] = 0xAA;
    blob[254 * 4 + 1] = 0;
    blob[254 * 4 + 2] = 200;
    blob[254 * 4 + 3] = 1;
    blob[200 * 4] = 0xBB;
    blob[200 * 4 + 1] = 0;
    blob[200 * 4 + 2] = 0xCC;
    blob[200 * 4 + 3] = 0;
    blob
}

#[test]
fn parse_dict_reads_records() {
    let nodes = parse_dict(&[0x05, 0x00, 0x07, 0x01, 0x09, 0x02, 0x0B, 0x00]);
    assert_eq!(nodes.len(), 2);
    assert_eq!(nodes[0], Node { left: Link::Leaf(0x05), right: Link::Branch(0x07) });
    assert_eq!(nodes[1], Node { left: Link::Branch(0x09), right: Link::Leaf(0x0B) });
}

#[test]
fn huffman_decodes_bits_lsb_first() {
    // Byte 6 = bits 0,1,1,0,0,0,0,0 LSB-first: leaf 0xAA, then the branch
    // to node 200 and its 1-leaf 0xCC, then 0xAA again.
    let dict = test_tree();
    assert_eq!(decompress(&[6], &dict, 3), vec![0xAA, 0xCC, 0xAA]);
}

#[test]
fn huffman_stops_exactly_at_target_length() {
    let dict = test_tree();
    assert_eq!(decompress(&[6], &dict, 2), vec![0xAA, 0xCC]);
    assert_eq!(decompress(&[6], &dict, 0), Vec::<u8>::new());
    // Bits past the last needed one are garbage; appending more garbage
    // bytes changes nothing.
    assert_eq!(decompress(&[6, 0xFF, 0x13], &dict, 2), decompress(&[6], &dict, 2));
}

#[test]
fn huffman_short_input_yields_short_output() {
    let dict = test_tree();
    // Eight 0 bits emit eight 0xAA bytes, short of the target of 100.
    assert_eq!(decompress(&[0], &dict, 100), vec![0xAA; 8]);
    assert_eq!(decompress(&[], &dict, 5), Vec::<u8>::new());
}

#[test]
fn graph_head_rejects_bad_sizes() {
    // Not a whole number of 3-byte entries.
    let r = parse_graph_head(&[0, 0, 0, 1], 7);
    assert!(matches!(r.unwrap_err(), DecodeError::MalformedContainer { .. }));
    // No entries at all.
    let r = parse_graph_head(&[], 0);
    assert!(matches!(r.unwrap_err(), DecodeError::MalformedContainer { .. }));
}

#[test]
fn graph_head_rejects_bad_boundary_values() {
    // First entry must be 0.
    let r = parse_graph_head(&[1, 0, 0, 9, 0, 0], 9);
    assert_eq!(r.unwrap_err(), DecodeError::MalformedContainer { found: 1, expected: 0 });
    // Last entry must equal the data length.
    let r = parse_graph_head(&[0, 0, 0, 8, 0, 0], 9);
    assert_eq!(r.unwrap_err(), DecodeError::MalformedContainer { found: 8, expected: 9 });
}

#[test]
fn graph_head_drops_trailing_sentinel() {
    let head: Vec<u8> = vec![0, 0, 0, 5, 0, 0, 9, 0, 0];
    let offsets = parse_graph_head(&head, 9).unwrap();
    assert_eq!(offsets, vec![0, 5]);
}

#[test]
fn chunk_iterator_walks_prefixed_chunks() {
    // One real chunk at offset 0: length header 3, then the byte 6 of
    // Huffman bits; then a sentinel-valued empty chunk slot.
    let data: Vec<u8> = vec![3, 0, 0, 0, 6];
    let head: Vec<u8> = vec![0, 0, 0, 0xFF, 0xFF, 0xFF, 5, 0, 0];
    let mut chunks = ChunkIterator::new(&data, &head, &test_tree_blob()).unwrap();

    assert!(!chunks.at_end());
    assert_eq!(chunks.peek_next(), Some(0));
    assert_eq!(chunks.next().unwrap(), vec![0xAA, 0xCC, 0xAA]);

    // The sentinel-valued slot decodes to an empty buffer.
    assert_eq!(chunks.peek_next(), Some(0xFFFFFF));
    assert_eq!(chunks.next().unwrap(), Vec::<u8>::new());

    assert!(chunks.at_end());
    assert_eq!(chunks.peek_next(), None);
    assert_eq!(
        chunks.next().unwrap_err(),
        DecodeError::OutOfRange { offset: 2, limit: 2 }
    );

    // Backing up one step makes the sentinel slot current again, in either
    // decode mode.
    assert!(chunks.rewind_one());
    assert_eq!(chunks.next_with_length(40).unwrap(), Vec::<u8>::new());
}

#[test]
fn chunk_iterator_raw_mode_uses_caller_length() {
    let data: Vec<u8> = vec![6];
    let head: Vec<u8> = vec![0, 0, 0, 1, 0, 0];
    let mut chunks = ChunkIterator::new(&data, &head, &test_tree_blob()).unwrap();
    // At the first chunk there is nothing to take back yet.
    assert!(!chunks.rewind_one());
    assert_eq!(chunks.next_with_length(3).unwrap(), vec![0xAA, 0xCC, 0xAA]);
    assert!(chunks.at_end());
}

#[test]
fn chunk_iterator_rejects_malformed_container() {
    let data: Vec<u8> = vec![1, 2, 3];
    // Head whose sentinel does not match the data length.
    let bad_head: Vec<u8> = vec![0, 0, 0, 9, 0, 0];
    assert!(matches!(
        ChunkIterator::new(&data, &bad_head, &test_tree_blob()).unwrap_err(),
        DecodeError::MalformedContainer { .. }
    ));
    // Head that is not a whole number of entries.
    let bad_head: Vec<u8> = vec![0, 0, 0, 3];
    assert!(matches!(
        ChunkIterator::new(&data, &bad_head, &test_tree_blob()).unwrap_err(),
        DecodeError::MalformedContainer { .. }
    ));
    // Dictionary blob of the wrong size.
    let head: Vec<u8> = vec![0, 0, 0, 3, 0, 0];
    assert_eq!(
        ChunkIterator::new(&data, &head, &[0u8; 16]).unwrap_err(),
        DecodeError::MalformedContainer { found: 16, expected: DICT_BYTES }
    );
}

#[test]
fn chunk_too_short_for_length_header() {
    let data: Vec<u8> = vec![9, 9];
    let head: Vec<u8> = vec![0, 0, 0, 1, 0, 0, 2, 0, 0];
    let mut chunks = ChunkIterator::new(&data, &head, &test_tree_blob()).unwrap();
    // A chunk of one or two bytes cannot hold the 4-byte length header.
    assert_eq!(chunks.next().unwrap_err(), DecodeError::TruncatedStream { offset: 0 });
    assert_eq!(chunks.next().unwrap_err(), DecodeError::TruncatedStream { offset: 1 });
}

#[test]
fn chunk_offset_past_data_is_out_of_range() {
    let data: Vec<u8> = vec![9, 9];
    let head: Vec<u8> = vec![0, 0, 0, 5, 0, 0, 2, 0, 0];
    let mut chunks = ChunkIterator::new(&data, &head, &test_tree_blob()).unwrap();
    chunks.next().unwrap_err();
    assert_eq!(chunks.next().unwrap_err(), DecodeError::OutOfRange { offset: 5, limit: 2 });
    assert_eq!(
        chunks.rewind_one() && chunks.next_with_length(8).unwrap_err()
            == (DecodeError::OutOfRange { offset: 5, limit: 2 }),
        true
    );
}

#[test]
fn framing_reads_little_endian_fields() {
    let data: Vec<u8> = vec![0x01, 0x02, 0x03, 0x04, 0x05];
    assert_eq!(read_u16_le(&data, 0), 0x0201);
    assert_eq!(read_u24_le(&data, 1), 0x040302);
    assert_eq!(read_u32_le(&data, 1), 0x05040302);

    let (len, rest) = parse_length_prefix(&data).unwrap();
    assert_eq!(len, 0x04030201);
    assert_eq!(rest, &[0x05]);
    assert_eq!(
        parse_length_prefix(&[1, 2, 3]).unwrap_err(),
        DecodeError::TruncatedStream { offset: 0 }
    );
}

#[test]
fn version_lookup_by_exe_size() {
    let v = determine_exe_version(258064).unwrap();
    assert_eq!(v, ExeVersion::Keen4_1_0);
    let offsets = v.offsets();
    assert_eq!(offsets.map_head_offset, 156592);
    assert_eq!(offsets.map_head_len, 402 + 23004);
    assert_eq!(offsets.graph_dict_len, 1024);
    assert_eq!(
        determine_exe_version(100).unwrap_err(),
        DecodeError::MalformedContainer { found: 100, expected: 0 }
    );
}
