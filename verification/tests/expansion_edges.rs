// Edge cases and failure modes of the two byte-stream expanders: literal
// round trips, self-referential copies, and each truncation or range fault.

use dopefish_decoder::carmackization;
use dopefish_decoder::error::DecodeError;
use dopefish_decoder::rlew;

#[test]
fn carmack_empty_input() {
    assert_eq!(carmackization::expand(&[]).unwrap(), Vec::<u8>::new());
}

#[test]
fn carmack_literal_pairs_pass_through() {
    let input: Vec<u8> = vec![0x01, 0x02, 0x00, 0x7F, 0xA6, 0xA9];
    assert_eq!(carmackization::expand(&input).unwrap(), input);
}

#[test]
fn carmack_odd_trailing_byte() {
    let input: Vec<u8> = vec![0x01, 0x02, 0x55];
    assert_eq!(carmackization::expand(&input).unwrap(), vec![0x01, 0x02, 0x55]);
}

#[test]
fn carmack_near_pointer_copies_back() {
    // Two literal pairs, then a near pointer copying 2 bytes from 2 bytes back.
    let input: Vec<u8> = vec![0x10, 0x20, 0x30, 0x40, 0x01, 0xA7, 0x01];
    assert_eq!(
        carmackization::expand(&input).unwrap(),
        vec![0x10, 0x20, 0x30, 0x40, 0x30, 0x40]
    );
}

#[test]
fn carmack_near_pointer_overlapping_copy() {
    // One literal pair, then a near pointer copying 4 bytes from 2 bytes
    // back: the copy overlaps the bytes it appends and repeats the pair.
    let input: Vec<u8> = vec![0x10, 0x20, 0x02, 0xA7, 0x01];
    assert_eq!(
        carmackization::expand(&input).unwrap(),
        vec![0x10, 0x20, 0x10, 0x20, 0x10, 0x20]
    );
}

#[test]
fn carmack_far_pointer_copies_from_absolute_offset() {
    // Two literal pairs, then a far pointer copying one word from word 0.
    let input: Vec<u8> = vec![0x10, 0x20, 0x30, 0x40, 0x01, 0xA8, 0x00, 0x00];
    assert_eq!(
        carmackization::expand(&input).unwrap(),
        vec![0x10, 0x20, 0x30, 0x40, 0x10, 0x20]
    );
}

#[test]
fn carmack_near_distance_missing() {
    let r = carmackization::expand(&[0x01, 0xA7]);
    assert_eq!(r.unwrap_err(), DecodeError::TruncatedStream { offset: 0 });
}

#[test]
fn carmack_far_offset_missing() {
    let r = carmackization::expand(&[0x01, 0x02, 0x01, 0xA8, 0x05]);
    assert_eq!(r.unwrap_err(), DecodeError::TruncatedStream { offset: 2 });
}

#[test]
fn carmack_far_escapee_missing() {
    let r = carmackization::expand(&[0x00, 0xA8]);
    assert_eq!(r.unwrap_err(), DecodeError::TruncatedStream { offset: 0 });
}

#[test]
fn carmack_near_reaches_before_output() {
    // A near pointer asking for 10 bytes of history when only 2 exist.
    let r = carmackization::expand(&[0x10, 0x20, 0x01, 0xA7, 0x05]);
    assert_eq!(r.unwrap_err(), DecodeError::OutOfRange { offset: 10, limit: 2 });
}

#[test]
fn carmack_far_reaches_past_output() {
    let r = carmackization::expand(&[0x10, 0x20, 0x01, 0xA8, 0x09, 0x00]);
    assert_eq!(r.unwrap_err(), DecodeError::OutOfRange { offset: 18, limit: 2 });
}

#[test]
fn rlew_empty_input() {
    assert_eq!(rlew::expand(&[], 0x1234).unwrap(), Vec::<u8>::new());
}

#[test]
fn rlew_run_fields_missing() {
    // The key word with only the count word after it.
    let r = rlew::expand(&[0x11, 0x22, 0x03, 0x00], 0x2211);
    assert_eq!(r.unwrap_err(), DecodeError::TruncatedStream { offset: 0 });
}

#[test]
fn rlew_zero_count_run() {
    // A run of zero repetitions vanishes from the output.
    let input: Vec<u8> = vec![0x11, 0x22, 0x00, 0x00, 0x55, 0x66, 0xAB, 0xCD];
    assert_eq!(rlew::expand(&input, 0x2211).unwrap(), vec![0xAB, 0xCD]);
}
