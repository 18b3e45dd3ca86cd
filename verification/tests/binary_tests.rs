use alltools::binary::{from_bytes, to_bytes};
use alltools::is_char_ignorable;

#[test]
fn tobytes_leading_0b_included() {
    let input = "0b11111111";
    let output = to_bytes(input).unwrap();
    assert_eq!(vec![0xFF], output);
}

#[test]
fn tobytes_leading_0b_excluded() {
    let input = "11111111";
    let output = to_bytes(input).unwrap();
    assert_eq!(vec![0xFF], output);
}

#[test]
fn tobytes_leading_zeroes_excluded() {
    let input = "0b11100000001";
    let output = to_bytes(input).unwrap();
    assert_eq!(vec![0x07, 0x01], output);
}

#[test]
fn frombytes_leading_zeroes_included() {
    let input = vec![0x07, 0x01];
    let output = from_bytes(&input, false);
    assert_eq!("0b0000011100000001", output);
}

#[test]
fn binary_frombytes_leading_zeroes_excluded() {
    let input = vec![0x07, 0x01];
    let output = from_bytes(&input, true);
    assert_eq!("0b11100000001", output);
}

#[test]
fn binary_separators_are_skipped() {
    assert_eq!(Some(vec![0x07, 0x01]), to_bytes("0b111_0000 0001"));
    assert_eq!(Some(vec![0xA5]), to_bytes("1010,01-01"));
    assert_eq!(Some(vec![]), to_bytes("_- ,"));
}

#[test]
fn binary_edge_cases() {
    assert_eq!(Some(vec![]), to_bytes(""));
    assert_eq!(Some(vec![]), to_bytes("0b"));
    assert_eq!(Some(vec![0]), to_bytes("0"));
    assert_eq!(Some(vec![1, 0]), to_bytes("100000000"));
    assert_eq!(None, to_bytes("0b102"));
    assert_eq!(None, to_bytes("2"));
    assert_eq!(None, to_bytes("0b0b1"));
    assert_eq!(None, to_bytes("1é"));
}

#[test]
fn binary_frombytes_all_zero() {
    assert_eq!("0b", from_bytes(&[0, 0], true));
    assert_eq!("0b0000000000000000", from_bytes(&[0, 0], false));
    assert_eq!("0b", from_bytes(&[], true));
    assert_eq!("0b", from_bytes(&[], false));
    assert_eq!("0b10000000", from_bytes(&[0x80], true));
    assert_eq!("0b100000000", from_bytes(&[0x00, 0x01, 0x00], true));
}

#[test]
fn binary_round_trip() {
    for b in 0u8..=255 {
        let text = from_bytes(&[0x5a, b], false);
        assert_eq!(Some(vec![0x5a, b]), to_bytes(&text));
    }
}

#[test]
fn ignorable_characters() {
    assert!(is_char_ignorable(b' '));
    assert!(is_char_ignorable(b'-'));
    assert!(is_char_ignorable(b'_'));
    assert!(is_char_ignorable(b','));
    assert!(!is_char_ignorable(b'.'));
    assert!(!is_char_ignorable(b'0'));
    assert!(!is_char_ignorable(0));
}
