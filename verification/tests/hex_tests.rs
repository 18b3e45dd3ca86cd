use alltools::hex::{from_bytes, hex_char_value, to_bytes};

#[test]
fn hex2bytes_leading_0x_included() {
    let input = "0xDEADBEEF01";
    let output = to_bytes(input).unwrap();
    assert_eq!(vec![0xDE, 0xAD, 0xBE, 0xEF, 0x01], output);
}

#[test]
fn hex2bytes_leading_0x_excluded() {
    let input = "DEADBEEF01";
    let output = to_bytes(input).unwrap();
    assert_eq!(vec![0xDE, 0xAD, 0xBE, 0xEF, 0x01], output);
}

#[test]
fn hex2bytes_odd_number_of_chars() {
    let input = "100";
    let output = to_bytes(input).unwrap();
    assert_eq!(vec![0x01, 0x00], output);
}

#[test]
fn bytes2hex() {
    let input = vec![0xDE, 0xAD, 0xBE, 0xEF, 0x01, 0x00];
    let output = from_bytes(&input);
    assert_eq!("0xDEADBEEF0100", output);
}

#[test]
fn bytes2hex_odd_number_of_chars() {
    let input = vec![0x01, 0x00];
    let output = from_bytes(&input);
    assert_eq!("0x0100", output);
}

#[test]
fn hex_digit_values() {
    assert_eq!(Some(0), hex_char_value(b'0'));
    assert_eq!(Some(9), hex_char_value(b'9'));
    assert_eq!(Some(10), hex_char_value(b'A'));
    assert_eq!(Some(15), hex_char_value(b'F'));
    assert_eq!(Some(10), hex_char_value(b'a'));
    assert_eq!(Some(15), hex_char_value(b'f'));
    assert_eq!(None, hex_char_value(b'G'));
    assert_eq!(None, hex_char_value(b'g'));
    assert_eq!(None, hex_char_value(b'/'));
    assert_eq!(None, hex_char_value(b':'));
    assert_eq!(None, hex_char_value(b'@'));
    assert_eq!(None, hex_char_value(b'`'));
}

#[test]
fn hex_edge_cases() {
    assert_eq!(Some(vec![]), to_bytes(""));
    assert_eq!(Some(vec![]), to_bytes("0x"));
    assert_eq!(Some(vec![0x0f]), to_bytes("f"));
    assert_eq!(Some(vec![0xde, 0xad]), to_bytes("dead"));
    assert_eq!(None, to_bytes("0xZZ"));
    assert_eq!(None, to_bytes("xyz"));
    assert_eq!(None, to_bytes("é"));
}

#[test]
fn hex_dashes() {
    // An even number of characters in all: the dashes are skipped and the
    // digits paired as they come.
    assert_eq!(Some(vec![0xde, 0xad, 0xbe, 0xef]), to_bytes("de-ad-be-ef-"));
    // An odd number of characters in all: the first digit stands alone, and
    // so does the one left over at the end.
    assert_eq!(Some(vec![0x0d, 0xea, 0x0d]), to_bytes("de-ad"));
    // A dash in the first place of an odd body is no digit.
    assert_eq!(None, to_bytes("-de-a"));
    assert_eq!(Some(vec![]), to_bytes("--"));
}

#[test]
fn hex_round_trip() {
    let data: Vec<u8> = (0u8..=255).collect();
    let text = from_bytes(&data);
    assert_eq!(2 + 2 * 256, text.len());
    assert_eq!(Some(data), to_bytes(&text));
}
