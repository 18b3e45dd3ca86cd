use alltools::base64::{from_bytes, is_base64, parse_base64_char, to_bytes, Base64CharParseResult};

#[test]
fn base642bytes_two_padding_bytes() {
    let input = "3q2+7w==";
    let output = to_bytes(input).unwrap();
    assert_eq!(vec![0xDE, 0xAD, 0xBE, 0xEF], output);
}

#[test]
fn base642bytes_one_padding_bytes() {
    let input = "3q2+7wk=";
    let output = to_bytes(input).unwrap();
    assert_eq!(vec![0xDE, 0xAD, 0xBE, 0xEF, 0x09], output);
}

#[test]
fn base642bytes_zero_padding_bytes() {
    let input = "3q2+7wkA";
    let output = to_bytes(&input).unwrap();
    assert_eq!(vec![0xDE, 0xAD, 0xBE, 0xEF, 0x09, 0x00], output);
}

#[test]
fn bytes2base64_two_padding_bytes() {
    let input = vec![0xDE, 0xAD, 0xBE, 0xEF];
    let output = from_bytes(&input);
    assert_eq!("3q2+7w==", output);
}

#[test]
fn bytes2base64_one_padding_byte() {
    let input = vec![0xDE, 0xAD, 0xBE, 0xEF, 0x09];
    let output = from_bytes(&input);
    assert_eq!("3q2+7wk=", output);
}

#[test]
fn bytes2base64_zero_padding_bytes() {
    let input = vec![0xDE, 0xAD, 0xBE, 0xEF, 0x09, 0x00];
    let output = from_bytes(&input);
    assert_eq!("3q2+7wkA", output);
}

#[test]
fn base64_empty_text_is_no_bytes() {
    assert_eq!(Some(vec![]), to_bytes(""));
    assert_eq!("", from_bytes(&[]));
}

#[test]
fn base64_length_not_multiple_of_four_is_rejected() {
    assert_eq!(None, to_bytes("3q2+7"));
    assert_eq!(None, to_bytes("abc"));
    assert_eq!(None, to_bytes("a?c"));
}

#[test]
fn base64_padding_is_skipped_anywhere() {
    assert_eq!(Some(vec![0xDE, 0xAD, 0xBE, 0xEF]), to_bytes("3q==2+7w"));
    assert_eq!(Some(vec![]), to_bytes("===="));
    assert_eq!(Some(vec![]), to_bytes("A==="));
}

#[test]
fn base64_char_classes() {
    assert_eq!(Base64CharParseResult::Value(0), parse_base64_char(b'A'));
    assert_eq!(Base64CharParseResult::Value(25), parse_base64_char(b'Z'));
    assert_eq!(Base64CharParseResult::Value(26), parse_base64_char(b'a'));
    assert_eq!(Base64CharParseResult::Value(51), parse_base64_char(b'z'));
    assert_eq!(Base64CharParseResult::Value(52), parse_base64_char(b'0'));
    assert_eq!(Base64CharParseResult::Value(61), parse_base64_char(b'9'));
    assert_eq!(Base64CharParseResult::Value(62), parse_base64_char(b'+'));
    assert_eq!(Base64CharParseResult::Value(63), parse_base64_char(b'/'));
    assert_eq!(Base64CharParseResult::Padding, parse_base64_char(b'='));
    assert_eq!(Base64CharParseResult::Unknown, parse_base64_char(b'-'));
    assert_eq!(Base64CharParseResult::Unknown, parse_base64_char(0xC3));
}

#[test]
fn base64_alphabet_check() {
    assert!(is_base64("3q2+7w=="));
    assert!(is_base64(""));
    assert!(!is_base64("3q2-7w=="));
    assert!(!is_base64("é"));
}

#[test]
fn base64_round_trip_of_every_tail_length() {
    let data: Vec<u8> = (0u8..=255).collect();
    for len in 0..data.len() {
        let text = from_bytes(&data[..len]);
        assert_eq!(text.len(), (len + 2) / 3 * 4);
        assert_eq!(Some(data[..len].to_vec()), to_bytes(&text));
    }
}

#[test]
fn base64_known_vectors() {
    assert_eq!("Zg==", from_bytes(b"f"));
    assert_eq!("Zm8=", from_bytes(b"fo"));
    assert_eq!("Zm9v", from_bytes(b"foo"));
    assert_eq!("Zm9vYmFy", from_bytes(b"foobar"));
    assert_eq!("+/8=", from_bytes(&[0xfb, 0xff]));
}
