use alltools::convert::{
    base64_to_hex, bytes_of, convert, hex_to_base64, hex_to_utf8, text_of, utf8_to_hex,
    ConvertError, HexTextError,
};

#[test]
fn convert_between_bases() {
    assert_eq!(Ok("0xFF".to_string()), convert("255", 10, 16));
    assert_eq!(Ok("0b11111111".to_string()), convert("0xFF", 16, 2));
    assert_eq!(Ok("255".to_string()), convert("0b1111_1111", 2, 10));
    assert_eq!(Ok("3q2+7w==".to_string()), convert("0xDEADBEEF", 16, 64));
    assert_eq!(Ok("0xDEADBEEF".to_string()), convert("3q2+7w==", 64, 16));
    assert_eq!(Ok("4358".to_string()), convert("4358", 10, 10));
    assert_eq!(Ok("0b".to_string()), convert("0", 10, 2));
    assert_eq!(Ok("0".to_string()), convert("", 16, 10));
}

#[test]
fn convert_errors_in_order() {
    assert_eq!(Err(ConvertError::UnsupportedInputBase(8)), convert("17", 8, 16));
    assert_eq!(Err(ConvertError::UnsupportedInputBase(8)), convert("17", 8, 7));
    assert_eq!(Err(ConvertError::BadInput), convert("xyz", 16, 10));
    assert_eq!(Err(ConvertError::BadInput), convert("xyz", 16, 7));
    assert_eq!(Err(ConvertError::UnsupportedOutputBase(7)), convert("ff", 16, 7));
    assert_eq!(Err(ConvertError::BadInput), convert("abc", 64, 16));
    assert_eq!(Err(ConvertError::UnsupportedInputBase(0)), bytes_of("1", 0));
    assert_eq!(Err(ConvertError::UnsupportedOutputBase(255)), text_of(&[1], 255));
}

#[test]
fn halves_of_a_conversion() {
    assert_eq!(Ok(vec![0x11, 0x06]), bytes_of("4358", 10));
    assert_eq!(Ok(vec![0x07, 0x01]), bytes_of("0b11100000001", 2));
    assert_eq!(Ok("0b11100000001".to_string()), text_of(&[0x07, 0x01], 2));
    assert_eq!(Ok("262".to_string()), text_of(&[0, 1, 6], 10));
}

#[test]
fn hex_and_text() {
    assert_eq!(Ok("hello".to_string()), hex_to_utf8("0x68656c6c6f"));
    assert_eq!(Ok("é".to_string()), hex_to_utf8("c3a9"));
    assert_eq!(Ok("".to_string()), hex_to_utf8(""));
    assert_eq!(Err(HexTextError::NotHex), hex_to_utf8("0xZZ"));
    assert_eq!(Err(HexTextError::NotUtf8), hex_to_utf8("0xff"));
    assert_eq!(Err(HexTextError::NotUtf8), hex_to_utf8("c328"));
    assert_eq!("0x68656C6C6F", utf8_to_hex("hello"));
    assert_eq!("0xC3A9", utf8_to_hex("é"));
    assert_eq!("0x", utf8_to_hex(""));
}

#[test]
fn hex_and_base64() {
    assert_eq!(Some("0xDEADBEEF".to_string()), base64_to_hex("3q2+7w=="));
    assert_eq!(None, base64_to_hex("3q2+7"));
    assert_eq!(Some("3q2+7w==".to_string()), hex_to_base64("0xDEADBEEF"));
    assert_eq!(Some("".to_string()), hex_to_base64(""));
    assert_eq!(None, hex_to_base64("0xNO"));
}
