use alltools::decimal::{from_bytes, parse_u64, to_bytes};

#[test]
fn tobytes() {
    let input = "4358";
    let output = to_bytes(input).unwrap();
    assert_eq!(vec![0x11, 0x06], output);
}

#[test]
fn frombytes() {
    let input = vec![0x11, 0x06];
    let output = from_bytes(&input);
    assert_eq!("4358", output);
}

#[test]
fn decimal_frombytes_leading_zeroes_excluded() {
    let input = vec![0x00, 0x01, 0x06];
    let output = from_bytes(&input);
    assert_eq!("262", output);
}

#[test]
fn decimal_edge_cases() {
    assert_eq!(Some(vec![]), to_bytes(""));
    assert_eq!(Some(vec![]), to_bytes("0"));
    assert_eq!(Some(vec![]), to_bytes("000"));
    assert_eq!(Some(vec![0xff]), to_bytes("255"));
    assert_eq!(Some(vec![1, 0]), to_bytes("256"));
    assert_eq!(Some(vec![1, 0]), to_bytes("+256"));
    assert_eq!(Some(vec![0xff; 8]), to_bytes("18446744073709551615"));
    assert_eq!(None, to_bytes("18446744073709551616"));
    assert_eq!(None, to_bytes("99999999999999999999999"));
    assert_eq!(None, to_bytes("+"));
    assert_eq!(None, to_bytes("-1"));
    assert_eq!(None, to_bytes("12a"));
    assert_eq!(None, to_bytes(" 12"));
    assert_eq!(None, to_bytes("1_000"));
}

#[test]
fn decimal_parse_agrees_with_std() {
    let cases = [
        "", "+", "-", "0", "+0", "-0", "007", "42", "+42", "++42", "4 2", "42 ", "18446744073709551615",
        "18446744073709551616", "018446744073709551615", "184467440737095516150", "a", "٣",
    ];
    for text in cases {
        assert_eq!(text.parse::<u64>().ok(), parse_u64(text.as_bytes()), "{:?}", text);
    }
}

#[test]
fn decimal_frombytes_values() {
    assert_eq!("0", from_bytes(&[]));
    assert_eq!("0", from_bytes(&[0]));
    assert_eq!("255", from_bytes(&[0xff]));
    assert_eq!("65536", from_bytes(&[1, 0, 0]));
    assert_eq!("18446744073709551615", from_bytes(&[0xff; 8]));
}

#[test]
fn decimal_round_trip() {
    for v in [1u64, 9, 10, 255, 256, 4358, 65535, 65536, 1 << 40, u64::MAX] {
        let bytes = to_bytes(&v.to_string()).unwrap();
        assert_eq!(v.to_string(), from_bytes(&bytes));
    }
}
