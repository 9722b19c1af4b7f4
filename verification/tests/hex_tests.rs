use interaction_webhook::hex::{decode_hex, parse_hex, HexError};

fn to_hex(bytes: &[u8]) -> String {
    let mut s = String::new();
    for b in bytes {
        s.push_str(&format!("{:02x}", b));
    }
    s
}

#[test]
fn hex_round_trip_various() {
    let cases: Vec<Vec<u8>> = vec![
        vec![],
        vec![0],
        vec![255],
        vec![0xde, 0xad, 0xbe, 0xef],
        (0u8..=255).collect(),
    ];
    for b in cases {
        let enc = to_hex(&b);
        assert_eq!(parse_hex(&enc, b.len()), Some(b));
    }
}

#[test]
fn hex_uppercase_accepted() {
    assert_eq!(parse_hex("DEADBEEF", 4), Some(vec![0xde, 0xad, 0xbe, 0xef]));
    assert_eq!(parse_hex("aAbBcC", 3), Some(vec![0xaa, 0xbb, 0xcc]));
}

#[test]
fn hex_exact_value() {
    assert_eq!(parse_hex("0102ff", 3), Some(vec![1, 2, 255]));
}

#[test]
fn hex_wrong_length_fails() {
    assert_eq!(parse_hex("00", 2), None);
    assert_eq!(parse_hex("000000", 1), None);
    assert_eq!(parse_hex("0", 0), None);
    assert_eq!(decode_hex("00", 2), Err(HexError::InvalidLength));
    assert_eq!(decode_hex("abc", 1), Err(HexError::InvalidLength));
}

#[test]
fn hex_bad_digit_fails() {
    assert_eq!(parse_hex("0g", 1), None);
    assert_eq!(parse_hex("zz", 1), None);
    assert_eq!(parse_hex("+f", 1), None);
    assert_eq!(parse_hex(" 0", 1), None);
    assert_eq!(decode_hex("0g", 1), Err(HexError::InvalidDigit));
}

#[test]
fn hex_empty_is_zero_bytes() {
    assert_eq!(parse_hex("", 0), Some(vec![]));
}
