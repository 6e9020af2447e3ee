use xtools::hex::{bytes_to_hex_string, parse_hex_string, HexError};

#[test]
fn encode_empty_is_empty() {
    assert_eq!(bytes_to_hex_string(&[]), "");
}

#[test]
fn encode_hello() {
    assert_eq!(bytes_to_hex_string(b"Hello"), "48 65 6C 6C 6F");
}

#[test]
fn encode_single_byte() {
    assert_eq!(bytes_to_hex_string(&[0x5A]), "5A");
    assert_eq!(bytes_to_hex_string(&[0x00]), "00");
    assert_eq!(bytes_to_hex_string(&[0xFF]), "FF");
}

#[test]
fn encode_spacing_shape() {
    let cases: Vec<Vec<u8>> = vec![
        vec![],
        vec![0x01],
        vec![0xAB, 0xCD],
        vec![0x00, 0x7F, 0x80, 0xFF],
        (0u8..=255).collect(),
    ];
    for bytes in cases {
        let s = bytes_to_hex_string(&bytes);
        let digits: Vec<char> = s.chars().filter(|c| *c != ' ').collect();
        assert_eq!(digits.len(), 2 * bytes.len());
        assert!(digits.len() % 2 == 0);
        assert!(digits.iter().all(|c| c.is_ascii_hexdigit()));
        assert!(!s.starts_with(' '));
        assert!(!s.ends_with(' '));
        assert!(!s.contains("  "));
        if !bytes.is_empty() {
            assert_eq!(s.len(), 3 * bytes.len() - 1);
        }
    }
}

#[test]
fn decode_encode_round_trip() {
    let cases: Vec<Vec<u8>> = vec![
        vec![],
        vec![0x00],
        vec![0xFF],
        b"Hello".to_vec(),
        vec![0xDE, 0xAD, 0xBE, 0xEF],
        (0u8..=255).collect(),
    ];
    for bytes in cases {
        let encoded = bytes_to_hex_string(&bytes);
        let decoded = parse_hex_string(&encoded).expect("round trip must decode");
        assert_eq!(decoded, bytes);
    }
}

#[test]
fn decode_hello() {
    assert_eq!(parse_hex_string("48 65 6C 6C 6F").unwrap(), b"Hello".to_vec());
}

#[test]
fn decode_invalid_digit_names_group() {
    assert_eq!(
        parse_hex_string("ZZ"),
        Err(HexError::InvalidDigit(String::from("ZZ")))
    );
}

#[test]
fn decode_odd_length() {
    assert_eq!(parse_hex_string("ABC"), Err(HexError::OddLength));
}

#[test]
fn decode_tolerates_spacing_and_case() {
    assert_eq!(parse_hex_string("ab"), Ok(vec![0xAB]));
    assert_eq!(parse_hex_string("48\n65\r 6c"), Ok(vec![0x48, 0x65, 0x6C]));
    assert_eq!(parse_hex_string(""), Ok(vec![]));
    assert_eq!(parse_hex_string(" \r\n"), Ok(vec![]));
}

#[test]
fn decode_reports_first_bad_pair() {
    assert_eq!(
        parse_hex_string("48 GG 65"),
        Err(HexError::InvalidDigit(String::from("GG")))
    );
}
