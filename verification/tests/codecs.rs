use base64ct::Encoding;

use sol_acc::address::{base58_decode, base58_encode, Address};
use sol_acc::base64code::base64_encode;
use sol_acc::errors::AppError;
use sol_acc::filter::parse_filter;
use sol_acc::hexcode::{hex_decode, hex_encode};
use sol_acc::numparse::parse_usize;

#[test]
fn hex_encodes_bytes_lowercase() {
    assert_eq!(hex_encode(&vec![0x00, 0x01, 0x02]), "000102");
    assert_eq!(hex_encode(&vec![0xde, 0xad, 0xbe, 0xef]), "deadbeef");
    assert_eq!(hex_encode(&vec![]), "");
    assert_eq!(hex_encode(&vec![0xff]), "ff");
}

#[test]
fn hex_decodes_both_cases() {
    assert_eq!(hex_decode("000102"), Some(vec![0x00, 0x01, 0x02]));
    assert_eq!(hex_decode("DEADbeef"), Some(vec![0xde, 0xad, 0xbe, 0xef]));
    assert_eq!(hex_decode(""), Some(vec![]));
}

#[test]
fn hex_rejects_odd_and_junk() {
    assert_eq!(hex_decode("abc"), None);
    assert_eq!(hex_decode("zz"), None);
    assert_eq!(hex_decode("0g"), None);
}

#[test]
fn hex_round_trips() {
    let payload: Vec<u8> = (0u16..=255).map(|b| b as u8).collect();
    assert_eq!(hex_decode(&hex_encode(&payload)), Some(payload));
}

#[test]
fn base64_known_vectors() {
    assert_eq!(base64_encode(&vec![0x00, 0x01, 0x02]), "AAEC");
    assert_eq!(base64_encode(&vec![]), "");
    assert_eq!(base64_encode(&vec![0x00]), "AA==");
    assert_eq!(base64_encode(&vec![0xff, 0xfe]), "//4=");
    assert_eq!(base64_encode(&vec![b'f', b'o', b'o', b'b', b'a', b'r']), "Zm9vYmFy");
}

#[test]
fn raw_encodings_agree() {
    // hex-decoding the hex form equals base64-decoding the base64 form.
    let payloads: Vec<Vec<u8>> = vec![
        vec![],
        vec![0x00],
        vec![0x00, 0x01],
        vec![0x00, 0x01, 0x02],
        vec![0xde, 0xad, 0xbe, 0xef, 0x99],
        (0u16..=255).map(|b| b as u8).collect(),
    ];
    for p in payloads {
        let from_hex = hex_decode(&hex_encode(&p)).unwrap();
        let from_b64 = base64ct::Base64::decode_vec(&base64_encode(&p)).unwrap();
        assert_eq!(from_hex, from_b64);
        assert_eq!(from_hex, p);
    }
}

#[test]
fn parse_usize_accepts_decimals() {
    assert_eq!(parse_usize("0"), Some(0));
    assert_eq!(parse_usize("42"), Some(42));
    assert_eq!(parse_usize("0010"), Some(10));
    assert_eq!(parse_usize("18446744073709551615"), Some(usize::MAX));
}

#[test]
fn parse_usize_rejects_junk_and_overflow() {
    assert_eq!(parse_usize(""), None);
    assert_eq!(parse_usize("1a"), None);
    assert_eq!(parse_usize("-1"), None);
    assert_eq!(parse_usize(" 1"), None);
    assert_eq!(parse_usize("18446744073709551616"), None);
}

#[test]
fn base58_encodes_known_addresses() {
    let zero = Address::new([0u8; 32]);
    assert_eq!(base58_encode(&zero), "11111111111111111111111111111111");
    let one = Address::new([1u8; 32]);
    assert_eq!(
        base58_encode(&one),
        solana_pubkey::Pubkey::new_from_array([1u8; 32]).to_string()
    );
}

#[test]
fn base58_decode_round_trips() {
    let a = Address::new([3u8; 32]);
    let text = base58_encode(&a);
    let back = base58_decode(&text).unwrap();
    assert_eq!(back.bytes, a.bytes);
    assert!(base58_decode("not a base58 address !!").is_none());
    assert!(base58_decode("").is_none());
    // valid base58 text, but not 32 bytes
    assert!(base58_decode("abc").is_none());
}

#[test]
fn filter_hex_pattern() {
    let f = parse_filter("10:0xdead").unwrap();
    assert_eq!(f.offset, 10);
    assert_eq!(f.pattern, vec![0xde, 0xad]);
}

#[test]
fn filter_base58_pattern() {
    let f = parse_filter("0:11111111111111111111111111111111").unwrap();
    assert_eq!(f.offset, 0);
    assert_eq!(f.pattern, vec![0u8; 32]);
}

#[test]
fn filter_syntax_errors() {
    assert_eq!(parse_filter("nocolon").unwrap_err(), AppError::BadFilterSyntax);
    assert_eq!(parse_filter("x:0xdead").unwrap_err(), AppError::BadFilterSyntax);
    assert_eq!(parse_filter(":0xdead").unwrap_err(), AppError::BadFilterSyntax);
    assert_eq!(parse_filter("1:0xabc").unwrap_err(), AppError::BadHex);
    assert_eq!(parse_filter("1:0xzz").unwrap_err(), AppError::BadHex);
    assert_eq!(parse_filter("1:0x").unwrap_err(), AppError::BadHex);
    assert_eq!(parse_filter("1:zzz").unwrap_err(), AppError::BadAddress);
    assert_eq!(parse_filter("5:not~base58").unwrap_err(), AppError::BadAddress);
}
