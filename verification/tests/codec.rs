//! Tests for the dual-representation payload and its base64 round trip.

use repgrep::data::{ArbitraryData, DecodeError, InvalidPathError};

#[test]
fn base64_round_trip_any_bytes() {
    // arbitrary byte sequences, several of them invalid UTF-8, survive the
    // round trip through the outside encoder and our verified decoder
    let cases: Vec<Vec<u8>> = vec![
        Vec::new(),
        b"a".to_vec(),
        b"ab".to_vec(),
        b"abc".to_vec(),
        b"abcd".to_vec(),
        vec![0x66, 0x6f, 0x80, 0x6f],
        vec![0x00, 0xff, 0xfe, 0x01, 0x80, 0xc3],
        (0u8..=255u8).collect(),
    ];
    for bytes in cases {
        let encoded = base64::encode(&bytes);
        let data = ArbitraryData::from_base64(encoded.as_bytes()).unwrap();
        assert_eq!(data.to_vec(), bytes);
    }
}

#[test]
fn base64_decode_error_on_malformed_input() {
    // wrong length
    assert_eq!(ArbitraryData::from_base64(b"QQ="), Err(DecodeError));
    // character outside the alphabet
    assert_eq!(ArbitraryData::from_base64(b"Q?=="), Err(DecodeError));
    // padding in the middle
    assert_eq!(ArbitraryData::from_base64(b"QQ==QQ=="), Err(DecodeError));
    // non-zero trailing bits
    assert_eq!(ArbitraryData::from_base64(b"QR=="), Err(DecodeError));
}

#[test]
fn base64_decodes_canonical_forms() {
    assert_eq!(
        ArbitraryData::from_base64(b"QQ==").unwrap().to_vec(),
        b"A".to_vec()
    );
    assert_eq!(
        ArbitraryData::from_base64(b"QUI=").unwrap().to_vec(),
        b"AB".to_vec()
    );
    assert_eq!(
        ArbitraryData::from_base64(b"QUJD").unwrap().to_vec(),
        b"ABC".to_vec()
    );
    assert_eq!(ArbitraryData::from_base64(b"").unwrap().to_vec(), Vec::<u8>::new());
}

#[test]
fn from_text_keeps_exact_bytes() {
    let data = ArbitraryData::from_text(String::from("héllo"));
    assert_eq!(data.to_vec(), "héllo".as_bytes().to_vec());
    assert_eq!(data.lossy_utf8(), "héllo");
}

#[test]
fn equality_is_over_raw_bytes() {
    let text = ArbitraryData::from_text(String::from("AB"));
    let blob = ArbitraryData::from_base64(b"QUI=").unwrap();
    // same bytes, different provenance: equal
    assert_eq!(text, blob);
    let other = ArbitraryData::from_text(String::from("AC"));
    assert_ne!(text, other);
}

#[test]
fn invalid_path_error_on_non_text_bytes() {
    // the verified core builds path values from text alone and reports
    // non-text bytes with this error; the byte-exact channel (`to_vec`)
    // serves platforms whose paths admit arbitrary bytes
    let blob = ArbitraryData::from_base64(b"gA==").unwrap();
    assert_eq!(blob.to_vec(), vec![0x80]);
    assert_eq!(blob.to_path_buf(), Err(InvalidPathError));
}
