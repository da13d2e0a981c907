//! Shift_JIS strings: byte accounting, encoding and decoding through the
//! stored-bytes representation.
use avg32::sjis::{SjisText, c_string};
use avg32::codec::{Writeable, CodecError};

#[test]
fn test_string_size() {
    // five full-width characters encode to two Shift_JIS bytes each,
    // plus the NUL terminator
    let t = SjisText::from_str("あいうえお").unwrap();
    assert_eq!(11, t.byte_size());
}

#[test]
fn encode_differs_from_utf8() {
    let t = SjisText::from_str("あ").unwrap();
    assert_eq!(vec![0x82, 0xa0], t.bytes);
}

#[test]
fn decode_restores_text() {
    let t = SjisText { bytes: vec![0x82, 0xa0] };
    assert_eq!("あ", t.decoded().unwrap());
}

#[test]
fn ascii_text_roundtrip() {
    let t = SjisText::from_str("SEEN011.TXT").unwrap();
    assert_eq!(b"SEEN011.TXT".to_vec(), t.bytes);
    assert_eq!("SEEN011.TXT", t.decoded().unwrap());
    let mut out = Vec::new();
    t.write(&mut out).unwrap();
    assert_eq!(b"SEEN011.TXT\0".to_vec(), out);
}

#[test]
fn c_string_parses_until_nul() {
    let bytes = b"abc\0def";
    let (t, end) = c_string(bytes, 0).unwrap();
    assert_eq!(4, end);
    assert_eq!(b"abc".to_vec(), t.bytes);
}

#[test]
fn c_string_needs_terminator() {
    assert_eq!(Err(CodecError::UnexpectedEof), c_string(b"abc", 0).map(|p| p.0));
}

#[test]
fn c_string_rejects_bad_encoding() {
    // a lone lead byte is not a complete Shift_JIS sequence
    assert_eq!(Err(CodecError::InvalidEncoding), c_string(&[0x81, 0x00], 0).map(|p| p.0));
}
