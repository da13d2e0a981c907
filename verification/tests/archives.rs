//! The container archive and its decompressor.
use avg32::archive::{
    load_bytes, Archive, ArchiveEntry, ArchiveData, decompress, compress,
};
use avg32::sjis::SjisText;
use avg32::codec::{Writeable, CodecError};
use avg32::font;

#[test]
fn test_decompress() {
    let bytes = vec![
        0xFC, 0x54, 0x50, 0x43, 0x33, 0x32, 0x00, 0x0F, 0x00, 0x0F, 0x00, 0x85, 0x01, 0x1F,
        0x01, 0x0F,
    ];
    let mut expected = vec![0x54, 0x50, 0x43, 0x33, 0x32];
    expected.extend_from_slice(&[0u8; 35]);
    assert_eq!(expected, decompress(&bytes, expected.len()).unwrap());
}

#[test]
fn decompress_accepts_stub_compression() {
    let data: Vec<u8> = (0u8..=255).cycle().take(1000).collect();
    let packed = compress(&data);
    assert_eq!(data, decompress(&packed, data.len()).unwrap());
}

#[test]
fn decompress_checks_sizes() {
    assert_eq!(Err(CodecError::UnexpectedEof), decompress(&[], 5));
    // a back reference pointing before the start of the output
    assert_eq!(Err(CodecError::InvalidBackref), decompress(&[0x00, 0x10, 0x00], 5));
}

fn build_archive() -> Archive {
    let mut arc = Archive::new();
    arc.add_entry(String::from("A.TXT"), vec![1u8; 100]).unwrap();
    arc.add_entry(String::from("B.TXT"), vec![2u8; 50]).unwrap();
    arc.finalize();
    arc
}

#[test]
fn archive_finalize_sets_offsets() {
    let arc = build_archive();
    // the directory is 32 bytes of fixed fields plus 32 per entry
    let dir = 32 + 32 * 2;
    assert_eq!(dir as u32, arc.entries[0].offset);
    let blob0 = 16 + arc.data[0].data.len();
    assert_eq!((dir + blob0) as u32, arc.entries[1].offset);
    // each blob's archived size counts its own sixteen-byte header
    assert_eq!(arc.data[0].arcsize as usize, 16 + arc.data[0].data.len());
    assert_eq!(arc.entries[0].filesize, 100);
    assert_eq!(arc.data[1].orgsize, 50);
}

#[test]
fn archive_roundtrip() {
    let arc = build_archive();
    let mut out = Vec::new();
    arc.write(&mut out).unwrap();
    let back = load_bytes(&out).unwrap();
    let mut out2 = Vec::new();
    back.write(&mut out2).unwrap();
    assert_eq!(out, out2);
    assert_eq!(2, back.entries.len());
    assert_eq!(b"A.TXT".to_vec(), back.entries[0].filename.bytes);
    let unpacked = back.data[0].decompress().unwrap();
    assert_eq!(vec![1u8; 100], unpacked);
}

#[test]
fn archive_rejects_bad_magic() {
    assert_eq!(Err(CodecError::InvalidMagic), load_bytes(b"PACKxxxx"));
}

#[test]
fn archive_rejects_trailing_bytes() {
    let arc = build_archive();
    let mut out = Vec::new();
    arc.write(&mut out).unwrap();
    out.push(0);
    assert_eq!(Err(CodecError::TrailingBytes), load_bytes(&out));
}

#[test]
fn archive_rejects_unpadded_name_field() {
    // a stray byte after the name's terminator breaks the zero padding
    let arc = build_archive();
    let mut out = Vec::new();
    arc.write(&mut out).unwrap();
    // the first entry's sixteen-byte name field starts at offset 32
    out[32 + 15] = b'X';
    assert_eq!(Err(CodecError::InvalidEncoding), load_bytes(&out));
    // a name field with no terminator at all fails the same way
    let mut out2 = Vec::new();
    arc.write(&mut out2).unwrap();
    for i in 0..16 {
        out2[32 + i] = b'A';
    }
    assert_eq!(Err(CodecError::InvalidEncoding), load_bytes(&out2));
}

#[test]
fn archive_write_checks_consistency() {
    let mut arc = build_archive();
    arc.data.pop();
    let mut out = Vec::new();
    assert_eq!(Err(CodecError::InconsistentArchive), arc.write(&mut out));
}

#[test]
fn archive_write_checks_filename_length() {
    let mut arc = build_archive();
    arc.entries[0] = ArchiveEntry {
        filename: SjisText { bytes: b"A-FILENAME-LONGER-THAN-THE-FIELD".to_vec() },
        offset: 0,
        arcsize: 16,
        filesize: 0,
        unk1: 1,
    };
    let mut out = Vec::new();
    assert_eq!(Err(CodecError::FilenameTooLong), arc.write(&mut out));
}

#[test]
fn blob_rejects_undersized_header() {
    let d = ArchiveData { entries: 0, orgsize: 0, arcsize: 15, data: Vec::new() };
    let mut out = Vec::new();
    d.write(&mut out).unwrap();
    assert_eq!(
        Err(CodecError::SizeMismatch),
        avg32::archive::archive_data(&out, 0).map(|p| p.0)
    );
}

#[test]
fn font_loads_fixed_records() {
    let bytes = vec![7u8; font::NUM_CHARS * 576];
    let f = font::load_bytes(&bytes).unwrap();
    assert_eq!(font::NUM_CHARS, f.chars.len());
    assert_eq!([7u8; 576], f.chars[0]);
    assert_eq!(Err(CodecError::SizeMismatch), font::load_bytes(&[0u8; 10]).map(|f| f.chars.len()));
}

#[test]
fn add_entry_rejects_bad_names() {
    let mut arc = Archive::new();
    // a name the sixteen-byte field cannot hold
    assert_eq!(
        Err(CodecError::FilenameTooLong),
        arc.add_entry(String::from("A-FILENAME-LONGER-THAN-16.TXT"), vec![1u8; 4])
    );
    // a character Shift_JIS cannot encode
    assert_eq!(
        Err(CodecError::InvalidEncoding),
        arc.add_entry(String::from("€.TXT"), vec![1u8; 4])
    );
    assert_eq!(0, arc.entries.len());
}
