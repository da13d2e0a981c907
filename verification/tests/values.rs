//! Width-prefixed value encodings at every width boundary.
use avg32::val::{scene_value, Val, ValType, Pos};
use avg32::codec::{Writeable, CodecError};

fn roundtrip(bytes: &[u8]) {
    let (v, end) = scene_value(bytes, 0).unwrap();
    assert_eq!(end, bytes.len());
    let mut out = Vec::new();
    v.write(&mut out).unwrap();
    assert_eq!(bytes, &out[..]);
}

#[test]
fn parse_value() {
    assert_eq!(Val(0x00, ValType::Const), scene_value(&[0x10], 0).unwrap().0);
    assert_eq!(Val(0x0F, ValType::Const), scene_value(&[0x1F], 0).unwrap().0);
    assert_eq!(Val(0x01, ValType::Var), scene_value(&[0x91], 0).unwrap().0);
    assert_eq!(Val(0x800, ValType::Const), scene_value(&[0x20, 0x80], 0).unwrap().0);
    assert_eq!(Val(0x40804, ValType::Const), scene_value(&[0x34, 0x80, 0x40], 0).unwrap().0);
    assert_eq!(Val(0xFFFFF, ValType::Const), scene_value(&[0x3F, 0xFF, 0xFF], 0).unwrap().0);
    assert_eq!(
        Val(0x0A7D9F8, ValType::Const),
        scene_value(&[0x48, 0x9F, 0x7D, 0x0A], 0).unwrap().0
    );
    assert_eq!(
        Val(0xFFFFFFF, ValType::Const),
        scene_value(&[0x4F, 0xFF, 0xFF, 0xFF], 0).unwrap().0
    );
}

#[test]
fn test_roundtrip_value() {
    roundtrip(&[0x10]);
    roundtrip(&[0x1F]);
    roundtrip(&[0x91]);
    roundtrip(&[0x20, 0x80]);
    roundtrip(&[0x3F, 0x80, 0x40]);
    roundtrip(&[0x3F, 0xFF, 0xFF]);
    roundtrip(&[0x48, 0x9F, 0x7D, 0x0A]);
    roundtrip(&[0x4F, 0xFF, 0xFF, 0xFF]);
}

#[test]
fn value_width_boundaries() {
    // minimal widths on each side of every boundary
    assert_eq!(1, Val(0x0F, ValType::Const).byte_size());
    assert_eq!(2, Val(0x10, ValType::Const).byte_size());
    assert_eq!(2, Val(0xFFF, ValType::Const).byte_size());
    assert_eq!(3, Val(0x1000, ValType::Const).byte_size());
    assert_eq!(3, Val(0xFFFFF, ValType::Const).byte_size());
    assert_eq!(4, Val(0x100000, ValType::Const).byte_size());
    assert_eq!(4, Val(0xFFFFFFF, ValType::Const).byte_size());
    assert_eq!(5, Val(0x10000000, ValType::Const).byte_size());
}

#[test]
fn variable_kind_flag() {
    let mut out = Vec::new();
    Val(0x01, ValType::Var).write(&mut out).unwrap();
    assert_eq!(vec![0x91], out);
}

#[test]
fn value_size_matches_write() {
    for v in [
        Val(0, ValType::Const),
        Val(0x10, ValType::Var),
        Val(0xFFF, ValType::Const),
        Val(0x12345, ValType::Var),
        Val(0xFFFFFFF, ValType::Const),
        Val(0xFFFFFFFF, ValType::Var),
    ] {
        let mut out = Vec::new();
        v.write(&mut out).unwrap();
        assert_eq!(v.byte_size(), out.len());
    }
}

#[test]
fn value_accepts_nonminimal_widths() {
    // a two-byte encoding of a value that fits one byte parses, consuming
    // both bytes; re-serialization is minimal, so the images differ
    let (v, end) = scene_value(&[0x20, 0x00], 0).unwrap();
    assert_eq!(Val(0, ValType::Const), v);
    assert_eq!(2, end);
    assert_eq!(1, v.byte_size());
    // a six-byte width consumes six bytes; only thirty-two bits survive
    let (v, end) = scene_value(&[0x60, 0x01, 0x02, 0x03, 0x04, 0x05], 0).unwrap();
    assert_eq!(Val(0x40302010, ValType::Const), v);
    assert_eq!(6, end);
}

#[test]
fn value_rejects_malformed_encodings() {
    // a zero width field cannot be assembled
    assert_eq!(Err(CodecError::MalformedVal), scene_value(&[0x0F], 0).map(|p| p.0));
    // a fifth payload byte beyond the value domain
    assert_eq!(
        Err(CodecError::MalformedVal),
        scene_value(&[0x5F, 0xFF, 0xFF, 0xFF, 0x10], 0).map(|p| p.0)
    );
}

#[test]
fn value_rejects_short_input() {
    assert_eq!(Err(CodecError::UnexpectedEof), scene_value(&[], 0).map(|p| p.0));
    assert_eq!(Err(CodecError::UnexpectedEof), scene_value(&[0x20], 0).map(|p| p.0));
}

#[test]
fn pos_writes_offsets_only() {
    let mut out = Vec::new();
    Pos::Offset(0x01020304).write(&mut out).unwrap();
    assert_eq!(vec![0x04, 0x03, 0x02, 0x01], out);
    let mut out2 = Vec::new();
    assert_eq!(
        Err(CodecError::UncompiledPos),
        Pos::Label(String::from("start")).write(&mut out2)
    );
}
