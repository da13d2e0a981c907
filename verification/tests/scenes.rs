//! Whole-scene parsing, byte-exact re-serialization, and the label pass.
use avg32::scene::{load_bytes, AVG32Scene};
use avg32::codec::{Writeable, CodecError};
use avg32::labels::{resolve_labels, compile_labels};
use avg32::opcode::Opcode;
use avg32::val::Pos;

/// A minimal header: the tag, zeroed opaque runs, no labels, no menus.
fn header_bytes() -> Vec<u8> {
    let mut b = Vec::new();
    b.extend_from_slice(b"TPC32");
    b.extend_from_slice(&[0u8; 0x13]);
    b.extend_from_slice(&0u32.to_le_bytes()); // label count
    b.extend_from_slice(&0u32.to_le_bytes()); // counter start
    b.extend_from_slice(&[0u8; 0x30]);
    b.extend_from_slice(&0u32.to_le_bytes()); // menu count
    b.extend_from_slice(&[0u8; 0x05]);
    b
}

fn scene_bytes(opcodes: &[u8]) -> Vec<u8> {
    let mut b = header_bytes();
    b.extend_from_slice(opcodes);
    b.push(0);
    b
}

fn roundtrip(bytes: &[u8]) -> AVG32Scene {
    let scene = load_bytes(bytes).unwrap();
    let mut out = Vec::new();
    scene.write(&mut out).unwrap();
    assert_eq!(bytes, &out[..]);
    out.clear();
    assert_eq!(scene.byte_size(), bytes.len());
    scene
}

#[test]
fn minimal_scene_roundtrip() {
    let bytes = scene_bytes(&[0x01, 0x02, 0x03]);
    let scene = roundtrip(&bytes);
    assert_eq!(3, scene.opcodes.len());
}

#[test]
fn empty_stream_keeps_sentinel() {
    // even with no opcodes the wire form ends in the required NUL
    let bytes = scene_bytes(&[]);
    let scene = roundtrip(&bytes);
    assert_eq!(0, scene.opcodes.len());
    let mut out = Vec::new();
    scene.write(&mut out).unwrap();
    assert_eq!(Some(&0u8), out.last());
}

#[test]
fn scene_with_jumps_roundtrip() {
    // a jump back to the start and a conditional jump to the second opcode
    let mut ops = Vec::new();
    ops.extend_from_slice(&[0x1c, 0x00, 0x00, 0x00, 0x00]);
    ops.extend_from_slice(&[0x15, 0x28, 0x39, 0x11, 0x12, 0x29, 0x05, 0x00, 0x00, 0x00]);
    let bytes = scene_bytes(&ops);
    roundtrip(&bytes);
}

#[test]
fn scene_rejects_bad_magic() {
    let mut bytes = scene_bytes(&[0x01]);
    bytes[0] = b'X';
    assert_eq!(Err(CodecError::InvalidMagic), load_bytes(&bytes));
}

#[test]
fn scene_rejects_trailing_bytes() {
    let mut bytes = scene_bytes(&[0x01]);
    bytes.push(0x77);
    assert_eq!(Err(CodecError::TrailingBytes), load_bytes(&bytes));
}

#[test]
fn scene_write_refuses_symbolic_positions() {
    let bytes = scene_bytes(&[0x01]);
    let mut scene = load_bytes(&bytes).unwrap();
    scene.opcodes.push(Opcode::Jump(Pos::Label(String::from("start"))));
    let mut out = Vec::new();
    assert_eq!(Err(CodecError::UncompiledPos), scene.write(&mut out));
}

#[test]
fn label_pass_names_targets() {
    let mut ops = Vec::new();
    ops.extend_from_slice(&[0x1c, 0x00, 0x00, 0x00, 0x00]);
    ops.extend_from_slice(&[0x15, 0x28, 0x39, 0x11, 0x12, 0x29, 0x05, 0x00, 0x00, 0x00]);
    let bytes = scene_bytes(&ops);
    let scene = load_bytes(&bytes).unwrap();
    let resolved = resolve_labels(scene).unwrap();
    let names: Vec<&str> = resolved.labels.iter().map(|l| l.name.as_str()).collect();
    assert_eq!(vec!["start", "condition_0x5"], names);
    match &resolved.labels[0].opcodes[0] {
        Opcode::Jump(Pos::Label(n)) => assert_eq!("start", n),
        other => panic!("unexpected opcode {:?}", other),
    }
    match &resolved.labels[1].opcodes[0] {
        Opcode::Condition(_, Pos::Label(n)) => assert_eq!("condition_0x5", n),
        other => panic!("unexpected opcode {:?}", other),
    }
}

#[test]
fn label_pass_roundtrip() {
    let mut ops = Vec::new();
    ops.extend_from_slice(&[0x1c, 0x00, 0x00, 0x00, 0x00]);
    ops.extend_from_slice(&[0x15, 0x28, 0x39, 0x11, 0x12, 0x29, 0x05, 0x00, 0x00, 0x00]);
    ops.extend_from_slice(&[0x1d, 0x02, 0x11, 0x05, 0x00, 0x00, 0x00, 0x00, 0x00, 0x00, 0x00]);
    let bytes = scene_bytes(&ops);
    let scene = load_bytes(&bytes).unwrap();
    let resolved = resolve_labels(scene.clone()).unwrap();
    let back = compile_labels(resolved).unwrap();
    assert_eq!(scene, back);
    let mut out = Vec::new();
    back.write(&mut out).unwrap();
    assert_eq!(bytes, out);
}

#[test]
fn label_pass_prefers_least_kind() {
    // a jump and a call both target offset 10; the call kind wins the name
    let mut ops = Vec::new();
    ops.extend_from_slice(&[0x1c, 0x0a, 0x00, 0x00, 0x00]);
    ops.extend_from_slice(&[0x1b, 0x0a, 0x00, 0x00, 0x00]);
    ops.push(0x01);
    let bytes = scene_bytes(&ops);
    let scene = load_bytes(&bytes).unwrap();
    let resolved = resolve_labels(scene).unwrap();
    let names: Vec<&str> = resolved.labels.iter().map(|l| l.name.as_str()).collect();
    assert_eq!(vec!["start", "call_0xa"], names);
}

#[test]
fn label_pass_rejects_misaligned_target() {
    // a jump into the middle of the second opcode
    let mut ops = Vec::new();
    ops.extend_from_slice(&[0x1c, 0x07, 0x00, 0x00, 0x00]);
    ops.extend_from_slice(&[0x15, 0x28, 0x39, 0x11, 0x12, 0x29, 0x05, 0x00, 0x00, 0x00]);
    let bytes = scene_bytes(&ops);
    let scene = load_bytes(&bytes).unwrap();
    assert_eq!(Err(CodecError::MisalignedOpcode(7)), resolve_labels(scene));
}

#[test]
fn label_pass_rejects_already_resolved() {
    let bytes = scene_bytes(&[0x01]);
    let mut scene = load_bytes(&bytes).unwrap();
    scene.opcodes.push(Opcode::Jump(Pos::Label(String::from("start"))));
    assert_eq!(Err(CodecError::LabelsAlreadyResolved), resolve_labels(scene));
}

#[test]
fn compile_rejects_unknown_label() {
    let bytes = scene_bytes(&[0x1c, 0x00, 0x00, 0x00, 0x00]);
    let scene = load_bytes(&bytes).unwrap();
    let mut resolved = resolve_labels(scene).unwrap();
    resolved.labels[0].opcodes[0] = Opcode::Jump(Pos::Label(String::from("nowhere")));
    assert_eq!(
        Err(CodecError::UnknownLabel(String::from("nowhere"))),
        compile_labels(resolved)
    );
}

#[test]
fn compile_rejects_unresolved_positions() {
    let bytes = scene_bytes(&[0x1c, 0x00, 0x00, 0x00, 0x00]);
    let scene = load_bytes(&bytes).unwrap();
    let mut resolved = resolve_labels(scene).unwrap();
    resolved.labels[0].opcodes[0] = Opcode::Jump(Pos::Offset(0));
    assert_eq!(Err(CodecError::LabelsNotResolved), compile_labels(resolved));
}

#[test]
fn scene_accepts_nonminimal_values() {
    // a flag assignment whose first operand wastes a byte still loads; the
    // re-serialized form is minimal and one byte shorter
    let bytes = scene_bytes(&[0x37, 0x20, 0x00, 0x11]);
    let scene = load_bytes(&bytes).unwrap();
    let mut out = Vec::new();
    scene.write(&mut out).unwrap();
    assert_eq!(bytes.len() - 1, out.len());
}
