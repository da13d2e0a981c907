//! Opcode parsing and byte-exact re-serialization across the dispatch table.
use avg32::opcode::{opcode, Opcode};
use avg32::codec::{Writeable, CodecError};
use avg32::cond::{scene_conditions, Condition};
use avg32::text::{scene_formatted_text, SceneFormattedText, SceneFormattedTextEntry, SceneText};
use avg32::sjis::SjisText;
use avg32::val::{Val, ValType};

fn roundtrip(bytes: &[u8]) -> Opcode {
    let (op, end) = opcode(bytes, 0).unwrap();
    assert_eq!(end, bytes.len(), "consumed length for {:?}", op);
    let mut out = Vec::new();
    op.write(&mut out).unwrap();
    assert_eq!(bytes, &out[..], "reserialization of {:?}", op);
    assert_eq!(op.byte_size(), bytes.len());
    op
}

#[test]
fn bare_opcodes_roundtrip() {
    assert_eq!(Opcode::WaitMouse, roundtrip(&[0x01]));
    assert_eq!(Opcode::Newline, roundtrip(&[0x02]));
    assert_eq!(Opcode::WaitMouseText, roundtrip(&[0x03]));
    assert_eq!(Opcode::Unknown0x22, roundtrip(&[0x22]));
    assert_eq!(Opcode::Unknown0x65, roundtrip(&[0x65]));
}

#[test]
fn value_opcodes_roundtrip() {
    // set a flag, add to a counter, pick a random value
    roundtrip(&[0x37, 0x91, 0x11]);
    roundtrip(&[0x3c, 0x91, 0x20, 0x80]);
    roundtrip(&[0x56, 0x91]);
    roundtrip(&[0x57, 0x91, 0x2F, 0xFF]);
    roundtrip(&[0xea, 0x11]);
}

#[test]
fn control_flow_opcodes_roundtrip() {
    // a call, a jump, and a two-entry jump table
    roundtrip(&[0x1b, 0x10, 0x00, 0x00, 0x00]);
    roundtrip(&[0x1c, 0x00, 0x00, 0x00, 0x00]);
    let op = roundtrip(&[0x1d, 0x02, 0x11, 0xAA, 0x00, 0x00, 0x00, 0xBB, 0x00, 0x00, 0x00]);
    match op {
        Opcode::TableCall(v, ps) => {
            assert_eq!(Val(1, ValType::Const), v);
            assert_eq!(2, ps.len());
        },
        other => panic!("unexpected opcode {:?}", other),
    }
}

#[test]
fn condition_opcode_roundtrip() {
    // IncDepth, an equality atom, DecDepth, then the target offset
    let op = roundtrip(&[0x15, 0x28, 0x39, 0x11, 0x12, 0x29, 0x05, 0x00, 0x00, 0x00]);
    match op {
        Opcode::Condition(cs, _) => {
            assert_eq!(3, cs.len());
            assert_eq!(Condition::IncDepth, cs[0]);
            assert_eq!(Condition::Eq(Val(1, ValType::Const), Val(2, ValType::Const)), cs[1]);
            assert_eq!(Condition::DecDepth, cs[2]);
        },
        other => panic!("unexpected opcode {:?}", other),
    }
}

#[test]
fn condition_list_minimal_roundtrip() {
    // a list of just the brackets and one atom parses and reserializes
    let bytes = [0x28, 0x39, 0x11, 0x12, 0x29];
    let (cs, end) = scene_conditions(&bytes, 0).unwrap();
    assert_eq!(end, bytes.len());
    assert_eq!(3, cs.len());
    let mut out = Vec::new();
    cs.write(&mut out).unwrap();
    assert_eq!(&bytes[..], &out[..]);
}

#[test]
fn condition_rejects_unknown_tag() {
    assert_eq!(
        Err(CodecError::UnknownConditionTag(0x30)),
        scene_conditions(&[0x30], 0).map(|p| p.0)
    );
}

#[test]
fn sound_opcodes_roundtrip() {
    // background music by file name, a stop, an effect by index
    roundtrip(&[0x0e, 0x01, 0x62, 0x67, 0x6d, 0x00]);
    roundtrip(&[0x0e, 0x11]);
    roundtrip(&[0x0e, 0x38]);
    roundtrip(&[0x0e, 0x44, 0x15]);
}

#[test]
fn graphics_opcode_roundtrip() {
    // load an image by name into a buffer
    roundtrip(&[0x0b, 0x01, 0x70, 0x64, 0x74, 0x00, 0x11]);
}

#[test]
fn scenario_menu_keeps_its_dispatch_byte() {
    let a = roundtrip(&[0x2e, 0x01, 0x11]);
    let b = roundtrip(&[0x2f, 0x01, 0x11]);
    assert!(matches!(a, Opcode::ScenarioMenu(_)));
    assert!(matches!(b, Opcode::ScenarioMenu2(_)));
}

#[test]
fn text_opcode_roundtrip() {
    // the version-gated leading index plus a half-width literal
    roundtrip(&[0xfe, 0x07, 0x00, 0x00, 0x00, 0x41, 0x42, 0x00]);
    roundtrip(&[0xff, 0x07, 0x00, 0x00, 0x00, 0x82, 0xa0, 0x00]);
}

#[test]
fn formatted_text_sentinel() {
    // one full-width entry serializes as its tag, the Shift_JIS bytes, the
    // text terminator, and the formatted-text terminator
    let t = SceneFormattedText(vec![SceneFormattedTextEntry::TextZenkaku(SjisText {
        bytes: vec![0x82, 0xa0],
    })]);
    let mut out = Vec::new();
    t.write(&mut out).unwrap();
    assert_eq!(vec![0xff, 0x82, 0xa0, 0x00, 0x00], out);
    let (back, end) = scene_formatted_text(&out, 0).unwrap();
    assert_eq!(out.len(), end);
    assert_eq!(t, back);
}

#[test]
fn choice_opcode_roundtrip() {
    // a choice with the text-block flag, a pad byte, one empty stream, and
    // the end marker
    roundtrip(&[0x58, 0x01, 0x11, 0x22, 0x00, 0x00, 0x23]);
    // a choice without a text block
    roundtrip(&[0x58, 0x01, 0x11, 0x00]);
}

#[test]
fn unknown_opcode_is_reported() {
    assert_eq!(Err(CodecError::UnknownOpcode(0x05)), opcode(&[0x05], 0).map(|p| p.0));
    assert_eq!(Err(CodecError::UnknownOpcode(0x7f)), opcode(&[0x7f], 0).map(|p| p.0));
}

#[test]
fn unknown_subcommand_is_reported() {
    assert_eq!(
        Err(CodecError::UnknownSubcommand(0x04, 0x09)),
        opcode(&[0x04, 0x09], 0).map(|p| p.0)
    );
}

#[test]
fn text_pointer_roundtrip() {
    // a string operand that is a pointer rather than a literal
    let op = roundtrip(&[0x0b, 0x01, 0x40, 0x15, 0x11]);
    match op {
        Opcode::Graphics(avg32::grp::GrpCmd::Load(SceneText::Pointer(v), _)) => {
            assert_eq!(Val(5, ValType::Const), v);
        },
        other => panic!("unexpected opcode {:?}", other),
    }
}

#[test]
fn condition_gap_tags_are_errors() {
    // tags inside the comparison range the table skips fail cleanly
    for t in [0x3cu8, 0x3d, 0x40, 0x4a, 0x4e] {
        assert_eq!(
            Err(CodecError::UnknownConditionTag(t)),
            scene_conditions(&[t, 0x11, 0x12], 0).map(|p| p.0)
        );
    }
    // a Ret attribute outside its table fails with the same kind
    assert_eq!(
        Err(CodecError::UnknownConditionTag(0x23)),
        scene_conditions(&[0x58, 0x23], 0).map(|p| p.0)
    );
}
