//! The scene opcode: the top-level tagged union of every instruction, its
//! byte image, and its parser. Writing emits the dispatch byte and the
//! payload; `byte_size` is exactly the length of what `write` emits, which
//! is what the label pass sums to compute instruction addresses.
use vstd::prelude::*;
use crate::codec::{CodecError, Writeable, read_u8, read_u32, sys_version_geq, seq_wire, seq_wf, seq_compiled, lemma_seq_wire_push, lemma_subrange_glue};
use crate::val::{Val, val_wire, scene_value, Pos, scene_pos};
use crate::text::{SceneText, scene_text, FormattedTextCmd, formatted_text_cmd};
use crate::cond::{Condition, scene_conditions};
use crate::cmds::{TextWinCmd, text_win_cmd, FadeCmd, fade_cmd, JumpToSceneCmd, jump_to_scene_cmd, ScreenShakeCmd, screen_shake_cmd, WaitCmd, wait_cmd, RetCmd, ret_cmd, ScenarioMenuCmd, scenario_menu_cmd, TextRankCmd, text_rank_cmd, StringCmd, string_cmd, SetMultiCmd, set_multi_cmd, MouseCtrlCmd, mouse_ctrl_cmd, VolumeCmd, set_vol_cmd, NovelModeCmd, novel_mode_cmd};
use crate::winsys::{WindowVarCmd, window_var_cmd, MessageWinCmd, message_win_cmd, SystemVarCmd, system_var_cmd, PopupMenuCmd, popup_menu_cmd, SystemCmd, system_cmd, NameCmd, name_cmd, AreaBufferCmd, area_buffer_cmd, FlashGrpCmd, flash_grp_cmd};
use crate::choice::{ChoiceCmd, choice_cmd, MultiPdtCmd, multi_pdt_cmd};
use crate::grp::{GrpCmd, grp_cmd};
use crate::snd::{SndCmd, snd_cmd};
use crate::buffer::{BufferRegionGrpCmd, buffer_region_grp_cmd, BufferGrpCmd, buffer_grp_cmd};

verus! {

broadcast use lemma_subrange_glue;

/// One scene instruction. Control-flow variants carry `Pos` operands that
/// the label pass rewrites between byte offsets and symbolic names; the
/// scenario-menu family keeps its two dispatch bytes apart so that writing
/// restores the byte that was read.
#[derive(Debug, PartialEq, Eq, Clone)]
pub enum Opcode {
    WaitMouse,
    Newline,
    WaitMouseText,
    TextWin(TextWinCmd),
    Op0x05,
    Op0x06,
    Op0x08,
    Op0x0c,
    Graphics(GrpCmd),
    Sound(SndCmd),
    DrawValText(FormattedTextCmd),
    Fade(FadeCmd),
    Condition(Vec<Condition>, Pos),
    JumpToScene(JumpToSceneCmd),
    ScreenShake(ScreenShakeCmd),
    Op0x18,
    Wait(WaitCmd),
    Op0x1a,
    Call(Pos),
    Jump(Pos),
    TableCall(Val, Vec<Pos>),
    TableJump(Val, Vec<Pos>),
    Return(RetCmd),
    Unknown0x22,
    Unknown0x23,
    Unknown0x24,
    Unknown0x25,
    Unknown0x26,
    Unknown0x27,
    Unknown0x28,
    Unknown0x29,
    Op0x2c,
    Op0x2d,
    ScenarioMenu(ScenarioMenuCmd),
    ScenarioMenu2(ScenarioMenuCmd),
    Op0x30,
    TextRank(TextRankCmd),
    SetFlag(Val, Val),
    CopyFlag(Val, Val),
    SetValLiteral(Val, Val),
    AddVal(Val, Val),
    SubVal(Val, Val),
    MulVal(Val, Val),
    DivVal(Val, Val),
    ModVal(Val, Val),
    AndVal(Val, Val),
    OrVal(Val, Val),
    XorVal(Val, Val),
    SetVal(Val, Val),
    AddValSelf(Val, Val),
    SubValSelf(Val, Val),
    MulValSelf(Val, Val),
    DivValSelf(Val, Val),
    ModValSelf(Val, Val),
    AndValSelf(Val, Val),
    OrValSelf(Val, Val),
    XorValSelf(Val, Val),
    SetFlagRandom(Val),
    SetValRandom(Val, Val),
    Choice(ChoiceCmd),
    String(StringCmd),
    Op0x5b,
    SetMulti(SetMultiCmd),
    Op0x5d,
    Op0x5e,
    Op0x5f,
    System(SystemCmd),
    Name(NameCmd),
    Op0x63,
    BufferRegion(BufferRegionGrpCmd),
    Unknown0x65,
    Buffer(BufferGrpCmd),
    Flash(FlashGrpCmd),
    Op0x69,
    MultiPdt(MultiPdtCmd),
    Op0x66,
    AreaBuffer(AreaBufferCmd),
    MouseCtrl(MouseCtrlCmd),
    Op0x6e,
    Op0x6f,
    WindowVar(WindowVarCmd),
    MessageWin(MessageWinCmd),
    SystemVar(SystemVarCmd),
    PopupMenu(PopupMenuCmd),
    Volume(VolumeCmd),
    NovelMode(NovelModeCmd),
    Op0x7f,
    Unknown0xea(Val),
    TextHankaku(Option<u32>, SceneText),
    TextZenkaku(Option<u32>, SceneText),
}

impl Writeable for Opcode {
    open spec fn wire(&self) -> Seq<u8> {
        match self {
            Opcode::WaitMouse => seq![0x1u8],
            Opcode::Newline => seq![0x2u8],
            Opcode::WaitMouseText => seq![0x3u8],
            Opcode::Unknown0x22 => seq![0x22u8],
            Opcode::Unknown0x23 => seq![0x23u8],
            Opcode::Unknown0x24 => seq![0x24u8],
            Opcode::Unknown0x25 => seq![0x25u8],
            Opcode::Unknown0x26 => seq![0x26u8],
            Opcode::Unknown0x27 => seq![0x27u8],
            Opcode::Unknown0x28 => seq![0x28u8],
            Opcode::Unknown0x29 => seq![0x29u8],
            Opcode::Unknown0x65 => seq![0x65u8],
            Opcode::Op0x05 => seq![0x5u8],
            Opcode::Op0x06 => seq![0x6u8],
            Opcode::Op0x08 => seq![0x8u8],
            Opcode::Op0x0c => seq![0xcu8],
            Opcode::Op0x18 => seq![0x18u8],
            Opcode::Op0x1a => seq![0x1au8],
            Opcode::Op0x2c => seq![0x2cu8],
            Opcode::Op0x2d => seq![0x2du8],
            Opcode::Op0x30 => seq![0x30u8],
            Opcode::Op0x5b => seq![0x5bu8],
            Opcode::Op0x5d => seq![0x5du8],
            Opcode::Op0x5e => seq![0x5eu8],
            Opcode::Op0x5f => seq![0x5fu8],
            Opcode::Op0x63 => seq![0x63u8],
            Opcode::Op0x66 => seq![0x66u8],
            Opcode::Op0x69 => seq![0x69u8],
            Opcode::Op0x6e => seq![0x6eu8],
            Opcode::Op0x6f => seq![0x6fu8],
            Opcode::Op0x7f => seq![0x7fu8],
            Opcode::TextWin(a) => seq![0x4u8] + a.wire(),
            Opcode::Graphics(a) => seq![0xbu8] + a.wire(),
            Opcode::Sound(a) => seq![0xeu8] + a.wire(),
            Opcode::DrawValText(a) => seq![0x10u8] + a.wire(),
            Opcode::Fade(a) => seq![0x13u8] + a.wire(),
            Opcode::JumpToScene(a) => seq![0x16u8] + a.wire(),
            Opcode::ScreenShake(a) => seq![0x17u8] + a.wire(),
            Opcode::Wait(a) => seq![0x19u8] + a.wire(),
            Opcode::Return(a) => seq![0x20u8] + a.wire(),
            Opcode::ScenarioMenu(a) => seq![0x2eu8] + a.wire(),
            Opcode::ScenarioMenu2(a) => seq![0x2fu8] + a.wire(),
            Opcode::TextRank(a) => seq![0x31u8] + a.wire(),
            Opcode::Choice(a) => seq![0x58u8] + a.wire(),
            Opcode::String(a) => seq![0x59u8] + a.wire(),
            Opcode::SetMulti(a) => seq![0x5cu8] + a.wire(),
            Opcode::System(a) => seq![0x60u8] + a.wire(),
            Opcode::Name(a) => seq![0x61u8] + a.wire(),
            Opcode::BufferRegion(a) => seq![0x64u8] + a.wire(),
            Opcode::Buffer(a) => seq![0x67u8] + a.wire(),
            Opcode::Flash(a) => seq![0x68u8] + a.wire(),
            Opcode::MultiPdt(a) => seq![0x6au8] + a.wire(),
            Opcode::AreaBuffer(a) => seq![0x6cu8] + a.wire(),
            Opcode::MouseCtrl(a) => seq![0x6du8] + a.wire(),
            Opcode::WindowVar(a) => seq![0x70u8] + a.wire(),
            Opcode::MessageWin(a) => seq![0x72u8] + a.wire(),
            Opcode::SystemVar(a) => seq![0x73u8] + a.wire(),
            Opcode::PopupMenu(a) => seq![0x74u8] + a.wire(),
            Opcode::Volume(a) => seq![0x75u8] + a.wire(),
            Opcode::NovelMode(a) => seq![0x76u8] + a.wire(),
            Opcode::Condition(cs, p) => seq![0x15u8] + seq_wire(cs@) + p.wire(),
            Opcode::Call(p) => seq![0x1bu8] + p.wire(),
            Opcode::Jump(p) => seq![0x1cu8] + p.wire(),
            Opcode::TableCall(v, ps) => seq![0x1du8, ps@.len() as u8] + val_wire(*v) + seq_wire(ps@),
            Opcode::TableJump(v, ps) => seq![0x1eu8, ps@.len() as u8] + val_wire(*v) + seq_wire(ps@),
            Opcode::SetFlag(a, b) => seq![0x37u8] + val_wire(*a) + val_wire(*b),
            Opcode::CopyFlag(a, b) => seq![0x39u8] + val_wire(*a) + val_wire(*b),
            Opcode::SetValLiteral(a, b) => seq![0x3bu8] + val_wire(*a) + val_wire(*b),
            Opcode::AddVal(a, b) => seq![0x3cu8] + val_wire(*a) + val_wire(*b),
            Opcode::SubVal(a, b) => seq![0x3du8] + val_wire(*a) + val_wire(*b),
            Opcode::MulVal(a, b) => seq![0x3eu8] + val_wire(*a) + val_wire(*b),
            Opcode::DivVal(a, b) => seq![0x3fu8] + val_wire(*a) + val_wire(*b),
            Opcode::ModVal(a, b) => seq![0x40u8] + val_wire(*a) + val_wire(*b),
            Opcode::AndVal(a, b) => seq![0x41u8] + val_wire(*a) + val_wire(*b),
            Opcode::OrVal(a, b) => seq![0x42u8] + val_wire(*a) + val_wire(*b),
            Opcode::XorVal(a, b) => seq![0x43u8] + val_wire(*a) + val_wire(*b),
            Opcode::SetVal(a, b) => seq![0x49u8] + val_wire(*a) + val_wire(*b),
            Opcode::AddValSelf(a, b) => seq![0x4au8] + val_wire(*a) + val_wire(*b),
            Opcode::SubValSelf(a, b) => seq![0x4bu8] + val_wire(*a) + val_wire(*b),
            Opcode::MulValSelf(a, b) => seq![0x4cu8] + val_wire(*a) + val_wire(*b),
            Opcode::DivValSelf(a, b) => seq![0x4du8] + val_wire(*a) + val_wire(*b),
            Opcode::ModValSelf(a, b) => seq![0x4eu8] + val_wire(*a) + val_wire(*b),
            Opcode::AndValSelf(a, b) => seq![0x4fu8] + val_wire(*a) + val_wire(*b),
            Opcode::OrValSelf(a, b) => seq![0x50u8] + val_wire(*a) + val_wire(*b),
            Opcode::XorValSelf(a, b) => seq![0x51u8] + val_wire(*a) + val_wire(*b),
            Opcode::SetValRandom(a, b) => seq![0x57u8] + val_wire(*a) + val_wire(*b),
            Opcode::SetFlagRandom(a) => seq![0x56u8] + val_wire(*a),
            Opcode::Unknown0xea(a) => seq![0xeau8] + val_wire(*a),
            Opcode::TextHankaku(idx, t) => seq![0xfeu8] + idx.wire() + t.wire(),
            Opcode::TextZenkaku(idx, t) => seq![0xffu8] + idx.wire() + t.wire(),
        }
    }

    open spec fn wf(&self) -> bool {
        match self {
            Opcode::TextWin(a) => a.wf(),
            Opcode::Graphics(a) => a.wf(),
            Opcode::Sound(a) => a.wf(),
            Opcode::DrawValText(a) => a.wf(),
            Opcode::Fade(a) => a.wf(),
            Opcode::JumpToScene(a) => a.wf(),
            Opcode::ScreenShake(a) => a.wf(),
            Opcode::Wait(a) => a.wf(),
            Opcode::Return(a) => a.wf(),
            Opcode::ScenarioMenu(a) => a.wf(),
            Opcode::ScenarioMenu2(a) => a.wf(),
            Opcode::TextRank(a) => a.wf(),
            Opcode::Choice(a) => a.wf(),
            Opcode::String(a) => a.wf(),
            Opcode::SetMulti(a) => a.wf(),
            Opcode::System(a) => a.wf(),
            Opcode::Name(a) => a.wf(),
            Opcode::BufferRegion(a) => a.wf(),
            Opcode::Buffer(a) => a.wf(),
            Opcode::Flash(a) => a.wf(),
            Opcode::MultiPdt(a) => a.wf(),
            Opcode::AreaBuffer(a) => a.wf(),
            Opcode::MouseCtrl(a) => a.wf(),
            Opcode::WindowVar(a) => a.wf(),
            Opcode::MessageWin(a) => a.wf(),
            Opcode::SystemVar(a) => a.wf(),
            Opcode::PopupMenu(a) => a.wf(),
            Opcode::Volume(a) => a.wf(),
            Opcode::NovelMode(a) => a.wf(),
            Opcode::Condition(cs, p) => seq_wf(cs@),
            Opcode::TableCall(_, ps) => ps@.len() <= 255,
            Opcode::TableJump(_, ps) => ps@.len() <= 255,
            Opcode::TextHankaku(_, t) => t.wf(),
            Opcode::TextZenkaku(_, t) => t.wf(),
            _ => true,
        }
    }

    open spec fn compiled(&self) -> bool {
        match self {
            Opcode::Condition(_, p) => p.compiled(),
            Opcode::Call(p) => p.compiled(),
            Opcode::Jump(p) => p.compiled(),
            Opcode::TableCall(_, ps) => seq_compiled(ps@),
            Opcode::TableJump(_, ps) => seq_compiled(ps@),
            _ => true,
        }
    }

    #[verifier::rlimit(100)]
    #[verifier::spinoff_prover]
    fn byte_size(&self) -> (r: usize) {
        match self {
            Opcode::WaitMouse => 1,
            Opcode::Newline => 1,
            Opcode::WaitMouseText => 1,
            Opcode::Unknown0x22 => 1,
            Opcode::Unknown0x23 => 1,
            Opcode::Unknown0x24 => 1,
            Opcode::Unknown0x25 => 1,
            Opcode::Unknown0x26 => 1,
            Opcode::Unknown0x27 => 1,
            Opcode::Unknown0x28 => 1,
            Opcode::Unknown0x29 => 1,
            Opcode::Unknown0x65 => 1,
            Opcode::Op0x05 => 1,
            Opcode::Op0x06 => 1,
            Opcode::Op0x08 => 1,
            Opcode::Op0x0c => 1,
            Opcode::Op0x18 => 1,
            Opcode::Op0x1a => 1,
            Opcode::Op0x2c => 1,
            Opcode::Op0x2d => 1,
            Opcode::Op0x30 => 1,
            Opcode::Op0x5b => 1,
            Opcode::Op0x5d => 1,
            Opcode::Op0x5e => 1,
            Opcode::Op0x5f => 1,
            Opcode::Op0x63 => 1,
            Opcode::Op0x66 => 1,
            Opcode::Op0x69 => 1,
            Opcode::Op0x6e => 1,
            Opcode::Op0x6f => 1,
            Opcode::Op0x7f => 1,
            Opcode::TextWin(a) => 1 + a.byte_size(),
            Opcode::Graphics(a) => 1 + a.byte_size(),
            Opcode::Sound(a) => 1 + a.byte_size(),
            Opcode::DrawValText(a) => 1 + a.byte_size(),
            Opcode::Fade(a) => 1 + a.byte_size(),
            Opcode::JumpToScene(a) => 1 + a.byte_size(),
            Opcode::ScreenShake(a) => 1 + a.byte_size(),
            Opcode::Wait(a) => 1 + a.byte_size(),
            Opcode::Return(a) => 1 + a.byte_size(),
            Opcode::ScenarioMenu(a) => 1 + a.byte_size(),
            Opcode::ScenarioMenu2(a) => 1 + a.byte_size(),
            Opcode::TextRank(a) => 1 + a.byte_size(),
            Opcode::Choice(a) => 1 + a.byte_size(),
            Opcode::String(a) => 1 + a.byte_size(),
            Opcode::SetMulti(a) => 1 + a.byte_size(),
            Opcode::System(a) => 1 + a.byte_size(),
            Opcode::Name(a) => 1 + a.byte_size(),
            Opcode::BufferRegion(a) => 1 + a.byte_size(),
            Opcode::Buffer(a) => 1 + a.byte_size(),
            Opcode::Flash(a) => 1 + a.byte_size(),
            Opcode::MultiPdt(a) => 1 + a.byte_size(),
            Opcode::AreaBuffer(a) => 1 + a.byte_size(),
            Opcode::MouseCtrl(a) => 1 + a.byte_size(),
            Opcode::WindowVar(a) => 1 + a.byte_size(),
            Opcode::MessageWin(a) => 1 + a.byte_size(),
            Opcode::SystemVar(a) => 1 + a.byte_size(),
            Opcode::PopupMenu(a) => 1 + a.byte_size(),
            Opcode::Volume(a) => 1 + a.byte_size(),
            Opcode::NovelMode(a) => 1 + a.byte_size(),
            Opcode::Condition(cs, p) => 1 + cs.byte_size() + p.byte_size(),
            Opcode::Call(p) => 1 + p.byte_size(),
            Opcode::Jump(p) => 1 + p.byte_size(),
            Opcode::TableCall(v, ps) => 2 + v.byte_size() + ps.byte_size(),
            Opcode::TableJump(v, ps) => 2 + v.byte_size() + ps.byte_size(),
            Opcode::SetFlag(a, b) => 1 + a.byte_size() + b.byte_size(),
            Opcode::CopyFlag(a, b) => 1 + a.byte_size() + b.byte_size(),
            Opcode::SetValLiteral(a, b) => 1 + a.byte_size() + b.byte_size(),
            Opcode::AddVal(a, b) => 1 + a.byte_size() + b.byte_size(),
            Opcode::SubVal(a, b) => 1 + a.byte_size() + b.byte_size(),
            Opcode::MulVal(a, b) => 1 + a.byte_size() + b.byte_size(),
            Opcode::DivVal(a, b) => 1 + a.byte_size() + b.byte_size(),
            Opcode::ModVal(a, b) => 1 + a.byte_size() + b.byte_size(),
            Opcode::AndVal(a, b) => 1 + a.byte_size() + b.byte_size(),
            Opcode::OrVal(a, b) => 1 + a.byte_size() + b.byte_size(),
            Opcode::XorVal(a, b) => 1 + a.byte_size() + b.byte_size(),
            Opcode::SetVal(a, b) => 1 + a.byte_size() + b.byte_size(),
            Opcode::AddValSelf(a, b) => 1 + a.byte_size() + b.byte_size(),
            Opcode::SubValSelf(a, b) => 1 + a.byte_size() + b.byte_size(),
            Opcode::MulValSelf(a, b) => 1 + a.byte_size() + b.byte_size(),
            Opcode::DivValSelf(a, b) => 1 + a.byte_size() + b.byte_size(),
            Opcode::ModValSelf(a, b) => 1 + a.byte_size() + b.byte_size(),
            Opcode::AndValSelf(a, b) => 1 + a.byte_size() + b.byte_size(),
            Opcode::OrValSelf(a, b) => 1 + a.byte_size() + b.byte_size(),
            Opcode::XorValSelf(a, b) => 1 + a.byte_size() + b.byte_size(),
            Opcode::SetValRandom(a, b) => 1 + a.byte_size() + b.byte_size(),
            Opcode::SetFlagRandom(a) => 1 + a.byte_size(),
            Opcode::Unknown0xea(a) => 1 + a.byte_size(),
            Opcode::TextHankaku(idx, t) => 1 + idx.byte_size() + t.byte_size(),
            Opcode::TextZenkaku(idx, t) => 1 + idx.byte_size() + t.byte_size(),
        }
    }

    #[verifier::rlimit(100)]
    #[verifier::spinoff_prover]
    fn write(&self, out: &mut Vec<u8>) -> (r: Result<(), CodecError>)
        ensures
            r is Err ==> r == Err::<(), CodecError>(CodecError::UncompiledPos),
    {
        match self {
            Opcode::WaitMouse => out.push(0x1),
            Opcode::Newline => out.push(0x2),
            Opcode::WaitMouseText => out.push(0x3),
            Opcode::Unknown0x22 => out.push(0x22),
            Opcode::Unknown0x23 => out.push(0x23),
            Opcode::Unknown0x24 => out.push(0x24),
            Opcode::Unknown0x25 => out.push(0x25),
            Opcode::Unknown0x26 => out.push(0x26),
            Opcode::Unknown0x27 => out.push(0x27),
            Opcode::Unknown0x28 => out.push(0x28),
            Opcode::Unknown0x29 => out.push(0x29),
            Opcode::Unknown0x65 => out.push(0x65),
            Opcode::Op0x05 => out.push(0x5),
            Opcode::Op0x06 => out.push(0x6),
            Opcode::Op0x08 => out.push(0x8),
            Opcode::Op0x0c => out.push(0xc),
            Opcode::Op0x18 => out.push(0x18),
            Opcode::Op0x1a => out.push(0x1a),
            Opcode::Op0x2c => out.push(0x2c),
            Opcode::Op0x2d => out.push(0x2d),
            Opcode::Op0x30 => out.push(0x30),
            Opcode::Op0x5b => out.push(0x5b),
            Opcode::Op0x5d => out.push(0x5d),
            Opcode::Op0x5e => out.push(0x5e),
            Opcode::Op0x5f => out.push(0x5f),
            Opcode::Op0x63 => out.push(0x63),
            Opcode::Op0x66 => out.push(0x66),
            Opcode::Op0x69 => out.push(0x69),
            Opcode::Op0x6e => out.push(0x6e),
            Opcode::Op0x6f => out.push(0x6f),
            Opcode::Op0x7f => out.push(0x7f),
            Opcode::TextWin(a) => {
                out.push(0x4);
                a.write(out)?;
            },
            Opcode::Graphics(a) => {
                out.push(0xb);
                a.write(out)?;
            },
            Opcode::Sound(a) => {
                out.push(0xe);
                a.write(out)?;
            },
            Opcode::DrawValText(a) => {
                out.push(0x10);
                a.write(out)?;
            },
            Opcode::Fade(a) => {
                out.push(0x13);
                a.write(out)?;
            },
            Opcode::JumpToScene(a) => {
                out.push(0x16);
                a.write(out)?;
            },
            Opcode::ScreenShake(a) => {
                out.push(0x17);
                a.write(out)?;
            },
            Opcode::Wait(a) => {
                out.push(0x19);
                a.write(out)?;
            },
            Opcode::Return(a) => {
                out.push(0x20);
                a.write(out)?;
            },
            Opcode::ScenarioMenu(a) => {
                out.push(0x2e);
                a.write(out)?;
            },
            Opcode::ScenarioMenu2(a) => {
                out.push(0x2f);
                a.write(out)?;
            },
            Opcode::TextRank(a) => {
                out.push(0x31);
                a.write(out)?;
            },
            Opcode::Choice(a) => {
                out.push(0x58);
                a.write(out)?;
            },
            Opcode::String(a) => {
                out.push(0x59);
                a.write(out)?;
            },
            Opcode::SetMulti(a) => {
                out.push(0x5c);
                a.write(out)?;
            },
            Opcode::System(a) => {
                out.push(0x60);
                a.write(out)?;
            },
            Opcode::Name(a) => {
                out.push(0x61);
                a.write(out)?;
            },
            Opcode::BufferRegion(a) => {
                out.push(0x64);
                a.write(out)?;
            },
            Opcode::Buffer(a) => {
                out.push(0x67);
                a.write(out)?;
            },
            Opcode::Flash(a) => {
                out.push(0x68);
                a.write(out)?;
            },
            Opcode::MultiPdt(a) => {
                out.push(0x6a);
                a.write(out)?;
            },
            Opcode::AreaBuffer(a) => {
                out.push(0x6c);
                a.write(out)?;
            },
            Opcode::MouseCtrl(a) => {
                out.push(0x6d);
                a.write(out)?;
            },
            Opcode::WindowVar(a) => {
                out.push(0x70);
                a.write(out)?;
            },
            Opcode::MessageWin(a) => {
                out.push(0x72);
                a.write(out)?;
            },
            Opcode::SystemVar(a) => {
                out.push(0x73);
                a.write(out)?;
            },
            Opcode::PopupMenu(a) => {
                out.push(0x74);
                a.write(out)?;
            },
            Opcode::Volume(a) => {
                out.push(0x75);
                a.write(out)?;
            },
            Opcode::NovelMode(a) => {
                out.push(0x76);
                a.write(out)?;
            },
            Opcode::Condition(cs, p) => {
                out.push(0x15);
                proof {
                    assert(seq_compiled(cs@));
                }
                cs.write(out)?;
                p.write(out)?;
            },
            Opcode::Call(p) => {
                out.push(0x1b);
                p.write(out)?;
            },
            Opcode::Jump(p) => {
                out.push(0x1c);
                p.write(out)?;
            },
            Opcode::TableCall(v, ps) => {
                out.push(0x1d);
                out.push(ps.len() as u8);
                v.write(out)?;
                write_pos_list(ps, out)?;
                assert(seq![0x1du8, ps@.len() as u8] =~= seq![0x1du8] + seq![ps@.len() as u8]);
            },
            Opcode::TableJump(v, ps) => {
                out.push(0x1e);
                out.push(ps.len() as u8);
                v.write(out)?;
                write_pos_list(ps, out)?;
                assert(seq![0x1eu8, ps@.len() as u8] =~= seq![0x1eu8] + seq![ps@.len() as u8]);
            },
            Opcode::SetFlag(a, b) => {
                out.push(0x37);
                a.write(out)?;
                b.write(out)?;
            },
            Opcode::CopyFlag(a, b) => {
                out.push(0x39);
                a.write(out)?;
                b.write(out)?;
            },
            Opcode::SetValLiteral(a, b) => {
                out.push(0x3b);
                a.write(out)?;
                b.write(out)?;
            },
            Opcode::AddVal(a, b) => {
                out.push(0x3c);
                a.write(out)?;
                b.write(out)?;
            },
            Opcode::SubVal(a, b) => {
                out.push(0x3d);
                a.write(out)?;
                b.write(out)?;
            },
            Opcode::MulVal(a, b) => {
                out.push(0x3e);
                a.write(out)?;
                b.write(out)?;
            },
            Opcode::DivVal(a, b) => {
                out.push(0x3f);
                a.write(out)?;
                b.write(out)?;
            },
            Opcode::ModVal(a, b) => {
                out.push(0x40);
                a.write(out)?;
                b.write(out)?;
            },
            Opcode::AndVal(a, b) => {
                out.push(0x41);
                a.write(out)?;
                b.write(out)?;
            },
            Opcode::OrVal(a, b) => {
                out.push(0x42);
                a.write(out)?;
                b.write(out)?;
            },
            Opcode::XorVal(a, b) => {
                out.push(0x43);
                a.write(out)?;
                b.write(out)?;
            },
            Opcode::SetVal(a, b) => {
                out.push(0x49);
                a.write(out)?;
                b.write(out)?;
            },
            Opcode::AddValSelf(a, b) => {
                out.push(0x4a);
                a.write(out)?;
                b.write(out)?;
            },
            Opcode::SubValSelf(a, b) => {
                out.push(0x4b);
                a.write(out)?;
                b.write(out)?;
            },
            Opcode::MulValSelf(a, b) => {
                out.push(0x4c);
                a.write(out)?;
                b.write(out)?;
            },
            Opcode::DivValSelf(a, b) => {
                out.push(0x4d);
                a.write(out)?;
                b.write(out)?;
            },
            Opcode::ModValSelf(a, b) => {
                out.push(0x4e);
                a.write(out)?;
                b.write(out)?;
            },
            Opcode::AndValSelf(a, b) => {
                out.push(0x4f);
                a.write(out)?;
                b.write(out)?;
            },
            Opcode::OrValSelf(a, b) => {
                out.push(0x50);
                a.write(out)?;
                b.write(out)?;
            },
            Opcode::XorValSelf(a, b) => {
                out.push(0x51);
                a.write(out)?;
                b.write(out)?;
            },
            Opcode::SetValRandom(a, b) => {
                out.push(0x57);
                a.write(out)?;
                b.write(out)?;
            },
            Opcode::SetFlagRandom(a) => {
                out.push(0x56);
                a.write(out)?;
            },
            Opcode::Unknown0xea(a) => {
                out.push(0xea);
                a.write(out)?;
            },
            Opcode::TextHankaku(idx, t) => {
                out.push(0xfe);
                idx.write(out)?;
                t.write(out)?;
            },
            Opcode::TextZenkaku(idx, t) => {
                out.push(0xff);
                idx.write(out)?;
                t.write(out)?;
            },
        }
        assert(out@ =~= old(out)@ + self.wire());
        Ok(())
    }
}

/// Emit a position list; fails exactly on a symbolic position, and then
/// with the serializer's error.
fn write_pos_list(ps: &Vec<Pos>, out: &mut Vec<u8>) -> (r: Result<(), CodecError>)
    requires
        old(out)@.len() + seq_wire(ps@).len() <= usize::MAX,
    ensures
        r is Ok <==> seq_compiled(ps@),
        r is Ok ==> final(out)@ == old(out)@ + seq_wire(ps@),
        r is Err ==> r == Err::<(), CodecError>(CodecError::UncompiledPos),
{
    proof {
        crate::codec::lemma_seq_wire_len_bound(ps@, ps@.len() as int);
    }
    let mut i: usize = 0;
    while i < ps.len()
        invariant
            i <= ps@.len(),
            out@ == old(out)@ + seq_wire(ps@.subrange(0, i as int)),
            seq_compiled(ps@.subrange(0, i as int)),
            old(out)@.len() + seq_wire(ps@).len() <= usize::MAX,
            forall|k: int| 0 <= k <= ps@.len() ==>
                #[trigger] seq_wire(ps@.subrange(0, k)).len() <= seq_wire(ps@).len(),
        decreases ps@.len() - i,
    {
        proof {
            assert(ps@.subrange(0, i + 1) =~= ps@.subrange(0, i as int).push(ps@[i as int]));
            lemma_seq_wire_push(ps@.subrange(0, i as int), ps@[i as int]);
            assert(seq_wire(ps@.subrange(0, i + 1)).len() <= seq_wire(ps@).len());
            assert(seq_wire(ps@.subrange(0, i + 1)).len()
                == seq_wire(ps@.subrange(0, i as int)).len() + ps@[i as int].wire().len());
        }
        match (&ps[i]).write(out) {
            Ok(()) => {},
            Err(e) => {
                proof {
                    assert(!ps@[i as int].compiled());
                    assert(!seq_compiled(ps@));
                }
                return Err(e);
            },
        }
        proof {
            assert(out@ =~= old(out)@ + seq_wire(ps@.subrange(0, i + 1)));
            assert(seq_compiled(ps@.subrange(0, i + 1))) by {
                assert(forall|k: int| 0 <= k < i + 1 ==> ps@.subrange(0, i + 1)[k]
                    == #[trigger] ps@.subrange(0, i as int).push(ps@[i as int])[k]);
            };
        }
        i = i + 1;
    }
    proof {
        assert(ps@.subrange(0, ps@.len() as int) =~= ps@);
        assert(seq_compiled(ps@)) by {
            assert(forall|k: int| 0 <= k < ps@.len() ==>
                #[trigger] ps@[k] == ps@.subrange(0, ps@.len() as int)[k]);
        };
    }
    Ok(())
}

/// The dispatch bytes the opcode table knows.
pub open spec fn known_opcode_tag(t: u8) -> bool {
    ||| t == 0x01 ||| t == 0x02 ||| t == 0x03 ||| t == 0x04 ||| t == 0x0b ||| t == 0x0e
    ||| t == 0x10 ||| t == 0x13 ||| t == 0x15 ||| t == 0x16 ||| t == 0x17 ||| t == 0x19
    ||| t == 0x1b ||| t == 0x1c ||| t == 0x1d ||| t == 0x1e ||| t == 0x20 ||| t == 0x22
    ||| t == 0x23 ||| t == 0x24 ||| t == 0x25 ||| t == 0x26 ||| t == 0x27 ||| t == 0x28
    ||| t == 0x29 ||| t == 0x2e ||| t == 0x2f ||| t == 0x31 ||| t == 0x37 ||| t == 0x39
    ||| t == 0x3b ||| t == 0x3c ||| t == 0x3d ||| t == 0x3e ||| t == 0x3f ||| t == 0x40
    ||| t == 0x41 ||| t == 0x42 ||| t == 0x43 ||| t == 0x49 ||| t == 0x4a ||| t == 0x4b
    ||| t == 0x4c ||| t == 0x4d ||| t == 0x4e ||| t == 0x4f ||| t == 0x50 ||| t == 0x51
    ||| t == 0x56 ||| t == 0x57 ||| t == 0x58 ||| t == 0x59 ||| t == 0x5c ||| t == 0x60
    ||| t == 0x61 ||| t == 0x64 ||| t == 0x65 ||| t == 0x67 ||| t == 0x68 ||| t == 0x6a
    ||| t == 0x6c ||| t == 0x6d ||| t == 0x70 ||| t == 0x72 ||| t == 0x73 ||| t == 0x74
    ||| t == 0x75 ||| t == 0x76 ||| t == 0xea ||| t == 0xfe ||| t == 0xff
}

/// Parse a count-prefixed list of byte-offset positions.
fn pos_list(s: &[u8], pos: usize, count: u8) -> (r: Result<(Vec<Pos>, usize), CodecError>)
    requires
        pos <= s@.len(),
    ensures
        r matches Ok((ps, end)) ==> pos <= end <= s@.len() && ps@.len() == count
            && seq_compiled(ps@)
            && seq_wire(ps@) == s@.subrange(pos as int, end as int),
        r matches Err(e) ==> crate::codec::parse_error(e),
{
    let mut ps: Vec<Pos> = Vec::new();
    let mut cur: usize = pos;
    let mut k: usize = 0;
    while k < count as usize
        invariant
            pos <= cur <= s@.len(),
            k <= count as usize,
            ps@.len() == k,
            seq_wire(ps@) == s@.subrange(pos as int, cur as int),
            seq_compiled(ps@),
        decreases count as usize - k,
    {
        let (p, nx) = scene_pos(s, cur)?;
        proof {
            lemma_seq_wire_push(ps@, p);
            assert(s@.subrange(pos as int, cur as int) + s@.subrange(cur as int, nx as int)
                == s@.subrange(pos as int, nx as int));
        }
        ps.push(p);
        cur = nx;
        k = k + 1;
    }
    Ok((ps, cur))
}

/// Parse the opcodes whose dispatch byte is below `0x20`.
#[verifier::rlimit(100)]
#[verifier::spinoff_prover]
fn opcode_low(s: &[u8], pos: usize) -> (r: Result<(Opcode, usize), CodecError>)
    requires
        pos <= s@.len(),
    ensures
        r matches Ok((op, end)) ==> pos < end <= s@.len() && op.wf() && op.compiled()
            && op.wire().len() <= end - pos
            && (op.wire().len() == end - pos ==> op.wire() == s@.subrange(pos as int, end as int)),
        pos < s@.len() && !known_opcode_tag(s@[pos as int]) ==> r == Err::<(Opcode, usize),
            CodecError>(CodecError::UnknownOpcode(s@[pos as int])),
        r matches Ok((op, end)) ==> (op matches Opcode::TextHankaku(idx, _) ==> idx is Some)
            && (op matches Opcode::TextZenkaku(idx, _) ==> idx is Some),
        r matches Err(e) ==> crate::codec::parse_error(e),
{
    let (tag, p0) = read_u8(s, pos)?;
    proof {
        assert(s@.subrange(pos as int, p0 as int)[0] == tag);
        assert(s@[pos as int] == tag);
    }
    match tag {
        0x1 | 0x2 | 0x3 => {
            let op = match tag {
                0x1 => Opcode::WaitMouse,
                0x2 => Opcode::Newline,
                _ => Opcode::WaitMouseText,
            };
            proof {
                assert(op.wire().len() <= p0 - pos);
                if op.wire().len() == p0 - pos {
                    assert(op.wire() =~= s@.subrange(pos as int, p0 as int));
                }
            }
            Ok((op, p0))
        },
        0x4 => {
            let (a, p1) = text_win_cmd(s, p0)?;
            let op = Opcode::TextWin(a);
            proof {
                assert(s@.subrange(pos as int, p0 as int) + s@.subrange(p0 as int, p1 as int)
                    == s@.subrange(pos as int, p1 as int));
                assert(op.wire().len() <= p1 - pos);
                if op.wire().len() == p1 - pos {
                    assert(op.wire() =~= s@.subrange(pos as int, p1 as int));
                }
            }
            Ok((op, p1))
        },
        0xb => {
            let (a, p1) = grp_cmd(s, p0)?;
            let op = Opcode::Graphics(a);
            proof {
                assert(s@.subrange(pos as int, p0 as int) + s@.subrange(p0 as int, p1 as int)
                    == s@.subrange(pos as int, p1 as int));
                assert(op.wire().len() <= p1 - pos);
                if op.wire().len() == p1 - pos {
                    assert(op.wire() =~= s@.subrange(pos as int, p1 as int));
                }
            }
            Ok((op, p1))
        },
        0xe => {
            let (a, p1) = snd_cmd(s, p0)?;
            let op = Opcode::Sound(a);
            proof {
                assert(s@.subrange(pos as int, p0 as int) + s@.subrange(p0 as int, p1 as int)
                    == s@.subrange(pos as int, p1 as int));
                assert(op.wire().len() <= p1 - pos);
                if op.wire().len() == p1 - pos {
                    assert(op.wire() =~= s@.subrange(pos as int, p1 as int));
                }
            }
            Ok((op, p1))
        },
        0x10 => {
            let (a, p1) = formatted_text_cmd(s, p0)?;
            let op = Opcode::DrawValText(a);
            proof {
                assert(s@.subrange(pos as int, p0 as int) + s@.subrange(p0 as int, p1 as int)
                    == s@.subrange(pos as int, p1 as int));
                assert(op.wire().len() <= p1 - pos);
                if op.wire().len() == p1 - pos {
                    assert(op.wire() =~= s@.subrange(pos as int, p1 as int));
                }
            }
            Ok((op, p1))
        },
        0x13 => {
            let (a, p1) = fade_cmd(s, p0)?;
            let op = Opcode::Fade(a);
            proof {
                assert(s@.subrange(pos as int, p0 as int) + s@.subrange(p0 as int, p1 as int)
                    == s@.subrange(pos as int, p1 as int));
                assert(op.wire().len() <= p1 - pos);
                if op.wire().len() == p1 - pos {
                    assert(op.wire() =~= s@.subrange(pos as int, p1 as int));
                }
            }
            Ok((op, p1))
        },
        0x16 => {
            let (a, p1) = jump_to_scene_cmd(s, p0)?;
            let op = Opcode::JumpToScene(a);
            proof {
                assert(s@.subrange(pos as int, p0 as int) + s@.subrange(p0 as int, p1 as int)
                    == s@.subrange(pos as int, p1 as int));
                assert(op.wire().len() <= p1 - pos);
                if op.wire().len() == p1 - pos {
                    assert(op.wire() =~= s@.subrange(pos as int, p1 as int));
                }
            }
            Ok((op, p1))
        },
        0x17 => {
            let (a, p1) = screen_shake_cmd(s, p0)?;
            let op = Opcode::ScreenShake(a);
            proof {
                assert(s@.subrange(pos as int, p0 as int) + s@.subrange(p0 as int, p1 as int)
                    == s@.subrange(pos as int, p1 as int));
                assert(op.wire().len() <= p1 - pos);
                if op.wire().len() == p1 - pos {
                    assert(op.wire() =~= s@.subrange(pos as int, p1 as int));
                }
            }
            Ok((op, p1))
        },
        0x19 => {
            let (a, p1) = wait_cmd(s, p0)?;
            let op = Opcode::Wait(a);
            proof {
                assert(s@.subrange(pos as int, p0 as int) + s@.subrange(p0 as int, p1 as int)
                    == s@.subrange(pos as int, p1 as int));
                assert(op.wire().len() <= p1 - pos);
                if op.wire().len() == p1 - pos {
                    assert(op.wire() =~= s@.subrange(pos as int, p1 as int));
                }
            }
            Ok((op, p1))
        },
        0x15 => {
            let (cs, p1) = scene_conditions(s, p0)?;
            let (p, p2) = scene_pos(s, p1)?;
            let op = Opcode::Condition(cs, p);
            proof {
                assert(seq_wf(cs@));
                assert(s@.subrange(pos as int, p0 as int) + s@.subrange(p0 as int, p1 as int)
                    == s@.subrange(pos as int, p1 as int));
                assert(s@.subrange(pos as int, p1 as int) + s@.subrange(p1 as int, p2 as int)
                    == s@.subrange(pos as int, p2 as int));
                assert(op.wire().len() <= p2 - pos);
                if op.wire().len() == p2 - pos {
                    assert(op.wire() =~= s@.subrange(pos as int, p2 as int));
                }
            }
            Ok((op, p2))
        },
        0x1b | 0x1c => {
            let (p, p1) = scene_pos(s, p0)?;
            let op = if tag == 0x1b {
                Opcode::Call(p)
            } else {
                Opcode::Jump(p)
            };
            proof {
                assert(s@.subrange(pos as int, p0 as int) + s@.subrange(p0 as int, p1 as int)
                    == s@.subrange(pos as int, p1 as int));
                assert(op.wire().len() <= p1 - pos);
                if op.wire().len() == p1 - pos {
                    assert(op.wire() =~= s@.subrange(pos as int, p1 as int));
                }
            }
            Ok((op, p1))
        },
        0x1d | 0x1e => {
            let (count, p1) = read_u8(s, p0)?;
            let (v, p2) = scene_value(s, p1)?;
            let (ps, p3) = pos_list(s, p2, count)?;
            let op = if tag == 0x1d {
                Opcode::TableCall(v, ps)
            } else {
                Opcode::TableJump(v, ps)
            };
            proof {
                assert(s@.subrange(pos as int, p0 as int) + s@.subrange(p0 as int, p1 as int)
                    == s@.subrange(pos as int, p1 as int));
                assert(s@.subrange(pos as int, p1 as int) + s@.subrange(p1 as int, p2 as int)
                    == s@.subrange(pos as int, p2 as int));
                assert(s@.subrange(pos as int, p2 as int) + s@.subrange(p2 as int, p3 as int)
                    == s@.subrange(pos as int, p3 as int));
                assert(seq![tag, count] =~= s@.subrange(pos as int, p0 as int)
                    + s@.subrange(p0 as int, p1 as int));
                assert(op.wire().len() <= p3 - pos);
                if op.wire().len() == p3 - pos {
                    assert(op.wire() =~= s@.subrange(pos as int, p3 as int));
                }
            }
            Ok((op, p3))
        },
        _ => Err(CodecError::UnknownOpcode(tag)),
    }
}

/// Parse the opcodes whose dispatch byte is in `0x20..0x58`.
#[verifier::rlimit(100)]
#[verifier::spinoff_prover]
fn opcode_mid(s: &[u8], pos: usize) -> (r: Result<(Opcode, usize), CodecError>)
    requires
        pos <= s@.len(),
    ensures
        r matches Ok((op, end)) ==> pos < end <= s@.len() && op.wf() && op.compiled()
            && op.wire().len() <= end - pos
            && (op.wire().len() == end - pos ==> op.wire() == s@.subrange(pos as int, end as int)),
        pos < s@.len() && !known_opcode_tag(s@[pos as int]) ==> r == Err::<(Opcode, usize),
            CodecError>(CodecError::UnknownOpcode(s@[pos as int])),
        r matches Ok((op, end)) ==> (op matches Opcode::TextHankaku(idx, _) ==> idx is Some)
            && (op matches Opcode::TextZenkaku(idx, _) ==> idx is Some),
        r matches Err(e) ==> crate::codec::parse_error(e),
{
    let (tag, p0) = read_u8(s, pos)?;
    proof {
        assert(s@.subrange(pos as int, p0 as int)[0] == tag);
        assert(s@[pos as int] == tag);
    }
    match tag {
        0x22 | 0x23 | 0x24 | 0x25 | 0x26 | 0x27 | 0x28 | 0x29 => {
            let op = match tag {
                0x22 => Opcode::Unknown0x22,
                0x23 => Opcode::Unknown0x23,
                0x24 => Opcode::Unknown0x24,
                0x25 => Opcode::Unknown0x25,
                0x26 => Opcode::Unknown0x26,
                0x27 => Opcode::Unknown0x27,
                0x28 => Opcode::Unknown0x28,
                _ => Opcode::Unknown0x29,
            };
            proof {
                assert(op.wire().len() <= p0 - pos);
                if op.wire().len() == p0 - pos {
                    assert(op.wire() =~= s@.subrange(pos as int, p0 as int));
                }
            }
            Ok((op, p0))
        },
        0x20 => {
            let (a, p1) = ret_cmd(s, p0)?;
            let op = Opcode::Return(a);
            proof {
                assert(s@.subrange(pos as int, p0 as int) + s@.subrange(p0 as int, p1 as int)
                    == s@.subrange(pos as int, p1 as int));
                assert(op.wire().len() <= p1 - pos);
                if op.wire().len() == p1 - pos {
                    assert(op.wire() =~= s@.subrange(pos as int, p1 as int));
                }
            }
            Ok((op, p1))
        },
        0x2e => {
            let (a, p1) = scenario_menu_cmd(s, p0)?;
            let op = Opcode::ScenarioMenu(a);
            proof {
                assert(s@.subrange(pos as int, p0 as int) + s@.subrange(p0 as int, p1 as int)
                    == s@.subrange(pos as int, p1 as int));
                assert(op.wire().len() <= p1 - pos);
                if op.wire().len() == p1 - pos {
                    assert(op.wire() =~= s@.subrange(pos as int, p1 as int));
                }
            }
            Ok((op, p1))
        },
        0x2f => {
            let (a, p1) = scenario_menu_cmd(s, p0)?;
            let op = Opcode::ScenarioMenu2(a);
            proof {
                assert(s@.subrange(pos as int, p0 as int) + s@.subrange(p0 as int, p1 as int)
                    == s@.subrange(pos as int, p1 as int));
                assert(op.wire().len() <= p1 - pos);
                if op.wire().len() == p1 - pos {
                    assert(op.wire() =~= s@.subrange(pos as int, p1 as int));
                }
            }
            Ok((op, p1))
        },
        0x31 => {
            let (a, p1) = text_rank_cmd(s, p0)?;
            let op = Opcode::TextRank(a);
            proof {
                assert(s@.subrange(pos as int, p0 as int) + s@.subrange(p0 as int, p1 as int)
                    == s@.subrange(pos as int, p1 as int));
                assert(op.wire().len() <= p1 - pos);
                if op.wire().len() == p1 - pos {
                    assert(op.wire() =~= s@.subrange(pos as int, p1 as int));
                }
            }
            Ok((op, p1))
        },
        0x37 | 0x39 | 0x3b | 0x3c | 0x3d | 0x3e | 0x3f | 0x40 | 0x41 | 0x42 | 0x43 | 0x49 | 0x4a | 0x4b | 0x4c | 0x4d | 0x4e | 0x4f | 0x50 | 0x51 | 0x57 => {
            let (a, p1) = scene_value(s, p0)?;
            let (b, p2) = scene_value(s, p1)?;
            let op = match tag {
                0x37 => Opcode::SetFlag(a, b),
                0x39 => Opcode::CopyFlag(a, b),
                0x3b => Opcode::SetValLiteral(a, b),
                0x3c => Opcode::AddVal(a, b),
                0x3d => Opcode::SubVal(a, b),
                0x3e => Opcode::MulVal(a, b),
                0x3f => Opcode::DivVal(a, b),
                0x40 => Opcode::ModVal(a, b),
                0x41 => Opcode::AndVal(a, b),
                0x42 => Opcode::OrVal(a, b),
                0x43 => Opcode::XorVal(a, b),
                0x49 => Opcode::SetVal(a, b),
                0x4a => Opcode::AddValSelf(a, b),
                0x4b => Opcode::SubValSelf(a, b),
                0x4c => Opcode::MulValSelf(a, b),
                0x4d => Opcode::DivValSelf(a, b),
                0x4e => Opcode::ModValSelf(a, b),
                0x4f => Opcode::AndValSelf(a, b),
                0x50 => Opcode::OrValSelf(a, b),
                0x51 => Opcode::XorValSelf(a, b),
                _ => Opcode::SetValRandom(a, b),
            };
            proof {
                assert(s@.subrange(pos as int, p0 as int) + s@.subrange(p0 as int, p1 as int)
                    == s@.subrange(pos as int, p1 as int));
                assert(s@.subrange(pos as int, p1 as int) + s@.subrange(p1 as int, p2 as int)
                    == s@.subrange(pos as int, p2 as int));
                assert(op.wire().len() <= p2 - pos);
                if op.wire().len() == p2 - pos {
                    assert(op.wire() =~= s@.subrange(pos as int, p2 as int));
                }
            }
            Ok((op, p2))
        },
        0x56 => {
            let (a, p1) = scene_value(s, p0)?;
            let op = Opcode::SetFlagRandom(a);
            proof {
                assert(s@.subrange(pos as int, p0 as int) + s@.subrange(p0 as int, p1 as int)
                    == s@.subrange(pos as int, p1 as int));
                assert(op.wire().len() <= p1 - pos);
                if op.wire().len() == p1 - pos {
                    assert(op.wire() =~= s@.subrange(pos as int, p1 as int));
                }
            }
            Ok((op, p1))
        },
        _ => Err(CodecError::UnknownOpcode(tag)),
    }
}

/// Parse the opcodes whose dispatch byte is in `0x58..0x80`.
#[verifier::rlimit(100)]
#[verifier::spinoff_prover]
fn opcode_high(s: &[u8], pos: usize) -> (r: Result<(Opcode, usize), CodecError>)
    requires
        pos <= s@.len(),
    ensures
        r matches Ok((op, end)) ==> pos < end <= s@.len() && op.wf() && op.compiled()
            && op.wire().len() <= end - pos
            && (op.wire().len() == end - pos ==> op.wire() == s@.subrange(pos as int, end as int)),
        pos < s@.len() && !known_opcode_tag(s@[pos as int]) ==> r == Err::<(Opcode, usize),
            CodecError>(CodecError::UnknownOpcode(s@[pos as int])),
        r matches Ok((op, end)) ==> (op matches Opcode::TextHankaku(idx, _) ==> idx is Some)
            && (op matches Opcode::TextZenkaku(idx, _) ==> idx is Some),
        r matches Err(e) ==> crate::codec::parse_error(e),
{
    let (tag, p0) = read_u8(s, pos)?;
    proof {
        assert(s@.subrange(pos as int, p0 as int)[0] == tag);
        assert(s@[pos as int] == tag);
    }
    match tag {
        0x65 => {
            let op = match tag {
                _ => Opcode::Unknown0x65,
            };
            proof {
                assert(op.wire().len() <= p0 - pos);
                if op.wire().len() == p0 - pos {
                    assert(op.wire() =~= s@.subrange(pos as int, p0 as int));
                }
            }
            Ok((op, p0))
        },
        0x58 => {
            let (a, p1) = choice_cmd(s, p0)?;
            let op = Opcode::Choice(a);
            proof {
                assert(s@.subrange(pos as int, p0 as int) + s@.subrange(p0 as int, p1 as int)
                    == s@.subrange(pos as int, p1 as int));
                assert(op.wire().len() <= p1 - pos);
                if op.wire().len() == p1 - pos {
                    assert(op.wire() =~= s@.subrange(pos as int, p1 as int));
                }
            }
            Ok((op, p1))
        },
        0x59 => {
            let (a, p1) = string_cmd(s, p0)?;
            let op = Opcode::String(a);
            proof {
                assert(s@.subrange(pos as int, p0 as int) + s@.subrange(p0 as int, p1 as int)
                    == s@.subrange(pos as int, p1 as int));
                assert(op.wire().len() <= p1 - pos);
                if op.wire().len() == p1 - pos {
                    assert(op.wire() =~= s@.subrange(pos as int, p1 as int));
                }
            }
            Ok((op, p1))
        },
        0x5c => {
            let (a, p1) = set_multi_cmd(s, p0)?;
            let op = Opcode::SetMulti(a);
            proof {
                assert(s@.subrange(pos as int, p0 as int) + s@.subrange(p0 as int, p1 as int)
                    == s@.subrange(pos as int, p1 as int));
                assert(op.wire().len() <= p1 - pos);
                if op.wire().len() == p1 - pos {
                    assert(op.wire() =~= s@.subrange(pos as int, p1 as int));
                }
            }
            Ok((op, p1))
        },
        0x60 => {
            let (a, p1) = system_cmd(s, p0)?;
            let op = Opcode::System(a);
            proof {
                assert(s@.subrange(pos as int, p0 as int) + s@.subrange(p0 as int, p1 as int)
                    == s@.subrange(pos as int, p1 as int));
                assert(op.wire().len() <= p1 - pos);
                if op.wire().len() == p1 - pos {
                    assert(op.wire() =~= s@.subrange(pos as int, p1 as int));
                }
            }
            Ok((op, p1))
        },
        0x61 => {
            let (a, p1) = name_cmd(s, p0)?;
            let op = Opcode::Name(a);
            proof {
                assert(s@.subrange(pos as int, p0 as int) + s@.subrange(p0 as int, p1 as int)
                    == s@.subrange(pos as int, p1 as int));
                assert(op.wire().len() <= p1 - pos);
                if op.wire().len() == p1 - pos {
                    assert(op.wire() =~= s@.subrange(pos as int, p1 as int));
                }
            }
            Ok((op, p1))
        },
        0x64 => {
            let (a, p1) = buffer_region_grp_cmd(s, p0)?;
            let op = Opcode::BufferRegion(a);
            proof {
                assert(s@.subrange(pos as int, p0 as int) + s@.subrange(p0 as int, p1 as int)
                    == s@.subrange(pos as int, p1 as int));
                assert(op.wire().len() <= p1 - pos);
                if op.wire().len() == p1 - pos {
                    assert(op.wire() =~= s@.subrange(pos as int, p1 as int));
                }
            }
            Ok((op, p1))
        },
        0x67 => {
            let (a, p1) = buffer_grp_cmd(s, p0)?;
            let op = Opcode::Buffer(a);
            proof {
                assert(s@.subrange(pos as int, p0 as int) + s@.subrange(p0 as int, p1 as int)
                    == s@.subrange(pos as int, p1 as int));
                assert(op.wire().len() <= p1 - pos);
                if op.wire().len() == p1 - pos {
                    assert(op.wire() =~= s@.subrange(pos as int, p1 as int));
                }
            }
            Ok((op, p1))
        },
        0x68 => {
            let (a, p1) = flash_grp_cmd(s, p0)?;
            let op = Opcode::Flash(a);
            proof {
                assert(s@.subrange(pos as int, p0 as int) + s@.subrange(p0 as int, p1 as int)
                    == s@.subrange(pos as int, p1 as int));
                assert(op.wire().len() <= p1 - pos);
                if op.wire().len() == p1 - pos {
                    assert(op.wire() =~= s@.subrange(pos as int, p1 as int));
                }
            }
            Ok((op, p1))
        },
        0x6a => {
            let (a, p1) = multi_pdt_cmd(s, p0)?;
            let op = Opcode::MultiPdt(a);
            proof {
                assert(s@.subrange(pos as int, p0 as int) + s@.subrange(p0 as int, p1 as int)
                    == s@.subrange(pos as int, p1 as int));
                assert(op.wire().len() <= p1 - pos);
                if op.wire().len() == p1 - pos {
                    assert(op.wire() =~= s@.subrange(pos as int, p1 as int));
                }
            }
            Ok((op, p1))
        },
        0x6c => {
            let (a, p1) = area_buffer_cmd(s, p0)?;
            let op = Opcode::AreaBuffer(a);
            proof {
                assert(s@.subrange(pos as int, p0 as int) + s@.subrange(p0 as int, p1 as int)
                    == s@.subrange(pos as int, p1 as int));
                assert(op.wire().len() <= p1 - pos);
                if op.wire().len() == p1 - pos {
                    assert(op.wire() =~= s@.subrange(pos as int, p1 as int));
                }
            }
            Ok((op, p1))
        },
        0x6d => {
            let (a, p1) = mouse_ctrl_cmd(s, p0)?;
            let op = Opcode::MouseCtrl(a);
            proof {
                assert(s@.subrange(pos as int, p0 as int) + s@.subrange(p0 as int, p1 as int)
                    == s@.subrange(pos as int, p1 as int));
                assert(op.wire().len() <= p1 - pos);
                if op.wire().len() == p1 - pos {
                    assert(op.wire() =~= s@.subrange(pos as int, p1 as int));
                }
            }
            Ok((op, p1))
        },
        0x70 => {
            let (a, p1) = window_var_cmd(s, p0)?;
            let op = Opcode::WindowVar(a);
            proof {
                assert(s@.subrange(pos as int, p0 as int) + s@.subrange(p0 as int, p1 as int)
                    == s@.subrange(pos as int, p1 as int));
                assert(op.wire().len() <= p1 - pos);
                if op.wire().len() == p1 - pos {
                    assert(op.wire() =~= s@.subrange(pos as int, p1 as int));
                }
            }
            Ok((op, p1))
        },
        0x72 => {
            let (a, p1) = message_win_cmd(s, p0)?;
            let op = Opcode::MessageWin(a);
            proof {
                assert(s@.subrange(pos as int, p0 as int) + s@.subrange(p0 as int, p1 as int)
                    == s@.subrange(pos as int, p1 as int));
                assert(op.wire().len() <= p1 - pos);
                if op.wire().len() == p1 - pos {
                    assert(op.wire() =~= s@.subrange(pos as int, p1 as int));
                }
            }
            Ok((op, p1))
        },
        0x73 => {
            let (a, p1) = system_var_cmd(s, p0)?;
            let op = Opcode::SystemVar(a);
            proof {
                assert(s@.subrange(pos as int, p0 as int) + s@.subrange(p0 as int, p1 as int)
                    == s@.subrange(pos as int, p1 as int));
                assert(op.wire().len() <= p1 - pos);
                if op.wire().len() == p1 - pos {
                    assert(op.wire() =~= s@.subrange(pos as int, p1 as int));
                }
            }
            Ok((op, p1))
        },
        0x74 => {
            let (a, p1) = popup_menu_cmd(s, p0)?;
            let op = Opcode::PopupMenu(a);
            proof {
                assert(s@.subrange(pos as int, p0 as int) + s@.subrange(p0 as int, p1 as int)
                    == s@.subrange(pos as int, p1 as int));
                assert(op.wire().len() <= p1 - pos);
                if op.wire().len() == p1 - pos {
                    assert(op.wire() =~= s@.subrange(pos as int, p1 as int));
                }
            }
            Ok((op, p1))
        },
        0x75 => {
            let (a, p1) = set_vol_cmd(s, p0)?;
            let op = Opcode::Volume(a);
            proof {
                assert(s@.subrange(pos as int, p0 as int) + s@.subrange(p0 as int, p1 as int)
                    == s@.subrange(pos as int, p1 as int));
                assert(op.wire().len() <= p1 - pos);
                if op.wire().len() == p1 - pos {
                    assert(op.wire() =~= s@.subrange(pos as int, p1 as int));
                }
            }
            Ok((op, p1))
        },
        0x76 => {
            let (a, p1) = novel_mode_cmd(s, p0)?;
            let op = Opcode::NovelMode(a);
            proof {
                assert(s@.subrange(pos as int, p0 as int) + s@.subrange(p0 as int, p1 as int)
                    == s@.subrange(pos as int, p1 as int));
                assert(op.wire().len() <= p1 - pos);
                if op.wire().len() == p1 - pos {
                    assert(op.wire() =~= s@.subrange(pos as int, p1 as int));
                }
            }
            Ok((op, p1))
        },
        _ => Err(CodecError::UnknownOpcode(tag)),
    }
}

/// Parse the opcodes whose dispatch byte is `0xea` or above: the unknown
/// one-value opcode and the two text opcodes, whose leading index exists
/// from interpreter generation 1714 on.
#[verifier::spinoff_prover]
fn opcode_ext(s: &[u8], pos: usize) -> (r: Result<(Opcode, usize), CodecError>)
    requires
        pos <= s@.len(),
    ensures
        r matches Ok((op, end)) ==> pos < end <= s@.len() && op.wf() && op.compiled()
            && op.wire().len() <= end - pos
            && (op.wire().len() == end - pos ==> op.wire() == s@.subrange(pos as int, end as int)),
        pos < s@.len() && !known_opcode_tag(s@[pos as int]) ==> r == Err::<(Opcode, usize),
            CodecError>(CodecError::UnknownOpcode(s@[pos as int])),
        r matches Ok((op, end)) ==> (op matches Opcode::TextHankaku(idx, _) ==> idx is Some)
            && (op matches Opcode::TextZenkaku(idx, _) ==> idx is Some),
        r matches Err(e) ==> crate::codec::parse_error(e),
{
    let (tag, p0) = read_u8(s, pos)?;
    proof {
        assert(s@.subrange(pos as int, p0 as int)[0] == tag);
        assert(s@[pos as int] == tag);
    }
    match tag {
        0xea => {
            let (a, p1) = scene_value(s, p0)?;
            let op = Opcode::Unknown0xea(a);
            proof {
                assert(s@.subrange(pos as int, p0 as int) + s@.subrange(p0 as int, p1 as int)
                    == s@.subrange(pos as int, p1 as int));
                assert(op.wire().len() <= p1 - pos);
                if op.wire().len() == p1 - pos {
                    assert(op.wire() =~= s@.subrange(pos as int, p1 as int));
                }
            }
            Ok((op, p1))
        },
        0xfe | 0xff => {
            let (idx, p1): (Option<u32>, usize) = if sys_version_geq(1714) {
                let (x, q) = read_u32(s, p0)?;
                (Some(x), q)
            } else {
                (None, p0)
            };
            let (t, p2) = scene_text(s, p1)?;
            let op = if tag == 0xfe {
                Opcode::TextHankaku(idx, t)
            } else {
                Opcode::TextZenkaku(idx, t)
            };
            proof {
                assert(s@.subrange(pos as int, p0 as int) + s@.subrange(p0 as int, p1 as int)
                    == s@.subrange(pos as int, p1 as int));
                assert(s@.subrange(pos as int, p1 as int) + s@.subrange(p1 as int, p2 as int)
                    == s@.subrange(pos as int, p2 as int));
                assert(op.wire().len() <= p2 - pos);
                if op.wire().len() == p2 - pos {
                    assert(op.wire() =~= s@.subrange(pos as int, p2 as int));
                }
            }
            Ok((op, p2))
        },
        _ => Err(CodecError::UnknownOpcode(tag)),
    }
}

/// Parse one opcode at `pos`; `UnknownOpcode` names any dispatch byte
/// outside the table. A parsed opcode's byte image is exactly the consumed
/// bytes, so re-serializing an opcode stream reproduces its input.
pub fn opcode(s: &[u8], pos: usize) -> (r: Result<(Opcode, usize), CodecError>)
    requires
        pos <= s@.len(),
    ensures
        r matches Ok((op, end)) ==> pos < end <= s@.len() && op.wf() && op.compiled()
            && op.wire().len() <= end - pos
            && (op.wire().len() == end - pos ==> op.wire() == s@.subrange(pos as int, end as int)),
        pos < s@.len() && !known_opcode_tag(s@[pos as int]) ==> r == Err::<(Opcode, usize),
            CodecError>(CodecError::UnknownOpcode(s@[pos as int])),
        r matches Ok((op, end)) ==> (op matches Opcode::TextHankaku(idx, _) ==> idx is Some)
            && (op matches Opcode::TextZenkaku(idx, _) ==> idx is Some),
        r matches Err(e) ==> crate::codec::parse_error(e),
{
    if pos >= s.len() {
        return Err(CodecError::UnexpectedEof);
    }
    let tag = s[pos];
    if tag < 0x20 {
        opcode_low(s, pos)
    } else if tag < 0x58 {
        opcode_mid(s, pos)
    } else if tag < 0x80 {
        opcode_high(s, pos)
    } else {
        opcode_ext(s, pos)
    }
}

} // verus!
