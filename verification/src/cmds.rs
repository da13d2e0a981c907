//! The smaller sub-command families: window text, fades, waits, returns,
//! scene jumps, flag menus, strings, ranged assignments, mouse control,
//! volumes and novel mode. Each family is one tag byte and its payload.
use vstd::prelude::*;
use crate::codec::{CodecError, Writeable, read_u8, lemma_subrange_glue};
use crate::val::{Val, val_wire, scene_value};
use crate::text::{SceneText, scene_text};

verus! {

broadcast use lemma_subrange_glue;

/// Text-window housekeeping commands (family tag `0x04`).
#[derive(Debug, PartialEq, Eq, Clone)]
pub enum TextWinCmd {
    Hide,
    HideEffect,
    HideRedraw,
    MouseWait,
    ClearText,
}

impl Writeable for TextWinCmd {
    open spec fn wire(&self) -> Seq<u8> {
        match self {
            TextWinCmd::Hide => seq![0x01u8],
            TextWinCmd::HideEffect => seq![0x02u8],
            TextWinCmd::HideRedraw => seq![0x03u8],
            TextWinCmd::MouseWait => seq![0x04u8],
            TextWinCmd::ClearText => seq![0x05u8],
        }
    }

    open spec fn wf(&self) -> bool {
        true
    }

    open spec fn compiled(&self) -> bool {
        true
    }

    fn byte_size(&self) -> (r: usize) {
        1
    }

    fn write(&self, out: &mut Vec<u8>) -> (r: Result<(), CodecError>) {
        match self {
            TextWinCmd::Hide => out.push(0x01),
            TextWinCmd::HideEffect => out.push(0x02),
            TextWinCmd::HideRedraw => out.push(0x03),
            TextWinCmd::MouseWait => out.push(0x04),
            TextWinCmd::ClearText => out.push(0x05),
        }
        assert(out@ =~= old(out)@ + self.wire());
        Ok(())
    }
}

/// Parse a text-window command.
pub fn text_win_cmd(s: &[u8], pos: usize) -> (r: Result<(TextWinCmd, usize), CodecError>)
    requires
        pos <= s@.len(),
    ensures
        r matches Ok((c, end)) ==> pos < end <= s@.len() && c.wf()
            && c.wire().len() <= end - pos
            && (c.wire().len() == end - pos ==> c.wire() == s@.subrange(pos as int, end as int)),
        r matches Err(e) ==> crate::codec::parse_error(e),
{
    let (tag, p0) = read_u8(s, pos)?;
    let c = match tag {
        0x01 => TextWinCmd::Hide,
        0x02 => TextWinCmd::HideEffect,
        0x03 => TextWinCmd::HideRedraw,
        0x04 => TextWinCmd::MouseWait,
        0x05 => TextWinCmd::ClearText,
        _ => {
            return Err(CodecError::UnknownSubcommand(0x04, tag));
        },
    };
    proof {
        assert(c.wire().len() <= p0 - pos);
        if c.wire().len() == p0 - pos {
            assert(c.wire() =~= s@.subrange(pos as int, p0 as int));
        }
    }
    Ok((c, p0))
}

/// Fade and fill-screen commands (family tag `0x13`).
#[derive(Debug, PartialEq, Eq, Clone)]
pub enum FadeCmd {
    Fade(Val),
    FadeTimed(Val, Val),
    FadeColor(Val, Val, Val),
    FadeTimedColor(Val, Val, Val, Val),
    FillScreen(Val),
    FillScreenColor(Val, Val, Val),
}

impl Writeable for FadeCmd {
    open spec fn wire(&self) -> Seq<u8> {
        match self {
            FadeCmd::Fade(a) => seq![0x01u8] + val_wire(*a),
            FadeCmd::FadeTimed(a, b) => seq![0x02u8] + val_wire(*a) + val_wire(*b),
            FadeCmd::FadeColor(a, b, c) => seq![0x03u8] + val_wire(*a) + val_wire(*b) + val_wire(*c),
            FadeCmd::FadeTimedColor(a, b, c, d) => seq![0x04u8] + val_wire(*a) + val_wire(*b)
                + val_wire(*c) + val_wire(*d),
            FadeCmd::FillScreen(a) => seq![0x10u8] + val_wire(*a),
            FadeCmd::FillScreenColor(a, b, c) => seq![0x11u8] + val_wire(*a) + val_wire(*b)
                + val_wire(*c),
        }
    }

    open spec fn wf(&self) -> bool {
        true
    }

    open spec fn compiled(&self) -> bool {
        true
    }

    fn byte_size(&self) -> (r: usize) {
        match self {
            FadeCmd::Fade(a) => 1 + a.byte_size(),
            FadeCmd::FadeTimed(a, b) => 1 + a.byte_size() + b.byte_size(),
            FadeCmd::FadeColor(a, b, c) => 1 + a.byte_size() + b.byte_size() + c.byte_size(),
            FadeCmd::FadeTimedColor(a, b, c, d) => 1 + a.byte_size() + b.byte_size()
                + c.byte_size() + d.byte_size(),
            FadeCmd::FillScreen(a) => 1 + a.byte_size(),
            FadeCmd::FillScreenColor(a, b, c) => 1 + a.byte_size() + b.byte_size() + c.byte_size(),
        }
    }

    fn write(&self, out: &mut Vec<u8>) -> (r: Result<(), CodecError>) {
        match self {
            FadeCmd::Fade(a) => {
                out.push(0x01);
                a.write(out)?;
            },
            FadeCmd::FadeTimed(a, b) => {
                out.push(0x02);
                a.write(out)?;
                b.write(out)?;
            },
            FadeCmd::FadeColor(a, b, c) => {
                out.push(0x03);
                a.write(out)?;
                b.write(out)?;
                c.write(out)?;
            },
            FadeCmd::FadeTimedColor(a, b, c, d) => {
                out.push(0x04);
                a.write(out)?;
                b.write(out)?;
                c.write(out)?;
                d.write(out)?;
            },
            FadeCmd::FillScreen(a) => {
                out.push(0x10);
                a.write(out)?;
            },
            FadeCmd::FillScreenColor(a, b, c) => {
                out.push(0x11);
                a.write(out)?;
                b.write(out)?;
                c.write(out)?;
            },
        }
        assert(out@ =~= old(out)@ + self.wire());
        Ok(())
    }
}

/// Parse a fade command.
pub fn fade_cmd(s: &[u8], pos: usize) -> (r: Result<(FadeCmd, usize), CodecError>)
    requires
        pos <= s@.len(),
    ensures
        r matches Ok((c, end)) ==> pos < end <= s@.len() && c.wf()
            && c.wire().len() <= end - pos
            && (c.wire().len() == end - pos ==> c.wire() == s@.subrange(pos as int, end as int)),
        r matches Err(e) ==> crate::codec::parse_error(e),
{
    let (tag, p0) = read_u8(s, pos)?;
    match tag {
        0x01 | 0x10 => {
            let (a, p1) = scene_value(s, p0)?;
            let c = if tag == 0x01 {
                FadeCmd::Fade(a)
            } else {
                FadeCmd::FillScreen(a)
            };
            proof {
                assert(s@.subrange(pos as int, p0 as int) + s@.subrange(p0 as int, p1 as int)
                    == s@.subrange(pos as int, p1 as int));
                assert(c.wire().len() <= p1 - pos);
                if c.wire().len() == p1 - pos {
                    assert(c.wire() =~= s@.subrange(pos as int, p1 as int));
                }
            }
            Ok((c, p1))
        },
        0x02 => {
            let (a, p1) = scene_value(s, p0)?;
            let (b, p2) = scene_value(s, p1)?;
            let c = FadeCmd::FadeTimed(a, b);
            proof {
                assert(s@.subrange(pos as int, p0 as int) + s@.subrange(p0 as int, p1 as int)
                    == s@.subrange(pos as int, p1 as int));
                assert(s@.subrange(pos as int, p1 as int) + s@.subrange(p1 as int, p2 as int)
                    == s@.subrange(pos as int, p2 as int));
                assert(c.wire().len() <= p2 - pos);
                if c.wire().len() == p2 - pos {
                    assert(c.wire() =~= s@.subrange(pos as int, p2 as int));
                }
            }
            Ok((c, p2))
        },
        0x03 | 0x11 => {
            let (a, p1) = scene_value(s, p0)?;
            let (b, p2) = scene_value(s, p1)?;
            let (cc, p3) = scene_value(s, p2)?;
            let c = if tag == 0x03 {
                FadeCmd::FadeColor(a, b, cc)
            } else {
                FadeCmd::FillScreenColor(a, b, cc)
            };
            proof {
                assert(s@.subrange(pos as int, p0 as int) + s@.subrange(p0 as int, p1 as int)
                    == s@.subrange(pos as int, p1 as int));
                assert(s@.subrange(pos as int, p1 as int) + s@.subrange(p1 as int, p2 as int)
                    == s@.subrange(pos as int, p2 as int));
                assert(s@.subrange(pos as int, p2 as int) + s@.subrange(p2 as int, p3 as int)
                    == s@.subrange(pos as int, p3 as int));
                assert(c.wire().len() <= p3 - pos);
                if c.wire().len() == p3 - pos {
                    assert(c.wire() =~= s@.subrange(pos as int, p3 as int));
                }
            }
            Ok((c, p3))
        },
        0x04 => {
            let (a, p1) = scene_value(s, p0)?;
            let (b, p2) = scene_value(s, p1)?;
            let (cc, p3) = scene_value(s, p2)?;
            let (d, p4) = scene_value(s, p3)?;
            let c = FadeCmd::FadeTimedColor(a, b, cc, d);
            proof {
                assert(s@.subrange(pos as int, p0 as int) + s@.subrange(p0 as int, p1 as int)
                    == s@.subrange(pos as int, p1 as int));
                assert(s@.subrange(pos as int, p1 as int) + s@.subrange(p1 as int, p2 as int)
                    == s@.subrange(pos as int, p2 as int));
                assert(s@.subrange(pos as int, p2 as int) + s@.subrange(p2 as int, p3 as int)
                    == s@.subrange(pos as int, p3 as int));
                assert(s@.subrange(pos as int, p3 as int) + s@.subrange(p3 as int, p4 as int)
                    == s@.subrange(pos as int, p4 as int));
                assert(c.wire().len() <= p4 - pos);
                if c.wire().len() == p4 - pos {
                    assert(c.wire() =~= s@.subrange(pos as int, p4 as int));
                }
            }
            Ok((c, p4))
        },
        _ => Err(CodecError::UnknownSubcommand(0x13, tag)),
    }
}

/// Jump or call into another scene file (family tag `0x16`).
#[derive(Debug, PartialEq, Eq, Clone)]
pub enum JumpToSceneCmd {
    Jump(Val),
    Call(Val),
}

impl Writeable for JumpToSceneCmd {
    open spec fn wire(&self) -> Seq<u8> {
        match self {
            JumpToSceneCmd::Jump(a) => seq![0x01u8] + val_wire(*a),
            JumpToSceneCmd::Call(a) => seq![0x02u8] + val_wire(*a),
        }
    }

    open spec fn wf(&self) -> bool {
        true
    }

    open spec fn compiled(&self) -> bool {
        true
    }

    fn byte_size(&self) -> (r: usize) {
        match self {
            JumpToSceneCmd::Jump(a) => 1 + a.byte_size(),
            JumpToSceneCmd::Call(a) => 1 + a.byte_size(),
        }
    }

    fn write(&self, out: &mut Vec<u8>) -> (r: Result<(), CodecError>) {
        match self {
            JumpToSceneCmd::Jump(a) => {
                out.push(0x01);
                a.write(out)?;
            },
            JumpToSceneCmd::Call(a) => {
                out.push(0x02);
                a.write(out)?;
            },
        }
        assert(out@ =~= old(out)@ + self.wire());
        Ok(())
    }
}

/// Parse a scene-jump command.
pub fn jump_to_scene_cmd(s: &[u8], pos: usize) -> (r: Result<(JumpToSceneCmd, usize), CodecError>)
    requires
        pos <= s@.len(),
    ensures
        r matches Ok((c, end)) ==> pos < end <= s@.len() && c.wf()
            && c.wire().len() <= end - pos
            && (c.wire().len() == end - pos ==> c.wire() == s@.subrange(pos as int, end as int)),
        r matches Err(e) ==> crate::codec::parse_error(e),
{
    let (tag, p0) = read_u8(s, pos)?;
    match tag {
        0x01 | 0x02 => {
            let (a, p1) = scene_value(s, p0)?;
            let c = if tag == 0x01 {
                JumpToSceneCmd::Jump(a)
            } else {
                JumpToSceneCmd::Call(a)
            };
            proof {
                assert(s@.subrange(pos as int, p0 as int) + s@.subrange(p0 as int, p1 as int)
                    == s@.subrange(pos as int, p1 as int));
                assert(c.wire().len() <= p1 - pos);
                if c.wire().len() == p1 - pos {
                    assert(c.wire() =~= s@.subrange(pos as int, p1 as int));
                }
            }
            Ok((c, p1))
        },
        _ => Err(CodecError::UnknownSubcommand(0x16, tag)),
    }
}

/// Screen-shake command (family tag `0x17`).
#[derive(Debug, PartialEq, Eq, Clone)]
pub enum ScreenShakeCmd {
    ScreenShake(Val),
}

impl Writeable for ScreenShakeCmd {
    open spec fn wire(&self) -> Seq<u8> {
        match self {
            ScreenShakeCmd::ScreenShake(a) => seq![0x01u8] + val_wire(*a),
        }
    }

    open spec fn wf(&self) -> bool {
        true
    }

    open spec fn compiled(&self) -> bool {
        true
    }

    fn byte_size(&self) -> (r: usize) {
        match self {
            ScreenShakeCmd::ScreenShake(a) => 1 + a.byte_size(),
        }
    }

    fn write(&self, out: &mut Vec<u8>) -> (r: Result<(), CodecError>) {
        match self {
            ScreenShakeCmd::ScreenShake(a) => {
                out.push(0x01);
                a.write(out)?;
            },
        }
        assert(out@ =~= old(out)@ + self.wire());
        Ok(())
    }
}

/// Parse a screen-shake command.
pub fn screen_shake_cmd(s: &[u8], pos: usize) -> (r: Result<(ScreenShakeCmd, usize), CodecError>)
    requires
        pos <= s@.len(),
    ensures
        r matches Ok((c, end)) ==> pos < end <= s@.len() && c.wf()
            && c.wire().len() <= end - pos
            && (c.wire().len() == end - pos ==> c.wire() == s@.subrange(pos as int, end as int)),
        r matches Err(e) ==> crate::codec::parse_error(e),
{
    let (tag, p0) = read_u8(s, pos)?;
    match tag {
        0x01 => {
            let (a, p1) = scene_value(s, p0)?;
            let c = ScreenShakeCmd::ScreenShake(a);
            proof {
                assert(s@.subrange(pos as int, p0 as int) + s@.subrange(p0 as int, p1 as int)
                    == s@.subrange(pos as int, p1 as int));
                assert(c.wire().len() <= p1 - pos);
                if c.wire().len() == p1 - pos {
                    assert(c.wire() =~= s@.subrange(pos as int, p1 as int));
                }
            }
            Ok((c, p1))
        },
        _ => Err(CodecError::UnknownSubcommand(0x17, tag)),
    }
}

/// Wait commands (family tag `0x19`).
#[derive(Debug, PartialEq, Eq, Clone)]
pub enum WaitCmd {
    Wait(Val),
    WaitMouse(Val, Val),
    SetToBase,
    WaitFromBase(Val),
    WaitFromBaseMouse(Val),
    SetToBaseVal(Val),
    Wait0x10,
    Wait0x11,
    Wait0x12,
    Wait0x13,
}

impl Writeable for WaitCmd {
    open spec fn wire(&self) -> Seq<u8> {
        match self {
            WaitCmd::Wait(a) => seq![0x01u8] + val_wire(*a),
            WaitCmd::WaitMouse(a, b) => seq![0x02u8] + val_wire(*a) + val_wire(*b),
            WaitCmd::SetToBase => seq![0x03u8],
            WaitCmd::WaitFromBase(a) => seq![0x04u8] + val_wire(*a),
            WaitCmd::WaitFromBaseMouse(a) => seq![0x05u8] + val_wire(*a),
            WaitCmd::SetToBaseVal(a) => seq![0x06u8] + val_wire(*a),
            WaitCmd::Wait0x10 => seq![0x10u8],
            WaitCmd::Wait0x11 => seq![0x11u8],
            WaitCmd::Wait0x12 => seq![0x12u8],
            WaitCmd::Wait0x13 => seq![0x13u8],
        }
    }

    open spec fn wf(&self) -> bool {
        true
    }

    open spec fn compiled(&self) -> bool {
        true
    }

    fn byte_size(&self) -> (r: usize) {
        match self {
            WaitCmd::Wait(a) => 1 + a.byte_size(),
            WaitCmd::WaitMouse(a, b) => 1 + a.byte_size() + b.byte_size(),
            WaitCmd::SetToBase => 1,
            WaitCmd::WaitFromBase(a) => 1 + a.byte_size(),
            WaitCmd::WaitFromBaseMouse(a) => 1 + a.byte_size(),
            WaitCmd::SetToBaseVal(a) => 1 + a.byte_size(),
            WaitCmd::Wait0x10 => 1,
            WaitCmd::Wait0x11 => 1,
            WaitCmd::Wait0x12 => 1,
            WaitCmd::Wait0x13 => 1,
        }
    }

    fn write(&self, out: &mut Vec<u8>) -> (r: Result<(), CodecError>) {
        match self {
            WaitCmd::Wait(a) => {
                out.push(0x01);
                a.write(out)?;
            },
            WaitCmd::WaitMouse(a, b) => {
                out.push(0x02);
                a.write(out)?;
                b.write(out)?;
            },
            WaitCmd::SetToBase => out.push(0x03),
            WaitCmd::WaitFromBase(a) => {
                out.push(0x04);
                a.write(out)?;
            },
            WaitCmd::WaitFromBaseMouse(a) => {
                out.push(0x05);
                a.write(out)?;
            },
            WaitCmd::SetToBaseVal(a) => {
                out.push(0x06);
                a.write(out)?;
            },
            WaitCmd::Wait0x10 => out.push(0x10),
            WaitCmd::Wait0x11 => out.push(0x11),
            WaitCmd::Wait0x12 => out.push(0x12),
            WaitCmd::Wait0x13 => out.push(0x13),
        }
        assert(out@ =~= old(out)@ + self.wire());
        Ok(())
    }
}

/// Parse a wait command.
pub fn wait_cmd(s: &[u8], pos: usize) -> (r: Result<(WaitCmd, usize), CodecError>)
    requires
        pos <= s@.len(),
    ensures
        r matches Ok((c, end)) ==> pos < end <= s@.len() && c.wf()
            && c.wire().len() <= end - pos
            && (c.wire().len() == end - pos ==> c.wire() == s@.subrange(pos as int, end as int)),
        r matches Err(e) ==> crate::codec::parse_error(e),
{
    let (tag, p0) = read_u8(s, pos)?;
    match tag {
        0x03 | 0x10 | 0x11 | 0x12 | 0x13 => {
            let c = match tag {
                0x03 => WaitCmd::SetToBase,
                0x10 => WaitCmd::Wait0x10,
                0x11 => WaitCmd::Wait0x11,
                0x12 => WaitCmd::Wait0x12,
                _ => WaitCmd::Wait0x13,
            };
            proof {
                assert(c.wire().len() <= p0 - pos);
                if c.wire().len() == p0 - pos {
                    assert(c.wire() =~= s@.subrange(pos as int, p0 as int));
                }
            }
            Ok((c, p0))
        },
        0x01 | 0x04 | 0x05 | 0x06 => {
            let (a, p1) = scene_value(s, p0)?;
            let c = match tag {
                0x01 => WaitCmd::Wait(a),
                0x04 => WaitCmd::WaitFromBase(a),
                0x05 => WaitCmd::WaitFromBaseMouse(a),
                _ => WaitCmd::SetToBaseVal(a),
            };
            proof {
                assert(s@.subrange(pos as int, p0 as int) + s@.subrange(p0 as int, p1 as int)
                    == s@.subrange(pos as int, p1 as int));
                assert(c.wire().len() <= p1 - pos);
                if c.wire().len() == p1 - pos {
                    assert(c.wire() =~= s@.subrange(pos as int, p1 as int));
                }
            }
            Ok((c, p1))
        },
        0x02 => {
            let (a, p1) = scene_value(s, p0)?;
            let (b, p2) = scene_value(s, p1)?;
            let c = WaitCmd::WaitMouse(a, b);
            proof {
                assert(s@.subrange(pos as int, p0 as int) + s@.subrange(p0 as int, p1 as int)
                    == s@.subrange(pos as int, p1 as int));
                assert(s@.subrange(pos as int, p1 as int) + s@.subrange(p1 as int, p2 as int)
                    == s@.subrange(pos as int, p2 as int));
                assert(c.wire().len() <= p2 - pos);
                if c.wire().len() == p2 - pos {
                    assert(c.wire() =~= s@.subrange(pos as int, p2 as int));
                }
            }
            Ok((c, p2))
        },
        _ => Err(CodecError::UnknownSubcommand(0x19, tag)),
    }
}

/// Return-from-call commands (family tag `0x20`).
#[derive(Debug, PartialEq, Eq, Clone)]
pub enum RetCmd {
    SameScene,
    OtherScene,
    PopStack,
    ClearStack,
}

impl Writeable for RetCmd {
    open spec fn wire(&self) -> Seq<u8> {
        match self {
            RetCmd::SameScene => seq![0x01u8],
            RetCmd::OtherScene => seq![0x02u8],
            RetCmd::PopStack => seq![0x03u8],
            RetCmd::ClearStack => seq![0x06u8],
        }
    }

    open spec fn wf(&self) -> bool {
        true
    }

    open spec fn compiled(&self) -> bool {
        true
    }

    fn byte_size(&self) -> (r: usize) {
        1
    }

    fn write(&self, out: &mut Vec<u8>) -> (r: Result<(), CodecError>) {
        match self {
            RetCmd::SameScene => out.push(0x01),
            RetCmd::OtherScene => out.push(0x02),
            RetCmd::PopStack => out.push(0x03),
            RetCmd::ClearStack => out.push(0x06),
        }
        assert(out@ =~= old(out)@ + self.wire());
        Ok(())
    }
}

/// Parse a return command.
pub fn ret_cmd(s: &[u8], pos: usize) -> (r: Result<(RetCmd, usize), CodecError>)
    requires
        pos <= s@.len(),
    ensures
        r matches Ok((c, end)) ==> pos < end <= s@.len() && c.wf()
            && c.wire().len() <= end - pos
            && (c.wire().len() == end - pos ==> c.wire() == s@.subrange(pos as int, end as int)),
        r matches Err(e) ==> crate::codec::parse_error(e),
{
    let (tag, p0) = read_u8(s, pos)?;
    let c = match tag {
        0x01 => RetCmd::SameScene,
        0x02 => RetCmd::OtherScene,
        0x03 => RetCmd::PopStack,
        0x06 => RetCmd::ClearStack,
        _ => {
            return Err(CodecError::UnknownSubcommand(0x20, tag));
        },
    };
    proof {
        assert(c.wire().len() <= p0 - pos);
        if c.wire().len() == p0 - pos {
            assert(c.wire() =~= s@.subrange(pos as int, p0 as int));
        }
    }
    Ok((c, p0))
}

/// Scenario-menu flag commands (family tags `0x2e` and `0x2f`).
#[derive(Debug, PartialEq, Eq, Clone)]
pub enum ScenarioMenuCmd {
    SetBit(Val),
    SetBit2(Val, Val),
}

impl Writeable for ScenarioMenuCmd {
    open spec fn wire(&self) -> Seq<u8> {
        match self {
            ScenarioMenuCmd::SetBit(a) => seq![0x01u8] + val_wire(*a),
            ScenarioMenuCmd::SetBit2(a, b) => seq![0x02u8] + val_wire(*a) + val_wire(*b),
        }
    }

    open spec fn wf(&self) -> bool {
        true
    }

    open spec fn compiled(&self) -> bool {
        true
    }

    fn byte_size(&self) -> (r: usize) {
        match self {
            ScenarioMenuCmd::SetBit(a) => 1 + a.byte_size(),
            ScenarioMenuCmd::SetBit2(a, b) => 1 + a.byte_size() + b.byte_size(),
        }
    }

    fn write(&self, out: &mut Vec<u8>) -> (r: Result<(), CodecError>) {
        match self {
            ScenarioMenuCmd::SetBit(a) => {
                out.push(0x01);
                a.write(out)?;
            },
            ScenarioMenuCmd::SetBit2(a, b) => {
                out.push(0x02);
                a.write(out)?;
                b.write(out)?;
            },
        }
        assert(out@ =~= old(out)@ + self.wire());
        Ok(())
    }
}

/// Parse a scenario-menu command.
pub fn scenario_menu_cmd(s: &[u8], pos: usize) -> (r: Result<(ScenarioMenuCmd, usize), CodecError>)
    requires
        pos <= s@.len(),
    ensures
        r matches Ok((c, end)) ==> pos < end <= s@.len() && c.wf()
            && c.wire().len() <= end - pos
            && (c.wire().len() == end - pos ==> c.wire() == s@.subrange(pos as int, end as int)),
        r matches Err(e) ==> crate::codec::parse_error(e),
{
    let (tag, p0) = read_u8(s, pos)?;
    match tag {
        0x01 => {
            let (a, p1) = scene_value(s, p0)?;
            let c = ScenarioMenuCmd::SetBit(a);
            proof {
                assert(s@.subrange(pos as int, p0 as int) + s@.subrange(p0 as int, p1 as int)
                    == s@.subrange(pos as int, p1 as int));
                assert(c.wire().len() <= p1 - pos);
                if c.wire().len() == p1 - pos {
                    assert(c.wire() =~= s@.subrange(pos as int, p1 as int));
                }
            }
            Ok((c, p1))
        },
        0x02 => {
            let (a, p1) = scene_value(s, p0)?;
            let (b, p2) = scene_value(s, p1)?;
            let c = ScenarioMenuCmd::SetBit2(a, b);
            proof {
                assert(s@.subrange(pos as int, p0 as int) + s@.subrange(p0 as int, p1 as int)
                    == s@.subrange(pos as int, p1 as int));
                assert(s@.subrange(pos as int, p1 as int) + s@.subrange(p1 as int, p2 as int)
                    == s@.subrange(pos as int, p2 as int));
                assert(c.wire().len() <= p2 - pos);
                if c.wire().len() == p2 - pos {
                    assert(c.wire() =~= s@.subrange(pos as int, p2 as int));
                }
            }
            Ok((c, p2))
        },
        _ => Err(CodecError::UnknownSubcommand(0x2e, tag)),
    }
}

/// Text-rank commands (family tag `0x31`).
#[derive(Debug, PartialEq, Eq, Clone)]
pub enum TextRankCmd {
    SetRank(Val),
    Clear,
}

impl Writeable for TextRankCmd {
    open spec fn wire(&self) -> Seq<u8> {
        match self {
            TextRankCmd::SetRank(a) => seq![0x01u8] + val_wire(*a),
            TextRankCmd::Clear => seq![0x02u8],
        }
    }

    open spec fn wf(&self) -> bool {
        true
    }

    open spec fn compiled(&self) -> bool {
        true
    }

    fn byte_size(&self) -> (r: usize) {
        match self {
            TextRankCmd::SetRank(a) => 1 + a.byte_size(),
            TextRankCmd::Clear => 1,
        }
    }

    fn write(&self, out: &mut Vec<u8>) -> (r: Result<(), CodecError>) {
        match self {
            TextRankCmd::SetRank(a) => {
                out.push(0x01);
                a.write(out)?;
            },
            TextRankCmd::Clear => out.push(0x02),
        }
        assert(out@ =~= old(out)@ + self.wire());
        Ok(())
    }
}

/// Parse a text-rank command.
pub fn text_rank_cmd(s: &[u8], pos: usize) -> (r: Result<(TextRankCmd, usize), CodecError>)
    requires
        pos <= s@.len(),
    ensures
        r matches Ok((c, end)) ==> pos < end <= s@.len() && c.wf()
            && c.wire().len() <= end - pos
            && (c.wire().len() == end - pos ==> c.wire() == s@.subrange(pos as int, end as int)),
        r matches Err(e) ==> crate::codec::parse_error(e),
{
    let (tag, p0) = read_u8(s, pos)?;
    match tag {
        0x01 => {
            let (a, p1) = scene_value(s, p0)?;
            let c = TextRankCmd::SetRank(a);
            proof {
                assert(s@.subrange(pos as int, p0 as int) + s@.subrange(p0 as int, p1 as int)
                    == s@.subrange(pos as int, p1 as int));
                assert(c.wire().len() <= p1 - pos);
                if c.wire().len() == p1 - pos {
                    assert(c.wire() =~= s@.subrange(pos as int, p1 as int));
                }
            }
            Ok((c, p1))
        },
        0x02 => {
            let c = TextRankCmd::Clear;
            proof {
                assert(c.wire().len() <= p0 - pos);
                if c.wire().len() == p0 - pos {
                    assert(c.wire() =~= s@.subrange(pos as int, p0 as int));
                }
            }
            Ok((c, p0))
        },
        _ => Err(CodecError::UnknownSubcommand(0x31, tag)),
    }
}

/// String-variable commands (family tag `0x59`).
#[derive(Debug, PartialEq, Eq, Clone)]
pub enum StringCmd {
    StrcpyLiteral(Val, SceneText),
    Strlen(Val, Val),
    Strcmp(Val, Val, Val),
    Strcat(Val, Val),
    Strcpy(Val, Val),
    Itoa(Val, Val, Val),
    HanToZen(Val),
    Atoi(Val, Val),
}

impl Writeable for StringCmd {
    open spec fn wire(&self) -> Seq<u8> {
        match self {
            StringCmd::StrcpyLiteral(a, t) => seq![0x01u8] + val_wire(*a) + t.wire(),
            StringCmd::Strlen(a, b) => seq![0x02u8] + val_wire(*a) + val_wire(*b),
            StringCmd::Strcmp(a, b, c) => seq![0x03u8] + val_wire(*a) + val_wire(*b) + val_wire(*c),
            StringCmd::Strcat(a, b) => seq![0x04u8] + val_wire(*a) + val_wire(*b),
            StringCmd::Strcpy(a, b) => seq![0x05u8] + val_wire(*a) + val_wire(*b),
            StringCmd::Itoa(a, b, c) => seq![0x06u8] + val_wire(*a) + val_wire(*b) + val_wire(*c),
            StringCmd::HanToZen(a) => seq![0x07u8] + val_wire(*a),
            StringCmd::Atoi(a, b) => seq![0x08u8] + val_wire(*a) + val_wire(*b),
        }
    }

    open spec fn wf(&self) -> bool {
        match self {
            StringCmd::StrcpyLiteral(_, t) => t.wf(),
            _ => true,
        }
    }

    open spec fn compiled(&self) -> bool {
        true
    }

    fn byte_size(&self) -> (r: usize) {
        match self {
            StringCmd::StrcpyLiteral(a, t) => 1 + a.byte_size() + t.byte_size(),
            StringCmd::Strlen(a, b) => 1 + a.byte_size() + b.byte_size(),
            StringCmd::Strcmp(a, b, c) => 1 + a.byte_size() + b.byte_size() + c.byte_size(),
            StringCmd::Strcat(a, b) => 1 + a.byte_size() + b.byte_size(),
            StringCmd::Strcpy(a, b) => 1 + a.byte_size() + b.byte_size(),
            StringCmd::Itoa(a, b, c) => 1 + a.byte_size() + b.byte_size() + c.byte_size(),
            StringCmd::HanToZen(a) => 1 + a.byte_size(),
            StringCmd::Atoi(a, b) => 1 + a.byte_size() + b.byte_size(),
        }
    }

    fn write(&self, out: &mut Vec<u8>) -> (r: Result<(), CodecError>) {
        match self {
            StringCmd::StrcpyLiteral(a, t) => {
                out.push(0x01);
                a.write(out)?;
                t.write(out)?;
            },
            StringCmd::Strlen(a, b) => {
                out.push(0x02);
                a.write(out)?;
                b.write(out)?;
            },
            StringCmd::Strcmp(a, b, c) => {
                out.push(0x03);
                a.write(out)?;
                b.write(out)?;
                c.write(out)?;
            },
            StringCmd::Strcat(a, b) => {
                out.push(0x04);
                a.write(out)?;
                b.write(out)?;
            },
            StringCmd::Strcpy(a, b) => {
                out.push(0x05);
                a.write(out)?;
                b.write(out)?;
            },
            StringCmd::Itoa(a, b, c) => {
                out.push(0x06);
                a.write(out)?;
                b.write(out)?;
                c.write(out)?;
            },
            StringCmd::HanToZen(a) => {
                out.push(0x07);
                a.write(out)?;
            },
            StringCmd::Atoi(a, b) => {
                out.push(0x08);
                a.write(out)?;
                b.write(out)?;
            },
        }
        assert(out@ =~= old(out)@ + self.wire());
        Ok(())
    }
}

/// Parse a string-variable command.
pub fn string_cmd(s: &[u8], pos: usize) -> (r: Result<(StringCmd, usize), CodecError>)
    requires
        pos <= s@.len(),
    ensures
        r matches Ok((c, end)) ==> pos < end <= s@.len() && c.wf()
            && c.wire().len() <= end - pos
            && (c.wire().len() == end - pos ==> c.wire() == s@.subrange(pos as int, end as int)),
        r matches Err(e) ==> crate::codec::parse_error(e),
{
    let (tag, p0) = read_u8(s, pos)?;
    match tag {
        0x01 => {
            let (a, p1) = scene_value(s, p0)?;
            let (t, p2) = scene_text(s, p1)?;
            let c = StringCmd::StrcpyLiteral(a, t);
            proof {
                assert(s@.subrange(pos as int, p0 as int) + s@.subrange(p0 as int, p1 as int)
                    == s@.subrange(pos as int, p1 as int));
                assert(s@.subrange(pos as int, p1 as int) + s@.subrange(p1 as int, p2 as int)
                    == s@.subrange(pos as int, p2 as int));
                assert(c.wire().len() <= p2 - pos);
                if c.wire().len() == p2 - pos {
                    assert(c.wire() =~= s@.subrange(pos as int, p2 as int));
                }
            }
            Ok((c, p2))
        },
        0x07 => {
            let (a, p1) = scene_value(s, p0)?;
            let c = StringCmd::HanToZen(a);
            proof {
                assert(s@.subrange(pos as int, p0 as int) + s@.subrange(p0 as int, p1 as int)
                    == s@.subrange(pos as int, p1 as int));
                assert(c.wire().len() <= p1 - pos);
                if c.wire().len() == p1 - pos {
                    assert(c.wire() =~= s@.subrange(pos as int, p1 as int));
                }
            }
            Ok((c, p1))
        },
        0x02 | 0x04 | 0x05 | 0x08 => {
            let (a, p1) = scene_value(s, p0)?;
            let (b, p2) = scene_value(s, p1)?;
            let c = match tag {
                0x02 => StringCmd::Strlen(a, b),
                0x04 => StringCmd::Strcat(a, b),
                0x05 => StringCmd::Strcpy(a, b),
                _ => StringCmd::Atoi(a, b),
            };
            proof {
                assert(s@.subrange(pos as int, p0 as int) + s@.subrange(p0 as int, p1 as int)
                    == s@.subrange(pos as int, p1 as int));
                assert(s@.subrange(pos as int, p1 as int) + s@.subrange(p1 as int, p2 as int)
                    == s@.subrange(pos as int, p2 as int));
                assert(c.wire().len() <= p2 - pos);
                if c.wire().len() == p2 - pos {
                    assert(c.wire() =~= s@.subrange(pos as int, p2 as int));
                }
            }
            Ok((c, p2))
        },
        0x03 | 0x06 => {
            let (a, p1) = scene_value(s, p0)?;
            let (b, p2) = scene_value(s, p1)?;
            let (cc, p3) = scene_value(s, p2)?;
            let c = if tag == 0x03 {
                StringCmd::Strcmp(a, b, cc)
            } else {
                StringCmd::Itoa(a, b, cc)
            };
            proof {
                assert(s@.subrange(pos as int, p0 as int) + s@.subrange(p0 as int, p1 as int)
                    == s@.subrange(pos as int, p1 as int));
                assert(s@.subrange(pos as int, p1 as int) + s@.subrange(p1 as int, p2 as int)
                    == s@.subrange(pos as int, p2 as int));
                assert(s@.subrange(pos as int, p2 as int) + s@.subrange(p2 as int, p3 as int)
                    == s@.subrange(pos as int, p3 as int));
                assert(c.wire().len() <= p3 - pos);
                if c.wire().len() == p3 - pos {
                    assert(c.wire() =~= s@.subrange(pos as int, p3 as int));
                }
            }
            Ok((c, p3))
        },
        _ => Err(CodecError::UnknownSubcommand(0x59, tag)),
    }
}

/// Ranged assignment commands (family tag `0x5c`).
#[derive(Debug, PartialEq, Eq, Clone)]
pub enum SetMultiCmd {
    Val(Val, Val, Val),
    Bit(Val, Val, Val),
}

impl Writeable for SetMultiCmd {
    open spec fn wire(&self) -> Seq<u8> {
        match self {
            SetMultiCmd::Val(a, b, c) => seq![0x01u8] + val_wire(*a) + val_wire(*b) + val_wire(*c),
            SetMultiCmd::Bit(a, b, c) => seq![0x02u8] + val_wire(*a) + val_wire(*b) + val_wire(*c),
        }
    }

    open spec fn wf(&self) -> bool {
        true
    }

    open spec fn compiled(&self) -> bool {
        true
    }

    fn byte_size(&self) -> (r: usize) {
        match self {
            SetMultiCmd::Val(a, b, c) => 1 + a.byte_size() + b.byte_size() + c.byte_size(),
            SetMultiCmd::Bit(a, b, c) => 1 + a.byte_size() + b.byte_size() + c.byte_size(),
        }
    }

    fn write(&self, out: &mut Vec<u8>) -> (r: Result<(), CodecError>) {
        match self {
            SetMultiCmd::Val(a, b, c) => {
                out.push(0x01);
                a.write(out)?;
                b.write(out)?;
                c.write(out)?;
            },
            SetMultiCmd::Bit(a, b, c) => {
                out.push(0x02);
                a.write(out)?;
                b.write(out)?;
                c.write(out)?;
            },
        }
        assert(out@ =~= old(out)@ + self.wire());
        Ok(())
    }
}

/// Parse a ranged assignment command.
pub fn set_multi_cmd(s: &[u8], pos: usize) -> (r: Result<(SetMultiCmd, usize), CodecError>)
    requires
        pos <= s@.len(),
    ensures
        r matches Ok((c, end)) ==> pos < end <= s@.len() && c.wf()
            && c.wire().len() <= end - pos
            && (c.wire().len() == end - pos ==> c.wire() == s@.subrange(pos as int, end as int)),
        r matches Err(e) ==> crate::codec::parse_error(e),
{
    let (tag, p0) = read_u8(s, pos)?;
    match tag {
        0x01 | 0x02 => {
            let (a, p1) = scene_value(s, p0)?;
            let (b, p2) = scene_value(s, p1)?;
            let (cc, p3) = scene_value(s, p2)?;
            let c = if tag == 0x01 {
                SetMultiCmd::Val(a, b, cc)
            } else {
                SetMultiCmd::Bit(a, b, cc)
            };
            proof {
                assert(s@.subrange(pos as int, p0 as int) + s@.subrange(p0 as int, p1 as int)
                    == s@.subrange(pos as int, p1 as int));
                assert(s@.subrange(pos as int, p1 as int) + s@.subrange(p1 as int, p2 as int)
                    == s@.subrange(pos as int, p2 as int));
                assert(s@.subrange(pos as int, p2 as int) + s@.subrange(p2 as int, p3 as int)
                    == s@.subrange(pos as int, p3 as int));
                assert(c.wire().len() <= p3 - pos);
                if c.wire().len() == p3 - pos {
                    assert(c.wire() =~= s@.subrange(pos as int, p3 as int));
                }
            }
            Ok((c, p3))
        },
        _ => Err(CodecError::UnknownSubcommand(0x5c, tag)),
    }
}

/// Mouse-control commands (family tag `0x6d`).
#[derive(Debug, PartialEq, Eq, Clone)]
pub enum MouseCtrlCmd {
    WaitForClick,
    SetPos(Val, Val, Val),
    FlushClickData,
    CursorOff,
    CursorOn,
}

impl Writeable for MouseCtrlCmd {
    open spec fn wire(&self) -> Seq<u8> {
        match self {
            MouseCtrlCmd::WaitForClick => seq![0x01u8],
            MouseCtrlCmd::SetPos(a, b, c) => seq![0x02u8] + val_wire(*a) + val_wire(*b)
                + val_wire(*c),
            MouseCtrlCmd::FlushClickData => seq![0x03u8],
            MouseCtrlCmd::CursorOff => seq![0x20u8],
            MouseCtrlCmd::CursorOn => seq![0x21u8],
        }
    }

    open spec fn wf(&self) -> bool {
        true
    }

    open spec fn compiled(&self) -> bool {
        true
    }

    fn byte_size(&self) -> (r: usize) {
        match self {
            MouseCtrlCmd::WaitForClick => 1,
            MouseCtrlCmd::SetPos(a, b, c) => 1 + a.byte_size() + b.byte_size() + c.byte_size(),
            MouseCtrlCmd::FlushClickData => 1,
            MouseCtrlCmd::CursorOff => 1,
            MouseCtrlCmd::CursorOn => 1,
        }
    }

    fn write(&self, out: &mut Vec<u8>) -> (r: Result<(), CodecError>) {
        match self {
            MouseCtrlCmd::WaitForClick => out.push(0x01),
            MouseCtrlCmd::SetPos(a, b, c) => {
                out.push(0x02);
                a.write(out)?;
                b.write(out)?;
                c.write(out)?;
            },
            MouseCtrlCmd::FlushClickData => out.push(0x03),
            MouseCtrlCmd::CursorOff => out.push(0x20),
            MouseCtrlCmd::CursorOn => out.push(0x21),
        }
        assert(out@ =~= old(out)@ + self.wire());
        Ok(())
    }
}

/// Parse a mouse-control command.
pub fn mouse_ctrl_cmd(s: &[u8], pos: usize) -> (r: Result<(MouseCtrlCmd, usize), CodecError>)
    requires
        pos <= s@.len(),
    ensures
        r matches Ok((c, end)) ==> pos < end <= s@.len() && c.wf()
            && c.wire().len() <= end - pos
            && (c.wire().len() == end - pos ==> c.wire() == s@.subrange(pos as int, end as int)),
        r matches Err(e) ==> crate::codec::parse_error(e),
{
    let (tag, p0) = read_u8(s, pos)?;
    match tag {
        0x01 | 0x03 | 0x20 | 0x21 => {
            let c = match tag {
                0x01 => MouseCtrlCmd::WaitForClick,
                0x03 => MouseCtrlCmd::FlushClickData,
                0x20 => MouseCtrlCmd::CursorOff,
                _ => MouseCtrlCmd::CursorOn,
            };
            proof {
                assert(c.wire().len() <= p0 - pos);
                if c.wire().len() == p0 - pos {
                    assert(c.wire() =~= s@.subrange(pos as int, p0 as int));
                }
            }
            Ok((c, p0))
        },
        0x02 => {
            let (a, p1) = scene_value(s, p0)?;
            let (b, p2) = scene_value(s, p1)?;
            let (cc, p3) = scene_value(s, p2)?;
            let c = MouseCtrlCmd::SetPos(a, b, cc);
            proof {
                assert(s@.subrange(pos as int, p0 as int) + s@.subrange(p0 as int, p1 as int)
                    == s@.subrange(pos as int, p1 as int));
                assert(s@.subrange(pos as int, p1 as int) + s@.subrange(p1 as int, p2 as int)
                    == s@.subrange(pos as int, p2 as int));
                assert(s@.subrange(pos as int, p2 as int) + s@.subrange(p2 as int, p3 as int)
                    == s@.subrange(pos as int, p3 as int));
                assert(c.wire().len() <= p3 - pos);
                if c.wire().len() == p3 - pos {
                    assert(c.wire() =~= s@.subrange(pos as int, p3 as int));
                }
            }
            Ok((c, p3))
        },
        _ => Err(CodecError::UnknownSubcommand(0x6d, tag)),
    }
}

/// Volume query, set and mute commands (family tag `0x75`).
#[derive(Debug, PartialEq, Eq, Clone)]
pub enum VolumeCmd {
    GetBgmVolume(Val),
    GetWavVolume(Val),
    GetKoeVolume(Val),
    GetSeVolume(Val),
    SetBgmVolume(Val),
    SetWavVolume(Val),
    SetKoeVolume(Val),
    SetSeVolume(Val),
    MuteBgm(Val),
    MuteWav(Val),
    MuteKoe(Val),
    MuteSe(Val),
}

impl VolumeCmd {
    /// The dispatch byte of this command.
    pub open spec fn tag(&self) -> u8 {
        match self {
            VolumeCmd::GetBgmVolume(_) => 0x01,
            VolumeCmd::GetWavVolume(_) => 0x02,
            VolumeCmd::GetKoeVolume(_) => 0x03,
            VolumeCmd::GetSeVolume(_) => 0x04,
            VolumeCmd::SetBgmVolume(_) => 0x11,
            VolumeCmd::SetWavVolume(_) => 0x12,
            VolumeCmd::SetKoeVolume(_) => 0x13,
            VolumeCmd::SetSeVolume(_) => 0x14,
            VolumeCmd::MuteBgm(_) => 0x21,
            VolumeCmd::MuteWav(_) => 0x22,
            VolumeCmd::MuteKoe(_) => 0x23,
            VolumeCmd::MuteSe(_) => 0x24,
        }
    }

    /// The single value every volume command carries.
    pub open spec fn val(&self) -> Val {
        match self {
            VolumeCmd::GetBgmVolume(a) => *a,
            VolumeCmd::GetWavVolume(a) => *a,
            VolumeCmd::GetKoeVolume(a) => *a,
            VolumeCmd::GetSeVolume(a) => *a,
            VolumeCmd::SetBgmVolume(a) => *a,
            VolumeCmd::SetWavVolume(a) => *a,
            VolumeCmd::SetKoeVolume(a) => *a,
            VolumeCmd::SetSeVolume(a) => *a,
            VolumeCmd::MuteBgm(a) => *a,
            VolumeCmd::MuteWav(a) => *a,
            VolumeCmd::MuteKoe(a) => *a,
            VolumeCmd::MuteSe(a) => *a,
        }
    }
}

impl Writeable for VolumeCmd {
    open spec fn wire(&self) -> Seq<u8> {
        seq![self.tag()] + val_wire(self.val())
    }

    open spec fn wf(&self) -> bool {
        true
    }

    open spec fn compiled(&self) -> bool {
        true
    }

    fn byte_size(&self) -> (r: usize) {
        match self {
            VolumeCmd::GetBgmVolume(a) => 1 + a.byte_size(),
            VolumeCmd::GetWavVolume(a) => 1 + a.byte_size(),
            VolumeCmd::GetKoeVolume(a) => 1 + a.byte_size(),
            VolumeCmd::GetSeVolume(a) => 1 + a.byte_size(),
            VolumeCmd::SetBgmVolume(a) => 1 + a.byte_size(),
            VolumeCmd::SetWavVolume(a) => 1 + a.byte_size(),
            VolumeCmd::SetKoeVolume(a) => 1 + a.byte_size(),
            VolumeCmd::SetSeVolume(a) => 1 + a.byte_size(),
            VolumeCmd::MuteBgm(a) => 1 + a.byte_size(),
            VolumeCmd::MuteWav(a) => 1 + a.byte_size(),
            VolumeCmd::MuteKoe(a) => 1 + a.byte_size(),
            VolumeCmd::MuteSe(a) => 1 + a.byte_size(),
        }
    }

    fn write(&self, out: &mut Vec<u8>) -> (r: Result<(), CodecError>) {
        match self {
            VolumeCmd::GetBgmVolume(a) => {
                out.push(0x01);
                a.write(out)?;
            },
            VolumeCmd::GetWavVolume(a) => {
                out.push(0x02);
                a.write(out)?;
            },
            VolumeCmd::GetKoeVolume(a) => {
                out.push(0x03);
                a.write(out)?;
            },
            VolumeCmd::GetSeVolume(a) => {
                out.push(0x04);
                a.write(out)?;
            },
            VolumeCmd::SetBgmVolume(a) => {
                out.push(0x11);
                a.write(out)?;
            },
            VolumeCmd::SetWavVolume(a) => {
                out.push(0x12);
                a.write(out)?;
            },
            VolumeCmd::SetKoeVolume(a) => {
                out.push(0x13);
                a.write(out)?;
            },
            VolumeCmd::SetSeVolume(a) => {
                out.push(0x14);
                a.write(out)?;
            },
            VolumeCmd::MuteBgm(a) => {
                out.push(0x21);
                a.write(out)?;
            },
            VolumeCmd::MuteWav(a) => {
                out.push(0x22);
                a.write(out)?;
            },
            VolumeCmd::MuteKoe(a) => {
                out.push(0x23);
                a.write(out)?;
            },
            VolumeCmd::MuteSe(a) => {
                out.push(0x24);
                a.write(out)?;
            },
        }
        assert(out@ =~= old(out)@ + self.wire());
        Ok(())
    }
}

/// Parse a volume command.
pub fn set_vol_cmd(s: &[u8], pos: usize) -> (r: Result<(VolumeCmd, usize), CodecError>)
    requires
        pos <= s@.len(),
    ensures
        r matches Ok((c, end)) ==> pos < end <= s@.len() && c.wf()
            && c.wire().len() <= end - pos
            && (c.wire().len() == end - pos ==> c.wire() == s@.subrange(pos as int, end as int)),
        r matches Err(e) ==> crate::codec::parse_error(e),
{
    let (tag, p0) = read_u8(s, pos)?;
    match tag {
        0x01 | 0x02 | 0x03 | 0x04 | 0x11 | 0x12 | 0x13 | 0x14 | 0x21 | 0x22 | 0x23 | 0x24 => {
            let (a, p1) = scene_value(s, p0)?;
            let c = match tag {
                0x01 => VolumeCmd::GetBgmVolume(a),
                0x02 => VolumeCmd::GetWavVolume(a),
                0x03 => VolumeCmd::GetKoeVolume(a),
                0x04 => VolumeCmd::GetSeVolume(a),
                0x11 => VolumeCmd::SetBgmVolume(a),
                0x12 => VolumeCmd::SetWavVolume(a),
                0x13 => VolumeCmd::SetKoeVolume(a),
                0x14 => VolumeCmd::SetSeVolume(a),
                0x21 => VolumeCmd::MuteBgm(a),
                0x22 => VolumeCmd::MuteWav(a),
                0x23 => VolumeCmd::MuteKoe(a),
                _ => VolumeCmd::MuteSe(a),
            };
            proof {
                assert(s@.subrange(pos as int, p0 as int) + s@.subrange(p0 as int, p1 as int)
                    == s@.subrange(pos as int, p1 as int));
                assert(c.wire().len() <= p1 - pos);
                if c.wire().len() == p1 - pos {
                    assert(c.wire() =~= s@.subrange(pos as int, p1 as int));
                }
            }
            Ok((c, p1))
        },
        _ => Err(CodecError::UnknownSubcommand(0x75, tag)),
    }
}

/// Novel-mode commands (family tag `0x76`).
#[derive(Debug, PartialEq, Eq, Clone)]
pub enum NovelModeCmd {
    SetEnabled(Val),
    Unknown1(Val),
    Unknown2,
    Unknown3,
    Unknown4,
}

impl Writeable for NovelModeCmd {
    open spec fn wire(&self) -> Seq<u8> {
        match self {
            NovelModeCmd::SetEnabled(a) => seq![0x01u8] + val_wire(*a),
            NovelModeCmd::Unknown1(a) => seq![0x02u8] + val_wire(*a),
            NovelModeCmd::Unknown2 => seq![0x03u8],
            NovelModeCmd::Unknown3 => seq![0x04u8],
            NovelModeCmd::Unknown4 => seq![0x05u8],
        }
    }

    open spec fn wf(&self) -> bool {
        true
    }

    open spec fn compiled(&self) -> bool {
        true
    }

    fn byte_size(&self) -> (r: usize) {
        match self {
            NovelModeCmd::SetEnabled(a) => 1 + a.byte_size(),
            NovelModeCmd::Unknown1(a) => 1 + a.byte_size(),
            NovelModeCmd::Unknown2 => 1,
            NovelModeCmd::Unknown3 => 1,
            NovelModeCmd::Unknown4 => 1,
        }
    }

    fn write(&self, out: &mut Vec<u8>) -> (r: Result<(), CodecError>) {
        match self {
            NovelModeCmd::SetEnabled(a) => {
                out.push(0x01);
                a.write(out)?;
            },
            NovelModeCmd::Unknown1(a) => {
                out.push(0x02);
                a.write(out)?;
            },
            NovelModeCmd::Unknown2 => out.push(0x03),
            NovelModeCmd::Unknown3 => out.push(0x04),
            NovelModeCmd::Unknown4 => out.push(0x05),
        }
        assert(out@ =~= old(out)@ + self.wire());
        Ok(())
    }
}

/// Parse a novel-mode command.
pub fn novel_mode_cmd(s: &[u8], pos: usize) -> (r: Result<(NovelModeCmd, usize), CodecError>)
    requires
        pos <= s@.len(),
    ensures
        r matches Ok((c, end)) ==> pos < end <= s@.len() && c.wf()
            && c.wire().len() <= end - pos
            && (c.wire().len() == end - pos ==> c.wire() == s@.subrange(pos as int, end as int)),
        r matches Err(e) ==> crate::codec::parse_error(e),
{
    let (tag, p0) = read_u8(s, pos)?;
    match tag {
        0x03 | 0x04 | 0x05 => {
            let c = match tag {
                0x03 => NovelModeCmd::Unknown2,
                0x04 => NovelModeCmd::Unknown3,
                _ => NovelModeCmd::Unknown4,
            };
            proof {
                assert(c.wire().len() <= p0 - pos);
                if c.wire().len() == p0 - pos {
                    assert(c.wire() =~= s@.subrange(pos as int, p0 as int));
                }
            }
            Ok((c, p0))
        },
        0x01 | 0x02 => {
            let (a, p1) = scene_value(s, p0)?;
            let c = if tag == 0x01 {
                NovelModeCmd::SetEnabled(a)
            } else {
                NovelModeCmd::Unknown1(a)
            };
            proof {
                assert(s@.subrange(pos as int, p0 as int) + s@.subrange(p0 as int, p1 as int)
                    == s@.subrange(pos as int, p1 as int));
                assert(c.wire().len() <= p1 - pos);
                if c.wire().len() == p1 - pos {
                    assert(c.wire() =~= s@.subrange(pos as int, p1 as int));
                }
            }
            Ok((c, p1))
        },
        _ => Err(CodecError::UnknownSubcommand(0x76, tag)),
    }
}

} // verus!
