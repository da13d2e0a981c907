//! Window, message-window, system-variable, popup-menu, system, name-input,
//! area-buffer and flash sub-command families.
use vstd::prelude::*;
use crate::codec::{CodecError, Writeable, read_u8, seq_wire, seq_wf, lemma_seq_wire_push, lemma_subrange_glue};
use crate::val::{Val, val_wire, scene_value};
use crate::text::{SceneText, scene_text, SceneFormattedText, scene_formatted_text};

verus! {

broadcast use lemma_subrange_glue;

/// Window-variable commands (family tag `0x70`).
#[derive(Debug, PartialEq, Eq, Clone)]
pub enum WindowVarCmd {
    GetBgFlagColor(Val, Val, Val, Val),
    SetBgFlagColor(Val, Val, Val, Val),
    GetWindowMove(Val),
    SetWindowMove(Val),
    GetWindowClearBox(Val),
    SetWindowClearBox(Val),
    GetWindowWaku(Val),
    SetWindowWaku(Val),
}

impl Writeable for WindowVarCmd {
    open spec fn wire(&self) -> Seq<u8> {
        match self {
            WindowVarCmd::GetBgFlagColor(a, b, c, d) => seq![0x01u8] + val_wire(*a) + val_wire(*b)
                + val_wire(*c) + val_wire(*d),
            WindowVarCmd::SetBgFlagColor(a, b, c, d) => seq![0x02u8] + val_wire(*a) + val_wire(*b)
                + val_wire(*c) + val_wire(*d),
            WindowVarCmd::GetWindowMove(a) => seq![0x03u8] + val_wire(*a),
            WindowVarCmd::SetWindowMove(a) => seq![0x04u8] + val_wire(*a),
            WindowVarCmd::GetWindowClearBox(a) => seq![0x05u8] + val_wire(*a),
            WindowVarCmd::SetWindowClearBox(a) => seq![0x06u8] + val_wire(*a),
            WindowVarCmd::GetWindowWaku(a) => seq![0x10u8] + val_wire(*a),
            WindowVarCmd::SetWindowWaku(a) => seq![0x11u8] + val_wire(*a),
        }
    }

    open spec fn wf(&self) -> bool {
        true
    }

    open spec fn compiled(&self) -> bool {
        true
    }

    fn byte_size(&self) -> (r: usize) {
        match self {
            WindowVarCmd::GetBgFlagColor(a, b, c, d) => 1 + a.byte_size() + b.byte_size()
                + c.byte_size() + d.byte_size(),
            WindowVarCmd::SetBgFlagColor(a, b, c, d) => 1 + a.byte_size() + b.byte_size()
                + c.byte_size() + d.byte_size(),
            WindowVarCmd::GetWindowMove(a) => 1 + a.byte_size(),
            WindowVarCmd::SetWindowMove(a) => 1 + a.byte_size(),
            WindowVarCmd::GetWindowClearBox(a) => 1 + a.byte_size(),
            WindowVarCmd::SetWindowClearBox(a) => 1 + a.byte_size(),
            WindowVarCmd::GetWindowWaku(a) => 1 + a.byte_size(),
            WindowVarCmd::SetWindowWaku(a) => 1 + a.byte_size(),
        }
    }

    fn write(&self, out: &mut Vec<u8>) -> (r: Result<(), CodecError>) {
        match self {
            WindowVarCmd::GetBgFlagColor(a, b, c, d) => {
                out.push(0x01);
                a.write(out)?;
                b.write(out)?;
                c.write(out)?;
                d.write(out)?;
            },
            WindowVarCmd::SetBgFlagColor(a, b, c, d) => {
                out.push(0x02);
                a.write(out)?;
                b.write(out)?;
                c.write(out)?;
                d.write(out)?;
            },
            WindowVarCmd::GetWindowMove(a) => {
                out.push(0x03);
                a.write(out)?;
            },
            WindowVarCmd::SetWindowMove(a) => {
                out.push(0x04);
                a.write(out)?;
            },
            WindowVarCmd::GetWindowClearBox(a) => {
                out.push(0x05);
                a.write(out)?;
            },
            WindowVarCmd::SetWindowClearBox(a) => {
                out.push(0x06);
                a.write(out)?;
            },
            WindowVarCmd::GetWindowWaku(a) => {
                out.push(0x10);
                a.write(out)?;
            },
            WindowVarCmd::SetWindowWaku(a) => {
                out.push(0x11);
                a.write(out)?;
            },
        }
        assert(out@ =~= old(out)@ + self.wire());
        Ok(())
    }
}

/// Parse a window-variable command.
pub fn window_var_cmd(s: &[u8], pos: usize) -> (r: Result<(WindowVarCmd, usize), CodecError>)
    requires
        pos <= s@.len(),
    ensures
        r matches Ok((c, end)) ==> pos < end <= s@.len() && c.wf()
            && c.wire().len() <= end - pos
            && (c.wire().len() == end - pos ==> c.wire() == s@.subrange(pos as int, end as int)),
        r matches Err(e) ==> crate::codec::parse_error(e),
{
    let (tag, p0) = read_u8(s, pos)?;
    match tag {
        0x01 | 0x02 => {
            let (a, p1) = scene_value(s, p0)?;
            let (b, p2) = scene_value(s, p1)?;
            let (c, p3) = scene_value(s, p2)?;
            let (d, p4) = scene_value(s, p3)?;
            let cmd = if tag == 0x01 {
                WindowVarCmd::GetBgFlagColor(a, b, c, d)
            } else {
                WindowVarCmd::SetBgFlagColor(a, b, c, d)
            };
            proof {
                assert(s@.subrange(pos as int, p0 as int) + s@.subrange(p0 as int, p1 as int)
                    == s@.subrange(pos as int, p1 as int));
                assert(s@.subrange(pos as int, p1 as int) + s@.subrange(p1 as int, p2 as int)
                    == s@.subrange(pos as int, p2 as int));
                assert(s@.subrange(pos as int, p2 as int) + s@.subrange(p2 as int, p3 as int)
                    == s@.subrange(pos as int, p3 as int));
                assert(s@.subrange(pos as int, p3 as int) + s@.subrange(p3 as int, p4 as int)
                    == s@.subrange(pos as int, p4 as int));
                assert(cmd.wire().len() <= p4 - pos);
                if cmd.wire().len() == p4 - pos {
                    assert(cmd.wire() =~= s@.subrange(pos as int, p4 as int));
                }
            }
            Ok((cmd, p4))
        },
        0x03 | 0x04 | 0x05 | 0x06 | 0x10 | 0x11 => {
            let (a, p1) = scene_value(s, p0)?;
            let cmd = match tag {
                0x03 => WindowVarCmd::GetWindowMove(a),
                0x04 => WindowVarCmd::SetWindowMove(a),
                0x05 => WindowVarCmd::GetWindowClearBox(a),
                0x06 => WindowVarCmd::SetWindowClearBox(a),
                0x10 => WindowVarCmd::GetWindowWaku(a),
                _ => WindowVarCmd::SetWindowWaku(a),
            };
            proof {
                assert(s@.subrange(pos as int, p0 as int) + s@.subrange(p0 as int, p1 as int)
                    == s@.subrange(pos as int, p1 as int));
                assert(cmd.wire().len() <= p1 - pos);
                if cmd.wire().len() == p1 - pos {
                    assert(cmd.wire() =~= s@.subrange(pos as int, p1 as int));
                }
            }
            Ok((cmd, p1))
        },
        _ => Err(CodecError::UnknownSubcommand(0x70, tag)),
    }
}

/// Message-window position commands (family tag `0x72`).
#[derive(Debug, PartialEq, Eq, Clone)]
pub enum MessageWinCmd {
    GetWindowMsgPos(Val, Val),
    GetWindowComPos(Val, Val),
    GetWindowSysPos(Val, Val),
    GetWindowSubPos(Val, Val),
    GetWindowGrpPos(Val, Val),
    SetWindowMsgPos(Val, Val),
    SetWindowComPos(Val, Val),
    SetWindowSysPos(Val, Val),
    SetWindowSubPos(Val, Val),
    SetWindowGrpPos(Val, Val),
}

impl MessageWinCmd {
    /// The dispatch byte of this command.
    pub open spec fn tag(&self) -> u8 {
        match self {
            MessageWinCmd::GetWindowMsgPos(_, _) => 0x01,
            MessageWinCmd::GetWindowComPos(_, _) => 0x02,
            MessageWinCmd::GetWindowSysPos(_, _) => 0x03,
            MessageWinCmd::GetWindowSubPos(_, _) => 0x04,
            MessageWinCmd::GetWindowGrpPos(_, _) => 0x05,
            MessageWinCmd::SetWindowMsgPos(_, _) => 0x11,
            MessageWinCmd::SetWindowComPos(_, _) => 0x12,
            MessageWinCmd::SetWindowSysPos(_, _) => 0x13,
            MessageWinCmd::SetWindowSubPos(_, _) => 0x14,
            MessageWinCmd::SetWindowGrpPos(_, _) => 0x15,
        }
    }

    /// The two coordinate values every command carries.
    pub open spec fn coords(&self) -> (Val, Val) {
        match self {
            MessageWinCmd::GetWindowMsgPos(x, y) => (*x, *y),
            MessageWinCmd::GetWindowComPos(x, y) => (*x, *y),
            MessageWinCmd::GetWindowSysPos(x, y) => (*x, *y),
            MessageWinCmd::GetWindowSubPos(x, y) => (*x, *y),
            MessageWinCmd::GetWindowGrpPos(x, y) => (*x, *y),
            MessageWinCmd::SetWindowMsgPos(x, y) => (*x, *y),
            MessageWinCmd::SetWindowComPos(x, y) => (*x, *y),
            MessageWinCmd::SetWindowSysPos(x, y) => (*x, *y),
            MessageWinCmd::SetWindowSubPos(x, y) => (*x, *y),
            MessageWinCmd::SetWindowGrpPos(x, y) => (*x, *y),
        }
    }
}

impl Writeable for MessageWinCmd {
    open spec fn wire(&self) -> Seq<u8> {
        seq![self.tag()] + val_wire(self.coords().0) + val_wire(self.coords().1)
    }

    open spec fn wf(&self) -> bool {
        true
    }

    open spec fn compiled(&self) -> bool {
        true
    }

    fn byte_size(&self) -> (r: usize) {
        match self {
            MessageWinCmd::GetWindowMsgPos(x, y) => 1 + x.byte_size() + y.byte_size(),
            MessageWinCmd::GetWindowComPos(x, y) => 1 + x.byte_size() + y.byte_size(),
            MessageWinCmd::GetWindowSysPos(x, y) => 1 + x.byte_size() + y.byte_size(),
            MessageWinCmd::GetWindowSubPos(x, y) => 1 + x.byte_size() + y.byte_size(),
            MessageWinCmd::GetWindowGrpPos(x, y) => 1 + x.byte_size() + y.byte_size(),
            MessageWinCmd::SetWindowMsgPos(x, y) => 1 + x.byte_size() + y.byte_size(),
            MessageWinCmd::SetWindowComPos(x, y) => 1 + x.byte_size() + y.byte_size(),
            MessageWinCmd::SetWindowSysPos(x, y) => 1 + x.byte_size() + y.byte_size(),
            MessageWinCmd::SetWindowSubPos(x, y) => 1 + x.byte_size() + y.byte_size(),
            MessageWinCmd::SetWindowGrpPos(x, y) => 1 + x.byte_size() + y.byte_size(),
        }
    }

    fn write(&self, out: &mut Vec<u8>) -> (r: Result<(), CodecError>) {
        match self {
            MessageWinCmd::GetWindowMsgPos(x, y) => {
                out.push(0x01);
                x.write(out)?;
                y.write(out)?;
            },
            MessageWinCmd::GetWindowComPos(x, y) => {
                out.push(0x02);
                x.write(out)?;
                y.write(out)?;
            },
            MessageWinCmd::GetWindowSysPos(x, y) => {
                out.push(0x03);
                x.write(out)?;
                y.write(out)?;
            },
            MessageWinCmd::GetWindowSubPos(x, y) => {
                out.push(0x04);
                x.write(out)?;
                y.write(out)?;
            },
            MessageWinCmd::GetWindowGrpPos(x, y) => {
                out.push(0x05);
                x.write(out)?;
                y.write(out)?;
            },
            MessageWinCmd::SetWindowMsgPos(x, y) => {
                out.push(0x11);
                x.write(out)?;
                y.write(out)?;
            },
            MessageWinCmd::SetWindowComPos(x, y) => {
                out.push(0x12);
                x.write(out)?;
                y.write(out)?;
            },
            MessageWinCmd::SetWindowSysPos(x, y) => {
                out.push(0x13);
                x.write(out)?;
                y.write(out)?;
            },
            MessageWinCmd::SetWindowSubPos(x, y) => {
                out.push(0x14);
                x.write(out)?;
                y.write(out)?;
            },
            MessageWinCmd::SetWindowGrpPos(x, y) => {
                out.push(0x15);
                x.write(out)?;
                y.write(out)?;
            },
        }
        assert(out@ =~= old(out)@ + self.wire());
        Ok(())
    }
}

/// Parse a message-window command.
pub fn message_win_cmd(s: &[u8], pos: usize) -> (r: Result<(MessageWinCmd, usize), CodecError>)
    requires
        pos <= s@.len(),
    ensures
        r matches Ok((c, end)) ==> pos < end <= s@.len() && c.wf()
            && c.wire().len() <= end - pos
            && (c.wire().len() == end - pos ==> c.wire() == s@.subrange(pos as int, end as int)),
        r matches Err(e) ==> crate::codec::parse_error(e),
{
    let (tag, p0) = read_u8(s, pos)?;
    match tag {
        0x01 | 0x02 | 0x03 | 0x04 | 0x05 | 0x11 | 0x12 | 0x13 | 0x14 | 0x15 => {
            let (x, p1) = scene_value(s, p0)?;
            let (y, p2) = scene_value(s, p1)?;
            let c = match tag {
                0x01 => MessageWinCmd::GetWindowMsgPos(x, y),
                0x02 => MessageWinCmd::GetWindowComPos(x, y),
                0x03 => MessageWinCmd::GetWindowSysPos(x, y),
                0x04 => MessageWinCmd::GetWindowSubPos(x, y),
                0x05 => MessageWinCmd::GetWindowGrpPos(x, y),
                0x11 => MessageWinCmd::SetWindowMsgPos(x, y),
                0x12 => MessageWinCmd::SetWindowComPos(x, y),
                0x13 => MessageWinCmd::SetWindowSysPos(x, y),
                0x14 => MessageWinCmd::SetWindowSubPos(x, y),
                _ => MessageWinCmd::SetWindowGrpPos(x, y),
            };
            proof {
                assert(s@.subrange(pos as int, p0 as int) + s@.subrange(p0 as int, p1 as int)
                    == s@.subrange(pos as int, p1 as int));
                assert(s@.subrange(pos as int, p1 as int) + s@.subrange(p1 as int, p2 as int)
                    == s@.subrange(pos as int, p2 as int));
                assert(c.wire().len() <= p2 - pos);
                if c.wire().len() == p2 - pos {
                    assert(c.wire() =~= s@.subrange(pos as int, p2 as int));
                }
            }
            Ok((c, p2))
        },
        _ => Err(CodecError::UnknownSubcommand(0x72, tag)),
    }
}

/// System-variable commands (family tag `0x73`).
#[derive(Debug, PartialEq, Eq, Clone)]
pub enum SystemVarCmd {
    GetMessageSize(Val, Val),
    SetMessageSize(Val, Val),
    GetMsgMojiSize(Val, Val),
    SetMsgMojiSize(Val, Val),
    GetMojiColor(Val),
    SetMojiColor(Val),
    GetMsgCancel(Val),
    SetMsgCancel(Val),
    GetMojiKage(Val),
    SetMojiKage(Val),
    GetKageColor(Val),
    SetKageColor(Val),
    GetSelCancel(Val),
    SetSelCancel(Val),
    GetCtrlKey(Val),
    SetCtrlKey(Val),
    GetSaveStart(Val),
    SetSaveStart(Val),
    GetDisableNvlTextFlag(Val),
    SetDisableNvlTextFlag(Val),
    GetFadeTime(Val),
    SetFadeTime(Val),
    GetCursorMono(Val),
    SetCursorMono(Val),
    GetCopyWindSw(Val),
    SetCopyWindSw(Val),
    GetMsgSpeed(Val),
    SetMsgSpeed(Val),
    GetMsgSpeed2(Val),
    SetMsgSpeed2(Val),
    GetReturnKeyWait(Val),
    SetReturnKeyWait(Val),
    GetKoeTextType(Val),
    SetKoeTextType(Val),
    GetGameSpeckInit(Val),
    SetCursorPosition(Val, Val),
    SetDisableKeyMouseFlag(Val),
    GetGameSpeckInit2(Val),
    SetGameSpeckInit(Val),
}

impl SystemVarCmd {
    /// The dispatch byte of this command.
    pub open spec fn tag(&self) -> u8 {
        match self {
            SystemVarCmd::GetMessageSize(_, _) => 0x01,
            SystemVarCmd::SetMessageSize(_, _) => 0x02,
            SystemVarCmd::GetMsgMojiSize(_, _) => 0x05,
            SystemVarCmd::SetMsgMojiSize(_, _) => 0x06,
            SystemVarCmd::GetMojiColor(_) => 0x10,
            SystemVarCmd::SetMojiColor(_) => 0x11,
            SystemVarCmd::GetMsgCancel(_) => 0x12,
            SystemVarCmd::SetMsgCancel(_) => 0x13,
            SystemVarCmd::GetMojiKage(_) => 0x16,
            SystemVarCmd::SetMojiKage(_) => 0x17,
            SystemVarCmd::GetKageColor(_) => 0x18,
            SystemVarCmd::SetKageColor(_) => 0x19,
            SystemVarCmd::GetSelCancel(_) => 0x1a,
            SystemVarCmd::SetSelCancel(_) => 0x1b,
            SystemVarCmd::GetCtrlKey(_) => 0x1c,
            SystemVarCmd::SetCtrlKey(_) => 0x1d,
            SystemVarCmd::GetSaveStart(_) => 0x1e,
            SystemVarCmd::SetSaveStart(_) => 0x1f,
            SystemVarCmd::GetDisableNvlTextFlag(_) => 0x20,
            SystemVarCmd::SetDisableNvlTextFlag(_) => 0x21,
            SystemVarCmd::GetFadeTime(_) => 0x22,
            SystemVarCmd::SetFadeTime(_) => 0x23,
            SystemVarCmd::GetCursorMono(_) => 0x24,
            SystemVarCmd::SetCursorMono(_) => 0x25,
            SystemVarCmd::GetCopyWindSw(_) => 0x26,
            SystemVarCmd::SetCopyWindSw(_) => 0x27,
            SystemVarCmd::GetMsgSpeed(_) => 0x28,
            SystemVarCmd::SetMsgSpeed(_) => 0x29,
            SystemVarCmd::GetMsgSpeed2(_) => 0x2a,
            SystemVarCmd::SetMsgSpeed2(_) => 0x2b,
            SystemVarCmd::GetReturnKeyWait(_) => 0x2c,
            SystemVarCmd::SetReturnKeyWait(_) => 0x2d,
            SystemVarCmd::GetKoeTextType(_) => 0x2e,
            SystemVarCmd::SetKoeTextType(_) => 0x2f,
            SystemVarCmd::GetGameSpeckInit(_) => 0x30,
            SystemVarCmd::SetCursorPosition(_, _) => 0x31,
            SystemVarCmd::SetDisableKeyMouseFlag(_) => 0x32,
            SystemVarCmd::GetGameSpeckInit2(_) => 0x33,
            SystemVarCmd::SetGameSpeckInit(_) => 0x34,
        }
    }

    /// The payload values of this command, in wire order.
    pub open spec fn payload(&self) -> Seq<u8> {
        match self {
            SystemVarCmd::GetMessageSize(a, b) => val_wire(*a) + val_wire(*b),
            SystemVarCmd::SetMessageSize(a, b) => val_wire(*a) + val_wire(*b),
            SystemVarCmd::GetMsgMojiSize(a, b) => val_wire(*a) + val_wire(*b),
            SystemVarCmd::SetMsgMojiSize(a, b) => val_wire(*a) + val_wire(*b),
            SystemVarCmd::GetMojiColor(a) => val_wire(*a),
            SystemVarCmd::SetMojiColor(a) => val_wire(*a),
            SystemVarCmd::GetMsgCancel(a) => val_wire(*a),
            SystemVarCmd::SetMsgCancel(a) => val_wire(*a),
            SystemVarCmd::GetMojiKage(a) => val_wire(*a),
            SystemVarCmd::SetMojiKage(a) => val_wire(*a),
            SystemVarCmd::GetKageColor(a) => val_wire(*a),
            SystemVarCmd::SetKageColor(a) => val_wire(*a),
            SystemVarCmd::GetSelCancel(a) => val_wire(*a),
            SystemVarCmd::SetSelCancel(a) => val_wire(*a),
            SystemVarCmd::GetCtrlKey(a) => val_wire(*a),
            SystemVarCmd::SetCtrlKey(a) => val_wire(*a),
            SystemVarCmd::GetSaveStart(a) => val_wire(*a),
            SystemVarCmd::SetSaveStart(a) => val_wire(*a),
            SystemVarCmd::GetDisableNvlTextFlag(a) => val_wire(*a),
            SystemVarCmd::SetDisableNvlTextFlag(a) => val_wire(*a),
            SystemVarCmd::GetFadeTime(a) => val_wire(*a),
            SystemVarCmd::SetFadeTime(a) => val_wire(*a),
            SystemVarCmd::GetCursorMono(a) => val_wire(*a),
            SystemVarCmd::SetCursorMono(a) => val_wire(*a),
            SystemVarCmd::GetCopyWindSw(a) => val_wire(*a),
            SystemVarCmd::SetCopyWindSw(a) => val_wire(*a),
            SystemVarCmd::GetMsgSpeed(a) => val_wire(*a),
            SystemVarCmd::SetMsgSpeed(a) => val_wire(*a),
            SystemVarCmd::GetMsgSpeed2(a) => val_wire(*a),
            SystemVarCmd::SetMsgSpeed2(a) => val_wire(*a),
            SystemVarCmd::GetReturnKeyWait(a) => val_wire(*a),
            SystemVarCmd::SetReturnKeyWait(a) => val_wire(*a),
            SystemVarCmd::GetKoeTextType(a) => val_wire(*a),
            SystemVarCmd::SetKoeTextType(a) => val_wire(*a),
            SystemVarCmd::GetGameSpeckInit(a) => val_wire(*a),
            SystemVarCmd::SetCursorPosition(a, b) => val_wire(*a) + val_wire(*b),
            SystemVarCmd::SetDisableKeyMouseFlag(a) => val_wire(*a),
            SystemVarCmd::GetGameSpeckInit2(a) => val_wire(*a),
            SystemVarCmd::SetGameSpeckInit(a) => val_wire(*a),
        }
    }
}

impl Writeable for SystemVarCmd {
    open spec fn wire(&self) -> Seq<u8> {
        seq![self.tag()] + self.payload()
    }

    open spec fn wf(&self) -> bool {
        true
    }

    open spec fn compiled(&self) -> bool {
        true
    }

    fn byte_size(&self) -> (r: usize) {
        match self {
            SystemVarCmd::GetMessageSize(a, b) => 1 + a.byte_size() + b.byte_size(),
            SystemVarCmd::SetMessageSize(a, b) => 1 + a.byte_size() + b.byte_size(),
            SystemVarCmd::GetMsgMojiSize(a, b) => 1 + a.byte_size() + b.byte_size(),
            SystemVarCmd::SetMsgMojiSize(a, b) => 1 + a.byte_size() + b.byte_size(),
            SystemVarCmd::SetCursorPosition(a, b) => 1 + a.byte_size() + b.byte_size(),
            SystemVarCmd::GetMojiColor(a) => 1 + a.byte_size(),
            SystemVarCmd::SetMojiColor(a) => 1 + a.byte_size(),
            SystemVarCmd::GetMsgCancel(a) => 1 + a.byte_size(),
            SystemVarCmd::SetMsgCancel(a) => 1 + a.byte_size(),
            SystemVarCmd::GetMojiKage(a) => 1 + a.byte_size(),
            SystemVarCmd::SetMojiKage(a) => 1 + a.byte_size(),
            SystemVarCmd::GetKageColor(a) => 1 + a.byte_size(),
            SystemVarCmd::SetKageColor(a) => 1 + a.byte_size(),
            SystemVarCmd::GetSelCancel(a) => 1 + a.byte_size(),
            SystemVarCmd::SetSelCancel(a) => 1 + a.byte_size(),
            SystemVarCmd::GetCtrlKey(a) => 1 + a.byte_size(),
            SystemVarCmd::SetCtrlKey(a) => 1 + a.byte_size(),
            SystemVarCmd::GetSaveStart(a) => 1 + a.byte_size(),
            SystemVarCmd::SetSaveStart(a) => 1 + a.byte_size(),
            SystemVarCmd::GetDisableNvlTextFlag(a) => 1 + a.byte_size(),
            SystemVarCmd::SetDisableNvlTextFlag(a) => 1 + a.byte_size(),
            SystemVarCmd::GetFadeTime(a) => 1 + a.byte_size(),
            SystemVarCmd::SetFadeTime(a) => 1 + a.byte_size(),
            SystemVarCmd::GetCursorMono(a) => 1 + a.byte_size(),
            SystemVarCmd::SetCursorMono(a) => 1 + a.byte_size(),
            SystemVarCmd::GetCopyWindSw(a) => 1 + a.byte_size(),
            SystemVarCmd::SetCopyWindSw(a) => 1 + a.byte_size(),
            SystemVarCmd::GetMsgSpeed(a) => 1 + a.byte_size(),
            SystemVarCmd::SetMsgSpeed(a) => 1 + a.byte_size(),
            SystemVarCmd::GetMsgSpeed2(a) => 1 + a.byte_size(),
            SystemVarCmd::SetMsgSpeed2(a) => 1 + a.byte_size(),
            SystemVarCmd::GetReturnKeyWait(a) => 1 + a.byte_size(),
            SystemVarCmd::SetReturnKeyWait(a) => 1 + a.byte_size(),
            SystemVarCmd::GetKoeTextType(a) => 1 + a.byte_size(),
            SystemVarCmd::SetKoeTextType(a) => 1 + a.byte_size(),
            SystemVarCmd::GetGameSpeckInit(a) => 1 + a.byte_size(),
            SystemVarCmd::SetDisableKeyMouseFlag(a) => 1 + a.byte_size(),
            SystemVarCmd::GetGameSpeckInit2(a) => 1 + a.byte_size(),
            SystemVarCmd::SetGameSpeckInit(a) => 1 + a.byte_size(),
        }
    }

    fn write(&self, out: &mut Vec<u8>) -> (r: Result<(), CodecError>) {
        match self {
            SystemVarCmd::GetMessageSize(a, b) => write_sysvar_pair(0x01, a, b, out),
            SystemVarCmd::SetMessageSize(a, b) => write_sysvar_pair(0x02, a, b, out),
            SystemVarCmd::GetMsgMojiSize(a, b) => write_sysvar_pair(0x05, a, b, out),
            SystemVarCmd::SetMsgMojiSize(a, b) => write_sysvar_pair(0x06, a, b, out),
            SystemVarCmd::SetCursorPosition(a, b) => write_sysvar_pair(0x31, a, b, out),
            SystemVarCmd::GetMojiColor(a) => write_sysvar_one(0x10, a, out),
            SystemVarCmd::SetMojiColor(a) => write_sysvar_one(0x11, a, out),
            SystemVarCmd::GetMsgCancel(a) => write_sysvar_one(0x12, a, out),
            SystemVarCmd::SetMsgCancel(a) => write_sysvar_one(0x13, a, out),
            SystemVarCmd::GetMojiKage(a) => write_sysvar_one(0x16, a, out),
            SystemVarCmd::SetMojiKage(a) => write_sysvar_one(0x17, a, out),
            SystemVarCmd::GetKageColor(a) => write_sysvar_one(0x18, a, out),
            SystemVarCmd::SetKageColor(a) => write_sysvar_one(0x19, a, out),
            SystemVarCmd::GetSelCancel(a) => write_sysvar_one(0x1a, a, out),
            SystemVarCmd::SetSelCancel(a) => write_sysvar_one(0x1b, a, out),
            SystemVarCmd::GetCtrlKey(a) => write_sysvar_one(0x1c, a, out),
            SystemVarCmd::SetCtrlKey(a) => write_sysvar_one(0x1d, a, out),
            SystemVarCmd::GetSaveStart(a) => write_sysvar_one(0x1e, a, out),
            SystemVarCmd::SetSaveStart(a) => write_sysvar_one(0x1f, a, out),
            SystemVarCmd::GetDisableNvlTextFlag(a) => write_sysvar_one(0x20, a, out),
            SystemVarCmd::SetDisableNvlTextFlag(a) => write_sysvar_one(0x21, a, out),
            SystemVarCmd::GetFadeTime(a) => write_sysvar_one(0x22, a, out),
            SystemVarCmd::SetFadeTime(a) => write_sysvar_one(0x23, a, out),
            SystemVarCmd::GetCursorMono(a) => write_sysvar_one(0x24, a, out),
            SystemVarCmd::SetCursorMono(a) => write_sysvar_one(0x25, a, out),
            SystemVarCmd::GetCopyWindSw(a) => write_sysvar_one(0x26, a, out),
            SystemVarCmd::SetCopyWindSw(a) => write_sysvar_one(0x27, a, out),
            SystemVarCmd::GetMsgSpeed(a) => write_sysvar_one(0x28, a, out),
            SystemVarCmd::SetMsgSpeed(a) => write_sysvar_one(0x29, a, out),
            SystemVarCmd::GetMsgSpeed2(a) => write_sysvar_one(0x2a, a, out),
            SystemVarCmd::SetMsgSpeed2(a) => write_sysvar_one(0x2b, a, out),
            SystemVarCmd::GetReturnKeyWait(a) => write_sysvar_one(0x2c, a, out),
            SystemVarCmd::SetReturnKeyWait(a) => write_sysvar_one(0x2d, a, out),
            SystemVarCmd::GetKoeTextType(a) => write_sysvar_one(0x2e, a, out),
            SystemVarCmd::SetKoeTextType(a) => write_sysvar_one(0x2f, a, out),
            SystemVarCmd::GetGameSpeckInit(a) => write_sysvar_one(0x30, a, out),
            SystemVarCmd::SetDisableKeyMouseFlag(a) => write_sysvar_one(0x32, a, out),
            SystemVarCmd::GetGameSpeckInit2(a) => write_sysvar_one(0x33, a, out),
            SystemVarCmd::SetGameSpeckInit(a) => write_sysvar_one(0x34, a, out),
        }
        assert(out@ =~= old(out)@ + self.wire());
        Ok(())
    }
}

/// Emit a one-value system-variable command.
fn write_sysvar_one(tag: u8, a: &Val, out: &mut Vec<u8>)
    requires
        old(out)@.len() + 1 + val_wire(*a).len() <= usize::MAX,
    ensures
        final(out)@ == old(out)@ + seq![tag] + val_wire(*a),
{
    out.push(tag);
    let r = a.write(out);
    proof {
        assert(r is Ok);
        assert(out@ =~= old(out)@ + seq![tag] + val_wire(*a));
    }
}

/// Emit a two-value system-variable command.
fn write_sysvar_pair(tag: u8, a: &Val, b: &Val, out: &mut Vec<u8>)
    requires
        old(out)@.len() + 1 + val_wire(*a).len() + val_wire(*b).len() <= usize::MAX,
    ensures
        final(out)@ == old(out)@ + seq![tag] + val_wire(*a) + val_wire(*b),
{
    out.push(tag);
    let r1 = a.write(out);
    let r2 = b.write(out);
    proof {
        assert(r1 is Ok && r2 is Ok);
        assert(out@ =~= old(out)@ + seq![tag] + val_wire(*a) + val_wire(*b));
    }
}

/// Parse a system-variable command.
pub fn system_var_cmd(s: &[u8], pos: usize) -> (r: Result<(SystemVarCmd, usize), CodecError>)
    requires
        pos <= s@.len(),
    ensures
        r matches Ok((c, end)) ==> pos < end <= s@.len() && c.wf()
            && c.wire().len() <= end - pos
            && (c.wire().len() == end - pos ==> c.wire() == s@.subrange(pos as int, end as int)),
        r matches Err(e) ==> crate::codec::parse_error(e),
{
    let (tag, p0) = read_u8(s, pos)?;
    match tag {
        0x01 | 0x02 | 0x05 | 0x06 | 0x31 => {
            let (a, p1) = scene_value(s, p0)?;
            let (b, p2) = scene_value(s, p1)?;
            let c = match tag {
                0x01 => SystemVarCmd::GetMessageSize(a, b),
                0x02 => SystemVarCmd::SetMessageSize(a, b),
                0x05 => SystemVarCmd::GetMsgMojiSize(a, b),
                0x06 => SystemVarCmd::SetMsgMojiSize(a, b),
                _ => SystemVarCmd::SetCursorPosition(a, b),
            };
            proof {
                assert(s@.subrange(pos as int, p0 as int) + s@.subrange(p0 as int, p1 as int)
                    == s@.subrange(pos as int, p1 as int));
                assert(s@.subrange(pos as int, p1 as int) + s@.subrange(p1 as int, p2 as int)
                    == s@.subrange(pos as int, p2 as int));
                assert(c.wire().len() <= p2 - pos);
                if c.wire().len() == p2 - pos {
                    assert(c.wire() =~= s@.subrange(pos as int, p2 as int));
                }
            }
            Ok((c, p2))
        },
        0x10 | 0x11 | 0x12 | 0x13 | 0x16 | 0x17 | 0x18 | 0x19 | 0x1a | 0x1b | 0x1c | 0x1d
        | 0x1e | 0x1f | 0x20 | 0x21 | 0x22 | 0x23 | 0x24 | 0x25 | 0x26 | 0x27 | 0x28 | 0x29
        | 0x2a | 0x2b | 0x2c | 0x2d | 0x2e | 0x2f | 0x30 | 0x32 | 0x33 | 0x34 => {
            let (a, p1) = scene_value(s, p0)?;
            let c = match tag {
                0x10 => SystemVarCmd::GetMojiColor(a),
                0x11 => SystemVarCmd::SetMojiColor(a),
                0x12 => SystemVarCmd::GetMsgCancel(a),
                0x13 => SystemVarCmd::SetMsgCancel(a),
                0x16 => SystemVarCmd::GetMojiKage(a),
                0x17 => SystemVarCmd::SetMojiKage(a),
                0x18 => SystemVarCmd::GetKageColor(a),
                0x19 => SystemVarCmd::SetKageColor(a),
                0x1a => SystemVarCmd::GetSelCancel(a),
                0x1b => SystemVarCmd::SetSelCancel(a),
                0x1c => SystemVarCmd::GetCtrlKey(a),
                0x1d => SystemVarCmd::SetCtrlKey(a),
                0x1e => SystemVarCmd::GetSaveStart(a),
                0x1f => SystemVarCmd::SetSaveStart(a),
                0x20 => SystemVarCmd::GetDisableNvlTextFlag(a),
                0x21 => SystemVarCmd::SetDisableNvlTextFlag(a),
                0x22 => SystemVarCmd::GetFadeTime(a),
                0x23 => SystemVarCmd::SetFadeTime(a),
                0x24 => SystemVarCmd::GetCursorMono(a),
                0x25 => SystemVarCmd::SetCursorMono(a),
                0x26 => SystemVarCmd::GetCopyWindSw(a),
                0x27 => SystemVarCmd::SetCopyWindSw(a),
                0x28 => SystemVarCmd::GetMsgSpeed(a),
                0x29 => SystemVarCmd::SetMsgSpeed(a),
                0x2a => SystemVarCmd::GetMsgSpeed2(a),
                0x2b => SystemVarCmd::SetMsgSpeed2(a),
                0x2c => SystemVarCmd::GetReturnKeyWait(a),
                0x2d => SystemVarCmd::SetReturnKeyWait(a),
                0x2e => SystemVarCmd::GetKoeTextType(a),
                0x2f => SystemVarCmd::SetKoeTextType(a),
                0x30 => SystemVarCmd::GetGameSpeckInit(a),
                0x32 => SystemVarCmd::SetDisableKeyMouseFlag(a),
                0x33 => SystemVarCmd::GetGameSpeckInit2(a),
                _ => SystemVarCmd::SetGameSpeckInit(a),
            };
            proof {
                assert(s@.subrange(pos as int, p0 as int) + s@.subrange(p0 as int, p1 as int)
                    == s@.subrange(pos as int, p1 as int));
                assert(c.wire().len() <= p1 - pos);
                if c.wire().len() == p1 - pos {
                    assert(c.wire() =~= s@.subrange(pos as int, p1 as int));
                }
            }
            Ok((c, p1))
        },
        _ => Err(CodecError::UnknownSubcommand(0x73, tag)),
    }
}

/// Popup-menu commands (family tag `0x74`).
#[derive(Debug, PartialEq, Eq, Clone)]
pub enum PopupMenuCmd {
    GetMenuDisabled(Val),
    SetMenuDisabled(Val),
    GetItemDisabled(Val, Val),
    SetItemDisabled(Val, Val),
}

impl Writeable for PopupMenuCmd {
    open spec fn wire(&self) -> Seq<u8> {
        match self {
            PopupMenuCmd::GetMenuDisabled(a) => seq![0x01u8] + val_wire(*a),
            PopupMenuCmd::SetMenuDisabled(a) => seq![0x02u8] + val_wire(*a),
            PopupMenuCmd::GetItemDisabled(a, b) => seq![0x03u8] + val_wire(*a) + val_wire(*b),
            PopupMenuCmd::SetItemDisabled(a, b) => seq![0x04u8] + val_wire(*a) + val_wire(*b),
        }
    }

    open spec fn wf(&self) -> bool {
        true
    }

    open spec fn compiled(&self) -> bool {
        true
    }

    fn byte_size(&self) -> (r: usize) {
        match self {
            PopupMenuCmd::GetMenuDisabled(a) => 1 + a.byte_size(),
            PopupMenuCmd::SetMenuDisabled(a) => 1 + a.byte_size(),
            PopupMenuCmd::GetItemDisabled(a, b) => 1 + a.byte_size() + b.byte_size(),
            PopupMenuCmd::SetItemDisabled(a, b) => 1 + a.byte_size() + b.byte_size(),
        }
    }

    fn write(&self, out: &mut Vec<u8>) -> (r: Result<(), CodecError>) {
        match self {
            PopupMenuCmd::GetMenuDisabled(a) => {
                out.push(0x01);
                a.write(out)?;
            },
            PopupMenuCmd::SetMenuDisabled(a) => {
                out.push(0x02);
                a.write(out)?;
            },
            PopupMenuCmd::GetItemDisabled(a, b) => {
                out.push(0x03);
                a.write(out)?;
                b.write(out)?;
            },
            PopupMenuCmd::SetItemDisabled(a, b) => {
                out.push(0x04);
                a.write(out)?;
                b.write(out)?;
            },
        }
        assert(out@ =~= old(out)@ + self.wire());
        Ok(())
    }
}

/// Parse a popup-menu command.
pub fn popup_menu_cmd(s: &[u8], pos: usize) -> (r: Result<(PopupMenuCmd, usize), CodecError>)
    requires
        pos <= s@.len(),
    ensures
        r matches Ok((c, end)) ==> pos < end <= s@.len() && c.wf()
            && c.wire().len() <= end - pos
            && (c.wire().len() == end - pos ==> c.wire() == s@.subrange(pos as int, end as int)),
        r matches Err(e) ==> crate::codec::parse_error(e),
{
    let (tag, p0) = read_u8(s, pos)?;
    match tag {
        0x01 | 0x02 => {
            let (a, p1) = scene_value(s, p0)?;
            let c = if tag == 0x01 {
                PopupMenuCmd::GetMenuDisabled(a)
            } else {
                PopupMenuCmd::SetMenuDisabled(a)
            };
            proof {
                assert(s@.subrange(pos as int, p0 as int) + s@.subrange(p0 as int, p1 as int)
                    == s@.subrange(pos as int, p1 as int));
                assert(c.wire().len() <= p1 - pos);
                if c.wire().len() == p1 - pos {
                    assert(c.wire() =~= s@.subrange(pos as int, p1 as int));
                }
            }
            Ok((c, p1))
        },
        0x03 | 0x04 => {
            let (a, p1) = scene_value(s, p0)?;
            let (b, p2) = scene_value(s, p1)?;
            let c = if tag == 0x03 {
                PopupMenuCmd::GetItemDisabled(a, b)
            } else {
                PopupMenuCmd::SetItemDisabled(a, b)
            };
            proof {
                assert(s@.subrange(pos as int, p0 as int) + s@.subrange(p0 as int, p1 as int)
                    == s@.subrange(pos as int, p1 as int));
                assert(s@.subrange(pos as int, p1 as int) + s@.subrange(p1 as int, p2 as int)
                    == s@.subrange(pos as int, p2 as int));
                assert(c.wire().len() <= p2 - pos);
                if c.wire().len() == p2 - pos {
                    assert(c.wire() =~= s@.subrange(pos as int, p2 as int));
                }
            }
            Ok((c, p2))
        },
        _ => Err(CodecError::UnknownSubcommand(0x74, tag)),
    }
}

/// Save, load and shutdown commands (family tag `0x60`).
#[derive(Debug, PartialEq, Eq, Clone)]
pub enum SystemCmd {
    LoadGame(Val),
    SaveGame(Val),
    SetTitle(SceneFormattedText),
    MakePopup,
    GameEnd,
    GetSaveTitle(Val, Val),
    CheckSaveData(Val, Val),
    Unknown1(Val, Val),
    Unknown2(Val, Val),
    Unknown3(Val, Val),
}

impl Writeable for SystemCmd {
    open spec fn wire(&self) -> Seq<u8> {
        match self {
            SystemCmd::LoadGame(a) => seq![0x02u8] + val_wire(*a),
            SystemCmd::SaveGame(a) => seq![0x03u8] + val_wire(*a),
            SystemCmd::SetTitle(t) => seq![0x04u8] + t.wire(),
            SystemCmd::MakePopup => seq![0x05u8],
            SystemCmd::GameEnd => seq![0x20u8],
            SystemCmd::GetSaveTitle(a, b) => seq![0x30u8] + val_wire(*a) + val_wire(*b),
            SystemCmd::CheckSaveData(a, b) => seq![0x31u8] + val_wire(*a) + val_wire(*b),
            SystemCmd::Unknown1(a, b) => seq![0x35u8] + val_wire(*a) + val_wire(*b),
            SystemCmd::Unknown2(a, b) => seq![0x36u8] + val_wire(*a) + val_wire(*b),
            SystemCmd::Unknown3(a, b) => seq![0x37u8] + val_wire(*a) + val_wire(*b),
        }
    }

    open spec fn wf(&self) -> bool {
        match self {
            SystemCmd::SetTitle(t) => t.wf(),
            _ => true,
        }
    }

    open spec fn compiled(&self) -> bool {
        true
    }

    fn byte_size(&self) -> (r: usize) {
        match self {
            SystemCmd::LoadGame(a) => 1 + a.byte_size(),
            SystemCmd::SaveGame(a) => 1 + a.byte_size(),
            SystemCmd::SetTitle(t) => 1 + t.byte_size(),
            SystemCmd::MakePopup => 1,
            SystemCmd::GameEnd => 1,
            SystemCmd::GetSaveTitle(a, b) => 1 + a.byte_size() + b.byte_size(),
            SystemCmd::CheckSaveData(a, b) => 1 + a.byte_size() + b.byte_size(),
            SystemCmd::Unknown1(a, b) => 1 + a.byte_size() + b.byte_size(),
            SystemCmd::Unknown2(a, b) => 1 + a.byte_size() + b.byte_size(),
            SystemCmd::Unknown3(a, b) => 1 + a.byte_size() + b.byte_size(),
        }
    }

    fn write(&self, out: &mut Vec<u8>) -> (r: Result<(), CodecError>) {
        match self {
            SystemCmd::LoadGame(a) => {
                out.push(0x02);
                a.write(out)?;
            },
            SystemCmd::SaveGame(a) => {
                out.push(0x03);
                a.write(out)?;
            },
            SystemCmd::SetTitle(t) => {
                out.push(0x04);
                t.write(out)?;
            },
            SystemCmd::MakePopup => out.push(0x05),
            SystemCmd::GameEnd => out.push(0x20),
            SystemCmd::GetSaveTitle(a, b) => {
                out.push(0x30);
                a.write(out)?;
                b.write(out)?;
            },
            SystemCmd::CheckSaveData(a, b) => {
                out.push(0x31);
                a.write(out)?;
                b.write(out)?;
            },
            SystemCmd::Unknown1(a, b) => {
                out.push(0x35);
                a.write(out)?;
                b.write(out)?;
            },
            SystemCmd::Unknown2(a, b) => {
                out.push(0x36);
                a.write(out)?;
                b.write(out)?;
            },
            SystemCmd::Unknown3(a, b) => {
                out.push(0x37);
                a.write(out)?;
                b.write(out)?;
            },
        }
        assert(out@ =~= old(out)@ + self.wire());
        Ok(())
    }
}

/// Parse a system command.
pub fn system_cmd(s: &[u8], pos: usize) -> (r: Result<(SystemCmd, usize), CodecError>)
    requires
        pos <= s@.len(),
    ensures
        r matches Ok((c, end)) ==> pos < end <= s@.len() && c.wf()
            && c.wire().len() <= end - pos
            && (c.wire().len() == end - pos ==> c.wire() == s@.subrange(pos as int, end as int)),
        r matches Err(e) ==> crate::codec::parse_error(e),
{
    let (tag, p0) = read_u8(s, pos)?;
    match tag {
        0x05 | 0x20 => {
            let c = if tag == 0x05 {
                SystemCmd::MakePopup
            } else {
                SystemCmd::GameEnd
            };
            proof {
                assert(c.wire().len() <= p0 - pos);
                if c.wire().len() == p0 - pos {
                    assert(c.wire() =~= s@.subrange(pos as int, p0 as int));
                }
            }
            Ok((c, p0))
        },
        0x02 | 0x03 => {
            let (a, p1) = scene_value(s, p0)?;
            let c = if tag == 0x02 {
                SystemCmd::LoadGame(a)
            } else {
                SystemCmd::SaveGame(a)
            };
            proof {
                assert(s@.subrange(pos as int, p0 as int) + s@.subrange(p0 as int, p1 as int)
                    == s@.subrange(pos as int, p1 as int));
                assert(c.wire().len() <= p1 - pos);
                if c.wire().len() == p1 - pos {
                    assert(c.wire() =~= s@.subrange(pos as int, p1 as int));
                }
            }
            Ok((c, p1))
        },
        0x04 => {
            let (t, p1) = scene_formatted_text(s, p0)?;
            let c = SystemCmd::SetTitle(t);
            proof {
                assert(s@.subrange(pos as int, p0 as int) + s@.subrange(p0 as int, p1 as int)
                    == s@.subrange(pos as int, p1 as int));
                assert(c.wire().len() <= p1 - pos);
                if c.wire().len() == p1 - pos {
                    assert(c.wire() =~= s@.subrange(pos as int, p1 as int));
                }
            }
            Ok((c, p1))
        },
        0x30 | 0x31 | 0x35 | 0x36 | 0x37 => {
            let (a, p1) = scene_value(s, p0)?;
            let (b, p2) = scene_value(s, p1)?;
            let c = match tag {
                0x30 => SystemCmd::GetSaveTitle(a, b),
                0x31 => SystemCmd::CheckSaveData(a, b),
                0x35 => SystemCmd::Unknown1(a, b),
                0x36 => SystemCmd::Unknown2(a, b),
                _ => SystemCmd::Unknown3(a, b),
            };
            proof {
                assert(s@.subrange(pos as int, p0 as int) + s@.subrange(p0 as int, p1 as int)
                    == s@.subrange(pos as int, p1 as int));
                assert(s@.subrange(pos as int, p1 as int) + s@.subrange(p1 as int, p2 as int)
                    == s@.subrange(pos as int, p2 as int));
                assert(c.wire().len() <= p2 - pos);
                if c.wire().len() == p2 - pos {
                    assert(c.wire() =~= s@.subrange(pos as int, p2 as int));
                }
            }
            Ok((c, p2))
        },
        _ => Err(CodecError::UnknownSubcommand(0x60, tag)),
    }
}

/// One name-input prompt: a variable index and its formatted caption.
#[derive(Debug, PartialEq, Eq, Clone)]
pub struct NameInputItem {
    pub idx: Val,
    pub text: SceneFormattedText,
}

impl Writeable for NameInputItem {
    open spec fn wire(&self) -> Seq<u8> {
        val_wire(self.idx) + self.text.wire()
    }

    open spec fn wf(&self) -> bool {
        self.text.wf()
    }

    open spec fn compiled(&self) -> bool {
        true
    }

    fn byte_size(&self) -> (r: usize) {
        self.idx.byte_size() + self.text.byte_size()
    }

    fn write(&self, out: &mut Vec<u8>) -> (r: Result<(), CodecError>) {
        self.idx.write(out)?;
        self.text.write(out)?;
        assert(out@ =~= old(out)@ + self.wire());
        Ok(())
    }
}

/// Parse one name-input prompt.
pub fn name_input_item(s: &[u8], pos: usize) -> (r: Result<(NameInputItem, usize), CodecError>)
    requires
        pos <= s@.len(),
    ensures
        r matches Ok((it, end)) ==> pos < end <= s@.len() && it.wf()
            && it.wire().len() <= end - pos
            && (it.wire().len() == end - pos ==> it.wire() == s@.subrange(pos as int, end as int)),
        r matches Err(e) ==> crate::codec::parse_error(e),
{
    let (idx, p1) = scene_value(s, pos)?;
    let (text, p2) = scene_formatted_text(s, p1)?;
    let it = NameInputItem { idx, text };
    proof {
        assert(s@.subrange(pos as int, p1 as int) + s@.subrange(p1 as int, p2 as int)
            == s@.subrange(pos as int, p2 as int));
        assert(it.wire().len() <= p2 - pos);
        if it.wire().len() == p2 - pos {
            assert(it.wire() =~= s@.subrange(pos as int, p2 as int));
        }
    }
    Ok((it, p2))
}

/// Name-input commands (family tag `0x61`).
#[derive(Debug, PartialEq, Eq, Clone)]
pub enum NameCmd {
    InputBox(Val, Val, Val, Val, Val, Val, Val, Val, Val, Val),
    InputBoxFinish(Val),
    InputBoxStart(Val),
    InputBoxClose(Val),
    GetName(Val, Val),
    SetName(Val, Val),
    GetName2(Val, Val),
    NameInputDialog(Val),
    Unknown1(Val, SceneText, Val, Val, Val, Val, Val, Val, Val, Val, Val),
    NameInputDialogMulti(Vec<NameInputItem>),
    Unknown2,
    Unknown3,
}

impl Writeable for NameCmd {
    open spec fn wire(&self) -> Seq<u8> {
        match self {
            NameCmd::InputBox(x, y, ex, ey, r, g, b, br, bg, bb) => seq![0x01u8] + val_wire(*x)
                + val_wire(*y) + val_wire(*ex) + val_wire(*ey) + val_wire(*r) + val_wire(*g)
                + val_wire(*b) + val_wire(*br) + val_wire(*bg) + val_wire(*bb),
            NameCmd::InputBoxFinish(a) => seq![0x02u8] + val_wire(*a),
            NameCmd::InputBoxStart(a) => seq![0x03u8] + val_wire(*a),
            NameCmd::InputBoxClose(a) => seq![0x04u8] + val_wire(*a),
            NameCmd::GetName(a, b) => seq![0x10u8] + val_wire(*a) + val_wire(*b),
            NameCmd::SetName(a, b) => seq![0x11u8] + val_wire(*a) + val_wire(*b),
            NameCmd::GetName2(a, b) => seq![0x12u8] + val_wire(*a) + val_wire(*b),
            NameCmd::NameInputDialog(a) => seq![0x20u8] + val_wire(*a),
            NameCmd::Unknown1(idx, t, a, b, c, d, e, f, g, h, i) => seq![0x21u8] + val_wire(*idx)
                + t.wire() + val_wire(*a) + val_wire(*b) + val_wire(*c) + val_wire(*d)
                + val_wire(*e) + val_wire(*f) + val_wire(*g) + val_wire(*h) + val_wire(*i),
            NameCmd::NameInputDialogMulti(items) => seq![0x24u8, items@.len() as u8]
                + seq_wire(items@),
            NameCmd::Unknown2 => seq![0x30u8],
            NameCmd::Unknown3 => seq![0x31u8],
        }
    }

    open spec fn wf(&self) -> bool {
        match self {
            NameCmd::Unknown1(_, t, _, _, _, _, _, _, _, _, _) => t.wf(),
            NameCmd::NameInputDialogMulti(items) => items@.len() <= 255 && seq_wf(items@),
            _ => true,
        }
    }

    open spec fn compiled(&self) -> bool {
        true
    }

    fn byte_size(&self) -> (r: usize) {
        match self {
            NameCmd::InputBox(x, y, ex, ey, r, g, b, br, bg, bb) => 1 + x.byte_size()
                + y.byte_size() + ex.byte_size() + ey.byte_size() + r.byte_size() + g.byte_size()
                + b.byte_size() + br.byte_size() + bg.byte_size() + bb.byte_size(),
            NameCmd::InputBoxFinish(a) => 1 + a.byte_size(),
            NameCmd::InputBoxStart(a) => 1 + a.byte_size(),
            NameCmd::InputBoxClose(a) => 1 + a.byte_size(),
            NameCmd::GetName(a, b) => 1 + a.byte_size() + b.byte_size(),
            NameCmd::SetName(a, b) => 1 + a.byte_size() + b.byte_size(),
            NameCmd::GetName2(a, b) => 1 + a.byte_size() + b.byte_size(),
            NameCmd::NameInputDialog(a) => 1 + a.byte_size(),
            NameCmd::Unknown1(idx, t, a, b, c, d, e, f, g, h, i) => 1 + idx.byte_size()
                + t.byte_size() + a.byte_size() + b.byte_size() + c.byte_size() + d.byte_size()
                + e.byte_size() + f.byte_size() + g.byte_size() + h.byte_size() + i.byte_size(),
            NameCmd::NameInputDialogMulti(items) => 2 + items.byte_size(),
            NameCmd::Unknown2 => 1,
            NameCmd::Unknown3 => 1,
        }
    }

    fn write(&self, out: &mut Vec<u8>) -> (r: Result<(), CodecError>) {
        match self {
            NameCmd::InputBox(x, y, ex, ey, r, g, b, br, bg, bb) => {
                out.push(0x01);
                x.write(out)?;
                y.write(out)?;
                ex.write(out)?;
                ey.write(out)?;
                r.write(out)?;
                g.write(out)?;
                b.write(out)?;
                br.write(out)?;
                bg.write(out)?;
                bb.write(out)?;
            },
            NameCmd::InputBoxFinish(a) => {
                out.push(0x02);
                a.write(out)?;
            },
            NameCmd::InputBoxStart(a) => {
                out.push(0x03);
                a.write(out)?;
            },
            NameCmd::InputBoxClose(a) => {
                out.push(0x04);
                a.write(out)?;
            },
            NameCmd::GetName(a, b) => {
                out.push(0x10);
                a.write(out)?;
                b.write(out)?;
            },
            NameCmd::SetName(a, b) => {
                out.push(0x11);
                a.write(out)?;
                b.write(out)?;
            },
            NameCmd::GetName2(a, b) => {
                out.push(0x12);
                a.write(out)?;
                b.write(out)?;
            },
            NameCmd::NameInputDialog(a) => {
                out.push(0x20);
                a.write(out)?;
            },
            NameCmd::Unknown1(idx, t, a, b, c, d, e, f, g, h, i) => {
                out.push(0x21);
                idx.write(out)?;
                t.write(out)?;
                a.write(out)?;
                b.write(out)?;
                c.write(out)?;
                d.write(out)?;
                e.write(out)?;
                f.write(out)?;
                g.write(out)?;
                h.write(out)?;
                i.write(out)?;
            },
            NameCmd::NameInputDialogMulti(items) => {
                out.push(0x24);
                out.push(items.len() as u8);
                items.write(out)?;
                assert(seq![0x24u8, items@.len() as u8] =~= seq![0x24u8] + seq![items@.len() as u8]);
            },
            NameCmd::Unknown2 => out.push(0x30),
            NameCmd::Unknown3 => out.push(0x31),
        }
        assert(out@ =~= old(out)@ + self.wire());
        Ok(())
    }
}

/// Parse a name-input command.
#[verifier::rlimit(100)]
#[verifier::spinoff_prover]
pub fn name_cmd(s: &[u8], pos: usize) -> (r: Result<(NameCmd, usize), CodecError>)
    requires
        pos <= s@.len(),
    ensures
        r matches Ok((c, end)) ==> pos < end <= s@.len() && c.wf()
            && c.wire().len() <= end - pos
            && (c.wire().len() == end - pos ==> c.wire() == s@.subrange(pos as int, end as int)),
        r matches Err(e) ==> crate::codec::parse_error(e),
{
    let (tag, p0) = read_u8(s, pos)?;
    match tag {
        0x30 | 0x31 => {
            let c = if tag == 0x30 {
                NameCmd::Unknown2
            } else {
                NameCmd::Unknown3
            };
            proof {
                assert(c.wire().len() <= p0 - pos);
                if c.wire().len() == p0 - pos {
                    assert(c.wire() =~= s@.subrange(pos as int, p0 as int));
                }
            }
            Ok((c, p0))
        },
        0x02 | 0x03 | 0x04 | 0x20 => {
            let (a, p1) = scene_value(s, p0)?;
            let c = match tag {
                0x02 => NameCmd::InputBoxFinish(a),
                0x03 => NameCmd::InputBoxStart(a),
                0x04 => NameCmd::InputBoxClose(a),
                _ => NameCmd::NameInputDialog(a),
            };
            proof {
                assert(s@.subrange(pos as int, p0 as int) + s@.subrange(p0 as int, p1 as int)
                    == s@.subrange(pos as int, p1 as int));
                assert(c.wire().len() <= p1 - pos);
                if c.wire().len() == p1 - pos {
                    assert(c.wire() =~= s@.subrange(pos as int, p1 as int));
                }
            }
            Ok((c, p1))
        },
        0x10 | 0x11 | 0x12 => {
            let (a, p1) = scene_value(s, p0)?;
            let (b, p2) = scene_value(s, p1)?;
            let c = match tag {
                0x10 => NameCmd::GetName(a, b),
                0x11 => NameCmd::SetName(a, b),
                _ => NameCmd::GetName2(a, b),
            };
            proof {
                assert(s@.subrange(pos as int, p0 as int) + s@.subrange(p0 as int, p1 as int)
                    == s@.subrange(pos as int, p1 as int));
                assert(s@.subrange(pos as int, p1 as int) + s@.subrange(p1 as int, p2 as int)
                    == s@.subrange(pos as int, p2 as int));
                assert(c.wire().len() <= p2 - pos);
                if c.wire().len() == p2 - pos {
                    assert(c.wire() =~= s@.subrange(pos as int, p2 as int));
                }
            }
            Ok((c, p2))
        },
        0x01 => {
            let (x, p1) = scene_value(s, p0)?;
            let (y, p2) = scene_value(s, p1)?;
            let (ex, p3) = scene_value(s, p2)?;
            let (ey, p4) = scene_value(s, p3)?;
            let (r, p5) = scene_value(s, p4)?;
            let (g, p6) = scene_value(s, p5)?;
            let (b, p7) = scene_value(s, p6)?;
            let (br, p8) = scene_value(s, p7)?;
            let (bg, p9) = scene_value(s, p8)?;
            let (bb, p10) = scene_value(s, p9)?;
            let c = NameCmd::InputBox(x, y, ex, ey, r, g, b, br, bg, bb);
            proof {
                assert(s@.subrange(pos as int, p0 as int) + s@.subrange(p0 as int, p1 as int)
                    == s@.subrange(pos as int, p1 as int));
                assert(s@.subrange(pos as int, p1 as int) + s@.subrange(p1 as int, p2 as int)
                    == s@.subrange(pos as int, p2 as int));
                assert(s@.subrange(pos as int, p2 as int) + s@.subrange(p2 as int, p3 as int)
                    == s@.subrange(pos as int, p3 as int));
                assert(s@.subrange(pos as int, p3 as int) + s@.subrange(p3 as int, p4 as int)
                    == s@.subrange(pos as int, p4 as int));
                assert(s@.subrange(pos as int, p4 as int) + s@.subrange(p4 as int, p5 as int)
                    == s@.subrange(pos as int, p5 as int));
                assert(s@.subrange(pos as int, p5 as int) + s@.subrange(p5 as int, p6 as int)
                    == s@.subrange(pos as int, p6 as int));
                assert(s@.subrange(pos as int, p6 as int) + s@.subrange(p6 as int, p7 as int)
                    == s@.subrange(pos as int, p7 as int));
                assert(s@.subrange(pos as int, p7 as int) + s@.subrange(p7 as int, p8 as int)
                    == s@.subrange(pos as int, p8 as int));
                assert(s@.subrange(pos as int, p8 as int) + s@.subrange(p8 as int, p9 as int)
                    == s@.subrange(pos as int, p9 as int));
                assert(s@.subrange(pos as int, p9 as int) + s@.subrange(p9 as int, p10 as int)
                    == s@.subrange(pos as int, p10 as int));
                assert(c.wire().len() <= p10 - pos);
                if c.wire().len() == p10 - pos {
                    assert(c.wire() =~= s@.subrange(pos as int, p10 as int));
                }
            }
            Ok((c, p10))
        },
        0x21 => {
            let (idx, p1) = scene_value(s, p0)?;
            let (t, p2) = scene_text(s, p1)?;
            let (a, p3) = scene_value(s, p2)?;
            let (b, p4) = scene_value(s, p3)?;
            let (cv, p5) = scene_value(s, p4)?;
            let (d, p6) = scene_value(s, p5)?;
            let (e, p7) = scene_value(s, p6)?;
            let (f, p8) = scene_value(s, p7)?;
            let (g, p9) = scene_value(s, p8)?;
            let (h, p10) = scene_value(s, p9)?;
            let (i, p11) = scene_value(s, p10)?;
            let c = NameCmd::Unknown1(idx, t, a, b, cv, d, e, f, g, h, i);
            proof {
                assert(s@.subrange(pos as int, p0 as int) + s@.subrange(p0 as int, p1 as int)
                    == s@.subrange(pos as int, p1 as int));
                assert(s@.subrange(pos as int, p1 as int) + s@.subrange(p1 as int, p2 as int)
                    == s@.subrange(pos as int, p2 as int));
                assert(s@.subrange(pos as int, p2 as int) + s@.subrange(p2 as int, p3 as int)
                    == s@.subrange(pos as int, p3 as int));
                assert(s@.subrange(pos as int, p3 as int) + s@.subrange(p3 as int, p4 as int)
                    == s@.subrange(pos as int, p4 as int));
                assert(s@.subrange(pos as int, p4 as int) + s@.subrange(p4 as int, p5 as int)
                    == s@.subrange(pos as int, p5 as int));
                assert(s@.subrange(pos as int, p5 as int) + s@.subrange(p5 as int, p6 as int)
                    == s@.subrange(pos as int, p6 as int));
                assert(s@.subrange(pos as int, p6 as int) + s@.subrange(p6 as int, p7 as int)
                    == s@.subrange(pos as int, p7 as int));
                assert(s@.subrange(pos as int, p7 as int) + s@.subrange(p7 as int, p8 as int)
                    == s@.subrange(pos as int, p8 as int));
                assert(s@.subrange(pos as int, p8 as int) + s@.subrange(p8 as int, p9 as int)
                    == s@.subrange(pos as int, p9 as int));
                assert(s@.subrange(pos as int, p9 as int) + s@.subrange(p9 as int, p10 as int)
                    == s@.subrange(pos as int, p10 as int));
                assert(s@.subrange(pos as int, p10 as int) + s@.subrange(p10 as int, p11 as int)
                    == s@.subrange(pos as int, p11 as int));
                assert(c.wire().len() <= p11 - pos);
                if c.wire().len() == p11 - pos {
                    assert(c.wire() =~= s@.subrange(pos as int, p11 as int));
                }
            }
            Ok((c, p11))
        },
        0x24 => {
            let (count, p1) = read_u8(s, p0)?;
            let mut items: Vec<NameInputItem> = Vec::new();
            let mut cur: usize = p1;
            let mut k: usize = 0;
            while k < count as usize
                invariant
                    p1 <= cur <= s@.len(),
                    k <= count as usize,
                    items@.len() == k,
                    seq_wire(items@).len() <= cur - p1,
                    seq_wire(items@).len() == cur - p1 ==> seq_wire(items@)
                        == s@.subrange(p1 as int, cur as int),
                    seq_wf(items@),
                decreases count as usize - k,
            {
                let (it, nx) = name_input_item(s, cur)?;
                proof {
                    lemma_seq_wire_push(items@, it);
                    assert(s@.subrange(p1 as int, cur as int) + s@.subrange(cur as int, nx as int)
                        == s@.subrange(p1 as int, nx as int));
                    assert(seq_wire(items@.push(it)).len() <= nx - p1);
                    if seq_wire(items@.push(it)).len() == nx - p1 {
                        assert(seq_wire(items@).len() == cur - p1
                            && it.wire().len() == nx - cur);
                        assert(seq_wire(items@.push(it)) =~= s@.subrange(p1 as int, nx as int));
                    }
                }
                items.push(it);
                cur = nx;
                k = k + 1;
            }
            let c = NameCmd::NameInputDialogMulti(items);
            proof {
                assert(s@.subrange(pos as int, p0 as int) + s@.subrange(p0 as int, p1 as int)
                    == s@.subrange(pos as int, p1 as int));
                assert(s@.subrange(pos as int, p1 as int) + s@.subrange(p1 as int, cur as int)
                    == s@.subrange(pos as int, cur as int));
                assert(seq![0x24u8, count] =~= s@.subrange(pos as int, p0 as int)
                    + s@.subrange(p0 as int, p1 as int));
                assert(c.wire().len() <= cur - pos);
                if c.wire().len() == cur - pos {
                    assert(c.wire() =~= s@.subrange(pos as int, cur as int));
                }
            }
            Ok((c, cur))
        },
        _ => Err(CodecError::UnknownSubcommand(0x61, tag)),
    }
}

/// Area-buffer commands (family tag `0x6c`).
#[derive(Debug, PartialEq, Eq, Clone)]
pub enum AreaBufferCmd {
    ReadCurArd(SceneText, SceneText),
    Init,
    GetClickedArea(Val, Val),
    GetClickedArea2(Val, Val),
    DisableArea(Val),
    EnableArea(Val),
    GetArea(Val, Val, Val),
    AssignArea(Val, Val),
}

impl Writeable for AreaBufferCmd {
    open spec fn wire(&self) -> Seq<u8> {
        match self {
            AreaBufferCmd::ReadCurArd(c, a) => seq![0x02u8] + c.wire() + a.wire(),
            AreaBufferCmd::Init => seq![0x03u8],
            AreaBufferCmd::GetClickedArea(a, b) => seq![0x04u8] + val_wire(*a) + val_wire(*b),
            AreaBufferCmd::GetClickedArea2(a, b) => seq![0x05u8] + val_wire(*a) + val_wire(*b),
            AreaBufferCmd::DisableArea(a) => seq![0x10u8] + val_wire(*a),
            AreaBufferCmd::EnableArea(a) => seq![0x11u8] + val_wire(*a),
            // the operand order on the wire is x, y, area; the record
            // stores the area slot first
            AreaBufferCmd::GetArea(area, x, y) => seq![0x15u8] + val_wire(*x) + val_wire(*y)
                + val_wire(*area),
            AreaBufferCmd::AssignArea(a, b) => seq![0x20u8] + val_wire(*a) + val_wire(*b),
        }
    }

    open spec fn wf(&self) -> bool {
        match self {
            AreaBufferCmd::ReadCurArd(c, a) => c.wf() && a.wf(),
            _ => true,
        }
    }

    open spec fn compiled(&self) -> bool {
        true
    }

    fn byte_size(&self) -> (r: usize) {
        match self {
            AreaBufferCmd::ReadCurArd(c, a) => 1 + c.byte_size() + a.byte_size(),
            AreaBufferCmd::Init => 1,
            AreaBufferCmd::GetClickedArea(a, b) => 1 + a.byte_size() + b.byte_size(),
            AreaBufferCmd::GetClickedArea2(a, b) => 1 + a.byte_size() + b.byte_size(),
            AreaBufferCmd::DisableArea(a) => 1 + a.byte_size(),
            AreaBufferCmd::EnableArea(a) => 1 + a.byte_size(),
            AreaBufferCmd::GetArea(area, x, y) => 1 + x.byte_size() + y.byte_size()
                + area.byte_size(),
            AreaBufferCmd::AssignArea(a, b) => 1 + a.byte_size() + b.byte_size(),
        }
    }

    fn write(&self, out: &mut Vec<u8>) -> (r: Result<(), CodecError>) {
        match self {
            AreaBufferCmd::ReadCurArd(c, a) => {
                out.push(0x02);
                c.write(out)?;
                a.write(out)?;
            },
            AreaBufferCmd::Init => out.push(0x03),
            AreaBufferCmd::GetClickedArea(a, b) => {
                out.push(0x04);
                a.write(out)?;
                b.write(out)?;
            },
            AreaBufferCmd::GetClickedArea2(a, b) => {
                out.push(0x05);
                a.write(out)?;
                b.write(out)?;
            },
            AreaBufferCmd::DisableArea(a) => {
                out.push(0x10);
                a.write(out)?;
            },
            AreaBufferCmd::EnableArea(a) => {
                out.push(0x11);
                a.write(out)?;
            },
            AreaBufferCmd::GetArea(area, x, y) => {
                out.push(0x15);
                x.write(out)?;
                y.write(out)?;
                area.write(out)?;
            },
            AreaBufferCmd::AssignArea(a, b) => {
                out.push(0x20);
                a.write(out)?;
                b.write(out)?;
            },
        }
        assert(out@ =~= old(out)@ + self.wire());
        Ok(())
    }
}

/// Parse an area-buffer command.
pub fn area_buffer_cmd(s: &[u8], pos: usize) -> (r: Result<(AreaBufferCmd, usize), CodecError>)
    requires
        pos <= s@.len(),
    ensures
        r matches Ok((c, end)) ==> pos < end <= s@.len() && c.wf()
            && c.wire().len() <= end - pos
            && (c.wire().len() == end - pos ==> c.wire() == s@.subrange(pos as int, end as int)),
        r matches Err(e) ==> crate::codec::parse_error(e),
{
    let (tag, p0) = read_u8(s, pos)?;
    match tag {
        0x03 => {
            let c = AreaBufferCmd::Init;
            proof {
                assert(c.wire().len() <= p0 - pos);
                if c.wire().len() == p0 - pos {
                    assert(c.wire() =~= s@.subrange(pos as int, p0 as int));
                }
            }
            Ok((c, p0))
        },
        0x02 => {
            let (cu, p1) = scene_text(s, p0)?;
            let (ar, p2) = scene_text(s, p1)?;
            let c = AreaBufferCmd::ReadCurArd(cu, ar);
            proof {
                assert(s@.subrange(pos as int, p0 as int) + s@.subrange(p0 as int, p1 as int)
                    == s@.subrange(pos as int, p1 as int));
                assert(s@.subrange(pos as int, p1 as int) + s@.subrange(p1 as int, p2 as int)
                    == s@.subrange(pos as int, p2 as int));
                assert(c.wire().len() <= p2 - pos);
                if c.wire().len() == p2 - pos {
                    assert(c.wire() =~= s@.subrange(pos as int, p2 as int));
                }
            }
            Ok((c, p2))
        },
        0x10 | 0x11 => {
            let (a, p1) = scene_value(s, p0)?;
            let c = if tag == 0x10 {
                AreaBufferCmd::DisableArea(a)
            } else {
                AreaBufferCmd::EnableArea(a)
            };
            proof {
                assert(s@.subrange(pos as int, p0 as int) + s@.subrange(p0 as int, p1 as int)
                    == s@.subrange(pos as int, p1 as int));
                assert(c.wire().len() <= p1 - pos);
                if c.wire().len() == p1 - pos {
                    assert(c.wire() =~= s@.subrange(pos as int, p1 as int));
                }
            }
            Ok((c, p1))
        },
        0x04 | 0x05 | 0x20 => {
            let (a, p1) = scene_value(s, p0)?;
            let (b, p2) = scene_value(s, p1)?;
            let c = match tag {
                0x04 => AreaBufferCmd::GetClickedArea(a, b),
                0x05 => AreaBufferCmd::GetClickedArea2(a, b),
                _ => AreaBufferCmd::AssignArea(a, b),
            };
            proof {
                assert(s@.subrange(pos as int, p0 as int) + s@.subrange(p0 as int, p1 as int)
                    == s@.subrange(pos as int, p1 as int));
                assert(s@.subrange(pos as int, p1 as int) + s@.subrange(p1 as int, p2 as int)
                    == s@.subrange(pos as int, p2 as int));
                assert(c.wire().len() <= p2 - pos);
                if c.wire().len() == p2 - pos {
                    assert(c.wire() =~= s@.subrange(pos as int, p2 as int));
                }
            }
            Ok((c, p2))
        },
        0x15 => {
            let (x, p1) = scene_value(s, p0)?;
            let (y, p2) = scene_value(s, p1)?;
            let (area, p3) = scene_value(s, p2)?;
            let c = AreaBufferCmd::GetArea(area, x, y);
            proof {
                assert(s@.subrange(pos as int, p0 as int) + s@.subrange(p0 as int, p1 as int)
                    == s@.subrange(pos as int, p1 as int));
                assert(s@.subrange(pos as int, p1 as int) + s@.subrange(p1 as int, p2 as int)
                    == s@.subrange(pos as int, p2 as int));
                assert(s@.subrange(pos as int, p2 as int) + s@.subrange(p2 as int, p3 as int)
                    == s@.subrange(pos as int, p3 as int));
                assert(c.wire().len() <= p3 - pos);
                if c.wire().len() == p3 - pos {
                    assert(c.wire() =~= s@.subrange(pos as int, p3 as int));
                }
            }
            Ok((c, p3))
        },
        _ => Err(CodecError::UnknownSubcommand(0x6c, tag)),
    }
}

/// Flash and fill commands (family tag `0x68`).
#[derive(Debug, PartialEq, Eq, Clone)]
pub enum FlashGrpCmd {
    FillColor(Val, Val, Val, Val),
    FlashScreen(Val, Val, Val, Val, Val),
}

impl Writeable for FlashGrpCmd {
    open spec fn wire(&self) -> Seq<u8> {
        match self {
            FlashGrpCmd::FillColor(a, b, c, d) => seq![0x01u8] + val_wire(*a) + val_wire(*b)
                + val_wire(*c) + val_wire(*d),
            FlashGrpCmd::FlashScreen(a, b, c, d, e) => seq![0x10u8] + val_wire(*a) + val_wire(*b)
                + val_wire(*c) + val_wire(*d) + val_wire(*e),
        }
    }

    open spec fn wf(&self) -> bool {
        true
    }

    open spec fn compiled(&self) -> bool {
        true
    }

    fn byte_size(&self) -> (r: usize) {
        match self {
            FlashGrpCmd::FillColor(a, b, c, d) => 1 + a.byte_size() + b.byte_size()
                + c.byte_size() + d.byte_size(),
            FlashGrpCmd::FlashScreen(a, b, c, d, e) => 1 + a.byte_size() + b.byte_size()
                + c.byte_size() + d.byte_size() + e.byte_size(),
        }
    }

    fn write(&self, out: &mut Vec<u8>) -> (r: Result<(), CodecError>) {
        match self {
            FlashGrpCmd::FillColor(a, b, c, d) => {
                out.push(0x01);
                a.write(out)?;
                b.write(out)?;
                c.write(out)?;
                d.write(out)?;
            },
            FlashGrpCmd::FlashScreen(a, b, c, d, e) => {
                out.push(0x10);
                a.write(out)?;
                b.write(out)?;
                c.write(out)?;
                d.write(out)?;
                e.write(out)?;
            },
        }
        assert(out@ =~= old(out)@ + self.wire());
        Ok(())
    }
}

/// Parse a flash command.
pub fn flash_grp_cmd(s: &[u8], pos: usize) -> (r: Result<(FlashGrpCmd, usize), CodecError>)
    requires
        pos <= s@.len(),
    ensures
        r matches Ok((c, end)) ==> pos < end <= s@.len() && c.wf()
            && c.wire().len() <= end - pos
            && (c.wire().len() == end - pos ==> c.wire() == s@.subrange(pos as int, end as int)),
        r matches Err(e) ==> crate::codec::parse_error(e),
{
    let (tag, p0) = read_u8(s, pos)?;
    match tag {
        0x01 => {
            let (a, p1) = scene_value(s, p0)?;
            let (b, p2) = scene_value(s, p1)?;
            let (cc, p3) = scene_value(s, p2)?;
            let (d, p4) = scene_value(s, p3)?;
            let c = FlashGrpCmd::FillColor(a, b, cc, d);
            proof {
                assert(s@.subrange(pos as int, p0 as int) + s@.subrange(p0 as int, p1 as int)
                    == s@.subrange(pos as int, p1 as int));
                assert(s@.subrange(pos as int, p1 as int) + s@.subrange(p1 as int, p2 as int)
                    == s@.subrange(pos as int, p2 as int));
                assert(s@.subrange(pos as int, p2 as int) + s@.subrange(p2 as int, p3 as int)
                    == s@.subrange(pos as int, p3 as int));
                assert(s@.subrange(pos as int, p3 as int) + s@.subrange(p3 as int, p4 as int)
                    == s@.subrange(pos as int, p4 as int));
                assert(c.wire().len() <= p4 - pos);
                if c.wire().len() == p4 - pos {
                    assert(c.wire() =~= s@.subrange(pos as int, p4 as int));
                }
            }
            Ok((c, p4))
        },
        0x10 => {
            let (a, p1) = scene_value(s, p0)?;
            let (b, p2) = scene_value(s, p1)?;
            let (cc, p3) = scene_value(s, p2)?;
            let (d, p4) = scene_value(s, p3)?;
            let (e, p5) = scene_value(s, p4)?;
            let c = FlashGrpCmd::FlashScreen(a, b, cc, d, e);
            proof {
                assert(s@.subrange(pos as int, p0 as int) + s@.subrange(p0 as int, p1 as int)
                    == s@.subrange(pos as int, p1 as int));
                assert(s@.subrange(pos as int, p1 as int) + s@.subrange(p1 as int, p2 as int)
                    == s@.subrange(pos as int, p2 as int));
                assert(s@.subrange(pos as int, p2 as int) + s@.subrange(p2 as int, p3 as int)
                    == s@.subrange(pos as int, p3 as int));
                assert(s@.subrange(pos as int, p3 as int) + s@.subrange(p3 as int, p4 as int)
                    == s@.subrange(pos as int, p4 as int));
                assert(s@.subrange(pos as int, p4 as int) + s@.subrange(p4 as int, p5 as int)
                    == s@.subrange(pos as int, p5 as int));
                assert(c.wire().len() <= p5 - pos);
                if c.wire().len() == p5 - pos {
                    assert(c.wire() =~= s@.subrange(pos as int, p5 as int));
                }
            }
            Ok((c, p5))
        },
        _ => Err(CodecError::UnknownSubcommand(0x68, tag)),
    }
}

} // verus!
