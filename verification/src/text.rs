//! Scene text: plain or pointer-valued strings, and the formatted-text
//! stream that dialogue opcodes carry, terminated by a NUL sentinel byte.
use vstd::prelude::*;
use crate::codec::{CodecError, Writeable, read_u8, seq_wire, seq_wf, lemma_seq_wire_push, lemma_subrange_glue};
use crate::val::{Val, val_wire, scene_value, val_decode, val_parses, val_head_width};
use crate::sjis::{SjisText, c_string, c_string_parses};
use crate::cond::{Condition, scene_conditions};

verus! {

broadcast use lemma_subrange_glue;

/// A string operand: either a literal or, after a `0x40` dispatch byte, a
/// pointer into the string variable table.
#[derive(Debug, PartialEq, Eq, Clone)]
pub enum SceneText {
    Pointer(Val),
    Literal(SjisText),
}

impl Writeable for SceneText {
    open spec fn wire(&self) -> Seq<u8> {
        match self {
            SceneText::Pointer(v) => seq![0x40u8] + val_wire(*v),
            SceneText::Literal(t) => t.wire(),
        }
    }

    open spec fn wf(&self) -> bool {
        match self {
            SceneText::Pointer(_) => true,
            SceneText::Literal(t) => t.wf(),
        }
    }

    open spec fn compiled(&self) -> bool {
        true
    }

    fn byte_size(&self) -> (r: usize) {
        match self {
            SceneText::Pointer(v) => 1 + v.byte_size(),
            SceneText::Literal(t) => t.byte_size(),
        }
    }

    fn write(&self, out: &mut Vec<u8>) -> (r: Result<(), CodecError>) {
        match self {
            SceneText::Pointer(v) => {
                out.push(0x40);
                v.write(out)?;
                assert(out@ =~= old(out)@ + self.wire());
                Ok(())
            },
            SceneText::Literal(t) => t.write(out),
        }
    }
}

/// Parse a string operand: a `0x40` byte introduces a pointer value,
/// anything else starts a null-terminated literal.
pub fn scene_text(s: &[u8], pos: usize) -> (r: Result<(SceneText, usize), CodecError>)
    requires
        pos <= s@.len(),
    ensures
        r matches Ok((t, end)) ==> pos < end <= s@.len() && t.wf()
            && t.wire().len() <= end - pos
            && (t.wire().len() == end - pos ==> t.wire() == s@.subrange(pos as int, end as int)),
        r matches Err(e) ==> crate::codec::parse_error(e),
{
    let (b, p0) = read_u8(s, pos)?;
    if b == 0x40 {
        let (v, p1) = scene_value(s, p0)?;
        let t = SceneText::Pointer(v);
        proof {
            assert(s@.subrange(pos as int, p0 as int) + s@.subrange(p0 as int, p1 as int)
                == s@.subrange(pos as int, p1 as int));
            assert(t.wire().len() <= p1 - pos);
            if t.wire().len() == p1 - pos {
                assert(t.wire() =~= s@.subrange(pos as int, p1 as int));
            }
        }
        Ok((t, p1))
    } else {
        let (t, p1) = c_string(s, pos)?;
        Ok((SceneText::Literal(t), p1))
    }
}

/// A formatting command inside a formatted-text stream.
#[derive(Debug, PartialEq, Eq, Clone)]
pub enum FormattedTextCmd {
    Integer(Val),
    IntegerZeroPadded(Val, Val),
    TextPointer(Val),
    Unknown1(Val),
    Unknown2,
}

impl Writeable for FormattedTextCmd {
    open spec fn wire(&self) -> Seq<u8> {
        match self {
            FormattedTextCmd::Integer(v) => seq![0x01u8] + val_wire(*v),
            FormattedTextCmd::IntegerZeroPadded(v, z) => seq![0x02u8] + val_wire(*v) + val_wire(*z),
            FormattedTextCmd::TextPointer(v) => seq![0x03u8] + val_wire(*v),
            FormattedTextCmd::Unknown1(v) => seq![0x11u8] + val_wire(*v),
            FormattedTextCmd::Unknown2 => seq![0x13u8],
        }
    }

    open spec fn wf(&self) -> bool {
        true
    }

    open spec fn compiled(&self) -> bool {
        true
    }

    fn byte_size(&self) -> (r: usize) {
        match self {
            FormattedTextCmd::Integer(v) => 1 + v.byte_size(),
            FormattedTextCmd::IntegerZeroPadded(v, z) => 1 + v.byte_size() + z.byte_size(),
            FormattedTextCmd::TextPointer(v) => 1 + v.byte_size(),
            FormattedTextCmd::Unknown1(v) => 1 + v.byte_size(),
            FormattedTextCmd::Unknown2 => 1,
        }
    }

    fn write(&self, out: &mut Vec<u8>) -> (r: Result<(), CodecError>) {
        match self {
            FormattedTextCmd::Integer(v) => {
                out.push(0x01);
                v.write(out)?;
            },
            FormattedTextCmd::IntegerZeroPadded(v, z) => {
                out.push(0x02);
                v.write(out)?;
                z.write(out)?;
            },
            FormattedTextCmd::TextPointer(v) => {
                out.push(0x03);
                v.write(out)?;
            },
            FormattedTextCmd::Unknown1(v) => {
                out.push(0x11);
                v.write(out)?;
            },
            FormattedTextCmd::Unknown2 => {
                out.push(0x13);
            },
        }
        assert(out@ =~= old(out)@ + self.wire());
        Ok(())
    }
}

/// Parse a formatting command at `pos`.
pub fn formatted_text_cmd(s: &[u8], pos: usize) -> (r: Result<(FormattedTextCmd, usize), CodecError>)
    requires
        pos <= s@.len(),
    ensures
        r matches Ok((c, end)) ==> pos < end <= s@.len()
            && c.wire().len() <= end - pos
            && (c.wire().len() == end - pos ==> c.wire() == s@.subrange(pos as int, end as int)),
        r matches Err(e) ==> crate::codec::parse_error(e),
{
    let (tag, p0) = read_u8(s, pos)?;
    match tag {
        0x13 => {
            let c = FormattedTextCmd::Unknown2;
            proof {
                assert(c.wire().len() <= p0 - pos);
                if c.wire().len() == p0 - pos {
                    assert(c.wire() =~= s@.subrange(pos as int, p0 as int));
                }
            }
            Ok((c, p0))
        },
        0x02 => {
            let (v, p1) = scene_value(s, p0)?;
            let (z, p2) = scene_value(s, p1)?;
            let c = FormattedTextCmd::IntegerZeroPadded(v, z);
            proof {
                assert(s@.subrange(pos as int, p0 as int) + s@.subrange(p0 as int, p1 as int)
                    == s@.subrange(pos as int, p1 as int));
                assert(s@.subrange(pos as int, p1 as int) + s@.subrange(p1 as int, p2 as int)
                    == s@.subrange(pos as int, p2 as int));
                assert(c.wire().len() <= p2 - pos);
                if c.wire().len() == p2 - pos {
                    assert(c.wire() =~= s@.subrange(pos as int, p2 as int));
                }
            }
            Ok((c, p2))
        },
        0x01 | 0x03 | 0x11 => {
            let (v, p1) = scene_value(s, p0)?;
            let c = match tag {
                0x01 => FormattedTextCmd::Integer(v),
                0x03 => FormattedTextCmd::TextPointer(v),
                _ => FormattedTextCmd::Unknown1(v),
            };
            proof {
                assert(s@.subrange(pos as int, p0 as int) + s@.subrange(p0 as int, p1 as int)
                    == s@.subrange(pos as int, p1 as int));
                assert(c.wire().len() <= p1 - pos);
                if c.wire().len() == p1 - pos {
                    assert(c.wire() =~= s@.subrange(pos as int, p1 as int));
                }
            }
            Ok((c, p1))
        },
        _ => Err(CodecError::UnknownSubcommand(0x10, tag)),
    }
}

/// One entry of a formatted-text stream, dispatched on its leading byte.
#[derive(Debug, PartialEq, Eq, Clone)]
pub enum SceneFormattedTextEntry {
    Command(FormattedTextCmd),
    Unknown,
    Condition(Vec<Condition>),
    TextPointer(Val),
    TextHankaku(SjisText),
    TextZenkaku(SjisText),
}

impl Writeable for SceneFormattedTextEntry {
    open spec fn wire(&self) -> Seq<u8> {
        match self {
            SceneFormattedTextEntry::Command(c) => seq![0x10u8] + c.wire(),
            SceneFormattedTextEntry::Unknown => seq![0x12u8],
            SceneFormattedTextEntry::Condition(cs) => seq![0x28u8] + seq_wire(cs@),
            SceneFormattedTextEntry::TextPointer(v) => seq![0xfdu8] + val_wire(*v),
            SceneFormattedTextEntry::TextHankaku(t) => seq![0xfeu8] + t.wire(),
            SceneFormattedTextEntry::TextZenkaku(t) => seq![0xffu8] + t.wire(),
        }
    }

    open spec fn wf(&self) -> bool {
        match self {
            SceneFormattedTextEntry::TextHankaku(t) => t.wf(),
            SceneFormattedTextEntry::TextZenkaku(t) => t.wf(),
            _ => true,
        }
    }

    open spec fn compiled(&self) -> bool {
        true
    }

    fn byte_size(&self) -> (r: usize) {
        match self {
            SceneFormattedTextEntry::Command(c) => 1 + c.byte_size(),
            SceneFormattedTextEntry::Unknown => 1,
            SceneFormattedTextEntry::Condition(cs) => 1 + cs.byte_size(),
            SceneFormattedTextEntry::TextPointer(v) => 1 + v.byte_size(),
            SceneFormattedTextEntry::TextHankaku(t) => 1 + t.byte_size(),
            SceneFormattedTextEntry::TextZenkaku(t) => 1 + t.byte_size(),
        }
    }

    fn write(&self, out: &mut Vec<u8>) -> (r: Result<(), CodecError>) {
        match self {
            SceneFormattedTextEntry::Command(c) => {
                out.push(0x10);
                c.write(out)?;
            },
            SceneFormattedTextEntry::Unknown => {
                out.push(0x12);
            },
            SceneFormattedTextEntry::Condition(cs) => {
                out.push(0x28);
                cs.write(out)?;
            },
            SceneFormattedTextEntry::TextPointer(v) => {
                out.push(0xfd);
                v.write(out)?;
            },
            SceneFormattedTextEntry::TextHankaku(t) => {
                out.push(0xfe);
                t.write(out)?;
            },
            SceneFormattedTextEntry::TextZenkaku(t) => {
                out.push(0xff);
                t.write(out)?;
            },
        }
        assert(out@ =~= old(out)@ + self.wire());
        Ok(())
    }
}

/// Parse one formatted-text entry at `pos`.
pub fn scene_formatted_text_entry(s: &[u8], pos: usize) -> (r: Result<
    (SceneFormattedTextEntry, usize),
    CodecError,
>)
    requires
        pos <= s@.len(),
    ensures
        r matches Ok((e, end)) ==> pos < end <= s@.len() && e.wf()
            && e.wire().len() <= end - pos
            && (e.wire().len() == end - pos ==> e.wire() == s@.subrange(pos as int, end as int)),
        r matches Err(e) ==> crate::codec::parse_error(e),
{
    let (tag, p0) = read_u8(s, pos)?;
    match tag {
        0x10 => {
            let (c, p1) = formatted_text_cmd(s, p0)?;
            let e = SceneFormattedTextEntry::Command(c);
            proof {
                assert(s@.subrange(pos as int, p0 as int) + s@.subrange(p0 as int, p1 as int)
                    == s@.subrange(pos as int, p1 as int));
                assert(e.wire().len() <= p1 - pos);
                if e.wire().len() == p1 - pos {
                    assert(e.wire() =~= s@.subrange(pos as int, p1 as int));
                }
            }
            Ok((e, p1))
        },
        0x12 => {
            let e = SceneFormattedTextEntry::Unknown;
            proof {
                assert(e.wire().len() <= p0 - pos);
                if e.wire().len() == p0 - pos {
                    assert(e.wire() =~= s@.subrange(pos as int, p0 as int));
                }
            }
            Ok((e, p0))
        },
        0x28 => {
            let (cs, p1) = scene_conditions(s, p0)?;
            let e = SceneFormattedTextEntry::Condition(cs);
            proof {
                assert(s@.subrange(pos as int, p0 as int) + s@.subrange(p0 as int, p1 as int)
                    == s@.subrange(pos as int, p1 as int));
                assert(e.wire().len() <= p1 - pos);
                if e.wire().len() == p1 - pos {
                    assert(e.wire() =~= s@.subrange(pos as int, p1 as int));
                }
            }
            Ok((e, p1))
        },
        0xfd => {
            let (v, p1) = scene_value(s, p0)?;
            let e = SceneFormattedTextEntry::TextPointer(v);
            proof {
                assert(s@.subrange(pos as int, p0 as int) + s@.subrange(p0 as int, p1 as int)
                    == s@.subrange(pos as int, p1 as int));
                assert(e.wire().len() <= p1 - pos);
                if e.wire().len() == p1 - pos {
                    assert(e.wire() =~= s@.subrange(pos as int, p1 as int));
                }
            }
            Ok((e, p1))
        },
        0xfe | 0xff => {
            let (t, p1) = c_string(s, p0)?;
            let e = if tag == 0xfe {
                SceneFormattedTextEntry::TextHankaku(t)
            } else {
                SceneFormattedTextEntry::TextZenkaku(t)
            };
            proof {
                assert(s@.subrange(pos as int, p0 as int) + s@.subrange(p0 as int, p1 as int)
                    == s@.subrange(pos as int, p1 as int));
                assert(e.wire().len() <= p1 - pos);
                if e.wire().len() == p1 - pos {
                    assert(e.wire() =~= s@.subrange(pos as int, p1 as int));
                }
            }
            Ok((e, p1))
        },
        _ => Err(CodecError::UnknownSubcommand(0x10, tag)),
    }
}

/// A formatted-text stream: entries up to, and on the wire including, a
/// terminating NUL sentinel.
#[derive(Debug, PartialEq, Eq, Clone)]
pub struct SceneFormattedText(pub Vec<SceneFormattedTextEntry>);

impl Writeable for SceneFormattedText {
    open spec fn wire(&self) -> Seq<u8> {
        seq_wire(self.0@) + seq![0u8]
    }

    open spec fn wf(&self) -> bool {
        seq_wf(self.0@)
    }

    open spec fn compiled(&self) -> bool {
        true
    }

    fn byte_size(&self) -> (r: usize) {
        self.0.byte_size() + 1
    }

    fn write(&self, out: &mut Vec<u8>) -> (r: Result<(), CodecError>) {
        self.0.write(out)?;
        out.push(0);
        assert(out@ =~= old(out)@ + self.wire());
        Ok(())
    }
}

/// Parse a formatted-text stream at `pos`: entries until the NUL sentinel,
/// which is consumed and is part of the stream's byte image.
pub fn scene_formatted_text(s: &[u8], pos: usize) -> (r: Result<
    (SceneFormattedText, usize),
    CodecError,
>)
    requires
        pos <= s@.len(),
    ensures
        r matches Ok((t, end)) ==> pos < end <= s@.len() && t.wf()
            && t.wire().len() <= end - pos
            && (t.wire().len() == end - pos ==> t.wire() == s@.subrange(pos as int, end as int)),
        r matches Err(e) ==> crate::codec::parse_error(e),
{
    let mut entries: Vec<SceneFormattedTextEntry> = Vec::new();
    let mut cur: usize = pos;
    loop
        invariant
            pos <= cur <= s@.len(),
            seq_wire(entries@).len() <= cur - pos,
            seq_wire(entries@).len() == cur - pos ==> seq_wire(entries@)
                == s@.subrange(pos as int, cur as int),
            seq_wf(entries@),
        decreases s@.len() - cur,
    {
        let (b, peeked) = read_u8(s, cur)?;
        if b == 0 {
            let t = SceneFormattedText(entries);
            proof {
                assert(s@.subrange(cur as int, peeked as int) =~= seq![0u8]);
                assert(s@.subrange(pos as int, cur as int) + s@.subrange(cur as int, peeked as int)
                    == s@.subrange(pos as int, peeked as int));
                assert(t.wire().len() <= peeked - pos);
                if t.wire().len() == peeked - pos {
                    assert(seq_wire(entries@).len() == cur - pos);
                    assert(t.wire() =~= s@.subrange(pos as int, peeked as int));
                }
            }
            return Ok((t, peeked));
        }
        let (e, next) = scene_formatted_text_entry(s, cur)?;
        proof {
            lemma_seq_wire_push(entries@, e);
            assert(s@.subrange(pos as int, cur as int) + s@.subrange(cur as int, next as int)
                == s@.subrange(pos as int, next as int));
            assert(seq_wire(entries@.push(e)).len() <= next - pos);
            if seq_wire(entries@.push(e)).len() == next - pos {
                assert(seq_wire(entries@).len() == cur - pos && e.wire().len() == next - cur);
                assert(seq_wire(entries@.push(e)) =~= s@.subrange(pos as int, next as int));
            }
        }
        entries.push(e);
        cur = next;
    }
}

} // verus!
