//! Choice menus (family tag `0x58`) and slideshow/scroll commands over
//! multiple picture files (family tag `0x6a`).
use vstd::prelude::*;
use crate::codec::{CodecError, Writeable, read_u8, seq_wire, seq_wf, lemma_seq_wire_push, lemma_subrange_glue};
use crate::val::{Val, val_wire, scene_value};
use crate::text::{SceneText, scene_text, SceneFormattedText, scene_formatted_text};

verus! {

broadcast use lemma_subrange_glue;

/// The wire markers around a choice text block.
#[derive(Debug, PartialEq, Eq, Clone)]
pub enum Choice {
    Choice,
    End,
}

impl Writeable for Choice {
    open spec fn wire(&self) -> Seq<u8> {
        match self {
            Choice::Choice => seq![0x22u8],
            Choice::End => seq![0x23u8],
        }
    }

    open spec fn wf(&self) -> bool {
        true
    }

    open spec fn compiled(&self) -> bool {
        true
    }

    fn byte_size(&self) -> (r: usize) {
        1
    }

    fn write(&self, out: &mut Vec<u8>) -> (r: Result<(), CodecError>) {
        match self {
            Choice::Choice => out.push(0x22),
            Choice::End => out.push(0x23),
        }
        assert(out@ =~= old(out)@ + self.wire());
        Ok(())
    }
}

/// The text block of a choice: a pad byte and formatted-text streams up to,
/// and on the wire including, the `0x23` end marker.
#[derive(Debug, PartialEq, Eq, Clone)]
pub struct ChoiceText {
    pub pad: Option<u8>,
    pub texts: Vec<SceneFormattedText>,
}

impl Writeable for ChoiceText {
    open spec fn wire(&self) -> Seq<u8> {
        self.pad.wire() + seq_wire(self.texts@) + seq![0x23u8]
    }

    open spec fn wf(&self) -> bool {
        seq_wf(self.texts@)
    }

    open spec fn compiled(&self) -> bool {
        true
    }

    fn byte_size(&self) -> (r: usize) {
        self.pad.byte_size() + self.texts.byte_size() + 1
    }

    fn write(&self, out: &mut Vec<u8>) -> (r: Result<(), CodecError>) {
        self.pad.write(out)?;
        self.texts.write(out)?;
        out.push(0x23);
        assert(out@ =~= old(out)@ + self.wire());
        Ok(())
    }
}

/// Parse a choice text block: a pad byte, then formatted-text streams until
/// the `0x23` end marker, which is consumed.
pub fn choice_text(s: &[u8], pos: usize) -> (r: Result<(ChoiceText, usize), CodecError>)
    requires
        pos <= s@.len(),
    ensures
        r matches Ok((t, end)) ==> pos < end <= s@.len() && t.wf()
            && t.wire().len() <= end - pos
            && (t.wire().len() == end - pos ==> t.wire() == s@.subrange(pos as int, end as int)),
        r matches Err(e) ==> crate::codec::parse_error(e),
{
    let (pad, p0) = read_u8(s, pos)?;
    let mut texts: Vec<SceneFormattedText> = Vec::new();
    let mut cur: usize = p0;
    loop
        invariant
            p0 <= cur <= s@.len(),
            pos < p0 <= s@.len(),
            seq![pad] == s@.subrange(pos as int, p0 as int),
            seq_wire(texts@).len() <= cur - p0,
            seq_wire(texts@).len() == cur - p0 ==> seq_wire(texts@)
                == s@.subrange(p0 as int, cur as int),
            seq_wf(texts@),
        decreases s@.len() - cur,
    {
        let (b, peeked) = read_u8(s, cur)?;
        if b == 0x23 {
            let t = ChoiceText { pad: Some(pad), texts };
            proof {
                assert(s@.subrange(cur as int, peeked as int) =~= seq![0x23u8]);
                assert(s@.subrange(pos as int, p0 as int) + s@.subrange(p0 as int, cur as int)
                    == s@.subrange(pos as int, cur as int));
                assert(s@.subrange(pos as int, cur as int) + s@.subrange(cur as int, peeked as int)
                    == s@.subrange(pos as int, peeked as int));
                assert(t.wire().len() <= peeked - pos);
                if t.wire().len() == peeked - pos {
                    assert(seq_wire(texts@).len() == cur - p0);
                    assert(t.wire() =~= s@.subrange(pos as int, peeked as int));
                }
            }
            return Ok((t, peeked));
        }
        let (t, next) = scene_formatted_text(s, cur)?;
        proof {
            lemma_seq_wire_push(texts@, t);
            assert(s@.subrange(p0 as int, cur as int) + s@.subrange(cur as int, next as int)
                == s@.subrange(p0 as int, next as int));
            assert(seq_wire(texts@.push(t)).len() <= next - p0);
            if seq_wire(texts@.push(t)).len() == next - p0 {
                assert(seq_wire(texts@).len() == cur - p0 && t.wire().len() == next - cur);
                assert(seq_wire(texts@.push(t)) =~= s@.subrange(p0 as int, next as int));
            }
        }
        texts.push(t);
        cur = next;
    }
}

/// Choice commands (family tag `0x58`). The text block is present exactly
/// when the flag byte is `0x22`.
#[derive(Debug, PartialEq, Eq, Clone)]
pub enum ChoiceCmd {
    Choice(Val, u8, Option<ChoiceText>),
    Choice2(Val, u8, Option<ChoiceText>),
    LoadMenu(Val),
}

impl Writeable for ChoiceCmd {
    open spec fn wire(&self) -> Seq<u8> {
        match self {
            ChoiceCmd::Choice(idx, flag, texts) => seq![0x01u8] + val_wire(*idx) + seq![*flag]
                + texts.wire(),
            ChoiceCmd::Choice2(idx, flag, texts) => seq![0x02u8] + val_wire(*idx) + seq![*flag]
                + texts.wire(),
            ChoiceCmd::LoadMenu(idx) => seq![0x04u8] + val_wire(*idx),
        }
    }

    open spec fn wf(&self) -> bool {
        match self {
            ChoiceCmd::Choice(_, _, texts) => texts.wf(),
            ChoiceCmd::Choice2(_, _, texts) => texts.wf(),
            ChoiceCmd::LoadMenu(_) => true,
        }
    }

    open spec fn compiled(&self) -> bool {
        true
    }

    fn byte_size(&self) -> (r: usize) {
        match self {
            ChoiceCmd::Choice(idx, _, texts) => 2 + idx.byte_size() + texts.byte_size(),
            ChoiceCmd::Choice2(idx, _, texts) => 2 + idx.byte_size() + texts.byte_size(),
            ChoiceCmd::LoadMenu(idx) => 1 + idx.byte_size(),
        }
    }

    fn write(&self, out: &mut Vec<u8>) -> (r: Result<(), CodecError>) {
        match self {
            ChoiceCmd::Choice(idx, flag, texts) => {
                out.push(0x01);
                idx.write(out)?;
                out.push(*flag);
                texts.write(out)?;
            },
            ChoiceCmd::Choice2(idx, flag, texts) => {
                out.push(0x02);
                idx.write(out)?;
                out.push(*flag);
                texts.write(out)?;
            },
            ChoiceCmd::LoadMenu(idx) => {
                out.push(0x04);
                idx.write(out)?;
            },
        }
        assert(out@ =~= old(out)@ + self.wire());
        Ok(())
    }
}

/// Parse a choice command.
pub fn choice_cmd(s: &[u8], pos: usize) -> (r: Result<(ChoiceCmd, usize), CodecError>)
    requires
        pos <= s@.len(),
    ensures
        r matches Ok((c, end)) ==> pos < end <= s@.len() && c.wf()
            && c.wire().len() <= end - pos
            && (c.wire().len() == end - pos ==> c.wire() == s@.subrange(pos as int, end as int)),
        r matches Err(e) ==> crate::codec::parse_error(e),
{
    let (tag, p0) = read_u8(s, pos)?;
    match tag {
        0x01 | 0x02 => {
            let (idx, p1) = scene_value(s, p0)?;
            let (flag, p2) = read_u8(s, p1)?;
            let (texts, p3) = if flag == 0x22 {
                let (t, p3) = choice_text(s, p2)?;
                (Some(t), p3)
            } else {
                (None, p2)
            };
            let c = if tag == 0x01 {
                ChoiceCmd::Choice(idx, flag, texts)
            } else {
                ChoiceCmd::Choice2(idx, flag, texts)
            };
            proof {
                assert(s@.subrange(pos as int, p0 as int) + s@.subrange(p0 as int, p1 as int)
                    == s@.subrange(pos as int, p1 as int));
                assert(s@.subrange(pos as int, p1 as int) + s@.subrange(p1 as int, p2 as int)
                    == s@.subrange(pos as int, p2 as int));
                assert(s@.subrange(pos as int, p2 as int) + s@.subrange(p2 as int, p3 as int)
                    == s@.subrange(pos as int, p3 as int));
                assert(c.wire().len() <= p3 - pos);
                if c.wire().len() == p3 - pos {
                    assert(c.wire() =~= s@.subrange(pos as int, p3 as int));
                }
            }
            Ok((c, p3))
        },
        0x04 => {
            let (idx, p1) = scene_value(s, p0)?;
            let c = ChoiceCmd::LoadMenu(idx);
            proof {
                assert(s@.subrange(pos as int, p0 as int) + s@.subrange(p0 as int, p1 as int)
                    == s@.subrange(pos as int, p1 as int));
                assert(c.wire().len() <= p1 - pos);
                if c.wire().len() == p1 - pos {
                    assert(c.wire() =~= s@.subrange(pos as int, p1 as int));
                }
            }
            Ok((c, p1))
        },
        _ => Err(CodecError::UnknownSubcommand(0x58, tag)),
    }
}

/// One slideshow or scroll entry: a picture file and its datum.
#[derive(Debug, PartialEq, Eq, Clone)]
pub struct MultiPdtEntry {
    pub text: SceneText,
    pub data: Val,
}

impl Writeable for MultiPdtEntry {
    open spec fn wire(&self) -> Seq<u8> {
        self.text.wire() + val_wire(self.data)
    }

    open spec fn wf(&self) -> bool {
        self.text.wf()
    }

    open spec fn compiled(&self) -> bool {
        true
    }

    fn byte_size(&self) -> (r: usize) {
        self.text.byte_size() + self.data.byte_size()
    }

    fn write(&self, out: &mut Vec<u8>) -> (r: Result<(), CodecError>) {
        self.text.write(out)?;
        self.data.write(out)?;
        assert(out@ =~= old(out)@ + self.wire());
        Ok(())
    }
}

/// Parse one slideshow entry.
pub fn multi_pdt_entry(s: &[u8], pos: usize) -> (r: Result<(MultiPdtEntry, usize), CodecError>)
    requires
        pos <= s@.len(),
    ensures
        r matches Ok((e, end)) ==> pos < end <= s@.len() && e.wf()
            && e.wire().len() <= end - pos
            && (e.wire().len() == end - pos ==> e.wire() == s@.subrange(pos as int, end as int)),
        r matches Err(e) ==> crate::codec::parse_error(e),
{
    let (text, p1) = scene_text(s, pos)?;
    let (data, p2) = scene_value(s, p1)?;
    let e = MultiPdtEntry { text, data };
    proof {
        assert(s@.subrange(pos as int, p1 as int) + s@.subrange(p1 as int, p2 as int)
            == s@.subrange(pos as int, p2 as int));
        assert(e.wire().len() <= p2 - pos);
        if e.wire().len() == p2 - pos {
            assert(e.wire() =~= s@.subrange(pos as int, p2 as int));
        }
    }
    Ok((e, p2))
}

/// Multi-picture commands (family tag `0x6a`): slideshows and scrolls over
/// a count-prefixed entry list.
#[derive(Debug, PartialEq, Eq, Clone)]
pub enum MultiPdtCmd {
    Slideshow(Val, Val, Vec<MultiPdtEntry>),
    SlideshowLoop(Val, Val, Vec<MultiPdtEntry>),
    StopSlideshowLoop,
    Scroll(u8, Val, Val, Val, Vec<MultiPdtEntry>),
    Scroll2(u8, Val, Val, Val, Vec<MultiPdtEntry>),
    ScrollWithCancel(u8, Val, Val, Val, Val, Vec<MultiPdtEntry>),
}

impl Writeable for MultiPdtCmd {
    open spec fn wire(&self) -> Seq<u8> {
        match self {
            MultiPdtCmd::Slideshow(p, w, es) => seq![0x03u8, es@.len() as u8] + val_wire(*p)
                + val_wire(*w) + seq_wire(es@),
            MultiPdtCmd::SlideshowLoop(p, w, es) => seq![0x04u8, es@.len() as u8] + val_wire(*p)
                + val_wire(*w) + seq_wire(es@),
            MultiPdtCmd::StopSlideshowLoop => seq![0x05u8],
            MultiPdtCmd::Scroll(pc, p, w, px, es) => seq![0x10u8, *pc, es@.len() as u8]
                + val_wire(*p) + val_wire(*w) + val_wire(*px) + seq_wire(es@),
            MultiPdtCmd::Scroll2(pc, p, w, px, es) => seq![0x20u8, *pc, es@.len() as u8]
                + val_wire(*p) + val_wire(*w) + val_wire(*px) + seq_wire(es@),
            MultiPdtCmd::ScrollWithCancel(pc, p, w, px, ci, es) => seq![0x30u8, *pc, es@.len() as u8]
                + val_wire(*p) + val_wire(*w) + val_wire(*px) + val_wire(*ci) + seq_wire(es@),
        }
    }

    open spec fn wf(&self) -> bool {
        match self {
            MultiPdtCmd::Slideshow(_, _, es) => es@.len() <= 255 && seq_wf(es@),
            MultiPdtCmd::SlideshowLoop(_, _, es) => es@.len() <= 255 && seq_wf(es@),
            MultiPdtCmd::StopSlideshowLoop => true,
            MultiPdtCmd::Scroll(_, _, _, _, es) => es@.len() <= 255 && seq_wf(es@),
            MultiPdtCmd::Scroll2(_, _, _, _, es) => es@.len() <= 255 && seq_wf(es@),
            MultiPdtCmd::ScrollWithCancel(_, _, _, _, _, es) => es@.len() <= 255 && seq_wf(es@),
        }
    }

    open spec fn compiled(&self) -> bool {
        true
    }

    fn byte_size(&self) -> (r: usize) {
        match self {
            MultiPdtCmd::Slideshow(p, w, es) => 2 + p.byte_size() + w.byte_size()
                + es.byte_size(),
            MultiPdtCmd::SlideshowLoop(p, w, es) => 2 + p.byte_size() + w.byte_size()
                + es.byte_size(),
            MultiPdtCmd::StopSlideshowLoop => 1,
            MultiPdtCmd::Scroll(_, p, w, px, es) => 3 + p.byte_size() + w.byte_size()
                + px.byte_size() + es.byte_size(),
            MultiPdtCmd::Scroll2(_, p, w, px, es) => 3 + p.byte_size() + w.byte_size()
                + px.byte_size() + es.byte_size(),
            MultiPdtCmd::ScrollWithCancel(_, p, w, px, ci, es) => 3 + p.byte_size()
                + w.byte_size() + px.byte_size() + ci.byte_size() + es.byte_size(),
        }
    }

    fn write(&self, out: &mut Vec<u8>) -> (r: Result<(), CodecError>) {
        match self {
            MultiPdtCmd::Slideshow(p, w, es) => {
                out.push(0x03);
                out.push(es.len() as u8);
                p.write(out)?;
                w.write(out)?;
                es.write(out)?;
                assert(seq![0x03u8, es@.len() as u8] =~= seq![0x03u8] + seq![es@.len() as u8]);
            },
            MultiPdtCmd::SlideshowLoop(p, w, es) => {
                out.push(0x04);
                out.push(es.len() as u8);
                p.write(out)?;
                w.write(out)?;
                es.write(out)?;
                assert(seq![0x04u8, es@.len() as u8] =~= seq![0x04u8] + seq![es@.len() as u8]);
            },
            MultiPdtCmd::StopSlideshowLoop => out.push(0x05),
            MultiPdtCmd::Scroll(pc, p, w, px, es) => {
                out.push(0x10);
                out.push(*pc);
                out.push(es.len() as u8);
                p.write(out)?;
                w.write(out)?;
                px.write(out)?;
                es.write(out)?;
                assert(seq![0x10u8, *pc, es@.len() as u8]
                    =~= seq![0x10u8] + seq![*pc] + seq![es@.len() as u8]);
            },
            MultiPdtCmd::Scroll2(pc, p, w, px, es) => {
                out.push(0x20);
                out.push(*pc);
                out.push(es.len() as u8);
                p.write(out)?;
                w.write(out)?;
                px.write(out)?;
                es.write(out)?;
                assert(seq![0x20u8, *pc, es@.len() as u8]
                    =~= seq![0x20u8] + seq![*pc] + seq![es@.len() as u8]);
            },
            MultiPdtCmd::ScrollWithCancel(pc, p, w, px, ci, es) => {
                out.push(0x30);
                out.push(*pc);
                out.push(es.len() as u8);
                p.write(out)?;
                w.write(out)?;
                px.write(out)?;
                ci.write(out)?;
                es.write(out)?;
                assert(seq![0x30u8, *pc, es@.len() as u8]
                    =~= seq![0x30u8] + seq![*pc] + seq![es@.len() as u8]);
            },
        }
        assert(out@ =~= old(out)@ + self.wire());
        Ok(())
    }
}

/// Parse a count-prefixed list of slideshow entries.
fn multi_pdt_entries(s: &[u8], pos: usize, count: u8) -> (r: Result<
    (Vec<MultiPdtEntry>, usize),
    CodecError,
>)
    requires
        pos <= s@.len(),
    ensures
        r matches Ok((es, end)) ==> pos <= end <= s@.len() && seq_wf(es@)
            && es@.len() == count
            && seq_wire(es@).len() <= end - pos
            && (seq_wire(es@).len() == end - pos ==> seq_wire(es@)
                == s@.subrange(pos as int, end as int)),
        r matches Err(e) ==> crate::codec::parse_error(e),
{
    let mut es: Vec<MultiPdtEntry> = Vec::new();
    let mut cur: usize = pos;
    let mut k: usize = 0;
    while k < count as usize
        invariant
            pos <= cur <= s@.len(),
            k <= count as usize,
            es@.len() == k,
            seq_wire(es@).len() <= cur - pos,
            seq_wire(es@).len() == cur - pos ==> seq_wire(es@)
                == s@.subrange(pos as int, cur as int),
            seq_wf(es@),
        decreases count as usize - k,
    {
        let (e, nx) = multi_pdt_entry(s, cur)?;
        proof {
            lemma_seq_wire_push(es@, e);
            assert(s@.subrange(pos as int, cur as int) + s@.subrange(cur as int, nx as int)
                == s@.subrange(pos as int, nx as int));
            assert(seq_wire(es@.push(e)).len() <= nx - pos);
            if seq_wire(es@.push(e)).len() == nx - pos {
                assert(seq_wire(es@).len() == cur - pos && e.wire().len() == nx - cur);
                assert(seq_wire(es@.push(e)) =~= s@.subrange(pos as int, nx as int));
            }
        }
        es.push(e);
        cur = nx;
        k = k + 1;
    }
    Ok((es, cur))
}

/// Parse a multi-picture command.
pub fn multi_pdt_cmd(s: &[u8], pos: usize) -> (r: Result<(MultiPdtCmd, usize), CodecError>)
    requires
        pos <= s@.len(),
    ensures
        r matches Ok((c, end)) ==> pos < end <= s@.len() && c.wf()
            && c.wire().len() <= end - pos
            && (c.wire().len() == end - pos ==> c.wire() == s@.subrange(pos as int, end as int)),
        r matches Err(e) ==> crate::codec::parse_error(e),
{
    let (tag, p0) = read_u8(s, pos)?;
    match tag {
        0x05 => {
            let c = MultiPdtCmd::StopSlideshowLoop;
            proof {
                assert(c.wire().len() <= p0 - pos);
                if c.wire().len() == p0 - pos {
                    assert(c.wire() =~= s@.subrange(pos as int, p0 as int));
                }
            }
            Ok((c, p0))
        },
        0x03 | 0x04 => {
            let (count, p1) = read_u8(s, p0)?;
            let (p, p2) = scene_value(s, p1)?;
            let (w, p3) = scene_value(s, p2)?;
            let (es, p4) = multi_pdt_entries(s, p3, count)?;
            let c = if tag == 0x03 {
                MultiPdtCmd::Slideshow(p, w, es)
            } else {
                MultiPdtCmd::SlideshowLoop(p, w, es)
            };
            proof {
                assert(s@.subrange(pos as int, p0 as int) + s@.subrange(p0 as int, p1 as int)
                    == s@.subrange(pos as int, p1 as int));
                assert(s@.subrange(pos as int, p1 as int) + s@.subrange(p1 as int, p2 as int)
                    == s@.subrange(pos as int, p2 as int));
                assert(s@.subrange(pos as int, p2 as int) + s@.subrange(p2 as int, p3 as int)
                    == s@.subrange(pos as int, p3 as int));
                assert(s@.subrange(pos as int, p3 as int) + s@.subrange(p3 as int, p4 as int)
                    == s@.subrange(pos as int, p4 as int));
                assert(seq![tag, count] =~= s@.subrange(pos as int, p0 as int)
                    + s@.subrange(p0 as int, p1 as int));
                assert(c.wire().len() <= p4 - pos);
                if c.wire().len() == p4 - pos {
                    assert(c.wire() =~= s@.subrange(pos as int, p4 as int));
                }
            }
            Ok((c, p4))
        },
        0x10 | 0x20 => {
            let (pc, p1) = read_u8(s, p0)?;
            let (count, p2) = read_u8(s, p1)?;
            let (p, p3) = scene_value(s, p2)?;
            let (w, p4) = scene_value(s, p3)?;
            let (px, p5) = scene_value(s, p4)?;
            let (es, p6) = multi_pdt_entries(s, p5, count)?;
            let c = if tag == 0x10 {
                MultiPdtCmd::Scroll(pc, p, w, px, es)
            } else {
                MultiPdtCmd::Scroll2(pc, p, w, px, es)
            };
            proof {
                assert(s@.subrange(pos as int, p0 as int) + s@.subrange(p0 as int, p1 as int)
                    == s@.subrange(pos as int, p1 as int));
                assert(s@.subrange(pos as int, p1 as int) + s@.subrange(p1 as int, p2 as int)
                    == s@.subrange(pos as int, p2 as int));
                assert(s@.subrange(pos as int, p2 as int) + s@.subrange(p2 as int, p3 as int)
                    == s@.subrange(pos as int, p3 as int));
                assert(s@.subrange(pos as int, p3 as int) + s@.subrange(p3 as int, p4 as int)
                    == s@.subrange(pos as int, p4 as int));
                assert(s@.subrange(pos as int, p4 as int) + s@.subrange(p4 as int, p5 as int)
                    == s@.subrange(pos as int, p5 as int));
                assert(s@.subrange(pos as int, p5 as int) + s@.subrange(p5 as int, p6 as int)
                    == s@.subrange(pos as int, p6 as int));
                assert(seq![tag, pc, count] =~= s@.subrange(pos as int, p0 as int)
                    + s@.subrange(p0 as int, p1 as int) + s@.subrange(p1 as int, p2 as int));
                assert(c.wire().len() <= p6 - pos);
                if c.wire().len() == p6 - pos {
                    assert(c.wire() =~= s@.subrange(pos as int, p6 as int));
                }
            }
            Ok((c, p6))
        },
        0x30 => {
            let (pc, p1) = read_u8(s, p0)?;
            let (count, p2) = read_u8(s, p1)?;
            let (p, p3) = scene_value(s, p2)?;
            let (w, p4) = scene_value(s, p3)?;
            let (px, p5) = scene_value(s, p4)?;
            let (ci, p6) = scene_value(s, p5)?;
            let (es, p7) = multi_pdt_entries(s, p6, count)?;
            let c = MultiPdtCmd::ScrollWithCancel(pc, p, w, px, ci, es);
            proof {
                assert(s@.subrange(pos as int, p0 as int) + s@.subrange(p0 as int, p1 as int)
                    == s@.subrange(pos as int, p1 as int));
                assert(s@.subrange(pos as int, p1 as int) + s@.subrange(p1 as int, p2 as int)
                    == s@.subrange(pos as int, p2 as int));
                assert(s@.subrange(pos as int, p2 as int) + s@.subrange(p2 as int, p3 as int)
                    == s@.subrange(pos as int, p3 as int));
                assert(s@.subrange(pos as int, p3 as int) + s@.subrange(p3 as int, p4 as int)
                    == s@.subrange(pos as int, p4 as int));
                assert(s@.subrange(pos as int, p4 as int) + s@.subrange(p4 as int, p5 as int)
                    == s@.subrange(pos as int, p5 as int));
                assert(s@.subrange(pos as int, p5 as int) + s@.subrange(p5 as int, p6 as int)
                    == s@.subrange(pos as int, p6 as int));
                assert(s@.subrange(pos as int, p6 as int) + s@.subrange(p6 as int, p7 as int)
                    == s@.subrange(pos as int, p7 as int));
                assert(seq![tag, pc, count] =~= s@.subrange(pos as int, p0 as int)
                    + s@.subrange(p0 as int, p1 as int) + s@.subrange(p1 as int, p2 as int));
                assert(c.wire().len() <= p7 - pos);
                if c.wire().len() == p7 - pos {
                    assert(c.wire() =~= s@.subrange(pos as int, p7 as int));
                }
            }
            Ok((c, p7))
        },
        _ => Err(CodecError::UnknownSubcommand(0x6a, tag)),
    }
}

} // verus!
