//! Graphics sub-commands (family tag `0x0b`): image loads, effects and
//! composite images built from a base file and positioned children.
use vstd::prelude::*;
use crate::codec::{CodecError, Writeable, read_u8, seq_wire, seq_wf, lemma_seq_wire_push, lemma_subrange_glue};
use crate::val::{Val, val_wire, scene_value};
use crate::text::{SceneText, scene_text};

verus! {

broadcast use lemma_subrange_glue;

/// A full-screen graphic effect over a source and destination rectangle.
#[derive(Debug, PartialEq, Eq, Clone)]
pub struct GrpEffect {
    pub file: SceneText,
    pub sx1: Val,
    pub sy1: Val,
    pub sx2: Val,
    pub sy2: Val,
    pub dx: Val,
    pub dy: Val,
    pub steptime: Val,
    pub cmd: Val,
    pub mask: Val,
    pub arg1: Val,
    pub arg2: Val,
    pub arg3: Val,
    pub step: Val,
    pub arg5: Val,
    pub arg6: Val,
}

impl Writeable for GrpEffect {
    open spec fn wire(&self) -> Seq<u8> {
        self.file.wire() + val_wire(self.sx1) + val_wire(self.sy1) + val_wire(self.sx2)
            + val_wire(self.sy2) + val_wire(self.dx) + val_wire(self.dy) + val_wire(self.steptime)
            + val_wire(self.cmd) + val_wire(self.mask) + val_wire(self.arg1) + val_wire(self.arg2)
            + val_wire(self.arg3) + val_wire(self.step) + val_wire(self.arg5) + val_wire(self.arg6)
    }

    open spec fn wf(&self) -> bool {
        self.file.wf()
    }

    open spec fn compiled(&self) -> bool {
        true
    }

    fn byte_size(&self) -> (r: usize) {
        self.file.byte_size() + self.sx1.byte_size() + self.sy1.byte_size() + self.sx2.byte_size()
            + self.sy2.byte_size() + self.dx.byte_size() + self.dy.byte_size()
            + self.steptime.byte_size() + self.cmd.byte_size() + self.mask.byte_size()
            + self.arg1.byte_size() + self.arg2.byte_size() + self.arg3.byte_size()
            + self.step.byte_size() + self.arg5.byte_size() + self.arg6.byte_size()
    }

    fn write(&self, out: &mut Vec<u8>) -> (r: Result<(), CodecError>) {
        self.file.write(out)?;
        self.sx1.write(out)?;
        self.sy1.write(out)?;
        self.sx2.write(out)?;
        self.sy2.write(out)?;
        self.dx.write(out)?;
        self.dy.write(out)?;
        self.steptime.write(out)?;
        self.cmd.write(out)?;
        self.mask.write(out)?;
        self.arg1.write(out)?;
        self.arg2.write(out)?;
        self.arg3.write(out)?;
        self.step.write(out)?;
        self.arg5.write(out)?;
        self.arg6.write(out)?;
        assert(out@ =~= old(out)@ + self.wire());
        Ok(())
    }
}

/// Parse a graphic effect.
pub fn grp_effect(s: &[u8], pos: usize) -> (r: Result<(GrpEffect, usize), CodecError>)
    requires
        pos <= s@.len(),
    ensures
        r matches Ok((e, end)) ==> pos < end <= s@.len() && e.wf()
            && e.wire().len() <= end - pos
            && (e.wire().len() == end - pos ==> e.wire() == s@.subrange(pos as int, end as int)),
        r matches Err(e) ==> crate::codec::parse_error(e),
{
    let (file, p1) = scene_text(s, pos)?;
    let (sx1, p2) = scene_value(s, p1)?;
    let (sy1, p3) = scene_value(s, p2)?;
    let (sx2, p4) = scene_value(s, p3)?;
    let (sy2, p5) = scene_value(s, p4)?;
    let (dx, p6) = scene_value(s, p5)?;
    let (dy, p7) = scene_value(s, p6)?;
    let (steptime, p8) = scene_value(s, p7)?;
    let (cmd, p9) = scene_value(s, p8)?;
    let (mask, p10) = scene_value(s, p9)?;
    let (arg1, p11) = scene_value(s, p10)?;
    let (arg2, p12) = scene_value(s, p11)?;
    let (arg3, p13) = scene_value(s, p12)?;
    let (step, p14) = scene_value(s, p13)?;
    let (arg5, p15) = scene_value(s, p14)?;
    let (arg6, p16) = scene_value(s, p15)?;
    let e = GrpEffect {
        file, sx1, sy1, sx2, sy2, dx, dy, steptime, cmd, mask, arg1, arg2, arg3, step, arg5, arg6,
    };
    proof {
        assert(s@.subrange(pos as int, p1 as int) + s@.subrange(p1 as int, p2 as int)
            == s@.subrange(pos as int, p2 as int));
        assert(s@.subrange(pos as int, p2 as int) + s@.subrange(p2 as int, p3 as int)
            == s@.subrange(pos as int, p3 as int));
        assert(s@.subrange(pos as int, p3 as int) + s@.subrange(p3 as int, p4 as int)
            == s@.subrange(pos as int, p4 as int));
        assert(s@.subrange(pos as int, p4 as int) + s@.subrange(p4 as int, p5 as int)
            == s@.subrange(pos as int, p5 as int));
        assert(s@.subrange(pos as int, p5 as int) + s@.subrange(p5 as int, p6 as int)
            == s@.subrange(pos as int, p6 as int));
        assert(s@.subrange(pos as int, p6 as int) + s@.subrange(p6 as int, p7 as int)
            == s@.subrange(pos as int, p7 as int));
        assert(s@.subrange(pos as int, p7 as int) + s@.subrange(p7 as int, p8 as int)
            == s@.subrange(pos as int, p8 as int));
        assert(s@.subrange(pos as int, p8 as int) + s@.subrange(p8 as int, p9 as int)
            == s@.subrange(pos as int, p9 as int));
        assert(s@.subrange(pos as int, p9 as int) + s@.subrange(p9 as int, p10 as int)
            == s@.subrange(pos as int, p10 as int));
        assert(s@.subrange(pos as int, p10 as int) + s@.subrange(p10 as int, p11 as int)
            == s@.subrange(pos as int, p11 as int));
        assert(s@.subrange(pos as int, p11 as int) + s@.subrange(p11 as int, p12 as int)
            == s@.subrange(pos as int, p12 as int));
        assert(s@.subrange(pos as int, p12 as int) + s@.subrange(p12 as int, p13 as int)
            == s@.subrange(pos as int, p13 as int));
        assert(s@.subrange(pos as int, p13 as int) + s@.subrange(p13 as int, p14 as int)
            == s@.subrange(pos as int, p14 as int));
        assert(s@.subrange(pos as int, p14 as int) + s@.subrange(p14 as int, p15 as int)
            == s@.subrange(pos as int, p15 as int));
        assert(s@.subrange(pos as int, p15 as int) + s@.subrange(p15 as int, p16 as int)
            == s@.subrange(pos as int, p16 as int));
        assert(e.wire().len() <= p16 - pos);
        if e.wire().len() == p16 - pos {
            assert(e.wire() =~= s@.subrange(pos as int, p16 as int));
        }
    }
    Ok((e, p16))
}

/// How a composite child is placed over the base image.
#[derive(Debug, PartialEq, Eq, Clone)]
pub enum GrpCompositeMethod {
    Corner,
    Copy(Val),
    Move1(Val, Val, Val, Val, Val, Val),
    Move2(Val, Val, Val, Val, Val, Val, Val),
}

impl GrpCompositeMethod {
    /// The method's dispatch byte, written before the child's file name.
    pub open spec fn tag(&self) -> u8 {
        match self {
            GrpCompositeMethod::Corner => 0x01,
            GrpCompositeMethod::Copy(_) => 0x02,
            GrpCompositeMethod::Move1(_, _, _, _, _, _) => 0x03,
            GrpCompositeMethod::Move2(_, _, _, _, _, _, _) => 0x04,
        }
    }

    /// The method's argument bytes, written after the child's file name.
    pub open spec fn args_wire(&self) -> Seq<u8> {
        match self {
            GrpCompositeMethod::Corner => Seq::empty(),
            GrpCompositeMethod::Copy(v) => val_wire(*v),
            GrpCompositeMethod::Move1(a, b, c, d, e, f) => val_wire(*a) + val_wire(*b)
                + val_wire(*c) + val_wire(*d) + val_wire(*e) + val_wire(*f),
            GrpCompositeMethod::Move2(a, b, c, d, e, f, g) => val_wire(*a) + val_wire(*b)
                + val_wire(*c) + val_wire(*d) + val_wire(*e) + val_wire(*f) + val_wire(*g),
        }
    }
}

/// One child of a composite image: the method tag comes first on the wire,
/// then the file name, then the method's arguments.
#[derive(Debug, PartialEq, Eq, Clone)]
pub struct GrpCompositeChild {
    pub file: SceneText,
    pub method: GrpCompositeMethod,
}

impl Writeable for GrpCompositeChild {
    open spec fn wire(&self) -> Seq<u8> {
        seq![self.method.tag()] + self.file.wire() + self.method.args_wire()
    }

    open spec fn wf(&self) -> bool {
        self.file.wf()
    }

    open spec fn compiled(&self) -> bool {
        true
    }

    fn byte_size(&self) -> (r: usize) {
        let args = match &self.method {
            GrpCompositeMethod::Corner => 0,
            GrpCompositeMethod::Copy(v) => v.byte_size(),
            GrpCompositeMethod::Move1(a, b, c, d, e, f) => a.byte_size() + b.byte_size()
                + c.byte_size() + d.byte_size() + e.byte_size() + f.byte_size(),
            GrpCompositeMethod::Move2(a, b, c, d, e, f, g) => a.byte_size() + b.byte_size()
                + c.byte_size() + d.byte_size() + e.byte_size() + f.byte_size() + g.byte_size(),
        };
        1 + self.file.byte_size() + args
    }

    fn write(&self, out: &mut Vec<u8>) -> (r: Result<(), CodecError>) {
        match &self.method {
            GrpCompositeMethod::Corner => {
                out.push(0x01);
                self.file.write(out)?;
            },
            GrpCompositeMethod::Copy(v) => {
                out.push(0x02);
                self.file.write(out)?;
                v.write(out)?;
            },
            GrpCompositeMethod::Move1(a, b, c, d, e, f) => {
                out.push(0x03);
                self.file.write(out)?;
                a.write(out)?;
                b.write(out)?;
                c.write(out)?;
                d.write(out)?;
                e.write(out)?;
                f.write(out)?;
            },
            GrpCompositeMethod::Move2(a, b, c, d, e, f, g) => {
                out.push(0x04);
                self.file.write(out)?;
                a.write(out)?;
                b.write(out)?;
                c.write(out)?;
                d.write(out)?;
                e.write(out)?;
                f.write(out)?;
                g.write(out)?;
            },
        }
        assert(out@ =~= old(out)@ + self.wire());
        Ok(())
    }
}

/// Parse one composite child.
pub fn grp_composite_child(s: &[u8], pos: usize) -> (r: Result<
    (GrpCompositeChild, usize),
    CodecError,
>)
    requires
        pos <= s@.len(),
    ensures
        r matches Ok((c, end)) ==> pos < end <= s@.len() && c.wf()
            && c.wire().len() <= end - pos
            && (c.wire().len() == end - pos ==> c.wire() == s@.subrange(pos as int, end as int)),
        r matches Err(e) ==> crate::codec::parse_error(e),
{
    let (tag, p0) = read_u8(s, pos)?;
    if tag < 1 || tag > 4 {
        return Err(CodecError::UnknownSubcommand(0x0b, tag));
    }
    let (file, p1) = scene_text(s, p0)?;
    match tag {
        0x01 => {
            let c = GrpCompositeChild { file, method: GrpCompositeMethod::Corner };
            proof {
                assert(s@.subrange(pos as int, p0 as int) + s@.subrange(p0 as int, p1 as int)
                    == s@.subrange(pos as int, p1 as int));
                assert(c.wire().len() <= p1 - pos);
                if c.wire().len() == p1 - pos {
                    assert(c.wire() =~= s@.subrange(pos as int, p1 as int));
                }
            }
            Ok((c, p1))
        },
        0x02 => {
            let (v, p2) = scene_value(s, p1)?;
            let c = GrpCompositeChild { file, method: GrpCompositeMethod::Copy(v) };
            proof {
                assert(s@.subrange(pos as int, p0 as int) + s@.subrange(p0 as int, p1 as int)
                    == s@.subrange(pos as int, p1 as int));
                assert(s@.subrange(pos as int, p1 as int) + s@.subrange(p1 as int, p2 as int)
                    == s@.subrange(pos as int, p2 as int));
                assert(c.wire().len() <= p2 - pos);
                if c.wire().len() == p2 - pos {
                    assert(c.wire() =~= s@.subrange(pos as int, p2 as int));
                }
            }
            Ok((c, p2))
        },
        0x03 => {
            let (a, p2) = scene_value(s, p1)?;
            let (b, p3) = scene_value(s, p2)?;
            let (cv, p4) = scene_value(s, p3)?;
            let (d, p5) = scene_value(s, p4)?;
            let (e, p6) = scene_value(s, p5)?;
            let (f, p7) = scene_value(s, p6)?;
            let c = GrpCompositeChild {
                file,
                method: GrpCompositeMethod::Move1(a, b, cv, d, e, f),
            };
            proof {
                assert(s@.subrange(pos as int, p0 as int) + s@.subrange(p0 as int, p1 as int)
                    == s@.subrange(pos as int, p1 as int));
                assert(s@.subrange(pos as int, p1 as int) + s@.subrange(p1 as int, p2 as int)
                    == s@.subrange(pos as int, p2 as int));
                assert(s@.subrange(pos as int, p2 as int) + s@.subrange(p2 as int, p3 as int)
                    == s@.subrange(pos as int, p3 as int));
                assert(s@.subrange(pos as int, p3 as int) + s@.subrange(p3 as int, p4 as int)
                    == s@.subrange(pos as int, p4 as int));
                assert(s@.subrange(pos as int, p4 as int) + s@.subrange(p4 as int, p5 as int)
                    == s@.subrange(pos as int, p5 as int));
                assert(s@.subrange(pos as int, p5 as int) + s@.subrange(p5 as int, p6 as int)
                    == s@.subrange(pos as int, p6 as int));
                assert(s@.subrange(pos as int, p6 as int) + s@.subrange(p6 as int, p7 as int)
                    == s@.subrange(pos as int, p7 as int));
                assert(c.wire().len() <= p7 - pos);
                if c.wire().len() == p7 - pos {
                    assert(c.wire() =~= s@.subrange(pos as int, p7 as int));
                }
            }
            Ok((c, p7))
        },
        _ => {
            let (a, p2) = scene_value(s, p1)?;
            let (b, p3) = scene_value(s, p2)?;
            let (cv, p4) = scene_value(s, p3)?;
            let (d, p5) = scene_value(s, p4)?;
            let (e, p6) = scene_value(s, p5)?;
            let (f, p7) = scene_value(s, p6)?;
            let (g, p8) = scene_value(s, p7)?;
            let c = GrpCompositeChild {
                file,
                method: GrpCompositeMethod::Move2(a, b, cv, d, e, f, g),
            };
            proof {
                assert(s@.subrange(pos as int, p0 as int) + s@.subrange(p0 as int, p1 as int)
                    == s@.subrange(pos as int, p1 as int));
                assert(s@.subrange(pos as int, p1 as int) + s@.subrange(p1 as int, p2 as int)
                    == s@.subrange(pos as int, p2 as int));
                assert(s@.subrange(pos as int, p2 as int) + s@.subrange(p2 as int, p3 as int)
                    == s@.subrange(pos as int, p3 as int));
                assert(s@.subrange(pos as int, p3 as int) + s@.subrange(p3 as int, p4 as int)
                    == s@.subrange(pos as int, p4 as int));
                assert(s@.subrange(pos as int, p4 as int) + s@.subrange(p4 as int, p5 as int)
                    == s@.subrange(pos as int, p5 as int));
                assert(s@.subrange(pos as int, p5 as int) + s@.subrange(p5 as int, p6 as int)
                    == s@.subrange(pos as int, p6 as int));
                assert(s@.subrange(pos as int, p6 as int) + s@.subrange(p6 as int, p7 as int)
                    == s@.subrange(pos as int, p7 as int));
                assert(s@.subrange(pos as int, p7 as int) + s@.subrange(p7 as int, p8 as int)
                    == s@.subrange(pos as int, p8 as int));
                assert(c.wire().len() <= p8 - pos);
                if c.wire().len() == p8 - pos {
                    assert(c.wire() =~= s@.subrange(pos as int, p8 as int));
                }
            }
            Ok((c, p8))
        },
    }
}

/// A composite image: a base file and a count-prefixed child list.
#[derive(Debug, PartialEq, Eq, Clone)]
pub struct GrpComposite {
    pub base_file: SceneText,
    pub idx: Val,
    pub children: Vec<GrpCompositeChild>,
}

impl Writeable for GrpComposite {
    open spec fn wire(&self) -> Seq<u8> {
        seq![self.children@.len() as u8] + self.base_file.wire() + val_wire(self.idx)
            + seq_wire(self.children@)
    }

    open spec fn wf(&self) -> bool {
        self.base_file.wf() && self.children@.len() <= 255 && seq_wf(self.children@)
    }

    open spec fn compiled(&self) -> bool {
        true
    }

    fn byte_size(&self) -> (r: usize) {
        1 + self.base_file.byte_size() + self.idx.byte_size() + self.children.byte_size()
    }

    fn write(&self, out: &mut Vec<u8>) -> (r: Result<(), CodecError>) {
        out.push(self.children.len() as u8);
        self.base_file.write(out)?;
        self.idx.write(out)?;
        self.children.write(out)?;
        assert(out@ =~= old(out)@ + self.wire());
        Ok(())
    }
}

/// A composite image whose base is an indexed buffer rather than a file.
#[derive(Debug, PartialEq, Eq, Clone)]
pub struct GrpCompositeIndexed {
    pub base_file: Val,
    pub idx: Val,
    pub children: Vec<GrpCompositeChild>,
}

impl Writeable for GrpCompositeIndexed {
    open spec fn wire(&self) -> Seq<u8> {
        seq![self.children@.len() as u8] + val_wire(self.base_file) + val_wire(self.idx)
            + seq_wire(self.children@)
    }

    open spec fn wf(&self) -> bool {
        self.children@.len() <= 255 && seq_wf(self.children@)
    }

    open spec fn compiled(&self) -> bool {
        true
    }

    fn byte_size(&self) -> (r: usize) {
        1 + self.base_file.byte_size() + self.idx.byte_size() + self.children.byte_size()
    }

    fn write(&self, out: &mut Vec<u8>) -> (r: Result<(), CodecError>) {
        out.push(self.children.len() as u8);
        self.base_file.write(out)?;
        self.idx.write(out)?;
        self.children.write(out)?;
        assert(out@ =~= old(out)@ + self.wire());
        Ok(())
    }
}

/// Parse a count-prefixed list of composite children.
fn grp_children(s: &[u8], pos: usize, count: u8) -> (r: Result<
    (Vec<GrpCompositeChild>, usize),
    CodecError,
>)
    requires
        pos <= s@.len(),
    ensures
        r matches Ok((cs, end)) ==> pos <= end <= s@.len() && seq_wf(cs@)
            && cs@.len() == count
            && seq_wire(cs@).len() <= end - pos
            && (seq_wire(cs@).len() == end - pos ==> seq_wire(cs@)
                == s@.subrange(pos as int, end as int)),
        r matches Err(e) ==> crate::codec::parse_error(e),
{
    let mut cs: Vec<GrpCompositeChild> = Vec::new();
    let mut cur: usize = pos;
    let mut k: usize = 0;
    while k < count as usize
        invariant
            pos <= cur <= s@.len(),
            k <= count as usize,
            cs@.len() == k,
            seq_wire(cs@).len() <= cur - pos,
            seq_wire(cs@).len() == cur - pos ==> seq_wire(cs@)
                == s@.subrange(pos as int, cur as int),
            seq_wf(cs@),
        decreases count as usize - k,
    {
        let (c, nx) = grp_composite_child(s, cur)?;
        proof {
            lemma_seq_wire_push(cs@, c);
            assert(s@.subrange(pos as int, cur as int) + s@.subrange(cur as int, nx as int)
                == s@.subrange(pos as int, nx as int));
            assert(seq_wire(cs@.push(c)).len() <= nx - pos);
            if seq_wire(cs@.push(c)).len() == nx - pos {
                assert(seq_wire(cs@).len() == cur - pos && c.wire().len() == nx - cur);
                assert(seq_wire(cs@.push(c)) =~= s@.subrange(pos as int, nx as int));
            }
        }
        cs.push(c);
        cur = nx;
        k = k + 1;
    }
    Ok((cs, cur))
}

/// Parse a composite image with a file-named base.
pub fn grp_composite(s: &[u8], pos: usize) -> (r: Result<(GrpComposite, usize), CodecError>)
    requires
        pos <= s@.len(),
    ensures
        r matches Ok((c, end)) ==> pos < end <= s@.len() && c.wf()
            && c.wire().len() <= end - pos
            && (c.wire().len() == end - pos ==> c.wire() == s@.subrange(pos as int, end as int)),
        r matches Err(e) ==> crate::codec::parse_error(e),
{
    let (count, p0) = read_u8(s, pos)?;
    let (base_file, p1) = scene_text(s, p0)?;
    let (idx, p2) = scene_value(s, p1)?;
    let (children, p3) = grp_children(s, p2, count)?;
    let c = GrpComposite { base_file, idx, children };
    proof {
        assert(s@.subrange(pos as int, p0 as int) + s@.subrange(p0 as int, p1 as int)
            == s@.subrange(pos as int, p1 as int));
        assert(s@.subrange(pos as int, p1 as int) + s@.subrange(p1 as int, p2 as int)
            == s@.subrange(pos as int, p2 as int));
        assert(s@.subrange(pos as int, p2 as int) + s@.subrange(p2 as int, p3 as int)
            == s@.subrange(pos as int, p3 as int));
        assert(c.wire().len() <= p3 - pos);
        if c.wire().len() == p3 - pos {
            assert(c.wire() =~= s@.subrange(pos as int, p3 as int));
        }
    }
    Ok((c, p3))
}

/// Parse a composite image with an indexed base.
pub fn grp_composite_indexed(s: &[u8], pos: usize) -> (r: Result<
    (GrpCompositeIndexed, usize),
    CodecError,
>)
    requires
        pos <= s@.len(),
    ensures
        r matches Ok((c, end)) ==> pos < end <= s@.len() && c.wf()
            && c.wire().len() <= end - pos
            && (c.wire().len() == end - pos ==> c.wire() == s@.subrange(pos as int, end as int)),
        r matches Err(e) ==> crate::codec::parse_error(e),
{
    let (count, p0) = read_u8(s, pos)?;
    let (base_file, p1) = scene_value(s, p0)?;
    let (idx, p2) = scene_value(s, p1)?;
    let (children, p3) = grp_children(s, p2, count)?;
    let c = GrpCompositeIndexed { base_file, idx, children };
    proof {
        assert(s@.subrange(pos as int, p0 as int) + s@.subrange(p0 as int, p1 as int)
            == s@.subrange(pos as int, p1 as int));
        assert(s@.subrange(pos as int, p1 as int) + s@.subrange(p1 as int, p2 as int)
            == s@.subrange(pos as int, p2 as int));
        assert(s@.subrange(pos as int, p2 as int) + s@.subrange(p2 as int, p3 as int)
            == s@.subrange(pos as int, p3 as int));
        assert(c.wire().len() <= p3 - pos);
        if c.wire().len() == p3 - pos {
            assert(c.wire() =~= s@.subrange(pos as int, p3 as int));
        }
    }
    Ok((c, p3))
}

/// One graphics command.
#[derive(Debug, PartialEq, Eq, Clone)]
pub enum GrpCmd {
    Load(SceneText, Val),
    LoadEffect(GrpEffect),
    Load2(SceneText, Val),
    LoadEffect2(GrpEffect),
    Load3(SceneText, Val),
    LoadEffect3(GrpEffect),
    Unknown1,
    LoadToBuf(SceneText, Val),
    LoadToBuf2(SceneText, Val),
    LoadCaching(SceneText),
    GrpCmd0x13,
    LoadComposite(GrpComposite),
    LoadCompositeIndexed(GrpCompositeIndexed),
    MacroBufferClear,
    MacroBufferDelete(Val),
    MacroBufferRead(Val),
    MacroBufferSet(Val),
    BackupScreenCopy,
    BackupScreenDisplay(Val),
    LoadToBuf3(SceneText, Val),
}

impl Writeable for GrpCmd {
    open spec fn wire(&self) -> Seq<u8> {
        match self {
            GrpCmd::Load(t, v) => seq![0x01u8] + t.wire() + val_wire(*v),
            GrpCmd::LoadEffect(e) => seq![0x02u8] + e.wire(),
            GrpCmd::Load2(t, v) => seq![0x03u8] + t.wire() + val_wire(*v),
            GrpCmd::LoadEffect2(e) => seq![0x04u8] + e.wire(),
            GrpCmd::Load3(t, v) => seq![0x05u8] + t.wire() + val_wire(*v),
            GrpCmd::LoadEffect3(e) => seq![0x06u8] + e.wire(),
            GrpCmd::Unknown1 => seq![0x08u8],
            GrpCmd::LoadToBuf(t, v) => seq![0x09u8] + t.wire() + val_wire(*v),
            GrpCmd::LoadToBuf2(t, v) => seq![0x10u8] + t.wire() + val_wire(*v),
            GrpCmd::LoadCaching(t) => seq![0x11u8] + t.wire(),
            GrpCmd::GrpCmd0x13 => seq![0x13u8],
            GrpCmd::LoadComposite(c) => seq![0x22u8] + c.wire(),
            GrpCmd::LoadCompositeIndexed(c) => seq![0x24u8] + c.wire(),
            GrpCmd::MacroBufferClear => seq![0x30u8],
            GrpCmd::MacroBufferDelete(v) => seq![0x31u8] + val_wire(*v),
            GrpCmd::MacroBufferRead(v) => seq![0x32u8] + val_wire(*v),
            GrpCmd::MacroBufferSet(v) => seq![0x33u8] + val_wire(*v),
            GrpCmd::BackupScreenCopy => seq![0x50u8],
            GrpCmd::BackupScreenDisplay(v) => seq![0x52u8] + val_wire(*v),
            GrpCmd::LoadToBuf3(t, v) => seq![0x54u8] + t.wire() + val_wire(*v),
        }
    }

    open spec fn wf(&self) -> bool {
        match self {
            GrpCmd::Load(t, _) => t.wf(),
            GrpCmd::LoadEffect(e) => e.wf(),
            GrpCmd::Load2(t, _) => t.wf(),
            GrpCmd::LoadEffect2(e) => e.wf(),
            GrpCmd::Load3(t, _) => t.wf(),
            GrpCmd::LoadEffect3(e) => e.wf(),
            GrpCmd::LoadToBuf(t, _) => t.wf(),
            GrpCmd::LoadToBuf2(t, _) => t.wf(),
            GrpCmd::LoadCaching(t) => t.wf(),
            GrpCmd::LoadComposite(c) => c.wf(),
            GrpCmd::LoadCompositeIndexed(c) => c.wf(),
            GrpCmd::LoadToBuf3(t, _) => t.wf(),
            _ => true,
        }
    }

    open spec fn compiled(&self) -> bool {
        true
    }

    fn byte_size(&self) -> (r: usize) {
        match self {
            GrpCmd::Load(t, v) => 1 + t.byte_size() + v.byte_size(),
            GrpCmd::LoadEffect(e) => 1 + e.byte_size(),
            GrpCmd::Load2(t, v) => 1 + t.byte_size() + v.byte_size(),
            GrpCmd::LoadEffect2(e) => 1 + e.byte_size(),
            GrpCmd::Load3(t, v) => 1 + t.byte_size() + v.byte_size(),
            GrpCmd::LoadEffect3(e) => 1 + e.byte_size(),
            GrpCmd::Unknown1 => 1,
            GrpCmd::LoadToBuf(t, v) => 1 + t.byte_size() + v.byte_size(),
            GrpCmd::LoadToBuf2(t, v) => 1 + t.byte_size() + v.byte_size(),
            GrpCmd::LoadCaching(t) => 1 + t.byte_size(),
            GrpCmd::GrpCmd0x13 => 1,
            GrpCmd::LoadComposite(c) => 1 + c.byte_size(),
            GrpCmd::LoadCompositeIndexed(c) => 1 + c.byte_size(),
            GrpCmd::MacroBufferClear => 1,
            GrpCmd::MacroBufferDelete(v) => 1 + v.byte_size(),
            GrpCmd::MacroBufferRead(v) => 1 + v.byte_size(),
            GrpCmd::MacroBufferSet(v) => 1 + v.byte_size(),
            GrpCmd::BackupScreenCopy => 1,
            GrpCmd::BackupScreenDisplay(v) => 1 + v.byte_size(),
            GrpCmd::LoadToBuf3(t, v) => 1 + t.byte_size() + v.byte_size(),
        }
    }

    fn write(&self, out: &mut Vec<u8>) -> (r: Result<(), CodecError>) {
        match self {
            GrpCmd::Load(t, v) => {
                out.push(0x01);
                t.write(out)?;
                v.write(out)?;
            },
            GrpCmd::LoadEffect(e) => {
                out.push(0x02);
                e.write(out)?;
            },
            GrpCmd::Load2(t, v) => {
                out.push(0x03);
                t.write(out)?;
                v.write(out)?;
            },
            GrpCmd::LoadEffect2(e) => {
                out.push(0x04);
                e.write(out)?;
            },
            GrpCmd::Load3(t, v) => {
                out.push(0x05);
                t.write(out)?;
                v.write(out)?;
            },
            GrpCmd::LoadEffect3(e) => {
                out.push(0x06);
                e.write(out)?;
            },
            GrpCmd::Unknown1 => out.push(0x08),
            GrpCmd::LoadToBuf(t, v) => {
                out.push(0x09);
                t.write(out)?;
                v.write(out)?;
            },
            GrpCmd::LoadToBuf2(t, v) => {
                out.push(0x10);
                t.write(out)?;
                v.write(out)?;
            },
            GrpCmd::LoadCaching(t) => {
                out.push(0x11);
                t.write(out)?;
            },
            GrpCmd::GrpCmd0x13 => out.push(0x13),
            GrpCmd::LoadComposite(c) => {
                out.push(0x22);
                c.write(out)?;
            },
            GrpCmd::LoadCompositeIndexed(c) => {
                out.push(0x24);
                c.write(out)?;
            },
            GrpCmd::MacroBufferClear => out.push(0x30),
            GrpCmd::MacroBufferDelete(v) => {
                out.push(0x31);
                v.write(out)?;
            },
            GrpCmd::MacroBufferRead(v) => {
                out.push(0x32);
                v.write(out)?;
            },
            GrpCmd::MacroBufferSet(v) => {
                out.push(0x33);
                v.write(out)?;
            },
            GrpCmd::BackupScreenCopy => out.push(0x50),
            GrpCmd::BackupScreenDisplay(v) => {
                out.push(0x52);
                v.write(out)?;
            },
            GrpCmd::LoadToBuf3(t, v) => {
                out.push(0x54);
                t.write(out)?;
                v.write(out)?;
            },
        }
        assert(out@ =~= old(out)@ + self.wire());
        Ok(())
    }
}

/// Parse a graphics command.
pub fn grp_cmd(s: &[u8], pos: usize) -> (r: Result<(GrpCmd, usize), CodecError>)
    requires
        pos <= s@.len(),
    ensures
        r matches Ok((c, end)) ==> pos < end <= s@.len() && c.wf()
            && c.wire().len() <= end - pos
            && (c.wire().len() == end - pos ==> c.wire() == s@.subrange(pos as int, end as int)),
        r matches Err(e) ==> crate::codec::parse_error(e),
{
    let (tag, p0) = read_u8(s, pos)?;
    match tag {
        0x08 | 0x13 | 0x30 | 0x50 => {
            let c = match tag {
                0x08 => GrpCmd::Unknown1,
                0x13 => GrpCmd::GrpCmd0x13,
                0x30 => GrpCmd::MacroBufferClear,
                _ => GrpCmd::BackupScreenCopy,
            };
            proof {
                assert(c.wire().len() <= p0 - pos);
                if c.wire().len() == p0 - pos {
                    assert(c.wire() =~= s@.subrange(pos as int, p0 as int));
                }
            }
            Ok((c, p0))
        },
        0x01 | 0x03 | 0x05 | 0x09 | 0x10 | 0x54 => {
            let (t, p1) = scene_text(s, p0)?;
            let (v, p2) = scene_value(s, p1)?;
            let c = match tag {
                0x01 => GrpCmd::Load(t, v),
                0x03 => GrpCmd::Load2(t, v),
                0x05 => GrpCmd::Load3(t, v),
                0x09 => GrpCmd::LoadToBuf(t, v),
                0x10 => GrpCmd::LoadToBuf2(t, v),
                _ => GrpCmd::LoadToBuf3(t, v),
            };
            proof {
                assert(s@.subrange(pos as int, p0 as int) + s@.subrange(p0 as int, p1 as int)
                    == s@.subrange(pos as int, p1 as int));
                assert(s@.subrange(pos as int, p1 as int) + s@.subrange(p1 as int, p2 as int)
                    == s@.subrange(pos as int, p2 as int));
                assert(c.wire().len() <= p2 - pos);
                if c.wire().len() == p2 - pos {
                    assert(c.wire() =~= s@.subrange(pos as int, p2 as int));
                }
            }
            Ok((c, p2))
        },
        0x02 | 0x04 | 0x06 => {
            let (e, p1) = grp_effect(s, p0)?;
            let c = match tag {
                0x02 => GrpCmd::LoadEffect(e),
                0x04 => GrpCmd::LoadEffect2(e),
                _ => GrpCmd::LoadEffect3(e),
            };
            proof {
                assert(s@.subrange(pos as int, p0 as int) + s@.subrange(p0 as int, p1 as int)
                    == s@.subrange(pos as int, p1 as int));
                assert(c.wire().len() <= p1 - pos);
                if c.wire().len() == p1 - pos {
                    assert(c.wire() =~= s@.subrange(pos as int, p1 as int));
                }
            }
            Ok((c, p1))
        },
        0x11 => {
            let (t, p1) = scene_text(s, p0)?;
            let c = GrpCmd::LoadCaching(t);
            proof {
                assert(s@.subrange(pos as int, p0 as int) + s@.subrange(p0 as int, p1 as int)
                    == s@.subrange(pos as int, p1 as int));
                assert(c.wire().len() <= p1 - pos);
                if c.wire().len() == p1 - pos {
                    assert(c.wire() =~= s@.subrange(pos as int, p1 as int));
                }
            }
            Ok((c, p1))
        },
        0x22 => {
            let (cm, p1) = grp_composite(s, p0)?;
            let c = GrpCmd::LoadComposite(cm);
            proof {
                assert(s@.subrange(pos as int, p0 as int) + s@.subrange(p0 as int, p1 as int)
                    == s@.subrange(pos as int, p1 as int));
                assert(c.wire().len() <= p1 - pos);
                if c.wire().len() == p1 - pos {
                    assert(c.wire() =~= s@.subrange(pos as int, p1 as int));
                }
            }
            Ok((c, p1))
        },
        0x24 => {
            let (cm, p1) = grp_composite_indexed(s, p0)?;
            let c = GrpCmd::LoadCompositeIndexed(cm);
            proof {
                assert(s@.subrange(pos as int, p0 as int) + s@.subrange(p0 as int, p1 as int)
                    == s@.subrange(pos as int, p1 as int));
                assert(c.wire().len() <= p1 - pos);
                if c.wire().len() == p1 - pos {
                    assert(c.wire() =~= s@.subrange(pos as int, p1 as int));
                }
            }
            Ok((c, p1))
        },
        0x31 | 0x32 | 0x33 | 0x52 => {
            let (v, p1) = scene_value(s, p0)?;
            let c = match tag {
                0x31 => GrpCmd::MacroBufferDelete(v),
                0x32 => GrpCmd::MacroBufferRead(v),
                0x33 => GrpCmd::MacroBufferSet(v),
                _ => GrpCmd::BackupScreenDisplay(v),
            };
            proof {
                assert(s@.subrange(pos as int, p0 as int) + s@.subrange(p0 as int, p1 as int)
                    == s@.subrange(pos as int, p1 as int));
                assert(c.wire().len() <= p1 - pos);
                if c.wire().len() == p1 - pos {
                    assert(c.wire() =~= s@.subrange(pos as int, p1 as int));
                }
            }
            Ok((c, p1))
        },
        _ => Err(CodecError::UnknownSubcommand(0x0b, tag)),
    }
}

} // verus!
