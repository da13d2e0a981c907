//! Buffer-region and whole-buffer graphics operations (family tags `0x64`
//! and `0x67`): rectangle fills, fades, blits and text-plane copies, two of
//! them with version-gated trailing flags.
use vstd::prelude::*;
use crate::codec::{CodecError, Writeable, read_u8, sys_version_geq, lemma_subrange_glue};
use crate::val::{Val, val_wire, scene_value};

verus! {

broadcast use lemma_subrange_glue;

/// A source rectangle with a color.
#[derive(Debug, PartialEq, Eq, Clone)]
pub struct BRGRectColor {
    pub srcx1: Val,
    pub srcy1: Val,
    pub srcx2: Val,
    pub srcy2: Val,
    pub srcpdt: Val,
    pub r: Val,
    pub g: Val,
    pub b: Val,
}

impl Writeable for BRGRectColor {
    open spec fn wire(&self) -> Seq<u8> {
        val_wire(self.srcx1) + val_wire(self.srcy1) + val_wire(self.srcx2) + val_wire(self.srcy2) + val_wire(self.srcpdt) + val_wire(self.r) + val_wire(self.g) + val_wire(self.b)
    }

    open spec fn wf(&self) -> bool {
        true
    }

    open spec fn compiled(&self) -> bool {
        true
    }

    fn byte_size(&self) -> (r: usize) {
        self.srcx1.byte_size() + self.srcy1.byte_size() + self.srcx2.byte_size() + self.srcy2.byte_size() + self.srcpdt.byte_size() + self.r.byte_size() + self.g.byte_size() + self.b.byte_size()
    }

    fn write(&self, out: &mut Vec<u8>) -> (r: Result<(), CodecError>) {
        self.srcx1.write(out)?;
        self.srcy1.write(out)?;
        self.srcx2.write(out)?;
        self.srcy2.write(out)?;
        self.srcpdt.write(out)?;
        self.r.write(out)?;
        self.g.write(out)?;
        self.b.write(out)?;
        assert(out@ =~= old(out)@ + self.wire());
        Ok(())
    }
}

/// Parse a colored rectangle.
pub fn brg_rect_color(s: &[u8], pos: usize) -> (r: Result<(BRGRectColor, usize), CodecError>)
    requires
        pos <= s@.len(),
    ensures
        r matches Ok((v, end)) ==> pos < end <= s@.len() && v.wf()
            && v.wire().len() <= end - pos
            && (v.wire().len() == end - pos ==> v.wire() == s@.subrange(pos as int, end as int)),
        r matches Err(e) ==> crate::codec::parse_error(e),
{
    let (srcx1, p1) = scene_value(s, pos)?;
    let (srcy1, p2) = scene_value(s, p1)?;
    let (srcx2, p3) = scene_value(s, p2)?;
    let (srcy2, p4) = scene_value(s, p3)?;
    let (srcpdt, p5) = scene_value(s, p4)?;
    let (r, p6) = scene_value(s, p5)?;
    let (g, p7) = scene_value(s, p6)?;
    let (b, p8) = scene_value(s, p7)?;
    let v = BRGRectColor { srcx1, srcy1, srcx2, srcy2, srcpdt, r, g, b };
    proof {
        assert(s@.subrange(pos as int, p1 as int) + s@.subrange(p1 as int, p2 as int)
            == s@.subrange(pos as int, p2 as int));
        assert(s@.subrange(pos as int, p2 as int) + s@.subrange(p2 as int, p3 as int)
            == s@.subrange(pos as int, p3 as int));
        assert(s@.subrange(pos as int, p3 as int) + s@.subrange(p3 as int, p4 as int)
            == s@.subrange(pos as int, p4 as int));
        assert(s@.subrange(pos as int, p4 as int) + s@.subrange(p4 as int, p5 as int)
            == s@.subrange(pos as int, p5 as int));
        assert(s@.subrange(pos as int, p5 as int) + s@.subrange(p5 as int, p6 as int)
            == s@.subrange(pos as int, p6 as int));
        assert(s@.subrange(pos as int, p6 as int) + s@.subrange(p6 as int, p7 as int)
            == s@.subrange(pos as int, p7 as int));
        assert(s@.subrange(pos as int, p7 as int) + s@.subrange(p7 as int, p8 as int)
            == s@.subrange(pos as int, p8 as int));
        assert(v.wire().len() <= p8 - pos);
        if v.wire().len() == p8 - pos {
            assert(v.wire() =~= s@.subrange(pos as int, p8 as int));
        }
    }
    Ok((v, p8))
}

/// A source rectangle.
#[derive(Debug, PartialEq, Eq, Clone)]
pub struct BRGRect {
    pub srcx1: Val,
    pub srcy1: Val,
    pub srcx2: Val,
    pub srcy2: Val,
    pub srcpdt: Val,
}

impl Writeable for BRGRect {
    open spec fn wire(&self) -> Seq<u8> {
        val_wire(self.srcx1) + val_wire(self.srcy1) + val_wire(self.srcx2) + val_wire(self.srcy2) + val_wire(self.srcpdt)
    }

    open spec fn wf(&self) -> bool {
        true
    }

    open spec fn compiled(&self) -> bool {
        true
    }

    fn byte_size(&self) -> (r: usize) {
        self.srcx1.byte_size() + self.srcy1.byte_size() + self.srcx2.byte_size() + self.srcy2.byte_size() + self.srcpdt.byte_size()
    }

    fn write(&self, out: &mut Vec<u8>) -> (r: Result<(), CodecError>) {
        self.srcx1.write(out)?;
        self.srcy1.write(out)?;
        self.srcx2.write(out)?;
        self.srcy2.write(out)?;
        self.srcpdt.write(out)?;
        assert(out@ =~= old(out)@ + self.wire());
        Ok(())
    }
}

/// Parse a rectangle.
pub fn brg_rect(s: &[u8], pos: usize) -> (r: Result<(BRGRect, usize), CodecError>)
    requires
        pos <= s@.len(),
    ensures
        r matches Ok((v, end)) ==> pos < end <= s@.len() && v.wf()
            && v.wire().len() <= end - pos
            && (v.wire().len() == end - pos ==> v.wire() == s@.subrange(pos as int, end as int)),
        r matches Err(e) ==> crate::codec::parse_error(e),
{
    let (srcx1, p1) = scene_value(s, pos)?;
    let (srcy1, p2) = scene_value(s, p1)?;
    let (srcx2, p3) = scene_value(s, p2)?;
    let (srcy2, p4) = scene_value(s, p3)?;
    let (srcpdt, p5) = scene_value(s, p4)?;
    let v = BRGRect { srcx1, srcy1, srcx2, srcy2, srcpdt };
    proof {
        assert(s@.subrange(pos as int, p1 as int) + s@.subrange(p1 as int, p2 as int)
            == s@.subrange(pos as int, p2 as int));
        assert(s@.subrange(pos as int, p2 as int) + s@.subrange(p2 as int, p3 as int)
            == s@.subrange(pos as int, p3 as int));
        assert(s@.subrange(pos as int, p3 as int) + s@.subrange(p3 as int, p4 as int)
            == s@.subrange(pos as int, p4 as int));
        assert(s@.subrange(pos as int, p4 as int) + s@.subrange(p4 as int, p5 as int)
            == s@.subrange(pos as int, p5 as int));
        assert(v.wire().len() <= p5 - pos);
        if v.wire().len() == p5 - pos {
            assert(v.wire() =~= s@.subrange(pos as int, p5 as int));
        }
    }
    Ok((v, p5))
}

/// A rectangle fading to a color over a step count.
#[derive(Debug, PartialEq, Eq, Clone)]
pub struct BRGFadeOutColor {
    pub srcx1: Val,
    pub srcy1: Val,
    pub srcx2: Val,
    pub srcy2: Val,
    pub srcpdt: Val,
    pub r: Val,
    pub g: Val,
    pub b: Val,
    pub count: Val,
}

impl Writeable for BRGFadeOutColor {
    open spec fn wire(&self) -> Seq<u8> {
        val_wire(self.srcx1) + val_wire(self.srcy1) + val_wire(self.srcx2) + val_wire(self.srcy2) + val_wire(self.srcpdt) + val_wire(self.r) + val_wire(self.g) + val_wire(self.b) + val_wire(self.count)
    }

    open spec fn wf(&self) -> bool {
        true
    }

    open spec fn compiled(&self) -> bool {
        true
    }

    fn byte_size(&self) -> (r: usize) {
        self.srcx1.byte_size() + self.srcy1.byte_size() + self.srcx2.byte_size() + self.srcy2.byte_size() + self.srcpdt.byte_size() + self.r.byte_size() + self.g.byte_size() + self.b.byte_size() + self.count.byte_size()
    }

    fn write(&self, out: &mut Vec<u8>) -> (r: Result<(), CodecError>) {
        self.srcx1.write(out)?;
        self.srcy1.write(out)?;
        self.srcx2.write(out)?;
        self.srcy2.write(out)?;
        self.srcpdt.write(out)?;
        self.r.write(out)?;
        self.g.write(out)?;
        self.b.write(out)?;
        self.count.write(out)?;
        assert(out@ =~= old(out)@ + self.wire());
        Ok(())
    }
}

/// Parse a fade-to-color rectangle.
pub fn brg_fade_out_color(s: &[u8], pos: usize) -> (r: Result<(BRGFadeOutColor, usize), CodecError>)
    requires
        pos <= s@.len(),
    ensures
        r matches Ok((v, end)) ==> pos < end <= s@.len() && v.wf()
            && v.wire().len() <= end - pos
            && (v.wire().len() == end - pos ==> v.wire() == s@.subrange(pos as int, end as int)),
        r matches Err(e) ==> crate::codec::parse_error(e),
{
    let (srcx1, p1) = scene_value(s, pos)?;
    let (srcy1, p2) = scene_value(s, p1)?;
    let (srcx2, p3) = scene_value(s, p2)?;
    let (srcy2, p4) = scene_value(s, p3)?;
    let (srcpdt, p5) = scene_value(s, p4)?;
    let (r, p6) = scene_value(s, p5)?;
    let (g, p7) = scene_value(s, p6)?;
    let (b, p8) = scene_value(s, p7)?;
    let (count, p9) = scene_value(s, p8)?;
    let v = BRGFadeOutColor { srcx1, srcy1, srcx2, srcy2, srcpdt, r, g, b, count };
    proof {
        assert(s@.subrange(pos as int, p1 as int) + s@.subrange(p1 as int, p2 as int)
            == s@.subrange(pos as int, p2 as int));
        assert(s@.subrange(pos as int, p2 as int) + s@.subrange(p2 as int, p3 as int)
            == s@.subrange(pos as int, p3 as int));
        assert(s@.subrange(pos as int, p3 as int) + s@.subrange(p3 as int, p4 as int)
            == s@.subrange(pos as int, p4 as int));
        assert(s@.subrange(pos as int, p4 as int) + s@.subrange(p4 as int, p5 as int)
            == s@.subrange(pos as int, p5 as int));
        assert(s@.subrange(pos as int, p5 as int) + s@.subrange(p5 as int, p6 as int)
            == s@.subrange(pos as int, p6 as int));
        assert(s@.subrange(pos as int, p6 as int) + s@.subrange(p6 as int, p7 as int)
            == s@.subrange(pos as int, p7 as int));
        assert(s@.subrange(pos as int, p7 as int) + s@.subrange(p7 as int, p8 as int)
            == s@.subrange(pos as int, p8 as int));
        assert(s@.subrange(pos as int, p8 as int) + s@.subrange(p8 as int, p9 as int)
            == s@.subrange(pos as int, p9 as int));
        assert(v.wire().len() <= p9 - pos);
        if v.wire().len() == p9 - pos {
            assert(v.wire() =~= s@.subrange(pos as int, p9 as int));
        }
    }
    Ok((v, p9))
}

/// A stretch blit between two rectangles.
#[derive(Debug, PartialEq, Eq, Clone)]
pub struct BRGStretchBlit {
    pub srcx1: Val,
    pub srcy1: Val,
    pub srcx2: Val,
    pub srcy2: Val,
    pub srcpdt: Val,
    pub dstx1: Val,
    pub dsty1: Val,
    pub dstx2: Val,
    pub dsty2: Val,
    pub dstpdt: Val,
}

impl Writeable for BRGStretchBlit {
    open spec fn wire(&self) -> Seq<u8> {
        val_wire(self.srcx1) + val_wire(self.srcy1) + val_wire(self.srcx2) + val_wire(self.srcy2) + val_wire(self.srcpdt) + val_wire(self.dstx1) + val_wire(self.dsty1) + val_wire(self.dstx2) + val_wire(self.dsty2) + val_wire(self.dstpdt)
    }

    open spec fn wf(&self) -> bool {
        true
    }

    open spec fn compiled(&self) -> bool {
        true
    }

    fn byte_size(&self) -> (r: usize) {
        self.srcx1.byte_size() + self.srcy1.byte_size() + self.srcx2.byte_size() + self.srcy2.byte_size() + self.srcpdt.byte_size() + self.dstx1.byte_size() + self.dsty1.byte_size() + self.dstx2.byte_size() + self.dsty2.byte_size() + self.dstpdt.byte_size()
    }

    fn write(&self, out: &mut Vec<u8>) -> (r: Result<(), CodecError>) {
        self.srcx1.write(out)?;
        self.srcy1.write(out)?;
        self.srcx2.write(out)?;
        self.srcy2.write(out)?;
        self.srcpdt.write(out)?;
        self.dstx1.write(out)?;
        self.dsty1.write(out)?;
        self.dstx2.write(out)?;
        self.dsty2.write(out)?;
        self.dstpdt.write(out)?;
        assert(out@ =~= old(out)@ + self.wire());
        Ok(())
    }
}

/// Parse a stretch blit.
pub fn brg_stretch_blit(s: &[u8], pos: usize) -> (r: Result<(BRGStretchBlit, usize), CodecError>)
    requires
        pos <= s@.len(),
    ensures
        r matches Ok((v, end)) ==> pos < end <= s@.len() && v.wf()
            && v.wire().len() <= end - pos
            && (v.wire().len() == end - pos ==> v.wire() == s@.subrange(pos as int, end as int)),
        r matches Err(e) ==> crate::codec::parse_error(e),
{
    let (srcx1, p1) = scene_value(s, pos)?;
    let (srcy1, p2) = scene_value(s, p1)?;
    let (srcx2, p3) = scene_value(s, p2)?;
    let (srcy2, p4) = scene_value(s, p3)?;
    let (srcpdt, p5) = scene_value(s, p4)?;
    let (dstx1, p6) = scene_value(s, p5)?;
    let (dsty1, p7) = scene_value(s, p6)?;
    let (dstx2, p8) = scene_value(s, p7)?;
    let (dsty2, p9) = scene_value(s, p8)?;
    let (dstpdt, p10) = scene_value(s, p9)?;
    let v = BRGStretchBlit { srcx1, srcy1, srcx2, srcy2, srcpdt, dstx1, dsty1, dstx2, dsty2, dstpdt };
    proof {
        assert(s@.subrange(pos as int, p1 as int) + s@.subrange(p1 as int, p2 as int)
            == s@.subrange(pos as int, p2 as int));
        assert(s@.subrange(pos as int, p2 as int) + s@.subrange(p2 as int, p3 as int)
            == s@.subrange(pos as int, p3 as int));
        assert(s@.subrange(pos as int, p3 as int) + s@.subrange(p3 as int, p4 as int)
            == s@.subrange(pos as int, p4 as int));
        assert(s@.subrange(pos as int, p4 as int) + s@.subrange(p4 as int, p5 as int)
            == s@.subrange(pos as int, p5 as int));
        assert(s@.subrange(pos as int, p5 as int) + s@.subrange(p5 as int, p6 as int)
            == s@.subrange(pos as int, p6 as int));
        assert(s@.subrange(pos as int, p6 as int) + s@.subrange(p6 as int, p7 as int)
            == s@.subrange(pos as int, p7 as int));
        assert(s@.subrange(pos as int, p7 as int) + s@.subrange(p7 as int, p8 as int)
            == s@.subrange(pos as int, p8 as int));
        assert(s@.subrange(pos as int, p8 as int) + s@.subrange(p8 as int, p9 as int)
            == s@.subrange(pos as int, p9 as int));
        assert(s@.subrange(pos as int, p9 as int) + s@.subrange(p9 as int, p10 as int)
            == s@.subrange(pos as int, p10 as int));
        assert(v.wire().len() <= p10 - pos);
        if v.wire().len() == p10 - pos {
            assert(v.wire() =~= s@.subrange(pos as int, p10 as int));
        }
    }
    Ok((v, p10))
}

/// An animated stretch blit.
#[derive(Debug, PartialEq, Eq, Clone)]
pub struct BRGStretchBlitEffect {
    pub sx1: Val,
    pub sy1: Val,
    pub sx2: Val,
    pub sy2: Val,
    pub ex1: Val,
    pub ey1: Val,
    pub ex2: Val,
    pub ey2: Val,
    pub srcpdt: Val,
    pub dx1: Val,
    pub dy1: Val,
    pub dx2: Val,
    pub dy2: Val,
    pub dstpdt: Val,
    pub step: Val,
    pub steptime: Val,
}

impl Writeable for BRGStretchBlitEffect {
    open spec fn wire(&self) -> Seq<u8> {
        val_wire(self.sx1) + val_wire(self.sy1) + val_wire(self.sx2) + val_wire(self.sy2) + val_wire(self.ex1) + val_wire(self.ey1) + val_wire(self.ex2) + val_wire(self.ey2) + val_wire(self.srcpdt) + val_wire(self.dx1) + val_wire(self.dy1) + val_wire(self.dx2) + val_wire(self.dy2) + val_wire(self.dstpdt) + val_wire(self.step) + val_wire(self.steptime)
    }

    open spec fn wf(&self) -> bool {
        true
    }

    open spec fn compiled(&self) -> bool {
        true
    }

    fn byte_size(&self) -> (r: usize) {
        self.sx1.byte_size() + self.sy1.byte_size() + self.sx2.byte_size() + self.sy2.byte_size() + self.ex1.byte_size() + self.ey1.byte_size() + self.ex2.byte_size() + self.ey2.byte_size() + self.srcpdt.byte_size() + self.dx1.byte_size() + self.dy1.byte_size() + self.dx2.byte_size() + self.dy2.byte_size() + self.dstpdt.byte_size() + self.step.byte_size() + self.steptime.byte_size()
    }

    fn write(&self, out: &mut Vec<u8>) -> (r: Result<(), CodecError>) {
        self.sx1.write(out)?;
        self.sy1.write(out)?;
        self.sx2.write(out)?;
        self.sy2.write(out)?;
        self.ex1.write(out)?;
        self.ey1.write(out)?;
        self.ex2.write(out)?;
        self.ey2.write(out)?;
        self.srcpdt.write(out)?;
        self.dx1.write(out)?;
        self.dy1.write(out)?;
        self.dx2.write(out)?;
        self.dy2.write(out)?;
        self.dstpdt.write(out)?;
        self.step.write(out)?;
        self.steptime.write(out)?;
        assert(out@ =~= old(out)@ + self.wire());
        Ok(())
    }
}

/// Parse an animated stretch blit.
pub fn brg_stretch_blit_effect(s: &[u8], pos: usize) -> (r: Result<(BRGStretchBlitEffect, usize), CodecError>)
    requires
        pos <= s@.len(),
    ensures
        r matches Ok((v, end)) ==> pos < end <= s@.len() && v.wf()
            && v.wire().len() <= end - pos
            && (v.wire().len() == end - pos ==> v.wire() == s@.subrange(pos as int, end as int)),
        r matches Err(e) ==> crate::codec::parse_error(e),
{
    let (sx1, p1) = scene_value(s, pos)?;
    let (sy1, p2) = scene_value(s, p1)?;
    let (sx2, p3) = scene_value(s, p2)?;
    let (sy2, p4) = scene_value(s, p3)?;
    let (ex1, p5) = scene_value(s, p4)?;
    let (ey1, p6) = scene_value(s, p5)?;
    let (ex2, p7) = scene_value(s, p6)?;
    let (ey2, p8) = scene_value(s, p7)?;
    let (srcpdt, p9) = scene_value(s, p8)?;
    let (dx1, p10) = scene_value(s, p9)?;
    let (dy1, p11) = scene_value(s, p10)?;
    let (dx2, p12) = scene_value(s, p11)?;
    let (dy2, p13) = scene_value(s, p12)?;
    let (dstpdt, p14) = scene_value(s, p13)?;
    let (step, p15) = scene_value(s, p14)?;
    let (steptime, p16) = scene_value(s, p15)?;
    let v = BRGStretchBlitEffect { sx1, sy1, sx2, sy2, ex1, ey1, ex2, ey2, srcpdt, dx1, dy1, dx2, dy2, dstpdt, step, steptime };
    proof {
        assert(s@.subrange(pos as int, p1 as int) + s@.subrange(p1 as int, p2 as int)
            == s@.subrange(pos as int, p2 as int));
        assert(s@.subrange(pos as int, p2 as int) + s@.subrange(p2 as int, p3 as int)
            == s@.subrange(pos as int, p3 as int));
        assert(s@.subrange(pos as int, p3 as int) + s@.subrange(p3 as int, p4 as int)
            == s@.subrange(pos as int, p4 as int));
        assert(s@.subrange(pos as int, p4 as int) + s@.subrange(p4 as int, p5 as int)
            == s@.subrange(pos as int, p5 as int));
        assert(s@.subrange(pos as int, p5 as int) + s@.subrange(p5 as int, p6 as int)
            == s@.subrange(pos as int, p6 as int));
        assert(s@.subrange(pos as int, p6 as int) + s@.subrange(p6 as int, p7 as int)
            == s@.subrange(pos as int, p7 as int));
        assert(s@.subrange(pos as int, p7 as int) + s@.subrange(p7 as int, p8 as int)
            == s@.subrange(pos as int, p8 as int));
        assert(s@.subrange(pos as int, p8 as int) + s@.subrange(p8 as int, p9 as int)
            == s@.subrange(pos as int, p9 as int));
        assert(s@.subrange(pos as int, p9 as int) + s@.subrange(p9 as int, p10 as int)
            == s@.subrange(pos as int, p10 as int));
        assert(s@.subrange(pos as int, p10 as int) + s@.subrange(p10 as int, p11 as int)
            == s@.subrange(pos as int, p11 as int));
        assert(s@.subrange(pos as int, p11 as int) + s@.subrange(p11 as int, p12 as int)
            == s@.subrange(pos as int, p12 as int));
        assert(s@.subrange(pos as int, p12 as int) + s@.subrange(p12 as int, p13 as int)
            == s@.subrange(pos as int, p13 as int));
        assert(s@.subrange(pos as int, p13 as int) + s@.subrange(p13 as int, p14 as int)
            == s@.subrange(pos as int, p14 as int));
        assert(s@.subrange(pos as int, p14 as int) + s@.subrange(p14 as int, p15 as int)
            == s@.subrange(pos as int, p15 as int));
        assert(s@.subrange(pos as int, p15 as int) + s@.subrange(p15 as int, p16 as int)
            == s@.subrange(pos as int, p16 as int));
        assert(v.wire().len() <= p16 - pos);
        if v.wire().len() == p16 - pos {
            assert(v.wire() =~= s@.subrange(pos as int, p16 as int));
        }
    }
    Ok((v, p16))
}

/// A copy between buffers at the same position.
#[derive(Debug, PartialEq, Eq, Clone)]
pub struct BGCopySamePos {
    pub srcx1: Val,
    pub srcy1: Val,
    pub srcx2: Val,
    pub srcy2: Val,
    pub srcpdt: Val,
    pub flag: Val,
}

impl Writeable for BGCopySamePos {
    open spec fn wire(&self) -> Seq<u8> {
        val_wire(self.srcx1) + val_wire(self.srcy1) + val_wire(self.srcx2) + val_wire(self.srcy2) + val_wire(self.srcpdt) + val_wire(self.flag)
    }

    open spec fn wf(&self) -> bool {
        true
    }

    open spec fn compiled(&self) -> bool {
        true
    }

    fn byte_size(&self) -> (r: usize) {
        self.srcx1.byte_size() + self.srcy1.byte_size() + self.srcx2.byte_size() + self.srcy2.byte_size() + self.srcpdt.byte_size() + self.flag.byte_size()
    }

    fn write(&self, out: &mut Vec<u8>) -> (r: Result<(), CodecError>) {
        self.srcx1.write(out)?;
        self.srcy1.write(out)?;
        self.srcx2.write(out)?;
        self.srcy2.write(out)?;
        self.srcpdt.write(out)?;
        self.flag.write(out)?;
        assert(out@ =~= old(out)@ + self.wire());
        Ok(())
    }
}

/// Parse a same-position copy.
pub fn bg_copy_same_pos(s: &[u8], pos: usize) -> (r: Result<(BGCopySamePos, usize), CodecError>)
    requires
        pos <= s@.len(),
    ensures
        r matches Ok((v, end)) ==> pos < end <= s@.len() && v.wf()
            && v.wire().len() <= end - pos
            && (v.wire().len() == end - pos ==> v.wire() == s@.subrange(pos as int, end as int)),
        r matches Err(e) ==> crate::codec::parse_error(e),
{
    let (srcx1, p1) = scene_value(s, pos)?;
    let (srcy1, p2) = scene_value(s, p1)?;
    let (srcx2, p3) = scene_value(s, p2)?;
    let (srcy2, p4) = scene_value(s, p3)?;
    let (srcpdt, p5) = scene_value(s, p4)?;
    let (flag, p6) = scene_value(s, p5)?;
    let v = BGCopySamePos { srcx1, srcy1, srcx2, srcy2, srcpdt, flag };
    proof {
        assert(s@.subrange(pos as int, p1 as int) + s@.subrange(p1 as int, p2 as int)
            == s@.subrange(pos as int, p2 as int));
        assert(s@.subrange(pos as int, p2 as int) + s@.subrange(p2 as int, p3 as int)
            == s@.subrange(pos as int, p3 as int));
        assert(s@.subrange(pos as int, p3 as int) + s@.subrange(p3 as int, p4 as int)
            == s@.subrange(pos as int, p4 as int));
        assert(s@.subrange(pos as int, p4 as int) + s@.subrange(p4 as int, p5 as int)
            == s@.subrange(pos as int, p5 as int));
        assert(s@.subrange(pos as int, p5 as int) + s@.subrange(p5 as int, p6 as int)
            == s@.subrange(pos as int, p6 as int));
        assert(v.wire().len() <= p6 - pos);
        if v.wire().len() == p6 - pos {
            assert(v.wire() =~= s@.subrange(pos as int, p6 as int));
        }
    }
    Ok((v, p6))
}

/// A copy to a new position; later interpreter generations append a flag.
#[derive(Debug, PartialEq, Eq, Clone)]
pub struct BGCopyNewPos {
    pub srcx1: Val,
    pub srcy1: Val,
    pub srcx2: Val,
    pub srcy2: Val,
    pub srcpdt: Val,
    pub dstx1: Val,
    pub dsty1: Val,
    pub dstpdt: Val,
    pub flag: Option<Val>,
}

impl Writeable for BGCopyNewPos {
    open spec fn wire(&self) -> Seq<u8> {
        val_wire(self.srcx1) + val_wire(self.srcy1) + val_wire(self.srcx2) + val_wire(self.srcy2) + val_wire(self.srcpdt) + val_wire(self.dstx1) + val_wire(self.dsty1) + val_wire(self.dstpdt) + self.flag.wire()
    }

    open spec fn wf(&self) -> bool {
        true
    }

    open spec fn compiled(&self) -> bool {
        true
    }

    fn byte_size(&self) -> (r: usize) {
        self.srcx1.byte_size() + self.srcy1.byte_size() + self.srcx2.byte_size() + self.srcy2.byte_size() + self.srcpdt.byte_size() + self.dstx1.byte_size() + self.dsty1.byte_size() + self.dstpdt.byte_size() + self.flag.byte_size()
    }

    fn write(&self, out: &mut Vec<u8>) -> (r: Result<(), CodecError>) {
        self.srcx1.write(out)?;
        self.srcy1.write(out)?;
        self.srcx2.write(out)?;
        self.srcy2.write(out)?;
        self.srcpdt.write(out)?;
        self.dstx1.write(out)?;
        self.dsty1.write(out)?;
        self.dstpdt.write(out)?;
        self.flag.write(out)?;
        assert(out@ =~= old(out)@ + self.wire());
        Ok(())
    }
}

/// Parse a repositioned copy; the trailing flag exists from generation 1704 on.
pub fn bg_copy_new_pos(s: &[u8], pos: usize) -> (r: Result<(BGCopyNewPos, usize), CodecError>)
    requires
        pos <= s@.len(),
    ensures
        r matches Ok((v, end)) ==> pos < end <= s@.len() && v.wf()
            && v.wire().len() <= end - pos
            && (v.wire().len() == end - pos ==> v.wire() == s@.subrange(pos as int, end as int)),
        r matches Err(e) ==> crate::codec::parse_error(e),
{
    let (srcx1, p1) = scene_value(s, pos)?;
    let (srcy1, p2) = scene_value(s, p1)?;
    let (srcx2, p3) = scene_value(s, p2)?;
    let (srcy2, p4) = scene_value(s, p3)?;
    let (srcpdt, p5) = scene_value(s, p4)?;
    let (dstx1, p6) = scene_value(s, p5)?;
    let (dsty1, p7) = scene_value(s, p6)?;
    let (dstpdt, p8) = scene_value(s, p7)?;
    let (flag, p9): (Option<Val>, usize) = if sys_version_geq(1704) {
        let (fv, q) = scene_value(s, p8)?;
        (Some(fv), q)
    } else {
        (None, p8)
    };
    let v = BGCopyNewPos { srcx1, srcy1, srcx2, srcy2, srcpdt, dstx1, dsty1, dstpdt, flag };
    proof {
        assert(s@.subrange(pos as int, p1 as int) + s@.subrange(p1 as int, p2 as int)
            == s@.subrange(pos as int, p2 as int));
        assert(s@.subrange(pos as int, p2 as int) + s@.subrange(p2 as int, p3 as int)
            == s@.subrange(pos as int, p3 as int));
        assert(s@.subrange(pos as int, p3 as int) + s@.subrange(p3 as int, p4 as int)
            == s@.subrange(pos as int, p4 as int));
        assert(s@.subrange(pos as int, p4 as int) + s@.subrange(p4 as int, p5 as int)
            == s@.subrange(pos as int, p5 as int));
        assert(s@.subrange(pos as int, p5 as int) + s@.subrange(p5 as int, p6 as int)
            == s@.subrange(pos as int, p6 as int));
        assert(s@.subrange(pos as int, p6 as int) + s@.subrange(p6 as int, p7 as int)
            == s@.subrange(pos as int, p7 as int));
        assert(s@.subrange(pos as int, p7 as int) + s@.subrange(p7 as int, p8 as int)
            == s@.subrange(pos as int, p8 as int));
        assert(s@.subrange(pos as int, p8 as int) + s@.subrange(p8 as int, p9 as int)
            == s@.subrange(pos as int, p9 as int));
        assert(v.wire().len() <= p9 - pos);
        if v.wire().len() == p9 - pos {
            assert(v.wire() =~= s@.subrange(pos as int, p9 as int));
        }
    }
    Ok((v, p9))
}

/// Parse a masked repositioned copy; the trailing flag exists from generation 1613 on.
pub fn bg_copy_new_pos_mask(s: &[u8], pos: usize) -> (r: Result<(BGCopyNewPos, usize), CodecError>)
    requires
        pos <= s@.len(),
    ensures
        r matches Ok((v, end)) ==> pos < end <= s@.len() && v.wf()
            && v.wire().len() <= end - pos
            && (v.wire().len() == end - pos ==> v.wire() == s@.subrange(pos as int, end as int)),
        r matches Err(e) ==> crate::codec::parse_error(e),
{
    let (srcx1, p1) = scene_value(s, pos)?;
    let (srcy1, p2) = scene_value(s, p1)?;
    let (srcx2, p3) = scene_value(s, p2)?;
    let (srcy2, p4) = scene_value(s, p3)?;
    let (srcpdt, p5) = scene_value(s, p4)?;
    let (dstx1, p6) = scene_value(s, p5)?;
    let (dsty1, p7) = scene_value(s, p6)?;
    let (dstpdt, p8) = scene_value(s, p7)?;
    let (flag, p9): (Option<Val>, usize) = if sys_version_geq(1613) {
        let (fv, q) = scene_value(s, p8)?;
        (Some(fv), q)
    } else {
        (None, p8)
    };
    let v = BGCopyNewPos { srcx1, srcy1, srcx2, srcy2, srcpdt, dstx1, dsty1, dstpdt, flag };
    proof {
        assert(s@.subrange(pos as int, p1 as int) + s@.subrange(p1 as int, p2 as int)
            == s@.subrange(pos as int, p2 as int));
        assert(s@.subrange(pos as int, p2 as int) + s@.subrange(p2 as int, p3 as int)
            == s@.subrange(pos as int, p3 as int));
        assert(s@.subrange(pos as int, p3 as int) + s@.subrange(p3 as int, p4 as int)
            == s@.subrange(pos as int, p4 as int));
        assert(s@.subrange(pos as int, p4 as int) + s@.subrange(p4 as int, p5 as int)
            == s@.subrange(pos as int, p5 as int));
        assert(s@.subrange(pos as int, p5 as int) + s@.subrange(p5 as int, p6 as int)
            == s@.subrange(pos as int, p6 as int));
        assert(s@.subrange(pos as int, p6 as int) + s@.subrange(p6 as int, p7 as int)
            == s@.subrange(pos as int, p7 as int));
        assert(s@.subrange(pos as int, p7 as int) + s@.subrange(p7 as int, p8 as int)
            == s@.subrange(pos as int, p8 as int));
        assert(s@.subrange(pos as int, p8 as int) + s@.subrange(p8 as int, p9 as int)
            == s@.subrange(pos as int, p9 as int));
        assert(v.wire().len() <= p9 - pos);
        if v.wire().len() == p9 - pos {
            assert(v.wire() =~= s@.subrange(pos as int, p9 as int));
        }
    }
    Ok((v, p9))
}

/// A copy blended with a color.
#[derive(Debug, PartialEq, Eq, Clone)]
pub struct BGCopyColor {
    pub srcx1: Val,
    pub srcy1: Val,
    pub srcx2: Val,
    pub srcy2: Val,
    pub srcpdt: Val,
    pub dstx1: Val,
    pub dsty1: Val,
    pub dstpdt: Val,
    pub r: Val,
    pub g: Val,
    pub b: Val,
}

impl Writeable for BGCopyColor {
    open spec fn wire(&self) -> Seq<u8> {
        val_wire(self.srcx1) + val_wire(self.srcy1) + val_wire(self.srcx2) + val_wire(self.srcy2) + val_wire(self.srcpdt) + val_wire(self.dstx1) + val_wire(self.dsty1) + val_wire(self.dstpdt) + val_wire(self.r) + val_wire(self.g) + val_wire(self.b)
    }

    open spec fn wf(&self) -> bool {
        true
    }

    open spec fn compiled(&self) -> bool {
        true
    }

    fn byte_size(&self) -> (r: usize) {
        self.srcx1.byte_size() + self.srcy1.byte_size() + self.srcx2.byte_size() + self.srcy2.byte_size() + self.srcpdt.byte_size() + self.dstx1.byte_size() + self.dsty1.byte_size() + self.dstpdt.byte_size() + self.r.byte_size() + self.g.byte_size() + self.b.byte_size()
    }

    fn write(&self, out: &mut Vec<u8>) -> (r: Result<(), CodecError>) {
        self.srcx1.write(out)?;
        self.srcy1.write(out)?;
        self.srcx2.write(out)?;
        self.srcy2.write(out)?;
        self.srcpdt.write(out)?;
        self.dstx1.write(out)?;
        self.dsty1.write(out)?;
        self.dstpdt.write(out)?;
        self.r.write(out)?;
        self.g.write(out)?;
        self.b.write(out)?;
        assert(out@ =~= old(out)@ + self.wire());
        Ok(())
    }
}

/// Parse a color-blended copy.
pub fn bg_copy_color(s: &[u8], pos: usize) -> (r: Result<(BGCopyColor, usize), CodecError>)
    requires
        pos <= s@.len(),
    ensures
        r matches Ok((v, end)) ==> pos < end <= s@.len() && v.wf()
            && v.wire().len() <= end - pos
            && (v.wire().len() == end - pos ==> v.wire() == s@.subrange(pos as int, end as int)),
        r matches Err(e) ==> crate::codec::parse_error(e),
{
    let (srcx1, p1) = scene_value(s, pos)?;
    let (srcy1, p2) = scene_value(s, p1)?;
    let (srcx2, p3) = scene_value(s, p2)?;
    let (srcy2, p4) = scene_value(s, p3)?;
    let (srcpdt, p5) = scene_value(s, p4)?;
    let (dstx1, p6) = scene_value(s, p5)?;
    let (dsty1, p7) = scene_value(s, p6)?;
    let (dstpdt, p8) = scene_value(s, p7)?;
    let (r, p9) = scene_value(s, p8)?;
    let (g, p10) = scene_value(s, p9)?;
    let (b, p11) = scene_value(s, p10)?;
    let v = BGCopyColor { srcx1, srcy1, srcx2, srcy2, srcpdt, dstx1, dsty1, dstpdt, r, g, b };
    proof {
        assert(s@.subrange(pos as int, p1 as int) + s@.subrange(p1 as int, p2 as int)
            == s@.subrange(pos as int, p2 as int));
        assert(s@.subrange(pos as int, p2 as int) + s@.subrange(p2 as int, p3 as int)
            == s@.subrange(pos as int, p3 as int));
        assert(s@.subrange(pos as int, p3 as int) + s@.subrange(p3 as int, p4 as int)
            == s@.subrange(pos as int, p4 as int));
        assert(s@.subrange(pos as int, p4 as int) + s@.subrange(p4 as int, p5 as int)
            == s@.subrange(pos as int, p5 as int));
        assert(s@.subrange(pos as int, p5 as int) + s@.subrange(p5 as int, p6 as int)
            == s@.subrange(pos as int, p6 as int));
        assert(s@.subrange(pos as int, p6 as int) + s@.subrange(p6 as int, p7 as int)
            == s@.subrange(pos as int, p7 as int));
        assert(s@.subrange(pos as int, p7 as int) + s@.subrange(p7 as int, p8 as int)
            == s@.subrange(pos as int, p8 as int));
        assert(s@.subrange(pos as int, p8 as int) + s@.subrange(p8 as int, p9 as int)
            == s@.subrange(pos as int, p9 as int));
        assert(s@.subrange(pos as int, p9 as int) + s@.subrange(p9 as int, p10 as int)
            == s@.subrange(pos as int, p10 as int));
        assert(s@.subrange(pos as int, p10 as int) + s@.subrange(p10 as int, p11 as int)
            == s@.subrange(pos as int, p11 as int));
        assert(v.wire().len() <= p11 - pos);
        if v.wire().len() == p11 - pos {
            assert(v.wire() =~= s@.subrange(pos as int, p11 as int));
        }
    }
    Ok((v, p11))
}

/// A swap of two buffer regions.
#[derive(Debug, PartialEq, Eq, Clone)]
pub struct BGSwap {
    pub srcx1: Val,
    pub srcy1: Val,
    pub srcx2: Val,
    pub srcy2: Val,
    pub srcpdt: Val,
    pub dstx1: Val,
    pub dsty1: Val,
    pub dstpdt: Val,
}

impl Writeable for BGSwap {
    open spec fn wire(&self) -> Seq<u8> {
        val_wire(self.srcx1) + val_wire(self.srcy1) + val_wire(self.srcx2) + val_wire(self.srcy2) + val_wire(self.srcpdt) + val_wire(self.dstx1) + val_wire(self.dsty1) + val_wire(self.dstpdt)
    }

    open spec fn wf(&self) -> bool {
        true
    }

    open spec fn compiled(&self) -> bool {
        true
    }

    fn byte_size(&self) -> (r: usize) {
        self.srcx1.byte_size() + self.srcy1.byte_size() + self.srcx2.byte_size() + self.srcy2.byte_size() + self.srcpdt.byte_size() + self.dstx1.byte_size() + self.dsty1.byte_size() + self.dstpdt.byte_size()
    }

    fn write(&self, out: &mut Vec<u8>) -> (r: Result<(), CodecError>) {
        self.srcx1.write(out)?;
        self.srcy1.write(out)?;
        self.srcx2.write(out)?;
        self.srcy2.write(out)?;
        self.srcpdt.write(out)?;
        self.dstx1.write(out)?;
        self.dsty1.write(out)?;
        self.dstpdt.write(out)?;
        assert(out@ =~= old(out)@ + self.wire());
        Ok(())
    }
}

/// Parse a region swap.
pub fn bg_swap(s: &[u8], pos: usize) -> (r: Result<(BGSwap, usize), CodecError>)
    requires
        pos <= s@.len(),
    ensures
        r matches Ok((v, end)) ==> pos < end <= s@.len() && v.wf()
            && v.wire().len() <= end - pos
            && (v.wire().len() == end - pos ==> v.wire() == s@.subrange(pos as int, end as int)),
        r matches Err(e) ==> crate::codec::parse_error(e),
{
    let (srcx1, p1) = scene_value(s, pos)?;
    let (srcy1, p2) = scene_value(s, p1)?;
    let (srcx2, p3) = scene_value(s, p2)?;
    let (srcy2, p4) = scene_value(s, p3)?;
    let (srcpdt, p5) = scene_value(s, p4)?;
    let (dstx1, p6) = scene_value(s, p5)?;
    let (dsty1, p7) = scene_value(s, p6)?;
    let (dstpdt, p8) = scene_value(s, p7)?;
    let v = BGSwap { srcx1, srcy1, srcx2, srcy2, srcpdt, dstx1, dsty1, dstpdt };
    proof {
        assert(s@.subrange(pos as int, p1 as int) + s@.subrange(p1 as int, p2 as int)
            == s@.subrange(pos as int, p2 as int));
        assert(s@.subrange(pos as int, p2 as int) + s@.subrange(p2 as int, p3 as int)
            == s@.subrange(pos as int, p3 as int));
        assert(s@.subrange(pos as int, p3 as int) + s@.subrange(p3 as int, p4 as int)
            == s@.subrange(pos as int, p4 as int));
        assert(s@.subrange(pos as int, p4 as int) + s@.subrange(p4 as int, p5 as int)
            == s@.subrange(pos as int, p5 as int));
        assert(s@.subrange(pos as int, p5 as int) + s@.subrange(p5 as int, p6 as int)
            == s@.subrange(pos as int, p6 as int));
        assert(s@.subrange(pos as int, p6 as int) + s@.subrange(p6 as int, p7 as int)
            == s@.subrange(pos as int, p7 as int));
        assert(s@.subrange(pos as int, p7 as int) + s@.subrange(p7 as int, p8 as int)
            == s@.subrange(pos as int, p8 as int));
        assert(v.wire().len() <= p8 - pos);
        if v.wire().len() == p8 - pos {
            assert(v.wire() =~= s@.subrange(pos as int, p8 as int));
        }
    }
    Ok((v, p8))
}

/// A copy through a mask.
#[derive(Debug, PartialEq, Eq, Clone)]
pub struct BGCopyWithMask {
    pub srcx1: Val,
    pub srcy1: Val,
    pub srcx2: Val,
    pub srcy2: Val,
    pub srcpdt: Val,
    pub dstx1: Val,
    pub dsty1: Val,
    pub dstpdt: Val,
    pub flag: Val,
}

impl Writeable for BGCopyWithMask {
    open spec fn wire(&self) -> Seq<u8> {
        val_wire(self.srcx1) + val_wire(self.srcy1) + val_wire(self.srcx2) + val_wire(self.srcy2) + val_wire(self.srcpdt) + val_wire(self.dstx1) + val_wire(self.dsty1) + val_wire(self.dstpdt) + val_wire(self.flag)
    }

    open spec fn wf(&self) -> bool {
        true
    }

    open spec fn compiled(&self) -> bool {
        true
    }

    fn byte_size(&self) -> (r: usize) {
        self.srcx1.byte_size() + self.srcy1.byte_size() + self.srcx2.byte_size() + self.srcy2.byte_size() + self.srcpdt.byte_size() + self.dstx1.byte_size() + self.dsty1.byte_size() + self.dstpdt.byte_size() + self.flag.byte_size()
    }

    fn write(&self, out: &mut Vec<u8>) -> (r: Result<(), CodecError>) {
        self.srcx1.write(out)?;
        self.srcy1.write(out)?;
        self.srcx2.write(out)?;
        self.srcy2.write(out)?;
        self.srcpdt.write(out)?;
        self.dstx1.write(out)?;
        self.dsty1.write(out)?;
        self.dstpdt.write(out)?;
        self.flag.write(out)?;
        assert(out@ =~= old(out)@ + self.wire());
        Ok(())
    }
}

/// Parse a masked copy.
pub fn bg_copy_with_mask(s: &[u8], pos: usize) -> (r: Result<(BGCopyWithMask, usize), CodecError>)
    requires
        pos <= s@.len(),
    ensures
        r matches Ok((v, end)) ==> pos < end <= s@.len() && v.wf()
            && v.wire().len() <= end - pos
            && (v.wire().len() == end - pos ==> v.wire() == s@.subrange(pos as int, end as int)),
        r matches Err(e) ==> crate::codec::parse_error(e),
{
    let (srcx1, p1) = scene_value(s, pos)?;
    let (srcy1, p2) = scene_value(s, p1)?;
    let (srcx2, p3) = scene_value(s, p2)?;
    let (srcy2, p4) = scene_value(s, p3)?;
    let (srcpdt, p5) = scene_value(s, p4)?;
    let (dstx1, p6) = scene_value(s, p5)?;
    let (dsty1, p7) = scene_value(s, p6)?;
    let (dstpdt, p8) = scene_value(s, p7)?;
    let (flag, p9) = scene_value(s, p8)?;
    let v = BGCopyWithMask { srcx1, srcy1, srcx2, srcy2, srcpdt, dstx1, dsty1, dstpdt, flag };
    proof {
        assert(s@.subrange(pos as int, p1 as int) + s@.subrange(p1 as int, p2 as int)
            == s@.subrange(pos as int, p2 as int));
        assert(s@.subrange(pos as int, p2 as int) + s@.subrange(p2 as int, p3 as int)
            == s@.subrange(pos as int, p3 as int));
        assert(s@.subrange(pos as int, p3 as int) + s@.subrange(p3 as int, p4 as int)
            == s@.subrange(pos as int, p4 as int));
        assert(s@.subrange(pos as int, p4 as int) + s@.subrange(p4 as int, p5 as int)
            == s@.subrange(pos as int, p5 as int));
        assert(s@.subrange(pos as int, p5 as int) + s@.subrange(p5 as int, p6 as int)
            == s@.subrange(pos as int, p6 as int));
        assert(s@.subrange(pos as int, p6 as int) + s@.subrange(p6 as int, p7 as int)
            == s@.subrange(pos as int, p7 as int));
        assert(s@.subrange(pos as int, p7 as int) + s@.subrange(p7 as int, p8 as int)
            == s@.subrange(pos as int, p8 as int));
        assert(s@.subrange(pos as int, p8 as int) + s@.subrange(p8 as int, p9 as int)
            == s@.subrange(pos as int, p9 as int));
        assert(v.wire().len() <= p9 - pos);
        if v.wire().len() == p9 - pos {
            assert(v.wire() =~= s@.subrange(pos as int, p9 as int));
        }
    }
    Ok((v, p9))
}

/// A whole-screen copy; later interpreter generations append a flag.
#[derive(Debug, PartialEq, Eq, Clone)]
pub struct BGCopyWholeScreen {
    pub srcpdt: Val,
    pub dstpdt: Val,
    pub flag: Option<Val>,
}

impl Writeable for BGCopyWholeScreen {
    open spec fn wire(&self) -> Seq<u8> {
        val_wire(self.srcpdt) + val_wire(self.dstpdt) + self.flag.wire()
    }

    open spec fn wf(&self) -> bool {
        true
    }

    open spec fn compiled(&self) -> bool {
        true
    }

    fn byte_size(&self) -> (r: usize) {
        self.srcpdt.byte_size() + self.dstpdt.byte_size() + self.flag.byte_size()
    }

    fn write(&self, out: &mut Vec<u8>) -> (r: Result<(), CodecError>) {
        self.srcpdt.write(out)?;
        self.dstpdt.write(out)?;
        self.flag.write(out)?;
        assert(out@ =~= old(out)@ + self.wire());
        Ok(())
    }
}

/// Parse a whole-screen copy; the trailing flag exists from generation 1704 on.
pub fn bg_copy_whole_screen(s: &[u8], pos: usize) -> (r: Result<(BGCopyWholeScreen, usize), CodecError>)
    requires
        pos <= s@.len(),
    ensures
        r matches Ok((v, end)) ==> pos < end <= s@.len() && v.wf()
            && v.wire().len() <= end - pos
            && (v.wire().len() == end - pos ==> v.wire() == s@.subrange(pos as int, end as int)),
        r matches Err(e) ==> crate::codec::parse_error(e),
{
    let (srcpdt, p1) = scene_value(s, pos)?;
    let (dstpdt, p2) = scene_value(s, p1)?;
    let (flag, p3): (Option<Val>, usize) = if sys_version_geq(1704) {
        let (fv, q) = scene_value(s, p2)?;
        (Some(fv), q)
    } else {
        (None, p2)
    };
    let v = BGCopyWholeScreen { srcpdt, dstpdt, flag };
    proof {
        assert(s@.subrange(pos as int, p1 as int) + s@.subrange(p1 as int, p2 as int)
            == s@.subrange(pos as int, p2 as int));
        assert(s@.subrange(pos as int, p2 as int) + s@.subrange(p2 as int, p3 as int)
            == s@.subrange(pos as int, p3 as int));
        assert(v.wire().len() <= p3 - pos);
        if v.wire().len() == p3 - pos {
            assert(v.wire() =~= s@.subrange(pos as int, p3 as int));
        }
    }
    Ok((v, p3))
}

/// Parse a masked whole-screen copy; the trailing flag exists from generation 1613 on.
pub fn bg_copy_whole_screen_mask(s: &[u8], pos: usize) -> (r: Result<(BGCopyWholeScreen, usize), CodecError>)
    requires
        pos <= s@.len(),
    ensures
        r matches Ok((v, end)) ==> pos < end <= s@.len() && v.wf()
            && v.wire().len() <= end - pos
            && (v.wire().len() == end - pos ==> v.wire() == s@.subrange(pos as int, end as int)),
        r matches Err(e) ==> crate::codec::parse_error(e),
{
    let (srcpdt, p1) = scene_value(s, pos)?;
    let (dstpdt, p2) = scene_value(s, p1)?;
    let (flag, p3): (Option<Val>, usize) = if sys_version_geq(1613) {
        let (fv, q) = scene_value(s, p2)?;
        (Some(fv), q)
    } else {
        (None, p2)
    };
    let v = BGCopyWholeScreen { srcpdt, dstpdt, flag };
    proof {
        assert(s@.subrange(pos as int, p1 as int) + s@.subrange(p1 as int, p2 as int)
            == s@.subrange(pos as int, p2 as int));
        assert(s@.subrange(pos as int, p2 as int) + s@.subrange(p2 as int, p3 as int)
            == s@.subrange(pos as int, p3 as int));
        assert(v.wire().len() <= p3 - pos);
        if v.wire().len() == p3 - pos {
            assert(v.wire() =~= s@.subrange(pos as int, p3 as int));
        }
    }
    Ok((v, p3))
}

/// A text-plane display of numbered strings.
#[derive(Debug, PartialEq, Eq, Clone)]
pub struct BGDisplayStrings {
    pub n: Val,
    pub srcx1: Val,
    pub srcy1: Val,
    pub srcx2: Val,
    pub srcy2: Val,
    pub srcdx: Val,
    pub srcdy: Val,
    pub srcpdt: Val,
    pub dstx1: Val,
    pub dsty1: Val,
    pub dstx2: Val,
    pub dsty2: Val,
    pub count: Val,
    pub zero: Val,
    pub dstpdt: Val,
}

impl Writeable for BGDisplayStrings {
    open spec fn wire(&self) -> Seq<u8> {
        val_wire(self.n) + val_wire(self.srcx1) + val_wire(self.srcy1) + val_wire(self.srcx2) + val_wire(self.srcy2) + val_wire(self.srcdx) + val_wire(self.srcdy) + val_wire(self.srcpdt) + val_wire(self.dstx1) + val_wire(self.dsty1) + val_wire(self.dstx2) + val_wire(self.dsty2) + val_wire(self.count) + val_wire(self.zero) + val_wire(self.dstpdt)
    }

    open spec fn wf(&self) -> bool {
        true
    }

    open spec fn compiled(&self) -> bool {
        true
    }

    fn byte_size(&self) -> (r: usize) {
        self.n.byte_size() + self.srcx1.byte_size() + self.srcy1.byte_size() + self.srcx2.byte_size() + self.srcy2.byte_size() + self.srcdx.byte_size() + self.srcdy.byte_size() + self.srcpdt.byte_size() + self.dstx1.byte_size() + self.dsty1.byte_size() + self.dstx2.byte_size() + self.dsty2.byte_size() + self.count.byte_size() + self.zero.byte_size() + self.dstpdt.byte_size()
    }

    fn write(&self, out: &mut Vec<u8>) -> (r: Result<(), CodecError>) {
        self.n.write(out)?;
        self.srcx1.write(out)?;
        self.srcy1.write(out)?;
        self.srcx2.write(out)?;
        self.srcy2.write(out)?;
        self.srcdx.write(out)?;
        self.srcdy.write(out)?;
        self.srcpdt.write(out)?;
        self.dstx1.write(out)?;
        self.dsty1.write(out)?;
        self.dstx2.write(out)?;
        self.dsty2.write(out)?;
        self.count.write(out)?;
        self.zero.write(out)?;
        self.dstpdt.write(out)?;
        assert(out@ =~= old(out)@ + self.wire());
        Ok(())
    }
}

/// Parse a string display.
pub fn bg_display_strings(s: &[u8], pos: usize) -> (r: Result<(BGDisplayStrings, usize), CodecError>)
    requires
        pos <= s@.len(),
    ensures
        r matches Ok((v, end)) ==> pos < end <= s@.len() && v.wf()
            && v.wire().len() <= end - pos
            && (v.wire().len() == end - pos ==> v.wire() == s@.subrange(pos as int, end as int)),
        r matches Err(e) ==> crate::codec::parse_error(e),
{
    let (n, p1) = scene_value(s, pos)?;
    let (srcx1, p2) = scene_value(s, p1)?;
    let (srcy1, p3) = scene_value(s, p2)?;
    let (srcx2, p4) = scene_value(s, p3)?;
    let (srcy2, p5) = scene_value(s, p4)?;
    let (srcdx, p6) = scene_value(s, p5)?;
    let (srcdy, p7) = scene_value(s, p6)?;
    let (srcpdt, p8) = scene_value(s, p7)?;
    let (dstx1, p9) = scene_value(s, p8)?;
    let (dsty1, p10) = scene_value(s, p9)?;
    let (dstx2, p11) = scene_value(s, p10)?;
    let (dsty2, p12) = scene_value(s, p11)?;
    let (count, p13) = scene_value(s, p12)?;
    let (zero, p14) = scene_value(s, p13)?;
    let (dstpdt, p15) = scene_value(s, p14)?;
    let v = BGDisplayStrings { n, srcx1, srcy1, srcx2, srcy2, srcdx, srcdy, srcpdt, dstx1, dsty1, dstx2, dsty2, count, zero, dstpdt };
    proof {
        assert(s@.subrange(pos as int, p1 as int) + s@.subrange(p1 as int, p2 as int)
            == s@.subrange(pos as int, p2 as int));
        assert(s@.subrange(pos as int, p2 as int) + s@.subrange(p2 as int, p3 as int)
            == s@.subrange(pos as int, p3 as int));
        assert(s@.subrange(pos as int, p3 as int) + s@.subrange(p3 as int, p4 as int)
            == s@.subrange(pos as int, p4 as int));
        assert(s@.subrange(pos as int, p4 as int) + s@.subrange(p4 as int, p5 as int)
            == s@.subrange(pos as int, p5 as int));
        assert(s@.subrange(pos as int, p5 as int) + s@.subrange(p5 as int, p6 as int)
            == s@.subrange(pos as int, p6 as int));
        assert(s@.subrange(pos as int, p6 as int) + s@.subrange(p6 as int, p7 as int)
            == s@.subrange(pos as int, p7 as int));
        assert(s@.subrange(pos as int, p7 as int) + s@.subrange(p7 as int, p8 as int)
            == s@.subrange(pos as int, p8 as int));
        assert(s@.subrange(pos as int, p8 as int) + s@.subrange(p8 as int, p9 as int)
            == s@.subrange(pos as int, p9 as int));
        assert(s@.subrange(pos as int, p9 as int) + s@.subrange(p9 as int, p10 as int)
            == s@.subrange(pos as int, p10 as int));
        assert(s@.subrange(pos as int, p10 as int) + s@.subrange(p10 as int, p11 as int)
            == s@.subrange(pos as int, p11 as int));
        assert(s@.subrange(pos as int, p11 as int) + s@.subrange(p11 as int, p12 as int)
            == s@.subrange(pos as int, p12 as int));
        assert(s@.subrange(pos as int, p12 as int) + s@.subrange(p12 as int, p13 as int)
            == s@.subrange(pos as int, p13 as int));
        assert(s@.subrange(pos as int, p13 as int) + s@.subrange(p13 as int, p14 as int)
            == s@.subrange(pos as int, p14 as int));
        assert(s@.subrange(pos as int, p14 as int) + s@.subrange(p14 as int, p15 as int)
            == s@.subrange(pos as int, p15 as int));
        assert(v.wire().len() <= p15 - pos);
        if v.wire().len() == p15 - pos {
            assert(v.wire() =~= s@.subrange(pos as int, p15 as int));
        }
    }
    Ok((v, p15))
}

/// A masked text-plane display.
#[derive(Debug, PartialEq, Eq, Clone)]
pub struct BGDisplayStringsMask {
    pub n: Val,
    pub srcx1: Val,
    pub srcy1: Val,
    pub srcx2: Val,
    pub srcy2: Val,
    pub srcdx: Val,
    pub srcdy: Val,
    pub srcpdt: Val,
    pub dstx1: Val,
    pub dsty1: Val,
    pub dstx2: Val,
    pub dsty2: Val,
    pub count: Val,
    pub zero: Val,
    pub dstpdt: Val,
    pub flag: Val,
}

impl Writeable for BGDisplayStringsMask {
    open spec fn wire(&self) -> Seq<u8> {
        val_wire(self.n) + val_wire(self.srcx1) + val_wire(self.srcy1) + val_wire(self.srcx2) + val_wire(self.srcy2) + val_wire(self.srcdx) + val_wire(self.srcdy) + val_wire(self.srcpdt) + val_wire(self.dstx1) + val_wire(self.dsty1) + val_wire(self.dstx2) + val_wire(self.dsty2) + val_wire(self.count) + val_wire(self.zero) + val_wire(self.dstpdt) + val_wire(self.flag)
    }

    open spec fn wf(&self) -> bool {
        true
    }

    open spec fn compiled(&self) -> bool {
        true
    }

    fn byte_size(&self) -> (r: usize) {
        self.n.byte_size() + self.srcx1.byte_size() + self.srcy1.byte_size() + self.srcx2.byte_size() + self.srcy2.byte_size() + self.srcdx.byte_size() + self.srcdy.byte_size() + self.srcpdt.byte_size() + self.dstx1.byte_size() + self.dsty1.byte_size() + self.dstx2.byte_size() + self.dsty2.byte_size() + self.count.byte_size() + self.zero.byte_size() + self.dstpdt.byte_size() + self.flag.byte_size()
    }

    fn write(&self, out: &mut Vec<u8>) -> (r: Result<(), CodecError>) {
        self.n.write(out)?;
        self.srcx1.write(out)?;
        self.srcy1.write(out)?;
        self.srcx2.write(out)?;
        self.srcy2.write(out)?;
        self.srcdx.write(out)?;
        self.srcdy.write(out)?;
        self.srcpdt.write(out)?;
        self.dstx1.write(out)?;
        self.dsty1.write(out)?;
        self.dstx2.write(out)?;
        self.dsty2.write(out)?;
        self.count.write(out)?;
        self.zero.write(out)?;
        self.dstpdt.write(out)?;
        self.flag.write(out)?;
        assert(out@ =~= old(out)@ + self.wire());
        Ok(())
    }
}

/// Parse a masked string display.
pub fn bg_display_strings_mask(s: &[u8], pos: usize) -> (r: Result<(BGDisplayStringsMask, usize), CodecError>)
    requires
        pos <= s@.len(),
    ensures
        r matches Ok((v, end)) ==> pos < end <= s@.len() && v.wf()
            && v.wire().len() <= end - pos
            && (v.wire().len() == end - pos ==> v.wire() == s@.subrange(pos as int, end as int)),
        r matches Err(e) ==> crate::codec::parse_error(e),
{
    let (n, p1) = scene_value(s, pos)?;
    let (srcx1, p2) = scene_value(s, p1)?;
    let (srcy1, p3) = scene_value(s, p2)?;
    let (srcx2, p4) = scene_value(s, p3)?;
    let (srcy2, p5) = scene_value(s, p4)?;
    let (srcdx, p6) = scene_value(s, p5)?;
    let (srcdy, p7) = scene_value(s, p6)?;
    let (srcpdt, p8) = scene_value(s, p7)?;
    let (dstx1, p9) = scene_value(s, p8)?;
    let (dsty1, p10) = scene_value(s, p9)?;
    let (dstx2, p11) = scene_value(s, p10)?;
    let (dsty2, p12) = scene_value(s, p11)?;
    let (count, p13) = scene_value(s, p12)?;
    let (zero, p14) = scene_value(s, p13)?;
    let (dstpdt, p15) = scene_value(s, p14)?;
    let (flag, p16) = scene_value(s, p15)?;
    let v = BGDisplayStringsMask { n, srcx1, srcy1, srcx2, srcy2, srcdx, srcdy, srcpdt, dstx1, dsty1, dstx2, dsty2, count, zero, dstpdt, flag };
    proof {
        assert(s@.subrange(pos as int, p1 as int) + s@.subrange(p1 as int, p2 as int)
            == s@.subrange(pos as int, p2 as int));
        assert(s@.subrange(pos as int, p2 as int) + s@.subrange(p2 as int, p3 as int)
            == s@.subrange(pos as int, p3 as int));
        assert(s@.subrange(pos as int, p3 as int) + s@.subrange(p3 as int, p4 as int)
            == s@.subrange(pos as int, p4 as int));
        assert(s@.subrange(pos as int, p4 as int) + s@.subrange(p4 as int, p5 as int)
            == s@.subrange(pos as int, p5 as int));
        assert(s@.subrange(pos as int, p5 as int) + s@.subrange(p5 as int, p6 as int)
            == s@.subrange(pos as int, p6 as int));
        assert(s@.subrange(pos as int, p6 as int) + s@.subrange(p6 as int, p7 as int)
            == s@.subrange(pos as int, p7 as int));
        assert(s@.subrange(pos as int, p7 as int) + s@.subrange(p7 as int, p8 as int)
            == s@.subrange(pos as int, p8 as int));
        assert(s@.subrange(pos as int, p8 as int) + s@.subrange(p8 as int, p9 as int)
            == s@.subrange(pos as int, p9 as int));
        assert(s@.subrange(pos as int, p9 as int) + s@.subrange(p9 as int, p10 as int)
            == s@.subrange(pos as int, p10 as int));
        assert(s@.subrange(pos as int, p10 as int) + s@.subrange(p10 as int, p11 as int)
            == s@.subrange(pos as int, p11 as int));
        assert(s@.subrange(pos as int, p11 as int) + s@.subrange(p11 as int, p12 as int)
            == s@.subrange(pos as int, p12 as int));
        assert(s@.subrange(pos as int, p12 as int) + s@.subrange(p12 as int, p13 as int)
            == s@.subrange(pos as int, p13 as int));
        assert(s@.subrange(pos as int, p13 as int) + s@.subrange(p13 as int, p14 as int)
            == s@.subrange(pos as int, p14 as int));
        assert(s@.subrange(pos as int, p14 as int) + s@.subrange(p14 as int, p15 as int)
            == s@.subrange(pos as int, p15 as int));
        assert(s@.subrange(pos as int, p15 as int) + s@.subrange(p15 as int, p16 as int)
            == s@.subrange(pos as int, p16 as int));
        assert(v.wire().len() <= p16 - pos);
        if v.wire().len() == p16 - pos {
            assert(v.wire() =~= s@.subrange(pos as int, p16 as int));
        }
    }
    Ok((v, p16))
}

/// A colored text-plane display.
#[derive(Debug, PartialEq, Eq, Clone)]
pub struct BGDisplayStringsColor {
    pub n: Val,
    pub srcx1: Val,
    pub srcy1: Val,
    pub srcx2: Val,
    pub srcy2: Val,
    pub srcdx: Val,
    pub srcdy: Val,
    pub srcpdt: Val,
    pub dstx1: Val,
    pub dsty1: Val,
    pub dstx2: Val,
    pub dsty2: Val,
    pub count: Val,
    pub zero: Val,
    pub dstpdt: Val,
    pub r: Val,
    pub g: Val,
    pub b: Val,
}

impl Writeable for BGDisplayStringsColor {
    open spec fn wire(&self) -> Seq<u8> {
        val_wire(self.n) + val_wire(self.srcx1) + val_wire(self.srcy1) + val_wire(self.srcx2) + val_wire(self.srcy2) + val_wire(self.srcdx) + val_wire(self.srcdy) + val_wire(self.srcpdt) + val_wire(self.dstx1) + val_wire(self.dsty1) + val_wire(self.dstx2) + val_wire(self.dsty2) + val_wire(self.count) + val_wire(self.zero) + val_wire(self.dstpdt) + val_wire(self.r) + val_wire(self.g) + val_wire(self.b)
    }

    open spec fn wf(&self) -> bool {
        true
    }

    open spec fn compiled(&self) -> bool {
        true
    }

    fn byte_size(&self) -> (r: usize) {
        self.n.byte_size() + self.srcx1.byte_size() + self.srcy1.byte_size() + self.srcx2.byte_size() + self.srcy2.byte_size() + self.srcdx.byte_size() + self.srcdy.byte_size() + self.srcpdt.byte_size() + self.dstx1.byte_size() + self.dsty1.byte_size() + self.dstx2.byte_size() + self.dsty2.byte_size() + self.count.byte_size() + self.zero.byte_size() + self.dstpdt.byte_size() + self.r.byte_size() + self.g.byte_size() + self.b.byte_size()
    }

    fn write(&self, out: &mut Vec<u8>) -> (r: Result<(), CodecError>) {
        self.n.write(out)?;
        self.srcx1.write(out)?;
        self.srcy1.write(out)?;
        self.srcx2.write(out)?;
        self.srcy2.write(out)?;
        self.srcdx.write(out)?;
        self.srcdy.write(out)?;
        self.srcpdt.write(out)?;
        self.dstx1.write(out)?;
        self.dsty1.write(out)?;
        self.dstx2.write(out)?;
        self.dsty2.write(out)?;
        self.count.write(out)?;
        self.zero.write(out)?;
        self.dstpdt.write(out)?;
        self.r.write(out)?;
        self.g.write(out)?;
        self.b.write(out)?;
        assert(out@ =~= old(out)@ + self.wire());
        Ok(())
    }
}

/// Parse a colored string display.
pub fn bg_display_strings_color(s: &[u8], pos: usize) -> (r: Result<(BGDisplayStringsColor, usize), CodecError>)
    requires
        pos <= s@.len(),
    ensures
        r matches Ok((v, end)) ==> pos < end <= s@.len() && v.wf()
            && v.wire().len() <= end - pos
            && (v.wire().len() == end - pos ==> v.wire() == s@.subrange(pos as int, end as int)),
        r matches Err(e) ==> crate::codec::parse_error(e),
{
    let (n, p1) = scene_value(s, pos)?;
    let (srcx1, p2) = scene_value(s, p1)?;
    let (srcy1, p3) = scene_value(s, p2)?;
    let (srcx2, p4) = scene_value(s, p3)?;
    let (srcy2, p5) = scene_value(s, p4)?;
    let (srcdx, p6) = scene_value(s, p5)?;
    let (srcdy, p7) = scene_value(s, p6)?;
    let (srcpdt, p8) = scene_value(s, p7)?;
    let (dstx1, p9) = scene_value(s, p8)?;
    let (dsty1, p10) = scene_value(s, p9)?;
    let (dstx2, p11) = scene_value(s, p10)?;
    let (dsty2, p12) = scene_value(s, p11)?;
    let (count, p13) = scene_value(s, p12)?;
    let (zero, p14) = scene_value(s, p13)?;
    let (dstpdt, p15) = scene_value(s, p14)?;
    let (r, p16) = scene_value(s, p15)?;
    let (g, p17) = scene_value(s, p16)?;
    let (b, p18) = scene_value(s, p17)?;
    let v = BGDisplayStringsColor { n, srcx1, srcy1, srcx2, srcy2, srcdx, srcdy, srcpdt, dstx1, dsty1, dstx2, dsty2, count, zero, dstpdt, r, g, b };
    proof {
        assert(s@.subrange(pos as int, p1 as int) + s@.subrange(p1 as int, p2 as int)
            == s@.subrange(pos as int, p2 as int));
        assert(s@.subrange(pos as int, p2 as int) + s@.subrange(p2 as int, p3 as int)
            == s@.subrange(pos as int, p3 as int));
        assert(s@.subrange(pos as int, p3 as int) + s@.subrange(p3 as int, p4 as int)
            == s@.subrange(pos as int, p4 as int));
        assert(s@.subrange(pos as int, p4 as int) + s@.subrange(p4 as int, p5 as int)
            == s@.subrange(pos as int, p5 as int));
        assert(s@.subrange(pos as int, p5 as int) + s@.subrange(p5 as int, p6 as int)
            == s@.subrange(pos as int, p6 as int));
        assert(s@.subrange(pos as int, p6 as int) + s@.subrange(p6 as int, p7 as int)
            == s@.subrange(pos as int, p7 as int));
        assert(s@.subrange(pos as int, p7 as int) + s@.subrange(p7 as int, p8 as int)
            == s@.subrange(pos as int, p8 as int));
        assert(s@.subrange(pos as int, p8 as int) + s@.subrange(p8 as int, p9 as int)
            == s@.subrange(pos as int, p9 as int));
        assert(s@.subrange(pos as int, p9 as int) + s@.subrange(p9 as int, p10 as int)
            == s@.subrange(pos as int, p10 as int));
        assert(s@.subrange(pos as int, p10 as int) + s@.subrange(p10 as int, p11 as int)
            == s@.subrange(pos as int, p11 as int));
        assert(s@.subrange(pos as int, p11 as int) + s@.subrange(p11 as int, p12 as int)
            == s@.subrange(pos as int, p12 as int));
        assert(s@.subrange(pos as int, p12 as int) + s@.subrange(p12 as int, p13 as int)
            == s@.subrange(pos as int, p13 as int));
        assert(s@.subrange(pos as int, p13 as int) + s@.subrange(p13 as int, p14 as int)
            == s@.subrange(pos as int, p14 as int));
        assert(s@.subrange(pos as int, p14 as int) + s@.subrange(p14 as int, p15 as int)
            == s@.subrange(pos as int, p15 as int));
        assert(s@.subrange(pos as int, p15 as int) + s@.subrange(p15 as int, p16 as int)
            == s@.subrange(pos as int, p16 as int));
        assert(s@.subrange(pos as int, p16 as int) + s@.subrange(p16 as int, p17 as int)
            == s@.subrange(pos as int, p17 as int));
        assert(s@.subrange(pos as int, p17 as int) + s@.subrange(p17 as int, p18 as int)
            == s@.subrange(pos as int, p18 as int));
        assert(v.wire().len() <= p18 - pos);
        if v.wire().len() == p18 - pos {
            assert(v.wire() =~= s@.subrange(pos as int, p18 as int));
        }
    }
    Ok((v, p18))
}

/// Buffer-region commands (family tag `0x64`).
#[derive(Debug, PartialEq, Eq, Clone)]
pub enum BufferRegionGrpCmd {
    ClearRect(BRGRectColor),
    DrawRectLine(BRGRectColor),
    InvertColor(BRGRect),
    ColorMask(BRGRectColor),
    FadeOutColor(BRGRect),
    FadeOutColor2(BRGRect),
    FadeOutColor3(BRGFadeOutColor),
    MakeMonoImage(BRGRect),
    StretchBlit(BRGStretchBlit),
    StretchBlitEffect(BRGStretchBlitEffect),
}

impl Writeable for BufferRegionGrpCmd {
    open spec fn wire(&self) -> Seq<u8> {
        match self {
            BufferRegionGrpCmd::ClearRect(a) => seq![0x02u8] + a.wire(),
            BufferRegionGrpCmd::DrawRectLine(a) => seq![0x04u8] + a.wire(),
            BufferRegionGrpCmd::InvertColor(a) => seq![0x07u8] + a.wire(),
            BufferRegionGrpCmd::ColorMask(a) => seq![0x10u8] + a.wire(),
            BufferRegionGrpCmd::FadeOutColor(a) => seq![0x11u8] + a.wire(),
            BufferRegionGrpCmd::FadeOutColor2(a) => seq![0x12u8] + a.wire(),
            BufferRegionGrpCmd::FadeOutColor3(a) => seq![0x15u8] + a.wire(),
            BufferRegionGrpCmd::MakeMonoImage(a) => seq![0x20u8] + a.wire(),
            BufferRegionGrpCmd::StretchBlit(a) => seq![0x30u8] + a.wire(),
            BufferRegionGrpCmd::StretchBlitEffect(a) => seq![0x32u8] + a.wire(),
        }
    }

    open spec fn wf(&self) -> bool {
        true
    }

    open spec fn compiled(&self) -> bool {
        true
    }

    fn byte_size(&self) -> (r: usize) {
        match self {
            BufferRegionGrpCmd::ClearRect(a) => 1 + a.byte_size(),
            BufferRegionGrpCmd::DrawRectLine(a) => 1 + a.byte_size(),
            BufferRegionGrpCmd::InvertColor(a) => 1 + a.byte_size(),
            BufferRegionGrpCmd::ColorMask(a) => 1 + a.byte_size(),
            BufferRegionGrpCmd::FadeOutColor(a) => 1 + a.byte_size(),
            BufferRegionGrpCmd::FadeOutColor2(a) => 1 + a.byte_size(),
            BufferRegionGrpCmd::FadeOutColor3(a) => 1 + a.byte_size(),
            BufferRegionGrpCmd::MakeMonoImage(a) => 1 + a.byte_size(),
            BufferRegionGrpCmd::StretchBlit(a) => 1 + a.byte_size(),
            BufferRegionGrpCmd::StretchBlitEffect(a) => 1 + a.byte_size(),
        }
    }

    fn write(&self, out: &mut Vec<u8>) -> (r: Result<(), CodecError>) {
        match self {
            BufferRegionGrpCmd::ClearRect(a) => {
                out.push(0x02);
                a.write(out)?;
            },
            BufferRegionGrpCmd::DrawRectLine(a) => {
                out.push(0x04);
                a.write(out)?;
            },
            BufferRegionGrpCmd::InvertColor(a) => {
                out.push(0x07);
                a.write(out)?;
            },
            BufferRegionGrpCmd::ColorMask(a) => {
                out.push(0x10);
                a.write(out)?;
            },
            BufferRegionGrpCmd::FadeOutColor(a) => {
                out.push(0x11);
                a.write(out)?;
            },
            BufferRegionGrpCmd::FadeOutColor2(a) => {
                out.push(0x12);
                a.write(out)?;
            },
            BufferRegionGrpCmd::FadeOutColor3(a) => {
                out.push(0x15);
                a.write(out)?;
            },
            BufferRegionGrpCmd::MakeMonoImage(a) => {
                out.push(0x20);
                a.write(out)?;
            },
            BufferRegionGrpCmd::StretchBlit(a) => {
                out.push(0x30);
                a.write(out)?;
            },
            BufferRegionGrpCmd::StretchBlitEffect(a) => {
                out.push(0x32);
                a.write(out)?;
            },
        }
        assert(out@ =~= old(out)@ + self.wire());
        Ok(())
    }
}

/// Parse a buffer-region command.
pub fn buffer_region_grp_cmd(s: &[u8], pos: usize) -> (r: Result<
    (BufferRegionGrpCmd, usize),
    CodecError,
>)
    requires
        pos <= s@.len(),
    ensures
        r matches Ok((c, end)) ==> pos < end <= s@.len() && c.wf()
            && c.wire().len() <= end - pos
            && (c.wire().len() == end - pos ==> c.wire() == s@.subrange(pos as int, end as int)),
        r matches Err(e) ==> crate::codec::parse_error(e),
{
    let (tag, p0) = read_u8(s, pos)?;
    match tag {
        0x02 | 0x04 | 0x10 => {
            let (a, p1) = brg_rect_color(s, p0)?;
            let c = match tag {
                0x02 => BufferRegionGrpCmd::ClearRect(a),
                0x04 => BufferRegionGrpCmd::DrawRectLine(a),
                _ => BufferRegionGrpCmd::ColorMask(a),
            };
            proof {
                assert(s@.subrange(pos as int, p0 as int) + s@.subrange(p0 as int, p1 as int)
                    == s@.subrange(pos as int, p1 as int));
                assert(c.wire().len() <= p1 - pos);
                if c.wire().len() == p1 - pos {
                    assert(c.wire() =~= s@.subrange(pos as int, p1 as int));
                }
            }
            Ok((c, p1))
        },
        0x07 | 0x11 | 0x12 | 0x20 => {
            let (a, p1) = brg_rect(s, p0)?;
            let c = match tag {
                0x07 => BufferRegionGrpCmd::InvertColor(a),
                0x11 => BufferRegionGrpCmd::FadeOutColor(a),
                0x12 => BufferRegionGrpCmd::FadeOutColor2(a),
                _ => BufferRegionGrpCmd::MakeMonoImage(a),
            };
            proof {
                assert(s@.subrange(pos as int, p0 as int) + s@.subrange(p0 as int, p1 as int)
                    == s@.subrange(pos as int, p1 as int));
                assert(c.wire().len() <= p1 - pos);
                if c.wire().len() == p1 - pos {
                    assert(c.wire() =~= s@.subrange(pos as int, p1 as int));
                }
            }
            Ok((c, p1))
        },
        0x15 => {
            let (a, p1) = brg_fade_out_color(s, p0)?;
            let c = BufferRegionGrpCmd::FadeOutColor3(a);
            proof {
                assert(s@.subrange(pos as int, p0 as int) + s@.subrange(p0 as int, p1 as int)
                    == s@.subrange(pos as int, p1 as int));
                assert(c.wire().len() <= p1 - pos);
                if c.wire().len() == p1 - pos {
                    assert(c.wire() =~= s@.subrange(pos as int, p1 as int));
                }
            }
            Ok((c, p1))
        },
        0x30 => {
            let (a, p1) = brg_stretch_blit(s, p0)?;
            let c = BufferRegionGrpCmd::StretchBlit(a);
            proof {
                assert(s@.subrange(pos as int, p0 as int) + s@.subrange(p0 as int, p1 as int)
                    == s@.subrange(pos as int, p1 as int));
                assert(c.wire().len() <= p1 - pos);
                if c.wire().len() == p1 - pos {
                    assert(c.wire() =~= s@.subrange(pos as int, p1 as int));
                }
            }
            Ok((c, p1))
        },
        0x32 => {
            let (a, p1) = brg_stretch_blit_effect(s, p0)?;
            let c = BufferRegionGrpCmd::StretchBlitEffect(a);
            proof {
                assert(s@.subrange(pos as int, p0 as int) + s@.subrange(p0 as int, p1 as int)
                    == s@.subrange(pos as int, p1 as int));
                assert(c.wire().len() <= p1 - pos);
                if c.wire().len() == p1 - pos {
                    assert(c.wire() =~= s@.subrange(pos as int, p1 as int));
                }
            }
            Ok((c, p1))
        },
        _ => Err(CodecError::UnknownSubcommand(0x64, tag)),
    }
}

/// Whole-buffer commands (family tag `0x67`).
#[derive(Debug, PartialEq, Eq, Clone)]
pub enum BufferGrpCmd {
    CopySamePos(BGCopySamePos),
    CopyNewPos(BGCopyNewPos),
    CopyNewPosMask(BGCopyNewPos),
    CopyColor(BGCopyColor),
    Swap(BGSwap),
    CopyWithMask(BGCopyWithMask),
    CopyWholeScreen(BGCopyWholeScreen),
    CopyWholeScreenMask(BGCopyWholeScreen),
    DisplayStrings(BGDisplayStrings),
    DisplayStringsMask(BGDisplayStringsMask),
    DisplayStringsColor(BGDisplayStringsColor),
}

impl Writeable for BufferGrpCmd {
    open spec fn wire(&self) -> Seq<u8> {
        match self {
            BufferGrpCmd::CopySamePos(a) => seq![0x00u8] + a.wire(),
            BufferGrpCmd::CopyNewPos(a) => seq![0x01u8] + a.wire(),
            BufferGrpCmd::CopyNewPosMask(a) => seq![0x02u8] + a.wire(),
            BufferGrpCmd::CopyColor(a) => seq![0x03u8] + a.wire(),
            BufferGrpCmd::Swap(a) => seq![0x05u8] + a.wire(),
            BufferGrpCmd::CopyWithMask(a) => seq![0x08u8] + a.wire(),
            BufferGrpCmd::CopyWholeScreen(a) => seq![0x11u8] + a.wire(),
            BufferGrpCmd::CopyWholeScreenMask(a) => seq![0x12u8] + a.wire(),
            BufferGrpCmd::DisplayStrings(a) => seq![0x20u8] + a.wire(),
            BufferGrpCmd::DisplayStringsMask(a) => seq![0x21u8] + a.wire(),
            BufferGrpCmd::DisplayStringsColor(a) => seq![0x22u8] + a.wire(),
        }
    }

    open spec fn wf(&self) -> bool {
        true
    }

    open spec fn compiled(&self) -> bool {
        true
    }

    fn byte_size(&self) -> (r: usize) {
        match self {
            BufferGrpCmd::CopySamePos(a) => 1 + a.byte_size(),
            BufferGrpCmd::CopyNewPos(a) => 1 + a.byte_size(),
            BufferGrpCmd::CopyNewPosMask(a) => 1 + a.byte_size(),
            BufferGrpCmd::CopyColor(a) => 1 + a.byte_size(),
            BufferGrpCmd::Swap(a) => 1 + a.byte_size(),
            BufferGrpCmd::CopyWithMask(a) => 1 + a.byte_size(),
            BufferGrpCmd::CopyWholeScreen(a) => 1 + a.byte_size(),
            BufferGrpCmd::CopyWholeScreenMask(a) => 1 + a.byte_size(),
            BufferGrpCmd::DisplayStrings(a) => 1 + a.byte_size(),
            BufferGrpCmd::DisplayStringsMask(a) => 1 + a.byte_size(),
            BufferGrpCmd::DisplayStringsColor(a) => 1 + a.byte_size(),
        }
    }

    fn write(&self, out: &mut Vec<u8>) -> (r: Result<(), CodecError>) {
        match self {
            BufferGrpCmd::CopySamePos(a) => {
                out.push(0x00);
                a.write(out)?;
            },
            BufferGrpCmd::CopyNewPos(a) => {
                out.push(0x01);
                a.write(out)?;
            },
            BufferGrpCmd::CopyNewPosMask(a) => {
                out.push(0x02);
                a.write(out)?;
            },
            BufferGrpCmd::CopyColor(a) => {
                out.push(0x03);
                a.write(out)?;
            },
            BufferGrpCmd::Swap(a) => {
                out.push(0x05);
                a.write(out)?;
            },
            BufferGrpCmd::CopyWithMask(a) => {
                out.push(0x08);
                a.write(out)?;
            },
            BufferGrpCmd::CopyWholeScreen(a) => {
                out.push(0x11);
                a.write(out)?;
            },
            BufferGrpCmd::CopyWholeScreenMask(a) => {
                out.push(0x12);
                a.write(out)?;
            },
            BufferGrpCmd::DisplayStrings(a) => {
                out.push(0x20);
                a.write(out)?;
            },
            BufferGrpCmd::DisplayStringsMask(a) => {
                out.push(0x21);
                a.write(out)?;
            },
            BufferGrpCmd::DisplayStringsColor(a) => {
                out.push(0x22);
                a.write(out)?;
            },
        }
        assert(out@ =~= old(out)@ + self.wire());
        Ok(())
    }
}

/// Parse a whole-buffer command.
#[verifier::rlimit(100)]
#[verifier::spinoff_prover]
pub fn buffer_grp_cmd(s: &[u8], pos: usize) -> (r: Result<(BufferGrpCmd, usize), CodecError>)
    requires
        pos <= s@.len(),
    ensures
        r matches Ok((c, end)) ==> pos < end <= s@.len() && c.wf()
            && c.wire().len() <= end - pos
            && (c.wire().len() == end - pos ==> c.wire() == s@.subrange(pos as int, end as int)),
        r matches Err(e) ==> crate::codec::parse_error(e),
{
    let (tag, p0) = read_u8(s, pos)?;
    let (c, p1): (BufferGrpCmd, usize) = match tag {
        0x00 => {
            let (a, p1) = bg_copy_same_pos(s, p0)?;
            (BufferGrpCmd::CopySamePos(a), p1)
        },
        0x01 => {
            let (a, p1) = bg_copy_new_pos(s, p0)?;
            (BufferGrpCmd::CopyNewPos(a), p1)
        },
        0x02 => {
            let (a, p1) = bg_copy_new_pos_mask(s, p0)?;
            (BufferGrpCmd::CopyNewPosMask(a), p1)
        },
        0x03 => {
            let (a, p1) = bg_copy_color(s, p0)?;
            (BufferGrpCmd::CopyColor(a), p1)
        },
        0x05 => {
            let (a, p1) = bg_swap(s, p0)?;
            (BufferGrpCmd::Swap(a), p1)
        },
        0x08 => {
            let (a, p1) = bg_copy_with_mask(s, p0)?;
            (BufferGrpCmd::CopyWithMask(a), p1)
        },
        0x11 => {
            let (a, p1) = bg_copy_whole_screen(s, p0)?;
            (BufferGrpCmd::CopyWholeScreen(a), p1)
        },
        0x12 => {
            let (a, p1) = bg_copy_whole_screen_mask(s, p0)?;
            (BufferGrpCmd::CopyWholeScreenMask(a), p1)
        },
        0x20 => {
            let (a, p1) = bg_display_strings(s, p0)?;
            (BufferGrpCmd::DisplayStrings(a), p1)
        },
        0x21 => {
            let (a, p1) = bg_display_strings_mask(s, p0)?;
            (BufferGrpCmd::DisplayStringsMask(a), p1)
        },
        0x22 => {
            let (a, p1) = bg_display_strings_color(s, p0)?;
            (BufferGrpCmd::DisplayStringsColor(a), p1)
        },
        _ => {
            return Err(CodecError::UnknownSubcommand(0x67, tag));
        },
    };
    proof {
        assert(s@.subrange(pos as int, p0 as int) + s@.subrange(p0 as int, p1 as int)
            == s@.subrange(pos as int, p1 as int));
        assert(c.wire().len() <= p1 - pos);
        if c.wire().len() == p1 - pos {
            assert(c.wire() =~= s@.subrange(pos as int, p1 as int));
        }
    }
    Ok((c, p1))
}

} // verus!