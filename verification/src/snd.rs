//! Sound sub-commands (family tag `0x0e`): background music, voice, wave
//! effects and movie playback.
use vstd::prelude::*;
use crate::codec::{CodecError, Writeable, read_u8, lemma_subrange_glue};
use crate::val::{Val, val_wire, scene_value};
use crate::text::{SceneText, scene_text};

verus! {

broadcast use lemma_subrange_glue;

/// One sound command.
#[derive(Debug, PartialEq, Eq, Clone)]
pub enum SndCmd {
    BgmLoop(SceneText),
    BgmWait(SceneText),
    BgmOnce(SceneText),
    BgmFadeInLoop(SceneText, Val),
    BgmFadeInWait(SceneText, Val),
    BgmFadeInOnce(SceneText, Val),
    BgmFadeOut(Val),
    BgmStop,
    BgmRewind,
    BgmUnknown1,
    KoePlayWait(Val),
    KoePlay(Val),
    KoePlay2(Val, Val),
    WavPlay(SceneText),
    WavPlay2(SceneText, Val),
    WavLoop(SceneText),
    WavLoop2(SceneText, Val),
    WavPlayWait(SceneText),
    WavPlayWait2(SceneText, Val),
    WavStop,
    WavStop2(Val),
    WavStop3,
    WavUnknown0x39(Val),
    SePlay(Val),
    MoviePlay(SceneText, Val, Val, Val, Val),
    MovieLoop(SceneText, Val, Val, Val, Val),
    MovieWait(SceneText, Val, Val, Val, Val),
    MovieWaitCancelable(SceneText, Val, Val, Val, Val),
    MovieWait2(SceneText, SceneText, Val, Val, Val, Val),
    MovieWaitCancelable2(SceneText, SceneText, Val, Val, Val, Val),
    Unknown1,
}

impl Writeable for SndCmd {
    open spec fn wire(&self) -> Seq<u8> {
        match self {
            SndCmd::BgmLoop(t) => seq![0x01u8] + t.wire(),
            SndCmd::BgmWait(t) => seq![0x02u8] + t.wire(),
            SndCmd::BgmOnce(t) => seq![0x03u8] + t.wire(),
            SndCmd::BgmFadeInLoop(t, v) => seq![0x05u8] + t.wire() + val_wire(*v),
            SndCmd::BgmFadeInWait(t, v) => seq![0x06u8] + t.wire() + val_wire(*v),
            SndCmd::BgmFadeInOnce(t, v) => seq![0x07u8] + t.wire() + val_wire(*v),
            SndCmd::BgmFadeOut(v) => seq![0x10u8] + val_wire(*v),
            SndCmd::BgmStop => seq![0x11u8],
            SndCmd::BgmRewind => seq![0x12u8],
            SndCmd::BgmUnknown1 => seq![0x16u8],
            SndCmd::KoePlayWait(v) => seq![0x20u8] + val_wire(*v),
            SndCmd::KoePlay(v) => seq![0x21u8] + val_wire(*v),
            SndCmd::KoePlay2(a, b) => seq![0x22u8] + val_wire(*a) + val_wire(*b),
            SndCmd::WavPlay(t) => seq![0x30u8] + t.wire(),
            SndCmd::WavPlay2(t, v) => seq![0x31u8] + t.wire() + val_wire(*v),
            SndCmd::WavLoop(t) => seq![0x32u8] + t.wire(),
            SndCmd::WavLoop2(t, v) => seq![0x33u8] + t.wire() + val_wire(*v),
            SndCmd::WavPlayWait(t) => seq![0x34u8] + t.wire(),
            SndCmd::WavPlayWait2(t, v) => seq![0x35u8] + t.wire() + val_wire(*v),
            SndCmd::WavStop => seq![0x36u8],
            SndCmd::WavStop2(v) => seq![0x37u8] + val_wire(*v),
            SndCmd::WavStop3 => seq![0x38u8],
            SndCmd::WavUnknown0x39(v) => seq![0x39u8] + val_wire(*v),
            SndCmd::SePlay(v) => seq![0x44u8] + val_wire(*v),
            SndCmd::MoviePlay(t, a, b, c, d) => seq![0x50u8] + t.wire() + val_wire(*a)
                + val_wire(*b) + val_wire(*c) + val_wire(*d),
            SndCmd::MovieLoop(t, a, b, c, d) => seq![0x51u8] + t.wire() + val_wire(*a)
                + val_wire(*b) + val_wire(*c) + val_wire(*d),
            SndCmd::MovieWait(t, a, b, c, d) => seq![0x52u8] + t.wire() + val_wire(*a)
                + val_wire(*b) + val_wire(*c) + val_wire(*d),
            SndCmd::MovieWaitCancelable(t, a, b, c, d) => seq![0x53u8] + t.wire() + val_wire(*a)
                + val_wire(*b) + val_wire(*c) + val_wire(*d),
            SndCmd::MovieWait2(t, u, a, b, c, d) => seq![0x54u8] + t.wire() + u.wire()
                + val_wire(*a) + val_wire(*b) + val_wire(*c) + val_wire(*d),
            SndCmd::MovieWaitCancelable2(t, u, a, b, c, d) => seq![0x55u8] + t.wire() + u.wire()
                + val_wire(*a) + val_wire(*b) + val_wire(*c) + val_wire(*d),
            SndCmd::Unknown1 => seq![0x60u8],
        }
    }

    open spec fn wf(&self) -> bool {
        match self {
            SndCmd::BgmLoop(t) => t.wf(),
            SndCmd::BgmWait(t) => t.wf(),
            SndCmd::BgmOnce(t) => t.wf(),
            SndCmd::BgmFadeInLoop(t, _) => t.wf(),
            SndCmd::BgmFadeInWait(t, _) => t.wf(),
            SndCmd::BgmFadeInOnce(t, _) => t.wf(),
            SndCmd::WavPlay(t) => t.wf(),
            SndCmd::WavPlay2(t, _) => t.wf(),
            SndCmd::WavLoop(t) => t.wf(),
            SndCmd::WavLoop2(t, _) => t.wf(),
            SndCmd::WavPlayWait(t) => t.wf(),
            SndCmd::WavPlayWait2(t, _) => t.wf(),
            SndCmd::MoviePlay(t, _, _, _, _) => t.wf(),
            SndCmd::MovieLoop(t, _, _, _, _) => t.wf(),
            SndCmd::MovieWait(t, _, _, _, _) => t.wf(),
            SndCmd::MovieWaitCancelable(t, _, _, _, _) => t.wf(),
            SndCmd::MovieWait2(t, u, _, _, _, _) => t.wf() && u.wf(),
            SndCmd::MovieWaitCancelable2(t, u, _, _, _, _) => t.wf() && u.wf(),
            _ => true,
        }
    }

    open spec fn compiled(&self) -> bool {
        true
    }

    fn byte_size(&self) -> (r: usize) {
        match self {
            SndCmd::BgmLoop(t) => 1 + t.byte_size(),
            SndCmd::BgmWait(t) => 1 + t.byte_size(),
            SndCmd::BgmOnce(t) => 1 + t.byte_size(),
            SndCmd::BgmFadeInLoop(t, v) => 1 + t.byte_size() + v.byte_size(),
            SndCmd::BgmFadeInWait(t, v) => 1 + t.byte_size() + v.byte_size(),
            SndCmd::BgmFadeInOnce(t, v) => 1 + t.byte_size() + v.byte_size(),
            SndCmd::BgmFadeOut(v) => 1 + v.byte_size(),
            SndCmd::BgmStop => 1,
            SndCmd::BgmRewind => 1,
            SndCmd::BgmUnknown1 => 1,
            SndCmd::KoePlayWait(v) => 1 + v.byte_size(),
            SndCmd::KoePlay(v) => 1 + v.byte_size(),
            SndCmd::KoePlay2(a, b) => 1 + a.byte_size() + b.byte_size(),
            SndCmd::WavPlay(t) => 1 + t.byte_size(),
            SndCmd::WavPlay2(t, v) => 1 + t.byte_size() + v.byte_size(),
            SndCmd::WavLoop(t) => 1 + t.byte_size(),
            SndCmd::WavLoop2(t, v) => 1 + t.byte_size() + v.byte_size(),
            SndCmd::WavPlayWait(t) => 1 + t.byte_size(),
            SndCmd::WavPlayWait2(t, v) => 1 + t.byte_size() + v.byte_size(),
            SndCmd::WavStop => 1,
            SndCmd::WavStop2(v) => 1 + v.byte_size(),
            SndCmd::WavStop3 => 1,
            SndCmd::WavUnknown0x39(v) => 1 + v.byte_size(),
            SndCmd::SePlay(v) => 1 + v.byte_size(),
            SndCmd::MoviePlay(t, a, b, c, d) => 1 + t.byte_size() + a.byte_size() + b.byte_size()
                + c.byte_size() + d.byte_size(),
            SndCmd::MovieLoop(t, a, b, c, d) => 1 + t.byte_size() + a.byte_size() + b.byte_size()
                + c.byte_size() + d.byte_size(),
            SndCmd::MovieWait(t, a, b, c, d) => 1 + t.byte_size() + a.byte_size() + b.byte_size()
                + c.byte_size() + d.byte_size(),
            SndCmd::MovieWaitCancelable(t, a, b, c, d) => 1 + t.byte_size() + a.byte_size()
                + b.byte_size() + c.byte_size() + d.byte_size(),
            SndCmd::MovieWait2(t, u, a, b, c, d) => 1 + t.byte_size() + u.byte_size()
                + a.byte_size() + b.byte_size() + c.byte_size() + d.byte_size(),
            SndCmd::MovieWaitCancelable2(t, u, a, b, c, d) => 1 + t.byte_size() + u.byte_size()
                + a.byte_size() + b.byte_size() + c.byte_size() + d.byte_size(),
            SndCmd::Unknown1 => 1,
        }
    }

    #[verifier::rlimit(100)]
    #[verifier::spinoff_prover]
    fn write(&self, out: &mut Vec<u8>) -> (r: Result<(), CodecError>) {
        match self {
            SndCmd::BgmLoop(t) => {
                out.push(0x01);
                t.write(out)?;
            },
            SndCmd::BgmWait(t) => {
                out.push(0x02);
                t.write(out)?;
            },
            SndCmd::BgmOnce(t) => {
                out.push(0x03);
                t.write(out)?;
            },
            SndCmd::BgmFadeInLoop(t, v) => {
                out.push(0x05);
                t.write(out)?;
                v.write(out)?;
            },
            SndCmd::BgmFadeInWait(t, v) => {
                out.push(0x06);
                t.write(out)?;
                v.write(out)?;
            },
            SndCmd::BgmFadeInOnce(t, v) => {
                out.push(0x07);
                t.write(out)?;
                v.write(out)?;
            },
            SndCmd::BgmFadeOut(v) => {
                out.push(0x10);
                v.write(out)?;
            },
            SndCmd::BgmStop => out.push(0x11),
            SndCmd::BgmRewind => out.push(0x12),
            SndCmd::BgmUnknown1 => out.push(0x16),
            SndCmd::KoePlayWait(v) => {
                out.push(0x20);
                v.write(out)?;
            },
            SndCmd::KoePlay(v) => {
                out.push(0x21);
                v.write(out)?;
            },
            SndCmd::KoePlay2(a, b) => {
                out.push(0x22);
                a.write(out)?;
                b.write(out)?;
            },
            SndCmd::WavPlay(t) => {
                out.push(0x30);
                t.write(out)?;
            },
            SndCmd::WavPlay2(t, v) => {
                out.push(0x31);
                t.write(out)?;
                v.write(out)?;
            },
            SndCmd::WavLoop(t) => {
                out.push(0x32);
                t.write(out)?;
            },
            SndCmd::WavLoop2(t, v) => {
                out.push(0x33);
                t.write(out)?;
                v.write(out)?;
            },
            SndCmd::WavPlayWait(t) => {
                out.push(0x34);
                t.write(out)?;
            },
            SndCmd::WavPlayWait2(t, v) => {
                out.push(0x35);
                t.write(out)?;
                v.write(out)?;
            },
            SndCmd::WavStop => out.push(0x36),
            SndCmd::WavStop2(v) => {
                out.push(0x37);
                v.write(out)?;
            },
            SndCmd::WavStop3 => out.push(0x38),
            SndCmd::WavUnknown0x39(v) => {
                out.push(0x39);
                v.write(out)?;
            },
            SndCmd::SePlay(v) => {
                out.push(0x44);
                v.write(out)?;
            },
            SndCmd::MoviePlay(t, a, b, c, d) => {
                out.push(0x50);
                t.write(out)?;
                a.write(out)?;
                b.write(out)?;
                c.write(out)?;
                d.write(out)?;
            },
            SndCmd::MovieLoop(t, a, b, c, d) => {
                out.push(0x51);
                t.write(out)?;
                a.write(out)?;
                b.write(out)?;
                c.write(out)?;
                d.write(out)?;
            },
            SndCmd::MovieWait(t, a, b, c, d) => {
                out.push(0x52);
                t.write(out)?;
                a.write(out)?;
                b.write(out)?;
                c.write(out)?;
                d.write(out)?;
            },
            SndCmd::MovieWaitCancelable(t, a, b, c, d) => {
                out.push(0x53);
                t.write(out)?;
                a.write(out)?;
                b.write(out)?;
                c.write(out)?;
                d.write(out)?;
            },
            SndCmd::MovieWait2(t, u, a, b, c, d) => {
                out.push(0x54);
                t.write(out)?;
                u.write(out)?;
                a.write(out)?;
                b.write(out)?;
                c.write(out)?;
                d.write(out)?;
            },
            SndCmd::MovieWaitCancelable2(t, u, a, b, c, d) => {
                out.push(0x55);
                t.write(out)?;
                u.write(out)?;
                a.write(out)?;
                b.write(out)?;
                c.write(out)?;
                d.write(out)?;
            },
            SndCmd::Unknown1 => out.push(0x60),
        }
        assert(out@ =~= old(out)@ + self.wire());
        Ok(())
    }
}

/// Parse a sound command. The movie variants that take two file names
/// (`MovieWait2`, `MovieWaitCancelable2`) have no reachable dispatch byte
/// and are never produced by parsing.
pub fn snd_cmd(s: &[u8], pos: usize) -> (r: Result<(SndCmd, usize), CodecError>)
    requires
        pos <= s@.len(),
    ensures
        r matches Ok((c, end)) ==> pos < end <= s@.len() && c.wf()
            && c.wire().len() <= end - pos
            && (c.wire().len() == end - pos ==> c.wire() == s@.subrange(pos as int, end as int)),
        r matches Err(e) ==> crate::codec::parse_error(e),
{
    let (tag, p0) = read_u8(s, pos)?;
    match tag {
        0x11 | 0x12 | 0x16 | 0x36 | 0x38 | 0x60 => {
            let c = match tag {
                0x11 => SndCmd::BgmStop,
                0x12 => SndCmd::BgmRewind,
                0x16 => SndCmd::BgmUnknown1,
                0x36 => SndCmd::WavStop,
                0x38 => SndCmd::WavStop3,
                _ => SndCmd::Unknown1,
            };
            proof {
                assert(c.wire().len() <= p0 - pos);
                if c.wire().len() == p0 - pos {
                    assert(c.wire() =~= s@.subrange(pos as int, p0 as int));
                }
            }
            Ok((c, p0))
        },
        0x01 | 0x02 | 0x03 | 0x30 | 0x32 | 0x34 => {
            let (t, p1) = scene_text(s, p0)?;
            let c = match tag {
                0x01 => SndCmd::BgmLoop(t),
                0x02 => SndCmd::BgmWait(t),
                0x03 => SndCmd::BgmOnce(t),
                0x30 => SndCmd::WavPlay(t),
                0x32 => SndCmd::WavLoop(t),
                _ => SndCmd::WavPlayWait(t),
            };
            proof {
                assert(s@.subrange(pos as int, p0 as int) + s@.subrange(p0 as int, p1 as int)
                    == s@.subrange(pos as int, p1 as int));
                assert(c.wire().len() <= p1 - pos);
                if c.wire().len() == p1 - pos {
                    assert(c.wire() =~= s@.subrange(pos as int, p1 as int));
                }
            }
            Ok((c, p1))
        },
        0x05 | 0x06 | 0x07 | 0x31 | 0x33 | 0x35 => {
            let (t, p1) = scene_text(s, p0)?;
            let (v, p2) = scene_value(s, p1)?;
            let c = match tag {
                0x05 => SndCmd::BgmFadeInLoop(t, v),
                0x06 => SndCmd::BgmFadeInWait(t, v),
                0x07 => SndCmd::BgmFadeInOnce(t, v),
                0x31 => SndCmd::WavPlay2(t, v),
                0x33 => SndCmd::WavLoop2(t, v),
                _ => SndCmd::WavPlayWait2(t, v),
            };
            proof {
                assert(s@.subrange(pos as int, p0 as int) + s@.subrange(p0 as int, p1 as int)
                    == s@.subrange(pos as int, p1 as int));
                assert(s@.subrange(pos as int, p1 as int) + s@.subrange(p1 as int, p2 as int)
                    == s@.subrange(pos as int, p2 as int));
                assert(c.wire().len() <= p2 - pos);
                if c.wire().len() == p2 - pos {
                    assert(c.wire() =~= s@.subrange(pos as int, p2 as int));
                }
            }
            Ok((c, p2))
        },
        0x10 | 0x20 | 0x21 | 0x37 | 0x39 | 0x44 => {
            let (v, p1) = scene_value(s, p0)?;
            let c = match tag {
                0x10 => SndCmd::BgmFadeOut(v),
                0x20 => SndCmd::KoePlayWait(v),
                0x21 => SndCmd::KoePlay(v),
                0x37 => SndCmd::WavStop2(v),
                0x39 => SndCmd::WavUnknown0x39(v),
                _ => SndCmd::SePlay(v),
            };
            proof {
                assert(s@.subrange(pos as int, p0 as int) + s@.subrange(p0 as int, p1 as int)
                    == s@.subrange(pos as int, p1 as int));
                assert(c.wire().len() <= p1 - pos);
                if c.wire().len() == p1 - pos {
                    assert(c.wire() =~= s@.subrange(pos as int, p1 as int));
                }
            }
            Ok((c, p1))
        },
        0x22 => {
            let (a, p1) = scene_value(s, p0)?;
            let (b, p2) = scene_value(s, p1)?;
            let c = SndCmd::KoePlay2(a, b);
            proof {
                assert(s@.subrange(pos as int, p0 as int) + s@.subrange(p0 as int, p1 as int)
                    == s@.subrange(pos as int, p1 as int));
                assert(s@.subrange(pos as int, p1 as int) + s@.subrange(p1 as int, p2 as int)
                    == s@.subrange(pos as int, p2 as int));
                assert(c.wire().len() <= p2 - pos);
                if c.wire().len() == p2 - pos {
                    assert(c.wire() =~= s@.subrange(pos as int, p2 as int));
                }
            }
            Ok((c, p2))
        },
        0x50 | 0x51 | 0x52 | 0x53 => {
            let (t, p1) = scene_text(s, p0)?;
            let (a, p2) = scene_value(s, p1)?;
            let (b, p3) = scene_value(s, p2)?;
            let (cv, p4) = scene_value(s, p3)?;
            let (d, p5) = scene_value(s, p4)?;
            let c = match tag {
                0x50 => SndCmd::MoviePlay(t, a, b, cv, d),
                0x51 => SndCmd::MovieLoop(t, a, b, cv, d),
                0x52 => SndCmd::MovieWait(t, a, b, cv, d),
                _ => SndCmd::MovieWaitCancelable(t, a, b, cv, d),
            };
            proof {
                assert(s@.subrange(pos as int, p0 as int) + s@.subrange(p0 as int, p1 as int)
                    == s@.subrange(pos as int, p1 as int));
                assert(s@.subrange(pos as int, p1 as int) + s@.subrange(p1 as int, p2 as int)
                    == s@.subrange(pos as int, p2 as int));
                assert(s@.subrange(pos as int, p2 as int) + s@.subrange(p2 as int, p3 as int)
                    == s@.subrange(pos as int, p3 as int));
                assert(s@.subrange(pos as int, p3 as int) + s@.subrange(p3 as int, p4 as int)
                    == s@.subrange(pos as int, p4 as int));
                assert(s@.subrange(pos as int, p4 as int) + s@.subrange(p4 as int, p5 as int)
                    == s@.subrange(pos as int, p5 as int));
                assert(c.wire().len() <= p5 - pos);
                if c.wire().len() == p5 - pos {
                    assert(c.wire() =~= s@.subrange(pos as int, p5 as int));
                }
            }
            Ok((c, p5))
        },
        _ => Err(CodecError::UnknownSubcommand(0x0e, tag)),
    }
}

} // verus!
