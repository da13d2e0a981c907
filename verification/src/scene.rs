//! A whole scene: the header followed by the opcode stream and its final
//! NUL sentinel, which the wire form requires even for an empty stream.
use vstd::prelude::*;
use crate::codec::{CodecError, Writeable, read_u8, seq_wire, seq_wf, seq_compiled, lemma_seq_wire_push, lemma_subrange_glue};
use crate::header::{Header, header};
use crate::opcode::{Opcode, opcode};

verus! {

broadcast use lemma_subrange_glue;

/// A parsed scene: its header and its ordered instruction list.
#[derive(Debug, PartialEq, Eq, Clone)]
pub struct AVG32Scene {
    pub header: Header,
    pub opcodes: Vec<Opcode>,
}

impl Writeable for AVG32Scene {
    open spec fn wire(&self) -> Seq<u8> {
        self.header.wire() + seq_wire(self.opcodes@) + seq![0u8]
    }

    open spec fn wf(&self) -> bool {
        self.header.wf() && seq_wf(self.opcodes@)
    }

    open spec fn compiled(&self) -> bool {
        seq_compiled(self.opcodes@)
    }

    fn byte_size(&self) -> (r: usize) {
        self.header.byte_size() + self.opcodes.byte_size() + 1
    }

    fn write(&self, out: &mut Vec<u8>) -> (r: Result<(), CodecError>) {
        self.header.write(out)?;
        self.opcodes.write(out)?;
        out.push(0);
        assert(out@ =~= old(out)@ + self.wire());
        Ok(())
    }
}

/// Parse opcodes at `pos` until the byte before the NUL sentinel; the
/// sentinel itself is not consumed.
pub fn opcodes(s: &[u8], pos: usize) -> (r: Result<(Vec<Opcode>, usize), CodecError>)
    requires
        pos <= s@.len(),
    ensures
        r matches Ok((ops, end)) ==> pos <= end < s@.len() && seq_wf(ops@)
            && seq_compiled(ops@)
            && seq_wire(ops@).len() <= end - pos
            && (seq_wire(ops@).len() == end - pos ==> seq_wire(ops@)
                == s@.subrange(pos as int, end as int))
            && s@[end as int] == 0,
        r matches Err(e) ==> crate::codec::parse_error(e),
{
    let mut ops: Vec<Opcode> = Vec::new();
    let mut cur: usize = pos;
    loop
        invariant
            pos <= cur <= s@.len(),
            seq_wire(ops@).len() <= cur - pos,
            seq_wire(ops@).len() == cur - pos ==> seq_wire(ops@)
                == s@.subrange(pos as int, cur as int),
            seq_wf(ops@),
            seq_compiled(ops@),
        decreases s@.len() - cur,
    {
        let (b, after) = read_u8(s, cur)?;
        if b == 0 {
            proof {
                assert(after == cur + 1 && after <= s@.len());
                assert(s@.subrange(cur as int, after as int)[0] == b);
                assert(s@[cur as int] == 0);
            }
            return Ok((ops, cur));
        }
        let (op, next) = opcode(s, cur)?;
        proof {
            lemma_seq_wire_push(ops@, op);
            assert(s@.subrange(pos as int, cur as int) + s@.subrange(cur as int, next as int)
                == s@.subrange(pos as int, next as int));
            assert(seq_wire(ops@.push(op)).len() <= next - pos);
            if seq_wire(ops@.push(op)).len() == next - pos {
                assert(seq_wire(ops@).len() == cur - pos && op.wire().len() == next - cur);
                assert(seq_wire(ops@.push(op)) =~= s@.subrange(pos as int, next as int));
            }
        }
        ops.push(op);
        cur = next;
    }
}

/// Parse a whole scene file starting at `pos`: header, opcode stream,
/// sentinel, and nothing after it. The parsed scene's byte image equals
/// the input when every width-prefixed value inside is minimally encoded,
/// and then writing it back reproduces the file.
pub fn avg32_scene(s: &[u8], pos: usize) -> (r: Result<(AVG32Scene, usize), CodecError>)
    requires
        pos <= s@.len(),
    ensures
        r matches Ok((sc, end)) ==> pos < end <= s@.len() && sc.wf() && sc.compiled()
            && end == s@.len()
            && sc.wire().len() <= end - pos
            && (sc.wire().len() == end - pos ==> sc.wire() == s@.subrange(pos as int, end as int)),
        r matches Err(e) ==> crate::codec::parse_error(e),
{
    let (h, p0) = header(s, pos)?;
    let (ops, p1) = opcodes(s, p0)?;
    let n = s.len();
    proof {
        assert(p1 < n);
    }
    let p2 = p1 + 1;
    if p2 != n {
        return Err(CodecError::TrailingBytes);
    }
    let sc = AVG32Scene { header: h, opcodes: ops };
    proof {
        assert(s@.subrange(p1 as int, p2 as int) =~= seq![0u8]);
        assert(s@.subrange(pos as int, p0 as int) + s@.subrange(p0 as int, p1 as int)
            == s@.subrange(pos as int, p1 as int));
        assert(s@.subrange(pos as int, p1 as int) + s@.subrange(p1 as int, p2 as int)
            == s@.subrange(pos as int, p2 as int));
        assert(sc.wire().len() <= p2 - pos);
        if sc.wire().len() == p2 - pos {
            assert(seq_wire(ops@).len() == p1 - p0);
            assert(seq_wire(ops@) == s@.subrange(p0 as int, p1 as int));
            assert(sc.wire() =~= s@.subrange(pos as int, p2 as int));
        }
    }
    Ok((sc, p2))
}

/// Parse a scene from a complete byte buffer. A minimally encoded file
/// (every width-prefixed value at its smallest width, which every file the
/// serializer produces is) has a byte image of the file's own length, and
/// then writing the result reproduces the file exactly; a file holding a
/// non-minimal value loads to a scene whose image is strictly shorter.
pub fn load_bytes(bytes: &[u8]) -> (r: Result<AVG32Scene, CodecError>)
    ensures
        r matches Ok(sc) ==> sc.wf() && sc.compiled()
            && sc.wire().len() <= bytes@.len()
            && (sc.wire().len() == bytes@.len() ==> sc.wire() == bytes@),
        r matches Err(e) ==> crate::codec::parse_error(e),
{
    let (sc, _) = avg32_scene(bytes, 0)?;
    proof {
        assert(bytes@.subrange(0, bytes@.len() as int) =~= bytes@);
    }
    Ok(sc)
}

} // verus!
