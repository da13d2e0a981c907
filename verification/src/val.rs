//! Width-prefixed 28-bit values (`Val`) and control-flow positions (`Pos`).
//!
//! A `Val` occupies one to five bytes. Byte 0 packs a variable-reference
//! flag (bit 7), the total width (bits 4..6) and the low nibble of the
//! value; each further byte carries eight more bits, little-endian.
use vstd::prelude::*;
use crate::codec::{CodecError, Writeable, le32, read_u32};

verus! {

/// Whether a value is a literal constant or a variable reference.
#[derive(Debug, PartialEq, Eq, Clone, Copy)]
pub enum ValType {
    Const,
    Var,
}

/// A literal value or variable index, width-encoded on the wire.
#[derive(Debug, PartialEq, Eq, Clone, Copy)]
pub struct Val(pub u32, pub ValType);

/// The minimal number of wire bytes that can hold `x`.
pub open spec fn val_width(x: u32) -> int {
    if x <= 0xf {
        1
    } else if x <= 0xfff {
        2
    } else if x <= 0xfffff {
        3
    } else if x <= 0xfffffff {
        4
    } else {
        5
    }
}

/// The first wire byte: flag bit, width field, low nibble of the value.
pub open spec fn val_tag(v: Val) -> u8 {
    ((((val_width(v.0) as u32) << 4) | (v.0 & 0xf)
        | if v.1 == ValType::Var { 0x80u32 } else { 0u32 }) as u8)
}

/// The canonical byte image of a `Val`.
pub open spec fn val_wire(v: Val) -> Seq<u8> {
    let x = v.0;
    let w = val_width(x);
    if w == 1 {
        seq![val_tag(v)]
    } else if w == 2 {
        seq![val_tag(v), ((x >> 4) & 0xff) as u8]
    } else if w == 3 {
        seq![val_tag(v), ((x >> 4) & 0xff) as u8, ((x >> 12) & 0xff) as u8]
    } else if w == 4 {
        seq![
            val_tag(v),
            ((x >> 4) & 0xff) as u8,
            ((x >> 12) & 0xff) as u8,
            ((x >> 20) & 0xff) as u8,
        ]
    } else {
        seq![
            val_tag(v),
            ((x >> 4) & 0xff) as u8,
            ((x >> 12) & 0xff) as u8,
            ((x >> 20) & 0xff) as u8,
            ((x >> 28) & 0xff) as u8,
        ]
    }
}

impl Writeable for Val {
    open spec fn wire(&self) -> Seq<u8> {
        val_wire(*self)
    }

    open spec fn wf(&self) -> bool {
        true
    }

    open spec fn compiled(&self) -> bool {
        true
    }

    fn byte_size(&self) -> (r: usize) {
        let x = self.0;
        if x <= 0xf {
            assert(self.wire().len() == 1);
            1
        } else if x <= 0xfff {
            assert(self.wire().len() == 2);
            2
        } else if x <= 0xfffff {
            assert(self.wire().len() == 3);
            3
        } else if x <= 0xfffffff {
            assert(self.wire().len() == 4);
            4
        } else {
            assert(self.wire().len() == 5);
            5
        }
    }

    fn write(&self, out: &mut Vec<u8>) -> (r: Result<(), CodecError>) {
        let x = self.0;
        let w: u32 = if x <= 0xf {
            1
        } else if x <= 0xfff {
            2
        } else if x <= 0xfffff {
            3
        } else if x <= 0xfffffff {
            4
        } else {
            5
        };
        let var_bit: u32 = match self.1 {
            ValType::Var => 0x80,
            ValType::Const => 0,
        };
        assert((w << 4) | (x & 0xf) | var_bit <= 0xff) by (bit_vector)
            requires w <= 5, var_bit == 0x80 || var_bit == 0;
        let tag: u8 = ((w << 4) | (x & 0xf) | var_bit) as u8;
        assert(tag == val_tag(*self));
        out.push(tag);
        if w >= 2 {
            assert((x >> 4) & 0xff <= 0xff && (x >> 12) & 0xff <= 0xff
                && (x >> 20) & 0xff <= 0xff && (x >> 28) & 0xff <= 0xff) by (bit_vector);
            out.push(((x >> 4) & 0xff) as u8);
            if w >= 3 {
                out.push(((x >> 12) & 0xff) as u8);
                if w >= 4 {
                    out.push(((x >> 20) & 0xff) as u8);
                    if w >= 5 {
                        out.push(((x >> 28) & 0xff) as u8);
                    }
                }
            }
        }
        assert(out@ =~= old(out)@ + self.wire());
        Ok(())
    }
}

/// The width field of a leading wire byte.
pub open spec fn val_head_width(b: u8) -> int {
    ((b >> 4) & 7) as int
}

/// The inputs on which a `Val` parse succeeds: a nonzero width field,
/// enough bytes, and, for a five-or-more-byte width, a fifth payload byte
/// inside the 32-bit value domain. Non-minimal widths are accepted; widths
/// of six or seven consume their bytes but contribute no bits beyond the
/// fifth, which is how the format's 32-bit accumulator behaves.
pub open spec fn val_parses(s: Seq<u8>, pos: int) -> bool {
    pos < s.len() && {
        let w = val_head_width(s[pos]);
        1 <= w && pos + w <= s.len() && (w >= 5 ==> s[pos + 4] <= 0xf)
    }
}

/// The value a wire region assembles to: the low nibble of the first byte,
/// then eight bits per following byte, little-endian, within 32 bits.
pub open spec fn val_decode(s: Seq<u8>, pos: int) -> Val {
    let b0 = s[pos];
    let w = val_head_width(b0);
    let kind = if b0 & 0x80 == 0x80 {
        ValType::Var
    } else {
        ValType::Const
    };
    let nib = (b0 & 0xf) as u32;
    let x: u32 = if w == 1 {
        nib
    } else if w == 2 {
        nib | (s[pos + 1] as u32) << 4
    } else if w == 3 {
        nib | (s[pos + 1] as u32) << 4 | (s[pos + 2] as u32) << 12
    } else if w == 4 {
        nib | (s[pos + 1] as u32) << 4 | (s[pos + 2] as u32) << 12 | (s[pos + 3] as u32) << 20
    } else {
        nib | (s[pos + 1] as u32) << 4 | (s[pos + 2] as u32) << 12 | (s[pos + 3] as u32) << 20
            | ((s[pos + 4] & 0xf) as u32) << 28
    };
    Val(x, kind)
}

/// Where a value encoding starting at `pos` ends, when the parse accepts it.
pub open spec fn val_end(s: Seq<u8>, pos: int) -> Option<int> {
    if val_parses(s, pos) {
        Some(pos + val_head_width(s[pos]))
    } else {
        None
    }
}

/// Parse a width-prefixed value at `pos`: any width the format can express
/// is accepted and the assembled value is pinned exactly. A minimally
/// encoded region re-serializes to the very bytes consumed; a non-minimal
/// one re-serializes shorter, which is exactly when the byte images differ.
/// `MalformedVal` names the two encodings the value domain cannot hold.
pub fn scene_value(s: &[u8], pos: usize) -> (r: Result<(Val, usize), CodecError>)
    requires
        pos <= s@.len(),
    ensures
        r is Ok <==> val_parses(s@, pos as int),
        r matches Ok((v, end)) ==> pos < end <= s@.len()
            && end - pos == val_head_width(s@[pos as int])
            && v == val_decode(s@, pos as int)
            && v.wire().len() <= end - pos
            && (v.wire().len() == end - pos ==> v.wire() == s@.subrange(pos as int, end as int)),
        r matches Err(e) ==> crate::codec::parse_error(e),
{
    if pos >= s.len() {
        return Err(CodecError::UnexpectedEof);
    }
    let b0 = s[pos];
    let w: u8 = (b0 >> 4) & 7;
    assert(w == val_head_width(b0));
    if w < 1 {
        return Err(CodecError::MalformedVal);
    }
    if s.len() - pos < w as usize {
        return Err(CodecError::UnexpectedEof);
    }
    let is_var = b0 & 0x80 == 0x80;
    let kind = if is_var {
        ValType::Var
    } else {
        ValType::Const
    };
    let var_bit: u32 = if is_var {
        0x80
    } else {
        0
    };
    let nib: u32 = (b0 & 0xf) as u32;
    let end = pos + w as usize;
    let v: Val;
    if w == 1 {
        let x = nib;
        v = Val(x, kind);
        assert(x <= 0xf && ((1u32 << 4) | (x & 0xf) | var_bit) == b0 as u32) by (bit_vector)
            requires
                x == (b0 & 0xf) as u32,
                var_bit == if b0 & 0x80 == 0x80 { 0x80u32 } else { 0u32 },
                (b0 >> 4) & 7 == 1;
        assert(val_width(x) == 1);
        assert(v == val_decode(s@, pos as int));
        assert(val_tag(v) == b0);
        assert(v.wire() =~= s@.subrange(pos as int, end as int));
    } else if w == 2 {
        let b1 = s[pos + 1];
        let x = nib | ((b1 as u32) << 4);
        v = Val(x, kind);
        assert(x <= 0xfff && (x >> 4) & 0xff == b1 as u32
            && (b1 != 0 ==> x >= 0x10)
            && (x >= 0x10 ==> ((2u32 << 4) | (x & 0xf) | var_bit) == b0 as u32)) by (bit_vector)
            requires
                x == ((b0 & 0xf) as u32) | ((b1 as u32) << 4),
                var_bit == if b0 & 0x80 == 0x80 { 0x80u32 } else { 0u32 },
                (b0 >> 4) & 7 == 2;
        assert(val_width(x) <= 2);
        assert(v == val_decode(s@, pos as int));
        proof {
            if v.wire().len() == end - pos {
                assert(val_width(x) == 2 && x >= 0x10);
                assert(val_tag(v) == b0);
                assert(v.wire() =~= s@.subrange(pos as int, end as int));
            }
        }
    } else if w == 3 {
        let b1 = s[pos + 1];
        let b2 = s[pos + 2];
        let x = nib | ((b1 as u32) << 4) | ((b2 as u32) << 12);
        v = Val(x, kind);
        assert(x <= 0xfffff && (x >> 4) & 0xff == b1 as u32 && (x >> 12) & 0xff == b2 as u32
            && (x >= 0x1000 ==> ((3u32 << 4) | (x & 0xf) | var_bit) == b0 as u32)) by (bit_vector)
            requires
                x == ((b0 & 0xf) as u32) | ((b1 as u32) << 4) | ((b2 as u32) << 12),
                var_bit == if b0 & 0x80 == 0x80 { 0x80u32 } else { 0u32 },
                (b0 >> 4) & 7 == 3;
        assert(val_width(x) <= 3);
        assert(v == val_decode(s@, pos as int));
        proof {
            if v.wire().len() == end - pos {
                assert(val_width(x) == 3 && x >= 0x1000);
                assert(val_tag(v) == b0);
                assert(v.wire() =~= s@.subrange(pos as int, end as int));
            }
        }
    } else if w == 4 {
        let b1 = s[pos + 1];
        let b2 = s[pos + 2];
        let b3 = s[pos + 3];
        let x = nib | ((b1 as u32) << 4) | ((b2 as u32) << 12) | ((b3 as u32) << 20);
        v = Val(x, kind);
        assert(x <= 0xfffffff && (x >> 4) & 0xff == b1 as u32 && (x >> 12) & 0xff == b2 as u32
            && (x >> 20) & 0xff == b3 as u32
            && (x >= 0x100000 ==> ((4u32 << 4) | (x & 0xf) | var_bit) == b0 as u32)) by (bit_vector)
            requires
                x == ((b0 & 0xf) as u32) | ((b1 as u32) << 4) | ((b2 as u32) << 12)
                    | ((b3 as u32) << 20),
                var_bit == if b0 & 0x80 == 0x80 { 0x80u32 } else { 0u32 },
                (b0 >> 4) & 7 == 4;
        assert(val_width(x) <= 4);
        assert(v == val_decode(s@, pos as int));
        proof {
            if v.wire().len() == end - pos {
                assert(val_width(x) == 4 && x >= 0x100000);
                assert(val_tag(v) == b0);
                assert(v.wire() =~= s@.subrange(pos as int, end as int));
            }
        }
    } else {
        let b1 = s[pos + 1];
        let b2 = s[pos + 2];
        let b3 = s[pos + 3];
        let b4 = s[pos + 4];
        if b4 > 0xf {
            return Err(CodecError::MalformedVal);
        }
        let x = nib | ((b1 as u32) << 4) | ((b2 as u32) << 12) | ((b3 as u32) << 20)
            | (((b4 & 0xf) as u32) << 28);
        v = Val(x, kind);
        assert((x >> 4) & 0xff == b1 as u32 && (x >> 12) & 0xff == b2 as u32
            && (x >> 20) & 0xff == b3 as u32 && (x >> 28) & 0xff == b4 as u32
            && (x >= 0x10000000 ==> ((5u32 << 4) | (x & 0xf) | var_bit) == b0 as u32
                || (b0 >> 4) & 7 != 5)) by (bit_vector)
            requires
                x == ((b0 & 0xf) as u32) | ((b1 as u32) << 4) | ((b2 as u32) << 12)
                    | ((b3 as u32) << 20) | (((b4 & 0xf) as u32) << 28),
                var_bit == if b0 & 0x80 == 0x80 { 0x80u32 } else { 0u32 },
                (b0 >> 4) & 7 >= 5,
                b4 <= 0xf;
        assert(val_width(x) <= 5);
        assert(v == val_decode(s@, pos as int));
        proof {
            if v.wire().len() == end - pos {
                assert(end - pos == 5 && val_width(x) == 5 && x >= 0x10000000);
                assert(val_tag(v) == b0);
                assert(v.wire() =~= s@.subrange(pos as int, end as int));
            }
        }
    }
    Ok((v, end))
}

/// A control-flow target: either a byte offset into the opcode stream or a
/// symbolic label. Only byte offsets can be serialized; the label pass is
/// the sole code that migrates between the two states.
#[derive(Debug, PartialEq, Eq, Clone)]
pub enum Pos {
    Offset(u32),
    Label(String),
}

impl Writeable for Pos {
    open spec fn wire(&self) -> Seq<u8> {
        match self {
            Pos::Offset(x) => le32(*x),
            Pos::Label(_) => le32(0),
        }
    }

    open spec fn wf(&self) -> bool {
        true
    }

    open spec fn compiled(&self) -> bool {
        self is Offset
    }

    fn byte_size(&self) -> (r: usize) {
        4
    }

    fn write(&self, out: &mut Vec<u8>) -> (r: Result<(), CodecError>)
        ensures
            r is Err ==> final(out)@ == old(out)@
                && r == Err::<(), CodecError>(CodecError::UncompiledPos),
    {
        match self {
            Pos::Offset(x) => x.write(out),
            Pos::Label(_) => Err(CodecError::UncompiledPos),
        }
    }
}

/// Parse a four-byte little-endian byte offset.
pub fn scene_pos(s: &[u8], pos: usize) -> (r: Result<(Pos, usize), CodecError>)
    requires
        pos <= s@.len(),
    ensures
        r is Ok <==> pos + 4 <= s@.len(),
        r matches Ok((p, end)) ==> end == pos + 4 && p.compiled() && p.wf()
            && p.wire() == s@.subrange(pos as int, end as int),
        r matches Err(e) ==> crate::codec::parse_error(e),
{
    let (x, end) = read_u32(s, pos)?;
    Ok((Pos::Offset(x), end))
}

} // verus!
