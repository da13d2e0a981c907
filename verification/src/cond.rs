//! The condition-list grammar of the `Condition` opcode and of formatted
//! text: a flat token list whose nesting is implicit in `IncDepth` and
//! `DecDepth` tags; the list ends when a `DecDepth` returns the depth
//! counter to zero.
use vstd::prelude::*;
use crate::codec::{CodecError, Writeable, seq_wire, lemma_seq_wire_push, lemma_subrange_glue};
use crate::val::{Val, val_wire, scene_value, val_end, val_decode, val_head_width};

verus! {

broadcast use lemma_subrange_glue;

/// The result attribute of a `Ret` condition.
#[derive(Debug, PartialEq, Eq, Clone)]
pub enum Ret {
    Color(Val),
    Choice,
    DisabledChoice(Val),
}

impl Writeable for Ret {
    open spec fn wire(&self) -> Seq<u8> {
        match self {
            Ret::Color(v) => seq![0x20u8] + val_wire(*v),
            Ret::Choice => seq![0x21u8],
            Ret::DisabledChoice(v) => seq![0x22u8] + val_wire(*v),
        }
    }

    open spec fn wf(&self) -> bool {
        true
    }

    open spec fn compiled(&self) -> bool {
        true
    }

    fn byte_size(&self) -> (r: usize) {
        match self {
            Ret::Color(v) => 1 + v.byte_size(),
            Ret::Choice => 1,
            Ret::DisabledChoice(v) => 1 + v.byte_size(),
        }
    }

    fn write(&self, out: &mut Vec<u8>) -> (r: Result<(), CodecError>) {
        match self {
            Ret::Color(v) => {
                out.push(0x20);
                v.write(out)?;
            },
            Ret::Choice => {
                out.push(0x21);
            },
            Ret::DisabledChoice(v) => {
                out.push(0x22);
                v.write(out)?;
            },
        }
        assert(out@ =~= old(out)@ + self.wire());
        Ok(())
    }
}

/// One token of a condition list: depth brackets, logical connectives,
/// two-value comparison atoms, or the result attribute.
#[derive(Debug, PartialEq, Eq, Clone)]
pub enum Condition {
    And,
    Or,
    IncDepth,
    DecDepth,
    BitNotEq(Val, Val),
    BitEq(Val, Val),
    NotEq(Val, Val),
    Eq(Val, Val),
    FlagNotEqConst(Val, Val),
    FlagEqConst(Val, Val),
    FlagAndConst(Val, Val),
    FlagAndConst2(Val, Val),
    FlagXorConst(Val, Val),
    FlagGtConst(Val, Val),
    FlagLtConst(Val, Val),
    FlagGeqConst(Val, Val),
    FlagLeqConst(Val, Val),
    FlagNotEq(Val, Val),
    FlagEq(Val, Val),
    FlagAnd(Val, Val),
    FlagAnd2(Val, Val),
    FlagXor(Val, Val),
    FlagGt(Val, Val),
    FlagLt(Val, Val),
    FlagGeq(Val, Val),
    FlagLeq(Val, Val),
    Ret(Ret),
}

/// The byte image of a two-value comparison atom.
pub open spec fn pair_wire(tag: u8, a: Val, b: Val) -> Seq<u8> {
    seq![tag] + val_wire(a) + val_wire(b)
}

impl Condition {
    /// The dispatch byte of this token.
    pub open spec fn tag(&self) -> u8 {
        match self {
            Condition::And => 0x26,
            Condition::Or => 0x27,
            Condition::IncDepth => 0x28,
            Condition::DecDepth => 0x29,
            Condition::BitNotEq(_, _) => 0x36,
            Condition::BitEq(_, _) => 0x37,
            Condition::NotEq(_, _) => 0x38,
            Condition::Eq(_, _) => 0x39,
            Condition::FlagNotEqConst(_, _) => 0x3a,
            Condition::FlagEqConst(_, _) => 0x3b,
            Condition::FlagAndConst(_, _) => 0x41,
            Condition::FlagAndConst2(_, _) => 0x42,
            Condition::FlagXorConst(_, _) => 0x43,
            Condition::FlagGtConst(_, _) => 0x44,
            Condition::FlagLtConst(_, _) => 0x45,
            Condition::FlagGeqConst(_, _) => 0x46,
            Condition::FlagLeqConst(_, _) => 0x47,
            Condition::FlagNotEq(_, _) => 0x48,
            Condition::FlagEq(_, _) => 0x49,
            Condition::FlagAnd(_, _) => 0x4f,
            Condition::FlagAnd2(_, _) => 0x50,
            Condition::FlagXor(_, _) => 0x51,
            Condition::FlagGt(_, _) => 0x52,
            Condition::FlagLt(_, _) => 0x53,
            Condition::FlagGeq(_, _) => 0x54,
            Condition::FlagLeq(_, _) => 0x55,
            Condition::Ret(_) => 0x58,
        }
    }

    /// The two values of a comparison atom, if this token is one.
    pub open spec fn atom_vals(&self) -> Option<(Val, Val)> {
        match self {
            Condition::BitNotEq(a, b) => Some((*a, *b)),
            Condition::BitEq(a, b) => Some((*a, *b)),
            Condition::NotEq(a, b) => Some((*a, *b)),
            Condition::Eq(a, b) => Some((*a, *b)),
            Condition::FlagNotEqConst(a, b) => Some((*a, *b)),
            Condition::FlagEqConst(a, b) => Some((*a, *b)),
            Condition::FlagAndConst(a, b) => Some((*a, *b)),
            Condition::FlagAndConst2(a, b) => Some((*a, *b)),
            Condition::FlagXorConst(a, b) => Some((*a, *b)),
            Condition::FlagGtConst(a, b) => Some((*a, *b)),
            Condition::FlagLtConst(a, b) => Some((*a, *b)),
            Condition::FlagGeqConst(a, b) => Some((*a, *b)),
            Condition::FlagLeqConst(a, b) => Some((*a, *b)),
            Condition::FlagNotEq(a, b) => Some((*a, *b)),
            Condition::FlagEq(a, b) => Some((*a, *b)),
            Condition::FlagAnd(a, b) => Some((*a, *b)),
            Condition::FlagAnd2(a, b) => Some((*a, *b)),
            Condition::FlagXor(a, b) => Some((*a, *b)),
            Condition::FlagGt(a, b) => Some((*a, *b)),
            Condition::FlagLt(a, b) => Some((*a, *b)),
            Condition::FlagGeq(a, b) => Some((*a, *b)),
            Condition::FlagLeq(a, b) => Some((*a, *b)),
            _ => None,
        }
    }
}

impl Writeable for Condition {
    open spec fn wire(&self) -> Seq<u8> {
        match self {
            Condition::Ret(rt) => seq![0x58u8] + rt.wire(),
            _ => match self.atom_vals() {
                Some((a, b)) => pair_wire(self.tag(), a, b),
                None => seq![self.tag()],
            },
        }
    }

    open spec fn wf(&self) -> bool {
        true
    }

    open spec fn compiled(&self) -> bool {
        true
    }

    fn byte_size(&self) -> (r: usize) {
        match self {
            Condition::Ret(rt) => 1 + rt.byte_size(),
            Condition::And => 1,
            Condition::Or => 1,
            Condition::IncDepth => 1,
            Condition::DecDepth => 1,
            Condition::BitNotEq(a, b) => 1 + a.byte_size() + b.byte_size(),
            Condition::BitEq(a, b) => 1 + a.byte_size() + b.byte_size(),
            Condition::NotEq(a, b) => 1 + a.byte_size() + b.byte_size(),
            Condition::Eq(a, b) => 1 + a.byte_size() + b.byte_size(),
            Condition::FlagNotEqConst(a, b) => 1 + a.byte_size() + b.byte_size(),
            Condition::FlagEqConst(a, b) => 1 + a.byte_size() + b.byte_size(),
            Condition::FlagAndConst(a, b) => 1 + a.byte_size() + b.byte_size(),
            Condition::FlagAndConst2(a, b) => 1 + a.byte_size() + b.byte_size(),
            Condition::FlagXorConst(a, b) => 1 + a.byte_size() + b.byte_size(),
            Condition::FlagGtConst(a, b) => 1 + a.byte_size() + b.byte_size(),
            Condition::FlagLtConst(a, b) => 1 + a.byte_size() + b.byte_size(),
            Condition::FlagGeqConst(a, b) => 1 + a.byte_size() + b.byte_size(),
            Condition::FlagLeqConst(a, b) => 1 + a.byte_size() + b.byte_size(),
            Condition::FlagNotEq(a, b) => 1 + a.byte_size() + b.byte_size(),
            Condition::FlagEq(a, b) => 1 + a.byte_size() + b.byte_size(),
            Condition::FlagAnd(a, b) => 1 + a.byte_size() + b.byte_size(),
            Condition::FlagAnd2(a, b) => 1 + a.byte_size() + b.byte_size(),
            Condition::FlagXor(a, b) => 1 + a.byte_size() + b.byte_size(),
            Condition::FlagGt(a, b) => 1 + a.byte_size() + b.byte_size(),
            Condition::FlagLt(a, b) => 1 + a.byte_size() + b.byte_size(),
            Condition::FlagGeq(a, b) => 1 + a.byte_size() + b.byte_size(),
            Condition::FlagLeq(a, b) => 1 + a.byte_size() + b.byte_size(),
        }
    }

    fn write(&self, out: &mut Vec<u8>) -> (r: Result<(), CodecError>) {
        match self {
            Condition::Ret(rt) => {
                out.push(0x58);
                rt.write(out)?;
            },
            Condition::And => {
                out.push(0x26);
            },
            Condition::Or => {
                out.push(0x27);
            },
            Condition::IncDepth => {
                out.push(0x28);
            },
            Condition::DecDepth => {
                out.push(0x29);
            },
            Condition::BitNotEq(a, b) => write_atom(0x36, a, b, out),
            Condition::BitEq(a, b) => write_atom(0x37, a, b, out),
            Condition::NotEq(a, b) => write_atom(0x38, a, b, out),
            Condition::Eq(a, b) => write_atom(0x39, a, b, out),
            Condition::FlagNotEqConst(a, b) => write_atom(0x3a, a, b, out),
            Condition::FlagEqConst(a, b) => write_atom(0x3b, a, b, out),
            Condition::FlagAndConst(a, b) => write_atom(0x41, a, b, out),
            Condition::FlagAndConst2(a, b) => write_atom(0x42, a, b, out),
            Condition::FlagXorConst(a, b) => write_atom(0x43, a, b, out),
            Condition::FlagGtConst(a, b) => write_atom(0x44, a, b, out),
            Condition::FlagLtConst(a, b) => write_atom(0x45, a, b, out),
            Condition::FlagGeqConst(a, b) => write_atom(0x46, a, b, out),
            Condition::FlagLeqConst(a, b) => write_atom(0x47, a, b, out),
            Condition::FlagNotEq(a, b) => write_atom(0x48, a, b, out),
            Condition::FlagEq(a, b) => write_atom(0x49, a, b, out),
            Condition::FlagAnd(a, b) => write_atom(0x4f, a, b, out),
            Condition::FlagAnd2(a, b) => write_atom(0x50, a, b, out),
            Condition::FlagXor(a, b) => write_atom(0x51, a, b, out),
            Condition::FlagGt(a, b) => write_atom(0x52, a, b, out),
            Condition::FlagLt(a, b) => write_atom(0x53, a, b, out),
            Condition::FlagGeq(a, b) => write_atom(0x54, a, b, out),
            Condition::FlagLeq(a, b) => write_atom(0x55, a, b, out),
        }
        assert(out@ =~= old(out)@ + self.wire());
        Ok(())
    }
}

/// Emit one comparison atom: its tag byte and its two values.
fn write_atom(tag: u8, a: &Val, b: &Val, out: &mut Vec<u8>)
    requires
        old(out)@.len() + pair_wire(tag, *a, *b).len() <= usize::MAX,
    ensures
        final(out)@ == old(out)@ + pair_wire(tag, *a, *b),
{
    out.push(tag);
    let r1 = a.write(out);
    let r2 = b.write(out);
    proof {
        assert(r1 is Ok && r2 is Ok);
        assert(out@ =~= old(out)@ + pair_wire(tag, *a, *b));
    }
}

/// The dispatch bytes the condition table knows.
pub open spec fn known_condition_tag(t: u8) -> bool {
    ||| t == 0x26 ||| t == 0x27 ||| t == 0x28 ||| t == 0x29 ||| t == 0x36 ||| t == 0x37
    ||| t == 0x38 ||| t == 0x39 ||| t == 0x3a ||| t == 0x3b ||| t == 0x41 ||| t == 0x42
    ||| t == 0x43 ||| t == 0x44 ||| t == 0x45 ||| t == 0x46 ||| t == 0x47 ||| t == 0x48
    ||| t == 0x49 ||| t == 0x4f ||| t == 0x50 ||| t == 0x51 ||| t == 0x52 ||| t == 0x53
    ||| t == 0x54 ||| t == 0x55 ||| t == 0x58
}

/// Parse one condition token at `pos`; a dispatch byte outside the table
/// yields exactly `UnknownConditionTag` naming it.
pub fn scene_condition(s: &[u8], pos: usize) -> (r: Result<(Condition, usize), CodecError>)
    requires
        pos <= s@.len(),
    ensures
        r is Ok <==> cond_token_end(s@, pos as int) is Some,
        r matches Ok((c, end)) ==> pos < end <= s@.len()
            && Some(end as int) == cond_token_end(s@, pos as int)
            && c == cond_token_decode(s@, pos as int)
            && c.tag() == s@[pos as int]
            && c.wire().len() <= end - pos
            && (c.wire().len() == end - pos ==> c.wire() == s@.subrange(pos as int, end as int)),
        pos < s@.len() && !known_condition_tag(s@[pos as int]) ==> r == Err::<(Condition, usize),
            CodecError>(CodecError::UnknownConditionTag(s@[pos as int])),
        pos + 1 < s@.len() && s@[pos as int] == 0x58 && s@[pos + 1] != 0x20
            && s@[pos + 1] != 0x21 && s@[pos + 1] != 0x22 ==> r == Err::<(Condition, usize),
            CodecError>(CodecError::UnknownConditionTag(s@[pos + 1])),
        r matches Err(e) ==> crate::codec::parse_error(e),
{
    let (tag, p0) = crate::codec::read_u8(s, pos)?;
    proof {
        assert(s@.subrange(pos as int, p0 as int)[0] == tag);
        assert(s@[pos as int] == tag);
    }
    match tag {
        0x26 => {
            let c = Condition::And;
            proof {
                assert(c == cond_token_decode(s@, pos as int));
                assert(c.wire().len() <= p0 - pos);
                if c.wire().len() == p0 - pos {
                    assert(c.wire() =~= s@.subrange(pos as int, p0 as int));
                }
            }
            Ok((c, p0))
        },
        0x27 => {
            let c = Condition::Or;
            proof {
                assert(c == cond_token_decode(s@, pos as int));
                assert(c.wire().len() <= p0 - pos);
                if c.wire().len() == p0 - pos {
                    assert(c.wire() =~= s@.subrange(pos as int, p0 as int));
                }
            }
            Ok((c, p0))
        },
        0x28 => {
            let c = Condition::IncDepth;
            proof {
                assert(c == cond_token_decode(s@, pos as int));
                assert(c.wire().len() <= p0 - pos);
                if c.wire().len() == p0 - pos {
                    assert(c.wire() =~= s@.subrange(pos as int, p0 as int));
                }
            }
            Ok((c, p0))
        },
        0x29 => {
            let c = Condition::DecDepth;
            proof {
                assert(c == cond_token_decode(s@, pos as int));
                assert(c.wire().len() <= p0 - pos);
                if c.wire().len() == p0 - pos {
                    assert(c.wire() =~= s@.subrange(pos as int, p0 as int));
                }
            }
            Ok((c, p0))
        },
        0x58 => {
            let (attr, p1) = crate::codec::read_u8(s, p0)?;
            proof {
                assert(s@.subrange(p0 as int, p1 as int)[0] == attr);
                assert(s@[p0 as int] == attr);
            }
            match attr {
                0x20 => {
                    let (v, p2) = scene_value(s, p1)?;
                    let c = Condition::Ret(Ret::Color(v));
                    proof {
                        assert(c == cond_token_decode(s@, pos as int));
                        assert(s@.subrange(pos as int, p0 as int) + s@.subrange(p0 as int, p1 as int)
                            == s@.subrange(pos as int, p1 as int));
                        assert(s@.subrange(pos as int, p1 as int) + s@.subrange(p1 as int, p2 as int)
                            == s@.subrange(pos as int, p2 as int));
                        assert(c.wire().len() <= p2 - pos);
                        if c.wire().len() == p2 - pos {
                            assert(c.wire() =~= s@.subrange(pos as int, p2 as int));
                        }
                    }
                    Ok((c, p2))
                },
                0x21 => {
                    let c = Condition::Ret(Ret::Choice);
                    proof {
                        assert(c == cond_token_decode(s@, pos as int));
                        assert(s@.subrange(pos as int, p0 as int) + s@.subrange(p0 as int, p1 as int)
                            == s@.subrange(pos as int, p1 as int));
                        assert(c.wire().len() <= p1 - pos);
                        if c.wire().len() == p1 - pos {
                            assert(c.wire() =~= s@.subrange(pos as int, p1 as int));
                        }
                    }
                    Ok((c, p1))
                },
                0x22 => {
                    let (v, p2) = scene_value(s, p1)?;
                    let c = Condition::Ret(Ret::DisabledChoice(v));
                    proof {
                        assert(c == cond_token_decode(s@, pos as int));
                        assert(s@.subrange(pos as int, p0 as int) + s@.subrange(p0 as int, p1 as int)
                            == s@.subrange(pos as int, p1 as int));
                        assert(s@.subrange(pos as int, p1 as int) + s@.subrange(p1 as int, p2 as int)
                            == s@.subrange(pos as int, p2 as int));
                        assert(c.wire().len() <= p2 - pos);
                        if c.wire().len() == p2 - pos {
                            assert(c.wire() =~= s@.subrange(pos as int, p2 as int));
                        }
                    }
                    Ok((c, p2))
                },
                _ => Err(CodecError::UnknownConditionTag(attr)),
            }
        },
        _ => {
            let (a, p1) = match tag {
                0x36 | 0x37 | 0x38 | 0x39 | 0x3a | 0x3b | 0x41 | 0x42 | 0x43 | 0x44 | 0x45
                | 0x46 | 0x47 | 0x48 | 0x49 | 0x4f | 0x50 | 0x51 | 0x52 | 0x53 | 0x54 | 0x55 =>
                    scene_value(s, p0)?,
                _ => {
                    return Err(CodecError::UnknownConditionTag(tag));
                },
            };
            let (b, p2) = scene_value(s, p1)?;
            let c = match tag {
                0x36 => Condition::BitNotEq(a, b),
                0x37 => Condition::BitEq(a, b),
                0x38 => Condition::NotEq(a, b),
                0x39 => Condition::Eq(a, b),
                0x3a => Condition::FlagNotEqConst(a, b),
                0x3b => Condition::FlagEqConst(a, b),
                0x41 => Condition::FlagAndConst(a, b),
                0x42 => Condition::FlagAndConst2(a, b),
                0x43 => Condition::FlagXorConst(a, b),
                0x44 => Condition::FlagGtConst(a, b),
                0x45 => Condition::FlagLtConst(a, b),
                0x46 => Condition::FlagGeqConst(a, b),
                0x47 => Condition::FlagLeqConst(a, b),
                0x48 => Condition::FlagNotEq(a, b),
                0x49 => Condition::FlagEq(a, b),
                0x4f => Condition::FlagAnd(a, b),
                0x50 => Condition::FlagAnd2(a, b),
                0x51 => Condition::FlagXor(a, b),
                0x52 => Condition::FlagGt(a, b),
                0x53 => Condition::FlagLt(a, b),
                0x54 => Condition::FlagGeq(a, b),
                _ => Condition::FlagLeq(a, b),
            };
            proof {
                assert(tag == 0x55 ==> c == Condition::FlagLeq(a, b));
                assert(a == val_decode(s@, p0 as int) && b == val_decode(s@, p1 as int));
                assert(p1 == p0 + val_head_width(s@[p0 as int]));
                assert(c == cond_token_decode(s@, pos as int));
                assert(s@.subrange(pos as int, p0 as int) + s@.subrange(p0 as int, p1 as int)
                    == s@.subrange(pos as int, p1 as int));
                assert(s@.subrange(pos as int, p1 as int) + s@.subrange(p1 as int, p2 as int)
                    == s@.subrange(pos as int, p2 as int));
                assert(c.wire().len() <= p2 - pos);
                if c.wire().len() == p2 - pos {
                    assert(c.wire() =~= s@.subrange(pos as int, p2 as int));
                }
            }
            Ok((c, p2))
        },
    }
}

/// Where one condition token starting at `pos` ends, when the parse
/// accepts it: one byte for connectives and depth brackets, two values
/// after a comparison tag, and an attribute with its optional value after
/// the `Ret` tag.
pub open spec fn cond_token_end(s: Seq<u8>, pos: int) -> Option<int> {
    if pos >= s.len() {
        None
    } else {
        let t = s[pos];
        if t == 0x26 || t == 0x27 || t == 0x28 || t == 0x29 {
            Some(pos + 1)
        } else if t == 0x58 {
            if pos + 1 >= s.len() {
                None
            } else {
                let a = s[pos + 1];
                if a == 0x21 {
                    Some(pos + 2)
                } else if a == 0x20 || a == 0x22 {
                    val_end(s, pos + 2)
                } else {
                    None
                }
            }
        } else if known_condition_tag(t) {
            match val_end(s, pos + 1) {
                Some(m) => val_end(s, m),
                None => None,
            }
        } else {
            None
        }
    }
}

/// A token the list parser accepts never ends behind its start or past
/// the input.
pub proof fn lemma_cond_token_end_bounds(s: Seq<u8>, pos: int)
    requires
        cond_token_end(s, pos) is Some,
        pos >= 0,
    ensures
        pos < cond_token_end(s, pos)->Some_0 <= s.len(),
{
}

/// The token a condition parse returns at `pos`, meaningful exactly where
/// `cond_token_end` accepts one.
pub open spec fn cond_token_decode(s: Seq<u8>, pos: int) -> Condition {
    let t = s[pos];
    if t == 0x26 {
        Condition::And
    } else if t == 0x27 {
        Condition::Or
    } else if t == 0x28 {
        Condition::IncDepth
    } else if t == 0x29 {
        Condition::DecDepth
    } else if t == 0x58 {
        let a = s[pos + 1];
        if a == 0x20 {
            Condition::Ret(Ret::Color(val_decode(s, pos + 2)))
        } else if a == 0x21 {
            Condition::Ret(Ret::Choice)
        } else {
            Condition::Ret(Ret::DisabledChoice(val_decode(s, pos + 2)))
        }
    } else {
        let a = val_decode(s, pos + 1);
        let m = pos + 1 + val_head_width(s[pos + 1]);
        let b = val_decode(s, m);
        if t == 0x36 { Condition::BitNotEq(a, b) }
        else if t == 0x37 { Condition::BitEq(a, b) }
        else if t == 0x38 { Condition::NotEq(a, b) }
        else if t == 0x39 { Condition::Eq(a, b) }
        else if t == 0x3a { Condition::FlagNotEqConst(a, b) }
        else if t == 0x3b { Condition::FlagEqConst(a, b) }
        else if t == 0x41 { Condition::FlagAndConst(a, b) }
        else if t == 0x42 { Condition::FlagAndConst2(a, b) }
        else if t == 0x43 { Condition::FlagXorConst(a, b) }
        else if t == 0x44 { Condition::FlagGtConst(a, b) }
        else if t == 0x45 { Condition::FlagLtConst(a, b) }
        else if t == 0x46 { Condition::FlagGeqConst(a, b) }
        else if t == 0x47 { Condition::FlagLeqConst(a, b) }
        else if t == 0x48 { Condition::FlagNotEq(a, b) }
        else if t == 0x49 { Condition::FlagEq(a, b) }
        else if t == 0x4f { Condition::FlagAnd(a, b) }
        else if t == 0x50 { Condition::FlagAnd2(a, b) }
        else if t == 0x51 { Condition::FlagXor(a, b) }
        else if t == 0x52 { Condition::FlagGt(a, b) }
        else if t == 0x53 { Condition::FlagLt(a, b) }
        else if t == 0x54 { Condition::FlagGeq(a, b) }
        else { Condition::FlagLeq(a, b) }
    }
}

/// Where a condition list starting at `pos` ends, with `depth` open
/// groups: the list runs until a depth-closing token returns the counter
/// to or below zero.
pub open spec fn conds_end(s: Seq<u8>, pos: int, depth: int) -> Option<int>
    decreases s.len() - pos via conds_end_decreases
{
    if pos < 0 {
        None
    } else {
        match cond_token_end(s, pos) {
            None => None,
            Some(m) => {
                let t = s[pos];
                if t == 0x29 {
                    if depth <= 1 {
                        Some(m)
                    } else {
                        conds_end(s, m, depth - 1)
                    }
                } else if t == 0x28 {
                    conds_end(s, m, depth + 1)
                } else {
                    conds_end(s, m, depth)
                }
            },
        }
    }
}

#[via_fn]
proof fn conds_end_decreases(s: Seq<u8>, pos: int, depth: int) {
    if pos >= 0 && cond_token_end(s, pos) is Some {
        lemma_cond_token_end_bounds(s, pos);
    }
}

/// The token list a condition parse returns, meaningful exactly where
/// `conds_end` accepts the list: every token in input order, ending with
/// the depth-closing token that first returns the counter to or below zero.
pub open spec fn conds_decode(s: Seq<u8>, pos: int, depth: int) -> Seq<Condition>
    decreases s.len() - pos via conds_decode_decreases
{
    if pos < 0 {
        Seq::empty()
    } else {
        match cond_token_end(s, pos) {
            None => Seq::empty(),
            Some(m) => {
                let c = cond_token_decode(s, pos);
                let t = s[pos];
                if t == 0x29 {
                    if depth <= 1 {
                        seq![c]
                    } else {
                        seq![c] + conds_decode(s, m, depth - 1)
                    }
                } else if t == 0x28 {
                    seq![c] + conds_decode(s, m, depth + 1)
                } else {
                    seq![c] + conds_decode(s, m, depth)
                }
            },
        }
    }
}

#[via_fn]
proof fn conds_decode_decreases(s: Seq<u8>, pos: int, depth: int) {
    if pos >= 0 && cond_token_end(s, pos) is Some {
        lemma_cond_token_end_bounds(s, pos);
    }
}

/// Parse a condition list at `pos`: tokens accumulate until a `DecDepth`
/// would drop the depth counter to or below zero, which ends the list; a
/// parsed list is therefore never empty and always ends in that `DecDepth`.
pub fn scene_conditions(s: &[u8], pos: usize) -> (r: Result<(Vec<Condition>, usize), CodecError>)
    requires
        pos <= s@.len(),
    ensures
        r is Ok <==> conds_end(s@, pos as int, 0) is Some,
        r matches Ok((conds, end)) ==> pos <= end <= s@.len()
            && Some(end as int) == conds_end(s@, pos as int, 0)
            && conds@ == conds_decode(s@, pos as int, 0)
            && seq_wire(conds@).len() <= end - pos
            && (seq_wire(conds@).len() == end - pos ==> seq_wire(conds@)
                == s@.subrange(pos as int, end as int)),
        r matches Ok((conds, end)) ==> conds@.len() > 0
            && conds@.last() == Condition::DecDepth,
        pos < s@.len() && !known_condition_tag(s@[pos as int]) ==> r == Err::<(
            Vec<Condition>,
            usize,
        ), CodecError>(CodecError::UnknownConditionTag(s@[pos as int])),
        r matches Err(e) ==> crate::codec::parse_error(e),
{
    let mut conds: Vec<Condition> = Vec::new();
    let mut cur: usize = pos;
    let mut depth: usize = 0;
    loop
        invariant
            pos <= cur <= s@.len(),
            seq_wire(conds@).len() <= cur - pos,
            seq_wire(conds@).len() == cur - pos ==> seq_wire(conds@)
                == s@.subrange(pos as int, cur as int),
            depth <= cur - pos,
            conds_end(s@, pos as int, 0) == conds_end(s@, cur as int, depth as int),
            conds_end(s@, cur as int, depth as int) is Some ==> conds_decode(s@, pos as int, 0)
                == conds@ + conds_decode(s@, cur as int, depth as int),
            cur > pos ==> pos < s@.len() && known_condition_tag(s@[pos as int]),
        decreases s@.len() - cur,
    {
        let ghost pre_cur = cur as int;
        let ghost pre_depth = depth as int;
        let (c, next) = match scene_condition(s, cur) {
            Ok(p) => p,
            Err(e) => {
                proof {
                    assert(conds_end(s@, pre_cur, pre_depth) is None);
                }
                return Err(e);
            },
        };
        proof {
            assert(cond_token_end(s@, cur as int) is Some);
            assert(known_condition_tag(s@[cur as int]));
        }
        let is_inc = matches!(c, Condition::IncDepth);
        let is_dec = matches!(c, Condition::DecDepth);
        proof {
            lemma_seq_wire_push(conds@, c);
            assert(s@.subrange(pos as int, cur as int) + s@.subrange(cur as int, next as int)
                == s@.subrange(pos as int, next as int));
            assert(seq_wire(conds@.push(c)).len() <= next - pos);
            if seq_wire(conds@.push(c)).len() == next - pos {
                assert(seq_wire(conds@).len() == cur - pos && c.wire().len() == next - cur);
                assert(seq_wire(conds@.push(c)) =~= s@.subrange(pos as int, next as int));
            }
        }
        conds.push(c);
        cur = next;
        let ghost pre_conds = conds@.drop_last();
        if is_inc {
            depth = depth + 1;
            proof {
                assert(s@[pre_cur] == 0x28);
                assert(conds_end(s@, pre_cur, pre_depth)
                    == conds_end(s@, cur as int, depth as int));
                if conds_end(s@, cur as int, depth as int) is Some {
                    assert(conds_decode(s@, pre_cur, pre_depth)
                        == seq![c] + conds_decode(s@, cur as int, depth as int));
                    assert(pre_conds + conds_decode(s@, pre_cur, pre_depth)
                        =~= conds@ + conds_decode(s@, cur as int, depth as int));
                }
            }
        } else if is_dec {
            proof {
                assert(s@[pre_cur] == 0x29);
            }
            if depth <= 1 {
                proof {
                    assert(conds_end(s@, pre_cur, pre_depth) == Some(cur as int));
                    assert(conds_decode(s@, pre_cur, pre_depth) == seq![c]);
                    assert(pre_conds + conds_decode(s@, pre_cur, pre_depth) =~= conds@);
                    assert(conds@ == conds_decode(s@, pos as int, 0));
                }
                return Ok((conds, cur));
            }
            depth = depth - 1;
            proof {
                assert(conds_end(s@, pre_cur, pre_depth)
                    == conds_end(s@, cur as int, depth as int));
                if conds_end(s@, cur as int, depth as int) is Some {
                    assert(conds_decode(s@, pre_cur, pre_depth)
                        == seq![c] + conds_decode(s@, cur as int, depth as int));
                    assert(pre_conds + conds_decode(s@, pre_cur, pre_depth)
                        =~= conds@ + conds_decode(s@, cur as int, depth as int));
                }
            }
        } else {
            proof {
                assert(c.tag() != 0x28 && c.tag() != 0x29);
                assert(conds_end(s@, pre_cur, pre_depth)
                    == conds_end(s@, cur as int, depth as int));
                if conds_end(s@, cur as int, depth as int) is Some {
                    assert(conds_decode(s@, pre_cur, pre_depth)
                        == seq![c] + conds_decode(s@, cur as int, depth as int));
                    assert(pre_conds + conds_decode(s@, pre_cur, pre_depth)
                        =~= conds@ + conds_decode(s@, cur as int, depth as int));
                }
            }
        }
    }
}

} // verus!
