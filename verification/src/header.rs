//! The scene header: the `TPC32` tag, three opaque byte runs preserved
//! verbatim, the label-offset table, the counter start, and the menu tree
//! with its string table.
use vstd::prelude::*;
use crate::codec::{CodecError, Writeable, read_u8, read_u32, le32, seq_wire, seq_wf, lemma_seq_wire_push, lemma_subrange_glue};
use crate::sjis::{SjisText, c_string};

verus! {

broadcast use lemma_subrange_glue;

/// The five magic bytes `TPC32` that open every scene file.
pub open spec fn scene_magic() -> Seq<u8> {
    seq![0x54u8, 0x50u8, 0x43u8, 0x33u8, 0x32u8]
}

/// Append a raw byte run to the output.
pub fn push_bytes(v: &Vec<u8>, out: &mut Vec<u8>)
    requires
        old(out)@.len() + v@.len() <= usize::MAX,
    ensures
        final(out)@ == old(out)@ + v@,
{
    let mut i: usize = 0;
    while i < v.len()
        invariant
            i <= v@.len(),
            out@ == old(out)@ + v@.subrange(0, i as int),
            old(out)@.len() + v@.len() <= usize::MAX,
        decreases v@.len() - i,
    {
        out.push(v[i]);
        proof {
            assert(out@ =~= old(out)@ + v@.subrange(0, i + 1));
        }
        i = i + 1;
    }
    proof {
        assert(v@.subrange(0, v@.len() as int) =~= v@);
    }
}

/// Parse a fixed-length opaque byte run.
pub fn raw_block(s: &[u8], pos: usize, n: usize) -> (r: Result<(Vec<u8>, usize), CodecError>)
    requires
        pos <= s@.len(),
    ensures
        r is Ok <==> pos + n <= s@.len(),
        r matches Ok((v, end)) ==> end == pos + n && v@ == s@.subrange(pos as int, end as int),
        r is Err ==> r == Err::<(Vec<u8>, usize), CodecError>(CodecError::UnexpectedEof),
{
    if s.len() - pos < n {
        return Err(CodecError::UnexpectedEof);
    }
    proof {
        assert(s@.len() <= usize::MAX);
    }
    let mut v: Vec<u8> = Vec::new();
    let mut i: usize = 0;
    while i < n
        invariant
            i <= n,
            pos + n <= s@.len(),
            s@.len() <= usize::MAX,
            v@ == s@.subrange(pos as int, pos + i),
        decreases n - i,
    {
        v.push(s[pos + i]);
        proof {
            assert(v@ =~= s@.subrange(pos as int, pos + i + 1));
        }
        i = i + 1;
    }
    Ok((v, pos + n))
}

/// A third-level menu record holding four-byte flag words.
#[derive(Debug, PartialEq, Eq, Clone)]
pub struct Flag {
    pub unk1: u8,
    pub flags: Vec<u32>,
}

impl Writeable for Flag {
    open spec fn wire(&self) -> Seq<u8> {
        seq![self.flags@.len() as u8, self.unk1] + seq_wire(self.flags@)
    }

    open spec fn wf(&self) -> bool {
        self.flags@.len() <= 255
    }

    open spec fn compiled(&self) -> bool {
        true
    }

    fn byte_size(&self) -> (r: usize) {
        2 + self.flags.byte_size()
    }

    fn write(&self, out: &mut Vec<u8>) -> (r: Result<(), CodecError>) {
        out.push(self.flags.len() as u8);
        out.push(self.unk1);
        self.flags.write(out)?;
        proof {
            assert(seq![self.flags@.len() as u8, self.unk1]
                =~= seq![self.flags@.len() as u8] + seq![self.unk1]);
            assert(out@ =~= old(out)@ + self.wire());
        }
        Ok(())
    }
}

/// Parse a flag record.
pub fn flag(s: &[u8], pos: usize) -> (r: Result<(Flag, usize), CodecError>)
    requires
        pos <= s@.len(),
    ensures
        r matches Ok((f, end)) ==> pos < end <= s@.len() && f.wf()
            && f.wire() == s@.subrange(pos as int, end as int),
        r matches Err(e) ==> crate::codec::parse_error(e),
{
    let (count, p0) = read_u8(s, pos)?;
    let (unk1, p1) = read_u8(s, p0)?;
    let mut flags: Vec<u32> = Vec::new();
    let mut cur: usize = p1;
    let mut k: usize = 0;
    while k < count as usize
        invariant
            p1 <= cur <= s@.len(),
            k <= count as usize,
            flags@.len() == k,
            seq_wire(flags@) == s@.subrange(p1 as int, cur as int),
        decreases count as usize - k,
    {
        let (x, nx) = read_u32(s, cur)?;
        proof {
            lemma_seq_wire_push(flags@, x);
            assert(s@.subrange(p1 as int, cur as int) + s@.subrange(cur as int, nx as int)
                == s@.subrange(p1 as int, nx as int));
        }
        flags.push(x);
        cur = nx;
        k = k + 1;
    }
    let f = Flag { unk1, flags };
    proof {
        assert(s@.subrange(pos as int, p0 as int) + s@.subrange(p0 as int, p1 as int)
            == s@.subrange(pos as int, p1 as int));
        assert(s@.subrange(pos as int, p1 as int) + s@.subrange(p1 as int, cur as int)
            == s@.subrange(pos as int, cur as int));
        assert(seq![count, unk1] =~= s@.subrange(pos as int, p0 as int)
            + s@.subrange(p0 as int, p1 as int));
        assert(f.wire() =~= s@.subrange(pos as int, cur as int));
    }
    Ok((f, cur))
}

/// A second-level menu record.
#[derive(Debug, PartialEq, Eq, Clone)]
pub struct Submenu {
    pub id: u8,
    pub unk1: u8,
    pub unk2: u8,
    pub flags: Vec<Flag>,
}

impl Writeable for Submenu {
    open spec fn wire(&self) -> Seq<u8> {
        seq![self.id, self.flags@.len() as u8, self.unk1, self.unk2] + seq_wire(self.flags@)
    }

    open spec fn wf(&self) -> bool {
        self.flags@.len() <= 255 && seq_wf(self.flags@)
    }

    open spec fn compiled(&self) -> bool {
        true
    }

    fn byte_size(&self) -> (r: usize) {
        4 + self.flags.byte_size()
    }

    fn write(&self, out: &mut Vec<u8>) -> (r: Result<(), CodecError>) {
        out.push(self.id);
        out.push(self.flags.len() as u8);
        out.push(self.unk1);
        out.push(self.unk2);
        self.flags.write(out)?;
        proof {
            assert(seq![self.id, self.flags@.len() as u8, self.unk1, self.unk2]
                =~= seq![self.id] + seq![self.flags@.len() as u8] + seq![self.unk1]
                    + seq![self.unk2]);
            assert(out@ =~= old(out)@ + self.wire());
        }
        Ok(())
    }
}

/// Parse a submenu record.
pub fn submenu(s: &[u8], pos: usize) -> (r: Result<(Submenu, usize), CodecError>)
    requires
        pos <= s@.len(),
    ensures
        r matches Ok((m, end)) ==> pos + 4 <= end <= s@.len() && m.wf()
            && m.wire() == s@.subrange(pos as int, end as int),
        r matches Err(e) ==> crate::codec::parse_error(e),
{
    let (id, p0) = read_u8(s, pos)?;
    let (count, p1) = read_u8(s, p0)?;
    let (unk1, p2) = read_u8(s, p1)?;
    let (unk2, p3) = read_u8(s, p2)?;
    let mut flags: Vec<Flag> = Vec::new();
    let mut cur: usize = p3;
    let mut k: usize = 0;
    while k < count as usize
        invariant
            p3 <= cur <= s@.len(),
            k <= count as usize,
            flags@.len() == k,
            seq_wire(flags@) == s@.subrange(p3 as int, cur as int),
            seq_wf(flags@),
        decreases count as usize - k,
    {
        let (f, nx) = flag(s, cur)?;
        proof {
            lemma_seq_wire_push(flags@, f);
            assert(s@.subrange(p3 as int, cur as int) + s@.subrange(cur as int, nx as int)
                == s@.subrange(p3 as int, nx as int));
        }
        flags.push(f);
        cur = nx;
        k = k + 1;
    }
    let m = Submenu { id, unk1, unk2, flags };
    proof {
        assert(s@.subrange(pos as int, p0 as int) + s@.subrange(p0 as int, p1 as int)
            == s@.subrange(pos as int, p1 as int));
        assert(s@.subrange(pos as int, p1 as int) + s@.subrange(p1 as int, p2 as int)
            == s@.subrange(pos as int, p2 as int));
        assert(s@.subrange(pos as int, p2 as int) + s@.subrange(p2 as int, p3 as int)
            == s@.subrange(pos as int, p3 as int));
        assert(s@.subrange(pos as int, p3 as int) + s@.subrange(p3 as int, cur as int)
            == s@.subrange(pos as int, cur as int));
        assert(seq![id, count, unk1, unk2] =~= s@.subrange(pos as int, p0 as int)
            + s@.subrange(p0 as int, p1 as int) + s@.subrange(p1 as int, p2 as int)
            + s@.subrange(p2 as int, p3 as int));
        assert(m.wire() =~= s@.subrange(pos as int, cur as int));
    }
    Ok((m, cur))
}

/// A top-level menu record.
#[derive(Debug, PartialEq, Eq, Clone)]
pub struct Menu {
    pub id: u8,
    pub unk1: u8,
    pub unk2: u8,
    pub submenus: Vec<Submenu>,
}

impl Writeable for Menu {
    open spec fn wire(&self) -> Seq<u8> {
        seq![self.id, self.submenus@.len() as u8, self.unk1, self.unk2]
            + seq_wire(self.submenus@)
    }

    open spec fn wf(&self) -> bool {
        self.submenus@.len() <= 255 && seq_wf(self.submenus@)
    }

    open spec fn compiled(&self) -> bool {
        true
    }

    fn byte_size(&self) -> (r: usize) {
        4 + self.submenus.byte_size()
    }

    fn write(&self, out: &mut Vec<u8>) -> (r: Result<(), CodecError>) {
        out.push(self.id);
        out.push(self.submenus.len() as u8);
        out.push(self.unk1);
        out.push(self.unk2);
        self.submenus.write(out)?;
        proof {
            assert(seq![self.id, self.submenus@.len() as u8, self.unk1, self.unk2]
                =~= seq![self.id] + seq![self.submenus@.len() as u8] + seq![self.unk1]
                    + seq![self.unk2]);
            assert(out@ =~= old(out)@ + self.wire());
        }
        Ok(())
    }
}

/// Parse a menu record.
pub fn menu(s: &[u8], pos: usize) -> (r: Result<(Menu, usize), CodecError>)
    requires
        pos <= s@.len(),
    ensures
        r matches Ok((m, end)) ==> pos + 4 <= end <= s@.len() && m.wf()
            && m.wire() == s@.subrange(pos as int, end as int)
            && m.submenus@.len() < end - pos,
        r matches Err(e) ==> crate::codec::parse_error(e),
{
    let (id, p0) = read_u8(s, pos)?;
    let (count, p1) = read_u8(s, p0)?;
    let (unk1, p2) = read_u8(s, p1)?;
    let (unk2, p3) = read_u8(s, p2)?;
    let mut submenus: Vec<Submenu> = Vec::new();
    let mut cur: usize = p3;
    let mut k: usize = 0;
    while k < count as usize
        invariant
            p3 <= cur <= s@.len(),
            k <= count as usize,
            submenus@.len() == k,
            seq_wire(submenus@) == s@.subrange(p3 as int, cur as int),
            seq_wf(submenus@),
            k <= cur - p3,
        decreases count as usize - k,
    {
        let (sm, nx) = submenu(s, cur)?;
        proof {
            lemma_seq_wire_push(submenus@, sm);
            assert(s@.subrange(p3 as int, cur as int) + s@.subrange(cur as int, nx as int)
                == s@.subrange(p3 as int, nx as int));
        }
        submenus.push(sm);
        cur = nx;
        k = k + 1;
    }
    let m = Menu { id, unk1, unk2, submenus };
    proof {
        assert(s@.subrange(pos as int, p0 as int) + s@.subrange(p0 as int, p1 as int)
            == s@.subrange(pos as int, p1 as int));
        assert(s@.subrange(pos as int, p1 as int) + s@.subrange(p1 as int, p2 as int)
            == s@.subrange(pos as int, p2 as int));
        assert(s@.subrange(pos as int, p2 as int) + s@.subrange(p2 as int, p3 as int)
            == s@.subrange(pos as int, p3 as int));
        assert(s@.subrange(pos as int, p3 as int) + s@.subrange(p3 as int, cur as int)
            == s@.subrange(pos as int, cur as int));
        assert(seq![id, count, unk1, unk2] =~= s@.subrange(pos as int, p0 as int)
            + s@.subrange(p0 as int, p1 as int) + s@.subrange(p1 as int, p2 as int)
            + s@.subrange(p2 as int, p3 as int));
        assert(m.wire() =~= s@.subrange(pos as int, cur as int));
    }
    Ok((m, cur))
}

/// The number of strings the menu string table holds: one per menu plus one
/// per submenu.
pub open spec fn menu_string_count(menus: Seq<Menu>) -> int
    decreases menus.len(),
{
    if menus.len() == 0 {
        0
    } else {
        1 + menus[0].submenus@.len() + menu_string_count(menus.drop_first())
    }
}

proof fn lemma_menu_string_count_push(menus: Seq<Menu>, m: Menu)
    ensures
        menu_string_count(menus.push(m)) == menu_string_count(menus) + 1 + m.submenus@.len(),
    decreases menus.len(),
{
    if menus.len() == 0 {
        assert(menus.push(m).drop_first() =~= Seq::<Menu>::empty());
        assert(menus.push(m)[0] == m);
        assert(menu_string_count(Seq::<Menu>::empty()) == 0);
        assert(menu_string_count(menus.push(m).drop_first()) == 0);
    } else {
        assert(menus.push(m).drop_first() =~= menus.drop_first().push(m));
        lemma_menu_string_count_push(menus.drop_first(), m);
    }
}

/// The scene header.
#[derive(Debug, PartialEq, Eq, Clone)]
pub struct Header {
    pub unk1: Vec<u8>,
    pub labels: Vec<u32>,
    pub unk2: Vec<u8>,
    pub counter_start: u32,
    pub menus: Vec<Menu>,
    pub menu_strings: Vec<SjisText>,
    pub unk3: Vec<u8>,
}

impl Writeable for Header {
    open spec fn wire(&self) -> Seq<u8> {
        scene_magic() + self.unk1@ + le32(self.labels@.len() as u32) + le32(self.counter_start)
            + seq_wire(self.labels@) + self.unk2@ + le32(self.menus@.len() as u32)
            + seq_wire(self.menus@) + seq_wire(self.menu_strings@) + self.unk3@
    }

    open spec fn wf(&self) -> bool {
        self.unk1@.len() == 0x13 && self.unk2@.len() == 0x30 && self.unk3@.len() == 0x05
            && self.labels@.len() <= u32::MAX && self.menus@.len() <= u32::MAX
            && seq_wf(self.menus@) && seq_wf(self.menu_strings@)
            && self.menu_strings@.len() == menu_string_count(self.menus@)
    }

    open spec fn compiled(&self) -> bool {
        true
    }

    fn byte_size(&self) -> (r: usize) {
        5 + self.unk1.len() + 8 + self.labels.byte_size() + self.unk2.len() + 4
            + self.menus.byte_size() + self.menu_strings.byte_size() + self.unk3.len()
    }

    fn write(&self, out: &mut Vec<u8>) -> (r: Result<(), CodecError>) {
        out.push(0x54);
        out.push(0x50);
        out.push(0x43);
        out.push(0x33);
        out.push(0x32);
        proof {
            assert(out@ =~= old(out)@ + scene_magic());
        }
        push_bytes(&self.unk1, out);
        let label_count = self.labels.len() as u32;
        label_count.write(out)?;
        self.counter_start.write(out)?;
        self.labels.write(out)?;
        push_bytes(&self.unk2, out);
        let menu_count = self.menus.len() as u32;
        menu_count.write(out)?;
        self.menus.write(out)?;
        self.menu_strings.write(out)?;
        push_bytes(&self.unk3, out);
        assert(out@ =~= old(out)@ + self.wire());
        Ok(())
    }
}

/// Parse a scene header; `InvalidMagic` when the `TPC32` tag is missing.
#[verifier::rlimit(60)]
pub fn header(s: &[u8], pos: usize) -> (r: Result<(Header, usize), CodecError>)
    requires
        pos <= s@.len(),
    ensures
        r matches Ok((h, end)) ==> pos < end <= s@.len() && h.wf()
            && h.wire() == s@.subrange(pos as int, end as int),
        r matches Err(e) ==> crate::codec::parse_error(e),
{
    if s.len() - pos < 5 {
        return Err(CodecError::UnexpectedEof);
    }
    if s[pos] != 0x54 || s[pos + 1] != 0x50 || s[pos + 2] != 0x43 || s[pos + 3] != 0x33
        || s[pos + 4] != 0x32 {
        return Err(CodecError::InvalidMagic);
    }
    let p0 = pos + 5;
    proof {
        assert(scene_magic() =~= s@.subrange(pos as int, p0 as int));
    }
    let (unk1, p1) = raw_block(s, p0, 0x13)?;
    let (label_count, p2) = read_u32(s, p1)?;
    let (counter_start, p3) = read_u32(s, p2)?;
    let mut labels: Vec<u32> = Vec::new();
    let mut cur: usize = p3;
    let mut k: usize = 0;
    while k < label_count as usize
        invariant
            p3 <= cur <= s@.len(),
            k <= label_count as usize,
            labels@.len() == k,
            seq_wire(labels@) == s@.subrange(p3 as int, cur as int),
        decreases label_count as usize - k,
    {
        let (x, nx) = read_u32(s, cur)?;
        proof {
            lemma_seq_wire_push(labels@, x);
            assert(s@.subrange(p3 as int, cur as int) + s@.subrange(cur as int, nx as int)
                == s@.subrange(p3 as int, nx as int));
        }
        labels.push(x);
        cur = nx;
        k = k + 1;
    }
    let p4 = cur;
    let (unk2, p5) = raw_block(s, p4, 0x30)?;
    let (menu_count, p6) = read_u32(s, p5)?;
    let mut menus: Vec<Menu> = Vec::new();
    let mut str_count: usize = 0;
    let mut cur2: usize = p6;
    let mut k2: usize = 0;
    while k2 < menu_count as usize
        invariant
            p6 <= cur2 <= s@.len(),
            k2 <= menu_count as usize,
            menus@.len() == k2,
            seq_wire(menus@) == s@.subrange(p6 as int, cur2 as int),
            seq_wf(menus@),
            str_count == menu_string_count(menus@),
            str_count <= cur2 - p6,
        decreases menu_count as usize - k2,
    {
        let (m, nx) = menu(s, cur2)?;
        proof {
            lemma_seq_wire_push(menus@, m);
            lemma_menu_string_count_push(menus@, m);
            assert(s@.subrange(p6 as int, cur2 as int) + s@.subrange(cur2 as int, nx as int)
                == s@.subrange(p6 as int, nx as int));
        }
        str_count = str_count + 1 + m.submenus.len();
        menus.push(m);
        cur2 = nx;
        k2 = k2 + 1;
    }
    let p7 = cur2;
    let mut menu_strings: Vec<SjisText> = Vec::new();
    let mut cur3: usize = p7;
    let mut k3: usize = 0;
    while k3 < str_count
        invariant
            p7 <= cur3 <= s@.len(),
            k3 <= str_count,
            menu_strings@.len() == k3,
            seq_wire(menu_strings@) == s@.subrange(p7 as int, cur3 as int),
            seq_wf(menu_strings@),
        decreases str_count - k3,
    {
        let (t, nx) = c_string(s, cur3)?;
        proof {
            lemma_seq_wire_push(menu_strings@, t);
            assert(s@.subrange(p7 as int, cur3 as int) + s@.subrange(cur3 as int, nx as int)
                == s@.subrange(p7 as int, nx as int));
        }
        menu_strings.push(t);
        cur3 = nx;
        k3 = k3 + 1;
    }
    let p8 = cur3;
    let (unk3, p9) = raw_block(s, p8, 0x05)?;
    let h = Header { unk1, labels, unk2, counter_start, menus, menu_strings, unk3 };
    proof {
        assert(s@.subrange(pos as int, p0 as int) + s@.subrange(p0 as int, p1 as int)
            == s@.subrange(pos as int, p1 as int));
        assert(s@.subrange(pos as int, p1 as int) + s@.subrange(p1 as int, p2 as int)
            == s@.subrange(pos as int, p2 as int));
        assert(s@.subrange(pos as int, p2 as int) + s@.subrange(p2 as int, p3 as int)
            == s@.subrange(pos as int, p3 as int));
        assert(s@.subrange(pos as int, p3 as int) + s@.subrange(p3 as int, p4 as int)
            == s@.subrange(pos as int, p4 as int));
        assert(s@.subrange(pos as int, p4 as int) + s@.subrange(p4 as int, p5 as int)
            == s@.subrange(pos as int, p5 as int));
        assert(s@.subrange(pos as int, p5 as int) + s@.subrange(p5 as int, p6 as int)
            == s@.subrange(pos as int, p6 as int));
        assert(s@.subrange(pos as int, p6 as int) + s@.subrange(p6 as int, p7 as int)
            == s@.subrange(pos as int, p7 as int));
        assert(s@.subrange(pos as int, p7 as int) + s@.subrange(p7 as int, p8 as int)
            == s@.subrange(pos as int, p8 as int));
        assert(s@.subrange(pos as int, p8 as int) + s@.subrange(p8 as int, p9 as int)
            == s@.subrange(pos as int, p9 as int));
        assert(labels@.len() as u32 == label_count);
        assert(menus@.len() as u32 == menu_count);
        assert(h.wire() =~= s@.subrange(pos as int, p9 as int));
    }
    Ok((h, p9))
}

} // verus!
