//! The `PACL` container archive: a directory of 16-byte-named entries, one
//! `PACK` blob per entry, and the byte-oriented back-reference decompressor
//! the blobs use.
use vstd::prelude::*;
use crate::codec::{CodecError, Writeable, read_u32, le32, le32_at, seq_wire, seq_compiled, lemma_seq_wire_push, lemma_subrange_glue};
use crate::sjis::{SjisText, no_nul, sjis_encoding, sjis_decoding};
use crate::header::{raw_block, push_bytes};

verus! {

broadcast use lemma_subrange_glue;

/// The four magic bytes `PACL` that open an archive.
pub open spec fn pacl_magic() -> Seq<u8> {
    seq![0x50u8, 0x41u8, 0x43u8, 0x4cu8]
}

/// The four magic bytes `PACK` that open each blob.
pub open spec fn pack_magic() -> Seq<u8> {
    seq![0x50u8, 0x41u8, 0x43u8, 0x4bu8]
}

/// A name field padded with NUL bytes to, or cut at, its fixed
/// sixteen-byte width. Serialization refuses names longer than the field,
/// so the cut case never reaches the wire.
pub open spec fn pad16(b: Seq<u8>) -> Seq<u8> {
    if b.len() <= 16 {
        b + Seq::new((16 - b.len()) as nat, |i: int| 0u8)
    } else {
        b.subrange(0, 16)
    }
}

/// One compressed blob: a `PACK` tag, a reserved word, the original and
/// archived sizes, and `arcsize - 16` payload bytes.
#[derive(Debug, PartialEq, Eq, Clone)]
pub struct ArchiveData {
    pub entries: u32,
    pub orgsize: u32,
    pub arcsize: u32,
    pub data: Vec<u8>,
}

impl Writeable for ArchiveData {
    open spec fn wire(&self) -> Seq<u8> {
        pack_magic() + le32(self.entries) + le32(self.orgsize) + le32(self.arcsize) + self.data@
    }

    open spec fn wf(&self) -> bool {
        true
    }

    open spec fn compiled(&self) -> bool {
        true
    }

    fn byte_size(&self) -> (r: usize) {
        16 + self.data.len()
    }

    fn write(&self, out: &mut Vec<u8>) -> (r: Result<(), CodecError>) {
        out.push(0x50);
        out.push(0x41);
        out.push(0x43);
        out.push(0x4b);
        proof {
            assert(out@ =~= old(out)@ + pack_magic());
        }
        self.entries.write(out)?;
        self.orgsize.write(out)?;
        self.arcsize.write(out)?;
        push_bytes(&self.data, out);
        assert(out@ =~= old(out)@ + self.wire());
        Ok(())
    }
}

/// One directory entry: a zero-padded sixteen-byte Shift_JIS filename, the
/// blob's byte offset into the container, its archived and original sizes,
/// and a flag word.
#[derive(Debug, PartialEq, Eq, Clone)]
pub struct ArchiveEntry {
    pub filename: SjisText,
    pub offset: u32,
    pub arcsize: u32,
    pub filesize: u32,
    pub unk1: u32,
}

impl Writeable for ArchiveEntry {
    open spec fn wire(&self) -> Seq<u8> {
        pad16(self.filename.bytes@) + le32(self.offset) + le32(self.arcsize)
            + le32(self.filesize) + le32(self.unk1)
    }

    open spec fn wf(&self) -> bool {
        true
    }

    /// An entry can be serialized exactly when its name fits the field.
    open spec fn compiled(&self) -> bool {
        self.filename.bytes@.len() <= 16
    }

    fn byte_size(&self) -> (r: usize) {
        proof {
            assert(pad16(self.filename.bytes@).len() == 16);
        }
        32
    }

    fn write(&self, out: &mut Vec<u8>) -> (r: Result<(), CodecError>)
        ensures
            r is Err ==> r == Err::<(), CodecError>(CodecError::FilenameTooLong)
                && final(out)@ == old(out)@,
    {
        if self.filename.bytes.len() > 16 {
            return Err(CodecError::FilenameTooLong);
        }
        push_bytes(&self.filename.bytes, out);
        let mut pad: usize = self.filename.bytes.len();
        while pad < 16
            invariant
                self.filename.bytes@.len() <= pad <= 16,
                out@ == old(out)@ + self.filename.bytes@
                    + Seq::new((pad - self.filename.bytes@.len()) as nat, |i: int| 0u8),
                old(out)@.len() + self.wire().len() <= usize::MAX,
                self.wire().len() >= 16,
            decreases 16 - pad,
        {
            out.push(0);
            proof {
                assert(out@ =~= old(out)@ + self.filename.bytes@
                    + Seq::new((pad + 1 - self.filename.bytes@.len()) as nat, |i: int| 0u8));
            }
            pad = pad + 1;
        }
        proof {
            assert(out@ =~= old(out)@ + pad16(self.filename.bytes@));
        }
        self.offset.write(out)?;
        self.arcsize.write(out)?;
        self.filesize.write(out)?;
        self.unk1.write(out)?;
        assert(out@ =~= old(out)@ + self.wire());
        Ok(())
    }
}

/// A terminated, zero-padded, Shift_JIS-decodable name of length `k` fills
/// the sixteen-byte field at `pos`.
pub open spec fn entry_name_ok(s: Seq<u8>, pos: int, k: int) -> bool {
    &&& 0 <= k < 16
    &&& (forall|j: int| 0 <= j < k ==> #[trigger] s[pos + j] != 0)
    &&& (forall|j: int| k <= j < 16 ==> #[trigger] s[pos + j] == 0)
    &&& sjis_decoding(s.subrange(pos, pos + k)) is Some
}

/// The inputs on which a directory-entry parse succeeds: thirty-two bytes
/// whose name field is well formed.
pub open spec fn entry_parses(s: Seq<u8>, pos: int) -> bool {
    pos + 32 <= s.len() && exists|k: int| #[trigger] entry_name_ok(s, pos, k)
}

/// Parse one directory entry: the filename is the bytes before the first
/// NUL of the sixteen-byte field; the rest of the field must be NUL padding
/// and the name must decode as Shift_JIS, else `InvalidEncoding`. Demanding
/// zero padding is narrower than discarding whatever follows the
/// terminator, but byte-exact re-serialization depends on it.
pub fn archive_entry(s: &[u8], pos: usize) -> (r: Result<(ArchiveEntry, usize), CodecError>)
    requires
        pos <= s@.len(),
    ensures
        r is Ok <==> entry_parses(s@, pos as int),
        r matches Ok((e, end)) ==> end == pos + 32 && end <= s@.len() && e.wf() && e.compiled()
            && e.filename.wf()
            && e.wire() == s@.subrange(pos as int, end as int),
        r is Err ==> r == Err::<(ArchiveEntry, usize), CodecError>(CodecError::UnexpectedEof)
            || r == Err::<(ArchiveEntry, usize), CodecError>(CodecError::InvalidEncoding),
{
    if s.len() - pos < 16 {
        return Err(CodecError::UnexpectedEof);
    }
    let mut k: usize = 0;
    while k < 16 && s[pos + k] != 0
        invariant
            k <= 16,
            pos + 16 <= s@.len(),
            s@.len() <= usize::MAX,
            forall|j: int| 0 <= j < k ==> #[trigger] s@[pos + j] != 0,
        decreases 16 - k,
    {
        k = k + 1;
    }
    if k == 16 {
        proof {
            assert forall|kx: int| !entry_name_ok(s@, pos as int, kx) by {
                if 0 <= kx < 16 {
                    assert(s@[pos + kx] != 0);
                }
            }
        }
        return Err(CodecError::InvalidEncoding);
    }
    proof {
        assert forall|kx: int| #[trigger] entry_name_ok(s@, pos as int, kx)
            implies kx == k by {
            if kx < k {
                assert(s@[pos + kx] != 0);
            }
            if kx > k {
                assert(s@[pos + k as int] != 0);
            }
        }
    }
    let mut pad: usize = k;
    while pad < 16
        invariant
            k <= pad <= 16,
            pos + 16 <= s@.len(),
            s@.len() <= usize::MAX,
            forall|j: int| 0 <= j < k ==> #[trigger] s@[pos + j] != 0,
            s@[pos + k as int] == 0,
            forall|j: int| k <= j < pad ==> #[trigger] s@[pos + j] == 0,
        decreases 16 - pad,
    {
        if s[pos + pad] != 0 {
            proof {
                assert(!entry_name_ok(s@, pos as int, k as int));
                assert forall|kx: int| !entry_name_ok(s@, pos as int, kx) by {
                    if 0 <= kx < 16 && kx != k as int {
                        if kx < k {
                            assert(s@[pos + kx] != 0);
                        } else {
                            assert(s@[pos + k as int] != 0 || s@[pos + k as int] == 0);
                            assert(!entry_name_ok(s@, pos as int, kx)) by {
                                if entry_name_ok(s@, pos as int, kx) {
                                    assert(s@[pos + k as int] != 0);
                                }
                            };
                        }
                    }
                }
            }
            return Err(CodecError::InvalidEncoding);
        }
        pad = pad + 1;
    }
    let (name_bytes, p0) = raw_block(s, pos, k)?;
    match crate::sjis::c_string(s, pos) {
        Err(_) => {
            proof {
                assert forall|j: int| pos <= j < pos + k implies s@[j] != 0 by {
                    assert(s@[pos + (j - pos)] != 0);
                }
                assert(crate::sjis::nul_at(s@, pos as int, pos + k as int));
                assert(!crate::sjis::c_string_parses(s@, pos as int));
                assert(!(sjis_decoding(s@.subrange(pos as int, pos + k as int)) is Some));
                assert forall|kx: int| !entry_name_ok(s@, pos as int, kx) by {
                    if 0 <= kx < 16 && kx != k as int {
                        if kx < k {
                            assert(s@[pos + kx] != 0);
                        } else {
                            if entry_name_ok(s@, pos as int, kx) {
                                assert(s@[pos + k as int] != 0);
                            }
                        }
                    }
                }
            }
            return Err(CodecError::InvalidEncoding);
        },
        Ok(_) => {},
    }
    let filename = SjisText { bytes: name_bytes };
    let (offset, p1) = read_u32(s, pos + 16)?;
    let (arcsize, p2) = read_u32(s, p1)?;
    let (filesize, p3) = read_u32(s, p2)?;
    let (unk1, p4) = read_u32(s, p3)?;
    let e = ArchiveEntry { filename, offset, arcsize, filesize, unk1 };
    proof {
        assert(sjis_decoding(s@.subrange(pos as int, pos + k as int)) is Some) by {
            assert forall|j: int| pos <= j < pos + k implies s@[j] != 0 by {
                assert(s@[pos + (j - pos)] != 0);
            }
            assert(crate::sjis::nul_at(s@, pos as int, pos + k as int));
            let m = choose|m: int| #[trigger] crate::sjis::nul_at(s@, pos as int, m)
                && sjis_decoding(s@.subrange(pos as int, m)) is Some;
            assert(m == pos + k as int) by {
                if m < pos + k {
                    assert(s@[m] != 0);
                }
                if m > pos + k {
                    assert(s@[pos + k as int] != 0);
                }
            };
        };
        assert(entry_name_ok(s@, pos as int, k as int));
        assert(entry_parses(s@, pos as int));
        assert forall|j: int| 0 <= j < e.filename.bytes@.len()
            implies e.filename.bytes@[j] != 0 by {
            assert(s@[pos + j] != 0);
        }
        assert(no_nul(e.filename.bytes@));
        assert forall|j: int| 0 <= j < 16
            implies pad16(e.filename.bytes@)[j] == s@.subrange(pos as int, pos + 16)[j] by {
            if j < k {
                assert(e.filename.bytes@[j] == s@[pos + j]);
            } else {
                assert(s@[pos + j] == 0);
            }
        }
        assert(pad16(e.filename.bytes@) =~= s@.subrange(pos as int, pos + 16));
        assert(s@.subrange(pos as int, pos + 16) + s@.subrange(pos + 16, p1 as int)
            == s@.subrange(pos as int, p1 as int));
        assert(s@.subrange(pos as int, p1 as int) + s@.subrange(p1 as int, p2 as int)
            == s@.subrange(pos as int, p2 as int));
        assert(s@.subrange(pos as int, p2 as int) + s@.subrange(p2 as int, p3 as int)
            == s@.subrange(pos as int, p3 as int));
        assert(s@.subrange(pos as int, p3 as int) + s@.subrange(p3 as int, p4 as int)
            == s@.subrange(pos as int, p4 as int));
        assert(e.wire() =~= s@.subrange(pos as int, p4 as int));
    }
    Ok((e, p4))
}

/// The inputs on which a blob parse succeeds: a `PACK` tag, an archived
/// size of at least the sixteen-byte blob header, and that many bytes left.
pub open spec fn data_parses(s: Seq<u8>, pos: int) -> bool {
    &&& pos + 16 <= s.len()
    &&& s.subrange(pos, pos + 4) == pack_magic()
    &&& le32_at(s, pos + 12) >= 16
    &&& pos + le32_at(s, pos + 12) <= s.len()
}

/// Parse one blob; `InvalidMagic` when the `PACK` tag is missing and
/// `SizeMismatch` when the archived size is smaller than its own header.
pub fn archive_data(s: &[u8], pos: usize) -> (r: Result<(ArchiveData, usize), CodecError>)
    requires
        pos <= s@.len(),
    ensures
        r is Ok <==> data_parses(s@, pos as int),
        r matches Ok((d, end)) ==> pos < end <= s@.len() && d.wf()
            && end == pos + le32_at(s@, pos + 12)
            && d.data@.len() + 16 == d.arcsize
            && d.wire() == s@.subrange(pos as int, end as int),
        r is Err ==> r == Err::<(ArchiveData, usize), CodecError>(CodecError::UnexpectedEof)
            || r == Err::<(ArchiveData, usize), CodecError>(CodecError::InvalidMagic)
            || r == Err::<(ArchiveData, usize), CodecError>(CodecError::SizeMismatch),
{
    if s.len() - pos < 4 {
        return Err(CodecError::UnexpectedEof);
    }
    if s[pos] != 0x50 || s[pos + 1] != 0x41 || s[pos + 2] != 0x43 || s[pos + 3] != 0x4b {
        proof {
            if pos + 16 <= s@.len() && s@.subrange(pos as int, pos + 4) == pack_magic() {
                assert(s@.subrange(pos as int, pos + 4)[0] == s@[pos as int]);
                assert(s@.subrange(pos as int, pos + 4)[1] == s@[pos + 1]);
                assert(s@.subrange(pos as int, pos + 4)[2] == s@[pos + 2]);
                assert(s@.subrange(pos as int, pos + 4)[3] == s@[pos + 3]);
            }
        }
        return Err(CodecError::InvalidMagic);
    }
    proof {
        if pos + 4 <= s@.len() {
            assert(s@.subrange(pos as int, pos + 4) =~= pack_magic());
        }
    }
    let p0 = pos + 4;
    proof {
        assert(pack_magic() =~= s@.subrange(pos as int, p0 as int));
    }
    let (entries, p1) = read_u32(s, p0)?;
    let (orgsize, p2) = read_u32(s, p1)?;
    let (arcsize, p3) = read_u32(s, p2)?;
    if arcsize < 16 {
        return Err(CodecError::SizeMismatch);
    }
    let take = (arcsize - 16) as usize;
    let (data, p4) = raw_block(s, p3, take)?;
    let d = ArchiveData { entries, orgsize, arcsize, data };
    proof {
        assert(s@.subrange(pos as int, p0 as int) + s@.subrange(p0 as int, p1 as int)
            == s@.subrange(pos as int, p1 as int));
        assert(s@.subrange(pos as int, p1 as int) + s@.subrange(p1 as int, p2 as int)
            == s@.subrange(pos as int, p2 as int));
        assert(s@.subrange(pos as int, p2 as int) + s@.subrange(p2 as int, p3 as int)
            == s@.subrange(pos as int, p3 as int));
        assert(s@.subrange(pos as int, p3 as int) + s@.subrange(p3 as int, p4 as int)
            == s@.subrange(pos as int, p4 as int));
        assert(d.wire() =~= s@.subrange(pos as int, p4 as int));
        assert(arcsize == le32_at(s@, pos + 12));
        assert(data_parses(s@, pos as int));
    }
    Ok((d, p4))
}

/// A whole container: two opaque runs, the directory, and the blobs. The
/// directory and blob list share an index.
#[derive(Debug, PartialEq, Eq, Clone)]
pub struct Archive {
    pub unk1: Vec<u8>,
    pub unk2: Vec<u8>,
    pub entries: Vec<ArchiveEntry>,
    pub data: Vec<ArchiveData>,
}

impl Writeable for Archive {
    open spec fn wire(&self) -> Seq<u8> {
        pacl_magic() + self.unk1@ + le32(self.entries@.len() as u32) + self.unk2@
            + seq_wire(self.entries@) + seq_wire(self.data@)
    }

    open spec fn wf(&self) -> bool {
        self.unk1@.len() == 0x0c && self.unk2@.len() == 0x0c
            && self.entries@.len() <= u32::MAX
    }

    /// An archive can be serialized exactly when the directory and blob
    /// list agree in length and every filename fits its field.
    open spec fn compiled(&self) -> bool {
        self.entries@.len() == self.data@.len() && seq_compiled(self.entries@)
    }

    fn byte_size(&self) -> (r: usize) {
        4 + self.unk1.len() + 4 + self.unk2.len() + self.entries.byte_size()
            + self.data.byte_size()
    }

    fn write(&self, out: &mut Vec<u8>) -> (r: Result<(), CodecError>)
        ensures
            r == Err::<(), CodecError>(CodecError::InconsistentArchive)
                <==> self.entries@.len() != self.data@.len(),
            self.entries@.len() != self.data@.len() ==> final(out)@ == old(out)@,
            self.entries@.len() == self.data@.len() && r is Err ==> r == Err::<(), CodecError>(
                CodecError::FilenameTooLong),
    {
        if self.entries.len() != self.data.len() {
            return Err(CodecError::InconsistentArchive);
        }
        out.push(0x50);
        out.push(0x41);
        out.push(0x43);
        out.push(0x4c);
        proof {
            assert(out@ =~= old(out)@ + pacl_magic());
        }
        push_bytes(&self.unk1, out);
        let count = self.entries.len() as u32;
        count.write(out)?;
        push_bytes(&self.unk2, out);
        write_entries(&self.entries, out)?;
        proof {
            assert(seq_compiled(self.data@));
        }
        self.data.write(out)?;
        assert(out@ =~= old(out)@ + self.wire());
        Ok(())
    }
}

/// Emit the directory entries; fails exactly on an over-long filename,
/// and then with the entry serializer's error.
fn write_entries(es: &Vec<ArchiveEntry>, out: &mut Vec<u8>) -> (r: Result<(), CodecError>)
    requires
        old(out)@.len() + seq_wire(es@).len() <= usize::MAX,
    ensures
        r is Ok <==> seq_compiled(es@),
        r is Ok ==> final(out)@ == old(out)@ + seq_wire(es@),
        r is Err ==> r == Err::<(), CodecError>(CodecError::FilenameTooLong),
{
    proof {
        crate::codec::lemma_seq_wire_len_bound(es@, es@.len() as int);
    }
    let mut i: usize = 0;
    while i < es.len()
        invariant
            i <= es@.len(),
            out@ == old(out)@ + seq_wire(es@.subrange(0, i as int)),
            seq_compiled(es@.subrange(0, i as int)),
            old(out)@.len() + seq_wire(es@).len() <= usize::MAX,
            forall|k: int| 0 <= k <= es@.len() ==>
                #[trigger] seq_wire(es@.subrange(0, k)).len() <= seq_wire(es@).len(),
        decreases es@.len() - i,
    {
        proof {
            assert(es@.subrange(0, i + 1) =~= es@.subrange(0, i as int).push(es@[i as int]));
            lemma_seq_wire_push(es@.subrange(0, i as int), es@[i as int]);
            assert(seq_wire(es@.subrange(0, i + 1)).len() <= seq_wire(es@).len());
            assert(seq_wire(es@.subrange(0, i + 1)).len()
                == seq_wire(es@.subrange(0, i as int)).len() + es@[i as int].wire().len());
        }
        match (&es[i]).write(out) {
            Ok(()) => {},
            Err(e) => {
                proof {
                    assert(!es@[i as int].compiled());
                    assert(!seq_compiled(es@));
                }
                return Err(e);
            },
        }
        proof {
            assert(out@ =~= old(out)@ + seq_wire(es@.subrange(0, i + 1)));
            assert(seq_compiled(es@.subrange(0, i + 1))) by {
                assert(forall|k: int| 0 <= k < i + 1 ==> es@.subrange(0, i + 1)[k]
                    == #[trigger] es@.subrange(0, i as int).push(es@[i as int])[k]);
            };
        }
        i = i + 1;
    }
    proof {
        assert(es@.subrange(0, es@.len() as int) =~= es@);
        assert(seq_compiled(es@)) by {
            assert(forall|k: int| 0 <= k < es@.len() ==>
                #[trigger] es@[k] == es@.subrange(0, es@.len() as int)[k]);
        };
    }
    Ok(())
}

/// The byte size of the directory that precedes the first blob: both tags
/// and opaque runs, the count word, and thirty-two bytes per entry.
pub open spec fn directory_size(n: int) -> int {
    32 + 32 * n
}

/// Every entry's offset equals the directory size plus the byte size of
/// all blobs before its own.
pub open spec fn offsets_consistent(a: Archive) -> bool {
    forall|i: int| 0 <= i < a.entries@.len() ==> (#[trigger] a.entries@[i]).offset
        == directory_size(a.entries@.len() as int)
            + seq_wire(a.data@.subrange(0, i)).len()
}

impl Archive {
    /// An empty archive whose two opaque twelve-byte runs are zero-filled.
    pub fn new() -> (r: Archive)
        ensures
            r.wf(),
            r.entries@.len() == 0,
            r.data@.len() == 0,
            forall|i: int| 0 <= i < r.unk1@.len() ==> r.unk1@[i] == 0,
            forall|i: int| 0 <= i < r.unk2@.len() ==> r.unk2@[i] == 0,
    {
        let mut unk1: Vec<u8> = Vec::new();
        let mut unk2: Vec<u8> = Vec::new();
        let mut i: usize = 0;
        while i < 0x0c
            invariant
                unk1@.len() == i,
                unk2@.len() == i,
                i <= 0x0c,
                forall|k: int| 0 <= k < i ==> unk1@[k] == 0,
                forall|k: int| 0 <= k < i ==> unk2@[k] == 0,
            decreases 0x0c - i,
        {
            unk1.push(0);
            unk2.push(0);
            i = i + 1;
        }
        Archive { unk1, unk2, entries: Vec::new(), data: Vec::new() }
    }

    /// Compress `data` and append a directory entry and blob for it. The
    /// filename is encoded as Shift_JIS; `InvalidEncoding` exactly when it
    /// cannot be, `FilenameTooLong` exactly when the encoding exceeds the
    /// sixteen-byte field, and the archive is untouched on either. The
    /// entry's offset is provisional; `finalize` recomputes every offset
    /// before the archive is written.
    pub fn add_entry(&mut self, filename: String, data: Vec<u8>) -> (r: Result<(), CodecError>)
        requires
            data@.len() <= usize::MAX / 2,
            old(self).wire().len() <= u32::MAX,
            spec_compress(data@).len() + 16 <= u32::MAX,
            data@.len() <= u32::MAX,
        ensures
            r is Ok <==> (sjis_encoding(filename@) matches Some(b) && no_nul(b)
                && b.len() <= 16),
            r is Err ==> *final(self) == *old(self),
            !(sjis_encoding(filename@) matches Some(b) && no_nul(b)) ==> r == Err::<(),
                CodecError>(CodecError::InvalidEncoding),
            (sjis_encoding(filename@) matches Some(b) && no_nul(b) && b.len() > 16)
                ==> r == Err::<(), CodecError>(CodecError::FilenameTooLong),
            r is Ok ==> final(self).unk1 == old(self).unk1
                && final(self).unk2 == old(self).unk2
                && final(self).entries@.len() == old(self).entries@.len() + 1
                && final(self).data@.len() == old(self).data@.len() + 1
                && final(self).entries@.subrange(0, old(self).entries@.len() as int)
                    == old(self).entries@
                && final(self).data@.subrange(0, old(self).data@.len() as int) == old(self).data@
                && ({
                let e = final(self).entries@.last();
                let d = final(self).data@.last();
                sjis_encoding(filename@) == Some(e.filename.bytes@)
                    && e.filename.bytes@.len() <= 16
                    && e.arcsize == spec_compress(data@).len() + 16
                    && e.filesize == data@.len()
                    && e.unk1 == 1
                    && d.entries == 0
                    && d.orgsize == data@.len()
                    && d.arcsize == spec_compress(data@).len() + 16
                    && d.data@ == spec_compress(data@)
            }),
    {
        let name = match SjisText::from_str(filename.as_str()) {
            Ok(t) => t,
            Err(e) => {
                return Err(e);
            },
        };
        if name.bytes.len() > 16 {
            return Err(CodecError::FilenameTooLong);
        }
        let compressed = compress(data.as_slice());
        let offset = self.byte_size() as u32;
        let entry = ArchiveEntry {
            filename: name,
            offset,
            arcsize: (compressed.len() + 0x10) as u32,
            filesize: data.len() as u32,
            unk1: 1,
        };
        let blob = ArchiveData {
            entries: 0,
            orgsize: data.len() as u32,
            arcsize: (compressed.len() + 0x10) as u32,
            data: compressed,
        };
        self.entries.push(entry);
        self.data.push(blob);
        proof {
            assert(final(self).entries@.subrange(0, old(self).entries@.len() as int)
                =~= old(self).entries@);
            assert(final(self).data@.subrange(0, old(self).data@.len() as int)
                =~= old(self).data@);
        }
        Ok(())
    }

    /// Recompute every entry's offset as the directory size plus the
    /// running byte sum of the blobs before it.
    pub fn finalize(&mut self)
        requires
            old(self).wf(),
            old(self).entries@.len() == old(self).data@.len(),
            old(self).wire().len() <= u32::MAX,
        ensures
            final(self).unk1 == old(self).unk1,
            final(self).unk2 == old(self).unk2,
            final(self).data == old(self).data,
            final(self).entries@.len() == old(self).entries@.len(),
            forall|i: int| 0 <= i < old(self).entries@.len() ==> {
                let e = #[trigger] final(self).entries@[i];
                let o = old(self).entries@[i];
                e.filename == o.filename && e.arcsize == o.arcsize
                    && e.filesize == o.filesize && e.unk1 == o.unk1
            },
            offsets_consistent(*final(self)),
    {
        proof {
            lemma_entries_wire_len(old(self).entries@, old(self).entries@.len() as int);
            crate::codec::lemma_seq_wire_len_bound(old(self).data@, old(self).data@.len() as int);
            assert(old(self).entries@.subrange(0, old(self).entries@.len() as int)
                =~= old(self).entries@);
            assert(old(self).wire().len() == 32 + seq_wire(old(self).entries@).len()
                + seq_wire(old(self).data@).len());
        }
        let n = self.entries.len();
        let mut offset: usize = 4 + self.unk1.len() + 4 + self.unk2.len()
            + self.entries.byte_size();
        proof {
            assert(self.data@.subrange(0, 0) =~= Seq::<ArchiveData>::empty());
            assert(seq_wire(Seq::<ArchiveData>::empty()).len() == 0);
        }
        let mut i: usize = 0;
        while i < n
            invariant
                n == self.entries@.len(),
                n == self.data@.len(),
                i <= n,
                self.unk1 == old(self).unk1,
                self.unk2 == old(self).unk2,
                self.data == old(self).data,
                self.entries@.len() == old(self).entries@.len(),
                forall|j: int| i <= j < n ==> self.entries@[j] == old(self).entries@[j],
                forall|j: int| 0 <= j < i ==> {
                    let e = #[trigger] self.entries@[j];
                    let o = old(self).entries@[j];
                    e.filename == o.filename && e.arcsize == o.arcsize
                        && e.filesize == o.filesize && e.unk1 == o.unk1
                        && e.offset == directory_size(n as int)
                            + seq_wire(self.data@.subrange(0, j)).len()
                },
                offset == directory_size(n as int)
                    + seq_wire(self.data@.subrange(0, i as int)).len(),
                offset <= u32::MAX,
                old(self).wire().len() <= u32::MAX,
                seq_wire(self.data@).len()
                    + directory_size(n as int) <= u32::MAX,
                forall|k: int| 0 <= k <= n ==>
                    #[trigger] seq_wire(self.data@.subrange(0, k)).len()
                        <= seq_wire(self.data@).len(),
            decreases n - i,
        {
            let mut e = self.entries.remove(i);
            e.offset = offset as u32;
            self.entries.insert(i, e);
            proof {
                assert(self.data@.subrange(0, i + 1)
                    =~= self.data@.subrange(0, i as int).push(self.data@[i as int]));
                lemma_seq_wire_push(self.data@.subrange(0, i as int), self.data@[i as int]);
                assert(seq_wire(self.data@.subrange(0, i + 1)).len()
                    <= seq_wire(self.data@).len());
                assert(seq_wire(self.data@.subrange(0, i + 1)).len()
                    == seq_wire(self.data@.subrange(0, i as int)).len()
                        + self.data@[i as int].wire().len());
            }
            let sz = (&self.data[i]).byte_size();
            offset = offset + sz;
            i = i + 1;
        }
        proof {
            assert(offsets_consistent(*self));
        }
    }
}

/// The byte image of a directory is thirty-two bytes per entry.
proof fn lemma_entries_wire_len(es: Seq<ArchiveEntry>, n: int)
    requires
        0 <= n <= es.len(),
    ensures
        seq_wire(es.subrange(0, n)).len() == 32 * n,
    decreases n,
{
    if n == 0 {
        assert(seq_wire(es.subrange(0, 0)).len() == 0);
    } else {
        lemma_entries_wire_len(es, n - 1);
        assert(es.subrange(0, n) =~= es.subrange(0, n - 1).push(es[n - 1]));
        lemma_seq_wire_push(es.subrange(0, n - 1), es[n - 1]);
        assert(pad16(es[n - 1].filename.bytes@).len() == 16);
    }
}

/// If an archive's offsets are already consistent, recomputing them is the
/// identity on its byte image, so a parsed archive finalizes and writes
/// back byte-for-byte.
pub proof fn lemma_finalize_identity(a: Archive, b: Archive)
    requires
        offsets_consistent(a),
        offsets_consistent(b),
        a.unk1 == b.unk1,
        a.unk2 == b.unk2,
        a.data == b.data,
        a.entries@.len() == b.entries@.len(),
        forall|i: int| 0 <= i < a.entries@.len() ==> {
            let e = #[trigger] a.entries@[i];
            let o = b.entries@[i];
            e.filename == o.filename && e.arcsize == o.arcsize && e.filesize == o.filesize
                && e.unk1 == o.unk1
        },
    ensures
        a.entries@ == b.entries@,
        a.wire() == b.wire(),
{
    assert forall|i: int| 0 <= i < a.entries@.len()
        implies a.entries@[i] == b.entries@[i] by {
        assert(a.entries@[i].offset == b.entries@[i].offset);
    }
    assert(a.entries@ =~= b.entries@);
}

/// Where parsing `n` consecutive blobs starting at `pos` ends, when every
/// one of them succeeds.
pub open spec fn datas_end(s: Seq<u8>, pos: int, n: int) -> Option<int>
    decreases n,
{
    if n <= 0 {
        Some(pos)
    } else if data_parses(s, pos) {
        datas_end(s, pos + le32_at(s, pos + 12), n - 1)
    } else {
        None
    }
}

/// The inputs on which a whole-container parse succeeds: the `PACL` tag and
/// its thirty-two-byte header, a directory whose every fixed-width entry
/// parses, and blobs that end exactly at the end of input.
pub open spec fn archive_parses(s: Seq<u8>, pos: int) -> bool {
    &&& pos + 32 <= s.len()
    &&& s.subrange(pos, pos + 4) == pacl_magic()
    &&& {
        let n = le32_at(s, pos + 16) as int;
        &&& pos + 32 + 32 * n <= s.len()
        &&& (forall|i: int| 0 <= i < n ==> #[trigger] entry_parses(s, pos + 32 + 32 * i))
        &&& datas_end(s, pos + 32 + 32 * n, n) == Some(s.len() as int)
    }
}

/// Parse a whole container starting at `pos`: tag, opaque runs, the entry
/// count, that many directory entries, that many blobs, and nothing after
/// the last blob.
pub fn archive(s: &[u8], pos: usize) -> (r: Result<(Archive, usize), CodecError>)
    requires
        pos <= s@.len(),
    ensures
        r is Ok <==> archive_parses(s@, pos as int),
        r matches Ok((a, end)) ==> pos < end <= s@.len() && a.wf() && a.compiled()
            && end == s@.len()
            && a.wire() == s@.subrange(pos as int, end as int),
        r is Err ==> r == Err::<(Archive, usize), CodecError>(CodecError::UnexpectedEof)
            || r == Err::<(Archive, usize), CodecError>(CodecError::InvalidMagic)
            || r == Err::<(Archive, usize), CodecError>(CodecError::InvalidEncoding)
            || r == Err::<(Archive, usize), CodecError>(CodecError::SizeMismatch)
            || r == Err::<(Archive, usize), CodecError>(CodecError::TrailingBytes),
{
    if s.len() - pos < 4 {
        return Err(CodecError::UnexpectedEof);
    }
    if s[pos] != 0x50 || s[pos + 1] != 0x41 || s[pos + 2] != 0x43 || s[pos + 3] != 0x4c {
        proof {
            if pos + 32 <= s@.len() && s@.subrange(pos as int, pos + 4) == pacl_magic() {
                assert(s@.subrange(pos as int, pos + 4)[0] == s@[pos as int]);
                assert(s@.subrange(pos as int, pos + 4)[1] == s@[pos + 1]);
                assert(s@.subrange(pos as int, pos + 4)[2] == s@[pos + 2]);
                assert(s@.subrange(pos as int, pos + 4)[3] == s@[pos + 3]);
            }
        }
        return Err(CodecError::InvalidMagic);
    }
    let p0 = pos + 4;
    proof {
        assert(pacl_magic() =~= s@.subrange(pos as int, p0 as int));
    }
    let (unk1, p1) = raw_block(s, p0, 0x0c)?;
    let (count, p2) = read_u32(s, p1)?;
    let (unk2, p3) = raw_block(s, p2, 0x0c)?;
    proof {
        assert(count == le32_at(s@, pos + 16));
        assert(p3 == pos + 32);
    }
    let mut entries: Vec<ArchiveEntry> = Vec::new();
    let mut cur: usize = p3;
    let mut k: usize = 0;
    while k < count as usize
        invariant
            pos + 32 == p3 <= cur <= s@.len(),
            k <= count as usize,
            cur == p3 + 32 * k,
            count == le32_at(s@, pos + 16),
            s@.subrange(pos as int, pos + 4) == pacl_magic(),
            entries@.len() == k,
            seq_wire(entries@) == s@.subrange(p3 as int, cur as int),
            seq_compiled(entries@),
            forall|i: int| 0 <= i < k ==> #[trigger] entry_parses(s@, p3 + 32 * i),
        decreases count as usize - k,
    {
        let (e, nx) = match archive_entry(s, cur) {
            Ok(p) => p,
            Err(er) => {
                proof {
                    assert(!entry_parses(s@, pos + 32 + 32 * (k as int)));
                    assert(!archive_parses(s@, pos as int));
                }
                return Err(er);
            },
        };
        proof {
            lemma_seq_wire_push(entries@, e);
            assert(s@.subrange(p3 as int, cur as int) + s@.subrange(cur as int, nx as int)
                == s@.subrange(p3 as int, nx as int));
        }
        entries.push(e);
        cur = nx;
        k = k + 1;
    }
    let p4 = cur;
    let mut data: Vec<ArchiveData> = Vec::new();
    let mut cur2: usize = p4;
    let mut k2: usize = 0;
    while k2 < count as usize
        invariant
            pos + 32 <= p4 <= cur2 <= s@.len(),
            k2 <= count as usize,
            p4 == pos + 32 + 32 * (count as int),
            count == le32_at(s@, pos + 16),
            s@.subrange(pos as int, pos + 4) == pacl_magic(),
            forall|i: int| 0 <= i < count as int ==> #[trigger] entry_parses(s@, pos + 32 + 32 * i),
            datas_end(s@, p4 as int, count as int)
                == datas_end(s@, cur2 as int, count as int - k2),
            data@.len() == k2,
            seq_wire(data@) == s@.subrange(p4 as int, cur2 as int),
        decreases count as usize - k2,
    {
        let (d, nx) = match archive_data(s, cur2) {
            Ok(p) => p,
            Err(er) => {
                proof {
                    assert(datas_end(s@, cur2 as int, count as int - k2) is None);
                    assert(!archive_parses(s@, pos as int));
                }
                return Err(er);
            },
        };
        proof {
            assert(datas_end(s@, cur2 as int, count as int - k2)
                == datas_end(s@, nx as int, count as int - (k2 + 1)));
            lemma_seq_wire_push(data@, d);
            assert(s@.subrange(p4 as int, cur2 as int) + s@.subrange(cur2 as int, nx as int)
                == s@.subrange(p4 as int, nx as int));
        }
        data.push(d);
        cur2 = nx;
        k2 = k2 + 1;
    }
    let p5 = cur2;
    proof {
        assert(datas_end(s@, p4 as int, count as int) == Some(p5 as int));
    }
    if p5 != s.len() {
        return Err(CodecError::TrailingBytes);
    }
    proof {
        assert(archive_parses(s@, pos as int));
    }
    let a = Archive { unk1, unk2, entries, data };
    proof {
        assert(s@.subrange(pos as int, p0 as int) + s@.subrange(p0 as int, p1 as int)
            == s@.subrange(pos as int, p1 as int));
        assert(s@.subrange(pos as int, p1 as int) + s@.subrange(p1 as int, p2 as int)
            == s@.subrange(pos as int, p2 as int));
        assert(s@.subrange(pos as int, p2 as int) + s@.subrange(p2 as int, p3 as int)
            == s@.subrange(pos as int, p3 as int));
        assert(s@.subrange(pos as int, p3 as int) + s@.subrange(p3 as int, p4 as int)
            == s@.subrange(pos as int, p4 as int));
        assert(s@.subrange(pos as int, p4 as int) + s@.subrange(p4 as int, p5 as int)
            == s@.subrange(pos as int, p5 as int));
        assert(entries@.len() as u32 == count);
        assert(a.wire() =~= s@.subrange(pos as int, p5 as int));
    }
    Ok((a, p5))
}

/// Parse an archive from a complete byte buffer.
pub fn load_bytes(bytes: &[u8]) -> (r: Result<Archive, CodecError>)
    ensures
        r is Ok <==> archive_parses(bytes@, 0),
        r matches Ok(a) ==> a.wf() && a.compiled() && a.wire() == bytes@,
        r is Err ==> r == Err::<Archive, CodecError>(CodecError::UnexpectedEof)
            || r == Err::<Archive, CodecError>(CodecError::InvalidMagic)
            || r == Err::<Archive, CodecError>(CodecError::InvalidEncoding)
            || r == Err::<Archive, CodecError>(CodecError::SizeMismatch)
            || r == Err::<Archive, CodecError>(CodecError::TrailingBytes),
{
    let (a, _) = archive(bytes, 0)?;
    proof {
        assert(bytes@.subrange(0, bytes@.len() as int) =~= bytes@);
    }
    Ok(a)
}

/// The stub compressed form: an all-literal stream, one `0xFF` flag byte
/// before every run of eight payload bytes.
pub open spec fn spec_compress(x: Seq<u8>) -> Seq<u8> {
    Seq::new(x.len() + (x.len() + 7) / 8, |p: int|
        if p % 9 == 0 {
            0xffu8
        } else {
            x[(p / 9) * 8 + p % 9 - 1]
        })
}

/// Emit the stub all-literal compressed form of `input`; the decompressor
/// accepts it and restores `input` exactly.
pub fn compress(input: &[u8]) -> (r: Vec<u8>)
    requires
        input@.len() <= usize::MAX / 2,
    ensures
        r@ == spec_compress(input@),
{
    let mut out: Vec<u8> = Vec::new();
    let mut i: usize = 0;
    let mut m: usize = 0;
    let mut cnt: usize = 0;
    while i < input.len()
        invariant
            input@.len() <= usize::MAX / 2,
            i <= input@.len(),
            i == 8 * m + cnt,
            cnt < 8,
            out@.len() == i + m + if cnt == 0 { 0int } else { 1int },
            out@ =~= spec_compress(input@).subrange(0, out@.len() as int),
        decreases input@.len() - i,
    {
        if cnt == 0 {
            proof {
                lemma_compress_index(input@, m as int, -1);
            }
            out.push(0xff);
            proof {
                assert(out@ =~= spec_compress(input@).subrange(0, out@.len() as int));
            }
        }
        proof {
            lemma_compress_index(input@, m as int, cnt as int);
        }
        out.push(input[i]);
        proof {
            assert(out@ =~= spec_compress(input@).subrange(0, out@.len() as int));
        }
        i = i + 1;
        if cnt == 7 {
            cnt = 0;
            m = m + 1;
        } else {
            cnt = cnt + 1;
        }
    }
    proof {
        assert((input@.len() + 7) / 8 == m + if cnt == 0 { 0int } else { 1int }) by {
            assert(input@.len() == 8 * m + cnt);
        };
        assert(out@.len() == spec_compress(input@).len());
        assert(out@ =~= spec_compress(input@));
    }
    out
}

/// Index facts about the stub compressed form: position `9m` holds the
/// flag byte of group `m` (`r == -1`), and position `9m + r + 1` holds
/// payload byte `8m + r`.
proof fn lemma_compress_index(x: Seq<u8>, m: int, r: int)
    requires
        m >= 0,
        -1 <= r < 8,
        r == -1 ==> 8 * m < x.len(),
        r >= 0 ==> 8 * m + r < x.len(),
    ensures
        r == -1 ==> 9 * m < spec_compress(x).len() && spec_compress(x)[9 * m] == 0xff,
        r >= 0 ==> 9 * m + r + 1 < spec_compress(x).len()
            && spec_compress(x)[9 * m + r + 1] == x[8 * m + r],
{
    if r == -1 {
        let p = 9 * m;
        assert(p % 9 == 0 && p / 9 == m) by (nonlinear_arith)
            requires p == 9 * m, m >= 0;
        assert(p < x.len() + (x.len() + 7) / 8) by (nonlinear_arith)
            requires p == 9 * m, 8 * m < x.len();
    } else {
        let p = 9 * m + r + 1;
        assert(p % 9 == r + 1 && p / 9 == m) by (nonlinear_arith)
            requires p == 9 * m + r + 1, m >= 0, 0 <= r < 8;
        assert(p < x.len() + (x.len() + 7) / 8) by (nonlinear_arith)
            requires p == 9 * m + r + 1, 8 * m + r < x.len(), 0 <= r < 8;
        assert(spec_compress(x)[p] == x[(p / 9) * 8 + p % 9 - 1]);
        assert((p / 9) * 8 + p % 9 - 1 == 8 * m + r);
    }
}

/// Extend the output by `l` bytes copied one at a time from `d + 1`
/// positions back; each copied byte immediately becomes a source.
pub open spec fn backref_extend(acc: Seq<u8>, d: int, l: int) -> Seq<u8>
    decreases l,
{
    if l <= 0 {
        acc
    } else {
        backref_extend(acc.push(acc[acc.len() - d - 1]), d, l - 1)
    }
}

/// The decompressor, one token at a time: `i` is the token index, `pos`
/// the input cursor, `f` the current flag byte, `acc` the output so far.
/// The run ends when the output reaches `orgsize` exactly.
pub open spec fn spec_decompress_from(
    s: Seq<u8>,
    orgsize: int,
    i: int,
    pos: int,
    f: u8,
    acc: Seq<u8>,
) -> Result<Seq<u8>, CodecError>
    decreases orgsize - acc.len() via spec_decompress_from_decreases
{
    if acc.len() >= orgsize {
        Ok(acc)
    } else {
        let cnt = i % 8;
        if cnt == 0 && pos >= s.len() {
            Err(CodecError::UnexpectedEof)
        } else {
            let f1 = if cnt == 0 {
                s[pos]
            } else {
                f
            };
            let pos1 = if cnt == 0 {
                pos + 1
            } else {
                pos
            };
            if f1 & (0x80u8 >> (cnt as u8)) != 0 {
                if pos1 >= s.len() {
                    Err(CodecError::UnexpectedEof)
                } else {
                    spec_decompress_from(s, orgsize, i + 1, pos1 + 1, f1, acc.push(s[pos1]))
                }
            } else {
                if pos1 + 2 > s.len() {
                    Err(CodecError::UnexpectedEof)
                } else {
                    let w = (s[pos1] as u16) | ((s[pos1 + 1] as u16) << 8);
                    let l = (w & 0xf) + 2;
                    let d = (w >> 4) as int;
                    if acc.len() < d + 1 {
                        Err(CodecError::InvalidBackref)
                    } else {
                        let l1 = if orgsize - acc.len() < l {
                            orgsize - acc.len()
                        } else {
                            l as int
                        };
                        spec_decompress_from(s, orgsize, i + 1, pos1 + 2, f1,
                            backref_extend(acc, d, l1))
                    }
                }
            }
        }
    }
}

#[via_fn]
proof fn spec_decompress_from_decreases(
    s: Seq<u8>,
    orgsize: int,
    i: int,
    pos: int,
    f: u8,
    acc: Seq<u8>,
) {
    if acc.len() < orgsize {
        let cnt = i % 8;
        if !(cnt == 0 && pos >= s.len()) {
            let f1 = if cnt == 0 { s[pos] } else { f };
            let pos1 = if cnt == 0 { pos + 1 } else { pos };
            if f1 & (0x80u8 >> (cnt as u8)) == 0 && pos1 + 2 <= s.len() {
                let w = (s[pos1] as u16) | ((s[pos1 + 1] as u16) << 8);
                let l = (w & 0xf) + 2;
                let d = (w >> 4) as int;
                if acc.len() >= d + 1 {
                    let l1 = if orgsize - acc.len() < l { orgsize - acc.len() } else { l as int };
                    assert(l >= 2);
                    lemma_backref_extend_len(acc, d, l1);
                }
            }
        }
    }
}

/// A back-reference copy of `l` bytes grows the output by exactly `l`.
proof fn lemma_backref_extend_len(acc: Seq<u8>, d: int, l: int)
    requires
        0 <= d,
        d + 1 <= acc.len(),
        0 <= l,
    ensures
        backref_extend(acc, d, l).len() == acc.len() + l,
    decreases l,
{
    if l > 0 {
        lemma_backref_extend_len(acc.push(acc[acc.len() - d - 1]), d, l - 1);
    }
}

/// What decompressing `s` to `orgsize` bytes yields.
pub open spec fn spec_decompress(s: Seq<u8>, orgsize: int) -> Result<Seq<u8>, CodecError> {
    spec_decompress_from(s, orgsize, 0, 0, 0, Seq::empty())
}

/// Decompress the back-reference stream `input` into exactly `orgsize`
/// bytes; the result is precisely what the token-by-token model yields.
pub fn decompress(input: &[u8], orgsize: usize) -> (r: Result<Vec<u8>, CodecError>)
    ensures
        r matches Ok(v) ==> spec_decompress(input@, orgsize as int) == Ok::<Seq<u8>, CodecError>(v@)
            && v@.len() == orgsize,
        r matches Err(e) ==> spec_decompress(input@, orgsize as int)
            == Err::<Seq<u8>, CodecError>(e),
{
    let mut out: Vec<u8> = Vec::new();
    let mut i: usize = 0;
    let mut pos: usize = 0;
    let mut f: u8 = 0;
    while out.len() < orgsize
        invariant
            pos <= input@.len(),
            i <= out@.len(),
            out@.len() <= orgsize,
            spec_decompress_from(input@, orgsize as int, i as int, pos as int, f, out@)
                == spec_decompress(input@, orgsize as int),
        decreases orgsize - out@.len(),
    {
        let ghost pre = out@;
        let ghost entry_i = i as int;
        let ghost entry_pos = pos as int;
        let ghost entry_f = f;
        let cnt = i % 8;
        if cnt == 0 {
            if pos >= input.len() {
                return Err(CodecError::UnexpectedEof);
            }
            f = input[pos];
            pos = pos + 1;
        }
        if f & (0x80u8 >> (cnt as u8)) != 0 {
            if pos >= input.len() {
                return Err(CodecError::UnexpectedEof);
            }
            let b = input[pos];
            pos = pos + 1;
            out.push(b);
            proof {
                assert(out@ == pre.push(b));
                assert(spec_decompress_from(input@, orgsize as int, entry_i, entry_pos, entry_f,
                    pre) == spec_decompress_from(input@, orgsize as int, entry_i + 1, pos as int,
                    f, out@));
            }
        } else {
            if input.len() - pos < 2 {
                return Err(CodecError::UnexpectedEof);
            }
            let b0 = input[pos];
            let b1 = input[pos + 1];
            let w: u16 = (b0 as u16) | ((b1 as u16) << 8);
            pos = pos + 2;
            assert(w & 0xf <= 0xf) by (bit_vector);
            let l: u16 = (w & 0xf) + 2;
            let d: usize = (w >> 4) as usize;
            if out.len() < d + 1 {
                return Err(CodecError::InvalidBackref);
            }
            let mut j: u16 = 0;
            let ghost l1: int = if orgsize - pre.len() < l as int {
                orgsize - pre.len()
            } else {
                l as int
            };
            while j < l && out.len() < orgsize
                invariant
                    0 <= j <= l,
                    out@.len() == pre.len() + j,
                    out@.len() <= orgsize,
                    d + 1 <= pre.len(),
                    l1 == if orgsize - pre.len() < l as int { orgsize - pre.len() } else { l as int },
                    j as int <= l1,
                    out@ == backref_extend(pre, d as int, j as int),
                    pre.len() < orgsize,
                decreases l - j,
            {
                proof {
                    lemma_backref_extend_snoc(pre, d as int, j as int);
                }
                let src = out.len() - d - 1;
                let b = out[src];
                out.push(b);
                j = j + 1;
            }
            proof {
                assert(j as int == l1);
                assert(out@ == backref_extend(pre, d as int, l1));
                assert(spec_decompress_from(input@, orgsize as int, entry_i, entry_pos, entry_f,
                    pre) == spec_decompress_from(input@, orgsize as int, entry_i + 1, pos as int,
                    f, out@));
            }
        }
        i = i + 1;
        proof {
            assert(spec_decompress_from(input@, orgsize as int, entry_i, entry_pos, entry_f, pre)
                == spec_decompress_from(input@, orgsize as int, i as int, pos as int, f, out@));
        }
    }
    proof {
        assert(spec_decompress_from(input@, orgsize as int, i as int, pos as int, f, out@)
            == Ok::<Seq<u8>, CodecError>(out@));
    }
    Ok(out)
}

/// Unrolling one step of a back-reference copy from the end.
proof fn lemma_backref_extend_snoc(acc: Seq<u8>, d: int, j: int)
    requires
        0 <= d,
        d + 1 <= acc.len(),
        0 <= j,
    ensures
        backref_extend(acc, d, j + 1)
            == backref_extend(acc, d, j).push(
                backref_extend(acc, d, j)[backref_extend(acc, d, j).len() - d - 1]),
        backref_extend(acc, d, j).len() == acc.len() + j,
    decreases j,
{
    let q = acc[acc.len() - d - 1];
    if j == 0 {
        assert(backref_extend(acc, d, 0) == acc);
        assert(backref_extend(acc, d, 1) == backref_extend(acc.push(q), d, 0));
        assert(backref_extend(acc.push(q), d, 0) == acc.push(q));
    } else {
        lemma_backref_extend_snoc(acc.push(q), d, j - 1);
        assert(backref_extend(acc, d, j) == backref_extend(acc.push(q), d, j - 1));
        assert(backref_extend(acc, d, j + 1) == backref_extend(acc.push(q), d, j));
    }
}

/// The decompressor accepts the stub all-literal encoding: decompressing
/// a compressed stream to the original length restores the original bytes.
pub proof fn lemma_decompress_compress(x: Seq<u8>)
    ensures
        spec_decompress(spec_compress(x), x.len() as int) == Ok::<Seq<u8>, CodecError>(x),
{
    assert(x.subrange(0, 0) =~= Seq::<u8>::empty());
    lemma_decompress_compress_from(x, 0, 0);
}

/// The inductive step over token indices: from any token boundary, the
/// rest of an all-literal stream decompresses to the rest of the original.
proof fn lemma_decompress_compress_from(x: Seq<u8>, i: int, f: u8)
    requires
        0 <= i <= x.len(),
        i % 8 != 0 ==> f == 0xff,
    ensures
        spec_decompress_from(spec_compress(x), x.len() as int, i, i + (i + 7) / 8, f,
            x.subrange(0, i)) == Ok::<Seq<u8>, CodecError>(x),
    decreases x.len() - i,
{
    let s = spec_compress(x);
    let orgsize = x.len() as int;
    let acc = x.subrange(0, i);
    if i == x.len() {
        assert(acc =~= x);
    } else {
        let cnt = i % 8;
        let m = i / 8;
        assert(i == 8 * m + cnt && 0 <= cnt < 8) by (nonlinear_arith)
            requires m == i / 8, cnt == i % 8, i >= 0;
        let pos = i + (i + 7) / 8;
        let c8 = cnt as u8;
        assert((0xffu8 & (0x80u8 >> c8)) != 0) by (bit_vector)
            requires c8 < 8;
        lemma_compress_index(x, m, cnt);
        let f1: u8 = if cnt == 0 { s[pos] } else { f };
        let pos1 = if cnt == 0 { pos + 1 } else { pos };
        if cnt == 0 {
            assert((i + 7) / 8 == m) by (nonlinear_arith)
                requires i == 8 * m, m >= 0;
            assert(pos == 9 * m);
            lemma_compress_index(x, m, -1);
            assert(s[pos] == 0xff);
        } else {
            assert((i + 7) / 8 == m + 1) by (nonlinear_arith)
                requires i == 8 * m + cnt, m >= 0, 1 <= cnt < 8;
            assert(pos == 9 * m + cnt + 1);
        }
        assert(pos1 == 9 * m + cnt + 1);
        assert(f1 == 0xff);
        assert(pos1 < s.len() && s[pos1] == x[i]);
        assert(acc.push(x[i]) =~= x.subrange(0, i + 1));
        assert((i + 1) + (i + 8) / 8 == pos1 + 1) by (nonlinear_arith)
            requires i == 8 * m + cnt, m >= 0, 0 <= cnt < 8, pos1 == 9 * m + cnt + 1;
        lemma_decompress_compress_from(x, i + 1, f1);
        assert(spec_decompress_from(s, orgsize, i, pos, f, acc)
            == spec_decompress_from(s, orgsize, i + 1, pos1 + 1, f1, acc.push(s[pos1])));
    }
}

impl ArchiveData {
    /// Decompress this blob to its declared original size.
    pub fn decompress(&self) -> (r: Result<Vec<u8>, CodecError>)
        ensures
            r matches Ok(v) ==> spec_decompress(self.data@, self.orgsize as int)
                == Ok::<Seq<u8>, CodecError>(v@) && v@.len() == self.orgsize,
            r matches Err(e) ==> spec_decompress(self.data@, self.orgsize as int)
                == Err::<Seq<u8>, CodecError>(e),
    {
        decompress(self.data.as_slice(), self.orgsize as usize)
    }
}

} // verus!
