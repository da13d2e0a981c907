//! Shared codec infrastructure: the error taxonomy, the `Writeable` trait
//! that ties every node to its byte image, and little-endian primitives.
use vstd::prelude::*;

verus! {

/// Everything that can go wrong while parsing or serializing.
#[derive(Debug, PartialEq, Eq, Clone)]
pub enum CodecError {
    /// A fixed tag (`TPC32`, `PACL`, `PACK`) is missing.
    InvalidMagic,
    /// A byte run is not valid Shift_JIS.
    InvalidEncoding,
    /// The opcode dispatch byte is not in the table.
    UnknownOpcode(u8),
    /// A condition-list tag byte is not in the table.
    UnknownConditionTag(u8),
    /// A sub-command tag byte is not in its family's table
    /// (the first byte names the family's opcode tag).
    UnknownSubcommand(u8, u8),
    /// The input ended in the middle of a record.
    UnexpectedEof,
    /// Bytes remain after the expected terminator.
    TrailingBytes,
    /// A jump target does not fall on an instruction boundary.
    MisalignedOpcode(u32),
    /// The assemble direction referenced a label that no block defines.
    UnknownLabel(String),
    /// The offsets-to-labels pass was handed an already resolved scene.
    LabelsAlreadyResolved,
    /// The labels-to-offsets pass was handed an unresolved position.
    LabelsNotResolved,
    /// An archive filename does not fit its 16-byte field.
    FilenameTooLong,
    /// An archive's directory and blob list differ in length.
    InconsistentArchive,
    /// Decompression ended at a size other than the declared one.
    SizeMismatch,
    /// A symbolic label reached the binary serializer.
    UncompiledPos,
    /// A width-prefixed value the format cannot assemble: a zero width
    /// field, or a five-or-more-byte encoding whose fifth payload byte
    /// exceeds the 32-bit value domain. The reference engine aborts on the
    /// former and silently truncates the latter.
    MalformedVal,
    /// A back-reference points before the start of the output.
    InvalidBackref,
}

/// The error kinds the parse direction can produce; the label-pass and
/// archive-consistency kinds never come from a byte parser.
pub open spec fn parse_error(e: CodecError) -> bool {
    ||| e == CodecError::UnexpectedEof
    ||| e == CodecError::InvalidMagic
    ||| e == CodecError::InvalidEncoding
    ||| e matches CodecError::UnknownOpcode(_)
    ||| e matches CodecError::UnknownConditionTag(_)
    ||| e matches CodecError::UnknownSubcommand(_, _)
    ||| e == CodecError::TrailingBytes
    ||| e == CodecError::MalformedVal
}

/// The interpreter generation this codec targets; it gates a few optional
/// trailing fields that later engine versions added to the format.
pub const SYS_VERSION: u32 = 1714;

/// Whether the targeted interpreter generation is at least `min_ver`.
pub fn sys_version_geq(min_ver: u32) -> (r: bool)
    ensures
        r == (SYS_VERSION >= min_ver),
{
    SYS_VERSION >= min_ver
}

/// A node of the scene or archive tree together with its byte image.
///
/// `wire` is the mathematical byte image; `write` produces exactly it and
/// `byte_size` returns exactly its length, so the two can never disagree.
pub trait Writeable: Sized {
    /// The byte image of this value.
    spec fn wire(&self) -> Seq<u8>;

    /// Structural validity: every count fits its length-prefix field and
    /// every string is free of interior NUL bytes.
    spec fn wf(&self) -> bool;

    /// All control-flow positions inside are byte offsets, none symbolic.
    spec fn compiled(&self) -> bool;

    /// The number of bytes `write` produces.
    fn byte_size(&self) -> (r: usize)
        requires
            self.wire().len() <= usize::MAX,
        ensures
            r == self.wire().len(),
    ;

    /// Append the byte image to `out`. Fails exactly on symbolic positions.
    fn write(&self, out: &mut Vec<u8>) -> (r: Result<(), CodecError>)
        requires
            self.wf(),
            old(out)@.len() + self.wire().len() <= usize::MAX,
        ensures
            r is Ok <==> self.compiled(),
            r is Ok ==> final(out)@ == old(out)@ + self.wire(),
    ;
}

/// The concatenated byte image of a sequence of nodes.
pub open spec fn seq_wire<T: Writeable>(s: Seq<T>) -> Seq<u8>
    decreases s.len(),
{
    if s.len() == 0 {
        Seq::empty()
    } else {
        s[0].wire() + seq_wire(s.drop_first())
    }
}

/// Every node of a sequence is structurally valid.
pub open spec fn seq_wf<T: Writeable>(s: Seq<T>) -> bool {
    forall|i: int| 0 <= i < s.len() ==> #[trigger] s[i].wf()
}

/// Every node of a sequence is free of symbolic positions.
pub open spec fn seq_compiled<T: Writeable>(s: Seq<T>) -> bool {
    forall|i: int| 0 <= i < s.len() ==> #[trigger] s[i].compiled()
}

pub proof fn lemma_seq_wire_push<T: Writeable>(s: Seq<T>, x: T)
    ensures
        seq_wire(s.push(x)) == seq_wire(s) + x.wire(),
    decreases s.len(),
{
    if s.len() == 0 {
        assert(s.push(x).drop_first() =~= Seq::<T>::empty());
        assert(s.push(x)[0] == x);
        assert(seq_wire(s.push(x)) == x.wire() + seq_wire(s.push(x).drop_first()));
        assert(seq_wire(s.push(x)) =~= seq_wire(s) + x.wire());
    } else {
        assert(s.push(x).drop_first() =~= s.drop_first().push(x));
        lemma_seq_wire_push(s.drop_first(), x);
        assert(seq_wire(s.push(x)) =~= seq_wire(s) + x.wire());
    }
}

/// Adjacent subranges concatenate to the enclosing subrange.
pub broadcast proof fn lemma_subrange_glue(s: Seq<u8>, a: int, b: int, c: int)
    requires
        0 <= a <= b <= c <= s.len(),
    ensures
        #[trigger] (s.subrange(a, b) + s.subrange(b, c)) == s.subrange(a, c),
{
    assert(s.subrange(a, b) + s.subrange(b, c) =~= s.subrange(a, c));
}

impl Writeable for u8 {
    open spec fn wire(&self) -> Seq<u8> {
        seq![*self]
    }

    open spec fn wf(&self) -> bool {
        true
    }

    open spec fn compiled(&self) -> bool {
        true
    }

    fn byte_size(&self) -> (r: usize) {
        1
    }

    fn write(&self, out: &mut Vec<u8>) -> (r: Result<(), CodecError>) {
        out.push(*self);
        assert(out@ =~= old(out)@ + self.wire());
        Ok(())
    }
}

/// The little-endian byte image of a 32-bit integer.
pub open spec fn le32(x: u32) -> Seq<u8> {
    seq![
        (x & 0xff) as u8,
        ((x >> 8) & 0xff) as u8,
        ((x >> 16) & 0xff) as u8,
        ((x >> 24) & 0xff) as u8,
    ]
}

impl Writeable for u32 {
    open spec fn wire(&self) -> Seq<u8> {
        le32(*self)
    }

    open spec fn wf(&self) -> bool {
        true
    }

    open spec fn compiled(&self) -> bool {
        true
    }

    fn byte_size(&self) -> (r: usize) {
        4
    }

    fn write(&self, out: &mut Vec<u8>) -> (r: Result<(), CodecError>) {
        let x = *self;
        out.push((x & 0xff) as u8);
        out.push(((x >> 8) & 0xff) as u8);
        out.push(((x >> 16) & 0xff) as u8);
        out.push(((x >> 24) & 0xff) as u8);
        assert(out@ =~= old(out)@ + self.wire());
        Ok(())
    }
}

impl<T: Writeable> Writeable for Vec<T> {
    open spec fn wire(&self) -> Seq<u8> {
        seq_wire(self@)
    }

    open spec fn wf(&self) -> bool {
        seq_wf(self@)
    }

    open spec fn compiled(&self) -> bool {
        seq_compiled(self@)
    }

    fn byte_size(&self) -> (r: usize) {
        proof {
            lemma_seq_wire_len_bound(self@, self@.len() as int);
        }
        let mut total: usize = 0;
        let mut i: usize = 0;
        while i < self.len()
            invariant
                i <= self@.len(),
                total == seq_wire(self@.subrange(0, i as int)).len(),
                seq_wire(self@).len() <= usize::MAX,
                forall|k: int| 0 <= k <= self@.len() ==>
                    #[trigger] seq_wire(self@.subrange(0, k)).len() <= seq_wire(self@).len(),
            decreases self@.len() - i,
        {
            proof {
                assert(self@.subrange(0, i + 1) =~= self@.subrange(0, i as int).push(self@[i as int]));
                lemma_seq_wire_push(self@.subrange(0, i as int), self@[i as int]);
                assert(seq_wire(self@.subrange(0, i + 1)).len() <= seq_wire(self@).len());
                assert(seq_wire(self@.subrange(0, i + 1)).len()
                    == total + self@[i as int].wire().len());
            }
            let sz = (&self[i]).byte_size();
            total = total + sz;
            i = i + 1;
        }
        proof {
            assert(self@.subrange(0, self@.len() as int) =~= self@);
        }
        total
    }

    fn write(&self, out: &mut Vec<u8>) -> (r: Result<(), CodecError>) {
        proof {
            lemma_seq_wire_len_bound(self@, self@.len() as int);
        }
        let mut i: usize = 0;
        while i < self.len()
            invariant
                i <= self@.len(),
                seq_wf(self@),
                out@ == old(out)@ + seq_wire(self@.subrange(0, i as int)),
                seq_compiled(self@.subrange(0, i as int)),
                old(out)@.len() + seq_wire(self@).len() <= usize::MAX,
                forall|k: int| 0 <= k <= self@.len() ==>
                    #[trigger] seq_wire(self@.subrange(0, k)).len() <= seq_wire(self@).len(),
            decreases self@.len() - i,
        {
            proof {
                assert(self@.subrange(0, i + 1) =~= self@.subrange(0, i as int).push(self@[i as int]));
                lemma_seq_wire_push(self@.subrange(0, i as int), self@[i as int]);
                assert(self@[i as int].wf());
                assert(seq_wire(self@.subrange(0, i + 1)).len() <= seq_wire(self@).len());
                assert(seq_wire(self@.subrange(0, i + 1)).len()
                    == seq_wire(self@.subrange(0, i as int)).len() + self@[i as int].wire().len());
            }
            let ghost pre = out@;
            let res = (&self[i]).write(out);
            match res {
                Ok(()) => {},
                Err(e) => {
                    proof {
                        assert(!self@[i as int].compiled());
                        assert(!seq_compiled(self@));
                    }
                    return Err(e);
                },
            }
            proof {
                assert(out@ =~= old(out)@ + seq_wire(self@.subrange(0, i + 1)));
                assert(seq_compiled(self@.subrange(0, i + 1))) by {
                    assert(forall|k: int| 0 <= k < i + 1 ==>
                        self@.subrange(0, i + 1)[k] == #[trigger] self@.subrange(0, i as int).push(self@[i as int])[k]);
                };
            }
            i = i + 1;
        }
        proof {
            assert(self@.subrange(0, self@.len() as int) =~= self@);
            assert(seq_compiled(self@)) by {
                assert(forall|k: int| 0 <= k < self@.len() ==>
                    #[trigger] self@[k] == self@.subrange(0, self@.len() as int)[k]);
            };
        }
        Ok(())
    }
}

/// The byte image of a prefix is never longer than that of the whole.
pub proof fn lemma_seq_wire_len_bound<T: Writeable>(s: Seq<T>, n: int)
    requires
        0 <= n <= s.len(),
    ensures
        forall|k: int| 0 <= k <= n ==>
            #[trigger] seq_wire(s.subrange(0, k)).len() <= seq_wire(s).len(),
    decreases n,
{
    if n > 0 {
        lemma_seq_wire_len_bound(s, n - 1);
        assert(s.subrange(0, n) =~= s.subrange(0, n - 1).push(s[n - 1]));
        lemma_seq_wire_push(s.subrange(0, n - 1), s[n - 1]);
        if n == s.len() {
            assert(s.subrange(0, n) =~= s);
        } else {
            lemma_seq_wire_suffix_bound(s, n);
        }
    } else {
        assert(seq_wire(s.subrange(0, 0)).len() == 0);
    }
}

/// Dropping elements from the front never lengthens the byte image.
proof fn lemma_seq_wire_suffix_bound<T: Writeable>(s: Seq<T>, n: int)
    requires
        0 <= n <= s.len(),
    ensures
        seq_wire(s.subrange(0, n)).len() <= seq_wire(s).len(),
    decreases n,
{
    if n == 0 {
    } else if s.len() > 0 {
        lemma_seq_wire_suffix_bound(s.drop_first(), n - 1);
        assert(s.subrange(0, n).drop_first() =~= s.drop_first().subrange(0, n - 1));
        assert(seq_wire(s.subrange(0, n)) == s[0].wire() + seq_wire(s.drop_first().subrange(0, n - 1)));
    }
}

impl<T: Writeable> Writeable for Option<T> {
    open spec fn wire(&self) -> Seq<u8> {
        match self {
            Some(v) => v.wire(),
            None => Seq::empty(),
        }
    }

    open spec fn wf(&self) -> bool {
        match self {
            Some(v) => v.wf(),
            None => true,
        }
    }

    open spec fn compiled(&self) -> bool {
        match self {
            Some(v) => v.compiled(),
            None => true,
        }
    }

    fn byte_size(&self) -> (r: usize) {
        match self {
            Some(v) => v.byte_size(),
            None => 0,
        }
    }

    fn write(&self, out: &mut Vec<u8>) -> (r: Result<(), CodecError>) {
        match self {
            Some(v) => v.write(out),
            None => {
                assert(out@ =~= old(out)@ + self.wire());
                Ok(())
            },
        }
    }
}

/// Read one byte at `pos`; `UnexpectedEof` exactly when none is left.
pub fn read_u8(s: &[u8], pos: usize) -> (r: Result<(u8, usize), CodecError>)
    requires
        pos <= s@.len(),
    ensures
        r matches Ok((b, end)) ==> end == pos + 1 && end <= s@.len()
            && seq![b] == s@.subrange(pos as int, end as int),
        r is Err <==> pos == s@.len(),
        r is Err ==> r == Err::<(u8, usize), CodecError>(CodecError::UnexpectedEof),
{
    if pos < s.len() {
        let b = s[pos];
        assert(seq![b] =~= s@.subrange(pos as int, pos + 1));
        Ok((b, pos + 1))
    } else {
        Err(CodecError::UnexpectedEof)
    }
}

/// The 32-bit integer four little-endian bytes at `pos` assemble to.
pub open spec fn le32_at(s: Seq<u8>, pos: int) -> u32 {
    (s[pos] as u32) | ((s[pos + 1] as u32) << 8) | ((s[pos + 2] as u32) << 16)
        | ((s[pos + 3] as u32) << 24)
}

/// Read a little-endian 32-bit integer; `UnexpectedEof` exactly when
/// fewer than four bytes are left.
pub fn read_u32(s: &[u8], pos: usize) -> (r: Result<(u32, usize), CodecError>)
    requires
        pos <= s@.len(),
    ensures
        r matches Ok((x, end)) ==> end == pos + 4 && end <= s@.len()
            && x == le32_at(s@, pos as int)
            && le32(x) == s@.subrange(pos as int, end as int),
        r is Err <==> pos + 4 > s@.len(),
        r is Err ==> r == Err::<(u32, usize), CodecError>(CodecError::UnexpectedEof),
{
    if s.len() - pos < 4 {
        return Err(CodecError::UnexpectedEof);
    }
    let b0 = s[pos];
    let b1 = s[pos + 1];
    let b2 = s[pos + 2];
    let b3 = s[pos + 3];
    let x: u32 = (b0 as u32) | ((b1 as u32) << 8) | ((b2 as u32) << 16) | ((b3 as u32) << 24);
    assert(x & 0xff == b0 as u32 && (x >> 8) & 0xff == b1 as u32
        && (x >> 16) & 0xff == b2 as u32 && (x >> 24) & 0xff == b3 as u32) by (bit_vector)
        requires x == (b0 as u32) | ((b1 as u32) << 8) | ((b2 as u32) << 16) | ((b3 as u32) << 24);
    assert(le32(x) =~= s@.subrange(pos as int, pos + 4));
    Ok((x, pos + 4))
}

} // verus!
