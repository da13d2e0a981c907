//! Shift_JIS text carried as raw bytes.
//!
//! The codec stores every on-disk string as the undecoded byte run so that
//! re-serialization is byte-exact; decoding and encoding go through
//! encoding_rs behind named, trusted wrappers.
use vstd::prelude::*;
use crate::codec::{CodecError, Writeable};

verus! {

/// What encoding_rs's SHIFT_JIS decoder returns for a byte run, or `None`
/// where it reports an error.
pub uninterp spec fn sjis_decoding(bytes: Seq<u8>) -> Option<Seq<char>>;

/// What encoding_rs's SHIFT_JIS encoder returns for a text, or `None`
/// where it reports an error.
pub uninterp spec fn sjis_encoding(text: Seq<char>) -> Option<Seq<u8>>;

/// Relies on encoding_rs's `SHIFT_JIS.decode`: the decoded text and the
/// error flag are a function of the input bytes alone. The call sniffs
/// byte-order marks, so input opening with a UTF-8 or UTF-16 mark is
/// decoded by that encoding instead; the scene format never produces one.
#[verifier::external_body]
fn sjis_decode(bytes: &[u8]) -> (r: Option<String>)
    ensures
        r is Some <==> sjis_decoding(bytes@) is Some,
        r matches Some(t) ==> sjis_decoding(bytes@) == Some(t@),
{
    let (res, _, errors) = encoding_rs::SHIFT_JIS.decode(bytes);
    if errors {
        None
    } else {
        Some(res.into_owned())
    }
}

/// Relies on encoding_rs's `SHIFT_JIS.encode`: the encoded bytes and the
/// error flag are a function of the input text alone.
#[verifier::external_body]
fn sjis_encode(text: &str) -> (r: Option<Vec<u8>>)
    ensures
        r is Some <==> sjis_encoding(text@) is Some,
        r matches Some(b) ==> sjis_encoding(text@) == Some(b@),
{
    let (res, _, errors) = encoding_rs::SHIFT_JIS.encode(text);
    if errors {
        None
    } else {
        Some(res.into_owned())
    }
}

/// No byte of the run is NUL, so a terminator can follow it on the wire.
pub open spec fn no_nul(b: Seq<u8>) -> bool {
    forall|i: int| 0 <= i < b.len() ==> b[i] != 0
}

/// A null-terminated Shift_JIS string, kept as its raw wire bytes
/// (terminator excluded). The invariant is that no interior byte is NUL.
#[derive(Debug, PartialEq, Eq, Clone)]
pub struct SjisText {
    pub bytes: Vec<u8>,
}

impl Writeable for SjisText {
    open spec fn wire(&self) -> Seq<u8> {
        self.bytes@ + seq![0u8]
    }

    open spec fn wf(&self) -> bool {
        no_nul(self.bytes@)
    }

    open spec fn compiled(&self) -> bool {
        true
    }

    fn byte_size(&self) -> (r: usize) {
        self.bytes.len() + 1
    }

    fn write(&self, out: &mut Vec<u8>) -> (r: Result<(), CodecError>) {
        let mut i: usize = 0;
        while i < self.bytes.len()
            invariant
                i <= self.bytes@.len(),
                out@ == old(out)@ + self.bytes@.subrange(0, i as int),
                old(out)@.len() + self.wire().len() <= usize::MAX,
            decreases self.bytes@.len() - i,
        {
            out.push(self.bytes[i]);
            proof {
                assert(out@ =~= old(out)@ + self.bytes@.subrange(0, i + 1));
            }
            i = i + 1;
        }
        out.push(0);
        proof {
            assert(self.bytes@.subrange(0, self.bytes@.len() as int) =~= self.bytes@);
            assert(out@ =~= old(out)@ + self.wire());
        }
        Ok(())
    }
}

impl SjisText {
    /// Encode a text to its Shift_JIS wire form. Fails with
    /// `InvalidEncoding` exactly when the encoder reports an error or the
    /// encoded bytes contain an interior NUL.
    pub fn from_str(text: &str) -> (r: Result<SjisText, CodecError>)
        ensures
            r is Ok <==> (sjis_encoding(text@) matches Some(b) && no_nul(b)),
            r matches Ok(t) ==> sjis_encoding(text@) == Some(t.bytes@) && t.wf(),
            r is Err ==> r == Err::<SjisText, CodecError>(CodecError::InvalidEncoding),
    {
        match sjis_encode(text) {
            None => Err(CodecError::InvalidEncoding),
            Some(bytes) => {
                let mut i: usize = 0;
                while i < bytes.len()
                    invariant
                        i <= bytes@.len(),
                        forall|j: int| 0 <= j < i ==> bytes@[j] != 0,
                        sjis_encoding(text@) == Some(bytes@),
                    decreases bytes@.len() - i,
                {
                    if bytes[i] == 0 {
                        proof {
                            assert(sjis_encoding(text@) == Some(bytes@));
                            assert(!no_nul(bytes@)) by {
                                assert(bytes@[i as int] == 0);
                            };
                        }
                        return Err(CodecError::InvalidEncoding);
                    }
                    i = i + 1;
                }
                proof {
                    assert(no_nul(bytes@));
                }
                Ok(SjisText { bytes })
            },
        }
    }

    /// Decode the stored bytes. Fails with `InvalidEncoding` exactly when
    /// the decoder reports an error.
    pub fn decoded(&self) -> (r: Result<String, CodecError>)
        ensures
            r is Ok <==> sjis_decoding(self.bytes@) is Some,
            r matches Ok(t) ==> sjis_decoding(self.bytes@) == Some(t@),
            r is Err ==> r == Err::<String, CodecError>(CodecError::InvalidEncoding),
    {
        match sjis_decode(self.bytes.as_slice()) {
            None => Err(CodecError::InvalidEncoding),
            Some(t) => Ok(t),
        }
    }
}

/// The index of the first NUL byte at or after `pos`, demanded by a
/// C-string parse.
pub open spec fn nul_at(s: Seq<u8>, pos: int, k: int) -> bool {
    pos <= k < s.len() && s[k] == 0 && (forall|j: int| pos <= j < k ==> s[j] != 0)
}

/// The inputs on which a C-string parse succeeds: a terminator exists and
/// the bytes before it decode as Shift_JIS.
pub open spec fn c_string_parses(s: Seq<u8>, pos: int) -> bool {
    exists|k: int| #[trigger] nul_at(s, pos, k) && sjis_decoding(s.subrange(pos, k)) is Some
}

/// Parse a null-terminated Shift_JIS string at `pos`. The stored bytes are
/// exactly the wire bytes before the terminator, so re-serialization is
/// byte-exact; the decode check preserves the original's error surface.
pub fn c_string(s: &[u8], pos: usize) -> (r: Result<(SjisText, usize), CodecError>)
    requires
        pos <= s@.len(),
    ensures
        r is Ok <==> c_string_parses(s@, pos as int),
        r matches Ok((t, end)) ==> pos < end <= s@.len() && t.wf()
            && t.wire() == s@.subrange(pos as int, end as int)
            && sjis_decoding(t.bytes@) is Some,
        r matches Err(e) ==> crate::codec::parse_error(e),
{
    let mut k: usize = pos;
    while k < s.len() && s[k] != 0
        invariant
            pos <= k <= s@.len(),
            forall|j: int| pos <= j < k ==> s@[j] != 0,
        decreases s@.len() - k,
    {
        k = k + 1;
    }
    if k == s.len() {
        proof {
            assert(forall|m: int| !nul_at(s@, pos as int, m));
        }
        return Err(CodecError::UnexpectedEof);
    }
    proof {
        assert(nul_at(s@, pos as int, k as int));
    }
    let mut bytes: Vec<u8> = Vec::new();
    let mut i: usize = pos;
    while i < k
        invariant
            pos <= i <= k <= s@.len(),
            bytes@ == s@.subrange(pos as int, i as int),
        decreases k - i,
    {
        bytes.push(s[i]);
        proof {
            assert(bytes@ =~= s@.subrange(pos as int, i + 1));
        }
        i = i + 1;
    }
    match sjis_decode(bytes.as_slice()) {
        None => {
            proof {
                assert forall|m: int| #[trigger] nul_at(s@, pos as int, m)
                    implies !(sjis_decoding(s@.subrange(pos as int, m)) is Some) by {
                    assert(m == k as int);
                }
            }
            Err(CodecError::InvalidEncoding)
        },
        Some(_) => {
            let t = SjisText { bytes };
            let end = k + 1;
            proof {
                assert(no_nul(t.bytes@));
                assert(t.wire() =~= s@.subrange(pos as int, end as int));
            }
            Ok((t, end))
        },
    }
}

} // verus!
