//! The fixed-record Japanese font table: a set number of 24-by-24,
//! four-bit-per-pixel glyphs, 576 bytes each, indexed by JIS code.
use vstd::prelude::*;
use crate::codec::CodecError;

verus! {

/// How many glyphs the font file holds.
pub const NUM_CHARS: usize = 4418;

/// One 24-by-24 four-bit-per-pixel glyph.
pub type FontChar = [u8; 576];

/// The decoded font table: one glyph per JIS code.
pub struct Font {
    pub chars: Vec<FontChar>,
}

/// Decode a font file: exactly `NUM_CHARS` glyphs of 576 bytes each, in
/// order; `SizeMismatch` for any other length.
pub fn load_bytes(bytes: &[u8]) -> (r: Result<Font, CodecError>)
    ensures
        r is Ok <==> bytes@.len() == NUM_CHARS * 576,
        r matches Ok(f) ==> f.chars@.len() == NUM_CHARS
            && forall|i: int, k: int| 0 <= i < NUM_CHARS && 0 <= k < 576 ==>
                (#[trigger] f.chars@[i]@[k]) == bytes@[i * 576 + k],
{
    if bytes.len() != NUM_CHARS * 576 {
        return Err(CodecError::SizeMismatch);
    }
    let mut chars: Vec<FontChar> = Vec::new();
    let mut i: usize = 0;
    while i < NUM_CHARS
        invariant
            i <= NUM_CHARS,
            bytes@.len() == NUM_CHARS * 576,
            chars@.len() == i,
            forall|j: int, k: int| 0 <= j < i && 0 <= k < 576 ==>
                (#[trigger] chars@[j]@[k]) == bytes@[j * 576 + k],
        decreases NUM_CHARS - i,
    {
        let mut glyph: FontChar = [0; 576];
        let base = i * 576;
        let mut k: usize = 0;
        while k < 576
            invariant
                k <= 576,
                base == i * 576,
                i < NUM_CHARS,
                bytes@.len() == NUM_CHARS * 576,
                forall|m: int| 0 <= m < k ==> (#[trigger] glyph@[m]) == bytes@[base + m],
            decreases 576 - k,
        {
            proof {
                assert(base + k < bytes@.len()) by (nonlinear_arith)
                    requires
                        base == i * 576,
                        i < NUM_CHARS,
                        k < 576,
                        bytes@.len() == NUM_CHARS * 576;
            }
            glyph[k] = bytes[base + k];
            k = k + 1;
        }
        chars.push(glyph);
        i = i + 1;
    }
    Ok(Font { chars })
}

} // verus!
