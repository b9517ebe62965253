//! ID3v2 sizes and text frames.
use vstd::prelude::*;

use crate::bytes::{be16, be16_at};
use crate::text::{
    copy_range, decode_utf16_lossy, string_from_utf8_lossy, trim_class, trim_nul, utf16_decode,
    utf8_lossy, CharClass,
};

verus! {

/// A synchsafe integer: four bytes of which only the low 7 bits count,
/// most significant first.
pub open spec fn synchsafe(b: Seq<u8>) -> int {
    (b[0] % 128) * 0x20_0000 + (b[1] % 128) * 0x4000 + (b[2] % 128) * 0x80 + (b[3] % 128)
}

/// The value of the synchsafe integer in the first four bytes.
pub fn synchsafe_to_u32(bytes: &[u8]) -> (r: u32)
    requires
        bytes.len() >= 4,
    ensures
        r == synchsafe(bytes@),
        r < 0x1000_0000,
{
    let b0 = bytes[0] as u32;
    let b1 = bytes[1] as u32;
    let b2 = bytes[2] as u32;
    let b3 = bytes[3] as u32;
    let r = ((b0 & 0x7F) << 21) | ((b1 & 0x7F) << 14) | ((b2 & 0x7F) << 7) | (b3 & 0x7F);
    assert(r == (b0 % 128) * 0x20_0000 + (b1 % 128) * 0x4000 + (b2 % 128) * 0x80 + (b3 % 128)
        && r < 0x1000_0000) by (bit_vector)
        requires
            b0 < 256 && b1 < 256 && b2 < 256 && b3 < 256,
            r == ((b0 & 0x7F) << 21) | ((b1 & 0x7F) << 14) | ((b2 & 0x7F) << 7) | (b3 & 0x7F),
    ;
    r
}

/// The big-endian 16-bit units of `data[1..]`, a trailing odd byte dropped.
pub open spec fn utf16be_units(data: Seq<u8>) -> Seq<u16> {
    Seq::new(((data.len() - 1) / 2) as nat, |k: int| be16(data, 1 + 2 * k) as u16)
}

/// The text of an ID3v2 text frame: the first byte names the encoding,
/// 0 for ISO-8859-1 (read as lossy UTF-8) and 1 for UTF-16 (read big-endian);
/// U+0000 is dropped at both ends.  Other encodings, and an empty frame, have
/// no text.
pub open spec fn text_frame(data: Seq<u8>) -> Option<Seq<char>> {
    if data.len() == 0 {
        None
    } else if data[0] == 0 {
        Some(trim_class(utf8_lossy(data.subrange(1, data.len() as int)), CharClass::Nul))
    } else if data[0] == 1 {
        Some(trim_class(utf16_decode(utf16be_units(data)), CharClass::Nul))
    } else {
        None
    }
}

/// Decodes an ID3v2 text frame.
pub fn decode_text_frame(data: &[u8]) -> (r: Option<String>)
    ensures
        r is None <==> text_frame(data@) is None,
        r matches Some(s) ==> text_frame(data@) == Some(s@),
{
    if data.len() == 0 {
        return None;
    }
    if data[0] == 0 {
        let bytes = copy_range(data, 1, data.len());
        let text = string_from_utf8_lossy(&bytes);
        Some(trim_nul(text.as_str()))
    } else if data[0] == 1 {
        let n = (data.len() - 1) / 2;
        let mut units: Vec<u16> = Vec::new();
        let mut k: usize = 0;
        while k < n
            invariant
                n == (data.len() - 1) / 2,
                k <= n,
                units@ =~= utf16be_units(data@).subrange(0, k as int),
            decreases n - k,
        {
            units.push(be16_at(data, 1 + 2 * k));
            k += 1;
        }
        assert(units@ =~= utf16be_units(data@));
        let text = decode_utf16_lossy(&units);
        Some(trim_nul(text.as_str()))
    } else {
        None
    }
}

} // verus!
