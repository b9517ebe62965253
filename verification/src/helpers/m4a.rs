//! Text of iTunes-style metadata atoms.
use vstd::prelude::*;

use crate::bytes::{be32, be32_at, has_tag, tag_at};
use crate::text::{copy_range, string_from_utf8_lossy, trim_class, trim_nul, utf8_lossy, CharClass};

verus! {

/// `data`
pub open spec fn tag_data() -> Seq<u8> {
    seq![0x64u8, 0x61, 0x74, 0x61]
}

/// The text of the first `data` atom among the atoms from `i` on: the atoms
/// are scanned by their 32-bit big-endian sizes until one is shorter than its
/// header or runs past the end.  The text starts 16 bytes into the `data`
/// atom (8 when the atom is shorter than 16), is decoded lossily as UTF-8 and
/// loses U+0000 at both ends.
pub open spec fn m4a_text_from(data: Seq<u8>, i: int) -> Option<Seq<char>>
    decreases data.len() - i,
{
    if i < 0 || i + 8 > data.len() {
        None
    } else {
        let size = be32(data, i);
        if size < 8 || i + size > data.len() {
            None
        } else if tag_at(data, i + 4, tag_data()) {
            let start = if 16 <= size { i + 16 } else { i + 8 };
            Some(trim_class(utf8_lossy(data.subrange(start, i + size)), CharClass::Nul))
        } else {
            m4a_text_from(data, i + size)
        }
    }
}

pub open spec fn opt_string_view(o: Option<String>) -> Option<Seq<char>> {
    match o {
        Some(s) => Some(s@),
        None => None,
    }
}

/// The text held by the first `data` atom of an iTunes metadata item.
pub fn extract_m4a_text(data: &[u8]) -> (r: Option<String>)
    ensures
        opt_string_view(r) == m4a_text_from(data@, 0),
{
    let tag: [u8; 4] = [0x64, 0x61, 0x74, 0x61];
    assert(tag@ =~= tag_data());
    let mut i: usize = 0;
    while i <= data.len() && data.len() - i >= 8
        invariant
            i <= data.len(),
            tag@ == tag_data(),
            m4a_text_from(data@, 0) == m4a_text_from(data@, i as int),
        decreases data.len() - i,
    {
        let size = be32_at(data, i) as usize;
        if size < 8 || data.len() - i < size {
            return None;
        }
        if has_tag(data, i + 4, &tag) {
            let start = if size >= 16 {
                i + 16
            } else {
                i + 8
            };
            let bytes = copy_range(data, start, i + size);
            let text = string_from_utf8_lossy(&bytes);
            return Some(trim_nul(text.as_str()));
        }
        i += size;
    }
    None
}

} // verus!
