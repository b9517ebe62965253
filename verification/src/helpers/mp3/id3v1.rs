//! ID3v1 text fields.
use vstd::prelude::*;

use crate::text::{
    chars_of, string_from_chars, string_from_utf8_lossy, trim_chars, trim_class, trim_end_chars,
    trim_end_class, utf8_lossy, CharClass,
};

verus! {

/// The text of a fixed-width ID3v1 field: lossily decoded, without trailing
/// U+0000 and then without surrounding whitespace.
pub open spec fn id3v1_text(b: Seq<u8>) -> Seq<char> {
    trim_class(trim_end_class(utf8_lossy(b), CharClass::Nul), CharClass::Whitespace)
}

/// The text of a fixed-width ID3v1 field, or `None` when it is blank.
pub fn trim_id3v1_text(b: &[u8]) -> (r: Option<String>)
    ensures
        r is None <==> id3v1_text(b@).len() == 0,
        r matches Some(s) ==> s@ == id3v1_text(b@),
{
    let decoded = string_from_utf8_lossy(b);
    let chars = chars_of(decoded.as_str());
    let no_nul = trim_end_chars(&chars, CharClass::Nul);
    let t = trim_chars(&no_nul, CharClass::Whitespace);
    if t.len() == 0 {
        None
    } else {
        Some(string_from_chars(&t))
    }
}

} // verus!
