//! The page box of a PDF document.
use vstd::prelude::*;
use vstd::utf8::*;

use crate::error::MetaError;
use crate::metadata::images::{image, image_of, ImageMeta, ImageMetadata};
use crate::reader::FileReader;
use crate::text::{
    chars_of,
    copy_range,
    find_char,
    find_seq,
    first_index,
    first_match,
    lemma_first_match_fits,
    string_from_chars,
    string_from_utf8,
};

verus! {

/// `pdf`
pub open spec fn name_pdf() -> Seq<char> {
    seq!['p', 'd', 'f']
}

/// `/MediaBox`
pub open spec fn media_box_key() -> Seq<char> {
    seq!['/', 'M', 'e', 'd', 'i', 'a', 'B', 'o', 'x']
}

/// The text inside the brackets of the first `/MediaBox` entry: from the
/// first `[` after the key to the first `]` after it.  A `]` that comes
/// before the `[` leaves no text between them: `OutOfBounds`.
pub open spec fn media_box(text: Seq<char>) -> Result<Option<Seq<char>>, MetaError> {
    match first_match(text, media_box_key()) {
        None => Ok(None),
        Some(idx) => {
            let rest = text.subrange(idx, text.len() as int);
            match first_index(rest, '[') {
                None => Ok(None),
                Some(start) => match first_index(rest, ']') {
                    None => Ok(None),
                    Some(end) => if end < start + 1 {
                        Err(MetaError::OutOfBounds)
                    } else {
                        Ok(Some(rest.subrange(start + 1, end)))
                    },
                },
            }
        },
    }
}

/// A PDF document read whole as UTF-8 text: the format, and the text of its
/// media box, whose four numbers, read as floating-point values, give the
/// page size.
pub open spec fn pdf_document(d: Seq<u8>) -> Result<(ImageMeta, Option<Seq<char>>), MetaError> {
    if !valid_utf8(d) {
        Err(MetaError::InvalidUtf8)
    } else {
        match media_box(decode_utf8(d)) {
            Err(e) => Err(e),
            Ok(b) => Ok((image(name_pdf(), None, None), b)),
        }
    }
}

/// The value of a read PDF document.
pub open spec fn pdf_result(r: Result<(ImageMetadata, Option<String>), MetaError>) -> Result<
    (ImageMeta, Option<Seq<char>>),
    MetaError,
> {
    match r {
        Ok((m, b)) => Ok(
            (
                m@,
                match b {
                    Some(s) => Some(s@),
                    None => None,
                },
            ),
        ),
        Err(e) => Err(e),
    }
}

/// Reads a PDF document: its format, and the text of its media box, which
/// the caller turns into a size.
pub fn parse(f: &mut FileReader) -> (r: Result<(ImageMetadata, Option<String>), MetaError>)
    ensures
        final(f)@.0 == old(f)@.0,
        final(f)@.1 == old(f)@.0.len(),
        pdf_result(r) == pdf_document(old(f)@.0),
{
    f.seek_start(0)?;
    let bytes = f.read_to_end();
    assert(bytes@ =~= f@.0);
    let text = match string_from_utf8(&bytes) {
        Some(s) => s,
        None => {
            return Err(MetaError::InvalidUtf8);
        },
    };
    let buf = chars_of(text.as_str());
    let key = ['/', 'M', 'e', 'd', 'i', 'a', 'B', 'o', 'x'];
    assert(key@ =~= media_box_key());
    let name = ['p', 'd', 'f'];
    assert(name@ =~= name_pdf());
    let meta = image_of(&name, None, None);
    let idx = match find_seq(&buf, &key) {
        Some(i) => i,
        None => {
            return Ok((meta, None));
        },
    };
    proof {
        lemma_first_match_fits(buf@, key@, 0);
    }
    let rest = copy_range(&buf, idx, buf.len());
    let start = match find_char(&rest, '[') {
        Some(s) => s,
        None => {
            return Ok((meta, None));
        },
    };
    let end = match find_char(&rest, ']') {
        Some(e) => e,
        None => {
            return Ok((meta, None));
        },
    };
    if end < start + 1 {
        return Err(MetaError::OutOfBounds);
    }
    let arr = copy_range(&rest, start + 1, end);
    Ok((meta, Some(string_from_chars(&arr))))
}

} // verus!
