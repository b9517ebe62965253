//! Size of an SVG image.
use vstd::prelude::*;
use vstd::utf8::*;

use crate::error::MetaError;
use crate::metadata::images::{image, image_of, image_result, ImageMeta, ImageMetadata};
use crate::numbers::{parse_u32, u32_of_text};
use crate::reader::FileReader;
use crate::text::{
    char_is_numeric,
    chars_of,
    copy_range,
    find_char,
    find_seq,
    first_index,
    first_match,
    lemma_first_match_fits,
    numeric,
    string_from_chars,
    string_from_utf8,
    trim_chars,
    trim_class,
    trim_end_class,
    trim_start_class,
    is_whitespace,
    CharClass,
};

verus! {

/// `svg`
pub open spec fn name_svg() -> Seq<char> {
    seq!['s', 'v', 'g']
}

/// `<svg`
pub open spec fn svg_open() -> Seq<char> {
    seq!['<', 's', 'v', 'g']
}

/// `width`
pub open spec fn word_width() -> Seq<char> {
    seq!['w', 'i', 'd', 't', 'h']
}

/// `height`
pub open spec fn word_height() -> Seq<char> {
    seq!['h', 'e', 'i', 'g', 'h', 't']
}

/// The value of the attribute `name` in `tag`: the text between the first
/// `name="` and the next `"`.
pub open spec fn attr_value(tag: Seq<char>, name: Seq<char>) -> Option<Seq<char>> {
    let pat = name + seq!['=', '"'];
    match first_match(tag, pat) {
        None => None,
        Some(i) => {
            let start = i + pat.len();
            match first_index(tag.subrange(start, tag.len() as int), '"') {
                None => None,
                Some(e) => Some(tag.subrange(start, start + e)),
            }
        },
    }
}

/// `s` without the characters at its end that are not numeric.
pub open spec fn trim_end_non_numeric(s: Seq<char>) -> Seq<char>
    decreases s.len(),
{
    if s.len() > 0 && !numeric(s.last()) {
        trim_end_non_numeric(s.drop_last())
    } else {
        s
    }
}

/// A length such as `120px`: the number left once whitespace is trimmed and
/// the characters that are not numeric are cut from the end.
pub open spec fn dimension_value(val: Seq<char>) -> Option<u32> {
    u32_of_text(trim_end_non_numeric(trim_class(val, CharClass::Whitespace)))
}

/// The value of the attribute `name` in the tag text `tag`, as in
/// `name="value"`.
pub fn extract_attr(tag: &str, name: &str) -> (r: Option<String>)
    ensures
        match attr_value(tag@, name@) {
            None => r is None,
            Some(v) => r matches Some(s) && s@ == v,
        },
{
    let t = chars_of(tag);
    let mut pattern = chars_of(name);
    pattern.push('=');
    pattern.push('"');
    assert(pattern@ =~= name@ + seq!['=', '"']);
    let i = match find_seq(&t, &pattern) {
        Some(i) => i,
        None => {
            return None;
        },
    };
    proof {
        lemma_first_match_fits(t@, pattern@, 0);
    }
    assert(i + pattern.len() <= t.len());
    let start = i + pattern.len();
    let rest = copy_range(&t, start, t.len());
    let end = match find_char(&rest, '"') {
        Some(e) => e,
        None => {
            return None;
        },
    };
    let v = copy_range(&t, start, start + end);
    Some(string_from_chars(&v))
}

/// A length value as a whole number of units: `120px` gives 120.
pub fn parse_dimension(val: &str) -> (r: Option<u32>)
    ensures
        r == dimension_value(val@),
{
    let chars = chars_of(val);
    let t = trim_chars(&chars, CharClass::Whitespace);
    let mut b = t.len();
    assert(t@.subrange(0, b as int) =~= t@);
    while b > 0 && !char_is_numeric(t[b - 1])
        invariant
            b <= t.len(),
            trim_end_non_numeric(t@) == trim_end_non_numeric(t@.subrange(0, b as int)),
        decreases b,
    {
        assert(t@.subrange(0, b as int).drop_last() =~= t@.subrange(0, b - 1));
        b -= 1;
    }
    let digits = copy_range(&t, 0, b);
    parse_u32(&digits)
}

/// The width and height of the first `<svg` tag of the text, each present
/// only when it reads as a length.
pub open spec fn svg_dimensions(xml: Seq<char>) -> Option<(u32, u32)> {
    match first_match(xml, svg_open()) {
        None => None,
        Some(s) => match first_index(xml.subrange(s, xml.len() as int), '>') {
            None => None,
            Some(e) => {
                let tag = xml.subrange(s, s + e);
                let w = match attr_value(tag, word_width()) {
                    Some(v) => dimension_value(v),
                    None => None,
                };
                let h = match attr_value(tag, word_height()) {
                    Some(v) => dimension_value(v),
                    None => None,
                };
                match (w, h) {
                    (Some(w), Some(h)) => Some((w, h)),
                    _ => None,
                }
            },
        },
    }
}

/// An SVG image: the file read whole as UTF-8 text, then the size from its
/// `<svg` tag.
pub open spec fn svg_image(d: Seq<u8>) -> Result<ImageMeta, MetaError> {
    if !valid_utf8(d) {
        Err(MetaError::InvalidUtf8)
    } else {
        Ok(image(name_svg(), svg_dimensions(decode_utf8(d)), None))
    }
}

fn dimension_of(tag: &str, name: &str) -> (r: Option<u32>)
    ensures
        r == (match attr_value(tag@, name@) {
            Some(v) => dimension_value(v),
            None => None,
        }),
{
    match extract_attr(tag, name) {
        Some(v) => parse_dimension(v.as_str()),
        None => None,
    }
}

/// Reads the size of an SVG image.
pub fn parse(f: &mut FileReader) -> (r: Result<ImageMetadata, MetaError>)
    ensures
        final(f)@.0 == old(f)@.0,
        final(f)@.1 == old(f)@.0.len(),
        image_result(r) == svg_image(old(f)@.0),
{
    f.seek_start(0)?;
    let bytes = f.read_to_end();
    assert(bytes@ =~= f@.0);
    let xml = match string_from_utf8(&bytes) {
        Some(s) => s,
        None => {
            return Err(MetaError::InvalidUtf8);
        },
    };
    let x = chars_of(xml.as_str());
    let open = ['<', 's', 'v', 'g'];
    assert(open@ =~= svg_open());
    let name = ['s', 'v', 'g'];
    assert(name@ =~= name_svg());
    let mut dimensions: Option<(u32, u32)> = None;
    if let Some(start) = find_seq(&x, &open) {
        proof {
            lemma_first_match_fits(x@, open@, 0);
        }
        let rest = copy_range(&x, start, x.len());
        if let Some(end) = find_char(&rest, '>') {
            let tag_chars = copy_range(&x, start, start + end);
            let tag = string_from_chars(&tag_chars);
            let width_name = string_from_chars(&['w', 'i', 'd', 't', 'h']);
            let height_name = string_from_chars(&['h', 'e', 'i', 'g', 'h', 't']);
            assert(width_name@ =~= word_width());
            assert(height_name@ =~= word_height());
            let width = dimension_of(tag.as_str(), width_name.as_str());
            let height = dimension_of(tag.as_str(), height_name.as_str());
            dimensions = match (width, height) {
                (Some(w), Some(h)) => Some((w, h)),
                _ => None,
            };
        }
    }
    Ok(image_of(&name, dimensions, None))
}

} // verus!

verus! {

/// Whether every whitespace character of `s` is an ASCII one.
pub open spec fn ascii_spaces(s: Seq<char>) -> bool {
    forall|i: int| 0 <= i < s.len() && is_whitespace(#[trigger] s[i]) ==> (s[i] as u32) < 128
}

proof fn lemma_trim_start_append(s: Seq<char>, t: Seq<char>)
    requires
        t.len() > 0,
        !is_whitespace(t[0]),
    ensures
        trim_start_class(s + t, CharClass::Whitespace) == trim_start_class(s, CharClass::Whitespace)
            + t,
    decreases s.len(),
{
    if s.len() == 0 {
        assert(s + t =~= t);
    } else if is_whitespace(s[0]) {
        assert((s + t).drop_first() =~= s.drop_first() + t);
        lemma_trim_start_append(s.drop_first(), t);
    }
}

proof fn lemma_trim_start_ascii_spaces(s: Seq<char>)
    requires
        ascii_spaces(s),
    ensures
        ascii_spaces(trim_start_class(s, CharClass::Whitespace)),
    decreases s.len(),
{
    if s.len() > 0 && is_whitespace(s[0]) {
        assert forall|i: int|
            0 <= i < s.drop_first().len() && is_whitespace(
                #[trigger] s.drop_first()[i],
            ) implies (s.drop_first()[i] as u32) < 128 by {
            assert(s.drop_first()[i] == s[i + 1]);
        }
        lemma_trim_start_ascii_spaces(s.drop_first());
    }
}

proof fn lemma_trailing_spaces_not_numeric(a: Seq<char>)
    requires
        ascii_spaces(a),
    ensures
        trim_end_non_numeric(a) == trim_end_non_numeric(trim_end_class(a, CharClass::Whitespace)),
    decreases a.len(),
{
    if a.len() > 0 && is_whitespace(a.last()) {
        assert(a.last() == a[a.len() - 1]);
        assert forall|i: int|
            0 <= i < a.drop_last().len() && is_whitespace(
                #[trigger] a.drop_last()[i],
            ) implies (a.drop_last()[i] as u32) < 128 by {
            assert(a.drop_last()[i] == a[i]);
        }
        lemma_trailing_spaces_not_numeric(a.drop_last());
    }
}

/// A trailing `px` never changes a length value, for values whose
/// whitespace is ASCII.
pub proof fn lemma_px_suffix_ignored(val: Seq<char>)
    requires
        ascii_spaces(val),
    ensures
        dimension_value(val + seq!['p', 'x']) == dimension_value(val),
{
    let px = seq!['p', 'x'];
    let a = trim_start_class(val, CharClass::Whitespace);
    lemma_trim_start_append(val, px);
    assert((a + px).last() == 'x');
    assert(trim_end_class(a + px, CharClass::Whitespace) == a + px);
    assert((a + px).drop_last() =~= a + seq!['p']);
    assert((a + seq!['p']).last() == 'p');
    assert((a + seq!['p']).drop_last() =~= a);
    assert(!numeric('x') && !numeric('p'));
    assert(trim_end_non_numeric(a + px) == trim_end_non_numeric(a + seq!['p']));
    assert(trim_end_non_numeric(a + seq!['p']) == trim_end_non_numeric(a));
    lemma_trim_start_ascii_spaces(val);
    lemma_trailing_spaces_not_numeric(a);
}

} // verus!

verus! {

/// The size of an SVG image pairs the length of the `width` attribute of its
/// first `<svg` tag with that of its `height` attribute, in that order.
pub proof fn lemma_svg_width_then_height(xml: Seq<char>, s: int, e: int)
    requires
        first_match(xml, svg_open()) == Some(s),
        first_index(xml.subrange(s, xml.len() as int), '>') == Some(e),
    ensures
        ({
            let tag = xml.subrange(s, s + e);
            match (attr_value(tag, word_width()), attr_value(tag, word_height())) {
                (Some(wv), Some(hv)) => match (dimension_value(wv), dimension_value(hv)) {
                    (Some(w), Some(h)) => svg_dimensions(xml) == Some((w, h)),
                    _ => svg_dimensions(xml) is None,
                },
                _ => svg_dimensions(xml) is None,
            }
        }),
{
}

} // verus!
