//! Image metadata.
use vstd::prelude::*;

use crate::error::MetaError;
use crate::metadata::audio::opt_chars;
use crate::reader::{read_bytes, FileReader};
use crate::text::{char_is_whitespace, char_to_uppercase, chars_of, is_whitespace, string_from_chars, upper_ascii, upper_chars};

pub mod formats;

verus! {

/// Title, size, colour depth and format of an image.
#[derive(Debug)]
pub struct ImageMetadata {
    pub title: Option<String>,
    pub dimensions: Option<(u32, u32)>,
    pub color_depth: Option<u8>,
    pub format: Option<String>,
}

/// The value of an [`ImageMetadata`]: each text as its characters.
pub struct ImageMeta {
    pub title: Option<Seq<char>>,
    pub dimensions: Option<(u32, u32)>,
    pub color_depth: Option<u8>,
    pub format: Option<Seq<char>>,
}

impl View for ImageMetadata {
    type V = ImageMeta;

    open spec fn view(&self) -> ImageMeta {
        ImageMeta {
            title: opt_chars(self.title),
            dimensions: self.dimensions,
            color_depth: self.color_depth,
            format: opt_chars(self.format),
        }
    }
}

/// The metadata with no field set.
pub open spec fn empty_image() -> ImageMeta {
    ImageMeta { title: None, dimensions: None, color_depth: None, format: None }
}

/// The metadata of an image of the given format, size and depth, untitled.
pub open spec fn image(
    format: Seq<char>,
    dimensions: Option<(u32, u32)>,
    color_depth: Option<u8>,
) -> ImageMeta {
    ImageMeta { title: None, dimensions, color_depth, format: Some(format) }
}

impl Default for ImageMetadata {
    fn default() -> (r: ImageMetadata)
        ensures
            r@ == empty_image(),
    {
        ImageMetadata { title: None, dimensions: None, color_depth: None, format: None }
    }
}

/// An untitled image of the format named by `format`.
pub fn image_of(format: &[char], dimensions: Option<(u32, u32)>, color_depth: Option<u8>) -> (r:
    ImageMetadata)
    ensures
        r@ == image(format@, dimensions, color_depth),
{
    ImageMetadata {
        title: None,
        dimensions,
        color_depth,
        format: Some(string_from_chars(format)),
    }
}

pub open spec fn image_result(r: Result<ImageMetadata, crate::error::MetaError>) -> Result<
    ImageMeta,
    crate::error::MetaError,
> {
    match r {
        Ok(m) => Ok(m@),
        Err(e) => Err(e),
    }
}

} // verus!

verus! {

/// A character of a file name with `_` and `-` read as spaces.
pub open spec fn spaced(c: char) -> char {
    if c == '_' || c == '-' {
        ' '
    } else {
        c
    }
}

/// A word as a one-element list, nothing for an empty word.
pub open spec fn word_piece(cur: Seq<char>) -> Seq<Seq<char>> {
    if cur.len() > 0 {
        seq![cur]
    } else {
        seq![]
    }
}

/// The words of `s` from `i` on, split at whitespace, `cur` being the part
/// of a word already passed.
pub open spec fn words_from(s: Seq<char>, i: int, cur: Seq<char>) -> Seq<Seq<char>>
    decreases s.len() - i,
{
    if i < 0 || i >= s.len() {
        word_piece(cur)
    } else if is_whitespace(s[i]) {
        word_piece(cur) + words_from(s, i + 1, seq![])
    } else {
        words_from(s, i + 1, cur.push(s[i]))
    }
}

/// A word with its first character in upper case.
pub open spec fn capitalized(w: Seq<char>) -> Seq<char> {
    if w.len() > 0 {
        upper_chars(w[0]) + w.drop_first()
    } else {
        seq![]
    }
}

/// The words joined by single spaces.
pub open spec fn join_words(ws: Seq<Seq<char>>) -> Seq<char>
    decreases ws.len(),
{
    if ws.len() == 0 {
        seq![]
    } else if ws.len() == 1 {
        ws[0]
    } else {
        join_words(ws.drop_last()) + seq![' '] + ws.last()
    }
}

/// `Unknown`
pub open spec fn unknown_name() -> Seq<char> {
    seq!['U', 'n', 'k', 'n', 'o', 'w', 'n']
}

/// A title made of a file name without its extension (`Unknown` when there
/// is none): `_` and `-` become spaces, and the words, each capitalized,
/// are joined by single spaces.
pub open spec fn pretty_title(stem: Option<Seq<char>>) -> Seq<char> {
    let name = match stem {
        Some(s) => s,
        None => unknown_name(),
    };
    let spaced_name = Seq::new(name.len(), |i: int| spaced(name[i]));
    join_words(words_from(spaced_name, 0, seq![]).map_values(|w: Seq<char>| capitalized(w)))
}

/// Appends `w`, capitalized, to `out`, after a space unless it is the first
/// word.
fn append_word(out: &mut Vec<char>, w: &[char], first: bool, Ghost(done): Ghost<Seq<Seq<char>>>)
    requires
        w.len() > 0,
        first == (done.len() == 0),
        old(out)@ == join_words(done.map_values(|x: Seq<char>| capitalized(x))),
    ensures
        final(out)@ == join_words(done.push(w@).map_values(|x: Seq<char>| capitalized(x))),
{
    let ghost before = out@;
    if !first {
        out.push(' ');
    }
    let up = char_to_uppercase(w[0]);
    let up_chars = chars_of(up.as_str());
    let mut i: usize = 0;
    while i < up_chars.len()
        invariant
            i <= up_chars.len(),
            out@ == (if first {
                seq![]
            } else {
                before + seq![' ']
            }) + up_chars@.subrange(0, i as int),
        decreases up_chars.len() - i,
    {
        out.push(up_chars[i]);
        i += 1;
    }
    let mut j: usize = 1;
    while j < w.len()
        invariant
            1 <= j <= w.len(),
            out@ == (if first {
                seq![]
            } else {
                before + seq![' ']
            }) + up_chars@ + w@.subrange(1, j as int),
        decreases w.len() - j,
    {
        out.push(w[j]);
        j += 1;
    }
    proof {
        let f = |x: Seq<char>| capitalized(x);
        let ws = done.push(w@).map_values(f);
        assert(done.push(w@).map_values(f).drop_last() =~= done.map_values(f));
        assert(up_chars@ =~= upper_chars(w@[0]));
        assert(w@.subrange(1, w.len() as int) =~= w@.drop_first());
        assert(ws.last() == capitalized(w@));
        if first {
            assert(ws.len() == 1);
            assert(out@ =~= capitalized(w@));
        } else {
            assert(out@ =~= before + seq![' '] + capitalized(w@));
        }
    }
}

impl ImageMetadata {
    /// A title from a file name without its extension, `Unknown` when the
    /// path has none: `my_photo-2` gives `My Photo 2`.
    pub fn prettify_filename(file_stem: Option<&str>) -> (r: String)
        ensures
            r@ == pretty_title(
                match file_stem {
                    Some(s) => Some(s@),
                    None => None,
                },
            ),
    {
        let name: Vec<char> = match file_stem {
            Some(s) => chars_of(s),
            None => {
                let u = vec!['U', 'n', 'k', 'n', 'o', 'w', 'n'];
                assert(u@ =~= unknown_name());
                u
            },
        };
        let ghost sname = Seq::new(name@.len(), |i: int| spaced(name@[i]));
        let mut sp: Vec<char> = Vec::new();
        let mut k: usize = 0;
        while k < name.len()
            invariant
                k <= name.len(),
                sp@ == sname.subrange(0, k as int),
                sname == Seq::new(name@.len(), |i: int| spaced(name@[i])),
            decreases name.len() - k,
        {
            let c = name[k];
            sp.push(
                if c == '_' || c == '-' {
                    ' '
                } else {
                    c
                },
            );
            k += 1;
        }
        assert(sp@ =~= sname);
        let ghost f = |x: Seq<char>| capitalized(x);
        let mut out: Vec<char> = Vec::new();
        let mut cur: Vec<char> = Vec::new();
        let ghost mut done: Seq<Seq<char>> = seq![];
        let mut first = true;
        let mut i: usize = 0;
        assert(done.map_values(f) =~= Seq::<Seq<char>>::empty());
        while i < sp.len()
            invariant
                i <= sp.len(),
                first == (done.len() == 0),
                out@ == join_words(done.map_values(f)),
                words_from(sp@, 0, seq![]) == done + words_from(sp@, i as int, cur@),
                f == (|x: Seq<char>| capitalized(x)),
            decreases sp.len() - i,
        {
            if char_is_whitespace(sp[i]) {
                if cur.len() > 0 {
                    append_word(&mut out, &cur, first, Ghost(done));
                    proof {
                        assert(done + (word_piece(cur@) + words_from(sp@, i + 1, seq![])) =~= done.push(
                            cur@,
                        ) + words_from(sp@, i + 1, seq![]));
                        done = done.push(cur@);
                    }
                    first = false;
                } else {
                    assert(done + (word_piece(cur@) + words_from(sp@, i + 1, seq![])) =~= done
                        + words_from(sp@, i + 1, seq![]));
                }
                cur = Vec::new();
                assert(cur@ =~= seq![]);
            } else {
                cur.push(sp[i]);
            }
            i += 1;
        }
        if cur.len() > 0 {
            append_word(&mut out, &cur, first, Ghost(done));
            proof {
                assert(done + word_piece(cur@) =~= done.push(cur@));
                done = done.push(cur@);
            }
        } else {
            assert(done + word_piece(cur@) =~= done);
        }
        string_from_chars(&out)
    }

    /// The empty metadata titled after the file name.
    pub fn default_with_filename(file_stem: Option<&str>) -> (r: ImageMetadata)
        ensures
            r@ == (ImageMeta {
                title: Some(
                    pretty_title(
                        match file_stem {
                            Some(s) => Some(s@),
                            None => None,
                        },
                    ),
                ),
                ..empty_image()
            }),
    {
        let mut m = Self::default();
        m.title = Some(Self::prettify_filename(file_stem));
        m
    }

    /// Reads the metadata of the image in `f`, titled after the file name
    /// when the format gives no title.  Besides the metadata comes the text
    /// of a PDF document's media box, from which the caller computes the
    /// page size.
    pub fn from_reader(f: &mut FileReader, file_stem: Option<&str>) -> (r: Result<
        (ImageMetadata, Option<String>),
        MetaError,
    >)
        ensures
            final(f)@.0 == old(f)@.0,
            image_from_pos(old(f)@.0, old(f)@.1) matches Some(p) ==> final(f)@.1 == p,
            formats::read_result(r) == image_from(
                old(f)@.0,
                old(f)@.1,
                match file_stem {
                    Some(s) => Some(s@),
                    None => None,
                },
            ),
    {
        let mut header = f.read(16);
        if header.len() < 8 {
            return Ok((Self::default_with_filename(file_stem), None));
        }
        f.seek_start(0)?;
        let ghost h = header@;
        while header.len() < 16
            invariant
                8 <= h.len() <= header.len() <= 16,
                header@ == h + Seq::new((header.len() - h.len()) as nat, |i: int| 0u8),
            decreases 16 - header.len(),
        {
            header.push(0);
            assert(header@ =~= h + Seq::new((header.len() - h.len()) as nat, |i: int| 0u8));
        }
        let (mut meta, media_box) = formats::detect_and_parse(&header, f)?;
        if meta.title.is_none() {
            meta.title = Some(Self::prettify_filename(file_stem));
        }
        Ok((meta, media_box))
    }
}

/// Where reading an image from the position `pos` of a file leaves the
/// reader: none where the format read is EPS.
pub open spec fn image_from_pos(d: Seq<u8>, pos: int) -> Option<int> {
    let h = read_bytes(d, pos, 16);
    if h.len() < 8 {
        Some(pos + h.len())
    } else {
        let padded = h + Seq::new((16 - h.len()) as nat, |i: int| 0u8);
        formats::image_detect_pos(padded, d, 0)
    }
}

/// The metadata titled after the file name when it has no title.
pub open spec fn titled(m: ImageMeta, stem: Option<Seq<char>>) -> ImageMeta {
    if m.title is None {
        ImageMeta { title: Some(pretty_title(stem)), ..m }
    } else {
        m
    }
}

/// Reading an image from the position `pos` of a file: up to 16 bytes are
/// read there; fewer than 8 give the empty metadata titled after the file
/// name; otherwise the bytes, padded with zeros to 16, choose the format,
/// which is read from the start of the file.
pub open spec fn image_from(d: Seq<u8>, pos: int, stem: Option<Seq<char>>) -> Result<
    (ImageMeta, Option<Seq<char>>),
    MetaError,
> {
    let h = read_bytes(d, pos, 16);
    if h.len() < 8 {
        Ok((ImageMeta { title: Some(pretty_title(stem)), ..empty_image() }, None))
    } else {
        let padded = h + Seq::new((16 - h.len()) as nat, |i: int| 0u8);
        match formats::image_detect(padded, d) {
            Err(e) => Err(e),
            Ok((m, b)) => Ok((titled(m, stem), b)),
        }
    }
}

} // verus!

verus! {

/// An image that reads without error always has a title: the format's own,
/// or one made of the file name.
pub proof fn lemma_images_are_titled(d: Seq<u8>, pos: int, stem: Option<Seq<char>>)
    ensures
        image_from(d, pos, stem) matches Ok((m, _)) ==> m.title is Some,
{
}

} // verus!

verus! {

/// Whether a character may stand inside a word of a title made of an ASCII
/// file name: ASCII, not whitespace, not `_` or `-`.
pub open spec fn word_char(c: char) -> bool {
    (c as u32) < 128 && !is_whitespace(c) && c != '_' && c != '-'
}

/// Whether every character of `s` may stand inside a word.
pub open spec fn word_chars(s: Seq<char>) -> bool {
    forall|k: int| 0 <= k < s.len() ==> word_char(#[trigger] s[k])
}

/// Whether `s` has no `_` or `-`, and its only whitespace is single spaces
/// between other characters.
pub open spec fn tidy(s: Seq<char>) -> bool {
    &&& forall|i: int| 0 <= i < s.len() ==> #[trigger] s[i] != '_' && s[i] != '-'
    &&& forall|i: int|
        0 <= i < s.len() && is_whitespace(#[trigger] s[i]) ==> s[i] == ' ' && 0 < i && i + 1
            < s.len() && !is_whitespace(s[i + 1])
}

proof fn lemma_words_are_plain(s: Seq<char>, i: int, cur: Seq<char>)
    requires
        0 <= i,
        forall|k: int| 0 <= k < s.len() ==> (#[trigger] s[k] as u32) < 128 && s[k] != '_' && s[k]
            != '-',
        word_chars(cur),
    ensures
        forall|j: int|
            0 <= j < words_from(s, i, cur).len() ==> (#[trigger] words_from(s, i, cur)[j]).len() > 0
                && word_chars(words_from(s, i, cur)[j]),
    decreases s.len() - i,
{
    if i >= s.len() {
        assert(words_from(s, i, cur) == word_piece(cur));
        if cur.len() > 0 {
            assert(word_piece(cur)[0] == cur);
        }
    } else {
        if is_whitespace(s[i]) {
            lemma_words_are_plain(s, i + 1, seq![]);
            let a = word_piece(cur);
            let b = words_from(s, i + 1, seq![]);
            assert(words_from(s, i, cur) == a + b);
            if cur.len() > 0 {
                assert(a[0] == cur);
            }
            assert forall|j: int| 0 <= j < (a + b).len() implies (#[trigger] (a + b)[j]).len() > 0
                && word_chars((a + b)[j]) by {
                if j >= a.len() {
                    assert((a + b)[j] == b[j - a.len()]);
                }
            }
        } else {
            let next = cur.push(s[i]);
            assert(word_chars(next)) by {
                assert forall|k: int| 0 <= k < next.len() implies word_char(#[trigger] next[k]) by {
                    if k < cur.len() {
                        assert(next[k] == cur[k]);
                    }
                }
            }
            lemma_words_are_plain(s, i + 1, next);
            assert(words_from(s, i, cur) == words_from(s, i + 1, next));
        }
    }
}

proof fn lemma_capitalized_plain(w: Seq<char>)
    requires
        w.len() > 0,
        word_chars(w),
    ensures
        capitalized(w).len() > 0,
        forall|k: int| 0 <= k < capitalized(w).len() ==> !is_whitespace(#[trigger] capitalized(w)[k])
            && capitalized(w)[k] != '_' && capitalized(w)[k] != '-',
{
    assert(word_char(w[0]));
    let c = capitalized(w);
    assert(c =~= seq![upper_ascii(w[0])] + w.drop_first());
    assert forall|k: int| 0 <= k < c.len() implies !is_whitespace(#[trigger] c[k]) && c[k] != '_'
        && c[k] != '-' by {
        if k > 0 {
            assert(c[k] == w[k]);
            assert(word_char(w[k]));
        }
    }
}

proof fn lemma_join_tidy(ws: Seq<Seq<char>>)
    requires
        forall|j: int|
            0 <= j < ws.len() ==> (#[trigger] ws[j]).len() > 0 && (forall|k: int|
                0 <= k < ws[j].len() ==> !is_whitespace(#[trigger] ws[j][k]) && ws[j][k] != '_'
                    && ws[j][k] != '-'),
    ensures
        tidy(join_words(ws)),
        ws.len() > 0 ==> join_words(ws).len() > 0,
    decreases ws.len(),
{
    if ws.len() == 1 {
        assert(ws[0].len() > 0);
    } else if ws.len() > 1 {
        let init = ws.drop_last();
        assert forall|j: int| 0 <= j < init.len() implies (#[trigger] init[j]).len() > 0 && (forall|
            k: int,
        |
            0 <= k < init[j].len() ==> !is_whitespace(#[trigger] init[j][k]) && init[j][k] != '_'
                && init[j][k] != '-') by {
            assert(init[j] == ws[j]);
        }
        lemma_join_tidy(init);
        let x = join_words(init);
        let y = ws.last();
        assert(y == ws[ws.len() - 1]);
        let s = x + seq![' '] + y;
        assert(join_words(ws) == s);
        assert forall|i: int| 0 <= i < s.len() implies #[trigger] s[i] != '_' && s[i] != '-' by {
            if i < x.len() {
                assert(s[i] == x[i]);
            } else if i > x.len() {
                assert(s[i] == y[i - x.len() - 1]);
            }
        }
        assert forall|i: int| 0 <= i < s.len() && is_whitespace(#[trigger] s[i]) implies s[i] == ' '
            && 0 < i && i + 1 < s.len() && !is_whitespace(s[i + 1]) by {
            if i < x.len() {
                assert(s[i] == x[i]);
                if i + 1 < x.len() {
                    assert(s[i + 1] == x[i + 1]);
                }
            } else if i == x.len() {
                assert(s[i + 1] == y[0]);
            } else {
                assert(s[i] == y[i - x.len() - 1]);
            }
        }
    }
}

/// A title made of an ASCII file name has no `_` or `-`, and its only
/// whitespace is single spaces between words.
pub proof fn lemma_ascii_title_tidy(stem: Seq<char>)
    requires
        forall|k: int| 0 <= k < stem.len() ==> (#[trigger] stem[k] as u32) < 128,
    ensures
        tidy(pretty_title(Some(stem))),
{
    let s = Seq::new(stem.len(), |i: int| spaced(stem[i]));
    assert forall|k: int| 0 <= k < s.len() implies (#[trigger] s[k] as u32) < 128 && s[k] != '_'
        && s[k] != '-' by {
        assert(s[k] == spaced(stem[k]));
    }
    lemma_words_are_plain(s, 0, seq![]);
    let ws = words_from(s, 0, seq![]);
    let f = |w: Seq<char>| capitalized(w);
    let caps = ws.map_values(f);
    assert forall|j: int| 0 <= j < caps.len() implies (#[trigger] caps[j]).len() > 0 && (forall|
        k: int,
    |
        0 <= k < caps[j].len() ==> !is_whitespace(#[trigger] caps[j][k]) && caps[j][k] != '_'
            && caps[j][k] != '-') by {
        assert(caps[j] == capitalized(ws[j]));
        lemma_capitalized_plain(ws[j]);
    }
    lemma_join_tidy(caps);
}

} // verus!
