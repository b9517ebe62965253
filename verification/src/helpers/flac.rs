//! Vorbis comments, as FLAC and Ogg Vorbis files carry them.
use vstd::prelude::*;
use vstd::utf8::*;

use crate::bytes::{le32, le32_at};
use crate::metadata::audio::{SongMeta, SongMetadata};
use crate::text::{
    chars_equal, chars_of, char_to_ascii_lowercase, copy_range, find_char, first_index,
    lemma_first_index_found, lower_ascii_seq, string_from_chars, string_from_utf8,
};

verus! {

pub open spec fn word_artist() -> Seq<char> {
    seq!['a', 'r', 't', 'i', 's', 't']
}

pub open spec fn word_title() -> Seq<char> {
    seq!['t', 'i', 't', 'l', 'e']
}

pub open spec fn word_album() -> Seq<char> {
    seq!['a', 'l', 'b', 'u', 'm']
}

pub open spec fn word_genre() -> Seq<char> {
    seq!['g', 'e', 'n', 'r', 'e']
}

/// One comment `KEY=value` applied to the metadata: a key that is `artist`,
/// `title`, `album` or `genre` in any ASCII case sets that field to the value;
/// any other comment, or one without `=`, changes nothing.
pub open spec fn apply_comment(meta: SongMeta, comment: Seq<char>) -> SongMeta {
    match first_index(comment, '=') {
        None => meta,
        Some(k) => {
            let key = lower_ascii_seq(comment.subrange(0, k));
            let value = comment.subrange(k + 1, comment.len() as int);
            if key == word_artist() {
                SongMeta { artist: Some(value), ..meta }
            } else if key == word_title() {
                SongMeta { title: Some(value), ..meta }
            } else if key == word_album() {
                SongMeta { album: Some(value), ..meta }
            } else if key == word_genre() {
                SongMeta { genre: Some(value), ..meta }
            } else {
                meta
            }
        },
    }
}

/// The comments from `idx` on, at most `count` of them: each is a 32-bit
/// little-endian length and that many bytes; the list ends early at a length
/// or a comment that does not fit in the data.  A comment that is not valid
/// UTF-8 is skipped.
pub open spec fn apply_comments(meta: SongMeta, data: Seq<u8>, idx: int, count: nat) -> SongMeta
    decreases count,
{
    if count == 0 || idx + 4 > data.len() {
        meta
    } else {
        let len = le32(data, idx);
        let start = idx + 4;
        if start + len > data.len() {
            meta
        } else {
            let bytes = data.subrange(start, start + len);
            let next = if valid_utf8(bytes) {
                apply_comment(meta, decode_utf8(bytes))
            } else {
                meta
            };
            apply_comments(next, data, start + len, (count - 1) as nat)
        }
    }
}

/// A Vorbis comment header: the vendor string (length-prefixed), the number
/// of comments, then the comments.
pub open spec fn vorbis_comments(meta: SongMeta, data: Seq<u8>) -> SongMeta {
    if data.len() < 8 {
        meta
    } else {
        let idx = 4 + le32(data, 0);
        if idx + 4 > data.len() {
            meta
        } else {
            apply_comments(meta, data, idx + 4, le32(data, idx) as nat)
        }
    }
}

fn set_comment(meta: &mut SongMetadata, comment: &[char])
    ensures
        final(meta)@ == apply_comment(old(meta)@, comment@),
{
    let eq = find_char(comment, '=');
    match eq {
        None => {},
        Some(k) => {
            let mut key: Vec<char> = Vec::new();
            let mut i: usize = 0;
            while i < k
                invariant
                    k < comment.len(),
                    i <= k,
                    key@ == lower_ascii_seq(comment@.subrange(0, i as int)),
                decreases k - i,
            {
                key.push(char_to_ascii_lowercase(comment[i]));
                i += 1;
                assert(key@ =~= lower_ascii_seq(comment@.subrange(0, i as int)));
            }
            let value_chars = copy_range(comment, k + 1, comment.len());
            let artist = ['a', 'r', 't', 'i', 's', 't'];
            let title = ['t', 'i', 't', 'l', 'e'];
            let album = ['a', 'l', 'b', 'u', 'm'];
            let genre = ['g', 'e', 'n', 'r', 'e'];
            assert(artist@ =~= word_artist());
            assert(title@ =~= word_title());
            assert(album@ =~= word_album());
            assert(genre@ =~= word_genre());
            if chars_equal(&key, &artist) {
                meta.artist = Some(string_from_chars(&value_chars));
            } else if chars_equal(&key, &title) {
                meta.title = Some(string_from_chars(&value_chars));
            } else if chars_equal(&key, &album) {
                meta.album = Some(string_from_chars(&value_chars));
            } else if chars_equal(&key, &genre) {
                meta.genre = Some(string_from_chars(&value_chars));
            }
        },
    }
}

/// Reads a Vorbis comment header into `meta`: the fields named by its
/// comments are set, the others stay as they were.
pub fn parse_vorbis_comments(meta: &mut SongMetadata, data: &[u8])
    ensures
        final(meta)@ == vorbis_comments(old(meta)@, data@),
{
    if data.len() < 8 {
        return ;
    }
    let vendor_len = le32_at(data, 0) as u64;
    let mut idx: u64 = 4 + vendor_len;
    if idx + 4 > data.len() as u64 {
        return ;
    }
    let count = le32_at(data, idx as usize) as u64;
    idx += 4;
    let mut n: u64 = 0;
    while n < count
        invariant
            n <= count,
            idx <= data.len(),
            vorbis_comments(old(meta)@, data@) == apply_comments(
                meta@,
                data@,
                idx as int,
                (count - n) as nat,
            ),
        decreases count - n,
    {
        if data.len() as u64 - idx < 4 {
            return ;
        }
        let len = le32_at(data, idx as usize) as u64;
        idx += 4;
        if data.len() as u64 - idx < len {
            return ;
        }
        let bytes = copy_range(data, idx as usize, (idx + len) as usize);
        if let Some(s) = string_from_utf8(&bytes) {
            let chars = chars_of(s.as_str());
            set_comment(meta, &chars);
        }
        idx += len;
        n += 1;
    }
}

} // verus!

verus! {

/// A comment `key=value`, whose key holds no `=`, sets the field its key
/// names (in any ASCII case) to the whole value and nothing else: `artist`
/// the artist, `title` the title, `album` the album, `genre` the genre; any
/// other key changes nothing.
pub proof fn lemma_comment_fields(meta: SongMeta, key: Seq<char>, value: Seq<char>)
    requires
        forall|i: int| 0 <= i < key.len() ==> key[i] != '=',
    ensures
        lower_ascii_seq(key) == word_artist() ==> apply_comment(meta, key + seq!['='] + value)
            == (SongMeta {
            title: meta.title,
            artist: Some(value),
            album: meta.album,
            genre: meta.genre,
            duration_ms: meta.duration_ms,
        }),
        lower_ascii_seq(key) == word_title() ==> apply_comment(meta, key + seq!['='] + value)
            == (SongMeta {
            title: Some(value),
            artist: meta.artist,
            album: meta.album,
            genre: meta.genre,
            duration_ms: meta.duration_ms,
        }),
        lower_ascii_seq(key) == word_album() ==> apply_comment(meta, key + seq!['='] + value)
            == (SongMeta {
            title: meta.title,
            artist: meta.artist,
            album: Some(value),
            genre: meta.genre,
            duration_ms: meta.duration_ms,
        }),
        lower_ascii_seq(key) == word_genre() ==> apply_comment(meta, key + seq!['='] + value)
            == (SongMeta {
            title: meta.title,
            artist: meta.artist,
            album: meta.album,
            genre: Some(value),
            duration_ms: meta.duration_ms,
        }),
        lower_ascii_seq(key) != word_artist() && lower_ascii_seq(key) != word_title()
            && lower_ascii_seq(key) != word_album() && lower_ascii_seq(key) != word_genre()
            ==> apply_comment(meta, key + seq!['='] + value) == meta,
{
    let c = key + seq!['='] + value;
    let k = key.len() as int;
    assert forall|i: int| 0 <= i < k implies c[i] != '=' by {
        assert(c[i] == key[i]);
    }
    assert(c[k] == '=');
    lemma_first_index_found(c, '=', k);
    assert(c.subrange(0, k) =~= key);
    assert(c.subrange(k + 1, c.len() as int) =~= value);
    assert(word_artist().len() == 6);
    assert(word_title() != word_album() && word_title() != word_genre()) by {
        assert(word_title()[0] != word_album()[0]);
        assert(word_title()[0] != word_genre()[0]);
    }
    assert(word_album() != word_genre()) by {
        assert(word_album()[0] != word_genre()[0]);
    }
}

} // verus!
