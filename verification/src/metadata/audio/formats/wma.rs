//! Tags of a WMA (ASF) file.
use vstd::prelude::*;

use crate::bytes::{has_tag, le16, le16_at, le64, tag_at};
use crate::error::MetaError;
use crate::helpers::wma::{read_le, read_u16_le, read_u32_le, read_u64_le, read_u8};
use crate::metadata::audio::formats::flac::song_result;
use crate::metadata::audio::{empty_song, SongMeta, SongMetadata};
use crate::reader::{
    can_read_exact, exact_bytes, pos_after_exact, valid_target, FileReader, MAX_POS,
};
use crate::text::{char_from_u32, chars_equal, chars_of, is_scalar_value, string_from_chars};
use crate::walk::{lemma_walk_never_ends, runs};

verus! {

/// The ASF header object GUID.
pub open spec fn guid_header() -> Seq<u8> {
    seq![0x30u8, 0x26, 0xb2, 0x75, 0x8e, 0x66, 0xcf, 0x11, 0xa6, 0xd9, 0x00, 0xaa, 0x00, 0x62, 0xce, 0x6c]
}

/// The ASF content description object GUID.
pub open spec fn guid_content() -> Seq<u8> {
    seq![0x33u8, 0x26, 0xb2, 0x75, 0x8e, 0x66, 0xcf, 0x11, 0xa6, 0xd9, 0x00, 0xaa, 0x00, 0x62, 0xce, 0x6c]
}

/// The ASF extended content description object GUID.
pub open spec fn guid_ext_content() -> Seq<u8> {
    seq![0x40u8, 0xa4, 0xd0, 0xd2, 0x07, 0xe3, 0xd2, 0x11, 0x97, 0xf0, 0x00, 0xa0, 0xc9, 0x5e, 0xa8, 0x50]
}

/// `WM/AlbumTitle`
pub open spec fn name_album() -> Seq<char> {
    seq!['W', 'M', '/', 'A', 'l', 'b', 'u', 'm', 'T', 'i', 't', 'l', 'e']
}

/// `WM/Genre`
pub open spec fn name_genre() -> Seq<char> {
    seq!['W', 'M', '/', 'G', 'e', 'n', 'r', 'e']
}

/// The characters of the first `k` little-endian 16-bit units of `b`: a
/// unit that is 0 or a surrogate is dropped, every other unit is the
/// character of that value.
pub open spec fn utf16le_prefix(b: Seq<u8>, k: int) -> Seq<char>
    decreases k,
{
    if k <= 0 {
        Seq::empty()
    } else {
        let prev = utf16le_prefix(b, k - 1);
        let c = le16(b, 2 * (k - 1));
        if c == 0 || !is_scalar_value(c as u32) {
            prev
        } else {
            prev.push((c as u32) as char)
        }
    }
}

/// The text of the UTF-16LE bytes `b`, an odd last byte ignored.
pub open spec fn utf16le_text(b: Seq<u8>) -> Seq<char> {
    utf16le_prefix(b, (b.len() / 2) as int)
}

/// Reading `n` bytes of UTF-16LE text at `pos`.
pub open spec fn read_utf16(d: Seq<u8>, pos: int, n: int) -> (Result<Seq<char>, MetaError>, int) {
    let len = d.len() as int;
    if !can_read_exact(len, pos, n) {
        (Err(MetaError::UnexpectedEof), pos_after_exact(len, pos, n))
    } else {
        (Ok(utf16le_text(exact_bytes(d, pos, n))), pos + n)
    }
}

/// The text read at `pos` as an optional field: none when the read fails.
pub open spec fn opt_text(r: Result<Seq<char>, MetaError>) -> Option<Seq<char>> {
    match r {
        Ok(s) => Some(s),
        Err(_) => None,
    }
}

/// A content description object whose fields start at `pos`: five 16-bit
/// lengths (title, author, copyright, description, rating), then the title
/// and author texts when their lengths are not 0, then the other three
/// texts skipped.
pub open spec fn content_desc(d: Seq<u8>, pos: int, meta: SongMeta) -> (
    Result<SongMeta, MetaError>,
    int,
) {
    let len = d.len() as int;
    if !can_read_exact(len, pos, 10) {
        (Err(MetaError::UnexpectedEof), pos_after_exact(len, pos, 10))
    } else {
        let tl = le16(d, pos);
        let al = le16(d, pos + 2);
        let skip = le16(d, pos + 4) + le16(d, pos + 6) + le16(d, pos + 8);
        let p = pos + 10;
        let (title, q) = if tl > 0 {
            let (r, q) = read_utf16(d, p, tl);
            (opt_text(r), q)
        } else {
            (meta.title, p)
        };
        let (artist, s) = if al > 0 {
            let (r, s) = read_utf16(d, q, al);
            (opt_text(r), s)
        } else {
            (meta.artist, q)
        };
        if !valid_target(s + skip) {
            (Err(MetaError::InvalidSeek), s)
        } else {
            (Ok(SongMeta { title, artist, ..meta }), s + skip)
        }
    }
}

/// `count` extended content descriptors from `pos`: each a 16-bit name
/// length, the name, a 16-bit value length and the value.  `WM/AlbumTitle`
/// sets the album and `WM/Genre` the genre; a value that cannot be read is
/// skipped by its length.
pub open spec fn ext_descs(d: Seq<u8>, pos: int, count: nat, meta: SongMeta) -> (
    Result<SongMeta, MetaError>,
    int,
)
    decreases count,
{
    let len = d.len() as int;
    if count == 0 {
        (Ok(meta), pos)
    } else if !can_read_exact(len, pos, 2) {
        (Err(MetaError::UnexpectedEof), pos_after_exact(len, pos, 2))
    } else {
        let nl = le16(d, pos);
        let (name, p) = read_utf16(d, pos + 2, nl);
        match name {
            Err(e) => (Err(e), p),
            Ok(name) => if !can_read_exact(len, p, 2) {
                (Err(MetaError::UnexpectedEof), pos_after_exact(len, p, 2))
            } else {
                let vl = le16(d, p);
                let (value, q) = read_utf16(d, p + 2, vl);
                match value {
                    Ok(v) => {
                        let next = if name == name_album() {
                            SongMeta { album: Some(v), ..meta }
                        } else if name == name_genre() {
                            SongMeta { genre: Some(v), ..meta }
                        } else {
                            meta
                        };
                        ext_descs(d, q, (count - 1) as nat, next)
                    },
                    Err(_) => if !valid_target(q + vl) {
                        (Err(MetaError::InvalidSeek), q)
                    } else {
                        ext_descs(d, q + vl, (count - 1) as nat, meta)
                    },
                }
            },
        }
    }
}

/// A 64-bit value read as a signed one.
pub open spec fn as_i64(v: int) -> int {
    (v as u64) as i64 as int
}

/// Walking the objects from `pos` for at most `fuel` of them: each is a
/// 16-byte GUID and a 64-bit size.  Content descriptions are read, and
/// reading goes on where they end; other objects are skipped by their size.
/// The walk ends at a GUID that cannot be read.  `None` when `fuel` objects
/// are not enough for the walk to end.
pub open spec fn wma_objects(d: Seq<u8>, pos: int, meta: SongMeta, fuel: nat) -> Option<
    (Result<SongMeta, MetaError>, int),
>
    decreases fuel,
{
    let len = d.len() as int;
    if !can_read_exact(len, pos, 16) {
        Some((Ok(meta), pos_after_exact(len, pos, 16)))
    } else if fuel == 0 {
        None
    } else {
        let p = pos + 16;
        if !can_read_exact(len, p, 8) {
            Some((Err(MetaError::UnexpectedEof), pos_after_exact(len, p, 8)))
        } else {
            let q = p + 8;
            let obj_size = as_i64(le64(d, p));
            if tag_at(d, pos, guid_content()) {
                let (r, s) = content_desc(d, q, meta);
                match r {
                    Err(e) => Some((Err(e), s)),
                    Ok(m) => wma_objects(d, s, m, (fuel - 1) as nat),
                }
            } else if tag_at(d, pos, guid_ext_content()) {
                if !can_read_exact(len, q, 2) {
                    Some((Err(MetaError::UnexpectedEof), pos_after_exact(len, q, 2)))
                } else {
                    let (r, s) = ext_descs(d, q + 2, le16(d, q) as nat, meta);
                    match r {
                        Err(e) => Some((Err(e), s)),
                        Ok(m) => wma_objects(d, s, m, (fuel - 1) as nat),
                    }
                }
            } else if obj_size - 24 < i64::MIN {
                Some((Err(MetaError::Overflow), q))
            } else if !valid_target(q + obj_size - 24) {
                Some((Err(MetaError::InvalidSeek), q))
            } else {
                wma_objects(d, q + obj_size - 24, meta, (fuel - 1) as nat)
            }
        }
    }
}

/// The tags of a WMA file whose header object starts at `pos`: the header
/// GUID, its size, object count and two reserved bytes, then the objects,
/// walked for at most one more object than the file has bytes.
pub open spec fn wma_tags(d: Seq<u8>, pos: int) -> Option<(Result<SongMeta, MetaError>, int)> {
    let len = d.len() as int;
    if !can_read_exact(len, pos, 16) {
        Some((Err(MetaError::UnexpectedEof), pos_after_exact(len, pos, 16)))
    } else if !tag_at(d, pos, guid_header()) {
        Some((Err(MetaError::NotAsf), pos + 16))
    } else if !can_read_exact(len, pos + 16, 14) {
        Some((Err(MetaError::UnexpectedEof), pos_after_exact(len, pos + 16, 14)))
    } else {
        wma_objects(d, pos + 30, empty_song(), (len + 1) as nat)
    }
}

/// Reads `len` bytes as UTF-16LE text.
fn read_utf16le_string(f: &mut FileReader, len: u16) -> (r: Result<String, MetaError>)
    ensures
        final(f)@.0 == old(f)@.0,
        (match r {
            Ok(s) => Ok(s@),
            Err(e) => Err(e),
        }, final(f)@.1) == read_utf16(old(f)@.0, old(f)@.1, len as int),
{
    let buf = f.read_exact(len as usize)?;
    let n = buf.len() / 2;
    let mut out: Vec<char> = Vec::new();
    let mut k: usize = 0;
    while k < n
        invariant
            n == buf.len() / 2,
            k <= n,
            out@ == utf16le_prefix(buf@, k as int),
        decreases n - k,
    {
        let c = le16_at(&buf, 2 * k);
        if c != 0 {
            if let Some(ch) = char_from_u32(c as u32) {
                out.push(ch);
            }
        }
        k += 1;
    }
    Ok(string_from_chars(&out))
}

proof fn lemma_ext_descs_advance(d: Seq<u8>, pos: int, count: nat, meta: SongMeta)
    ensures
        ext_descs(d, pos, count, meta).1 >= pos,
        ext_descs(d, pos, count, meta).0 != Err::<SongMeta, MetaError>(MetaError::Endless),
    decreases count,
{
    let len = d.len() as int;
    if count > 0 && can_read_exact(len, pos, 2) {
        let nl = le16(d, pos);
        let (name, p) = read_utf16(d, pos + 2, nl);
        if let Ok(name) = name {
            if can_read_exact(len, p, 2) {
                let vl = le16(d, p);
                let (value, q) = read_utf16(d, p + 2, vl);
                match value {
                    Ok(v) => {
                        let next = if name == name_album() {
                            SongMeta { album: Some(v), ..meta }
                        } else if name == name_genre() {
                            SongMeta { genre: Some(v), ..meta }
                        } else {
                            meta
                        };
                        lemma_ext_descs_advance(d, q, (count - 1) as nat, next);
                    },
                    Err(_) => {
                        if valid_target(q + vl) {
                            lemma_ext_descs_advance(d, q + vl, (count - 1) as nat, meta);
                        }
                    },
                }
            }
        }
    }
}

fn read_ext_descs(f: &mut FileReader, meta: &mut SongMetadata, count: u16) -> (r: Result<
    (),
    MetaError,
>)
    ensures
        final(f)@.0 == old(f)@.0,
        (match r {
            Ok(_) => Ok(final(meta)@),
            Err(e) => Err(e),
        }, final(f)@.1) == ext_descs(old(f)@.0, old(f)@.1, count as nat, old(meta)@),
{
    let album: [char; 13] = ['W', 'M', '/', 'A', 'l', 'b', 'u', 'm', 'T', 'i', 't', 'l', 'e'];
    let genre: [char; 8] = ['W', 'M', '/', 'G', 'e', 'n', 'r', 'e'];
    assert(album@ =~= name_album());
    assert(genre@ =~= name_genre());
    let mut n: u16 = 0;
    while n < count
        invariant
            n <= count,
            f@.0 == old(f)@.0,
            album@ == name_album(),
            genre@ == name_genre(),
            ext_descs(old(f)@.0, old(f)@.1, count as nat, old(meta)@) == ext_descs(
                f@.0,
                f@.1,
                (count - n) as nat,
                meta@,
            ),
        decreases count - n,
    {
        let name_len = read_u16_le(f)?;
        let name = read_utf16le_string(f, name_len)?;
        let data_len = read_u16_le(f)?;
        match read_utf16le_string(f, data_len) {
            Ok(value) => {
                let name_chars = chars_of(name.as_str());
                if chars_equal(&name_chars, &album) {
                    meta.album = Some(value);
                } else if chars_equal(&name_chars, &genre) {
                    meta.genre = Some(value);
                }
            },
            Err(_) => {
                f.seek_current(data_len as i64)?;
            },
        }
        n += 1;
    }
    Ok(())
}

fn read_content_desc(f: &mut FileReader, meta: &mut SongMetadata) -> (r: Result<(), MetaError>)
    ensures
        final(f)@.0 == old(f)@.0,
        (match r {
            Ok(_) => Ok(final(meta)@),
            Err(e) => Err(e),
        }, final(f)@.1) == content_desc(old(f)@.0, old(f)@.1, old(meta)@),
{
    let title_len = read_u16_le(f)?;
    let author_len = read_u16_le(f)?;
    let copyright_len = read_u16_le(f)?;
    let desc_len = read_u16_le(f)?;
    let rating_len = read_u16_le(f)?;
    if title_len > 0 {
        meta.title = read_utf16le_string(f, title_len).ok();
    } else {
        f.seek_current(0)?;
    }
    if author_len > 0 {
        meta.artist = read_utf16le_string(f, author_len).ok();
    } else {
        f.seek_current(0)?;
    }
    f.seek_current(copyright_len as i64 + desc_len as i64 + rating_len as i64)?;
    Ok(())
}

/// Reads the tags of a WMA file from its header object at the current
/// position.  `Err(MetaError::Endless)` when the walk over the objects
/// would never end.
#[verifier::rlimit(50)]
pub fn parse(f: &mut FileReader) -> (r: Result<SongMetadata, MetaError>)
    ensures
        final(f)@.0 == old(f)@.0,
        wma_tags(old(f)@.0, old(f)@.1) is None <==> r == Err::<SongMetadata, MetaError>(
            MetaError::Endless,
        ),
        wma_tags(old(f)@.0, old(f)@.1) matches Some((res, pos)) ==> song_result(r) == res
            && final(f)@.1 == pos,
{
    let header: [u8; 16] = [
        0x30,
        0x26,
        0xb2,
        0x75,
        0x8e,
        0x66,
        0xcf,
        0x11,
        0xa6,
        0xd9,
        0x00,
        0xaa,
        0x00,
        0x62,
        0xce,
        0x6c,
    ];
    let content: [u8; 16] = [
        0x33,
        0x26,
        0xb2,
        0x75,
        0x8e,
        0x66,
        0xcf,
        0x11,
        0xa6,
        0xd9,
        0x00,
        0xaa,
        0x00,
        0x62,
        0xce,
        0x6c,
    ];
    let ext_content: [u8; 16] = [
        0x40,
        0xa4,
        0xd0,
        0xd2,
        0x07,
        0xe3,
        0xd2,
        0x11,
        0x97,
        0xf0,
        0x00,
        0xa0,
        0xc9,
        0x5e,
        0xa8,
        0x50,
    ];
    assert(header@ =~= guid_header());
    assert(content@ =~= guid_content());
    assert(ext_content@ =~= guid_ext_content());
    let ghost d = f@.0;
    let guid = f.read_exact(16)?;
    if !has_tag(&guid, 0, &header) {
        assert(!tag_at(d, old(f)@.1, guid_header())) by {
            if tag_at(d, old(f)@.1, guid_header()) {
                assert(guid@.subrange(0, 16) =~= guid@);
            }
        }
        return Err(MetaError::NotAsf);
    }
    assert(tag_at(d, old(f)@.1, guid_header())) by {
        assert(guid@.subrange(0, 16) =~= guid@);
    }
    let _size = read_u64_le(f)?;
    let _objs = read_u32_le(f)?;
    let _reserved = read_u8(f)?;
    let _reserved2 = read_u8(f)?;
    let mut meta = SongMetadata::default();
    let budget: u64 = f.len() + 1;
    let mut steps: u64 = 0;
    loop
        invariant
            f@.0 == d,
            d == old(f)@.0,
            budget == d.len() + 1,
            steps <= budget,
            content@ == guid_content(),
            ext_content@ == guid_ext_content(),
            wma_tags(d, old(f)@.1) == wma_objects(d, f@.1, meta@, (budget - steps) as nat),
        decreases budget - steps,
    {
        let ghost pos = f@.1;
        let guid = match f.read_exact(16) {
            Ok(g) => g,
            Err(_) => {
                return Ok(meta);
            },
        };
        if steps == budget {
            return Err(MetaError::Endless);
        }
        steps += 1;
        let obj_size = #[verifier::truncate] (read_u64_le(f)? as i64);
        assert(obj_size == as_i64(le64(d, pos + 16)));
        if has_tag(&guid, 0, &content) {
            assert(tag_at(d, pos, guid_content())) by {
                assert(guid@.subrange(0, 16) =~= guid@);
            }
            read_content_desc(f, &mut meta)?;
        } else if has_tag(&guid, 0, &ext_content) {
            assert(!tag_at(d, pos, guid_content())) by {
                if tag_at(d, pos, guid_content()) {
                    assert(guid@.subrange(0, 16) =~= guid@);
                }
            }
            assert(tag_at(d, pos, guid_ext_content())) by {
                assert(guid@.subrange(0, 16) =~= guid@);
            }
            let desc_count = read_u16_le(f)?;
            let ghost q = f@.1;
            let ghost m0 = meta@;
            proof {
                lemma_ext_descs_advance(d, q, desc_count as nat, m0);
            }
            read_ext_descs(f, &mut meta, desc_count)?;
        } else {
            assert(!tag_at(d, pos, guid_content()) && !tag_at(d, pos, guid_ext_content())) by {
                if tag_at(d, pos, guid_content()) || tag_at(d, pos, guid_ext_content()) {
                    assert(guid@.subrange(0, 16) =~= guid@);
                }
            }
            if obj_size < i64::MIN + 24 {
                return Err(MetaError::Overflow);
            }
            f.seek_current(obj_size - 24)?;
        }
    }
}

} // verus!

verus! {

/// Whether two outcomes both succeed, or fail with the same error.
pub open spec fn same_outcome(a: Result<SongMeta, MetaError>, b: Result<SongMeta, MetaError>) -> bool {
    match (a, b) {
        (Ok(_), Ok(_)) => true,
        (Err(x), Err(y)) => x == y,
        _ => false,
    }
}

proof fn lemma_ext_descs_meta(d: Seq<u8>, pos: int, count: nat, m1: SongMeta, m2: SongMeta)
    ensures
        ext_descs(d, pos, count, m1).1 == ext_descs(d, pos, count, m2).1,
        same_outcome(ext_descs(d, pos, count, m1).0, ext_descs(d, pos, count, m2).0),
    decreases count,
{
    let len = d.len() as int;
    if count > 0 && can_read_exact(len, pos, 2) {
        let nl = le16(d, pos);
        let (name, p) = read_utf16(d, pos + 2, nl);
        if let Ok(name) = name {
            if can_read_exact(len, p, 2) {
                let vl = le16(d, p);
                let (value, q) = read_utf16(d, p + 2, vl);
                match value {
                    Ok(v) => {
                        let n1 = if name == name_album() {
                            SongMeta { album: Some(v), ..m1 }
                        } else if name == name_genre() {
                            SongMeta { genre: Some(v), ..m1 }
                        } else {
                            m1
                        };
                        let n2 = if name == name_album() {
                            SongMeta { album: Some(v), ..m2 }
                        } else if name == name_genre() {
                            SongMeta { genre: Some(v), ..m2 }
                        } else {
                            m2
                        };
                        lemma_ext_descs_meta(d, q, (count - 1) as nat, n1, n2);
                    },
                    Err(_) => {
                        if valid_target(q + vl) {
                            lemma_ext_descs_meta(d, q + vl, (count - 1) as nat, m1, m2);
                        }
                    },
                }
            }
        }
    }
}

/// Where a step of the walk over the objects from `pos` leads: past a
/// content description, past the extended descriptors, or past an object
/// skipped by its size, when the step succeeds.
pub open spec fn object_step(d: Seq<u8>, pos: int) -> Option<int> {
    let len = d.len() as int;
    let q = pos + 24;
    let obj_size = as_i64(le64(d, pos + 16));
    if !(0 <= pos && can_read_exact(len, pos, 16) && can_read_exact(len, pos + 16, 8)) {
        None
    } else if tag_at(d, pos, guid_content()) {
        let (r, s) = content_desc(d, q, empty_song());
        if r is Ok {
            Some(s)
        } else {
            None
        }
    } else if tag_at(d, pos, guid_ext_content()) {
        if !can_read_exact(len, q, 2) {
            None
        } else {
            let (r, s) = ext_descs(d, q + 2, le16(d, q) as nat, empty_song());
            if r is Ok {
                Some(s)
            } else {
                None
            }
        }
    } else if obj_size - 24 < i64::MIN || !valid_target(q + obj_size - 24) {
        None
    } else {
        Some(q + obj_size - 24)
    }
}

/// Whether the walk over the objects can read an object's GUID at `pos`.
pub open spec fn object_live(d: Seq<u8>, pos: int) -> bool {
    0 <= pos && pos + 16 <= d.len()
}

proof fn lemma_objects_runs(d: Seq<u8>, pos: int, meta: SongMeta, fuel: nat)
    requires
        0 <= pos,
    ensures
        wma_objects(d, pos, meta, fuel) is None <==> runs(
            |x: int| object_step(d, x),
            |x: int| object_live(d, x),
            pos,
            fuel,
        ),
    decreases fuel,
{
    let len = d.len() as int;
    if fuel > 0 && can_read_exact(len, pos, 16) && can_read_exact(len, pos + 16, 8) {
        let q = pos + 24;
        let obj_size = as_i64(le64(d, pos + 16));
        if tag_at(d, pos, guid_content()) {
            let (r, s) = content_desc(d, q, meta);
            if let Ok(m) = r {
                lemma_objects_runs(d, s, m, (fuel - 1) as nat);
            }
        } else if tag_at(d, pos, guid_ext_content()) {
            if can_read_exact(len, q, 2) {
                let count = le16(d, q) as nat;
                lemma_ext_descs_meta(d, q + 2, count, meta, empty_song());
                lemma_ext_descs_advance(d, q + 2, count, meta);
                let (r, s) = ext_descs(d, q + 2, count, meta);
                if let Ok(m) = r {
                    lemma_objects_runs(d, s, m, (fuel - 1) as nat);
                }
            }
        } else if obj_size - 24 >= i64::MIN && valid_target(q + obj_size - 24) {
            lemma_objects_runs(d, q + obj_size - 24, meta, (fuel - 1) as nat);
        }
    }
}

proof fn lemma_objects_more_fuel(d: Seq<u8>, pos: int, meta: SongMeta, f: nat, g: nat)
    requires
        wma_objects(d, pos, meta, f) is Some,
        f <= g,
    ensures
        wma_objects(d, pos, meta, g) == wma_objects(d, pos, meta, f),
    decreases f,
{
    let len = d.len() as int;
    if f > 0 && can_read_exact(len, pos, 16) && can_read_exact(len, pos + 16, 8) {
        let q = pos + 24;
        let obj_size = as_i64(le64(d, pos + 16));
        if tag_at(d, pos, guid_content()) {
            let (r, s) = content_desc(d, q, meta);
            if let Ok(m) = r {
                lemma_objects_more_fuel(d, s, m, (f - 1) as nat, (g - 1) as nat);
            }
        } else if tag_at(d, pos, guid_ext_content()) {
            if can_read_exact(len, q, 2) {
                let (r, s) = ext_descs(d, q + 2, le16(d, q) as nat, meta);
                if let Ok(m) = r {
                    lemma_objects_more_fuel(d, s, m, (f - 1) as nat, (g - 1) as nat);
                }
            }
        } else if obj_size - 24 >= i64::MIN && valid_target(q + obj_size - 24) {
            lemma_objects_more_fuel(d, q + obj_size - 24, meta, (f - 1) as nat, (g - 1) as nat);
        }
    }
}

/// The walk over the objects of a WMA file for its tags ends within one
/// more object than the file has bytes, or never: allowed any number of
/// objects, it ends with the outcome it has after that many, or, when it
/// had not ended by then, goes on for ever.
pub proof fn lemma_wma_objects_walk(d: Seq<u8>, pos: int, meta: SongMeta, fuel: nat)
    requires
        0 <= pos,
    ensures
        wma_objects(d, pos, meta, (d.len() + 1) as nat) is None ==> wma_objects(d, pos, meta, fuel)
            is None,
        wma_objects(d, pos, meta, (d.len() + 1) as nat) is Some && fuel >= d.len() + 1
            ==> wma_objects(d, pos, meta, fuel) == wma_objects(d, pos, meta, (d.len() + 1) as nat),
{
    let next = |x: int| object_step(d, x);
    let live = |x: int| object_live(d, x);
    let n = (d.len() + 1) as nat;
    if wma_objects(d, pos, meta, n) is None {
        lemma_objects_runs(d, pos, meta, n);
        lemma_walk_never_ends(next, live, 0, d.len() as int, pos, n, fuel);
        lemma_objects_runs(d, pos, meta, fuel);
    } else if fuel >= n {
        lemma_objects_more_fuel(d, pos, meta, n, fuel);
    }
}

} // verus!

verus! {

/// Whether one extended content descriptor stands in full at `pos`: a name
/// length, the name, a value length and the value.
pub open spec fn descriptor_at(d: Seq<u8>, pos: int) -> bool {
    let len = d.len() as int;
    let p = pos + 2 + le16(d, pos);
    &&& 0 <= pos
    &&& pos + 2 <= len
    &&& p + 2 <= len
    &&& p + 2 + le16(d, p) <= len
}

/// The name of the descriptor at `pos`, decoded from UTF-16LE.
pub open spec fn descriptor_name(d: Seq<u8>, pos: int) -> Seq<char> {
    utf16le_text(d.subrange(pos + 2, pos + 2 + le16(d, pos)))
}

/// The value of the descriptor at `pos`, decoded from UTF-16LE.
pub open spec fn descriptor_value(d: Seq<u8>, pos: int) -> Seq<char> {
    let p = pos + 2 + le16(d, pos);
    utf16le_text(d.subrange(p + 2, p + 2 + le16(d, p)))
}

/// Where the descriptor at `pos` ends.
pub open spec fn descriptor_end(d: Seq<u8>, pos: int) -> int {
    let p = pos + 2 + le16(d, pos);
    p + 2 + le16(d, p)
}

/// A lone descriptor named `WM/Genre` sets the genre to its value and
/// nothing else; one named `WM/AlbumTitle` sets the album and nothing else;
/// one of any other name changes nothing.
pub proof fn lemma_descriptor_fields(d: Seq<u8>, pos: int, meta: SongMeta)
    requires
        descriptor_at(d, pos),
    ensures
        descriptor_name(d, pos) == name_genre() ==> ext_descs(d, pos, 1, meta) == (
        Ok::<SongMeta, MetaError>(
            SongMeta {
                artist: meta.artist,
                title: meta.title,
                album: meta.album,
                genre: Some(descriptor_value(d, pos)),
                duration_ms: meta.duration_ms,
            },
        ),
        descriptor_end(d, pos)),
        descriptor_name(d, pos) == name_album() ==> ext_descs(d, pos, 1, meta) == (
        Ok::<SongMeta, MetaError>(
            SongMeta {
                artist: meta.artist,
                title: meta.title,
                album: Some(descriptor_value(d, pos)),
                genre: meta.genre,
                duration_ms: meta.duration_ms,
            },
        ),
        descriptor_end(d, pos)),
        descriptor_name(d, pos) != name_genre() && descriptor_name(d, pos) != name_album()
            ==> ext_descs(d, pos, 1, meta) == (Ok::<SongMeta, MetaError>(meta), descriptor_end(
            d,
            pos,
        )),
{
    let len = d.len() as int;
    let nl = le16(d, pos);
    let p = pos + 2 + nl;
    let vl = le16(d, p);
    assert(exact_bytes(d, pos + 2, nl) =~= d.subrange(pos + 2, pos + 2 + nl));
    assert(exact_bytes(d, p + 2, vl) =~= d.subrange(p + 2, p + 2 + vl));
    assert(name_genre().len() == 8);
    assert(name_album().len() == 13);
    assert(name_genre() != name_album());
    let (name, p1) = read_utf16(d, pos + 2, nl);
    assert(p1 == p);
    let (value, q) = read_utf16(d, p + 2, vl);
    assert(q == descriptor_end(d, pos));
    let next = if descriptor_name(d, pos) == name_album() {
        SongMeta { album: Some(descriptor_value(d, pos)), ..meta }
    } else if descriptor_name(d, pos) == name_genre() {
        SongMeta { genre: Some(descriptor_value(d, pos)), ..meta }
    } else {
        meta
    };
    assert(ext_descs(d, pos, 1, meta) == ext_descs(d, q, 0, next));
}

/// A content description with a title and an author sets the title and the
/// artist to their UTF-16LE texts, in that order, and nothing else.
pub proof fn lemma_content_desc_fields(d: Seq<u8>, pos: int, meta: SongMeta)
    requires
        d.len() <= MAX_POS,
        0 <= pos,
        pos + 10 <= d.len(),
        le16(d, pos) > 0,
        le16(d, pos + 2) > 0,
        pos + 10 + le16(d, pos) + le16(d, pos + 2) + le16(d, pos + 4) + le16(d, pos + 6) + le16(
            d,
            pos + 8,
        ) <= d.len(),
    ensures
        content_desc(d, pos, meta).0 == Ok::<SongMeta, MetaError>(
            SongMeta {
                title: Some(utf16le_text(d.subrange(pos + 10, pos + 10 + le16(d, pos)))),
                artist: Some(
                    utf16le_text(
                        d.subrange(
                            pos + 10 + le16(d, pos),
                            pos + 10 + le16(d, pos) + le16(d, pos + 2),
                        ),
                    ),
                ),
                album: meta.album,
                genre: meta.genre,
                duration_ms: meta.duration_ms,
            },
        ),
        content_desc(d, pos, meta).1 == pos + 10 + le16(d, pos) + le16(d, pos + 2) + le16(d, pos + 4)
            + le16(d, pos + 6) + le16(d, pos + 8),
{
    let tl = le16(d, pos);
    let al = le16(d, pos + 2);
    assert(exact_bytes(d, pos + 10, tl) =~= d.subrange(pos + 10, pos + 10 + tl));
    assert(exact_bytes(d, pos + 10 + tl, al) =~= d.subrange(pos + 10 + tl, pos + 10 + tl + al));
}

/// A WMA file made of its header object and one extended content
/// description that holds a lone descriptor and ends the file: a `WM/Genre`
/// descriptor gives the song that genre and no album, a `WM/AlbumTitle` one
/// gives that album and no genre, and neither gives a title or an artist.
pub proof fn lemma_wma_lone_descriptor(d: Seq<u8>, pos: int)
    requires
        0 <= pos,
        pos + 56 <= d.len(),
        tag_at(d, pos, guid_header()),
        tag_at(d, pos + 30, guid_ext_content()),
        le16(d, pos + 54) == 1,
        descriptor_at(d, pos + 56),
        descriptor_end(d, pos + 56) == d.len(),
    ensures
        descriptor_name(d, pos + 56) == name_genre() ==> (wma_tags(d, pos) matches Some((Ok(m), _))
            && m.genre == Some(descriptor_value(d, pos + 56)) && m.album is None && m.title is None
            && m.artist is None),
        descriptor_name(d, pos + 56) == name_album() ==> (wma_tags(d, pos) matches Some((Ok(m), _))
            && m.album == Some(descriptor_value(d, pos + 56)) && m.genre is None && m.title is None
            && m.artist is None),
{
    let len = d.len() as int;
    assert(d.subrange(pos + 30, pos + 46)[0] == d[pos + 30]);
    assert(guid_ext_content()[0] != guid_content()[0]);
    assert(!tag_at(d, pos + 30, guid_content()));
    lemma_descriptor_fields(d, pos + 56, empty_song());
    let (r, s) = ext_descs(d, pos + 56, 1, empty_song());
    assert(s == len);
    if let Ok(m) = r {
        assert(wma_objects(d, s, m, len as nat) == Some::<(Result<SongMeta, MetaError>, int)>(
            (Ok(m), pos_after_exact(len, s, 16)),
        ));
    }
    assert(wma_tags(d, pos) == wma_objects(d, pos + 30, empty_song(), (len + 1) as nat));
}

} // verus!
