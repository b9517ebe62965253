//! Tags and duration of a WAV file.
use vstd::prelude::*;

use crate::bytes::{has_tag, le32, le32_at, tag_at};
use crate::error::MetaError;
use crate::numbers::{lemma_whole_millis, whole_millis};
use crate::metadata::audio::formats::flac::song_result;
use crate::metadata::audio::{empty_song, SongMeta, SongMetadata};
use crate::reader::{
    ahead, can_read_exact, exact_bytes, pos_after_exact, read_count, valid_target, FileReader,
};
use crate::text::{
    chars_of, string_from_chars, string_from_utf8_lossy, trim_chars, trim_class, utf8_lossy,
    CharClass,
};

verus! {

/// `fmt `
pub open spec fn tag_fmt() -> Seq<u8> {
    seq![0x66u8, 0x6d, 0x74, 0x20]
}

/// `data`
pub open spec fn tag_data() -> Seq<u8> {
    seq![0x64u8, 0x61, 0x74, 0x61]
}

/// `LIST`
pub open spec fn tag_list() -> Seq<u8> {
    seq![0x4cu8, 0x49, 0x53, 0x54]
}

/// `INFO`
pub open spec fn tag_info() -> Seq<u8> {
    seq![0x49u8, 0x4e, 0x46, 0x4f]
}

/// `IART`
pub open spec fn tag_iart() -> Seq<u8> {
    seq![0x49u8, 0x41, 0x52, 0x54]
}

/// `INAM`
pub open spec fn tag_inam() -> Seq<u8> {
    seq![0x49u8, 0x4e, 0x41, 0x4d]
}

/// `IPRD`
pub open spec fn tag_iprd() -> Seq<u8> {
    seq![0x49u8, 0x50, 0x52, 0x44]
}

/// `IGNR`
pub open spec fn tag_ignr() -> Seq<u8> {
    seq![0x49u8, 0x47, 0x4e, 0x52]
}

/// The text of an INFO entry: lossily decoded, without U+0000 and then
/// without whitespace at either end.
pub open spec fn info_text(b: Seq<u8>) -> Seq<char> {
    trim_class(trim_class(utf8_lossy(b), CharClass::Nul), CharClass::Whitespace)
}

/// An INFO entry applied to the metadata: `IART` sets the artist, `INAM` the
/// title, `IPRD` the album and `IGNR` the genre.
pub open spec fn apply_info(meta: SongMeta, id: Seq<u8>, text: Seq<char>) -> SongMeta {
    if tag_at(id, 0, tag_iart()) {
        SongMeta { artist: Some(text), ..meta }
    } else if tag_at(id, 0, tag_inam()) {
        SongMeta { title: Some(text), ..meta }
    } else if tag_at(id, 0, tag_iprd()) {
        SongMeta { album: Some(text), ..meta }
    } else if tag_at(id, 0, tag_ignr()) {
        SongMeta { genre: Some(text), ..meta }
    } else {
        meta
    }
}

/// Reading the entries of a LIST/INFO chunk from `pos` while at least 8 of
/// the chunk's bytes are unaccounted for: each entry is an id, a 32-bit
/// little-endian size and that many bytes.  The result is the metadata and
/// the position where reading stopped, or the error.
pub open spec fn wav_info_from(data: Seq<u8>, pos: int, remaining: int, meta: SongMeta) -> (
    Result<SongMeta, MetaError>,
    int,
)
    decreases remaining,
{
    let len = data.len() as int;
    if remaining < 8 {
        (Ok(meta), pos)
    } else if read_count(len, pos, 8) != 8 {
        (Ok(meta), pos + read_count(len, pos, 8))
    } else {
        let h = data.subrange(pos, pos + 8);
        let size = le32(h, 4);
        if !can_read_exact(len, pos + 8, size) {
            (Err(MetaError::UnexpectedEof), pos_after_exact(len, pos + 8, size))
        } else {
            let next = apply_info(meta, h, info_text(exact_bytes(data, pos + 8, size)));
            let left = if remaining >= 8 + size {
                remaining - (8 + size)
            } else {
                0
            };
            wav_info_from(data, pos + 8 + size, left, next)
        }
    }
}

/// The 16 bytes of a `fmt ` chunk buffer after reading `b` into its start.
pub open spec fn padded16(b: Seq<u8>) -> Seq<u8> {
    Seq::new(16, |i: int| if i < b.len() { b[i] } else { 0u8 })
}

/// The state after the chunks: metadata, byte rate and data size.
pub open spec fn wav_finish(meta: SongMeta, rate: Option<u32>, size: Option<u32>) -> Result<
    SongMeta,
    MetaError,
> {
    match (rate, size) {
        (Some(br), Some(ds)) => if br == 0 {
            Err(MetaError::DivisionByZero)
        } else {
            Ok(SongMeta { duration_ms: Some((ds * 1000 / (br as int)) as u64), ..meta })
        },
        _ => Ok(meta),
    }
}

/// Reading the chunks of a WAV file from `pos`: `fmt ` gives the byte rate
/// (bytes 8..12 of its first 16), `data` the data size, and a `LIST` chunk of
/// type `INFO` the tags; every other chunk is skipped by its size.
pub open spec fn wav_chunks_from(
    data: Seq<u8>,
    pos: int,
    meta: SongMeta,
    rate: Option<u32>,
    size: Option<u32>,
) -> (Result<SongMeta, MetaError>, int)
    decreases ahead(data.len() as int, pos),
{
    let len = data.len() as int;
    if read_count(len, pos, 8) != 8 {
        (wav_finish(meta, rate, size), pos + read_count(len, pos, 8))
    } else {
        let h = data.subrange(pos, pos + 8);
        let csize = le32(h, 4);
        let p = pos + 8;
        let next = p + csize;
        if tag_at(h, 0, tag_fmt()) {
            let k = if csize < 16 {
                csize
            } else {
                16
            };
            if !can_read_exact(len, p, k) {
                (Err(MetaError::UnexpectedEof), pos_after_exact(len, p, k))
            } else if !valid_target(next) {
                (Err(MetaError::InvalidSeek), p + k)
            } else {
                let buf = padded16(exact_bytes(data, p, k));
                wav_chunks_from(data, next, meta, Some(le32(buf, 8) as u32), size)
            }
        } else if tag_at(h, 0, tag_data()) {
            if !valid_target(next) {
                (Err(MetaError::InvalidSeek), p)
            } else {
                wav_chunks_from(data, next, meta, rate, Some(csize as u32))
            }
        } else if tag_at(h, 0, tag_list()) {
            if !can_read_exact(len, p, 4) {
                (Err(MetaError::UnexpectedEof), pos_after_exact(len, p, 4))
            } else if tag_at(data, p, tag_info()) {
                if csize < 4 {
                    (Err(MetaError::Overflow), p + 4)
                } else {
                    let (r, q) = wav_info_from(data, p + 4, csize - 4, meta);
                    match r {
                        Err(e) => (Err(e), q),
                        Ok(m) => if q <= pos {
                            (Ok(m), q)
                        } else {
                            wav_chunks_from(data, q, m, rate, size)
                        },
                    }
                }
            } else if !valid_target(next) {
                (Err(MetaError::InvalidSeek), p + 4)
            } else {
                wav_chunks_from(data, next, meta, rate, size)
            }
        } else if !valid_target(next) {
            (Err(MetaError::InvalidSeek), p)
        } else {
            wav_chunks_from(data, next, meta, rate, size)
        }
    }
}

/// The tags and duration of a WAV file: the chunks after the 12-byte RIFF
/// header.
pub open spec fn wav_tags(data: Seq<u8>) -> (Result<SongMeta, MetaError>, int) {
    wav_chunks_from(data, 12, empty_song(), None, None)
}

proof fn lemma_info_advances(data: Seq<u8>, pos: int, remaining: int, meta: SongMeta)
    ensures
        wav_info_from(data, pos, remaining, meta).1 >= pos,
    decreases remaining,
{
    let len = data.len() as int;
    if remaining >= 8 && read_count(len, pos, 8) == 8 {
        let h = data.subrange(pos, pos + 8);
        let size = le32(h, 4);
        if can_read_exact(len, pos + 8, size) {
            let next = apply_info(meta, h, info_text(exact_bytes(data, pos + 8, size)));
            let left = if remaining >= 8 + size {
                remaining - (8 + size)
            } else {
                0
            };
            lemma_info_advances(data, pos + 8 + size, left, next);
        }
    }
}

fn info_text_of(b: &[u8]) -> (r: String)
    ensures
        r@ == info_text(b@),
{
    let s = string_from_utf8_lossy(b);
    let chars = chars_of(s.as_str());
    let t = trim_chars(&chars, CharClass::Nul);
    let u = trim_chars(&t, CharClass::Whitespace);
    string_from_chars(&u)
}

fn read_info(f: &mut FileReader, meta: &mut SongMetadata, remaining: u64) -> (r: Result<
    (),
    MetaError,
>)
    ensures
        final(f)@.0 == old(f)@.0,
        (match r {
            Ok(_) => Ok(final(meta)@),
            Err(e) => Err(e),
        }, final(f)@.1) == wav_info_from(old(f)@.0, old(f)@.1, remaining as int, old(meta)@),
{
    let iart: [u8; 4] = [0x49, 0x41, 0x52, 0x54];
    let inam: [u8; 4] = [0x49, 0x4e, 0x41, 0x4d];
    let iprd: [u8; 4] = [0x49, 0x50, 0x52, 0x44];
    let ignr: [u8; 4] = [0x49, 0x47, 0x4e, 0x52];
    assert(iart@ =~= tag_iart());
    assert(inam@ =~= tag_inam());
    assert(iprd@ =~= tag_iprd());
    assert(ignr@ =~= tag_ignr());
    let mut left = remaining;
    while left >= 8
        invariant
            f@.0 == old(f)@.0,
            iart@ == tag_iart(),
            inam@ == tag_inam(),
            iprd@ == tag_iprd(),
            ignr@ == tag_ignr(),
            wav_info_from(old(f)@.0, old(f)@.1, remaining as int, old(meta)@) == wav_info_from(
                f@.0,
                f@.1,
                left as int,
                meta@,
            ),
        decreases left,
    {
        let ghost pos = f@.1;
        let buf = f.read(8);
        if buf.len() != 8 {
            return Ok(());
        }
        assert(buf@ =~= f@.0.subrange(pos, pos + 8));
        let sub_size = le32_at(&buf, 4);
        let bytes = f.read_exact(sub_size as usize)?;
        let text = info_text_of(&bytes);
        if has_tag(&buf, 0, &iart) {
            meta.artist = Some(text);
        } else if has_tag(&buf, 0, &inam) {
            meta.title = Some(text);
        } else if has_tag(&buf, 0, &iprd) {
            meta.album = Some(text);
        } else if has_tag(&buf, 0, &ignr) {
            meta.genre = Some(text);
        }
        left = left.saturating_sub(8 + sub_size as u64);
    }
    Ok(())
}

/// Reads the tags and duration of a WAV file.
pub fn parse(f: &mut FileReader) -> (r: Result<SongMetadata, MetaError>)
    ensures
        final(f)@.0 == old(f)@.0,
        (song_result(r), final(f)@.1) == wav_tags(old(f)@.0),
{
    let mut meta = SongMetadata::default();
    f.seek_start(12)?;
    let fmt: [u8; 4] = [0x66, 0x6d, 0x74, 0x20];
    let data_tag: [u8; 4] = [0x64, 0x61, 0x74, 0x61];
    let list: [u8; 4] = [0x4c, 0x49, 0x53, 0x54];
    let info: [u8; 4] = [0x49, 0x4e, 0x46, 0x4f];
    assert(fmt@ =~= tag_fmt());
    assert(data_tag@ =~= tag_data());
    assert(list@ =~= tag_list());
    assert(info@ =~= tag_info());
    let mut byte_rate: Option<u32> = None;
    let mut data_size: Option<u32> = None;
    loop
        invariant
            f@.0 == old(f)@.0,
            fmt@ == tag_fmt(),
            data_tag@ == tag_data(),
            list@ == tag_list(),
            info@ == tag_info(),
            wav_tags(old(f)@.0) == wav_chunks_from(f@.0, f@.1, meta@, byte_rate, data_size),
        decreases ahead(f@.0.len() as int, f@.1),
    {
        let ghost pos = f@.1;
        let buf = f.read(8);
        if buf.len() != 8 {
            return match (byte_rate, data_size) {
                (Some(br), Some(ds)) => {
                    if br == 0 {
                        Err(MetaError::DivisionByZero)
                    } else {
                        meta.duration_ms = Some((ds as u64 * 1000) / br as u64);
                        Ok(meta)
                    }
                },
                _ => Ok(meta),
            };
        }
        assert(buf@ =~= f@.0.subrange(pos, pos + 8));
        let chunk_size = le32_at(&buf, 4) as u64;
        let next = f.stream_position() + chunk_size;
        if has_tag(&buf, 0, &fmt) {
            let k = if chunk_size < 16 {
                chunk_size
            } else {
                16
            };
            let bytes = f.read_exact(k as usize)?;
            let mut fmt_buf: [u8; 16] = [0; 16];
            let mut i: usize = 0;
            while i < bytes.len()
                invariant
                    bytes.len() <= 16,
                    i <= bytes.len(),
                    forall|j: int| 0 <= j < i ==> fmt_buf@[j] == bytes@[j],
                    forall|j: int| i <= j < 16 ==> fmt_buf@[j] == 0,
                decreases bytes.len() - i,
            {
                fmt_buf[i] = bytes[i];
                i += 1;
            }
            assert(fmt_buf@ =~= padded16(bytes@));
            byte_rate = Some(le32_at(&fmt_buf, 8));
            f.seek_start(next)?;
        } else if has_tag(&buf, 0, &data_tag) {
            data_size = Some(chunk_size as u32);
            f.seek_start(next)?;
        } else if has_tag(&buf, 0, &list) {
            let list_type = f.read_exact(4)?;
            let ghost q = f@.1;
            if has_tag(&list_type, 0, &info) {
                assert(list_type@.subrange(0, 4) =~= list_type@);
                if chunk_size < 4 {
                    return Err(MetaError::Overflow);
                }
                let ghost m0 = meta@;
                read_info(f, &mut meta, chunk_size - 4)?;
                proof {
                    lemma_info_advances(f@.0, q, chunk_size - 4, m0);
                }
            } else {
                assert(!tag_at(f@.0, pos + 8, tag_info())) by {
                    if tag_at(f@.0, pos + 8, tag_info()) {
                        assert(list_type@.subrange(0, 4) =~= list_type@);
                    }
                }
                f.seek_start(next)?;
            }
        } else {
            f.seek_start(next)?;
        }
    }
}

} // verus!

verus! {

/// The duration a WAV file gets from a byte rate and a data size is the
/// whole number of milliseconds the data lasts; the tags stay as they are.
pub proof fn lemma_wav_duration_in_ms(meta: SongMeta, br: u32, ds: u32)
    requires
        br > 0,
    ensures
        wav_finish(meta, Some(br), Some(ds)) matches Ok(m) && m.duration_ms matches Some(x)
            && whole_millis(x as int, ds as int, br as int) && m.title == meta.title && m.artist
            == meta.artist && m.album == meta.album && m.genre == meta.genre,
{
    lemma_whole_millis(ds as int, br as int);
}

/// The INFO chunk's bytes from `pos` are one entry in full: an id, a size
/// and that many bytes.
pub open spec fn info_entry_at(data: Seq<u8>, pos: int) -> bool {
    &&& 0 <= pos
    &&& pos + 8 <= data.len()
    &&& pos + 8 + le32(data, pos + 4) <= data.len()
}

/// The text of the INFO entry at `pos`.
pub open spec fn info_entry_text(data: Seq<u8>, pos: int) -> Seq<char> {
    info_text(data.subrange(pos + 8, pos + 8 + le32(data, pos + 4)))
}

/// A lone INFO entry `IART` sets the artist to its text, `INAM` the title,
/// `IPRD` the album and `IGNR` the genre, and nothing else.
pub proof fn lemma_info_entry_fields(data: Seq<u8>, pos: int, meta: SongMeta)
    requires
        info_entry_at(data, pos),
    ensures
        tag_at(data, pos, tag_iart()) ==> wav_info_from(data, pos, 8 + le32(data, pos + 4), meta).0
            == Ok::<SongMeta, MetaError>(
            SongMeta {
                title: meta.title,
                artist: Some(info_entry_text(data, pos)),
                album: meta.album,
                genre: meta.genre,
                duration_ms: meta.duration_ms,
            },
        ),
        tag_at(data, pos, tag_inam()) ==> wav_info_from(data, pos, 8 + le32(data, pos + 4), meta).0
            == Ok::<SongMeta, MetaError>(
            SongMeta {
                title: Some(info_entry_text(data, pos)),
                artist: meta.artist,
                album: meta.album,
                genre: meta.genre,
                duration_ms: meta.duration_ms,
            },
        ),
        tag_at(data, pos, tag_iprd()) ==> wav_info_from(data, pos, 8 + le32(data, pos + 4), meta).0
            == Ok::<SongMeta, MetaError>(
            SongMeta {
                title: meta.title,
                artist: meta.artist,
                album: Some(info_entry_text(data, pos)),
                genre: meta.genre,
                duration_ms: meta.duration_ms,
            },
        ),
        tag_at(data, pos, tag_ignr()) ==> wav_info_from(data, pos, 8 + le32(data, pos + 4), meta).0
            == Ok::<SongMeta, MetaError>(
            SongMeta {
                title: meta.title,
                artist: meta.artist,
                album: meta.album,
                genre: Some(info_entry_text(data, pos)),
                duration_ms: meta.duration_ms,
            },
        ),
{
    let h = data.subrange(pos, pos + 8);
    let size = le32(h, 4);
    assert(size == le32(data, pos + 4));
    assert(exact_bytes(data, pos + 8, size) =~= data.subrange(pos + 8, pos + 8 + size));
    assert(tag_at(h, 0, tag_iart()) == tag_at(data, pos, tag_iart())) by {
        assert(h.subrange(0, 4) =~= data.subrange(pos, pos + 4));
    }
    assert(tag_at(h, 0, tag_inam()) == tag_at(data, pos, tag_inam())) by {
        assert(h.subrange(0, 4) =~= data.subrange(pos, pos + 4));
    }
    assert(tag_at(h, 0, tag_iprd()) == tag_at(data, pos, tag_iprd())) by {
        assert(h.subrange(0, 4) =~= data.subrange(pos, pos + 4));
    }
    assert(tag_at(h, 0, tag_ignr()) == tag_at(data, pos, tag_ignr())) by {
        assert(h.subrange(0, 4) =~= data.subrange(pos, pos + 4));
    }
    assert(tag_iart() != tag_inam() && tag_iart() != tag_iprd() && tag_iart() != tag_ignr()) by {
        assert(tag_iart()[1] != tag_inam()[1]);
        assert(tag_iart()[1] != tag_iprd()[1]);
        assert(tag_iart()[1] != tag_ignr()[1]);
    }
    assert(tag_inam() != tag_iprd() && tag_inam() != tag_ignr()) by {
        assert(tag_inam()[1] != tag_iprd()[1]);
        assert(tag_inam()[1] != tag_ignr()[1]);
    }
    assert(tag_iprd() != tag_ignr()) by {
        assert(tag_iprd()[1] != tag_ignr()[1]);
    }
    let next = apply_info(meta, h, info_text(exact_bytes(data, pos + 8, size)));
    assert(wav_info_from(data, pos, 8 + size, meta) == wav_info_from(data, pos + 8 + size, 0, next));
}

} // verus!
