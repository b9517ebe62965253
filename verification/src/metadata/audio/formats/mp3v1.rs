//! Tags of an MP3 file with an ID3v1 tag.
use vstd::prelude::*;

use crate::bytes::{has_tag, tag_at};
use crate::error::MetaError;
use crate::helpers::mp3::id3v1::{id3v1_text, trim_id3v1_text};
use crate::metadata::audio::formats::flac::song_result;
use crate::metadata::audio::formats::mp3v2::tag_tag;
use crate::metadata::audio::{empty_song, SongMeta, SongMetadata};
use crate::reader::{can_read_exact, pos_after_exact, valid_target, FileReader};
use crate::text::{byte_to_decimal, decimal};

verus! {

/// The text of an ID3v1 field, or none when it is blank.
pub open spec fn id3v1_field(b: Seq<u8>) -> Option<Seq<char>> {
    if id3v1_text(b).len() == 0 {
        None
    } else {
        Some(id3v1_text(b))
    }
}

/// The tags of the 128-byte ID3v1 block `t`, which starts with `TAG`: title,
/// artist and album in 30-byte fields from offset 3, the genre as the decimal
/// number in the last byte.
pub open spec fn id3v1_tags(t: Seq<u8>) -> SongMeta {
    SongMeta {
        title: id3v1_field(t.subrange(3, 33)),
        artist: id3v1_field(t.subrange(33, 63)),
        album: id3v1_field(t.subrange(63, 93)),
        genre: Some(decimal(t[127] as nat)),
        duration_ms: None,
    }
}

/// The tags of an MP3 file read from the ID3v1 block in its last 128 bytes;
/// none when the file is shorter or the block does not start with `TAG`.
pub open spec fn mp3v1_tags(d: Seq<u8>, pos: int) -> (Result<SongMeta, MetaError>, int) {
    let len = d.len() as int;
    if len < 128 {
        (Ok(empty_song()), pos)
    } else {
        let t = d.subrange(len - 128, len);
        if tag_at(t, 0, tag_tag()) {
            (Ok(id3v1_tags(t)), len)
        } else {
            (Ok(empty_song()), len)
        }
    }
}

fn field(t: &[u8], a: usize, b: usize) -> (r: Option<String>)
    requires
        a <= b <= t.len(),
    ensures
        crate::helpers::m4a::opt_string_view(r) == id3v1_field(t@.subrange(a as int, b as int)),
{
    trim_id3v1_text(&t[a..b])
}

/// Reads the tags of the ID3v1 block at the end of an MP3 file.  The
/// duration is left unset: its estimate from the file size is made apart.
pub fn parse(f: &mut FileReader) -> (r: Result<SongMetadata, MetaError>)
    ensures
        final(f)@.0 == old(f)@.0,
        (song_result(r), final(f)@.1) == mp3v1_tags(old(f)@.0, old(f)@.1),
{
    let file_size = f.len();
    if file_size < 128 {
        return Ok(SongMetadata::default());
    }
    f.seek_end(-128)?;
    let buf = f.read_exact(128)?;
    assert(buf@ =~= old(f)@.0.subrange(file_size - 128, file_size as int));
    let tag: [u8; 3] = [0x54, 0x41, 0x47];
    assert(tag@ =~= tag_tag());
    if !has_tag(&buf, 0, &tag) {
        return Ok(SongMetadata::default());
    }
    let title = field(&buf, 3, 33);
    let artist = field(&buf, 33, 63);
    let album = field(&buf, 63, 93);
    let genre = Some(byte_to_decimal(buf[127]));
    Ok(SongMetadata { artist, title, album, genre, duration_ms: None })
}

} // verus!

verus! {

/// A file ending in an ID3v1 block (`TAG` 128 bytes from the end) gets its
/// title from the 30 bytes after `TAG`, its artist from the next 30, its
/// album from the 30 after those, and its genre as the decimal number in
/// the last byte; no duration.
pub proof fn lemma_id3v1_fields(d: Seq<u8>, pos: int)
    requires
        d.len() >= 128,
        tag_at(d, d.len() - 128, tag_tag()),
    ensures
        mp3v1_tags(d, pos).0 == Ok::<SongMeta, MetaError>(
            SongMeta {
                title: id3v1_field(d.subrange(d.len() - 125, d.len() - 95)),
                artist: id3v1_field(d.subrange(d.len() - 95, d.len() - 65)),
                album: id3v1_field(d.subrange(d.len() - 65, d.len() - 35)),
                genre: Some(decimal(d[d.len() - 1] as nat)),
                duration_ms: None,
            },
        ),
{
    let len = d.len() as int;
    let t = d.subrange(len - 128, len);
    assert(t.subrange(0, 3) =~= d.subrange(len - 128, len - 125));
    assert(t.subrange(3, 33) =~= d.subrange(len - 125, len - 95));
    assert(t.subrange(33, 63) =~= d.subrange(len - 95, len - 65));
    assert(t.subrange(63, 93) =~= d.subrange(len - 65, len - 35));
    assert(t[127] == d[len - 1]);
}

} // verus!
