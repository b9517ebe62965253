//! Tags of an MP3 file with an ID3v2 tag, and the stream facts its duration
//! is estimated from.
use vstd::prelude::*;

use crate::bytes::{be32, be32_at, has_tag, tag_at};
use crate::error::MetaError;
use crate::helpers::mp3::id3v2::{decode_text_frame, synchsafe, synchsafe_to_u32, text_frame};
use crate::metadata::audio::{empty_song, SongMeta, SongMetadata};
use crate::reader::{
    ahead, can_read_exact, exact_bytes, pos_after_exact, read_count, FileReader, MAX_POS,
};
use crate::text::copy_range;

verus! {

/// `TIT2`
pub open spec fn tag_tit2() -> Seq<u8> {
    seq![0x54u8, 0x49, 0x54, 0x32]
}

/// `TPE1`
pub open spec fn tag_tpe1() -> Seq<u8> {
    seq![0x54u8, 0x50, 0x45, 0x31]
}

/// `TALB`
pub open spec fn tag_talb() -> Seq<u8> {
    seq![0x54u8, 0x41, 0x4c, 0x42]
}

/// `TCON`
pub open spec fn tag_tcon() -> Seq<u8> {
    seq![0x54u8, 0x43, 0x4f, 0x4e]
}

/// `TAG`
pub open spec fn tag_tag() -> Seq<u8> {
    seq![0x54u8, 0x41, 0x47]
}

/// The facts of the audio stream that an MP3 duration is estimated from:
/// the bytes between the ID3v2 tag and any ID3v1 tag, and the bitrate of the
/// first frame header.
#[derive(Debug, Clone, Copy, PartialEq, Eq)]
pub struct Mp3Stream {
    pub audio_bytes: u64,
    pub bitrate_kbps: u32,
}

/// The frames of an ID3v2 tag body from `i`: each a 4-byte id, a 32-bit
/// big-endian size, 2 flag bytes and the content.  The text frames `TIT2`,
/// `TPE1`, `TALB` and `TCON` set title, artist, album and genre (to no text
/// when the frame has none); the walk stops at a frame of size 0 or one that
/// runs past the end.
pub open spec fn id3v2_frames(td: Seq<u8>, i: int, meta: SongMeta) -> SongMeta
    decreases td.len() - i,
{
    if i < 0 || i + 10 > td.len() {
        meta
    } else {
        let size = be32(td, i + 4);
        if size == 0 || i + 10 + size > td.len() {
            meta
        } else {
            let text = text_frame(td.subrange(i + 10, i + 10 + size));
            let next = if tag_at(td, i, tag_tit2()) {
                SongMeta { title: text, ..meta }
            } else if tag_at(td, i, tag_tpe1()) {
                SongMeta { artist: text, ..meta }
            } else if tag_at(td, i, tag_talb()) {
                SongMeta { album: text, ..meta }
            } else if tag_at(td, i, tag_tcon()) {
                SongMeta { genre: text, ..meta }
            } else {
                meta
            };
            id3v2_frames(td, i + 10 + size, next)
        }
    }
}

/// Whether an MPEG frame sync starts at `d[k]`.
pub open spec fn sync_at(d: Seq<u8>, k: int) -> bool {
    d[k] == 0xFF && d[k + 1] >= 0xE0
}

/// The first `j` in `from..=n-4` with a frame sync at `base + j`.
pub open spec fn first_sync(d: Seq<u8>, base: int, from: int, n: int) -> Option<int>
    decreases n - from,
{
    if from > n - 4 {
        None
    } else if sync_at(d, base + from) {
        Some(from)
    } else {
        first_sync(d, base, from + 1, n)
    }
}

/// Reading 8192-byte blocks from `pos` and searching each for a frame sync
/// with three more bytes after it in the same block: the four header bytes
/// found, and the final position.  The search stops at a block shorter than
/// 4 bytes, or after a short block without a sync.
pub open spec fn sync_search(d: Seq<u8>, pos: int) -> (Option<Seq<u8>>, int)
    decreases ahead(d.len() as int, pos),
{
    let n = read_count(d.len() as int, pos, 8192);
    if n < 4 {
        (None, pos + n)
    } else {
        match first_sync(d, pos, 0, n) {
            Some(j) => (Some(d.subrange(pos + j, pos + j + 4)), pos + n),
            None => if n < 8192 {
                (None, pos + n)
            } else {
                sync_search(d, pos + n)
            },
        }
    }
}

/// The bitrate in kbit/s of an MPEG audio frame header, by version (3 for
/// MPEG-1) and layer (3, 2, 1 for Layer I, II, III); 0 when free, bad or
/// reserved.
pub open spec fn header_bitrate(h: Seq<u8>) -> u32 {
    let version = (h[1] / 8) % 4;
    let layer = (h[1] / 2) % 4;
    let i = (h[2] / 16) as int;
    if version == 3 && layer == 3 {
        seq![0u32, 32, 64, 96, 128, 160, 192, 224, 256, 288, 320, 352, 384, 416, 448, 0][i]
    } else if version == 3 && layer == 2 {
        seq![0u32, 32, 48, 56, 64, 80, 96, 112, 128, 160, 192, 224, 256, 320, 384, 0][i]
    } else if version == 3 && layer == 1 {
        seq![0u32, 32, 40, 48, 56, 64, 80, 96, 112, 128, 160, 192, 224, 256, 320, 0][i]
    } else if layer == 3 {
        seq![0u32, 32, 48, 56, 64, 80, 96, 112, 128, 144, 160, 176, 192, 224, 256, 0][i]
    } else if layer == 2 || layer == 1 {
        seq![0u32, 8, 16, 24, 32, 40, 48, 56, 64, 80, 96, 112, 128, 144, 160, 0][i]
    } else {
        0
    }
}

/// The tags of an MP3 file with an ID3v2 tag whose 10-byte header is read
/// from `pos`, with the facts of its audio stream: the stream starts after
/// the tag, ends before a 128-byte ID3v1 tag at the end of the file, and its
/// bitrate comes from the first frame header found; there are no facts when
/// no header is found or its bitrate is 0.
pub open spec fn mp3v2_tags(d: Seq<u8>, pos: int) -> (
    Result<(SongMeta, Option<Mp3Stream>), MetaError>,
    int,
) {
    let len = d.len() as int;
    if !can_read_exact(len, pos, 10) {
        (Err(MetaError::UnexpectedEof), pos_after_exact(len, pos, 10))
    } else {
        let tag_size = synchsafe(d.subrange(pos + 6, pos + 10));
        let p = pos + 10;
        if !can_read_exact(len, p, tag_size) {
            (Err(MetaError::UnexpectedEof), pos_after_exact(len, p, tag_size))
        } else {
            let meta = id3v2_frames(exact_bytes(d, p, tag_size), 0, empty_song());
            let id3v1_size = if len >= 128 && tag_at(d, len - 128, tag_tag()) {
                128int
            } else {
                0
            };
            let audio_start = 10 + tag_size;
            let (found, q) = sync_search(d, audio_start);
            let stream = match found {
                Some(h) => if header_bitrate(h) > 0 {
                    Some(
                        Mp3Stream {
                            audio_bytes: if len > audio_start + id3v1_size {
                                (len - (audio_start + id3v1_size)) as u64
                            } else {
                                0
                            },
                            bitrate_kbps: header_bitrate(h),
                        },
                    )
                } else {
                    None
                },
                None => None,
            };
            (Ok((meta, stream)), q)
        }
    }
}

fn frame_text(td: &[u8], i: usize, size: usize) -> (r: Option<String>)
    requires
        i + 10 + size <= td.len(),
    ensures
        crate::helpers::m4a::opt_string_view(r) == text_frame(td@.subrange(i + 10, i + 10 + size)),
{
    let frame = copy_range(td, i + 10, i + 10 + size);
    decode_text_frame(&frame)
}

fn read_frames(td: &[u8], meta: &mut SongMetadata)
    requires
        old(meta)@ == empty_song(),
    ensures
        final(meta)@ == id3v2_frames(td@, 0, empty_song()),
{
    let tit2: [u8; 4] = [0x54, 0x49, 0x54, 0x32];
    let tpe1: [u8; 4] = [0x54, 0x50, 0x45, 0x31];
    let talb: [u8; 4] = [0x54, 0x41, 0x4c, 0x42];
    let tcon: [u8; 4] = [0x54, 0x43, 0x4f, 0x4e];
    assert(tit2@ =~= tag_tit2());
    assert(tpe1@ =~= tag_tpe1());
    assert(talb@ =~= tag_talb());
    assert(tcon@ =~= tag_tcon());
    let len = td.len();
    let mut i: usize = 0;
    while i <= len && len - i >= 10
        invariant
            i <= len,
            len == td.len(),
            tit2@ == tag_tit2(),
            tpe1@ == tag_tpe1(),
            talb@ == tag_talb(),
            tcon@ == tag_tcon(),
            id3v2_frames(td@, 0, empty_song()) == id3v2_frames(td@, i as int, meta@),
        decreases len - i,
    {
        let size = be32_at(td, i + 4) as usize;
        if size == 0 || len - i - 10 < size {
            return ;
        }
        let text = frame_text(td, i, size);
        if has_tag(td, i, &tit2) {
            meta.title = text;
        } else if has_tag(td, i, &tpe1) {
            meta.artist = text;
        } else if has_tag(td, i, &talb) {
            meta.album = text;
        } else if has_tag(td, i, &tcon) {
            meta.genre = text;
        }
        i += 10 + size;
    }
}

fn find_sync(f: &mut FileReader) -> (r: Option<[u8; 4]>)
    ensures
        final(f)@.0 == old(f)@.0,
        (match r {
            Some(h) => Some(h@),
            None => None,
        }, final(f)@.1) == sync_search(old(f)@.0, old(f)@.1),
{
    loop
        invariant
            f@.0 == old(f)@.0,
            sync_search(old(f)@.0, old(f)@.1) == sync_search(f@.0, f@.1),
        decreases ahead(f@.0.len() as int, f@.1),
    {
        let ghost pos = f@.1;
        let buf = f.read(8192);
        let n = buf.len();
        if n < 4 {
            return None;
        }
        assert(buf@ =~= f@.0.subrange(pos, pos + n));
        let mut j: usize = 0;
        while j <= n - 4
            invariant
                4 <= n == buf.len(),
                f@.0 == old(f)@.0,
                f@.1 == pos + n,
                n == read_count(f@.0.len() as int, pos, 8192),
                sync_search(old(f)@.0, old(f)@.1) == sync_search(f@.0, pos),
                0 <= pos,
                pos + n <= f@.0.len(),
                j <= n - 3,
                buf@ == f@.0.subrange(pos, pos + n),
                first_sync(f@.0, pos, 0, n as int) == first_sync(f@.0, pos, j as int, n as int),
            decreases n - j,
        {
            let sync = (buf[j + 1] & 0xE0) == 0xE0;
            let b1 = buf[j + 1];
            assert(sync == (b1 >= 0xE0)) by (bit_vector)
                requires
                    sync == ((b1 & 0xE0) == 0xE0),
            ;
            assert(buf@[j as int] == f@.0[pos + j]);
            assert(buf@[j + 1] == f@.0[pos + j + 1]);
            if buf[j] == 0xFF && sync {
                let h: [u8; 4] = [buf[j], buf[j + 1], buf[j + 2], buf[j + 3]];
                assert(h@ =~= f@.0.subrange(pos + j, pos + j + 4));
                return Some(h);
            }
            j += 1;
        }
        if n < 8192 {
            return None;
        }
    }
}

fn bitrate_of(h: &[u8; 4]) -> (r: u32)
    ensures
        r == header_bitrate(h@),
{
    let version_id = (h[1] / 8) % 4;
    let layer_index = (h[1] / 2) % 4;
    let i = (h[2] / 16) as usize;
    let t33: [u32; 16] = [0, 32, 64, 96, 128, 160, 192, 224, 256, 288, 320, 352, 384, 416, 448, 0];
    let t32: [u32; 16] = [0, 32, 48, 56, 64, 80, 96, 112, 128, 160, 192, 224, 256, 320, 384, 0];
    let t31: [u32; 16] = [0, 32, 40, 48, 56, 64, 80, 96, 112, 128, 160, 192, 224, 256, 320, 0];
    let tx3: [u32; 16] = [0, 32, 48, 56, 64, 80, 96, 112, 128, 144, 160, 176, 192, 224, 256, 0];
    let tx2: [u32; 16] = [0, 8, 16, 24, 32, 40, 48, 56, 64, 80, 96, 112, 128, 144, 160, 0];
    assert(t33@ =~= seq![0u32, 32, 64, 96, 128, 160, 192, 224, 256, 288, 320, 352, 384, 416, 448, 0]);
    assert(t32@ =~= seq![0u32, 32, 48, 56, 64, 80, 96, 112, 128, 160, 192, 224, 256, 320, 384, 0]);
    assert(t31@ =~= seq![0u32, 32, 40, 48, 56, 64, 80, 96, 112, 128, 160, 192, 224, 256, 320, 0]);
    assert(tx3@ =~= seq![0u32, 32, 48, 56, 64, 80, 96, 112, 128, 144, 160, 176, 192, 224, 256, 0]);
    assert(tx2@ =~= seq![0u32, 8, 16, 24, 32, 40, 48, 56, 64, 80, 96, 112, 128, 144, 160, 0]);
    if version_id == 3 && layer_index == 3 {
        t33[i]
    } else if version_id == 3 && layer_index == 2 {
        t32[i]
    } else if version_id == 3 && layer_index == 1 {
        t31[i]
    } else if layer_index == 3 {
        tx3[i]
    } else if layer_index == 2 || layer_index == 1 {
        tx2[i]
    } else {
        0
    }
}

/// Reads the tags of an MP3 file with an ID3v2 tag, from its header at the
/// current position, and the facts its duration is estimated from.  The
/// metadata's duration is left unset.
pub fn parse(f: &mut FileReader) -> (r: Result<(SongMetadata, Option<Mp3Stream>), MetaError>)
    ensures
        final(f)@.0 == old(f)@.0,
        (match r {
            Ok((m, s)) => Ok((m@, s)),
            Err(e) => Err(e),
        }, final(f)@.1) == mp3v2_tags(old(f)@.0, old(f)@.1),
{
    let header = f.read_exact(10)?;
    let tag_size = synchsafe_to_u32(&header[6..10]) as usize;
    assert(header@.subrange(6, 10) =~= old(f)@.0.subrange(old(f)@.1 + 6, old(f)@.1 + 10));
    let tag_data = f.read_exact(tag_size)?;
    let mut meta = SongMetadata::default();
    read_frames(&tag_data, &mut meta);
    let total_len = f.len();
    let mut id3v1_size: u64 = 0;
    let tag: [u8; 3] = [0x54, 0x41, 0x47];
    assert(tag@ =~= tag_tag());
    if total_len >= 128 {
        f.seek_end(-128)?;
        let ghost tail_pos = f@.1;
        assert(tail_pos == total_len - 128);
        let tail = f.read_exact(3)?;
        assert(tail@ =~= f@.0.subrange(total_len - 128, total_len - 125));
        if has_tag(&tail, 0, &tag) {
            assert(tail@.subrange(0, 3) =~= tail@);
            id3v1_size = 128;
        } else {
            assert(!tag_at(f@.0, total_len - 128, tag_tag())) by {
                if tag_at(f@.0, total_len - 128, tag_tag()) {
                    assert(tail@.subrange(0, 3) =~= tail@);
                }
            }
        }
    }
    let audio_start = 10 + tag_size as u64;
    f.seek_start(audio_start)?;
    let found = find_sync(f);
    let stream = match found {
        Some(hdr) => {
            let bitrate_kbps = bitrate_of(&hdr);
            if bitrate_kbps > 0 {
                let audio_bytes = total_len.saturating_sub(audio_start + id3v1_size);
                Some(Mp3Stream { audio_bytes, bitrate_kbps })
            } else {
                None
            }
        },
        None => None,
    };
    Ok((meta, stream))
}

} // verus!

verus! {

/// A tag body holding one frame: its 10-byte header, then content filling
/// the rest.
pub open spec fn single_frame(td: Seq<u8>) -> bool {
    td.len() > 10 && be32(td, 4) == td.len() - 10
}

/// A lone `TIT2` frame sets the title to the frame's text, `TPE1` the artist,
/// `TALB` the album and `TCON` the genre, and nothing else; a frame of any
/// other id changes nothing.
pub proof fn lemma_text_frame_fields(td: Seq<u8>, meta: SongMeta)
    requires
        single_frame(td),
    ensures
        tag_at(td, 0, tag_tit2()) ==> id3v2_frames(td, 0, meta) == (SongMeta {
            title: text_frame(td.subrange(10, td.len() as int)),
            artist: meta.artist,
            album: meta.album,
            genre: meta.genre,
            duration_ms: meta.duration_ms,
        }),
        tag_at(td, 0, tag_tpe1()) ==> id3v2_frames(td, 0, meta) == (SongMeta {
            title: meta.title,
            artist: text_frame(td.subrange(10, td.len() as int)),
            album: meta.album,
            genre: meta.genre,
            duration_ms: meta.duration_ms,
        }),
        tag_at(td, 0, tag_talb()) ==> id3v2_frames(td, 0, meta) == (SongMeta {
            title: meta.title,
            artist: meta.artist,
            album: text_frame(td.subrange(10, td.len() as int)),
            genre: meta.genre,
            duration_ms: meta.duration_ms,
        }),
        tag_at(td, 0, tag_tcon()) ==> id3v2_frames(td, 0, meta) == (SongMeta {
            title: meta.title,
            artist: meta.artist,
            album: meta.album,
            genre: text_frame(td.subrange(10, td.len() as int)),
            duration_ms: meta.duration_ms,
        }),
        !tag_at(td, 0, tag_tit2()) && !tag_at(td, 0, tag_tpe1()) && !tag_at(td, 0, tag_talb())
            && !tag_at(td, 0, tag_tcon()) ==> id3v2_frames(td, 0, meta) == meta,
{
    let size = be32(td, 4);
    let text = text_frame(td.subrange(10, 10 + size));
    let next = if tag_at(td, 0, tag_tit2()) {
        SongMeta { title: text, ..meta }
    } else if tag_at(td, 0, tag_tpe1()) {
        SongMeta { artist: text, ..meta }
    } else if tag_at(td, 0, tag_talb()) {
        SongMeta { album: text, ..meta }
    } else if tag_at(td, 0, tag_tcon()) {
        SongMeta { genre: text, ..meta }
    } else {
        meta
    };
    assert(id3v2_frames(td, 0, meta) == id3v2_frames(td, 10 + size, next));
    assert(tag_tit2() != tag_tpe1() && tag_tit2() != tag_talb() && tag_tit2() != tag_tcon()) by {
        assert(tag_tit2()[1] != tag_tpe1()[1]);
        assert(tag_tit2()[1] != tag_talb()[1]);
        assert(tag_tit2()[1] != tag_tcon()[1]);
    }
    assert(tag_tpe1() != tag_talb() && tag_tpe1() != tag_tcon()) by {
        assert(tag_tpe1()[1] != tag_talb()[1]);
        assert(tag_tpe1()[1] != tag_tcon()[1]);
    }
    assert(tag_talb() != tag_tcon()) by {
        assert(tag_talb()[1] != tag_tcon()[1]);
    }
}

proof fn lemma_frames_shift(f: Seq<u8>, t: Seq<u8>, j: int, meta: SongMeta)
    requires
        0 <= j,
    ensures
        id3v2_frames(f + t, f.len() + j, meta) == id3v2_frames(t, j, meta),
    decreases t.len() - j,
{
    let d = f + t;
    let i = f.len() + j;
    if !(i + 10 > d.len()) {
        assert(be32(d, i + 4) == be32(t, j + 4));
        let size = be32(t, j + 4);
        if !(size == 0 || i + 10 + size > d.len()) {
            assert(d.subrange(i + 10, i + 10 + size) =~= t.subrange(j + 10, j + 10 + size));
            assert(d.subrange(i, i + 4) =~= t.subrange(j, j + 4));
            let text = text_frame(t.subrange(j + 10, j + 10 + size));
            let next = if tag_at(t, j, tag_tit2()) {
                SongMeta { title: text, ..meta }
            } else if tag_at(t, j, tag_tpe1()) {
                SongMeta { artist: text, ..meta }
            } else if tag_at(t, j, tag_talb()) {
                SongMeta { album: text, ..meta }
            } else if tag_at(t, j, tag_tcon()) {
                SongMeta { genre: text, ..meta }
            } else {
                meta
            };
            lemma_frames_shift(f, t, j + 10 + size, next);
        }
    }
}

/// The frames are read in turn: a whole frame followed by further bytes
/// gives what those bytes give, read on from what the first frame gave.
pub proof fn lemma_frames_in_turn(f: Seq<u8>, t: Seq<u8>, meta: SongMeta)
    requires
        single_frame(f),
    ensures
        id3v2_frames(f + t, 0, meta) == id3v2_frames(t, 0, id3v2_frames(f, 0, meta)),
{
    let d = f + t;
    let size = be32(f, 4);
    assert(be32(d, 4) == size);
    assert(d.subrange(10, 10 + size) =~= f.subrange(10, 10 + size));
    assert(d.subrange(0, 4) =~= f.subrange(0, 4));
    let text = text_frame(f.subrange(10, 10 + size));
    let next = if tag_at(f, 0, tag_tit2()) {
        SongMeta { title: text, ..meta }
    } else if tag_at(f, 0, tag_tpe1()) {
        SongMeta { artist: text, ..meta }
    } else if tag_at(f, 0, tag_talb()) {
        SongMeta { album: text, ..meta }
    } else if tag_at(f, 0, tag_tcon()) {
        SongMeta { genre: text, ..meta }
    } else {
        meta
    };
    assert(id3v2_frames(f, 0, meta) == id3v2_frames(f, 10 + size, next));
    assert(id3v2_frames(d, 0, meta) == id3v2_frames(d, f.len() as int, next));
    lemma_frames_shift(f, t, 0, next);
}

} // verus!
