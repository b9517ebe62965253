//! Tags and duration of an M4A file.
use vstd::prelude::*;

use crate::bytes::{be32, be32_at, be64, be64_at, has_tag, tag_at};
use crate::error::MetaError;
use crate::numbers::{lemma_whole_millis, whole_millis};
use crate::helpers::m4a::{extract_m4a_text, m4a_text_from, opt_string_view};
use crate::metadata::audio::formats::flac::song_result;
use crate::metadata::audio::{empty_song, SongMeta, SongMetadata};
use crate::reader::{pos_after_all, rest_from, FileReader};
use crate::text::copy_range;

verus! {

/// `©nam`
pub open spec fn tag_nam() -> Seq<u8> {
    seq![0xa9u8, 0x6e, 0x61, 0x6d]
}

/// `©ART`
pub open spec fn tag_art() -> Seq<u8> {
    seq![0xa9u8, 0x41, 0x52, 0x54]
}

/// `©alb`
pub open spec fn tag_alb() -> Seq<u8> {
    seq![0xa9u8, 0x61, 0x6c, 0x62]
}

/// `©gen`
pub open spec fn tag_gen() -> Seq<u8> {
    seq![0xa9u8, 0x67, 0x65, 0x6e]
}

/// `mdhd`
pub open spec fn tag_mdhd() -> Seq<u8> {
    seq![0x6du8, 0x64, 0x68, 0x64]
}

/// `a * 1000`, or `u64::MAX` when that does not fit.
pub open spec fn times_1000_saturating(a: int) -> int {
    if a * 1000 > u64::MAX {
        u64::MAX as int
    } else {
        a * 1000
    }
}

/// The duration in a media header: the duration (times 1000, saturating)
/// over the timescale, or 0 when the timescale is 0.
pub open spec fn scaled_duration(timescale: int, duration: int) -> u64 {
    if timescale != 0 {
        (times_1000_saturating(duration) / timescale) as u64
    } else {
        0
    }
}

/// The duration that an `mdhd` atom at `i` of `size` bytes sets, if any:
/// version 1 holds a 32-bit timescale at offset 20 and a 64-bit duration at
/// 24 of its content, version 0 both 32-bit at 12 and 16.
pub open spec fn mdhd_duration(d: Seq<u8>, i: int, size: int) -> Option<u64> {
    let cs = i + 8;
    let end = i + size;
    if cs + 4 > end {
        None
    } else if d[cs] == 1 {
        if cs + 24 + 4 <= end && cs + 24 + 8 <= end {
            Some(scaled_duration(be32(d, cs + 20), be64(d, cs + 24)))
        } else {
            None
        }
    } else if cs + 12 + 4 <= end && cs + 16 + 4 <= end {
        Some(scaled_duration(be32(d, cs + 12), be32(d, cs + 16)))
    } else {
        None
    }
}

/// One atom at `i` of `size` bytes applied to the metadata.
pub open spec fn apply_atom(meta: SongMeta, d: Seq<u8>, i: int, size: int) -> SongMeta {
    let text = m4a_text_from(d.subrange(i + 8, i + size), 0);
    if tag_at(d, i + 4, tag_nam()) {
        SongMeta { title: text, ..meta }
    } else if tag_at(d, i + 4, tag_art()) {
        SongMeta { artist: text, ..meta }
    } else if tag_at(d, i + 4, tag_alb()) {
        SongMeta { album: text, ..meta }
    } else if tag_at(d, i + 4, tag_gen()) {
        SongMeta { genre: text, ..meta }
    } else if tag_at(d, i + 4, tag_mdhd()) {
        match mdhd_duration(d, i, size) {
            Some(ms) => SongMeta { duration_ms: Some(ms), ..meta },
            None => meta,
        }
    } else {
        meta
    }
}

/// The atoms of `d` from `i` on, each a 32-bit big-endian size and a 4-byte
/// type; the scan ends at an atom shorter than its header or running past
/// the end.
pub open spec fn m4a_atoms_from(d: Seq<u8>, i: int, meta: SongMeta) -> SongMeta
    decreases d.len() - i,
{
    if i < 0 || i + 8 > d.len() {
        meta
    } else {
        let size = be32(d, i);
        if size < 8 || i + size > d.len() {
            meta
        } else {
            m4a_atoms_from(d, i + size, apply_atom(meta, d, i, size))
        }
    }
}

/// The tags and duration of an M4A file, from the atoms that follow `pos`.
pub open spec fn m4a_tags(data: Seq<u8>, pos: int) -> (Result<SongMeta, MetaError>, int) {
    (
        Ok(m4a_atoms_from(rest_from(data, pos), 0, empty_song())),
        pos_after_all(data.len() as int, pos),
    )
}

fn scaled(timescale: u32, duration: u64) -> (r: u64)
    ensures
        r == scaled_duration(timescale as int, duration as int),
{
    if timescale != 0 {
        let ms = match duration.checked_mul(1000) {
            Some(v) => v,
            None => u64::MAX,
        };
        ms / timescale as u64
    } else {
        0
    }
}

fn atom_text(d: &[u8], i: usize, size: usize) -> (r: Option<String>)
    requires
        8 <= size,
        i + size <= d.len(),
    ensures
        opt_string_view(r) == m4a_text_from(d@.subrange(i + 8, i + size), 0),
{
    let body = copy_range(d, i + 8, i + size);
    extract_m4a_text(&body)
}

/// Reads the tags and duration of an M4A file.
pub fn parse(f: &mut FileReader) -> (r: Result<SongMetadata, MetaError>)
    ensures
        final(f)@.0 == old(f)@.0,
        (song_result(r), final(f)@.1) == m4a_tags(old(f)@.0, old(f)@.1),
{
    let mut meta = SongMetadata::default();
    let data = f.read_to_end();
    let nam: [u8; 4] = [0xa9, 0x6e, 0x61, 0x6d];
    let art: [u8; 4] = [0xa9, 0x41, 0x52, 0x54];
    let alb: [u8; 4] = [0xa9, 0x61, 0x6c, 0x62];
    let gen: [u8; 4] = [0xa9, 0x67, 0x65, 0x6e];
    let mdhd: [u8; 4] = [0x6d, 0x64, 0x68, 0x64];
    assert(nam@ =~= tag_nam());
    assert(art@ =~= tag_art());
    assert(alb@ =~= tag_alb());
    assert(gen@ =~= tag_gen());
    assert(mdhd@ =~= tag_mdhd());
    let mut i: usize = 0;
    while i <= data.len() && data.len() - i >= 8
        invariant
            i <= data.len(),
            f@.0 == old(f)@.0,
            f@.1 == pos_after_all(old(f)@.0.len() as int, old(f)@.1),
            data@ == rest_from(old(f)@.0, old(f)@.1),
            nam@ == tag_nam(),
            art@ == tag_art(),
            alb@ == tag_alb(),
            gen@ == tag_gen(),
            mdhd@ == tag_mdhd(),
            m4a_atoms_from(data@, 0, empty_song()) == m4a_atoms_from(data@, i as int, meta@),
        decreases data.len() - i,
    {
        let size = be32_at(&data, i) as usize;
        if size < 8 || data.len() - i < size {
            return Ok(meta);
        }
        if has_tag(&data, i + 4, &nam) {
            meta.title = atom_text(&data, i, size);
        } else if has_tag(&data, i + 4, &art) {
            meta.artist = atom_text(&data, i, size);
        } else if has_tag(&data, i + 4, &alb) {
            meta.album = atom_text(&data, i, size);
        } else if has_tag(&data, i + 4, &gen) {
            meta.genre = atom_text(&data, i, size);
        } else if has_tag(&data, i + 4, &mdhd) {
            let cs = i + 8;
            let end = i + size;
            if end - cs >= 4 {
                if data[cs] == 1 {
                    if end - cs >= 28 && end - cs >= 32 {
                        let timescale = be32_at(&data, cs + 20);
                        let duration = be64_at(&data, cs + 24);
                        meta.duration_ms = Some(scaled(timescale, duration));
                    }
                } else {
                    if end - cs >= 16 && end - cs >= 20 {
                        let timescale = be32_at(&data, cs + 12);
                        let duration = be32_at(&data, cs + 16) as u64;
                        meta.duration_ms = Some(scaled(timescale, duration));
                    }
                }
            }
        }
        i += size;
    }
    Ok(meta)
}

} // verus!

verus! {

/// Whether the M4A reading from `p` finds a box: a header whose size covers
/// at least the header and ends within the file.
pub open spec fn m4a_box_at(d: Seq<u8>, p: int) -> bool {
    &&& 0 <= p
    &&& p + 8 <= d.len()
    &&& be32(d, p) >= 8
    &&& p + be32(d, p) <= d.len()
}

/// Whether reading M4A tags from the reader's position finds a box.
pub fn box_ahead(f: &FileReader) -> (r: bool)
    ensures
        r == m4a_box_at(f@.0, f@.1),
{
    let d = f.bytes();
    let p = f.stream_position();
    if p > d.len() as u64 || (d.len() as u64) - p < 8 {
        return false;
    }
    let i = p as usize;
    let size = be32_at(d, i) as u64;
    size >= 8 && size <= (d.len() as u64) - p
}

} // verus!

verus! {

/// The bytes from `pos` to the end of the file are one atom exactly.
pub open spec fn single_atom(d: Seq<u8>, pos: int) -> bool {
    let rest = rest_from(d, pos);
    rest.len() >= 8 && be32(rest, 0) == rest.len()
}

/// The text of the lone atom from `pos`: that of the `data` atom inside it.
pub open spec fn single_atom_text(d: Seq<u8>, pos: int) -> Option<Seq<char>> {
    let rest = rest_from(d, pos);
    m4a_text_from(rest.subrange(8, rest.len() as int), 0)
}

/// Reading a file whose rest is one atom: a `©nam` atom gives the title its
/// text, `©ART` the artist, `©alb` the album and `©gen` the genre, and
/// nothing else is set.
pub proof fn lemma_text_atom_fields(d: Seq<u8>, pos: int)
    requires
        single_atom(d, pos),
    ensures
        tag_at(rest_from(d, pos), 4, tag_nam()) ==> m4a_tags(d, pos).0 == Ok::<SongMeta, MetaError>(
            SongMeta { title: single_atom_text(d, pos), artist: None, album: None, genre: None, duration_ms: None },
        ),
        tag_at(rest_from(d, pos), 4, tag_art()) ==> m4a_tags(d, pos).0 == Ok::<SongMeta, MetaError>(
            SongMeta { title: None, artist: single_atom_text(d, pos), album: None, genre: None, duration_ms: None },
        ),
        tag_at(rest_from(d, pos), 4, tag_alb()) ==> m4a_tags(d, pos).0 == Ok::<SongMeta, MetaError>(
            SongMeta { title: None, artist: None, album: single_atom_text(d, pos), genre: None, duration_ms: None },
        ),
        tag_at(rest_from(d, pos), 4, tag_gen()) ==> m4a_tags(d, pos).0 == Ok::<SongMeta, MetaError>(
            SongMeta { title: None, artist: None, album: None, genre: single_atom_text(d, pos), duration_ms: None },
        ),
{
    let rest = rest_from(d, pos);
    let size = be32(rest, 0);
    assert(m4a_atoms_from(rest, 0, empty_song()) == m4a_atoms_from(
        rest,
        size,
        apply_atom(empty_song(), rest, 0, size),
    ));
    assert(tag_nam() != tag_art() && tag_nam() != tag_alb() && tag_nam() != tag_gen()) by {
        assert(tag_nam()[1] != tag_art()[1]);
        assert(tag_nam()[1] != tag_alb()[1]);
        assert(tag_nam()[1] != tag_gen()[1]);
    }
    assert(tag_art() != tag_alb() && tag_art() != tag_gen()) by {
        assert(tag_art()[1] != tag_alb()[1]);
        assert(tag_art()[1] != tag_gen()[1]);
    }
    assert(tag_alb() != tag_gen()) by {
        assert(tag_alb()[1] != tag_gen()[1]);
    }
}

} // verus!

verus! {

/// The duration an `mdhd` atom gives is the whole number of milliseconds in
/// its duration at its timescale: for version 1 the 64-bit duration 24 bytes
/// into the content and the timescale at 20, for version 0 the 32-bit
/// duration at 16 and the timescale at 12.
pub proof fn lemma_mdhd_duration_in_ms(d: Seq<u8>, i: int, size: int)
    requires
        0 <= i,
        i + size <= d.len(),
        i + 8 + 4 <= i + size,
    ensures
        d[i + 8] == 1 && i + 8 + 32 <= i + size && be32(d, i + 28) > 0 && be64(d, i + 32) * 1000
            <= u64::MAX ==> (mdhd_duration(d, i, size) matches Some(x) && whole_millis(
            x as int,
            be64(d, i + 32),
            be32(d, i + 28),
        )),
        d[i + 8] != 1 && i + 8 + 20 <= i + size && be32(d, i + 20) > 0 ==> (mdhd_duration(d, i, size)
            matches Some(x) && whole_millis(x as int, be32(d, i + 24), be32(d, i + 20))),
{
    assert(be64(d, i + 32) >= 0 && be32(d, i + 24) >= 0 && be32(d, i + 24) <= 0xFFFF_FFFF);
    if d[i + 8] == 1 && i + 8 + 32 <= i + size && be32(d, i + 28) > 0 {
        lemma_whole_millis(be64(d, i + 32), be32(d, i + 28));
    }
    if d[i + 8] != 1 && i + 8 + 20 <= i + size && be32(d, i + 20) > 0 {
        lemma_whole_millis(be32(d, i + 24), be32(d, i + 20));
    }
}

} // verus!

verus! {

proof fn lemma_be32_sub(d: Seq<u8>, i: int, n: int, k: int)
    requires
        0 <= i,
        i + n <= d.len(),
        0 <= k,
        k + 4 <= n,
    ensures
        be32(d, i + k) == be32(d.subrange(i, i + n), k),
{
}

proof fn lemma_apply_atom_same(m: SongMeta, d1: Seq<u8>, i1: int, d2: Seq<u8>, i2: int, size: int)
    requires
        8 <= size,
        0 <= i1,
        i1 + size <= d1.len(),
        0 <= i2,
        i2 + size <= d2.len(),
        d1.subrange(i1, i1 + size) == d2.subrange(i2, i2 + size),
    ensures
        apply_atom(m, d1, i1, size) == apply_atom(m, d2, i2, size),
{
    let s1 = d1.subrange(i1, i1 + size);
    let s2 = d2.subrange(i2, i2 + size);
    assert forall|k: int| 0 <= k < size implies d1[i1 + k] == #[trigger] d2[i2 + k] by {
        assert(s1[k] == d1[i1 + k]);
        assert(s2[k] == d2[i2 + k]);
        assert(s1[k] == s2[k]);
    }
    assert(d1.subrange(i1 + 8, i1 + size) =~= s1.subrange(8, size));
    assert(d2.subrange(i2 + 8, i2 + size) =~= s2.subrange(8, size));
    assert(d1.subrange(i1 + 4, i1 + 8) =~= s1.subrange(4, 8));
    assert(d2.subrange(i2 + 4, i2 + 8) =~= s2.subrange(4, 8));
    let cs1 = i1 + 8;
    let cs2 = i2 + 8;
    if cs1 + 4 <= i1 + size {
        assert(d1[cs1] == d2[cs2]) by {
            assert(s1[8] == s2[8]);
        }
        if cs1 + 32 <= i1 + size {
            lemma_be32_sub(d1, i1, size, 28);
            lemma_be32_sub(d2, i2, size, 28);
            lemma_be32_sub(d1, i1, size, 32);
            lemma_be32_sub(d2, i2, size, 32);
            lemma_be32_sub(d1, i1, size, 36);
            lemma_be32_sub(d2, i2, size, 36);
        }
        if cs1 + 20 <= i1 + size {
            lemma_be32_sub(d1, i1, size, 20);
            lemma_be32_sub(d2, i2, size, 20);
            lemma_be32_sub(d1, i1, size, 24);
            lemma_be32_sub(d2, i2, size, 24);
        }
    }
    assert(mdhd_duration(d1, i1, size) == mdhd_duration(d2, i2, size));
}

proof fn lemma_atoms_shift(a: Seq<u8>, t: Seq<u8>, j: int, meta: SongMeta)
    requires
        0 <= j,
    ensures
        m4a_atoms_from(a + t, a.len() + j, meta) == m4a_atoms_from(t, j, meta),
    decreases t.len() - j,
{
    let d = a + t;
    let i = a.len() + j;
    if !(i + 8 > d.len()) {
        assert(be32(d, i) == be32(t, j));
        let size = be32(t, j);
        if !(size < 8 || i + size > d.len()) {
            assert(d.subrange(i, i + size) =~= t.subrange(j, j + size));
            lemma_apply_atom_same(meta, d, i, t, j, size);
            lemma_atoms_shift(a, t, j + size, apply_atom(meta, t, j, size));
        }
    }
}

/// The atoms are read in turn: a whole atom followed by further bytes gives
/// what those bytes give, read on from what the first atom gave.
pub proof fn lemma_atoms_in_turn(a: Seq<u8>, t: Seq<u8>, meta: SongMeta)
    requires
        a.len() >= 8,
        be32(a, 0) == a.len(),
    ensures
        m4a_atoms_from(a + t, 0, meta) == m4a_atoms_from(t, 0, m4a_atoms_from(a, 0, meta)),
{
    let d = a + t;
    let size = a.len() as int;
    assert(be32(d, 0) == size);
    assert(d.subrange(0, size) =~= a.subrange(0, size));
    lemma_apply_atom_same(meta, d, 0, a, 0, size);
    let next = apply_atom(meta, a, 0, size);
    assert(m4a_atoms_from(a, 0, meta) == m4a_atoms_from(a, size, next));
    assert(m4a_atoms_from(d, 0, meta) == m4a_atoms_from(d, size, next));
    lemma_atoms_shift(a, t, 0, next);
}

} // verus!
