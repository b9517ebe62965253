//! Duration of an MP4 video.
use vstd::prelude::*;

use crate::bytes::{be32, be32_at, find_tag, first_tag, lemma_first_tag_fits, lemma_first_tag_is_first, tag_at};
use crate::error::MetaError;
use crate::reader::FileReader;
use crate::text::copy_range;

verus! {

/// `moov`
pub open spec fn tag_moov() -> Seq<u8> {
    seq![0x6Du8, 0x6F, 0x6F, 0x76]
}

/// `mvhd`
pub open spec fn tag_mvhd() -> Seq<u8> {
    seq![0x6Du8, 0x76, 0x68, 0x64]
}

/// The duration in milliseconds from the first `mvhd` after the first
/// `moov`: the big-endian timescale and duration 4 and 8 bytes into its
/// body.  None when either is missing, the body is cut short or the
/// timescale is zero.
pub open spec fn mp4_duration(d: Seq<u8>) -> Option<u64> {
    match first_tag(d, tag_moov()) {
        None => None,
        Some(p) => match first_tag(d.subrange(p, d.len() as int), tag_mvhd()) {
            None => None,
            Some(q) => {
                let s = p + q + 8;
                if d.len() > s + 12 && be32(d, s + 4) > 0 {
                    Some((be32(d, s + 8) * 1000 / be32(d, s + 4)) as u64)
                } else {
                    None
                }
            },
        },
    }
}

/// The duration in milliseconds that the `mvhd` box of the file gives.
pub fn mvhd_duration(buf: &[u8]) -> (r: Option<u64>)
    ensures
        r == mp4_duration(buf@),
{
    let moov: [u8; 4] = [0x6D, 0x6F, 0x6F, 0x76];
    let mvhd: [u8; 4] = [0x6D, 0x76, 0x68, 0x64];
    assert(moov@ =~= tag_moov());
    assert(mvhd@ =~= tag_mvhd());
    let pos = match find_tag(buf, &moov) {
        Some(p) => p,
        None => {
            return None;
        },
    };
    let rest = copy_range(buf, pos, buf.len());
    let rel = match find_tag(&rest, &mvhd) {
        Some(q) => q,
        None => {
            return None;
        },
    };
    if buf.len() - pos - rel <= 20 {
        return None;
    }
    let start = pos + rel + 8;
    let timescale = be32_at(buf, start + 4);
    let duration = be32_at(buf, start + 8);
    if timescale == 0 {
        return None;
    }
    Some((duration as u64 * 1000) / timescale as u64)
}

/// Computes the duration of an MP4 video in milliseconds; 0 when the file
/// gives none.
pub fn compute(f: &mut FileReader) -> (r: Result<u64, MetaError>)
    ensures
        final(f)@.0 == old(f)@.0,
        final(f)@.1 == old(f)@.0.len(),
        r == Ok::<u64, MetaError>(
            match mp4_duration(old(f)@.0) {
                Some(v) => v,
                None => 0,
            },
        ),
{
    f.seek_start(0)?;
    let buf = f.read_to_end();
    assert(buf@ =~= f@.0);
    match mvhd_duration(&buf) {
        Some(v) => Ok(v),
        None => Ok(0),
    }
}

} // verus!

verus! {

/// Where the body of the `mvhd` box found after the first `moov` starts.
pub open spec fn mvhd_body(d: Seq<u8>, s: int) -> bool {
    match first_tag(d, tag_moov()) {
        None => false,
        Some(p) => match first_tag(d.subrange(p, d.len() as int), tag_mvhd()) {
            None => false,
            Some(q) => s == p + q + 8,
        },
    }
}

/// With a timescale `ts` (ticks per second) and a duration `dur` (ticks) in
/// the `mvhd` box, the duration found is the whole number of milliseconds
/// in `dur` ticks: `x * ts <= dur * 1000 < (x + 1) * ts`.
pub proof fn lemma_mp4_duration_in_ms(d: Seq<u8>, s: int)
    requires
        mvhd_body(d, s),
        d.len() > s + 12,
        be32(d, s + 4) > 0,
    ensures
        mp4_duration(d) matches Some(x) && x * be32(d, s + 4) <= be32(d, s + 8) * 1000 < (x + 1)
            * be32(d, s + 4),
{
    let ts = be32(d, s + 4);
    let dur = be32(d, s + 8);
    let x = dur * 1000 / ts;
    assert(0 <= dur * 1000 <= 0xFFFF_FFFFu64 * 1000) by (nonlinear_arith)
        requires
            0 <= dur <= 0xFFFF_FFFF,
    ;
    assert(x * ts <= dur * 1000 < (x + 1) * ts) by (nonlinear_arith)
        requires
            ts > 0,
            dur >= 0,
            x == dur * 1000 / ts,
    ;
    assert(0 <= x <= dur * 1000) by (nonlinear_arith)
        requires
            ts > 0,
            dur >= 0,
            x == dur * 1000 / ts,
    ;
    assert(mp4_duration(d) == Some(x as u64));
}

} // verus!

verus! {

/// The box found is the first `mvhd` at or after the first `moov`: where
/// `moov` first stands at `p` and `mvhd` first stands at `m` from `p` on,
/// and the file runs past its timescale and duration, the duration is the
/// whole number of milliseconds in the duration at `m + 16` at the
/// timescale at `m + 12`; with a zero timescale there is none.
pub proof fn lemma_mp4_first_mvhd(d: Seq<u8>, p: int, m: int)
    requires
        0 <= p <= m,
        tag_at(d, p, tag_moov()),
        forall|j: int| 0 <= j < p ==> !tag_at(d, j, tag_moov()),
        tag_at(d, m, tag_mvhd()),
        forall|j: int| p <= j < m ==> !tag_at(d, j, tag_mvhd()),
        d.len() > m + 20,
    ensures
        mvhd_body(d, m + 8),
        be32(d, m + 12) > 0 ==> (mp4_duration(d) matches Some(x) && x * be32(d, m + 12) <= be32(
            d,
            m + 16,
        ) * 1000 < (x + 1) * be32(d, m + 12)),
        be32(d, m + 12) == 0 ==> mp4_duration(d) is None,
{
    lemma_first_tag_is_first(d, tag_moov(), 0, p);
    let r = d.subrange(p, d.len() as int);
    assert forall|j: int| 0 <= j < m - p implies !tag_at(r, j, tag_mvhd()) by {
        assert(r.subrange(j, j + 4) =~= d.subrange(p + j, p + j + 4));
        assert(!tag_at(d, p + j, tag_mvhd()));
    }
    assert(r.subrange(m - p, m - p + 4) =~= d.subrange(m, m + 4));
    lemma_first_tag_is_first(r, tag_mvhd(), 0, m - p);
    if be32(d, m + 12) > 0 {
        lemma_mp4_duration_in_ms(d, m + 8);
    }
}

} // verus!
