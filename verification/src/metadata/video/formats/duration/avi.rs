//! Duration of an AVI video.
use vstd::prelude::*;

use crate::bytes::{find_tag, first_tag, le32, le32_at};
use crate::error::MetaError;
use crate::numbers::whole_millis;
use crate::reader::FileReader;

verus! {

/// `avih`
pub open spec fn tag_avih() -> Seq<u8> {
    seq![0x61u8, 0x76, 0x69, 0x68]
}

/// The duration in milliseconds from the first `avih` header: the
/// little-endian microseconds per frame 8 bytes after the tag times the
/// frame count 16 bytes after it, over 1000.  None when the header is
/// missing or cut short or the frame time is zero.
pub open spec fn avi_duration(d: Seq<u8>) -> Option<u64> {
    match first_tag(d, tag_avih()) {
        None => None,
        Some(p) => if d.len() >= p + 24 && le32(d, p + 8) > 0 {
            Some((le32(d, p + 16) * le32(d, p + 8) / 1000) as u64)
        } else {
            None
        },
    }
}

/// The duration in milliseconds that the `avih` header of the file gives.
pub fn avih_duration(buf: &[u8]) -> (r: Option<u64>)
    ensures
        r == avi_duration(buf@),
{
    let avih: [u8; 4] = [0x61, 0x76, 0x69, 0x68];
    assert(avih@ =~= tag_avih());
    let pos = match find_tag(buf, &avih) {
        Some(p) => p,
        None => {
            return None;
        },
    };
    if buf.len() - pos < 24 {
        return None;
    }
    let microsec_per_frame = le32_at(buf, pos + 8);
    let total_frames = le32_at(buf, pos + 16);
    if microsec_per_frame == 0 {
        return None;
    }
    assert(total_frames as u64 * microsec_per_frame as u64 <= 0xFFFF_FFFFu64 * 0xFFFF_FFFFu64)
        by (nonlinear_arith);
    Some((total_frames as u64 * microsec_per_frame as u64) / 1000)
}

/// Computes the duration of an AVI video in milliseconds; 0 when the file
/// gives none.
pub fn compute(f: &mut FileReader) -> (r: Result<u64, MetaError>)
    ensures
        final(f)@.0 == old(f)@.0,
        final(f)@.1 == old(f)@.0.len(),
        r == Ok::<u64, MetaError>(
            match avi_duration(old(f)@.0) {
                Some(v) => v,
                None => 0,
            },
        ),
{
    f.seek_start(0)?;
    let buf = f.read_to_end();
    assert(buf@ =~= f@.0);
    match avih_duration(&buf) {
        Some(v) => Ok(v),
        None => Ok(0),
    }
}

} // verus!

verus! {

/// With `avih` first at `p`, the duration is the whole number of
/// milliseconds in the frame count times the microseconds per frame.
pub proof fn lemma_avi_duration_in_ms(d: Seq<u8>, p: int)
    requires
        first_tag(d, tag_avih()) == Some(p),
        d.len() >= p + 24,
        le32(d, p + 8) > 0,
    ensures
        avi_duration(d) matches Some(x) && whole_millis(
            x as int,
            le32(d, p + 16) * le32(d, p + 8),
            1_000_000,
        ),
{
    let us = le32(d, p + 8);
    let frames = le32(d, p + 16);
    assert(0 <= us <= 0xFFFF_FFFF && 0 <= frames <= 0xFFFF_FFFF);
    let t = frames * us;
    assert(0 <= t <= 0xFFFF_FFFF * 0xFFFF_FFFF) by (nonlinear_arith)
        requires
            0 <= us <= 0xFFFF_FFFF,
            0 <= frames <= 0xFFFF_FFFF,
            t == frames * us,
    ;
    let x = t / 1000;
    assert(x * 1_000_000 <= t * 1000 < (x + 1) * 1_000_000 && 0 <= x <= t) by (nonlinear_arith)
        requires
            t >= 0,
            x == t / 1000,
    ;
}

} // verus!
