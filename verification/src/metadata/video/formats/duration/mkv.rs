//! Duration of a Matroska video.
use vstd::prelude::*;

use crate::bytes::{find_tag, first_tag, le64, le64_at};
use crate::error::MetaError;
use crate::reader::FileReader;

verus! {

/// `44 89`: the id of the Duration element.
pub open spec fn tag_duration() -> Seq<u8> {
    seq![0x44u8, 0x89]
}

/// The 64-bit pattern of the floating-point Duration that follows the first
/// `44 89` in the file, stored little-endian; none when the id is missing or
/// fewer than eight bytes follow it.
pub open spec fn mkv_duration_bits(d: Seq<u8>) -> Option<u64> {
    match first_tag(d, tag_duration()) {
        None => None,
        Some(p) => if d.len() >= p + 10 {
            Some(le64(d, p + 2) as u64)
        } else {
            None
        },
    }
}

/// Finds the Duration of a Matroska video: the bit pattern of the
/// floating-point number of seconds, which times 1000 is the duration in
/// milliseconds; none for a duration of 0.
pub fn compute(f: &mut FileReader) -> (r: Result<Option<u64>, MetaError>)
    ensures
        final(f)@.0 == old(f)@.0,
        final(f)@.1 == old(f)@.0.len(),
        r == Ok::<Option<u64>, MetaError>(mkv_duration_bits(old(f)@.0)),
{
    f.seek_start(0)?;
    let buf = f.read_to_end();
    assert(buf@ =~= f@.0);
    let tag: [u8; 2] = [0x44, 0x89];
    assert(tag@ =~= tag_duration());
    match find_tag(&buf, &tag) {
        Some(p) => {
            if buf.len() - p < 10 {
                return Ok(None);
            }
            Ok(Some(le64_at(&buf, p + 2)))
        },
        None => Ok(None),
    }
}

} // verus!

verus! {

/// With the Duration id first at `p` and eight bytes after it, those bytes,
/// read little-endian, are the bit pattern of the duration.
pub proof fn lemma_mkv_duration_bytes(d: Seq<u8>, p: int)
    requires
        first_tag(d, tag_duration()) == Some(p),
        d.len() >= p + 10,
    ensures
        mkv_duration_bits(d) == Some(
            (d[p + 2] + d[p + 3] * 0x100 + d[p + 4] * 0x1_0000 + d[p + 5] * 0x100_0000 + (d[p + 6]
                + d[p + 7] * 0x100 + d[p + 8] * 0x1_0000 + d[p + 9] * 0x100_0000) * 0x1_0000_0000) as u64,
        ),
{
}

} // verus!
