//! Metadata of a Matroska video.
use vstd::prelude::*;

use crate::bytes::{find_tag, first_tag, le64, le64_at};
use crate::error::MetaError;
use crate::metadata::video::{unknown_title, unknown_video, VideoMeta, VideoMetadata};
use crate::reader::FileReader;

use super::duration::mkv::tag_duration;

verus! {

/// A Matroska video: titled `Unknown`, and the bit pattern of the
/// floating-point Duration that follows the first `44 89`, when at least
/// eight bytes follow it.  With only six or seven bytes after the id the
/// Duration is cut short: `OutOfBounds`.
pub open spec fn mkv_video(d: Seq<u8>) -> Result<(VideoMeta, Option<u64>), MetaError> {
    let m = VideoMeta { title: Some(unknown_title()), duration_ms: None };
    match first_tag(d, tag_duration()) {
        None => Ok((m, None)),
        Some(p) => if d.len() < p + 8 {
            Ok((m, None))
        } else if d.len() < p + 10 {
            Err(MetaError::OutOfBounds)
        } else {
            Ok((m, Some(le64(d, p + 2) as u64)))
        },
    }
}

/// The value of a read Matroska video.
pub open spec fn mkv_result(r: Result<(VideoMetadata, Option<u64>), MetaError>) -> Result<
    (VideoMeta, Option<u64>),
    MetaError,
> {
    match r {
        Ok((m, b)) => Ok((m@, b)),
        Err(e) => Err(e),
    }
}

/// Reads the metadata of a Matroska video: the title, and the bit pattern
/// of the floating-point Duration in seconds, from which the caller
/// computes the duration in milliseconds.
pub fn parse(f: &mut FileReader) -> (r: Result<(VideoMetadata, Option<u64>), MetaError>)
    ensures
        final(f)@.0 == old(f)@.0,
        final(f)@.1 == old(f)@.0.len(),
        mkv_result(r) == mkv_video(old(f)@.0),
{
    f.seek_start(0)?;
    let buf = f.read_to_end();
    assert(buf@ =~= f@.0);
    let tag: [u8; 2] = [0x44, 0x89];
    assert(tag@ =~= tag_duration());
    let m = unknown_video(None);
    match find_tag(&buf, &tag) {
        None => Ok((m, None)),
        Some(p) => {
            if buf.len() - p < 8 {
                Ok((m, None))
            } else if buf.len() - p < 10 {
                Err(MetaError::OutOfBounds)
            } else {
                Ok((m, Some(le64_at(&buf, p + 2))))
            }
        },
    }
}

} // verus!
