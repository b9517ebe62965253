//! Metadata of an MP4 video.
use vstd::prelude::*;

use crate::error::MetaError;
use crate::metadata::video::{unknown_title, unknown_video, video_result, VideoMeta, VideoMetadata};
use crate::reader::FileReader;

use super::duration::mp4::{mp4_duration, mvhd_duration};

verus! {

/// An MP4 video: titled `Unknown`, with the duration its `mvhd` box gives.
pub open spec fn mp4_video(d: Seq<u8>) -> VideoMeta {
    VideoMeta { title: Some(unknown_title()), duration_ms: mp4_duration(d) }
}

/// Reads the metadata of an MP4 video.
pub fn parse(f: &mut FileReader) -> (r: Result<VideoMetadata, MetaError>)
    ensures
        final(f)@.0 == old(f)@.0,
        final(f)@.1 == old(f)@.0.len(),
        video_result(r) == Ok::<VideoMeta, MetaError>(mp4_video(old(f)@.0)),
{
    f.seek_start(0)?;
    let buf = f.read_to_end();
    assert(buf@ =~= f@.0);
    Ok(unknown_video(mvhd_duration(&buf)))
}

} // verus!
