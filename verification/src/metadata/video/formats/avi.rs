//! Metadata of an AVI video.
use vstd::prelude::*;

use crate::error::MetaError;
use crate::metadata::video::{unknown_title, unknown_video, video_result, VideoMeta, VideoMetadata};
use crate::reader::FileReader;

use super::duration::avi::{avi_duration, avih_duration};

verus! {

/// An AVI video: titled `Unknown`, with the duration its `avih` header
/// gives.
pub open spec fn avi_video(d: Seq<u8>) -> VideoMeta {
    VideoMeta { title: Some(unknown_title()), duration_ms: avi_duration(d) }
}

/// Reads the metadata of an AVI video.
pub fn parse(f: &mut FileReader) -> (r: Result<VideoMetadata, MetaError>)
    ensures
        final(f)@.0 == old(f)@.0,
        final(f)@.1 == old(f)@.0.len(),
        video_result(r) == Ok::<VideoMeta, MetaError>(avi_video(old(f)@.0)),
{
    f.seek_start(0)?;
    let buf = f.read_to_end();
    assert(buf@ =~= f@.0);
    Ok(unknown_video(avih_duration(&buf)))
}

} // verus!
