//! Video metadata.
use vstd::prelude::*;

use crate::error::MetaError;
use crate::metadata::audio::opt_chars;
use crate::text::string_from_chars;

pub mod formats;

verus! {

/// Title and duration of a video.
#[derive(Debug)]
pub struct VideoMetadata {
    pub title: Option<String>,
    pub duration_ms: Option<u64>,
}

/// The value of a [`VideoMetadata`]: the title as its characters.
pub struct VideoMeta {
    pub title: Option<Seq<char>>,
    pub duration_ms: Option<u64>,
}

impl View for VideoMetadata {
    type V = VideoMeta;

    open spec fn view(&self) -> VideoMeta {
        VideoMeta { title: opt_chars(self.title), duration_ms: self.duration_ms }
    }
}

/// The metadata with no field set.
pub open spec fn empty_video() -> VideoMeta {
    VideoMeta { title: None, duration_ms: None }
}

/// `Unknown`: the title the container formats are given.
pub open spec fn unknown_title() -> Seq<char> {
    seq!['U', 'n', 'k', 'n', 'o', 'w', 'n']
}

impl Default for VideoMetadata {
    fn default() -> (r: VideoMetadata)
        ensures
            r@ == empty_video(),
    {
        VideoMetadata { title: None, duration_ms: None }
    }
}

/// A video titled `Unknown` with the given duration.
pub fn unknown_video(duration_ms: Option<u64>) -> (r: VideoMetadata)
    ensures
        r@ == (VideoMeta { title: Some(unknown_title()), duration_ms }),
{
    let name = ['U', 'n', 'k', 'n', 'o', 'w', 'n'];
    assert(name@ =~= unknown_title());
    VideoMetadata { title: Some(string_from_chars(&name)), duration_ms }
}

/// The value of a read video.
pub open spec fn video_result(r: Result<VideoMetadata, MetaError>) -> Result<VideoMeta, MetaError> {
    match r {
        Ok(m) => Ok(m@),
        Err(e) => Err(e),
    }
}

} // verus!
