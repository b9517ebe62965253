//! Song metadata.
use vstd::prelude::*;

verus! {

/// The view of an optional string: its characters, if present.
pub open spec fn opt_chars(o: Option<String>) -> Option<Seq<char>> {
    match o {
        Some(s) => Some(s@),
        None => None,
    }
}

/// Tags and duration of a song.
#[derive(Debug)]
pub struct SongMetadata {
    pub artist: Option<String>,
    pub title: Option<String>,
    pub album: Option<String>,
    pub genre: Option<String>,
    pub duration_ms: Option<u64>,
}

/// The value of a [`SongMetadata`]: each text as its characters.
pub struct SongMeta {
    pub artist: Option<Seq<char>>,
    pub title: Option<Seq<char>>,
    pub album: Option<Seq<char>>,
    pub genre: Option<Seq<char>>,
    pub duration_ms: Option<u64>,
}

/// The metadata with no field set.
pub open spec fn empty_song() -> SongMeta {
    SongMeta { artist: None, title: None, album: None, genre: None, duration_ms: None }
}

impl View for SongMetadata {
    type V = SongMeta;

    open spec fn view(&self) -> SongMeta {
        SongMeta {
            artist: opt_chars(self.artist),
            title: opt_chars(self.title),
            album: opt_chars(self.album),
            genre: opt_chars(self.genre),
            duration_ms: self.duration_ms,
        }
    }
}

impl Default for SongMetadata {
    fn default() -> (r: SongMetadata)
        ensures
            r@ == empty_song(),
    {
        SongMetadata { artist: None, title: None, album: None, genre: None, duration_ms: None }
    }
}

} // verus!

pub mod formats;
