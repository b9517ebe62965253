//! Metadata extraction for audio, video, bitmap and vector image formats.
//!
//! Every parser works on a [`reader::FileReader`], an in-memory model of a
//! file handle: the bytes of the file and the current position.  The
//! behaviour of each parser is stated over these bytes and positions.
use vstd::prelude::*;

pub mod bytes;
pub mod error;
pub mod reader;
pub mod text;
pub mod numbers;
pub mod walk;
pub mod helpers;
pub mod metadata;

pub use metadata::{ImageMetadata, SongMetadata, VideoMetadata};

verus! {

} // verus!
