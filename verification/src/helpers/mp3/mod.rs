pub mod id3v1;
pub mod id3v2;
