pub mod flac;
pub mod m4a;
pub mod mp3;

pub use flac::parse_vorbis_comments;
pub use m4a::extract_m4a_text;
pub use mp3::id3v1::trim_id3v1_text;
pub use mp3::id3v2::{decode_text_frame, synchsafe_to_u32};
pub mod wma;

pub use wma::{read_u16_le, read_u32_le, read_u64_le, read_u8};
