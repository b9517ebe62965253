pub mod audio;
pub mod images;
pub mod video;

pub use audio::SongMetadata;
pub use images::ImageMetadata;
pub use video::VideoMetadata;
