pub mod avi;
pub mod mkv;
pub mod mp4;
