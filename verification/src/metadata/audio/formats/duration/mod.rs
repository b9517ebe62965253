pub mod flac;
pub mod m4a;
pub mod mp3;
pub mod ogg;
pub mod wav;
pub mod wma;
