pub mod bmp;
pub mod gif;
pub mod ico;
pub mod jpg;
pub mod png;
pub mod tiff;
pub mod webp;
pub mod heif;
pub mod avif;
