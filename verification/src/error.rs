use vstd::prelude::*;

verus! {

/// Why reading metadata failed.
#[derive(Debug, Clone, Copy, PartialEq, Eq, Structural)]
pub enum MetaError {
    /// A read needed more bytes than the file holds from the current position.
    UnexpectedEof,
    /// A seek would move the position before the start of the file, or past
    /// the largest position a file offset can hold.
    InvalidSeek,
    /// The bytes read as text are not valid UTF-8.
    InvalidUtf8,
    /// The file does not start with the ASF header object.
    NotAsf,
    /// An Ogg page does not start with the capture pattern `OggS`.
    BadOggPage,
    /// The GIF signature is missing.
    NotGif,
    /// The PNG signature is missing.
    NotPng,
    /// The JPEG start-of-image marker is missing.
    NotJpeg,
    /// The `ftyp` box names no AVIF brand.
    NotAvif,
    /// An ISO base media file whose brand names neither AVIF nor HEIF.
    UnknownIsoBmffBrand,
    /// The FLAC STREAMINFO block is shorter than 18 bytes.
    StreamInfoTooSmall,
    /// A sample rate of zero.
    InvalidSampleRate,
    /// No FLAC STREAMINFO block was found.
    NoStreamInfo,
    /// A version 1 `mvhd` box runs past the end of the file.
    MvhdTruncated,
    /// A version 0 `mvhd` box runs past the end of the file.
    MvhdTruncatedV0,
    /// A timescale of zero.
    InvalidTimescale,
    /// No `moov`/`mvhd` box holds a duration.
    NoM4aDuration,
    /// Neither frames nor the file size give an MP3 duration.
    NoMp3Duration,
    /// A page does not start with `OggS` while computing an Ogg duration.
    NotOgg,
    /// No Vorbis identification header gives a sample rate.
    MissingSampleRate,
    /// The WAV file has no usable `fmt ` chunk.
    NoWavDuration,
    /// The ASF file has no File Properties object.
    NoFileProperties,
    /// An integer computed from the file's fields does not fit its type; the
    /// computation stops here instead of wrapping.
    Overflow,
    /// A field points past the end of the bytes it is read from; the
    /// computation stops here instead of reading out of bounds.
    OutOfBounds,
    /// A divisor read from the file is zero; the computation stops here
    /// instead of dividing.
    DivisionByZero,
    /// The objects of an ASF file lead back to one already visited, so that
    /// walking them never ends; the walk stops here instead.
    Endless,
}

} // verus!
