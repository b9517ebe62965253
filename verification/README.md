# remeta

Metadata extraction for audio (FLAC, WAV, Ogg Vorbis, MP3 with ID3v1/ID3v2,
M4A, WMA), video (MP4, Matroska, AVI) and image files (JPEG, PNG, GIF, BMP,
TIFF, ICO, WebP, HEIF, AVIF, SVG, PDF, EPS): tags, durations, sizes, colour
depths and formats.

The library in `src/` is written in Verus. Every parser works on a
`reader::FileReader`, which holds the bytes of a file and a position and
behaves as a file handle does; each parser's contract states its result, and
where the reader is left, as a function of those bytes.

- `src/reader.rs`, `src/bytes.rs`, `src/text.rs`, `src/numbers.rs`: the
  reader, byte and text helpers, and integer parsing.
- `src/walk.rs`: walks from position to position through a file, and the
  proof that a walk still running after as many steps as there are positions
  never ends.
- `src/helpers/`: tag field decoding shared by the formats.
- `src/metadata/audio`, `src/metadata/video`, `src/metadata/images`: the
  formats, each choosing its parser from the first bytes of the file.

`app/` opens files, hands their bytes to the library, and finishes the two
values that need floating-point arithmetic: Matroska durations and PDF page
sizes.
