//! Choosing the video format from the first bytes of a file.
use vstd::prelude::*;

use crate::bytes::{has_tag, tag_at};
use crate::error::MetaError;
use crate::metadata::video::{empty_video, VideoMeta, VideoMetadata};
use crate::reader::FileReader;

pub mod avi;
pub mod duration;
pub mod mkv;
pub mod mp4;

verus! {

/// `00 00 00 18`: an MP4 `ftyp` box of 24 bytes.
pub open spec fn magic_mp4_24() -> Seq<u8> {
    seq![0x00u8, 0x00, 0x00, 0x18]
}

/// `00 00 00 20`: an MP4 `ftyp` box of 32 bytes.
pub open spec fn magic_mp4_32() -> Seq<u8> {
    seq![0x00u8, 0x00, 0x00, 0x20]
}

/// `1A 45 DF A3`: the EBML header of a Matroska file.
pub open spec fn magic_mkv() -> Seq<u8> {
    seq![0x1Au8, 0x45, 0xDF, 0xA3]
}

/// `RIFF`
pub open spec fn magic_riff() -> Seq<u8> {
    seq![0x52u8, 0x49, 0x46, 0x46]
}

/// `AVI `
pub open spec fn magic_avi() -> Seq<u8> {
    seq![0x41u8, 0x56, 0x49, 0x20]
}

/// A computed duration, 0 when none was found.
pub open spec fn or_zero(o: Option<u64>) -> u64 {
    match o {
        Some(v) => v,
        None => 0,
    }
}

/// Whether the first bytes name a video format: MP4, Matroska or AVI.
pub open spec fn known_video(hdr: Seq<u8>) -> bool {
    ||| tag_at(hdr, 0, magic_mp4_24())
    ||| tag_at(hdr, 0, magic_mp4_32())
    ||| tag_at(hdr, 0, magic_mkv())
    ||| tag_at(hdr, 0, magic_riff()) && tag_at(hdr, 8, magic_avi())
}

/// Reading a video whose first bytes are `hdr`: the format the first bytes
/// name is read, then its duration computed.  For a Matroska file with a
/// Duration, the second value is the bit pattern of that floating-point
/// number of seconds, and the duration is left for the caller to compute;
/// without one the duration is 0.  Bytes of no known format give the empty
/// metadata.
pub open spec fn video_detect(hdr: Seq<u8>, d: Seq<u8>) -> Result<(VideoMeta, Option<u64>), MetaError> {
    if tag_at(hdr, 0, magic_mp4_24()) || tag_at(hdr, 0, magic_mp4_32()) {
        Ok(
            (
                VideoMeta {
                    duration_ms: Some(or_zero(duration::mp4::mp4_duration(d))),
                    ..mp4::mp4_video(d)
                },
                None,
            ),
        )
    } else if tag_at(hdr, 0, magic_mkv()) {
        match mkv::mkv_video(d) {
            Err(e) => Err(e),
            Ok((m, _)) => match duration::mkv::mkv_duration_bits(d) {
                None => Ok((VideoMeta { duration_ms: Some(0), ..m }, None)),
                Some(b) => Ok((m, Some(b))),
            },
        }
    } else if tag_at(hdr, 0, magic_riff()) && tag_at(hdr, 8, magic_avi()) {
        Ok(
            (
                VideoMeta {
                    duration_ms: Some(or_zero(duration::avi::avi_duration(d))),
                    ..avi::avi_video(d)
                },
                None,
            ),
        )
    } else {
        Ok((empty_video(), None))
    }
}

/// Reads a video whose first bytes are `header` from `f`.  The header must
/// hold the bytes its format test looks at: four, and twelve when it starts
/// with `RIFF`.  Besides the metadata comes, for a Matroska file with a
/// Duration, the bit pattern of that floating-point number of seconds, from
/// which the caller computes the duration in milliseconds.
pub fn detect_and_parse(header: &[u8], f: &mut FileReader) -> (r: Result<
    (VideoMetadata, Option<u64>),
    MetaError,
>)
    requires
        header.len() >= 4,
        tag_at(header@, 0, magic_riff()) ==> header.len() >= 12,
    ensures
        final(f)@.0 == old(f)@.0,
        final(f)@.1 == if known_video(header@) {
            old(f)@.0.len() as int
        } else {
            old(f)@.1
        },
        mkv::mkv_result(r) == video_detect(header@, old(f)@.0),
{
    let mp4_24: [u8; 4] = [0x00, 0x00, 0x00, 0x18];
    let mp4_32: [u8; 4] = [0x00, 0x00, 0x00, 0x20];
    let mkv_tag: [u8; 4] = [0x1A, 0x45, 0xDF, 0xA3];
    let riff: [u8; 4] = [0x52, 0x49, 0x46, 0x46];
    let avi_tag: [u8; 4] = [0x41, 0x56, 0x49, 0x20];
    assert(mp4_24@ =~= magic_mp4_24());
    assert(mp4_32@ =~= magic_mp4_32());
    assert(mkv_tag@ =~= magic_mkv());
    assert(riff@ =~= magic_riff());
    assert(avi_tag@ =~= magic_avi());
    if has_tag(header, 0, &mp4_24) || has_tag(header, 0, &mp4_32) {
        let mut m = mp4::parse(f)?;
        let d = duration::mp4::compute(f)?;
        m.duration_ms = Some(d);
        Ok((m, None))
    } else if has_tag(header, 0, &mkv_tag) {
        let (mut m, _) = mkv::parse(f)?;
        match duration::mkv::compute(f)? {
            None => {
                m.duration_ms = Some(0);
                Ok((m, None))
            },
            Some(bits) => Ok((m, Some(bits))),
        }
    } else if has_tag(header, 0, &riff) && has_tag(header, 8, &avi_tag) {
        let mut m = avi::parse(f)?;
        let d = duration::avi::compute(f)?;
        m.duration_ms = Some(d);
        Ok((m, None))
    } else {
        Ok((VideoMetadata::default(), None))
    }
}

} // verus!
