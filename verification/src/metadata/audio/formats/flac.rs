//! Tags of a FLAC file.
use vstd::prelude::*;

use crate::error::MetaError;
use crate::helpers::flac::{parse_vorbis_comments, vorbis_comments};
use crate::metadata::audio::{empty_song, SongMeta, SongMetadata};
use crate::metadata::audio::formats::duration::flac::block_len;
use crate::reader::{
    ahead, can_read_exact, exact_bytes, pos_after_exact, read_count, valid_target, FileReader,
};

verus! {

/// Scanning the metadata blocks from `pos`: every VORBIS_COMMENT block (type
/// 4) is applied to the metadata, other blocks are skipped; the scan ends
/// after the block flagged as last or at a cut-short block header.
pub open spec fn flac_tags_from(data: Seq<u8>, pos: int, meta: SongMeta) -> (
    Result<SongMeta, MetaError>,
    int,
)
    decreases ahead(data.len() as int, pos),
{
    let len = data.len() as int;
    if read_count(len, pos, 4) != 4 {
        (Ok(meta), pos + read_count(len, pos, 4))
    } else {
        let h = data.subrange(pos, pos + 4);
        let p = pos + 4;
        let blen = block_len(h);
        if h[0] % 128 == 4 {
            if !can_read_exact(len, p, blen) {
                (Err(MetaError::UnexpectedEof), pos_after_exact(len, p, blen))
            } else {
                let next = vorbis_comments(meta, exact_bytes(data, p, blen));
                if h[0] >= 128 {
                    (Ok(next), p + blen)
                } else {
                    flac_tags_from(data, p + blen, next)
                }
            }
        } else if !valid_target(p + blen) {
            (Err(MetaError::InvalidSeek), p)
        } else if h[0] >= 128 {
            (Ok(meta), p + blen)
        } else {
            flac_tags_from(data, p + blen, meta)
        }
    }
}

/// The tags of a FLAC file read from `pos`: the 4-byte signature, then the
/// metadata blocks.
pub open spec fn flac_tags(data: Seq<u8>, pos: int) -> (Result<SongMeta, MetaError>, int) {
    let len = data.len() as int;
    if !can_read_exact(len, pos, 4) {
        (Err(MetaError::UnexpectedEof), pos_after_exact(len, pos, 4))
    } else {
        flac_tags_from(data, pos + 4, empty_song())
    }
}

pub open spec fn song_result(r: Result<SongMetadata, MetaError>) -> Result<SongMeta, MetaError> {
    match r {
        Ok(m) => Ok(m@),
        Err(e) => Err(e),
    }
}

/// Reads the tags of a FLAC file, from its signature at the current position.
pub fn parse(f: &mut FileReader) -> (r: Result<SongMetadata, MetaError>)
    ensures
        final(f)@.0 == old(f)@.0,
        (song_result(r), final(f)@.1) == flac_tags(old(f)@.0, old(f)@.1),
{
    f.read_exact(4)?;
    let mut meta = SongMetadata::default();
    loop
        invariant
            f@.0 == old(f)@.0,
            flac_tags(old(f)@.0, old(f)@.1) == flac_tags_from(f@.0, f@.1, meta@),
        decreases ahead(f@.0.len() as int, f@.1),
    {
        let ghost pos = f@.1;
        let h = f.read(4);
        if h.len() != 4 {
            return Ok(meta);
        }
        assert(h@ == f@.0.subrange(pos, pos + 4));
        let blen = h[1] as u32 * 0x1_0000 + h[2] as u32 * 0x100 + h[3] as u32;
        assert(blen == block_len(h@));
        if h[0] % 128 == 4 {
            let data = f.read_exact(blen as usize)?;
            parse_vorbis_comments(&mut meta, &data);
        } else {
            f.seek_current(blen as i64)?;
        }
        if h[0] >= 128 {
            return Ok(meta);
        }
    }
}

} // verus!
