//! Tags of an Ogg Vorbis file.
use vstd::prelude::*;

use crate::bytes::{byte_sum, has_tag, sum_bytes, tag_at};
use crate::error::MetaError;
use crate::helpers::flac::{parse_vorbis_comments, vorbis_comments};
use crate::metadata::audio::formats::flac::song_result;
use crate::metadata::audio::{empty_song, SongMeta, SongMetadata};
use crate::reader::{
    ahead, can_read_exact, exact_bytes, pos_after_exact, read_count, valid_target, FileReader,
};
use crate::text::copy_range;

verus! {

/// `OggS`
pub open spec fn tag_oggs() -> Seq<u8> {
    seq![0x4fu8, 0x67, 0x67, 0x53]
}

/// `vorbis`
pub open spec fn tag_vorbis() -> Seq<u8> {
    seq![0x76u8, 0x6f, 0x72, 0x62, 0x69, 0x73]
}

/// Whether a packet is a Vorbis comment header: type 3 followed by `vorbis`
/// and at least one more byte.
pub open spec fn is_comment_packet(p: Seq<u8>) -> bool {
    p.len() > 7 && p[0] == 3 && tag_at(p, 1, tag_vorbis())
}

/// Reading Ogg pages from `pos` until one carries the Vorbis comment header,
/// whose comments are then read.  A page is `OggS`, 23 more header bytes of
/// which the last counts the lacing values, the lacing values, and a packet
/// of their sum in bytes.
pub open spec fn ogg_tags_from(data: Seq<u8>, pos: int) -> (Result<SongMeta, MetaError>, int)
    decreases ahead(data.len() as int, pos),
{
    let len = data.len() as int;
    if read_count(len, pos, 4) != 4 {
        (Ok(empty_song()), pos + read_count(len, pos, 4))
    } else if !tag_at(data, pos, tag_oggs()) {
        (Err(MetaError::BadOggPage), pos + 4)
    } else if !can_read_exact(len, pos + 4, 23) {
        (Err(MetaError::UnexpectedEof), pos_after_exact(len, pos + 4, 23))
    } else {
        let segs = data[pos + 26] as int;
        let q = pos + 27;
        if !can_read_exact(len, q, segs) {
            (Err(MetaError::UnexpectedEof), pos_after_exact(len, q, segs))
        } else {
            let size = byte_sum(exact_bytes(data, q, segs)) as int;
            let r = q + segs;
            if !can_read_exact(len, r, size) {
                (Err(MetaError::UnexpectedEof), pos_after_exact(len, r, size))
            } else {
                let packet = exact_bytes(data, r, size);
                if is_comment_packet(packet) {
                    (
                        Ok(vorbis_comments(empty_song(), packet.subrange(7, packet.len() as int))),
                        r + size,
                    )
                } else {
                    ogg_tags_from(data, r + size)
                }
            }
        }
    }
}

/// The tags of an Ogg Vorbis file: its first four bytes are read from `pos`,
/// then the pages from the start of the file.
pub open spec fn ogg_tags(data: Seq<u8>, pos: int) -> (Result<SongMeta, MetaError>, int) {
    let len = data.len() as int;
    if !can_read_exact(len, pos, 4) {
        (Err(MetaError::UnexpectedEof), pos_after_exact(len, pos, 4))
    } else {
        ogg_tags_from(data, 0)
    }
}

/// Reads the tags of an Ogg Vorbis file.
pub fn parse(f: &mut FileReader) -> (r: Result<SongMetadata, MetaError>)
    ensures
        final(f)@.0 == old(f)@.0,
        (song_result(r), final(f)@.1) == ogg_tags(old(f)@.0, old(f)@.1),
{
    f.read_exact(4)?;
    f.seek_start(0)?;
    let oggs: [u8; 4] = [0x4f, 0x67, 0x67, 0x53];
    let vorbis: [u8; 6] = [0x76, 0x6f, 0x72, 0x62, 0x69, 0x73];
    assert(oggs@ =~= tag_oggs());
    assert(vorbis@ =~= tag_vorbis());
    let mut meta = SongMetadata::default();
    loop
        invariant
            f@.0 == old(f)@.0,
            oggs@ == tag_oggs(),
            vorbis@ == tag_vorbis(),
            meta@ == empty_song(),
            ogg_tags(old(f)@.0, old(f)@.1) == ogg_tags_from(f@.0, f@.1),
        decreases ahead(f@.0.len() as int, f@.1),
    {
        let ghost pos = f@.1;
        let capture = f.read(4);
        if capture.len() != 4 {
            return Ok(meta);
        }
        assert(capture@ == f@.0.subrange(pos, pos + 4));
        if !has_tag(&capture, 0, &oggs) {
            assert(!tag_at(f@.0, pos, tag_oggs())) by {
                if tag_at(f@.0, pos, tag_oggs()) {
                    assert(capture@.subrange(0, 4) =~= f@.0.subrange(pos, pos + 4));
                }
            }
            return Err(MetaError::BadOggPage);
        }
        assert(tag_at(f@.0, pos, tag_oggs())) by {
            assert(capture@.subrange(0, 4) =~= capture@);
        }
        let rest = f.read_exact(23)?;
        let seg_count = rest[22];
        let lacing = f.read_exact(seg_count as usize)?;
        let data_size = sum_bytes(&lacing);
        let data = f.read_exact(data_size)?;
        if data.len() > 7 && data[0] == 3 && has_tag(&data, 1, &vorbis) {
            let body = copy_range(&data, 7, data.len());
            parse_vorbis_comments(&mut meta, &body);
            return Ok(meta);
        }
    }
}

} // verus!
