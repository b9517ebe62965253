//! Duration of an Ogg Vorbis file, from granule positions.
use vstd::prelude::*;

use crate::bytes::{byte_sum, has_tag, le32, le32_at, le64, le64_at, sum_bytes, tag_at};
use crate::error::MetaError;
use crate::numbers::{lemma_whole_millis, whole_millis};
use crate::metadata::audio::formats::ogg::tag_oggs;
use crate::reader::{
    ahead, can_read_exact, exact_bytes, pos_after_exact, read_count, FileReader,
};

verus! {

/// The sample rate the page scan knows after `packet`: the first Vorbis
/// identification header (packet type 1, then `vorbis`, a 32-bit version
/// and a channel count) holds it as a little-endian 32-bit value at bytes
/// 12..16.
pub open spec fn next_rate(rate: Option<u32>, packet: Seq<u8>) -> Option<u32> {
    if rate is None && packet.len() >= 16 && packet[0] == 1 {
        Some(le32(packet, 12) as u32)
    } else {
        rate
    }
}

/// The duration once all pages are read: granule position times 1000 over
/// the sample rate.
pub open spec fn ogg_duration_end(rate: Option<u32>, granule: u64) -> Result<u64, MetaError> {
    match rate {
        None => Err(MetaError::MissingSampleRate),
        Some(sr) => if sr == 0 {
            Err(MetaError::InvalidSampleRate)
        } else if granule * 1000 > u64::MAX {
            Err(MetaError::Overflow)
        } else {
            Ok((granule * 1000 / (sr as int)) as u64)
        },
    }
}

/// Reading Ogg pages from `pos` to the end of the file: each is a 27-byte
/// header holding the granule position (bytes 6..14) and the number of
/// lacing values (byte 26), the lacing values, and a packet of their sum.
pub open spec fn ogg_duration_from(data: Seq<u8>, pos: int, rate: Option<u32>, granule: u64) -> (
    Result<u64, MetaError>,
    int,
)
    decreases ahead(data.len() as int, pos),
{
    let len = data.len() as int;
    if read_count(len, pos, 27) != 27 {
        (ogg_duration_end(rate, granule), pos + read_count(len, pos, 27))
    } else if !tag_at(data, pos, tag_oggs()) {
        (Err(MetaError::NotOgg), pos + 27)
    } else {
        let g = le64(data, pos + 6) as u64;
        let segs = data[pos + 26] as int;
        let q = pos + 27;
        if !can_read_exact(len, q, segs) {
            (Err(MetaError::UnexpectedEof), pos_after_exact(len, q, segs))
        } else {
            let size = byte_sum(exact_bytes(data, q, segs)) as int;
            let r = q + segs;
            if !can_read_exact(len, r, size) {
                (Err(MetaError::UnexpectedEof), pos_after_exact(len, r, size))
            } else {
                let packet = exact_bytes(data, r, size);
                ogg_duration_from(
                    data,
                    r + size,
                    next_rate(rate, packet),
                    if g != u64::MAX {
                        g
                    } else {
                        granule
                    },
                )
            }
        }
    }
}

/// The duration in milliseconds of an Ogg Vorbis file.
pub open spec fn ogg_duration(data: Seq<u8>) -> (Result<u64, MetaError>, int) {
    ogg_duration_from(data, 0, None, 0)
}

/// Computes the duration of an Ogg Vorbis file in milliseconds.
pub fn compute(f: &mut FileReader) -> (r: Result<u64, MetaError>)
    ensures
        final(f)@.0 == old(f)@.0,
        (r, final(f)@.1) == ogg_duration(old(f)@.0),
{
    f.seek_start(0)?;
    let oggs: [u8; 4] = [0x4f, 0x67, 0x67, 0x53];
    assert(oggs@ =~= tag_oggs());
    let mut sample_rate: Option<u32> = None;
    let mut final_granule: u64 = 0;
    loop
        invariant
            f@.0 == old(f)@.0,
            oggs@ == tag_oggs(),
            ogg_duration(old(f)@.0) == ogg_duration_from(
                f@.0,
                f@.1,
                sample_rate,
                final_granule,
            ),
        decreases ahead(f@.0.len() as int, f@.1),
    {
        let ghost pos = f@.1;
        let hdr = f.read(27);
        if hdr.len() != 27 {
            return duration_end(sample_rate, final_granule);
        }
        assert(hdr@ =~= f@.0.subrange(pos, pos + 27));
        if !has_tag(&hdr, 0, &oggs) {
            assert(!tag_at(f@.0, pos, tag_oggs())) by {
                if tag_at(f@.0, pos, tag_oggs()) {
                    assert(hdr@.subrange(0, 4) =~= f@.0.subrange(pos, pos + 4));
                }
            }
            return Err(MetaError::NotOgg);
        }
        assert(tag_at(f@.0, pos, tag_oggs())) by {
            assert(hdr@.subrange(0, 4) =~= f@.0.subrange(pos, pos + 4));
        }
        let granule = le64_at(&hdr, 6);
        assert(granule == le64(f@.0, pos + 6));
        let segments = hdr[26];
        let seg_table = f.read_exact(segments as usize)?;
        let packet_size = sum_bytes(&seg_table);
        let packet = f.read_exact(packet_size)?;
        if sample_rate.is_none() && packet.len() >= 16 && packet[0] == 1 {
            sample_rate = Some(le32_at(&packet, 12));
        }
        if granule != u64::MAX {
            final_granule = granule;
        }
    }
}

fn duration_end(sample_rate: Option<u32>, final_granule: u64) -> (r: Result<u64, MetaError>)
    ensures
        r == ogg_duration_end(sample_rate, final_granule),
{
    match sample_rate {
        None => Err(MetaError::MissingSampleRate),
        Some(sr) => {
            if sr == 0 {
                return Err(MetaError::InvalidSampleRate);
            }
            match final_granule.checked_mul(1000) {
                None => Err(MetaError::Overflow),
                Some(ms) => Ok(ms / sr as u64),
            }
        },
    }
}

} // verus!

verus! {

/// The duration of an Ogg Vorbis file is the whole number of milliseconds
/// in its last granule position at its sample rate.
pub proof fn lemma_ogg_duration_in_ms(sr: u32, granule: u64)
    requires
        sr > 0,
        granule * 1000 <= u64::MAX,
    ensures
        ogg_duration_end(Some(sr), granule) matches Ok(x) && whole_millis(
            x as int,
            granule as int,
            sr as int,
        ),
{
    lemma_whole_millis(granule as int, sr as int);
}

/// The sample rate comes from the first identification header: the 32-bit
/// little-endian value after the packet type, `vorbis`, the 32-bit version
/// and the channel count, that is bytes 12..16; later headers do not change
/// it.
pub proof fn lemma_ident_header_rate(packet: Seq<u8>, rate: u32)
    requires
        packet.len() >= 16,
        packet[0] == 1,
    ensures
        next_rate(None, packet) == Some(
            (packet[12] + packet[13] * 0x100 + packet[14] * 0x1_0000 + packet[15] * 0x100_0000) as u32,
        ),
        next_rate(Some(rate), packet) == Some(rate),
{
}

} // verus!
