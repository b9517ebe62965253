//! Duration of a FLAC stream, from its STREAMINFO block.
use vstd::prelude::*;

use crate::bytes::be32;
use crate::numbers::{lemma_whole_millis, whole_millis};
use crate::error::MetaError;
use crate::reader::{
    ahead, can_read_exact, exact_bytes, pos_after_exact, read_count, valid_target, FileReader,
};

verus! {

/// The sample rate in a STREAMINFO block: 20 bits from byte 10 on.
pub open spec fn streaminfo_rate(d: Seq<u8>) -> int {
    d[10] * 0x1000 + d[11] * 0x10 + d[12] / 16
}

/// The total number of samples in a STREAMINFO block: 36 bits from the low
/// half of byte 12 on.
pub open spec fn streaminfo_samples(d: Seq<u8>) -> int {
    (d[12] % 16) * 0x1_0000_0000 + be32(d, 13)
}

/// The length of a metadata block, from the three bytes after its type.
pub open spec fn block_len(h: Seq<u8>) -> int {
    h[1] * 0x1_0000 + h[2] * 0x100 + h[3]
}

/// Scanning the metadata blocks from `pos` for STREAMINFO (type 0): the
/// outcome and the final position.  Other blocks are skipped by their
/// lengths; the scan fails when a block header is cut short or the block
/// flagged as last is passed.
pub open spec fn flac_duration_from(data: Seq<u8>, pos: int) -> (Result<u64, MetaError>, int)
    decreases ahead(data.len() as int, pos),
{
    let len = data.len() as int;
    if read_count(len, pos, 4) != 4 {
        (Err(MetaError::NoStreamInfo), pos + read_count(len, pos, 4))
    } else {
        let h = data.subrange(pos, pos + 4);
        let p = pos + 4;
        let blen = block_len(h);
        if h[0] % 128 == 0 {
            if !can_read_exact(len, p, blen) {
                (Err(MetaError::UnexpectedEof), pos_after_exact(len, p, blen))
            } else {
                let d = exact_bytes(data, p, blen);
                if blen < 18 {
                    (Err(MetaError::StreamInfoTooSmall), p + blen)
                } else if streaminfo_rate(d) == 0 {
                    (Err(MetaError::InvalidSampleRate), p + blen)
                } else {
                    (Ok((streaminfo_samples(d) * 1000 / streaminfo_rate(d)) as u64), p + blen)
                }
            }
        } else if !valid_target(p + blen) {
            (Err(MetaError::InvalidSeek), p)
        } else if h[0] >= 128 {
            (Err(MetaError::NoStreamInfo), p + blen)
        } else {
            flac_duration_from(data, p + blen)
        }
    }
}

/// The duration in milliseconds of a FLAC file: total samples times 1000
/// over the sample rate, from the STREAMINFO block found after the 4-byte
/// signature.
pub open spec fn flac_duration(data: Seq<u8>) -> (Result<u64, MetaError>, int) {
    flac_duration_from(data, 4)
}

/// Computes the duration of a FLAC file in milliseconds.
pub fn compute(f: &mut FileReader) -> (r: Result<u64, MetaError>)
    ensures
        final(f)@.0 == old(f)@.0,
        (r, final(f)@.1) == flac_duration(old(f)@.0),
{
    f.seek_start(4)?;
    loop
        invariant
            f@.0 == old(f)@.0,
            flac_duration(old(f)@.0) == flac_duration_from(f@.0, f@.1),
        decreases ahead(f@.0.len() as int, f@.1),
    {
        let ghost pos = f@.1;
        let h = f.read(4);
        if h.len() != 4 {
            return Err(MetaError::NoStreamInfo);
        }
        assert(h@ == f@.0.subrange(pos, pos + 4));
        let blen = h[1] as u32 * 0x1_0000 + h[2] as u32 * 0x100 + h[3] as u32;
        assert(blen == block_len(h@));
        if h[0] % 128 == 0 {
            let d = f.read_exact(blen as usize)?;
            if d.len() < 18 {
                return Err(MetaError::StreamInfoTooSmall);
            }
            let sample_rate = d[10] as u32 * 0x1000 + d[11] as u32 * 0x10 + (d[12] / 16) as u32;
            let total_samples = (d[12] % 16) as u64 * 0x1_0000_0000 + (d[13] as u64) * 0x100_0000
                + (d[14] as u64) * 0x1_0000 + (d[15] as u64) * 0x100 + d[16] as u64;
            if sample_rate == 0 {
                return Err(MetaError::InvalidSampleRate);
            }
            return Ok((total_samples * 1000) / sample_rate as u64);
        } else {
            f.seek_current(blen as i64)?;
        }
        if h[0] >= 128 {
            return Err(MetaError::NoStreamInfo);
        }
    }
}

} // verus!

verus! {

/// A STREAMINFO block stands in full at `pos`: a header of type 0 whose
/// length of at least 18 fits in the data.
pub open spec fn streaminfo_at(data: Seq<u8>, pos: int) -> bool {
    let blen = data[pos + 1] * 0x1_0000 + data[pos + 2] * 0x100 + data[pos + 3];
    &&& 0 <= pos
    &&& pos + 4 <= data.len()
    &&& data[pos] % 128 == 0
    &&& blen >= 18
    &&& pos + 4 + blen <= data.len()
}

/// The duration of a FLAC stream is the whole number of milliseconds in its
/// samples: the 36-bit sample count (low four bits of STREAMINFO byte 12,
/// then bytes 13..17) at the 20-bit sample rate (bytes 10, 11 and the high
/// four bits of 12).
pub proof fn lemma_flac_duration_in_ms(data: Seq<u8>, pos: int)
    requires
        streaminfo_at(data, pos),
        data[pos + 14] * 0x1000 + data[pos + 15] * 0x10 + data[pos + 16] / 16 > 0,
    ensures
        flac_duration_from(data, pos).0 matches Ok(x) && whole_millis(
            x as int,
            (data[pos + 16] % 16) * 0x1_0000_0000 + data[pos + 17] * 0x100_0000 + data[pos + 18]
                * 0x1_0000 + data[pos + 19] * 0x100 + data[pos + 20],
            data[pos + 14] * 0x1000 + data[pos + 15] * 0x10 + data[pos + 16] / 16,
        ),
{
    let h = data.subrange(pos, pos + 4);
    let blen = block_len(h);
    let d = exact_bytes(data, pos + 4, blen);
    assert(d =~= data.subrange(pos + 4, pos + 4 + blen));
    assert(d[10] == data[pos + 14] && d[11] == data[pos + 15] && d[12] == data[pos + 16]);
    assert(d[13] == data[pos + 17] && d[14] == data[pos + 18] && d[15] == data[pos + 19] && d[16]
        == data[pos + 20]);
    let samples = streaminfo_samples(d);
    let rate = streaminfo_rate(d);
    assert(0 <= samples < 0x10_0000_0000);
    lemma_whole_millis(samples, rate);
}

} // verus!
