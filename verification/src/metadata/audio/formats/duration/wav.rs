//! Duration of a WAV file, from its byte rate and data size.
use vstd::prelude::*;

use crate::bytes::{has_tag, le32, le32_at, tag_at};
use crate::error::MetaError;
use crate::metadata::audio::formats::wav::{tag_data, tag_fmt};
use crate::reader::{
    ahead, can_read_exact, exact_bytes, pos_after_exact, read_count, valid_target, FileReader,
};

verus! {

/// The duration once the chunks are read.
pub open spec fn wav_duration_end(fmt_found: bool, rate: u32, size: u32) -> Result<u64, MetaError> {
    if fmt_found && rate > 0 {
        Ok((size * 1000 / (rate as int)) as u64)
    } else {
        Err(MetaError::NoWavDuration)
    }
}

/// Reading the chunk headers from `pos`: a `fmt ` chunk is read whole and,
/// when at least 12 bytes long, gives the byte rate; a `data` header gives
/// the data size and reading goes on right after that header; any other
/// chunk is skipped by its size.
pub open spec fn wav_duration_from(
    data: Seq<u8>,
    pos: int,
    fmt_found: bool,
    rate: u32,
    size: u32,
) -> (Result<u64, MetaError>, int)
    decreases ahead(data.len() as int, pos),
{
    let len = data.len() as int;
    if read_count(len, pos, 8) != 8 {
        (wav_duration_end(fmt_found, rate, size), pos + read_count(len, pos, 8))
    } else {
        let h = data.subrange(pos, pos + 8);
        let csize = le32(h, 4);
        let p = pos + 8;
        if tag_at(h, 0, tag_fmt()) {
            if !can_read_exact(len, p, csize) {
                (Err(MetaError::UnexpectedEof), pos_after_exact(len, p, csize))
            } else if csize >= 12 {
                wav_duration_from(
                    data,
                    p + csize,
                    true,
                    le32(exact_bytes(data, p, csize), 8) as u32,
                    size,
                )
            } else {
                wav_duration_from(data, p + csize, fmt_found, rate, size)
            }
        } else if tag_at(h, 0, tag_data()) {
            wav_duration_from(data, p, fmt_found, rate, csize as u32)
        } else if !valid_target(p + csize) {
            (Err(MetaError::InvalidSeek), p)
        } else {
            wav_duration_from(data, p + csize, fmt_found, rate, size)
        }
    }
}

/// The duration in milliseconds of a WAV file: data size times 1000 over the
/// byte rate, from the chunks after the 12-byte RIFF header.
pub open spec fn wav_duration(data: Seq<u8>) -> (Result<u64, MetaError>, int) {
    wav_duration_from(data, 12, false, 0, 0)
}

/// Computes the duration of a WAV file in milliseconds.
pub fn compute(f: &mut FileReader) -> (r: Result<u64, MetaError>)
    ensures
        final(f)@.0 == old(f)@.0,
        (r, final(f)@.1) == wav_duration(old(f)@.0),
{
    f.seek_start(12)?;
    let fmt: [u8; 4] = [0x66, 0x6d, 0x74, 0x20];
    let data_tag: [u8; 4] = [0x64, 0x61, 0x74, 0x61];
    assert(fmt@ =~= tag_fmt());
    assert(data_tag@ =~= tag_data());
    let mut fmt_found = false;
    let mut byte_rate: u32 = 0;
    let mut data_size: u32 = 0;
    loop
        invariant
            f@.0 == old(f)@.0,
            fmt@ == tag_fmt(),
            data_tag@ == tag_data(),
            wav_duration(old(f)@.0) == wav_duration_from(
                f@.0,
                f@.1,
                fmt_found,
                byte_rate,
                data_size,
            ),
        decreases ahead(f@.0.len() as int, f@.1),
    {
        let ghost pos = f@.1;
        let buf = f.read(8);
        if buf.len() != 8 {
            if fmt_found && byte_rate > 0 {
                return Ok((data_size as u64 * 1000) / byte_rate as u64);
            }
            return Err(MetaError::NoWavDuration);
        }
        assert(buf@ =~= f@.0.subrange(pos, pos + 8));
        let size = le32_at(&buf, 4);
        let next = f.stream_position() + size as u64;
        if has_tag(&buf, 0, &fmt) {
            let fmt_bytes = f.read_exact(size as usize)?;
            if fmt_bytes.len() >= 12 {
                byte_rate = le32_at(&fmt_bytes, 8);
                fmt_found = true;
            }
        } else if has_tag(&buf, 0, &data_tag) {
            data_size = size;
        } else {
            f.seek_start(next)?;
        }
    }
}

} // verus!
