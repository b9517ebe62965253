//! Duration of an M4A file, from the movie header.
use vstd::prelude::*;

use crate::bytes::{be32, be64, has_tag, tag_at};
use crate::error::MetaError;
use crate::numbers::{lemma_whole_millis, whole_millis};
use crate::reader::FileReader;

verus! {

/// `moov`
pub open spec fn tag_moov() -> Seq<u8> {
    seq![0x6du8, 0x6f, 0x6f, 0x76]
}

/// `mvhd`
pub open spec fn tag_mvhd() -> Seq<u8> {
    seq![0x6du8, 0x76, 0x68, 0x64]
}

/// The big-endian `u32` in the first four bytes.
pub fn be_u32(bytes: &[u8]) -> (r: u32)
    requires
        bytes.len() >= 4,
    ensures
        r == be32(bytes@, 0),
{
    let b0 = bytes[0] as u32;
    let b1 = bytes[1] as u32;
    let b2 = bytes[2] as u32;
    let b3 = bytes[3] as u32;
    let r = (b0 << 24) | (b1 << 16) | (b2 << 8) | b3;
    assert(r == b0 * 0x100_0000 + b1 * 0x1_0000 + b2 * 0x100 + b3) by (bit_vector)
        requires
            b0 < 256 && b1 < 256 && b2 < 256 && b3 < 256,
            r == (b0 << 24) | (b1 << 16) | (b2 << 8) | b3,
    ;
    r
}

/// The big-endian `u64` in the first eight bytes.
pub fn be_u64(bytes: &[u8]) -> (r: u64)
    requires
        bytes.len() >= 8,
    ensures
        r == be64(bytes@, 0),
{
    let hi = be_u32(bytes) as u64;
    let b4 = bytes[4] as u64;
    let b5 = bytes[5] as u64;
    let b6 = bytes[6] as u64;
    let b7 = bytes[7] as u64;
    let r = (hi << 32) | (b4 << 24) | (b5 << 16) | (b6 << 8) | b7;
    assert(r == hi * 0x1_0000_0000 + b4 * 0x100_0000 + b5 * 0x1_0000 + b6 * 0x100 + b7)
        by (bit_vector)
        requires
            hi < 0x1_0000_0000 && b4 < 256 && b5 < 256 && b6 < 256 && b7 < 256,
            r == (hi << 32) | (b4 << 24) | (b5 << 16) | (b6 << 8) | b7,
    ;
    assert(be32(bytes@, 4) == b4 * 0x100_0000 + b5 * 0x1_0000 + b6 * 0x100 + b7);
    r
}

/// The duration in an `mvhd` box at `j`: version 1 has a 32-bit timescale
/// at offset 24 and a 64-bit duration at 28, version 0 both 32-bit at 20
/// and 24; milliseconds are the duration times 1000 over the timescale.
pub open spec fn mvhd_duration(d: Seq<u8>, j: int) -> Result<u64, MetaError> {
    let len = d.len() as int;
    if j + 8 >= len {
        Err(MetaError::OutOfBounds)
    } else if d[j + 8] == 1 {
        if j + 36 > len {
            Err(MetaError::MvhdTruncated)
        } else if be32(d, j + 24) == 0 {
            Err(MetaError::InvalidTimescale)
        } else if be64(d, j + 28) * 1000 > u64::MAX {
            Err(MetaError::Overflow)
        } else {
            Ok((be64(d, j + 28) * 1000 / be32(d, j + 24)) as u64)
        }
    } else if j + 28 > len {
        Err(MetaError::MvhdTruncatedV0)
    } else if be32(d, j + 20) == 0 {
        Err(MetaError::InvalidTimescale)
    } else {
        Ok((be32(d, j + 24) * 1000 / be32(d, j + 20)) as u64)
    }
}

/// The boxes inside a `moov` box from `j` to `end`: the outcome of the first
/// `mvhd`, or `None` when the boxes end (by size or by running past the data)
/// without one.
pub open spec fn mvhd_in(d: Seq<u8>, j: int, end: int) -> Option<Result<u64, MetaError>>
    decreases d.len() - j,
{
    if j < 0 || j + 8 > end {
        None
    } else {
        let sub = be32(d, j);
        if sub < 8 || j + sub > d.len() {
            None
        } else if tag_at(d, j + 4, tag_mvhd()) {
            Some(mvhd_duration(d, j))
        } else {
            mvhd_in(d, j + sub, end)
        }
    }
}

/// The top-level boxes from `i`: the first `moov` box holding an `mvhd` box
/// gives the duration.
pub open spec fn m4a_duration_from(d: Seq<u8>, i: int) -> Result<u64, MetaError>
    decreases d.len() - i,
{
    if i < 0 || i + 8 > d.len() {
        Err(MetaError::NoM4aDuration)
    } else {
        let size = be32(d, i);
        if size < 8 || i + size > d.len() {
            Err(MetaError::NoM4aDuration)
        } else if tag_at(d, i + 4, tag_moov()) {
            match mvhd_in(d, i + 8, i + size) {
                Some(r) => r,
                None => m4a_duration_from(d, i + size),
            }
        } else {
            m4a_duration_from(d, i + size)
        }
    }
}

/// The duration in milliseconds of an M4A file.
pub open spec fn m4a_duration(data: Seq<u8>) -> Result<u64, MetaError> {
    m4a_duration_from(data, 0)
}

fn find_mvhd(data: &[u8], i: usize, size: usize) -> (r: Option<Result<u64, MetaError>>)
    requires
        8 <= size,
        i + size <= data.len(),
    ensures
        r == mvhd_in(data@, i + 8, i + size),
{
    let mvhd: [u8; 4] = [0x6d, 0x76, 0x68, 0x64];
    assert(mvhd@ =~= tag_mvhd());
    let len = data.len();
    let moov_end = i + size;
    let mut j = i + 8;
    while j <= moov_end && moov_end - j >= 8
        invariant
            i + 8 <= j <= len,
            moov_end == i + size,
            moov_end <= len,
            len == data.len(),
            mvhd@ == tag_mvhd(),
            mvhd_in(data@, i + 8, moov_end as int) == mvhd_in(data@, j as int, moov_end as int),
        decreases len - j,
    {
        let sub_size = be_u32(&data[j..j + 4]) as usize;
        assert(data@.subrange(j as int, j + 4)[0] == data@[j as int]);
        assert(be32(data@.subrange(j as int, j + 4), 0) == be32(data@, j as int));
        if sub_size < 8 || len - j < sub_size {
            return None;
        }
        if has_tag(data, j + 4, &mvhd) {
            if len - j <= 8 {
                return Some(Err(MetaError::OutOfBounds));
            }
            let version = data[j + 8];
            if version == 1 {
                if len - j < 36 {
                    return Some(Err(MetaError::MvhdTruncated));
                }
                let timescale = be_u32(&data[j + 24..j + 28]);
                let duration = be_u64(&data[j + 28..j + 36]);
                assert(be32(data@.subrange(j + 24, j + 28), 0) == be32(data@, j + 24));
                assert(be64(data@.subrange(j + 28, j + 36), 0) == be64(data@, j + 28));
                if timescale == 0 {
                    return Some(Err(MetaError::InvalidTimescale));
                }
                return match duration.checked_mul(1000) {
                    None => Some(Err(MetaError::Overflow)),
                    Some(ms) => Some(Ok(ms / timescale as u64)),
                };
            } else {
                if len - j < 28 {
                    return Some(Err(MetaError::MvhdTruncatedV0));
                }
                let timescale = be_u32(&data[j + 20..j + 24]);
                let duration = be_u32(&data[j + 24..j + 28]) as u64;
                assert(be32(data@.subrange(j + 20, j + 24), 0) == be32(data@, j + 20));
                assert(be32(data@.subrange(j + 24, j + 28), 0) == be32(data@, j + 24));
                if timescale == 0 {
                    return Some(Err(MetaError::InvalidTimescale));
                }
                return Some(Ok((duration * 1000) / timescale as u64));
            }
        }
        j += sub_size;
    }
    None
}

/// Computes the duration of an M4A file in milliseconds.
pub fn compute(f: &mut FileReader) -> (r: Result<u64, MetaError>)
    ensures
        final(f)@.0 == old(f)@.0,
        final(f)@.1 == old(f)@.0.len(),
        r == m4a_duration(old(f)@.0),
{
    f.seek_start(0)?;
    let data = f.read_to_end();
    assert(data@ =~= old(f)@.0);
    let moov: [u8; 4] = [0x6d, 0x6f, 0x6f, 0x76];
    assert(moov@ =~= tag_moov());
    let len = data.len();
    let mut i: usize = 0;
    while i <= len && len - i >= 8
        invariant
            i <= len,
            len == data.len(),
            data@ == old(f)@.0,
            f@.0 == old(f)@.0,
            f@.1 == old(f)@.0.len(),
            moov@ == tag_moov(),
            m4a_duration(data@) == m4a_duration_from(data@, i as int),
        decreases len - i,
    {
        let size = be_u32(&data[i..i + 4]) as usize;
        assert(be32(data@.subrange(i as int, i + 4), 0) == be32(data@, i as int));
        if size < 8 || len - i < size {
            return Err(MetaError::NoM4aDuration);
        }
        if has_tag(&data, i + 4, &moov) {
            if let Some(r) = find_mvhd(&data, i, size) {
                return r;
            }
        }
        i += size;
    }
    Err(MetaError::NoM4aDuration)
}

} // verus!

verus! {

/// An `mvhd` box at `j` gives the whole number of milliseconds in its
/// duration at its timescale: for version 1 the 64-bit duration at offset 28
/// and the timescale at 24, for version 0 the 32-bit duration at 24 and the
/// timescale at 20.
pub proof fn lemma_mvhd_duration_in_ms(d: Seq<u8>, j: int)
    requires
        0 <= j,
        j + 8 < d.len(),
    ensures
        d[j + 8] == 1 && j + 36 <= d.len() && be32(d, j + 24) > 0 && be64(d, j + 28) * 1000
            <= u64::MAX ==> (mvhd_duration(d, j) matches Ok(x) && whole_millis(
            x as int,
            be64(d, j + 28),
            be32(d, j + 24),
        )),
        d[j + 8] != 1 && j + 28 <= d.len() && be32(d, j + 20) > 0 ==> (mvhd_duration(d, j) matches Ok(
            x,
        ) && whole_millis(x as int, be32(d, j + 24), be32(d, j + 20))),
{
    assert(be64(d, j + 28) >= 0 && be32(d, j + 24) >= 0);
    if d[j + 8] == 1 && j + 36 <= d.len() && be32(d, j + 24) > 0 {
        lemma_whole_millis(be64(d, j + 28), be32(d, j + 24));
    }
    if d[j + 8] != 1 && j + 28 <= d.len() && be32(d, j + 20) > 0 {
        assert(be32(d, j + 24) <= 0xFFFF_FFFF);
        lemma_whole_millis(be32(d, j + 24), be32(d, j + 20));
    }
}

} // verus!
