//! Little-endian integers read from a file.
use vstd::prelude::*;

use crate::bytes::{le16, le16_at, le32, le32_at, le64, le64_at};
use crate::error::MetaError;
use crate::reader::{can_read_exact, pos_after_exact, FileReader};

verus! {

/// The outcome of reading an `n`-byte little-endian integer at `pos`: its
/// value, or the end of the file.
pub open spec fn read_le(d: Seq<u8>, pos: int, n: int) -> (Result<int, MetaError>, int) {
    let len = d.len() as int;
    if !can_read_exact(len, pos, n) {
        (Err(MetaError::UnexpectedEof), pos_after_exact(len, pos, n))
    } else if n == 1 {
        (Ok(d[pos] as int), pos + 1)
    } else if n == 2 {
        (Ok(le16(d, pos)), pos + 2)
    } else if n == 4 {
        (Ok(le32(d, pos)), pos + 4)
    } else {
        (Ok(le64(d, pos)), pos + 8)
    }
}

pub open spec fn int_result<T>(r: Result<T, MetaError>, v: spec_fn(T) -> int) -> Result<int, MetaError> {
    match r {
        Ok(x) => Ok(v(x)),
        Err(e) => Err(e),
    }
}

/// Reads a byte.
pub fn read_u8(f: &mut FileReader) -> (r: Result<u8, MetaError>)
    ensures
        final(f)@.0 == old(f)@.0,
        (int_result(r, |x: u8| x as int), final(f)@.1) == read_le(old(f)@.0, old(f)@.1, 1),
{
    let b = f.read_exact(1)?;
    Ok(b[0])
}

/// Reads a little-endian `u16`.
pub fn read_u16_le(f: &mut FileReader) -> (r: Result<u16, MetaError>)
    ensures
        final(f)@.0 == old(f)@.0,
        (int_result(r, |x: u16| x as int), final(f)@.1) == read_le(old(f)@.0, old(f)@.1, 2),
{
    let b = f.read_exact(2)?;
    let r = le16_at(&b, 0);
    assert(le16(b@, 0) == le16(old(f)@.0, old(f)@.1));
    Ok(r)
}

/// Reads a little-endian `u32`.
pub fn read_u32_le(f: &mut FileReader) -> (r: Result<u32, MetaError>)
    ensures
        final(f)@.0 == old(f)@.0,
        (int_result(r, |x: u32| x as int), final(f)@.1) == read_le(old(f)@.0, old(f)@.1, 4),
{
    let b = f.read_exact(4)?;
    let r = le32_at(&b, 0);
    assert(le32(b@, 0) == le32(old(f)@.0, old(f)@.1));
    Ok(r)
}

/// Reads a little-endian `u64`.
pub fn read_u64_le(f: &mut FileReader) -> (r: Result<u64, MetaError>)
    ensures
        final(f)@.0 == old(f)@.0,
        (int_result(r, |x: u64| x as int), final(f)@.1) == read_le(old(f)@.0, old(f)@.1, 8),
{
    let b = f.read_exact(8)?;
    let r = le64_at(&b, 0);
    assert(le64(b@, 0) == le64(old(f)@.0, old(f)@.1)) by {
        assert(le32(b@, 0) == le32(old(f)@.0, old(f)@.1));
        assert(le32(b@, 4) == le32(old(f)@.0, old(f)@.1 + 4));
    }
    Ok(r)
}

} // verus!
