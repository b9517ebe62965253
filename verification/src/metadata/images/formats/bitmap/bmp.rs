//! Size and depth of a BMP image.
use vstd::prelude::*;

use crate::bytes::{le16, le32, le32_at};
use crate::error::MetaError;
use crate::metadata::images::{image, image_of, image_result, ImageMeta, ImageMetadata};
use crate::reader::{can_read_exact, pos_after_exact, FileReader};

verus! {

/// `bmp`
pub open spec fn name_bmp() -> Seq<char> {
    seq!['b', 'm', 'p']
}

/// A 32-bit value read as a signed one.
pub open spec fn as_i32(v: int) -> int {
    (v as u32) as i32 as int
}

/// The magnitude of a signed 32-bit value, which `i32::abs` cannot give for
/// the least value.
pub open spec fn abs_i32(v: int) -> Option<u32> {
    if v == i32::MIN {
        None
    } else if v < 0 {
        Some((-v) as u32)
    } else {
        Some(v as u32)
    }
}

/// A BMP image: the DIB header size at byte 14; when it is at least 40, the
/// magnitudes of the signed width and height at 18 and 22, and the bits per
/// pixel at 28 (its low byte).
pub open spec fn bmp_image(d: Seq<u8>) -> (Result<ImageMeta, MetaError>, int) {
    let len = d.len() as int;
    if !can_read_exact(len, 0, 26) {
        (Err(MetaError::UnexpectedEof), pos_after_exact(len, 0, 26))
    } else if le32(d, 14) < 40 {
        (Ok(image(name_bmp(), None, None)), 26)
    } else {
        match (abs_i32(as_i32(le32(d, 18))), abs_i32(as_i32(le32(d, 22)))) {
            (Some(w), Some(h)) => if !can_read_exact(len, 28, 2) {
                (Err(MetaError::UnexpectedEof), pos_after_exact(len, 28, 2))
            } else {
                (Ok(image(name_bmp(), Some((w, h)), Some(d[28]))), 30)
            },
            _ => (Err(MetaError::Overflow), 26),
        }
    }
}

fn abs_u32(v: i32) -> (r: Option<u32>)
    ensures
        r == abs_i32(v as int),
{
    if v == i32::MIN {
        None
    } else if v < 0 {
        Some((-v) as u32)
    } else {
        Some(v as u32)
    }
}

/// Reads the size and depth of a BMP image.
pub fn parse(f: &mut FileReader) -> (r: Result<ImageMetadata, MetaError>)
    ensures
        final(f)@.0 == old(f)@.0,
        (image_result(r), final(f)@.1) == bmp_image(old(f)@.0),
{
    f.seek_start(0)?;
    let header = f.read_exact(26)?;
    assert(header@ =~= f@.0.subrange(0, 26));
    let dib_header_size = le32_at(&header, 14);
    let name = ['b', 'm', 'p'];
    assert(name@ =~= name_bmp());
    if dib_header_size < 40 {
        return Ok(image_of(&name, None, None));
    }
    let w = #[verifier::truncate] (le32_at(&header, 18) as i32);
    let h = #[verifier::truncate] (le32_at(&header, 22) as i32);
    let width = match abs_u32(w) {
        Some(v) => v,
        None => {
            return Err(MetaError::Overflow);
        },
    };
    let height = match abs_u32(h) {
        Some(v) => v,
        None => {
            return Err(MetaError::Overflow);
        },
    };
    f.seek_start(28)?;
    let bpp_bytes = f.read_exact(2)?;
    let depth = #[verifier::truncate] (le16_of(&bpp_bytes) as u8);
    assert(depth == f@.0[28]) by {
        let lo = bpp_bytes@[0];
        let hi = bpp_bytes@[1];
        assert((((lo as u16) + (hi as u16) * 0x100) as u8) == lo) by (bit_vector);
    }
    Ok(image_of(&name, Some((width, height)), Some(depth)))
}

fn le16_of(b: &Vec<u8>) -> (r: u16)
    requires
        b.len() == 2,
    ensures
        r == b@[0] + b@[1] * 0x100,
{
    b[0] as u16 + (b[1] as u16) * 0x100
}

} // verus!

verus! {

/// A BMP file with a DIB header of at least 40 bytes has as its width the
/// magnitude of the signed 32-bit value at byte 18, as its height that of
/// byte 22, and as its depth the low byte of the bit count at byte 28.
pub proof fn lemma_bmp_size(d: Seq<u8>)
    requires
        d.len() >= 30,
        le32(d, 14) >= 40,
        as_i32(le32(d, 18)) != i32::MIN,
        as_i32(le32(d, 22)) != i32::MIN,
    ensures
        bmp_image(d).0 matches Ok(m) && m.dimensions == Some(
            (
                (if as_i32(le32(d, 18)) < 0 { -as_i32(le32(d, 18)) } else { as_i32(le32(d, 18)) }) as u32,
                (if as_i32(le32(d, 22)) < 0 { -as_i32(le32(d, 22)) } else { as_i32(le32(d, 22)) }) as u32,
            ),
        ) && m.color_depth == Some(d[28]),
{
}

} // verus!
