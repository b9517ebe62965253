//! Size and depth of a TIFF image.
use vstd::prelude::*;

use crate::bytes::{be16, be16_at, be32, be32_at, le16, le16_at, le32, le32_at};
use crate::error::MetaError;
use crate::metadata::images::{
    empty_image,
    image,
    image_of,
    image_result,
    ImageMeta,
    ImageMetadata,
};
use crate::reader::{can_read_exact, pos_after_exact, FileReader};

verus! {

/// `tiff`
pub open spec fn name_tiff() -> Seq<char> {
    seq!['t', 'i', 'f', 'f']
}

/// A 16-bit value in the byte order of the file.
pub open spec fn tiff16(le: bool, d: Seq<u8>, i: int) -> int {
    if le {
        le16(d, i)
    } else {
        be16(d, i)
    }
}

/// A 32-bit value in the byte order of the file.
pub open spec fn tiff32(le: bool, d: Seq<u8>, i: int) -> int {
    if le {
        le32(d, i)
    } else {
        be32(d, i)
    }
}

fn tiff16_at(le: bool, b: &[u8], i: usize) -> (r: u16)
    requires
        i + 2 <= b.len(),
    ensures
        r == tiff16(le, b@, i as int),
{
    if le {
        le16_at(b, i)
    } else {
        be16_at(b, i)
    }
}

fn tiff32_at(le: bool, b: &[u8], i: usize) -> (r: u32)
    requires
        i + 4 <= b.len(),
    ensures
        r == tiff32(le, b@, i as int),
{
    if le {
        le32_at(b, i)
    } else {
        be32_at(b, i)
    }
}

/// The fields the entries give: width, height and bit depth.
pub type TiffFields = (Option<u32>, Option<u32>, Option<u8>);

/// The directory entries from `p` on, `k` of them, each 12 bytes: the tag
/// in the first two, the value in the last four.  Tag 256 is the width, 257
/// the height and 258 the bit depth (the value's low byte); a later entry
/// overrides an earlier one.
pub open spec fn tiff_entries(le: bool, d: Seq<u8>, p: int, k: nat, acc: TiffFields) -> (Result<
    TiffFields,
    MetaError,
>, int)
    decreases k,
{
    let len = d.len() as int;
    if k == 0 {
        (Ok(acc), p)
    } else if !can_read_exact(len, p, 12) {
        (Err(MetaError::UnexpectedEof), pos_after_exact(len, p, 12))
    } else {
        let tag = tiff16(le, d, p);
        let v = tiff32(le, d, p + 8) as u32;
        let next = if tag == 256 {
            (Some(v), acc.1, acc.2)
        } else if tag == 257 {
            (acc.0, Some(v), acc.2)
        } else if tag == 258 {
            (acc.0, acc.1, Some((v % 256) as u8))
        } else {
            acc
        };
        tiff_entries(le, d, p + 12, (k - 1) as nat, next)
    }
}

/// The image that the fields describe.
pub open spec fn tiff_meta(t: TiffFields) -> ImageMeta {
    let dims = match (t.0, t.1) {
        (Some(w), Some(h)) => Some((w, h)),
        _ => None,
    };
    image(name_tiff(), dims, t.2)
}

/// A TIFF image: the byte order `II` (little-endian) or `MM` (big-endian),
/// the offset of the first directory at byte 4, then the directory: an
/// entry count and the entries.  A file of neither byte order gives the
/// empty metadata.
pub open spec fn tiff_image(d: Seq<u8>) -> (Result<ImageMeta, MetaError>, int) {
    let len = d.len() as int;
    if !can_read_exact(len, 0, 8) {
        (Err(MetaError::UnexpectedEof), pos_after_exact(len, 0, 8))
    } else if !((d[0] == 0x49 && d[1] == 0x49) || (d[0] == 0x4D && d[1] == 0x4D)) {
        (Ok(empty_image()), 8)
    } else {
        let le = d[0] == 0x49;
        let off = tiff32(le, d, 4);
        if !can_read_exact(len, off, 2) {
            (Err(MetaError::UnexpectedEof), pos_after_exact(len, off, 2))
        } else {
            match tiff_entries(le, d, off + 2, tiff16(le, d, off) as nat, (None, None, None)) {
                (Err(e), p) => (Err(e), p),
                (Ok(t), p) => (Ok(tiff_meta(t)), p),
            }
        }
    }
}

/// Reads the size and bit depth from the first directory of a TIFF image.
pub fn parse(f: &mut FileReader) -> (r: Result<ImageMetadata, MetaError>)
    ensures
        final(f)@.0 == old(f)@.0,
        (image_result(r), final(f)@.1) == tiff_image(old(f)@.0),
{
    f.seek_start(0)?;
    let header = f.read_exact(8)?;
    let ghost d = f@.0;
    assert(header@ =~= d.subrange(0, 8));
    let le = if header[0] == 0x49 && header[1] == 0x49 {
        true
    } else if header[0] == 0x4D && header[1] == 0x4D {
        false
    } else {
        return Ok(ImageMetadata::default());
    };
    let ifd_offset = tiff32_at(le, &header, 4) as u64;
    f.seek_start(ifd_offset)?;
    let count_bytes = f.read_exact(2)?;
    assert(count_bytes@ =~= d.subrange(ifd_offset as int, ifd_offset + 2));
    let count = tiff16_at(le, &count_bytes, 0);
    let mut width: Option<u32> = None;
    let mut height: Option<u32> = None;
    let mut depth: Option<u8> = None;
    let mut j: u16 = 0;
    while j < count
        invariant
            f@.0 == d,
            old(f)@.0 == d,
            d.len() >= 8,
            (d[0] == 0x49 && d[1] == 0x49) || (d[0] == 0x4D && d[1] == 0x4D),
            le == (d[0] == 0x49),
            ifd_offset == tiff32(le, d, 4),
            can_read_exact(d.len() as int, ifd_offset as int, 2),
            count == tiff16(le, d, ifd_offset as int),
            j <= count,
            tiff_entries(le, d, ifd_offset + 2, count as nat, (None, None, None)) == tiff_entries(
                le,
                d,
                f@.1,
                (count - j) as nat,
                (width, height, depth),
            ),
        decreases count - j,
    {
        let ghost p = f@.1;
        let entry = f.read_exact(12)?;
        assert(entry@ =~= d.subrange(p, p + 12));
        let tag = tiff16_at(le, &entry, 0);
        let value = tiff32_at(le, &entry, 8);
        if tag == 256 {
            width = Some(value);
        } else if tag == 257 {
            height = Some(value);
        } else if tag == 258 {
            depth = Some((value % 256) as u8);
        }
        j += 1;
    }
    let dimensions = match (width, height) {
        (Some(w), Some(h)) => Some((w, h)),
        _ => None,
    };
    let name = ['t', 'i', 'f', 'f'];
    assert(name@ =~= name_tiff());
    Ok(image_of(&name, dimensions, depth))
}

} // verus!

verus! {

/// A TIFF file whose first directory holds exactly a width entry then a
/// height entry, each read in the byte order the file declares.
pub open spec fn two_entry_tiff(d: Seq<u8>, le: bool, off: int) -> bool {
    let r16 = |i: int| if le { le16(d, i) } else { be16(d, i) };
    &&& d.len() >= 8
    &&& (if le { d[0] == 0x49 && d[1] == 0x49 } else { d[0] == 0x4D && d[1] == 0x4D })
    &&& off == (if le { le32(d, 4) } else { be32(d, 4) })
    &&& off + 26 <= d.len()
    &&& r16(off) == 2
    &&& r16(off + 2) == 256
    &&& r16(off + 14) == 257
}

/// A big-endian (`MM`) file with a width and a height entry has the
/// big-endian values of the entries' last four bytes as its size; a
/// little-endian (`II`) file the little-endian values.
pub proof fn lemma_tiff_size_byte_order(d: Seq<u8>, off: int)
    ensures
        two_entry_tiff(d, false, off) ==> tiff_image(d).0 == Ok::<ImageMeta, MetaError>(
            image(name_tiff(), Some((be32(d, off + 10) as u32, be32(d, off + 22) as u32)), None),
        ),
        two_entry_tiff(d, true, off) ==> tiff_image(d).0 == Ok::<ImageMeta, MetaError>(
            image(name_tiff(), Some((le32(d, off + 10) as u32, le32(d, off + 22) as u32)), None),
        ),
{
    if two_entry_tiff(d, false, off) || two_entry_tiff(d, true, off) {
        let le = d[0] == 0x49;
        let acc0: TiffFields = (None, None, None);
        let w = tiff32(le, d, off + 10) as u32;
        let h = tiff32(le, d, off + 22) as u32;
        assert(tiff_entries(le, d, off + 2, 2, acc0) == tiff_entries(
            le,
            d,
            off + 14,
            1,
            (Some(w), None, None),
        ));
        assert(tiff_entries(le, d, off + 14, 1, (Some(w), None, None)) == tiff_entries(
            le,
            d,
            off + 26,
            0,
            (Some(w), Some(h), None),
        ));
    }
}

} // verus!

verus! {

/// The bit depth is the low byte of the depth entry's value in the file's
/// byte order: the last of its four bytes in a big-endian (`MM`) file, the
/// first in a little-endian (`II`) one.  A directory that holds only that
/// entry gives no size.
pub proof fn lemma_tiff_depth_low_byte(d: Seq<u8>, le: bool, off: int)
    requires
        d.len() >= 8,
        if le {
            d[0] == 0x49 && d[1] == 0x49
        } else {
            d[0] == 0x4D && d[1] == 0x4D
        },
        off == tiff32(le, d, 4),
        off + 14 <= d.len(),
        tiff16(le, d, off) == 1,
        tiff16(le, d, off + 2) == 258,
    ensures
        tiff_image(d).0 == Ok::<ImageMeta, MetaError>(
            image(name_tiff(), None, Some(if le { d[off + 10] } else { d[off + 13] })),
        ),
{
    let v = tiff32(le, d, off + 10);
    let b0 = d[off + 10] as int;
    let b1 = d[off + 11] as int;
    let b2 = d[off + 12] as int;
    let b3 = d[off + 13] as int;
    if le {
        assert((b0 + b1 * 0x100 + b2 * 0x1_0000 + b3 * 0x100_0000) % 256 == b0) by (nonlinear_arith)
            requires
                0 <= b0 < 256,
                0 <= b1 < 256,
                0 <= b2 < 256,
                0 <= b3 < 256,
        ;
    } else {
        assert((b0 * 0x100_0000 + b1 * 0x1_0000 + b2 * 0x100 + b3) % 256 == b3) by (nonlinear_arith)
            requires
                0 <= b0 < 256,
                0 <= b1 < 256,
                0 <= b2 < 256,
                0 <= b3 < 256,
        ;
    }
    assert(0 <= v <= u32::MAX);
    let acc0: TiffFields = (None, None, None);
    assert(tiff_entries(le, d, off + 2, 1, acc0) == tiff_entries(
        le,
        d,
        off + 14,
        0,
        (None, None, Some(((v as u32) % 256) as u8)),
    ));
}

} // verus!
