//! Size of a JPEG image.
use vstd::prelude::*;

use crate::bytes::{be16, be16_at};
use crate::error::MetaError;
use crate::metadata::images::{image, image_of, image_result, ImageMeta, ImageMetadata};
use crate::reader::FileReader;

verus! {

/// `jpg`
pub open spec fn name_jpg() -> Seq<char> {
    seq!['j', 'p', 'g']
}

/// The first position from `i` on where the start-of-frame marker `FF C0`
/// stands with its segment up to the width after it: length, precision,
/// height and width, seven more bytes.
pub open spec fn sof_marker(d: Seq<u8>, i: int) -> Option<int>
    decreases d.len() - i,
{
    if i < 0 || i + 9 > d.len() {
        None
    } else if d[i] == 0xFF && d[i + 1] == 0xC0 {
        Some(i)
    } else {
        sof_marker(d, i + 1)
    }
}

/// A JPEG image: the start-of-image marker `FF D8`, then the size from the
/// first start-of-frame segment `FF C0`: after the marker come the segment
/// length (2 bytes) and the sample precision (1 byte), then the height and
/// the width as big-endian 16-bit values.  The whole file is read.
pub open spec fn jpg_image(d: Seq<u8>) -> Result<ImageMeta, MetaError> {
    if d.len() < 2 || d[0] != 0xFF || d[1] != 0xD8 {
        Err(MetaError::NotJpeg)
    } else {
        match sof_marker(d, 0) {
            None => Ok(image(name_jpg(), None, Some(24))),
            Some(i) => Ok(
                image(name_jpg(), Some((be16(d, i + 7) as u32, be16(d, i + 5) as u32)), Some(24)),
            ),
        }
    }
}

/// Reads the size of a JPEG image.
pub fn parse(f: &mut FileReader) -> (r: Result<ImageMetadata, MetaError>)
    ensures
        final(f)@.0 == old(f)@.0,
        final(f)@.1 == old(f)@.0.len(),
        image_result(r) == jpg_image(old(f)@.0),
{
    f.seek_start(0)?;
    let buf = f.read_to_end();
    assert(buf@ =~= f@.0);
    if buf.len() < 2 || buf[0] != 0xFF || buf[1] != 0xD8 {
        return Err(MetaError::NotJpeg);
    }
    let mut i: usize = 0;
    let mut found: Option<usize> = None;
    while found.is_none() && buf.len() - i >= 9
        invariant
            buf@ == f@.0,
            i <= buf.len(),
            found matches Some(k) ==> k + 9 <= buf.len(),
            found is None ==> sof_marker(buf@, 0) == sof_marker(buf@, i as int),
            found matches Some(k) ==> sof_marker(buf@, 0) == Some(k as int),
        decreases buf.len() - i, if found is None { 1int } else { 0int },
    {
        if buf[i] == 0xFF && buf[i + 1] == 0xC0 {
            found = Some(i);
        } else {
            i += 1;
        }
    }
    let name = ['j', 'p', 'g'];
    assert(name@ =~= name_jpg());
    match found {
        None => Ok(image_of(&name, None, Some(24))),
        Some(k) => {
            let height = be16_at(&buf, k + 5) as u32;
            let width = be16_at(&buf, k + 7) as u32;
            Ok(image_of(&name, Some((width, height)), Some(24)))
        },
    }
}

} // verus!

verus! {

/// With the first start-of-frame marker at `i`, the JPEG's height is the
/// big-endian value of bytes `i+5..i+7` and its width that of `i+7..i+9`,
/// after the segment length and the sample precision.
pub proof fn lemma_jpg_size(d: Seq<u8>, i: int)
    requires
        d.len() >= 2,
        d[0] == 0xFF,
        d[1] == 0xD8,
        sof_marker(d, 0) == Some(i),
    ensures
        jpg_image(d) matches Ok(m) && m.dimensions == Some(
            ((d[i + 7] * 0x100 + d[i + 8]) as u32, (d[i + 5] * 0x100 + d[i + 6]) as u32),
        ),
{
}

} // verus!
