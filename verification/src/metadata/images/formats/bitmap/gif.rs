//! Size of a GIF image.
use vstd::prelude::*;

use crate::bytes::{has_tag, le16, le16_at, tag_at};
use crate::error::MetaError;
use crate::metadata::images::{image, image_of, image_result, ImageMeta, ImageMetadata};
use crate::reader::{can_read_exact, pos_after_exact, FileReader};

verus! {

/// `GIF`
pub open spec fn tag_gif() -> Seq<u8> {
    seq![0x47u8, 0x49, 0x46]
}

/// `gif`
pub open spec fn name_gif() -> Seq<char> {
    seq!['g', 'i', 'f']
}

/// A GIF image: `GIF`, the version, then the logical screen width and height
/// as little-endian 16-bit values at bytes 6 and 8.
pub open spec fn gif_image(d: Seq<u8>) -> (Result<ImageMeta, MetaError>, int) {
    let len = d.len() as int;
    if !can_read_exact(len, 0, 10) {
        (Err(MetaError::UnexpectedEof), pos_after_exact(len, 0, 10))
    } else if !tag_at(d, 0, tag_gif()) {
        (Err(MetaError::NotGif), 10)
    } else {
        (Ok(image(name_gif(), Some((le16(d, 6) as u32, le16(d, 8) as u32)), Some(8))), 10)
    }
}

/// Reads the size of a GIF image.
pub fn parse(f: &mut FileReader) -> (r: Result<ImageMetadata, MetaError>)
    ensures
        final(f)@.0 == old(f)@.0,
        (image_result(r), final(f)@.1) == gif_image(old(f)@.0),
{
    f.seek_start(0)?;
    let buf = f.read_exact(10)?;
    let sig: [u8; 3] = [0x47, 0x49, 0x46];
    assert(sig@ =~= tag_gif());
    assert(buf@ =~= f@.0.subrange(0, 10));
    if !has_tag(&buf, 0, &sig) {
        assert(!tag_at(f@.0, 0, tag_gif())) by {
            if tag_at(f@.0, 0, tag_gif()) {
                assert(buf@.subrange(0, 3) =~= f@.0.subrange(0, 3));
            }
        }
        return Err(MetaError::NotGif);
    }
    assert(tag_at(f@.0, 0, tag_gif())) by {
        assert(buf@.subrange(0, 3) =~= f@.0.subrange(0, 3));
    }
    let width = le16_at(&buf, 6) as u32;
    let height = le16_at(&buf, 8) as u32;
    let name = ['g', 'i', 'f'];
    assert(name@ =~= name_gif());
    Ok(image_of(&name, Some((width, height)), Some(8)))
}

} // verus!

verus! {

/// A GIF file's width is the little-endian value of bytes 6..8 and its
/// height that of bytes 8..10.
pub proof fn lemma_gif_size(d: Seq<u8>)
    requires
        d.len() >= 10,
        tag_at(d, 0, tag_gif()),
    ensures
        gif_image(d).0 matches Ok(m) && m.dimensions == Some(
            ((d[6] + d[7] * 0x100) as u32, (d[8] + d[9] * 0x100) as u32),
        ),
{
}

} // verus!
