//! Size of a PNG image.
use vstd::prelude::*;

use crate::bytes::{be32, be32_at, has_tag, tag_at};
use crate::error::MetaError;
use crate::metadata::images::{image, image_of, image_result, ImageMeta, ImageMetadata};
use crate::reader::{can_read_exact, pos_after_exact, FileReader};

verus! {

/// The PNG signature.
pub open spec fn png_signature() -> Seq<u8> {
    seq![0x89u8, 0x50, 0x4E, 0x47, 0x0D, 0x0A, 0x1A, 0x0A]
}

/// `png`
pub open spec fn name_png() -> Seq<char> {
    seq!['p', 'n', 'g']
}

/// A PNG image: the signature, then the IHDR chunk whose width and height
/// are the big-endian words at bytes 16 and 20.
pub open spec fn png_image(d: Seq<u8>) -> (Result<ImageMeta, MetaError>, int) {
    let len = d.len() as int;
    if !can_read_exact(len, 0, 24) {
        (Err(MetaError::UnexpectedEof), pos_after_exact(len, 0, 24))
    } else if !tag_at(d, 0, png_signature()) {
        (Err(MetaError::NotPng), 24)
    } else {
        (Ok(image(name_png(), Some((be32(d, 16) as u32, be32(d, 20) as u32)), Some(24))), 24)
    }
}

/// Reads the size of a PNG image.
pub fn parse(f: &mut FileReader) -> (r: Result<ImageMetadata, MetaError>)
    ensures
        final(f)@.0 == old(f)@.0,
        (image_result(r), final(f)@.1) == png_image(old(f)@.0),
{
    f.seek_start(0)?;
    let buf = f.read_exact(24)?;
    let sig: [u8; 8] = [0x89, 0x50, 0x4E, 0x47, 0x0D, 0x0A, 0x1A, 0x0A];
    assert(sig@ =~= png_signature());
    assert(buf@ =~= f@.0.subrange(0, 24));
    if !has_tag(&buf, 0, &sig) {
        assert(!tag_at(f@.0, 0, png_signature())) by {
            if tag_at(f@.0, 0, png_signature()) {
                assert(buf@.subrange(0, 8) =~= f@.0.subrange(0, 8));
            }
        }
        return Err(MetaError::NotPng);
    }
    assert(tag_at(f@.0, 0, png_signature())) by {
        assert(buf@.subrange(0, 8) =~= f@.0.subrange(0, 8));
    }
    let width = be32_at(&buf, 16);
    let height = be32_at(&buf, 20);
    let name = ['p', 'n', 'g'];
    assert(name@ =~= name_png());
    Ok(image_of(&name, Some((width, height)), Some(24)))
}

} // verus!

verus! {

/// A PNG file's width is the big-endian value of IHDR bytes 16..20 and its
/// height that of bytes 20..24.
pub proof fn lemma_png_size(d: Seq<u8>)
    requires
        d.len() >= 24,
        tag_at(d, 0, png_signature()),
    ensures
        png_image(d).0 matches Ok(m) && m.dimensions == Some(
            (
                (d[16] * 0x100_0000 + d[17] * 0x1_0000 + d[18] * 0x100 + d[19]) as u32,
                (d[20] * 0x100_0000 + d[21] * 0x1_0000 + d[22] * 0x100 + d[23]) as u32,
            ),
        ),
{
}

} // verus!
