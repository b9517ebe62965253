//! Size of a WebP image.
use vstd::prelude::*;

use crate::bytes::{has_tag, le16, le16_at, le32, le32_at, tag_at};
use crate::error::MetaError;
use crate::metadata::images::{image, image_of, image_result, ImageMeta, ImageMetadata};
use crate::reader::{can_read_exact, pos_after_exact, read_count, FileReader};

verus! {

/// `webp`
pub open spec fn name_webp() -> Seq<char> {
    seq!['w', 'e', 'b', 'p']
}

/// `RIFF`
pub open spec fn tag_riff() -> Seq<u8> {
    seq![0x52u8, 0x49, 0x46, 0x46]
}

/// `WEBP`
pub open spec fn tag_webp() -> Seq<u8> {
    seq![0x57u8, 0x45, 0x42, 0x50]
}

/// `VP8 `: a lossy bitstream.
pub open spec fn tag_vp8() -> Seq<u8> {
    seq![0x56u8, 0x50, 0x38, 0x20]
}

/// `VP8L`: a lossless bitstream.
pub open spec fn tag_vp8l() -> Seq<u8> {
    seq![0x56u8, 0x50, 0x38, 0x4C]
}

/// `VP8X`: the extended format.
pub open spec fn tag_vp8x() -> Seq<u8> {
    seq![0x56u8, 0x50, 0x38, 0x58]
}

/// The VP8 frame start code.
pub open spec fn vp8_start_code() -> Seq<u8> {
    seq![0x9Du8, 0x01, 0x2A]
}

/// A WebP image of unknown size.
pub open spec fn webp_unknown() -> ImageMeta {
    image(name_webp(), None, None)
}

/// A WebP image of the given size, 24 bits deep.
pub open spec fn webp_sized(w: int, h: int) -> ImageMeta {
    image(name_webp(), Some((w as u32, h as u32)), Some(24))
}

/// The lossy frame header at `p`: the start code, then width and height as
/// little-endian 16-bit values of which the low 14 bits count.
pub open spec fn vp8_frame(d: Seq<u8>, p: int) -> (Result<ImageMeta, MetaError>, int) {
    let len = d.len() as int;
    if !can_read_exact(len, p, 10) {
        (Err(MetaError::UnexpectedEof), pos_after_exact(len, p, 10))
    } else if !tag_at(d, p, vp8_start_code()) {
        (Ok(webp_unknown()), p + 10)
    } else {
        (Ok(webp_sized(le16(d, p + 3) % 0x4000, le16(d, p + 5) % 0x4000)), p + 10)
    }
}

/// The lossless header at `p`: the signature byte `2F`, then a 32-bit
/// little-endian word whose bits 0..14 hold the width less one and bits
/// 14..28 the height less one.
pub open spec fn vp8l_header(d: Seq<u8>, p: int) -> (Result<ImageMeta, MetaError>, int) {
    let len = d.len() as int;
    if !can_read_exact(len, p, 5) {
        (Err(MetaError::UnexpectedEof), pos_after_exact(len, p, 5))
    } else if d[p] != 0x2F {
        (Ok(webp_unknown()), p + 5)
    } else {
        let bits = le32(d, p + 1);
        (Ok(webp_sized(bits % 0x4000 + 1, (bits / 0x4000) % 0x4000 + 1)), p + 5)
    }
}

/// The value of three little-endian bytes.
pub open spec fn le24(d: Seq<u8>, i: int) -> int {
    d[i] + d[i + 1] * 0x100 + d[i + 2] * 0x1_0000
}

/// The extended header at `p`: flags and reserved bytes, then the canvas
/// width and height less one as 24-bit little-endian values.
pub open spec fn vp8x_header(d: Seq<u8>, p: int) -> (Result<ImageMeta, MetaError>, int) {
    let len = d.len() as int;
    if !can_read_exact(len, p, 10) {
        (Err(MetaError::UnexpectedEof), pos_after_exact(len, p, 10))
    } else {
        (Ok(webp_sized(le24(d, p + 4) + 1, le24(d, p + 7) + 1)), p + 10)
    }
}

/// A WebP image: `RIFF`, the size, `WEBP`, then the first chunk, whose
/// type says where the size is.  A file that is not `RIFF`/`WEBP`, whose
/// chunk header is cut short or of another type, is a WebP image of
/// unknown size.
pub open spec fn webp_image(d: Seq<u8>) -> (Result<ImageMeta, MetaError>, int) {
    let len = d.len() as int;
    if !can_read_exact(len, 0, 12) {
        (Err(MetaError::UnexpectedEof), pos_after_exact(len, 0, 12))
    } else if !tag_at(d, 0, tag_riff()) || !tag_at(d, 8, tag_webp()) {
        (Ok(webp_unknown()), 12)
    } else if read_count(len, 12, 8) < 8 {
        (Ok(webp_unknown()), 12 + read_count(len, 12, 8))
    } else if tag_at(d, 12, tag_vp8()) {
        vp8_frame(d, 20)
    } else if tag_at(d, 12, tag_vp8l()) {
        vp8l_header(d, 20)
    } else if tag_at(d, 12, tag_vp8x()) {
        vp8x_header(d, 20)
    } else {
        (Ok(webp_unknown()), 20)
    }
}

fn webp_unknown_meta() -> (r: ImageMetadata)
    ensures
        r@ == webp_unknown(),
{
    let name = ['w', 'e', 'b', 'p'];
    assert(name@ =~= name_webp());
    image_of(&name, None, None)
}

fn webp_sized_meta(w: u32, h: u32) -> (r: ImageMetadata)
    ensures
        r@ == webp_sized(w as int, h as int),
{
    let name = ['w', 'e', 'b', 'p'];
    assert(name@ =~= name_webp());
    image_of(&name, Some((w, h)), Some(24))
}

fn parse_vp8(f: &mut FileReader, _chunk_size: u32) -> (r: Result<ImageMetadata, MetaError>)
    ensures
        final(f)@.0 == old(f)@.0,
        (image_result(r), final(f)@.1) == vp8_frame(old(f)@.0, old(f)@.1),
{
    let ghost p = f@.1;
    let hdr = f.read_exact(10)?;
    assert(hdr@ =~= f@.0.subrange(p, p + 10));
    let code: [u8; 3] = [0x9D, 0x01, 0x2A];
    assert(code@ =~= vp8_start_code());
    if !has_tag(&hdr, 0, &code) {
        assert(!tag_at(f@.0, p, vp8_start_code())) by {
            if tag_at(f@.0, p, vp8_start_code()) {
                assert(hdr@.subrange(0, 3) =~= f@.0.subrange(p, p + 3));
            }
        }
        return Ok(webp_unknown_meta());
    }
    assert(tag_at(f@.0, p, vp8_start_code())) by {
        assert(hdr@.subrange(0, 3) =~= f@.0.subrange(p, p + 3));
    }
    let width = le16_at(&hdr, 3) % 0x4000;
    let height = le16_at(&hdr, 5) % 0x4000;
    Ok(webp_sized_meta(width as u32, height as u32))
}

fn parse_vp8l(f: &mut FileReader) -> (r: Result<ImageMetadata, MetaError>)
    ensures
        final(f)@.0 == old(f)@.0,
        (image_result(r), final(f)@.1) == vp8l_header(old(f)@.0, old(f)@.1),
{
    let ghost p = f@.1;
    let hdr = f.read_exact(5)?;
    assert(hdr@ =~= f@.0.subrange(p, p + 5));
    if hdr[0] != 0x2F {
        return Ok(webp_unknown_meta());
    }
    let bits = le32_at(&hdr, 1);
    let width = bits % 0x4000 + 1;
    let height = (bits / 0x4000) % 0x4000 + 1;
    Ok(webp_sized_meta(width, height))
}

fn parse_vp8x(f: &mut FileReader) -> (r: Result<ImageMetadata, MetaError>)
    ensures
        final(f)@.0 == old(f)@.0,
        (image_result(r), final(f)@.1) == vp8x_header(old(f)@.0, old(f)@.1),
{
    let ghost p = f@.1;
    let hdr = f.read_exact(10)?;
    assert(hdr@ =~= f@.0.subrange(p, p + 10));
    let w = hdr[4] as u32 + (hdr[5] as u32) * 0x100 + (hdr[6] as u32) * 0x1_0000 + 1;
    let h = hdr[7] as u32 + (hdr[8] as u32) * 0x100 + (hdr[9] as u32) * 0x1_0000 + 1;
    Ok(webp_sized_meta(w, h))
}

/// Reads the size of a WebP image.
pub fn parse(f: &mut FileReader) -> (r: Result<ImageMetadata, MetaError>)
    ensures
        final(f)@.0 == old(f)@.0,
        (image_result(r), final(f)@.1) == webp_image(old(f)@.0),
{
    f.seek_start(0)?;
    let riff = f.read_exact(12)?;
    let ghost d = f@.0;
    assert(riff@ =~= d.subrange(0, 12));
    let riff_tag: [u8; 4] = [0x52, 0x49, 0x46, 0x46];
    let webp_tag: [u8; 4] = [0x57, 0x45, 0x42, 0x50];
    assert(riff_tag@ =~= tag_riff());
    assert(webp_tag@ =~= tag_webp());
    assert(tag_at(riff@, 0, tag_riff()) == tag_at(d, 0, tag_riff())) by {
        assert(riff@.subrange(0, 4) =~= d.subrange(0, 4));
    }
    assert(tag_at(riff@, 8, tag_webp()) == tag_at(d, 8, tag_webp())) by {
        assert(riff@.subrange(8, 12) =~= d.subrange(8, 12));
    }
    if !has_tag(&riff, 0, &riff_tag) || !has_tag(&riff, 8, &webp_tag) {
        return Ok(webp_unknown_meta());
    }
    let chunk_hdr = f.read(8);
    if chunk_hdr.len() < 8 {
        return Ok(webp_unknown_meta());
    }
    assert(chunk_hdr@ =~= d.subrange(12, 20));
    let vp8: [u8; 4] = [0x56, 0x50, 0x38, 0x20];
    let vp8l: [u8; 4] = [0x56, 0x50, 0x38, 0x4C];
    let vp8x: [u8; 4] = [0x56, 0x50, 0x38, 0x58];
    assert(vp8@ =~= tag_vp8());
    assert(vp8l@ =~= tag_vp8l());
    assert(vp8x@ =~= tag_vp8x());
    assert(chunk_hdr@.subrange(0, 4) =~= d.subrange(12, 16));
    let chunk_size = le32_at(&chunk_hdr, 4);
    if has_tag(&chunk_hdr, 0, &vp8) {
        parse_vp8(f, chunk_size)
    } else if has_tag(&chunk_hdr, 0, &vp8l) {
        parse_vp8l(f)
    } else if has_tag(&chunk_hdr, 0, &vp8x) {
        parse_vp8x(f)
    } else {
        Ok(webp_unknown_meta())
    }
}

} // verus!

verus! {

/// A `RIFF`/`WEBP` file with a whole chunk header at 12.
pub open spec fn webp_chunk(d: Seq<u8>, tag: Seq<u8>) -> bool {
    &&& d.len() >= 20
    &&& tag_at(d, 0, tag_riff())
    &&& tag_at(d, 8, tag_webp())
    &&& tag_at(d, 12, tag)
}

/// The size of a WebP image by its first chunk: `VP8X` holds the canvas
/// width and height less one as 24-bit little-endian values at 24 and 27;
/// `VP8L` packs width and height less one in 14 bits each of the
/// little-endian word at 21; `VP8 ` holds them in the low 14 bits of the
/// little-endian 16-bit values at 23 and 25.
pub proof fn lemma_webp_size(d: Seq<u8>)
    ensures
        webp_chunk(d, tag_vp8x()) && d.len() >= 30 ==> (webp_image(d).0 matches Ok(m)
            && m.dimensions == Some(
            (
                (d[24] + d[25] * 0x100 + d[26] * 0x1_0000 + 1) as u32,
                (d[27] + d[28] * 0x100 + d[29] * 0x1_0000 + 1) as u32,
            ),
        )),
        webp_chunk(d, tag_vp8l()) && d.len() >= 25 && d[20] == 0x2F ==> (webp_image(d).0 matches Ok(
            m,
        ) && m.dimensions == Some(
            (
                (le32(d, 21) % 0x4000 + 1) as u32,
                ((le32(d, 21) / 0x4000) % 0x4000 + 1) as u32,
            ),
        )),
        webp_chunk(d, tag_vp8()) && d.len() >= 30 && tag_at(d, 20, vp8_start_code()) ==> (webp_image(
            d,
        ).0 matches Ok(m) && m.dimensions == Some(
            (((d[23] + d[24] * 0x100) % 0x4000) as u32, ((d[25] + d[26] * 0x100) % 0x4000) as u32),
        )),
{
    assert(tag_vp8() != tag_vp8l() && tag_vp8() != tag_vp8x() && tag_vp8l() != tag_vp8x()) by {
        assert(tag_vp8()[3] != tag_vp8l()[3]);
        assert(tag_vp8()[3] != tag_vp8x()[3]);
        assert(tag_vp8l()[3] != tag_vp8x()[3]);
    }
}

} // verus!
