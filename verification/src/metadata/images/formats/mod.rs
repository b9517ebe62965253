//! Choosing the image format from the first bytes of a file.
use vstd::prelude::*;

use crate::bytes::{has_tag, tag_at};
use crate::error::MetaError;
use crate::metadata::images::{empty_image, ImageMeta, ImageMetadata};
use crate::reader::{can_read_exact, pos_after_exact, FileReader};

pub mod bitmap;
pub mod vector;

verus! {

/// `FF D8`: JPEG.
pub open spec fn magic_jpg() -> Seq<u8> {
    seq![0xFFu8, 0xD8]
}

/// The PNG signature.
pub open spec fn magic_png() -> Seq<u8> {
    seq![0x89u8, 0x50, 0x4E, 0x47, 0x0D, 0x0A, 0x1A, 0x0A]
}

/// `GIF87a`
pub open spec fn magic_gif87() -> Seq<u8> {
    seq![0x47u8, 0x49, 0x46, 0x38, 0x37, 0x61]
}

/// `GIF89a`
pub open spec fn magic_gif89() -> Seq<u8> {
    seq![0x47u8, 0x49, 0x46, 0x38, 0x39, 0x61]
}

/// `BM`: BMP.
pub open spec fn magic_bmp() -> Seq<u8> {
    seq![0x42u8, 0x4D]
}

/// `II*\0`: little-endian TIFF.
pub open spec fn magic_tiff_le() -> Seq<u8> {
    seq![0x49u8, 0x49, 0x2A, 0x00]
}

/// `MM\0*`: big-endian TIFF.
pub open spec fn magic_tiff_be() -> Seq<u8> {
    seq![0x4Du8, 0x4D, 0x00, 0x2A]
}

/// `00 00 01 00`: ICO.
pub open spec fn magic_ico() -> Seq<u8> {
    seq![0x00u8, 0x00, 0x01, 0x00]
}

/// `RIFF`
pub open spec fn magic_riff() -> Seq<u8> {
    seq![0x52u8, 0x49, 0x46, 0x46]
}

/// `WEBP`
pub open spec fn magic_webp() -> Seq<u8> {
    seq![0x57u8, 0x45, 0x42, 0x50]
}

/// `00 00 00`: the high bytes of a small box size.
pub open spec fn magic_box_size() -> Seq<u8> {
    seq![0x00u8, 0x00, 0x00]
}

/// `ftyp`
pub open spec fn magic_ftyp() -> Seq<u8> {
    seq![0x66u8, 0x74, 0x79, 0x70]
}

/// `<`: SVG or XML text.
pub open spec fn magic_svg() -> Seq<u8> {
    seq![0x3Cu8]
}

/// `%PDF`
pub open spec fn magic_pdf() -> Seq<u8> {
    seq![0x25u8, 0x50, 0x44, 0x46]
}

/// `%!PS`: EPS.
pub open spec fn magic_eps() -> Seq<u8> {
    seq![0x25u8, 0x21, 0x50, 0x53]
}

/// Whether the four bytes name one of the AVIF brands.
pub open spec fn is_avif_brand(b: Seq<u8>) -> bool {
    b == seq![0x61u8, 0x76, 0x69, 0x66] || b == seq![0x61u8, 0x76, 0x69, 0x73]
}

/// Whether the four bytes name one of the HEIF brands.
pub open spec fn is_heif_brand(b: Seq<u8>) -> bool {
    ||| b == seq![0x68u8, 0x65, 0x69, 0x63]
    ||| b == seq![0x68u8, 0x65, 0x69, 0x78]
    ||| b == seq![0x6Du8, 0x69, 0x66, 0x31]
    ||| b == seq![0x6Du8, 0x73, 0x66, 0x31]
}

/// An image read with no media box text.
pub open spec fn plain(r: Result<ImageMeta, MetaError>) -> Result<
    (ImageMeta, Option<Seq<char>>),
    MetaError,
> {
    match r {
        Ok(m) => Ok((m, None)),
        Err(e) => Err(e),
    }
}

/// The value of a read image: the metadata and the media box text.
pub open spec fn read_result(r: Result<(ImageMetadata, Option<String>), MetaError>) -> Result<
    (ImageMeta, Option<Seq<char>>),
    MetaError,
> {
    match r {
        Ok((m, b)) => Ok(
            (
                m@,
                match b {
                    Some(s) => Some(s@),
                    None => None,
                },
            ),
        ),
        Err(e) => Err(e),
    }
}

/// An ISO base media file: the brand at bytes 8..12 chooses AVIF or HEIF.
pub open spec fn iso_image(d: Seq<u8>) -> Result<ImageMeta, MetaError> {
    if !can_read_exact(d.len() as int, 8, 4) {
        Err(MetaError::UnexpectedEof)
    } else {
        let brand = d.subrange(8, 12);
        if is_avif_brand(brand) {
            bitmap::avif::avif_image(d).0
        } else if is_heif_brand(brand) {
            bitmap::heif::heif_image(d).0
        } else {
            Err(MetaError::UnknownIsoBmffBrand)
        }
    }
}

/// Reading an image whose first bytes are `hdr`: the first pattern that
/// the bytes match chooses the format; bytes of no known format give the
/// empty metadata.
pub open spec fn image_detect(hdr: Seq<u8>, d: Seq<u8>) -> Result<
    (ImageMeta, Option<Seq<char>>),
    MetaError,
> {
    if tag_at(hdr, 0, magic_jpg()) {
        plain(bitmap::jpg::jpg_image(d))
    } else if tag_at(hdr, 0, magic_png()) {
        plain(bitmap::png::png_image(d).0)
    } else if tag_at(hdr, 0, magic_gif87()) || tag_at(hdr, 0, magic_gif89()) {
        plain(bitmap::gif::gif_image(d).0)
    } else if tag_at(hdr, 0, magic_bmp()) {
        plain(bitmap::bmp::bmp_image(d).0)
    } else if tag_at(hdr, 0, magic_tiff_le()) || tag_at(hdr, 0, magic_tiff_be()) {
        plain(bitmap::tiff::tiff_image(d).0)
    } else if tag_at(hdr, 0, magic_ico()) {
        plain(bitmap::ico::ico_image(d).0)
    } else if tag_at(hdr, 0, magic_riff()) && tag_at(hdr, 8, magic_webp()) {
        plain(bitmap::webp::webp_image(d).0)
    } else if tag_at(hdr, 0, magic_box_size()) && tag_at(hdr, 4, magic_ftyp()) {
        plain(iso_image(d))
    } else if tag_at(hdr, 0, magic_svg()) {
        plain(vector::svg::svg_image(d))
    } else if tag_at(hdr, 0, magic_pdf()) {
        vector::pdf::pdf_document(d)
    } else if tag_at(hdr, 0, magic_eps()) {
        plain(vector::eps::eps_image(d))
    } else {
        Ok((empty_image(), None))
    }
}

/// Where reading an ISO base media file leaves the reader.
pub open spec fn iso_pos(d: Seq<u8>) -> int {
    let len = d.len() as int;
    if !can_read_exact(len, 8, 4) {
        pos_after_exact(len, 8, 4)
    } else if is_avif_brand(d.subrange(8, 12)) {
        bitmap::avif::avif_image(d).1
    } else if is_heif_brand(d.subrange(8, 12)) {
        bitmap::heif::heif_image(d).1
    } else {
        12
    }
}

/// Where reading an image whose first bytes are `hdr` leaves a reader that
/// was at `pos`: none for EPS, whose lines are read through a buffer.
pub open spec fn image_detect_pos(hdr: Seq<u8>, d: Seq<u8>, pos: int) -> Option<int> {
    let len = d.len() as int;
    if tag_at(hdr, 0, magic_jpg()) {
        Some(len)
    } else if tag_at(hdr, 0, magic_png()) {
        Some(bitmap::png::png_image(d).1)
    } else if tag_at(hdr, 0, magic_gif87()) || tag_at(hdr, 0, magic_gif89()) {
        Some(bitmap::gif::gif_image(d).1)
    } else if tag_at(hdr, 0, magic_bmp()) {
        Some(bitmap::bmp::bmp_image(d).1)
    } else if tag_at(hdr, 0, magic_tiff_le()) || tag_at(hdr, 0, magic_tiff_be()) {
        Some(bitmap::tiff::tiff_image(d).1)
    } else if tag_at(hdr, 0, magic_ico()) {
        Some(bitmap::ico::ico_image(d).1)
    } else if tag_at(hdr, 0, magic_riff()) && tag_at(hdr, 8, magic_webp()) {
        Some(bitmap::webp::webp_image(d).1)
    } else if tag_at(hdr, 0, magic_box_size()) && tag_at(hdr, 4, magic_ftyp()) {
        Some(iso_pos(d))
    } else if tag_at(hdr, 0, magic_svg()) || tag_at(hdr, 0, magic_pdf()) {
        Some(len)
    } else if tag_at(hdr, 0, magic_eps()) {
        None
    } else {
        Some(pos)
    }
}

fn plain_read(r: Result<ImageMetadata, MetaError>) -> (o: Result<
    (ImageMetadata, Option<String>),
    MetaError,
>)
    ensures
        read_result(o) == plain(crate::metadata::images::image_result(r)),
{
    match r {
        Ok(m) => Ok((m, None)),
        Err(e) => Err(e),
    }
}

fn read_iso(f: &mut FileReader) -> (r: Result<ImageMetadata, MetaError>)
    ensures
        final(f)@.0 == old(f)@.0,
        final(f)@.1 == iso_pos(old(f)@.0),
        crate::metadata::images::image_result(r) == iso_image(old(f)@.0),
{
    f.seek_start(8)?;
    let brand = f.read_exact(4)?;
    assert(brand@ =~= f@.0.subrange(8, 12));
    let avif: [u8; 4] = [0x61, 0x76, 0x69, 0x66];
    let avis: [u8; 4] = [0x61, 0x76, 0x69, 0x73];
    let heic: [u8; 4] = [0x68, 0x65, 0x69, 0x63];
    let heix: [u8; 4] = [0x68, 0x65, 0x69, 0x78];
    let mif1: [u8; 4] = [0x6D, 0x69, 0x66, 0x31];
    let msf1: [u8; 4] = [0x6D, 0x73, 0x66, 0x31];
    assert(brand@.subrange(0, 4) =~= brand@);
    if has_tag(&brand, 0, &avif) || has_tag(&brand, 0, &avis) {
        assert(is_avif_brand(brand@)) by {
            assert(avif@ =~= seq![0x61u8, 0x76, 0x69, 0x66]);
            assert(avis@ =~= seq![0x61u8, 0x76, 0x69, 0x73]);
        }
        bitmap::avif::parse(f)
    } else if has_tag(&brand, 0, &heic) || has_tag(&brand, 0, &heix) || has_tag(&brand, 0, &mif1)
        || has_tag(&brand, 0, &msf1) {
        assert(!is_avif_brand(brand@)) by {
            assert(avif@ =~= seq![0x61u8, 0x76, 0x69, 0x66]);
            assert(avis@ =~= seq![0x61u8, 0x76, 0x69, 0x73]);
        }
        assert(is_heif_brand(brand@)) by {
            assert(heic@ =~= seq![0x68u8, 0x65, 0x69, 0x63]);
            assert(heix@ =~= seq![0x68u8, 0x65, 0x69, 0x78]);
            assert(mif1@ =~= seq![0x6Du8, 0x69, 0x66, 0x31]);
            assert(msf1@ =~= seq![0x6Du8, 0x73, 0x66, 0x31]);
        }
        bitmap::heif::parse(f)
    } else {
        assert(!is_avif_brand(brand@)) by {
            assert(avif@ =~= seq![0x61u8, 0x76, 0x69, 0x66]);
            assert(avis@ =~= seq![0x61u8, 0x76, 0x69, 0x73]);
        }
        assert(!is_heif_brand(brand@)) by {
            assert(heic@ =~= seq![0x68u8, 0x65, 0x69, 0x63]);
            assert(heix@ =~= seq![0x68u8, 0x65, 0x69, 0x78]);
            assert(mif1@ =~= seq![0x6Du8, 0x69, 0x66, 0x31]);
            assert(msf1@ =~= seq![0x6Du8, 0x73, 0x66, 0x31]);
        }
        Err(MetaError::UnknownIsoBmffBrand)
    }
}

/// Reads an image whose first bytes are `header` from `f`: the metadata,
/// and for a PDF document the text of its media box, from which the caller
/// computes the page size.
pub fn detect_and_parse(header: &[u8], f: &mut FileReader) -> (r: Result<
    (ImageMetadata, Option<String>),
    MetaError,
>)
    ensures
        final(f)@.0 == old(f)@.0,
        image_detect_pos(header@, old(f)@.0, old(f)@.1) matches Some(p) ==> final(f)@.1 == p,
        read_result(r) == image_detect(header@, old(f)@.0),
{
    let jpg: [u8; 2] = [0xFF, 0xD8];
    let png: [u8; 8] = [0x89, 0x50, 0x4E, 0x47, 0x0D, 0x0A, 0x1A, 0x0A];
    let gif87: [u8; 6] = [0x47, 0x49, 0x46, 0x38, 0x37, 0x61];
    let gif89: [u8; 6] = [0x47, 0x49, 0x46, 0x38, 0x39, 0x61];
    let bmp: [u8; 2] = [0x42, 0x4D];
    let tiff_le: [u8; 4] = [0x49, 0x49, 0x2A, 0x00];
    let tiff_be: [u8; 4] = [0x4D, 0x4D, 0x00, 0x2A];
    let ico: [u8; 4] = [0x00, 0x00, 0x01, 0x00];
    let riff: [u8; 4] = [0x52, 0x49, 0x46, 0x46];
    let webp: [u8; 4] = [0x57, 0x45, 0x42, 0x50];
    let box_size: [u8; 3] = [0x00, 0x00, 0x00];
    let ftyp: [u8; 4] = [0x66, 0x74, 0x79, 0x70];
    let svg: [u8; 1] = [0x3C];
    let pdf: [u8; 4] = [0x25, 0x50, 0x44, 0x46];
    let eps: [u8; 4] = [0x25, 0x21, 0x50, 0x53];
    assert(jpg@ =~= magic_jpg());
    assert(png@ =~= magic_png());
    assert(gif87@ =~= magic_gif87());
    assert(gif89@ =~= magic_gif89());
    assert(bmp@ =~= magic_bmp());
    assert(tiff_le@ =~= magic_tiff_le());
    assert(tiff_be@ =~= magic_tiff_be());
    assert(ico@ =~= magic_ico());
    assert(riff@ =~= magic_riff());
    assert(webp@ =~= magic_webp());
    assert(box_size@ =~= magic_box_size());
    assert(ftyp@ =~= magic_ftyp());
    assert(svg@ =~= magic_svg());
    assert(pdf@ =~= magic_pdf());
    assert(eps@ =~= magic_eps());
    if has_tag(header, 0, &jpg) {
        plain_read(bitmap::jpg::parse(f))
    } else if has_tag(header, 0, &png) {
        plain_read(bitmap::png::parse(f))
    } else if has_tag(header, 0, &gif87) || has_tag(header, 0, &gif89) {
        plain_read(bitmap::gif::parse(f))
    } else if has_tag(header, 0, &bmp) {
        plain_read(bitmap::bmp::parse(f))
    } else if has_tag(header, 0, &tiff_le) || has_tag(header, 0, &tiff_be) {
        plain_read(bitmap::tiff::parse(f))
    } else if has_tag(header, 0, &ico) {
        plain_read(bitmap::ico::parse(f))
    } else if has_tag(header, 0, &riff) && has_tag(header, 8, &webp) {
        plain_read(bitmap::webp::parse(f))
    } else if has_tag(header, 0, &box_size) && has_tag(header, 4, &ftyp) {
        plain_read(read_iso(f))
    } else if has_tag(header, 0, &svg) {
        plain_read(vector::svg::parse(f))
    } else if has_tag(header, 0, &pdf) {
        vector::pdf::parse(f)
    } else if has_tag(header, 0, &eps) {
        plain_read(vector::eps::parse(f))
    } else {
        Ok((ImageMetadata::default(), None))
    }
}

} // verus!

verus! {

/// An ISO base media file (`00 00 00 ?? ftyp`) whose brand names neither
/// AVIF nor HEIF is refused as an unknown kind of ISO base media file.
pub proof fn lemma_iso_brand_required(hdr: Seq<u8>, d: Seq<u8>)
    requires
        tag_at(hdr, 0, magic_box_size()),
        tag_at(hdr, 4, magic_ftyp()),
        d.len() >= 12,
        !is_avif_brand(d.subrange(8, 12)),
        !is_heif_brand(d.subrange(8, 12)),
    ensures
        image_detect(hdr, d) == Err::<(ImageMeta, Option<Seq<char>>), MetaError>(
            MetaError::UnknownIsoBmffBrand,
        ),
{
    assert(hdr[0] == 0 && hdr[1] == 0 && hdr[2] == 0) by {
        assert(hdr.subrange(0, 3)[0] == hdr[0]);
        assert(hdr.subrange(0, 3)[1] == hdr[1]);
        assert(hdr.subrange(0, 3)[2] == hdr[2]);
    }
    assert(!tag_at(hdr, 0, magic_jpg())) by {
        if tag_at(hdr, 0, magic_jpg()) {
            assert(hdr.subrange(0, 2)[0] == hdr[0]);
        }
    }
    assert(!tag_at(hdr, 0, magic_png())) by {
        if tag_at(hdr, 0, magic_png()) {
            assert(hdr.subrange(0, 8)[0] == hdr[0]);
        }
    }
    assert(!tag_at(hdr, 0, magic_gif87()) && !tag_at(hdr, 0, magic_gif89())) by {
        if tag_at(hdr, 0, magic_gif87()) || tag_at(hdr, 0, magic_gif89()) {
            assert(hdr.subrange(0, 6)[0] == hdr[0]);
        }
    }
    assert(!tag_at(hdr, 0, magic_bmp())) by {
        if tag_at(hdr, 0, magic_bmp()) {
            assert(hdr.subrange(0, 2)[0] == hdr[0]);
        }
    }
    assert(!tag_at(hdr, 0, magic_tiff_le()) && !tag_at(hdr, 0, magic_tiff_be())) by {
        if tag_at(hdr, 0, magic_tiff_le()) || tag_at(hdr, 0, magic_tiff_be()) {
            assert(hdr.subrange(0, 4)[0] == hdr[0]);
        }
    }
    assert(!tag_at(hdr, 0, magic_ico())) by {
        if tag_at(hdr, 0, magic_ico()) {
            assert(hdr.subrange(0, 4)[2] == hdr[2]);
        }
    }
    assert(!tag_at(hdr, 0, magic_riff())) by {
        if tag_at(hdr, 0, magic_riff()) {
            assert(hdr.subrange(0, 4)[0] == hdr[0]);
        }
    }
}

/// Whether the header starts as an SVG, PDF or EPS file does.
pub open spec fn vector_header(hdr: Seq<u8>) -> bool {
    tag_at(hdr, 0, magic_svg()) || tag_at(hdr, 0, magic_pdf()) || tag_at(hdr, 0, magic_eps())
}

/// Vector images give no colour depth.
pub proof fn lemma_vector_images_have_no_depth(hdr: Seq<u8>, d: Seq<u8>)
    requires
        vector_header(hdr),
    ensures
        image_detect(hdr, d) matches Ok((m, _)) ==> m.color_depth is None,
{
    assert(hdr.len() >= 1 && (hdr[0] == 0x3C || hdr[0] == 0x25)) by {
        if tag_at(hdr, 0, magic_svg()) {
            assert(hdr.subrange(0, 1)[0] == hdr[0]);
        } else {
            assert(hdr.subrange(0, 4)[0] == hdr[0]);
        }
    }
    assert(!tag_at(hdr, 0, magic_jpg())) by {
        if tag_at(hdr, 0, magic_jpg()) {
            assert(hdr.subrange(0, 2)[0] == hdr[0]);
        }
    }
    assert(!tag_at(hdr, 0, magic_png())) by {
        if tag_at(hdr, 0, magic_png()) {
            assert(hdr.subrange(0, 8)[0] == hdr[0]);
        }
    }
    assert(!tag_at(hdr, 0, magic_gif87()) && !tag_at(hdr, 0, magic_gif89())) by {
        if tag_at(hdr, 0, magic_gif87()) || tag_at(hdr, 0, magic_gif89()) {
            assert(hdr.subrange(0, 6)[0] == hdr[0]);
        }
    }
    assert(!tag_at(hdr, 0, magic_bmp())) by {
        if tag_at(hdr, 0, magic_bmp()) {
            assert(hdr.subrange(0, 2)[0] == hdr[0]);
        }
    }
    assert(!tag_at(hdr, 0, magic_tiff_le()) && !tag_at(hdr, 0, magic_tiff_be())) by {
        if tag_at(hdr, 0, magic_tiff_le()) || tag_at(hdr, 0, magic_tiff_be()) {
            assert(hdr.subrange(0, 4)[0] == hdr[0]);
        }
    }
    assert(!tag_at(hdr, 0, magic_ico())) by {
        if tag_at(hdr, 0, magic_ico()) {
            assert(hdr.subrange(0, 4)[0] == hdr[0]);
        }
    }
    assert(!tag_at(hdr, 0, magic_riff())) by {
        if tag_at(hdr, 0, magic_riff()) {
            assert(hdr.subrange(0, 4)[0] == hdr[0]);
        }
    }
    assert(!tag_at(hdr, 0, magic_box_size())) by {
        if tag_at(hdr, 0, magic_box_size()) {
            assert(hdr.subrange(0, 3)[0] == hdr[0]);
        }
    }
}

} // verus!
