use remeta::error::MetaError;
use remeta::metadata::images::formats::bitmap::{avif, bmp, gif, heif, ico, jpg, png, tiff, webp};
use remeta::metadata::images::formats::detect_and_parse;
use remeta::metadata::images::formats::vector::{eps, pdf, svg};
use remeta::reader::FileReader;
use remeta::ImageMetadata;

fn reader(bytes: &[u8]) -> FileReader {
    FileReader::new(bytes.to_vec())
}

fn be32(v: u32) -> Vec<u8> {
    v.to_be_bytes().to_vec()
}

fn le32(v: u32) -> Vec<u8> {
    v.to_le_bytes().to_vec()
}

fn png_bytes(w: u32, h: u32) -> Vec<u8> {
    let mut d = vec![0x89, 0x50, 0x4E, 0x47, 0x0D, 0x0A, 0x1A, 0x0A, 0, 0, 0, 13];
    d.extend_from_slice(b"IHDR");
    d.extend(be32(w));
    d.extend(be32(h));
    d
}

fn check(m: &ImageMetadata, dims: Option<(u32, u32)>, depth: Option<u8>, format: &str) {
    assert_eq!(m.title, None);
    assert_eq!(m.dimensions, dims);
    assert_eq!(m.color_depth, depth);
    assert_eq!(m.format.as_deref(), Some(format));
}

#[test]
fn png_size() {
    let m = png::parse(&mut reader(&png_bytes(256, 200))).unwrap();
    check(&m, Some((256, 200)), Some(24), "png");
}

#[test]
fn png_errors() {
    assert_eq!(png::parse(&mut reader(&[0u8; 24])).unwrap_err(), MetaError::NotPng);
    assert_eq!(png::parse(&mut reader(&[0x89; 10])).unwrap_err(), MetaError::UnexpectedEof);
}

#[test]
fn gif_size() {
    let m = gif::parse(&mut reader(b"GIF89a\x40\x01\xF0\x00")).unwrap();
    check(&m, Some((320, 240)), Some(8), "gif");
    assert_eq!(gif::parse(&mut reader(b"XIF89a\x40\x01\xF0\x00")).unwrap_err(), MetaError::NotGif);
}

fn bmp_bytes(dib: u32, w: i32, h: i32) -> Vec<u8> {
    let mut d = b"BM".to_vec();
    d.extend_from_slice(&[0; 12]);
    d.extend(le32(dib));
    d.extend_from_slice(&w.to_le_bytes());
    d.extend_from_slice(&h.to_le_bytes());
    d.extend_from_slice(&[1, 0, 24, 0]);
    d
}

#[test]
fn bmp_size() {
    let m = bmp::parse(&mut reader(&bmp_bytes(40, 100, -50))).unwrap();
    check(&m, Some((100, 50)), Some(24), "bmp");
    let m = bmp::parse(&mut reader(&bmp_bytes(12, 100, 50))).unwrap();
    check(&m, None, None, "bmp");
}

#[test]
fn bmp_least_height_overflows() {
    assert_eq!(
        bmp::parse(&mut reader(&bmp_bytes(40, 1, i32::MIN))).unwrap_err(),
        MetaError::Overflow
    );
}

#[test]
fn jpg_size() {
    let d = [0xFF, 0xD8, 0xFF, 0xC0, 0x00, 0x11, 0x08, 0x00, 0x20, 0x00, 0x40];
    let m = jpg::parse(&mut reader(&d)).unwrap();
    check(&m, Some((64, 32)), Some(24), "jpg");
    let mut d = vec![0xFF, 0xD8, 0xFF, 0xE0, 0x00, 0x04, 0x00, 0x00];
    d.extend_from_slice(&[0xFF, 0xC0, 0x00, 0x11, 0x08, 0x01, 0xE0, 0x02, 0x80, 0x03]);
    let m = jpg::parse(&mut reader(&d)).unwrap();
    check(&m, Some((640, 480)), Some(24), "jpg");
    let m = jpg::parse(&mut reader(&[0xFF, 0xD8, 0, 0, 0, 0, 0, 0, 0, 0])).unwrap();
    check(&m, None, Some(24), "jpg");
}

#[test]
fn jpg_errors() {
    assert_eq!(jpg::parse(&mut reader(&[0, 0])).unwrap_err(), MetaError::NotJpeg);
    assert_eq!(jpg::parse(&mut reader(&[0xFF])).unwrap_err(), MetaError::NotJpeg);
}

#[test]
fn jpg_cut_frame_header_has_no_size() {
    let cut = [0xFF, 0xD8, 0xFF, 0xC0, 0x00, 0x11, 0x08, 0x00, 0x20, 0x00];
    let m = jpg::parse(&mut reader(&cut)).unwrap();
    check(&m, None, Some(24), "jpg");
}

#[test]
fn ico_largest_icon() {
    let mut d = vec![0, 0, 1, 0, 2, 0];
    d.extend_from_slice(&[16, 16, 0, 0, 1, 0, 32, 0, 0, 0, 0, 0, 0, 0, 0, 0]);
    d.extend_from_slice(&[0, 0, 0, 0, 1, 0, 8, 0, 0, 0, 0, 0, 0, 0, 0, 0]);
    let m = ico::parse(&mut reader(&d)).unwrap();
    check(&m, Some((256, 256)), Some(8), "ico");
    assert_eq!(ico::parse(&mut reader(&[0, 0, 1, 0, 1, 0])).unwrap_err(), MetaError::UnexpectedEof);
}

fn tiff_entry(le: bool, tag: u16, value: u32) -> Vec<u8> {
    let mut e = Vec::new();
    if le {
        e.extend_from_slice(&tag.to_le_bytes());
        e.extend_from_slice(&[3, 0, 1, 0, 0, 0]);
        e.extend_from_slice(&value.to_le_bytes());
    } else {
        e.extend_from_slice(&tag.to_be_bytes());
        e.extend_from_slice(&[0, 3, 0, 0, 0, 1]);
        e.extend_from_slice(&value.to_be_bytes());
    }
    e
}

#[test]
fn tiff_little_endian() {
    let mut d = vec![0x49, 0x49, 0x2A, 0x00, 8, 0, 0, 0, 3, 0];
    d.extend(tiff_entry(true, 256, 320));
    d.extend(tiff_entry(true, 257, 240));
    d.extend(tiff_entry(true, 258, 0x108));
    let m = tiff::parse(&mut reader(&d)).unwrap();
    check(&m, Some((320, 240)), Some(8), "tiff");
}

#[test]
fn tiff_big_endian_without_height() {
    let mut d = vec![0x4D, 0x4D, 0x00, 0x2A, 0, 0, 0, 8, 0, 1];
    d.extend(tiff_entry(false, 256, 320));
    let m = tiff::parse(&mut reader(&d)).unwrap();
    check(&m, None, None, "tiff");
}

#[test]
fn tiff_unknown_byte_order() {
    let m = tiff::parse(&mut reader(b"XXXXXXXX")).unwrap();
    assert_eq!(m.format, None);
    assert_eq!(m.dimensions, None);
}

fn webp_bytes(chunk: &[u8; 4], body: &[u8]) -> Vec<u8> {
    let mut d = b"RIFF".to_vec();
    d.extend(le32(100));
    d.extend_from_slice(b"WEBP");
    d.extend_from_slice(chunk);
    d.extend(le32(body.len() as u32));
    d.extend_from_slice(body);
    d
}

#[test]
fn webp_sizes() {
    let m = webp::parse(&mut reader(&webp_bytes(
        b"VP8X",
        &[0, 0, 0, 0, 0x7F, 0x02, 0x00, 0xDF, 0x01, 0x00],
    )))
    .unwrap();
    check(&m, Some((640, 480)), Some(24), "webp");
    let m = webp::parse(&mut reader(&webp_bytes(b"VP8L", &[0x2F, 0x63, 0x40, 0x0C, 0x00])))
        .unwrap();
    check(&m, Some((100, 50)), Some(24), "webp");
    let m = webp::parse(&mut reader(&webp_bytes(
        b"VP8 ",
        &[0x9D, 0x01, 0x2A, 0x80, 0xC2, 0xE0, 0x01, 0, 0, 0],
    )))
    .unwrap();
    check(&m, Some((640, 480)), Some(24), "webp");
}

#[test]
fn webp_unknown_size() {
    let m = webp::parse(&mut reader(&webp_bytes(b"ABCD", &[0; 10]))).unwrap();
    check(&m, None, None, "webp");
    let m = webp::parse(&mut reader(&webp_bytes(b"VP8 ", &[0; 10]))).unwrap();
    check(&m, None, None, "webp");
    let m = webp::parse(&mut reader(b"RIFF\0\0\0\0WEBPVP8")).unwrap();
    check(&m, None, None, "webp");
}

fn heif_bytes(ispe_size: u32) -> Vec<u8> {
    let mut d = be32(16);
    d.extend_from_slice(b"ftypheic\0\0\0\0");
    d.extend(be32(40));
    d.extend_from_slice(b"meta\0\0\0\0");
    d.extend(be32(28));
    d.extend_from_slice(b"ipco");
    d.extend(be32(ispe_size));
    d.extend_from_slice(b"ispe\0\0\0\0");
    d.extend(be32(1920));
    d.extend(be32(1080));
    d
}

#[test]
fn heif_size() {
    let m = heif::parse(&mut reader(&heif_bytes(20))).unwrap();
    check(&m, Some((1920, 1080)), Some(24), "heif");
}

#[test]
fn heif_small_sub_box_overflows() {
    assert_eq!(heif::parse(&mut reader(&heif_bytes(4))).unwrap_err(), MetaError::Overflow);
}

fn avif_bytes(brand: &[u8; 4]) -> Vec<u8> {
    let mut d = be32(20);
    d.extend_from_slice(b"ftyp");
    d.extend_from_slice(brand);
    d.extend_from_slice(b"\0\0\0\0mif1");
    d.extend(be32(48));
    d.extend_from_slice(b"meta\0\0\0\0");
    d.extend(be32(36));
    d.extend_from_slice(b"iprp");
    d.extend(be32(28));
    d.extend_from_slice(b"ipco");
    d.extend(be32(20));
    d.extend_from_slice(b"ispe\0\0\0\0");
    d.extend(be32(800));
    d.extend(be32(600));
    d
}

#[test]
fn avif_size() {
    let m = avif::parse(&mut reader(&avif_bytes(b"avif"))).unwrap();
    check(&m, Some((800, 600)), None, "AVIF");
}

#[test]
fn avif_brand_required() {
    assert_eq!(avif::parse(&mut reader(&avif_bytes(b"heic"))).unwrap_err(), MetaError::NotAvif);
}

#[test]
fn svg_size() {
    let m = svg::parse(&mut reader(b"<?xml?><svg xmlns=\"x\" width=\"120px\" height=\"80\"><g/>"))
        .unwrap();
    check(&m, Some((120, 80)), None, "svg");
    let m = svg::parse(&mut reader(b"<svg width=\"120\">")).unwrap();
    check(&m, None, None, "svg");
}

#[test]
fn svg_invalid_text() {
    assert_eq!(svg::parse(&mut reader(&[0x3C, 0xFF])).unwrap_err(), MetaError::InvalidUtf8);
}

#[test]
fn pdf_media_box() {
    let (m, b) = pdf::parse(&mut reader(b"%PDF-1.4\n/MediaBox [0 0 612 792]\n")).unwrap();
    check(&m, None, None, "pdf");
    assert_eq!(b.as_deref(), Some("0 0 612 792"));
    let (_, b) = pdf::parse(&mut reader(b"%PDF-1.4\n")).unwrap();
    assert_eq!(b, None);
}

#[test]
fn pdf_closing_bracket_first() {
    assert_eq!(
        pdf::parse(&mut reader(b"%PDF /MediaBox ] [")).unwrap_err(),
        MetaError::OutOfBounds
    );
}

#[test]
fn eps_bounding_box() {
    let m = eps::parse(&mut reader(b"%!PS-Adobe-3.0 EPSF-3.0\r\n%%BoundingBox: 0 0 100 200\r\n"))
        .unwrap();
    check(&m, Some((100, 200)), None, "eps");
    let m = eps::parse(&mut reader(b"%!PS\n%%BoundingBox: 10 10 5 5\n")).unwrap();
    check(&m, Some((4294967291, 4294967291)), None, "eps");
    let m = eps::parse(&mut reader(b"%!PS\n%%BoundingBox: (atend)\n")).unwrap();
    check(&m, None, None, "eps");
}

#[test]
fn eps_errors() {
    assert_eq!(
        eps::parse(&mut reader(b"%!PS\n%%BoundingBox: -2147483648 0 2147483647 0\n"))
            .unwrap_err(),
        MetaError::Overflow
    );
    assert_eq!(
        eps::parse(&mut reader(b"%!PS\n\xFF\n%%BoundingBox: 0 0 1 1\n")).unwrap_err(),
        MetaError::InvalidUtf8
    );
    let m = eps::parse(&mut reader(b"%!PS\n%%BoundingBox: 0 0 1 1\n\xFF\n")).unwrap();
    check(&m, Some((1, 1)), None, "eps");
}

fn header_of(d: &[u8]) -> Vec<u8> {
    let mut h: Vec<u8> = d.iter().take(16).cloned().collect();
    h.resize(16, 0);
    h
}

#[test]
fn detection_by_first_bytes() {
    let d = png_bytes(3, 4);
    let (m, _) = detect_and_parse(&header_of(&d), &mut reader(&d)).unwrap();
    check(&m, Some((3, 4)), Some(24), "png");
    let d = heif_bytes(20);
    let (m, _) = detect_and_parse(&header_of(&d), &mut reader(&d)).unwrap();
    check(&m, Some((1920, 1080)), Some(24), "heif");
    let d = avif_bytes(b"avif");
    let (m, _) = detect_and_parse(&header_of(&d), &mut reader(&d)).unwrap();
    check(&m, Some((800, 600)), None, "AVIF");
    let d = b"hello, world, plain text".to_vec();
    let (m, b) = detect_and_parse(&header_of(&d), &mut reader(&d)).unwrap();
    assert_eq!(m.format, None);
    assert_eq!(m.title, None);
    assert_eq!(b, None);
}

#[test]
fn unknown_iso_brand_refused() {
    let mut d = be32(16);
    d.extend_from_slice(b"ftypabcd\0\0\0\0");
    assert_eq!(
        detect_and_parse(&header_of(&d), &mut reader(&d)).unwrap_err(),
        MetaError::UnknownIsoBmffBrand
    );
}

#[test]
fn vector_images_have_no_depth() {
    for d in [
        b"<svg width=\"1\" height=\"2\">".to_vec(),
        b"%PDF /MediaBox [0 0 1 1]".to_vec(),
        b"%!PS\n%%BoundingBox: 0 0 3 4".to_vec(),
    ] {
        let (m, _) = detect_and_parse(&header_of(&d), &mut reader(&d)).unwrap();
        assert_eq!(m.color_depth, None);
    }
}

#[test]
fn reading_titles_the_image() {
    let d = png_bytes(10, 20);
    let (m, _) = ImageMetadata::from_reader(&mut reader(&d), Some("my_image")).unwrap();
    assert_eq!(m.title.as_deref(), Some("My Image"));
    assert_eq!(m.dimensions, Some((10, 20)));
    let (m, _) = ImageMetadata::from_reader(&mut reader(b"tiny"), None).unwrap();
    assert_eq!(m.title.as_deref(), Some("Unknown"));
    assert_eq!(m.format, None);
    let (m, _) = ImageMetadata::from_reader(&mut reader(b"plain text file"), Some("notes")).unwrap();
    assert_eq!(m.title.as_deref(), Some("Notes"));
}
