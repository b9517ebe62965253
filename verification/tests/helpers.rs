use remeta::helpers::{
    decode_text_frame, extract_m4a_text, parse_vorbis_comments, synchsafe_to_u32,
    trim_id3v1_text,
};
use remeta::metadata::audio::formats::duration::m4a::{be_u32, be_u64};
use remeta::metadata::images::formats::vector::svg::{extract_attr, parse_dimension};
use remeta::numbers::{parse_i32, parse_u32};
use remeta::{ImageMetadata, SongMetadata};

fn le32(v: u32) -> Vec<u8> {
    v.to_le_bytes().to_vec()
}

fn comment_block(vendor: &str, comments: &[&str]) -> Vec<u8> {
    let mut d = le32(vendor.len() as u32);
    d.extend_from_slice(vendor.as_bytes());
    d.extend(le32(comments.len() as u32));
    for c in comments {
        d.extend(le32(c.len() as u32));
        d.extend_from_slice(c.as_bytes());
    }
    d
}

fn chars(s: &str) -> Vec<char> {
    s.chars().collect()
}

#[test]
fn vorbis_comments_set_known_fields() {
    let mut meta = SongMetadata::default();
    let data = comment_block("abc", &["ARTIST=Foo", "title=Bar", "x=y", "Genre=Rock=Pop"]);
    parse_vorbis_comments(&mut meta, &data);
    assert_eq!(meta.artist.as_deref(), Some("Foo"));
    assert_eq!(meta.title.as_deref(), Some("Bar"));
    assert_eq!(meta.album, None);
    assert_eq!(meta.genre.as_deref(), Some("Rock=Pop"));
    assert_eq!(meta.duration_ms, None);
}

#[test]
fn vorbis_comments_short_data_changes_nothing() {
    let mut meta = SongMetadata::default();
    meta.album = Some("Kept".to_string());
    parse_vorbis_comments(&mut meta, &[1, 2, 3]);
    assert_eq!(meta.album.as_deref(), Some("Kept"));
    assert_eq!(meta.artist, None);
}

#[test]
fn vorbis_comments_stop_at_a_cut_comment() {
    let mut meta = SongMetadata::default();
    let mut data = comment_block("", &["album=One"]);
    data[8] = 200;
    parse_vorbis_comments(&mut meta, &data);
    assert_eq!(meta.album, None);
}

#[test]
fn m4a_text_from_data_atom() {
    let mut d = vec![0, 0, 0, 8, b'f', b'r', b'e', b'e'];
    d.extend_from_slice(&[0, 0, 0, 23, b'd', b'a', b't', b'a', 0, 0, 0, 1, 0, 0, 0, 0]);
    d.extend_from_slice(b"\0Hello\0");
    assert_eq!(extract_m4a_text(&d).as_deref(), Some("Hello"));
}

#[test]
fn m4a_text_absent() {
    assert_eq!(extract_m4a_text(&[]), None);
    assert_eq!(extract_m4a_text(&[0, 0, 0, 4, b'd', b'a', b't', b'a']), None);
    assert_eq!(extract_m4a_text(&[0, 0, 0, 9, b'd', b'a', b't', b'a']), None);
}

#[test]
fn m4a_text_short_data_atom_starts_after_header() {
    let d = [0, 0, 0, 12, b'd', b'a', b't', b'a', b'a', b'b', b'c', b'd'];
    assert_eq!(extract_m4a_text(&d).as_deref(), Some("abcd"));
}

#[test]
fn id3v1_text_trimmed() {
    assert_eq!(trim_id3v1_text(b"  Song  \0\0").as_deref(), Some("Song"));
    assert_eq!(trim_id3v1_text(b"\0\0\0"), None);
    assert_eq!(trim_id3v1_text(b"   "), None);
    assert_eq!(trim_id3v1_text(b"\0Mid\0").as_deref(), Some("\0Mid"));
    assert_eq!(trim_id3v1_text(b"A\xFFB ").as_deref(), Some("A\u{FFFD}B"));
}

#[test]
fn synchsafe_values() {
    assert_eq!(synchsafe_to_u32(&[0x00, 0x00, 0x02, 0x01]), 257);
    assert_eq!(synchsafe_to_u32(&[0x7F, 0x7F, 0x7F, 0x7F]), 0x0FFF_FFFF);
    assert_eq!(synchsafe_to_u32(&[0xFF, 0x00, 0x00, 0x00]), 0x0FE0_0000);
}

#[test]
fn text_frames_decoded() {
    assert_eq!(decode_text_frame(&[0, b'H', b'i', 0]).as_deref(), Some("Hi"));
    assert_eq!(decode_text_frame(&[1, 0x00, 0x41, 0x00, 0x42, 0x00]).as_deref(), Some("AB"));
    assert_eq!(decode_text_frame(&[1, 0x00, 0x00, 0x00, 0x43]).as_deref(), Some("C"));
    assert_eq!(
        decode_text_frame(&[1, 0xD8, 0x3D, 0xDE, 0x00, 0x00, 0x41]).as_deref(),
        Some("\u{1F600}A")
    );
    assert_eq!(decode_text_frame(&[1, 0xDC, 0x00, 0x00, 0x41]).as_deref(), Some("\u{FFFD}A"));
    assert_eq!(decode_text_frame(&[1, 0xD8, 0x00]).as_deref(), Some("\u{FFFD}"));
    assert_eq!(decode_text_frame(&[2, b'x']), None);
    assert_eq!(decode_text_frame(&[]), None);
}

#[test]
fn big_endian_values() {
    assert_eq!(be_u32(&[0, 0, 1, 0]), 256);
    assert_eq!(be_u32(&[0x12, 0x34, 0x56, 0x78, 0xFF]), 0x1234_5678);
    assert_eq!(be_u64(&[0, 0, 0, 0, 0, 0, 1, 2]), 258);
    assert_eq!(be_u64(&[0xFF; 8]), u64::MAX);
}

#[test]
fn svg_attributes() {
    let tag = "<svg xmlns=\"x\" width=\"100\" height=\"50px\"";
    assert_eq!(extract_attr(tag, "width").as_deref(), Some("100"));
    assert_eq!(extract_attr(tag, "height").as_deref(), Some("50px"));
    assert_eq!(extract_attr(tag, "depth"), None);
    assert_eq!(extract_attr("<svg width=\"12", "width"), None);
    assert_eq!(extract_attr("<svg width=\"\"", "width").as_deref(), Some(""));
}

#[test]
fn svg_dimensions_parsed() {
    assert_eq!(parse_dimension(" 120px "), Some(120));
    assert_eq!(parse_dimension("+7"), Some(7));
    assert_eq!(parse_dimension("4294967295"), Some(u32::MAX));
    assert_eq!(parse_dimension("4294967296"), None);
    assert_eq!(parse_dimension("-3"), None);
    assert_eq!(parse_dimension("12.5em"), None);
    assert_eq!(parse_dimension("abc"), None);
    assert_eq!(parse_dimension(""), None);
    for v in ["120", " 7 ", "x", "", "12.5", "\t42\n"] {
        assert_eq!(parse_dimension(&format!("{}px", v)), parse_dimension(v));
    }
}

#[test]
fn integers_from_text() {
    assert_eq!(parse_u32(&chars("0042")), Some(42));
    assert_eq!(parse_u32(&chars("+")), None);
    assert_eq!(parse_i32(&chars("-2147483648")), Some(i32::MIN));
    assert_eq!(parse_i32(&chars("2147483648")), None);
    assert_eq!(parse_i32(&chars("+12")), Some(12));
    assert_eq!(parse_i32(&chars("-")), None);
    assert_eq!(parse_i32(&chars("1x")), None);
}

#[test]
fn file_names_prettified() {
    assert_eq!(ImageMetadata::prettify_filename(Some("my_holiday-photo")), "My Holiday Photo");
    assert_eq!(ImageMetadata::prettify_filename(None), "Unknown");
    assert_eq!(ImageMetadata::prettify_filename(Some("  a__b ")), "A B");
    assert_eq!(ImageMetadata::prettify_filename(Some("élan vital")), "Élan Vital");
    assert_eq!(ImageMetadata::prettify_filename(Some("ßx")), "SSx");
    assert_eq!(ImageMetadata::prettify_filename(Some("__")), "");
    assert_eq!(ImageMetadata::prettify_filename(Some("-x_-y- \t")), "X Y");
}

#[test]
fn default_titled_after_file_name() {
    let m = ImageMetadata::default_with_filename(Some("cat_pic"));
    assert_eq!(m.title.as_deref(), Some("Cat Pic"));
    assert_eq!(m.dimensions, None);
    assert_eq!(m.color_depth, None);
    assert_eq!(m.format, None);
}
