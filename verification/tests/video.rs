use remeta::error::MetaError;
use remeta::metadata::video::formats::duration;
use remeta::metadata::video::formats::{avi, detect_and_parse, mkv, mp4};
use remeta::reader::FileReader;

fn reader(bytes: &[u8]) -> FileReader {
    FileReader::new(bytes.to_vec())
}

fn mp4_bytes(timescale: u32, dur: u32) -> Vec<u8> {
    let mut d = vec![0, 0, 0, 0x18];
    d.extend_from_slice(b"ftypisom");
    d.extend_from_slice(&[0; 12]);
    d.extend_from_slice(&[0, 0, 0, 100]);
    d.extend_from_slice(b"moov");
    d.extend_from_slice(&[0, 0, 0, 92]);
    d.extend_from_slice(b"mvhd");
    d.extend_from_slice(&[0; 8]);
    d.extend_from_slice(&timescale.to_be_bytes());
    d.extend_from_slice(&dur.to_be_bytes());
    d.extend_from_slice(&[0; 4]);
    d
}

fn avi_bytes(us_per_frame: u32, frames: u32) -> Vec<u8> {
    let mut d = b"RIFF\0\0\0\0AVI LIST\0\0\0\0hdrl".to_vec();
    d.extend_from_slice(b"avih");
    d.extend_from_slice(&[56, 0, 0, 0]);
    d.extend_from_slice(&us_per_frame.to_le_bytes());
    d.extend_from_slice(&[0; 4]);
    d.extend_from_slice(&frames.to_le_bytes());
    d.extend_from_slice(&[0; 4]);
    d
}

fn mkv_bytes(tail: &[u8]) -> Vec<u8> {
    let mut d = vec![0x1A, 0x45, 0xDF, 0xA3, 0, 0, 0, 0, 0x44, 0x89];
    d.extend_from_slice(tail);
    d
}

fn header_of(d: &[u8]) -> Vec<u8> {
    let mut h: Vec<u8> = d.iter().take(16).cloned().collect();
    h.resize(16, 0);
    h
}

#[test]
fn mp4_duration_from_mvhd() {
    let d = mp4_bytes(1000, 5000);
    let m = mp4::parse(&mut reader(&d)).unwrap();
    assert_eq!(m.title.as_deref(), Some("Unknown"));
    assert_eq!(m.duration_ms, Some(5000));
    assert_eq!(duration::mp4::compute(&mut reader(&d)).unwrap(), 5000);
}

#[test]
fn mp4_zero_timescale() {
    let d = mp4_bytes(0, 5000);
    assert_eq!(mp4::parse(&mut reader(&d)).unwrap().duration_ms, None);
    assert_eq!(duration::mp4::compute(&mut reader(&d)).unwrap(), 0);
    let (m, bits) = detect_and_parse(&header_of(&d), &mut reader(&d)).unwrap();
    assert_eq!(m.duration_ms, Some(0));
    assert_eq!(bits, None);
}

#[test]
fn avi_duration_from_header() {
    let d = avi_bytes(40000, 250);
    let m = avi::parse(&mut reader(&d)).unwrap();
    assert_eq!(m.title.as_deref(), Some("Unknown"));
    assert_eq!(m.duration_ms, Some(10000));
    let (m, _) = detect_and_parse(&header_of(&d), &mut reader(&d)).unwrap();
    assert_eq!(m.duration_ms, Some(10000));
    assert_eq!(duration::avi::compute(&mut reader(&avi_bytes(0, 250))).unwrap(), 0);
}

#[test]
fn mkv_duration_bits() {
    let d = mkv_bytes(&12.5f64.to_le_bytes());
    let (m, bits) = mkv::parse(&mut reader(&d)).unwrap();
    assert_eq!(m.title.as_deref(), Some("Unknown"));
    assert_eq!(m.duration_ms, None);
    assert_eq!(bits, Some(12.5f64.to_bits()));
    let (m, bits) = detect_and_parse(&header_of(&d), &mut reader(&d)).unwrap();
    assert_eq!(m.duration_ms, None);
    assert_eq!(bits.map(f64::from_bits), Some(12.5));
    assert_eq!(duration::mkv::compute(&mut reader(&d)).unwrap(), Some(12.5f64.to_bits()));
}

#[test]
fn mkv_without_duration() {
    let d = vec![0x1A, 0x45, 0xDF, 0xA3, 1, 2, 3, 4];
    let (m, bits) = detect_and_parse(&header_of(&d), &mut reader(&d)).unwrap();
    assert_eq!(m.duration_ms, Some(0));
    assert_eq!(bits, None);
}

#[test]
fn mkv_cut_duration() {
    let d = mkv_bytes(&[0; 6]);
    assert_eq!(mkv::parse(&mut reader(&d)).unwrap_err(), MetaError::OutOfBounds);
    assert_eq!(duration::mkv::compute(&mut reader(&d)).unwrap(), None);
}

#[test]
fn unknown_video_format() {
    let d = b"not a video at all".to_vec();
    let (m, bits) = detect_and_parse(&header_of(&d), &mut reader(&d)).unwrap();
    assert_eq!(m.title, None);
    assert_eq!(m.duration_ms, None);
    assert_eq!(bits, None);
}
