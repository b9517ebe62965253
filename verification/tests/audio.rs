use remeta::error::MetaError;
use remeta::metadata::audio::formats::duration;
use remeta::metadata::audio::formats::{detect_and_parse, flac, m4a, ogg, wav, wma};
use remeta::reader::FileReader;

fn reader(bytes: &[u8]) -> FileReader {
    FileReader::new(bytes.to_vec())
}

fn le32(v: u32) -> Vec<u8> {
    v.to_le_bytes().to_vec()
}

fn header_of(d: &[u8]) -> Vec<u8> {
    let mut h: Vec<u8> = d.iter().take(16).cloned().collect();
    h.resize(16, 0);
    h
}

fn comment_block(comments: &[&str]) -> Vec<u8> {
    let mut d = le32(0);
    d.extend(le32(comments.len() as u32));
    for c in comments {
        d.extend(le32(c.len() as u32));
        d.extend_from_slice(c.as_bytes());
    }
    d
}

fn stream_info(rate: u32, samples: u64) -> Vec<u8> {
    let mut s = vec![0u8; 34];
    s[10] = (rate >> 12) as u8;
    s[11] = (rate >> 4) as u8;
    s[12] = (((rate & 0xF) << 4) as u8) | ((samples >> 32) as u8 & 0x0F);
    s[13] = (samples >> 24) as u8;
    s[14] = (samples >> 16) as u8;
    s[15] = (samples >> 8) as u8;
    s[16] = samples as u8;
    s
}

fn flac_bytes(rate: u32, samples: u64) -> Vec<u8> {
    let mut d = b"fLaC".to_vec();
    let comments = comment_block(&["ARTIST=A", "ALBUM=B"]);
    d.extend_from_slice(&[4, 0, 0, comments.len() as u8]);
    d.extend(comments);
    d.extend_from_slice(&[0x80, 0, 0, 34]);
    d.extend(stream_info(rate, samples));
    d
}

#[test]
fn flac_tags_and_duration() {
    let d = flac_bytes(44100, 441000);
    let m = detect_and_parse(&header_of(&d), &mut reader(&d)).unwrap();
    assert_eq!(m.artist.as_deref(), Some("A"));
    assert_eq!(m.album.as_deref(), Some("B"));
    assert_eq!(m.title, None);
    assert_eq!(m.duration_ms, Some(10000));
    let m = flac::parse(&mut reader(&d)).unwrap();
    assert_eq!(m.duration_ms, None);
    assert_eq!(duration::flac::compute(&mut reader(&d)).unwrap(), 10000);
}

#[test]
fn flac_duration_errors() {
    let d = flac_bytes(0, 441000);
    assert_eq!(duration::flac::compute(&mut reader(&d)).unwrap_err(), MetaError::InvalidSampleRate);
    let m = detect_and_parse(&header_of(&d), &mut reader(&d)).unwrap();
    assert_eq!(m.duration_ms, None);
    let mut short = b"fLaC".to_vec();
    short.extend_from_slice(&[0x80, 0, 0, 10]);
    short.extend_from_slice(&[0; 10]);
    assert_eq!(
        duration::flac::compute(&mut reader(&short)).unwrap_err(),
        MetaError::StreamInfoTooSmall
    );
    let none = b"fLaC\x84\x00\x00\x00".to_vec();
    assert_eq!(duration::flac::compute(&mut reader(&none)).unwrap_err(), MetaError::NoStreamInfo);
}

fn wav_bytes(byte_rate: u32, data_size: u32) -> Vec<u8> {
    let mut d = b"RIFF".to_vec();
    d.extend(le32(0));
    d.extend_from_slice(b"WAVEfmt ");
    d.extend(le32(16));
    d.extend_from_slice(&[1, 0, 2, 0]);
    d.extend(le32(44100));
    d.extend(le32(byte_rate));
    d.extend_from_slice(&[4, 0, 16, 0]);
    d.extend_from_slice(b"LIST");
    d.extend(le32(16));
    d.extend_from_slice(b"INFOINAM");
    d.extend(le32(4));
    d.extend_from_slice(b"Song");
    d.extend_from_slice(b"data");
    d.extend(le32(data_size));
    d
}

#[test]
fn wav_tags_and_duration() {
    let d = wav_bytes(176400, 352800);
    let m = wav::parse(&mut reader(&d)).unwrap();
    assert_eq!(m.title.as_deref(), Some("Song"));
    assert_eq!(m.duration_ms, Some(2000));
    let m = detect_and_parse(&header_of(&d), &mut reader(&d)).unwrap();
    assert_eq!(m.title.as_deref(), Some("Song"));
    assert_eq!(m.duration_ms, Some(2000));
}

#[test]
fn wav_zero_byte_rate() {
    let d = wav_bytes(0, 352800);
    assert_eq!(wav::parse(&mut reader(&d)).unwrap_err(), MetaError::DivisionByZero);
    assert_eq!(duration::wav::compute(&mut reader(&d)).unwrap_err(), MetaError::NoWavDuration);
}

fn ogg_page(granule: u64, packet: &[u8]) -> Vec<u8> {
    let mut p = b"OggS".to_vec();
    p.extend_from_slice(&[0, 0]);
    p.extend_from_slice(&granule.to_le_bytes());
    p.extend_from_slice(&[0; 12]);
    p.push(1);
    p.push(packet.len() as u8);
    p.extend_from_slice(packet);
    p
}

fn ogg_bytes(rate: u32) -> Vec<u8> {
    let mut ident = vec![1];
    ident.extend_from_slice(b"vorbis");
    ident.extend_from_slice(&[0, 0, 0, 0, 2]);
    ident.extend(le32(rate));
    ident.extend_from_slice(&[0; 4]);
    let mut comment = vec![3];
    comment.extend_from_slice(b"vorbis");
    comment.extend(comment_block(&["TITLE=Abc"]));
    let mut d = ogg_page(0, &ident);
    d.extend(ogg_page(96000, &comment));
    d
}

#[test]
fn ogg_tags_and_duration() {
    let d = ogg_bytes(48000);
    let m = detect_and_parse(&header_of(&d), &mut reader(&d)).unwrap();
    assert_eq!(m.title.as_deref(), Some("Abc"));
    assert_eq!(m.duration_ms, Some(2000));
    assert_eq!(ogg::parse(&mut reader(&d)).unwrap().title.as_deref(), Some("Abc"));
}

#[test]
fn ogg_one_second() {
    let mut ident = vec![1];
    ident.extend_from_slice(b"vorbis");
    ident.extend_from_slice(&[0, 0, 0, 0, 2]);
    ident.extend(le32(44100));
    ident.extend_from_slice(&[0; 4]);
    let d = ogg_page(44100, &ident);
    assert_eq!(duration::ogg::compute(&mut reader(&d)).unwrap(), 1000);
}

#[test]
fn ogg_errors() {
    assert_eq!(ogg::parse(&mut reader(b"OggXabcd")).unwrap_err(), MetaError::BadOggPage);
    let mut bad = b"OggX".to_vec();
    bad.extend_from_slice(&[0; 23]);
    assert_eq!(duration::ogg::compute(&mut reader(&bad)).unwrap_err(), MetaError::NotOgg);
    assert_eq!(duration::ogg::compute(&mut reader(&[])).unwrap_err(), MetaError::MissingSampleRate);
    let d = ogg_bytes(0);
    assert_eq!(duration::ogg::compute(&mut reader(&d)).unwrap_err(), MetaError::InvalidSampleRate);
}

fn mvhd_movie(version: u8, full: bool, timescale: u32) -> Vec<u8> {
    let body: usize = if full { 28 } else { 20 };
    let mut d = vec![0, 0, 0, (8 + body) as u8];
    d.extend_from_slice(b"moov");
    d.extend_from_slice(&[0, 0, 0, body as u8]);
    d.extend_from_slice(b"mvhd");
    d.push(version);
    d.extend_from_slice(&[0; 11]);
    if full {
        d.extend_from_slice(&timescale.to_be_bytes());
        d.extend_from_slice(&3000u32.to_be_bytes());
    }
    d
}

#[test]
fn m4a_durations() {
    assert_eq!(duration::m4a::compute(&mut reader(&mvhd_movie(0, true, 1000))).unwrap(), 3000);
    assert_eq!(
        duration::m4a::compute(&mut reader(&mvhd_movie(0, true, 0))).unwrap_err(),
        MetaError::InvalidTimescale
    );
    assert_eq!(
        duration::m4a::compute(&mut reader(&mvhd_movie(0, false, 0))).unwrap_err(),
        MetaError::MvhdTruncatedV0
    );
    assert_eq!(
        duration::m4a::compute(&mut reader(&mvhd_movie(1, false, 0))).unwrap_err(),
        MetaError::MvhdTruncated
    );
    assert_eq!(duration::m4a::compute(&mut reader(&[])).unwrap_err(), MetaError::NoM4aDuration);
}

#[test]
fn m4a_title_atom() {
    let mut d = vec![0, 0, 0, 29, 0xA9, b'n', b'a', b'm'];
    d.extend_from_slice(&[0, 0, 0, 21, b'd', b'a', b't', b'a', 0, 0, 0, 1, 0, 0, 0, 0]);
    d.extend_from_slice(b"Hello");
    let m = m4a::parse(&mut reader(&d)).unwrap();
    assert_eq!(m.title.as_deref(), Some("Hello"));
    assert_eq!(m.artist, None);
}

#[test]
fn mp3_durations() {
    let mut d = Vec::new();
    for _ in 0..2 {
        d.extend_from_slice(&[0xFF, 0xFB, 0x90, 0x00]);
        d.extend_from_slice(&[0; 413]);
    }
    assert_eq!(duration::mp3::compute(&mut reader(&d)).unwrap(), 52);
    assert_eq!(duration::mp3::compute(&mut reader(&[0; 1000])).unwrap(), 62);
    assert_eq!(duration::mp3::compute(&mut reader(&[])).unwrap_err(), MetaError::NoMp3Duration);
}

const ASF_HEADER: [u8; 16] = [
    0x30, 0x26, 0xB2, 0x75, 0x8E, 0x66, 0xCF, 0x11, 0xA6, 0xD9, 0x00, 0xAA, 0x00, 0x62, 0xCE,
    0x6C,
];

const ASF_FILE_PROPERTIES: [u8; 16] = [
    0xA1, 0xDC, 0xAB, 0x8C, 0x47, 0xA9, 0xCF, 0x11, 0x8E, 0xE4, 0x00, 0xC0, 0x0C, 0x20, 0x53,
    0x65,
];

#[test]
fn wma_duration_from_file_properties() {
    let mut d = vec![7u8; 16];
    d.extend_from_slice(&30u64.to_le_bytes());
    d.extend_from_slice(&[0; 6]);
    d.extend_from_slice(&ASF_FILE_PROPERTIES);
    d.extend_from_slice(&104u64.to_le_bytes());
    d.extend_from_slice(&[0; 40]);
    d.extend_from_slice(&50_000_000u64.to_le_bytes());
    assert_eq!(duration::wma::compute(&mut reader(&d)).unwrap(), 5000);
    assert_eq!(duration::wma::compute(&mut reader(&[])).unwrap_err(), MetaError::NoFileProperties);
}

#[test]
fn wma_walk_that_never_ends() {
    let mut d = vec![7u8; 16];
    d.extend_from_slice(&0u64.to_le_bytes());
    assert_eq!(duration::wma::compute(&mut reader(&d)).unwrap_err(), MetaError::Endless);
    let mut tags = ASF_HEADER.to_vec();
    tags.extend_from_slice(&[0; 14]);
    tags.extend_from_slice(&[7u8; 16]);
    tags.extend_from_slice(&0u64.to_le_bytes());
    assert_eq!(wma::parse(&mut reader(&tags)).unwrap_err(), MetaError::Endless);
}

#[test]
fn wma_needs_asf_header() {
    assert_eq!(wma::parse(&mut reader(&[0; 30])).unwrap_err(), MetaError::NotAsf);
}

#[test]
fn seek_before_start_refused() {
    let mut f = reader(b"abc");
    assert_eq!(f.seek_current(-1).unwrap_err(), MetaError::InvalidSeek);
    assert_eq!(f.seek_end(-1).unwrap(), 2);
    assert_eq!(f.read(10), b"c".to_vec());
}

fn utf16le(s: &str) -> Vec<u8> {
    s.encode_utf16().flat_map(|u| u.to_le_bytes()).collect()
}

#[test]
fn wma_content_descriptions() {
    let mut d = ASF_HEADER.to_vec();
    d.extend_from_slice(&[0; 14]);
    d.extend_from_slice(&[
        0x33, 0x26, 0xB2, 0x75, 0x8E, 0x66, 0xCF, 0x11, 0xA6, 0xD9, 0x00, 0xAA, 0x00, 0x62, 0xCE,
        0x6C,
    ]);
    d.extend_from_slice(&0u64.to_le_bytes());
    d.extend_from_slice(&[6, 0, 4, 0, 0, 0, 0, 0, 0, 0]);
    d.extend(utf16le("Hi!"));
    d.extend(utf16le("Me"));
    d.extend_from_slice(&[
        0x40, 0xA4, 0xD0, 0xD2, 0x07, 0xE3, 0xD2, 0x11, 0x97, 0xF0, 0x00, 0xA0, 0xC9, 0x5E, 0xA8,
        0x50,
    ]);
    d.extend_from_slice(&0u64.to_le_bytes());
    d.extend_from_slice(&[1, 0]);
    let name = utf16le("WM/AlbumTitle");
    d.extend_from_slice(&(name.len() as u16).to_le_bytes());
    d.extend(name);
    let value = utf16le("Alb\u{0}");
    d.extend_from_slice(&(value.len() as u16).to_le_bytes());
    d.extend(value);
    let total = d.len() as u64;
    d[16..24].copy_from_slice(&total.to_le_bytes());
    let m = wma::parse(&mut reader(&d)).unwrap();
    assert_eq!(m.title.as_deref(), Some("Hi!"));
    assert_eq!(m.artist.as_deref(), Some("Me"));
    assert_eq!(m.album.as_deref(), Some("Alb"));
    assert_eq!(m.genre, None);
    let m = detect_and_parse(&header_of(&d), &mut reader(&d)).unwrap();
    assert_eq!(m.title.as_deref(), Some("Hi!"));
    assert_eq!(m.duration_ms, None);
}

#[test]
fn id3v1_only_file_keeps_its_tags() {
    let mut d = b"TAG".to_vec();
    d.extend_from_slice(b"Song");
    d.resize(128, 0);
    let m = detect_and_parse(&header_of(&d), &mut reader(&d)).unwrap();
    assert_eq!(m.title.as_deref(), Some("Song"));
    assert_eq!(m.artist, None);
    assert_eq!(m.genre.as_deref(), Some("0"));
    assert_eq!(m.duration_ms, Some(8));
}

#[test]
fn unrecognised_file_errors_passed_over() {
    let d = b"XYZ!this file is no audio at all".to_vec();
    let m = detect_and_parse(&header_of(&d), &mut reader(&d)).unwrap();
    assert_eq!(m.title, None);
    assert_eq!(m.duration_ms, Some(2));
}
