//! Recognising a song's format and reading it.
use vstd::prelude::*;

use crate::bytes::{has_tag, tag_at};
use crate::error::MetaError;
use crate::metadata::audio::{empty_song, SongMeta, SongMetadata};
use crate::reader::FileReader;

pub mod duration;
pub mod flac;
pub mod m4a;
pub mod mp3v1;
pub mod mp3v2;
pub mod ogg;
pub mod wav;
pub mod wma;

verus! {

/// `RIFF`
pub open spec fn tag_riff() -> Seq<u8> {
    seq![0x52u8, 0x49, 0x46, 0x46]
}

/// `WAVE`
pub open spec fn tag_wave() -> Seq<u8> {
    seq![0x57u8, 0x41, 0x56, 0x45]
}

/// `fLaC`
pub open spec fn tag_flac() -> Seq<u8> {
    seq![0x66u8, 0x4c, 0x61, 0x43]
}

/// The first four bytes of the ASF header GUID.
pub open spec fn tag_asf() -> Seq<u8> {
    seq![0x30u8, 0x26, 0xb2, 0x75]
}

/// `ID3` and major version 3.
pub open spec fn tag_id3v23() -> Seq<u8> {
    seq![0x49u8, 0x44, 0x33, 0x03]
}

/// `ID3` and major version 4.
pub open spec fn tag_id3v24() -> Seq<u8> {
    seq![0x49u8, 0x44, 0x33, 0x04]
}

/// Errors that end reading a song even where a failed duration is otherwise
/// passed over: the computation would not have gone on.
pub open spec fn is_abort(e: MetaError) -> bool {
    ||| e == MetaError::Overflow
    ||| e == MetaError::OutOfBounds
    ||| e == MetaError::DivisionByZero
    ||| e == MetaError::Endless
}

/// A computed duration as the optional field it sets: none when it failed.
pub open spec fn opt_duration(r: Result<u64, MetaError>) -> Result<Option<u64>, MetaError> {
    match r {
        Ok(v) => Ok(Some(v)),
        Err(e) => if is_abort(e) {
            Err(e)
        } else {
            Ok(None)
        },
    }
}

/// The metadata with its duration set from a duration computation that
/// ended at `p`.
pub open spec fn with_duration(m: SongMeta, dr: Result<u64, MetaError>, p: int) -> Option<
    (Result<SongMeta, MetaError>, int),
> {
    match opt_duration(dr) {
        Err(e) => Some((Err(e), p)),
        Ok(o) => Some((Ok(SongMeta { duration_ms: o, ..m }), p)),
    }
}

/// Tags read by a parser ending at `p`, then the duration computed.
pub open spec fn tags_then(
    tags: (Result<SongMeta, MetaError>, int),
    dur: (Result<u64, MetaError>, int),
) -> Option<(Result<SongMeta, MetaError>, int)> {
    match tags.0 {
        Err(e) => Some((Err(e), tags.1)),
        Ok(m) => with_duration(m, dur.0, dur.1),
    }
}

/// The durations tried one after the other for a file of no recognised
/// format, while none is found: M4A, MP3, Ogg, WMA.
pub open spec fn fallback_duration(d: Seq<u8>, m: SongMeta) -> Option<
    (Result<SongMeta, MetaError>, int),
> {
    let len = d.len() as int;
    match opt_duration(duration::m4a::m4a_duration(d)) {
        Err(e) => Some((Err(e), len)),
        Ok(Some(v)) => Some((Ok(SongMeta { duration_ms: Some(v), ..m }), len)),
        Ok(None) => match opt_duration(duration::mp3::mp3_duration(d)) {
            Err(e) => Some((Err(e), len)),
            Ok(Some(v)) => Some((Ok(SongMeta { duration_ms: Some(v), ..m }), len)),
            Ok(None) => {
                let (r, p) = duration::ogg::ogg_duration(d);
                match opt_duration(r) {
                    Err(e) => Some((Err(e), p)),
                    Ok(Some(v)) => Some((Ok(SongMeta { duration_ms: Some(v), ..m }), p)),
                    Ok(None) => match duration::wma::wma_duration(d) {
                        None => None,
                        Some((r, p)) => with_duration(m, r, p),
                    },
                }
            },
        },
    }
}

/// Reading a song whose first bytes are `hdr`, from the position `pos`: the
/// format the first bytes name is read, then its duration computed; a file of
/// no recognised format keeps its ID3v1 tags unless reading M4A from where
/// that left off finds a box, and takes the first duration found among M4A,
/// MP3, Ogg and WMA.  `None` when reading would never end.
pub open spec fn song_detect(hdr: Seq<u8>, d: Seq<u8>, pos: int) -> Option<
    (Result<SongMeta, MetaError>, int),
> {
    if tag_at(hdr, 0, tag_riff()) && tag_at(hdr, 8, tag_wave()) {
        tags_then(wav::wav_tags(d), duration::wav::wav_duration(d))
    } else if tag_at(hdr, 0, tag_flac()) {
        tags_then(flac::flac_tags(d, pos), duration::flac::flac_duration(d))
    } else if tag_at(hdr, 0, tag_asf()) {
        wma_song(d, pos)
    } else if tag_at(hdr, 0, ogg::tag_oggs()) {
        tags_then(ogg::ogg_tags(d, pos), duration::ogg::ogg_duration(d))
    } else if tag_at(hdr, 0, tag_id3v23()) || tag_at(hdr, 0, tag_id3v24()) {
        mp3v2_song(d, pos)
    } else {
        other_song(d, pos)
    }
}

fn set_duration(m: &mut SongMetadata, dr: Result<u64, MetaError>) -> (r: Result<(), MetaError>)
    ensures
        match opt_duration(dr) {
            Err(e) => r == Err::<(), MetaError>(e) && final(m)@ == old(m)@,
            Ok(o) => r is Ok && final(m)@ == SongMeta { duration_ms: o, ..old(m)@ },
        },
{
    match dr {
        Ok(v) => {
            m.duration_ms = Some(v);
            Ok(())
        },
        Err(e) => {
            if e == MetaError::Overflow || e == MetaError::OutOfBounds || e
                == MetaError::DivisionByZero || e == MetaError::Endless {
                Err(e)
            } else {
                m.duration_ms = None;
                Ok(())
            }
        },
    }
}

/// Whether `r`, with the reader ending at `pos`, is the outcome `o`: `None`
/// stands for reading that would never end.
pub open spec fn song_outcome(
    r: Result<SongMetadata, MetaError>,
    pos: int,
    o: Option<(Result<SongMeta, MetaError>, int)>,
) -> bool {
    match o {
        None => r == Err::<SongMetadata, MetaError>(MetaError::Endless),
        Some((res, p)) => flac::song_result(r) == res && pos == p,
    }
}

fn song_wav(f: &mut FileReader) -> (r: Result<SongMetadata, MetaError>)
    ensures
        final(f)@.0 == old(f)@.0,
        song_outcome(r, final(f)@.1, tags_then(wav::wav_tags(old(f)@.0), duration::wav::wav_duration(old(f)@.0))),
{
    let mut m = wav::parse(f)?;
    let dr = duration::wav::compute(f);
    set_duration(&mut m, dr)?;
    Ok(m)
}

fn song_flac(f: &mut FileReader) -> (r: Result<SongMetadata, MetaError>)
    ensures
        final(f)@.0 == old(f)@.0,
        song_outcome(r, final(f)@.1, tags_then(flac::flac_tags(old(f)@.0, old(f)@.1), duration::flac::flac_duration(old(f)@.0))),
{
    let mut m = flac::parse(f)?;
    let dr = duration::flac::compute(f);
    set_duration(&mut m, dr)?;
    Ok(m)
}

fn song_ogg(f: &mut FileReader) -> (r: Result<SongMetadata, MetaError>)
    ensures
        final(f)@.0 == old(f)@.0,
        song_outcome(r, final(f)@.1, tags_then(ogg::ogg_tags(old(f)@.0, old(f)@.1), duration::ogg::ogg_duration(old(f)@.0))),
{
    let mut m = ogg::parse(f)?;
    let dr = duration::ogg::compute(f);
    set_duration(&mut m, dr)?;
    Ok(m)
}

pub open spec fn wma_song(d: Seq<u8>, pos: int) -> Option<(Result<SongMeta, MetaError>, int)> {
    match wma::wma_tags(d, pos) {
        None => None,
        Some((Err(e), p)) => Some((Err(e), p)),
        Some((Ok(m), _)) => match duration::wma::wma_duration(d) {
            None => None,
            Some((r, p)) => with_duration(m, r, p),
        },
    }
}

fn song_wma(f: &mut FileReader) -> (r: Result<SongMetadata, MetaError>)
    ensures
        final(f)@.0 == old(f)@.0,
        song_outcome(r, final(f)@.1, wma_song(old(f)@.0, old(f)@.1)),
{
    let mut m = wma::parse(f)?;
    let dr = duration::wma::compute(f);
    set_duration(&mut m, dr)?;
    Ok(m)
}

pub open spec fn mp3v2_song(d: Seq<u8>, pos: int) -> Option<(Result<SongMeta, MetaError>, int)> {
    match mp3v2::mp3v2_tags(d, pos) {
        (Err(e), p) => Some((Err(e), p)),
        (Ok((m, _)), _) => with_duration(m, duration::mp3::mp3_duration(d), d.len() as int),
    }
}

fn song_mp3v2(f: &mut FileReader) -> (r: Result<SongMetadata, MetaError>)
    ensures
        final(f)@.0 == old(f)@.0,
        song_outcome(r, final(f)@.1, mp3v2_song(old(f)@.0, old(f)@.1)),
{
    let (mut m, _stream) = mp3v2::parse(f)?;
    let dr = duration::mp3::compute(f);
    set_duration(&mut m, dr)?;
    Ok(m)
}

/// A file of no recognised format: its ID3v1 tags, replaced by the M4A
/// tags read from where the ID3v1 reading left off when that reading finds
/// an M4A box; then the first duration found among M4A, MP3, Ogg and WMA.
pub open spec fn other_song(d: Seq<u8>, pos: int) -> Option<(Result<SongMeta, MetaError>, int)> {
    let (r1, p1) = mp3v1::mp3v1_tags(d, pos);
    let (r2, _) = m4a::m4a_tags(d, p1);
    let v1 = match r1 {
        Ok(v1) => v1,
        Err(_) => empty_song(),
    };
    let m = match r2 {
        Ok(m4) => if m4a::m4a_box_at(d, p1) {
            m4
        } else {
            v1
        },
        Err(_) => v1,
    };
    fallback_duration(d, m)
}

fn song_other(f: &mut FileReader) -> (r: Result<SongMetadata, MetaError>)
    ensures
        final(f)@.0 == old(f)@.0,
        song_outcome(r, final(f)@.1, other_song(old(f)@.0, old(f)@.1)),
{
    let mut m = SongMetadata::default();
    if let Ok(v1) = mp3v1::parse(f) {
        m = v1;
    }
    let found_box = m4a::box_ahead(f);
    if let Ok(m4) = m4a::parse(f) {
        if found_box {
            m = m4;
        }
    }
    let dr = duration::m4a::compute(f);
    set_duration(&mut m, dr)?;
    if m.duration_ms.is_none() {
        let dr = duration::mp3::compute(f);
        set_duration(&mut m, dr)?;
    }
    if m.duration_ms.is_none() {
        let dr = duration::ogg::compute(f);
        set_duration(&mut m, dr)?;
    }
    if m.duration_ms.is_none() {
        let dr = duration::wma::compute(f);
        set_duration(&mut m, dr)?;
    }
    Ok(m)
}

/// Reads a song whose first bytes are `header` from `f`.  The header must
/// hold the bytes its format test looks at: four, and twelve when it starts
/// with `RIFF`.  `Err(MetaError::Endless)` when reading would never end.
pub fn detect_and_parse(header: &[u8], f: &mut FileReader) -> (r: Result<SongMetadata, MetaError>)
    requires
        header.len() >= 4,
        tag_at(header@, 0, tag_riff()) ==> header.len() >= 12,
    ensures
        final(f)@.0 == old(f)@.0,
        song_outcome(r, final(f)@.1, song_detect(header@, old(f)@.0, old(f)@.1)),
{
    let riff: [u8; 4] = [0x52, 0x49, 0x46, 0x46];
    let wave: [u8; 4] = [0x57, 0x41, 0x56, 0x45];
    let flac_tag: [u8; 4] = [0x66, 0x4c, 0x61, 0x43];
    let asf: [u8; 4] = [0x30, 0x26, 0xb2, 0x75];
    let oggs: [u8; 4] = [0x4f, 0x67, 0x67, 0x53];
    let id3v23: [u8; 4] = [0x49, 0x44, 0x33, 0x03];
    let id3v24: [u8; 4] = [0x49, 0x44, 0x33, 0x04];
    assert(riff@ =~= tag_riff());
    assert(wave@ =~= tag_wave());
    assert(flac_tag@ =~= tag_flac());
    assert(asf@ =~= tag_asf());
    assert(oggs@ =~= ogg::tag_oggs());
    assert(id3v23@ =~= tag_id3v23());
    assert(id3v24@ =~= tag_id3v24());
    if has_tag(header, 0, &riff) && has_tag(header, 8, &wave) {
        song_wav(f)
    } else if has_tag(header, 0, &flac_tag) {
        song_flac(f)
    } else if has_tag(header, 0, &asf) {
        song_wma(f)
    } else if has_tag(header, 0, &oggs) {
        song_ogg(f)
    } else if has_tag(header, 0, &id3v23) || has_tag(header, 0, &id3v24) {
        song_mp3v2(f)
    } else {
        song_other(f)
    }
}

} // verus!

verus! {

/// Whether the first bytes name none of the formats that have a reader of
/// their own: WAV, FLAC, WMA, Ogg and ID3v2-tagged MP3.
pub open spec fn unrecognised(hdr: Seq<u8>) -> bool {
    &&& !(tag_at(hdr, 0, tag_riff()) && tag_at(hdr, 8, tag_wave()))
    &&& !tag_at(hdr, 0, tag_flac())
    &&& !tag_at(hdr, 0, tag_asf())
    &&& !tag_at(hdr, 0, ogg::tag_oggs())
    &&& !tag_at(hdr, 0, tag_id3v23())
    &&& !tag_at(hdr, 0, tag_id3v24())
}

/// A file of no recognised format reads without error: every error of its
/// ID3v1, M4A and duration readings is passed over.  The only failures are
/// the computations that cannot go on (an overflow, a read past the end, a
/// division by zero, a walk that never ends).
pub proof fn lemma_unrecognised_errors_passed_over(hdr: Seq<u8>, d: Seq<u8>, pos: int)
    requires
        unrecognised(hdr),
    ensures
        song_detect(hdr, d, pos) matches Some((Err(e), _)) ==> is_abort(e),
{
}

} // verus!
