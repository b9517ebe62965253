//! Duration of an MP3 file, by walking its MPEG audio frames.
use vstd::prelude::*;

use crate::bytes::tag_at;
use crate::error::MetaError;
use crate::numbers::{lemma_whole_millis, whole_millis};
use crate::helpers::mp3::id3v2::{synchsafe, synchsafe_to_u32};
use crate::reader::{FileReader, MAX_POS};

verus! {

/// `ID3`
pub open spec fn tag_id3() -> Seq<u8> {
    seq![0x49u8, 0x44, 0x33]
}

/// Bitrates in kbit/s of MPEG-1 Layer III, by index.
pub open spec fn bitrates_mpeg1_l3() -> Seq<u32> {
    seq![0u32, 32, 40, 48, 56, 64, 80, 96, 112, 128, 160, 192, 224, 256, 320, 0]
}

/// Bitrates in kbit/s of MPEG-2 and MPEG-2.5 Layer III, by index.
pub open spec fn bitrates_mpeg2_l3() -> Seq<u32> {
    seq![0u32, 8, 16, 24, 32, 40, 48, 56, 64, 80, 96, 112, 128, 144, 160, 0]
}

/// The sample rate for a version code (3: MPEG-1, 2: MPEG-2, 0: MPEG-2.5)
/// and a rate index; 0 for the reserved index 3.
pub open spec fn mp3_sample_rate(version: int, index: int) -> int {
    if index == 3 {
        0
    } else if version == 3 {
        if index == 0 {
            44100
        } else if index == 1 {
            48000
        } else {
            32000
        }
    } else if version == 2 {
        if index == 0 {
            22050
        } else if index == 1 {
            24000
        } else {
            16000
        }
    } else if index == 0 {
        11025
    } else if index == 1 {
        12000
    } else {
        8000
    }
}

/// A Layer III frame header in the four bytes: its frame length in bytes,
/// samples per frame and sample rate.  `None` when the bytes are no such
/// header (no frame sync, reserved version, another layer, reserved sample
/// rate, free or bad bitrate); the scan then moves on by one byte.
pub open spec fn mp3_frame(b0: u8, b1: u8, b2: u8) -> Option<(int, int, int)> {
    let version = (b1 / 8) % 4;
    let layer = (b1 / 2) % 4;
    let bitrate_index = (b2 / 16) as int;
    let rate_index = (b2 / 4) % 4;
    let padding = (b2 / 2) % 2;
    if !(b0 == 0xFF && b1 >= 0xE0) || version == 1 || layer != 1 || rate_index == 3 {
        None
    } else {
        let sr = mp3_sample_rate(version as int, rate_index as int);
        let br = if version == 3 {
            bitrates_mpeg1_l3()[bitrate_index]
        } else {
            bitrates_mpeg2_l3()[bitrate_index]
        } as int;
        let size = if version == 3 {
            144000 * br / sr + padding
        } else {
            72000 * br / sr + padding
        };
        if br == 0 || size == 0 {
            None
        } else {
            Some((size, if version == 3 { 1152int } else { 576int }, sr))
        }
    }
}

/// Walking the frames from `pos`, for at most `left` steps: the total number
/// of samples and the sample rate of the last frame.  The walk ends before a
/// frame that does not fit in the data.
pub open spec fn mp3_scan(d: Seq<u8>, pos: int, left: nat, total: int, rate: int) -> (int, int)
    decreases left,
{
    if left == 0 || pos < 0 || pos + 4 > d.len() {
        (total, rate)
    } else {
        match mp3_frame(d[pos], d[pos + 1], d[pos + 2]) {
            None => mp3_scan(d, pos + 1, (left - 1) as nat, total, rate),
            Some((size, samples, sr)) => if pos + size > d.len() {
                (total, rate)
            } else {
                mp3_scan(d, pos + size, (left - 1) as nat, total + samples, sr)
            },
        }
    }
}

/// Where the audio starts: after an ID3v2 tag, if there is one.
pub open spec fn mp3_audio_start(d: Seq<u8>) -> int {
    if d.len() >= 10 && tag_at(d, 0, tag_id3()) {
        10 + synchsafe(d.subrange(6, 10))
    } else {
        0
    }
}

/// The duration in milliseconds of an MP3 file: samples of the frames
/// walked (at most twice the file length of steps) times 1000 over the last
/// sample rate; without frames, the file size at 128 kbit/s.
pub open spec fn mp3_duration(d: Seq<u8>) -> Result<u64, MetaError> {
    let (total, rate) = mp3_scan(d, mp3_audio_start(d), (2 * d.len()) as nat, 0, 0);
    if total > 0 && rate > 0 {
        let ms = total * 1000 / rate;
        Ok(
            if ms > u64::MAX {
                u64::MAX
            } else {
                ms as u64
            },
        )
    } else if d.len() > 0 {
        if d.len() * 8000 > u64::MAX {
            Err(MetaError::Overflow)
        } else {
            Ok((d.len() * 8000 / 128000) as u64)
        }
    } else {
        Err(MetaError::NoMp3Duration)
    }
}

proof fn lemma_scan_bounds(d: Seq<u8>, pos: int, left: nat, total: int, rate: int)
    requires
        0 <= total,
        0 <= rate <= 48000,
    ensures
        0 <= mp3_scan(d, pos, left, total, rate).0 <= total + 1152 * left,
        0 <= mp3_scan(d, pos, left, total, rate).1 <= 48000,
    decreases left,
{
    if !(left == 0 || pos < 0 || pos + 4 > d.len()) {
        match mp3_frame(d[pos], d[pos + 1], d[pos + 2]) {
            None => lemma_scan_bounds(d, pos + 1, (left - 1) as nat, total, rate),
            Some((size, samples, sr)) => if pos + size <= d.len() {
                lemma_frame_bounds(d[pos], d[pos + 1], d[pos + 2]);
                lemma_scan_bounds(d, pos + size, (left - 1) as nat, total + samples, sr);
            },
        }
    }
}

proof fn lemma_frame_bounds(b0: u8, b1: u8, b2: u8)
    ensures
        mp3_frame(b0, b1, b2) matches Some((size, samples, sr)) ==> 0 < size && 0 < samples
            <= 1152 && 0 < sr <= 48000,
{
}

fn frame_at(b0: u8, b1: u8, b2: u8) -> (r: Option<(usize, u32, u32)>)
    ensures
        r matches Some((size, samples, sr)) ==> mp3_frame(b0, b1, b2) == Some(
            (size as int, samples as int, sr as int),
        ),
        r is None ==> mp3_frame(b0, b1, b2) is None,
{
    let bitrate_table_mpeg1_layer3: [u32; 16] = [
        0,
        32,
        40,
        48,
        56,
        64,
        80,
        96,
        112,
        128,
        160,
        192,
        224,
        256,
        320,
        0,
    ];
    let bitrate_table_mpeg2_layer3: [u32; 16] = [
        0,
        8,
        16,
        24,
        32,
        40,
        48,
        56,
        64,
        80,
        96,
        112,
        128,
        144,
        160,
        0,
    ];
    assert(bitrate_table_mpeg1_layer3@ =~= bitrates_mpeg1_l3());
    assert(bitrate_table_mpeg2_layer3@ =~= bitrates_mpeg2_l3());
    let sync = (b1 & 0xE0) == 0xE0;
    assert(sync == (b1 >= 0xE0)) by (bit_vector)
        requires
            sync == ((b1 & 0xE0) == 0xE0),
    ;
    if !(b0 == 0xFF && sync) {
        return None;
    }
    let version = (b1 / 8) % 4;
    let layer = (b1 / 2) % 4;
    let bitrate_index = b2 / 16;
    let rate_index = (b2 / 4) % 4;
    let padding = ((b2 / 2) % 2) as u32;
    if version == 1 || layer != 1 || rate_index == 3 {
        return None;
    }
    let sample_rate: u32 = if rate_index == 3 {
        0
    } else if version == 3 {
        if rate_index == 0 {
            44100
        } else if rate_index == 1 {
            48000
        } else {
            32000
        }
    } else if version == 2 {
        if rate_index == 0 {
            22050
        } else if rate_index == 1 {
            24000
        } else {
            16000
        }
    } else if rate_index == 0 {
        11025
    } else if rate_index == 1 {
        12000
    } else {
        8000
    };
    let bitrate_kbps = if version == 3 {
        bitrate_table_mpeg1_layer3[bitrate_index as usize]
    } else {
        bitrate_table_mpeg2_layer3[bitrate_index as usize]
    };
    if bitrate_kbps == 0 {
        return None;
    }
    let frame_size = if version == 3 {
        (144000u32 * bitrate_kbps) / sample_rate + padding
    } else {
        (72000u32 * bitrate_kbps) / sample_rate + padding
    };
    if frame_size == 0 {
        return None;
    }
    let samples_per_frame: u32 = if version == 3 {
        1152
    } else {
        576
    };
    Some((frame_size as usize, samples_per_frame, sample_rate))
}

/// Computes the duration of an MP3 file in milliseconds.
pub fn compute(f: &mut FileReader) -> (r: Result<u64, MetaError>)
    ensures
        final(f)@.0 == old(f)@.0,
        final(f)@.1 == old(f)@.0.len(),
        r == mp3_duration(old(f)@.0),
{
    let total_size = f.len();
    f.seek_start(0)?;
    let all = f.read_to_end();
    assert(all@ =~= old(f)@.0);
    let len = all.len();
    let mut pos: usize = 0;
    if len >= 10 && all[0] == 0x49 && all[1] == 0x44 && all[2] == 0x33 {
        assert(all@.subrange(0, 3) =~= tag_id3());
        let tag_size = synchsafe_to_u32(&all[6..10]) as usize;
        pos = 10 + tag_size;
    } else {
        assert(len < 10 || !tag_at(all@, 0, tag_id3())) by {
            if len >= 10 && tag_at(all@, 0, tag_id3()) {
                assert(all@.subrange(0, 3)[0] == all@[0]);
                assert(all@.subrange(0, 3)[1] == all@[1]);
                assert(all@.subrange(0, 3)[2] == all@[2]);
            }
        }
    }
    let ghost start = pos as int;
    assert(start == mp3_audio_start(all@));
    let mut total_samples: u128 = 0;
    let mut last_sample_rate: u32 = 0;
    let max_iterations: u64 = len as u64 * 2;
    let mut iterations: u64 = 0;
    proof {
        lemma_scan_bounds(all@, start, (2 * len) as nat, 0, 0);
    }
    let mut done = false;
    while !done && pos <= len && len - pos >= 4 && iterations < max_iterations
        invariant
            len == all.len(),
            len <= MAX_POS,
            max_iterations == 2 * len,
            iterations <= max_iterations,
            total_samples <= 1152 * iterations,
            last_sample_rate <= 48000,
            done ==> mp3_scan(all@, start, (2 * len) as nat, 0, 0) == (
                total_samples as int,
                last_sample_rate as int,
            ),
            !done ==> mp3_scan(all@, start, (2 * len) as nat, 0, 0) == mp3_scan(
                all@,
                pos as int,
                (max_iterations - iterations) as nat,
                total_samples as int,
                last_sample_rate as int,
            ),
        decreases max_iterations - iterations,
    {
        iterations += 1;
        match frame_at(all[pos], all[pos + 1], all[pos + 2]) {
            None => {
                pos += 1;
            },
            Some((frame_size, samples, sample_rate)) => {
                proof {
                    lemma_frame_bounds(all@[pos as int], all@[pos + 1], all@[pos + 2]);
                }
                if len - pos < frame_size {
                    done = true;
                } else {
                    total_samples += samples as u128;
                    last_sample_rate = sample_rate;
                    pos += frame_size;
                }
            },
        }
    }
    if total_samples > 0 && last_sample_rate > 0 {
        let duration_ms = (total_samples * 1000u128) / (last_sample_rate as u128);
        let duration_u64 = if duration_ms > u64::MAX as u128 {
            u64::MAX
        } else {
            duration_ms as u64
        };
        return Ok(duration_u64);
    }
    if total_size > 0 {
        return match total_size.checked_mul(8000) {
            None => Err(MetaError::Overflow),
            Some(bits) => Ok(bits / 128_000),
        };
    }
    Err(MetaError::NoMp3Duration)
}

} // verus!

verus! {

/// A Layer III frame holds its samples' worth of the stream at its bitrate:
/// the frame length less the padding byte is the whole number of bytes that
/// `samples` samples at `sr` samples a second take at the bitrate from the
/// version's table (in kbit/s).
pub proof fn lemma_mp3_frame_length(b0: u8, b1: u8, b2: u8)
    ensures
        mp3_frame(b0, b1, b2) matches Some((size, samples, sr)) ==> {
            let br = if (b1 / 8) % 4 == 3 {
                bitrates_mpeg1_l3()[(b2 / 16) as int]
            } else {
                bitrates_mpeg2_l3()[(b2 / 16) as int]
            } as int;
            let bytes = size - (b2 / 2) % 2;
            &&& samples == (if (b1 / 8) % 4 == 3 { 1152int } else { 576int })
            &&& bytes * 8 * sr <= br * 1000 * samples < (bytes + 1) * 8 * sr
        },
{
    if let Some((size, samples, sr)) = mp3_frame(b0, b1, b2) {
        let version = (b1 / 8) % 4;
        let br = if version == 3 {
            bitrates_mpeg1_l3()[(b2 / 16) as int]
        } else {
            bitrates_mpeg2_l3()[(b2 / 16) as int]
        } as int;
        let bytes = size - (b2 / 2) % 2;
        assert(sr > 0);
        assert(br >= 0);
        if version == 3 {
            assert(bytes == 144000 * br / sr);
            assert(bytes * 8 * sr <= br * 1000 * 1152 < (bytes + 1) * 8 * sr) by (nonlinear_arith)
                requires
                    sr > 0,
                    br >= 0,
                    bytes == 144000 * br / sr,
            ;
        } else {
            assert(bytes == 72000 * br / sr);
            assert(bytes * 8 * sr <= br * 1000 * 576 < (bytes + 1) * 8 * sr) by (nonlinear_arith)
                requires
                    sr > 0,
                    br >= 0,
                    bytes == 72000 * br / sr,
            ;
        }
    }
}

/// The MP3 duration is the whole number of milliseconds in the samples of
/// the frames found at the last frame's sample rate; with no frames, the
/// whole number of milliseconds the file's bits take at 128 kbit/s.
pub proof fn lemma_mp3_duration_in_ms(d: Seq<u8>)
    ensures
        ({
            let (total, rate) = mp3_scan(d, mp3_audio_start(d), (2 * d.len()) as nat, 0, 0);
            &&& total > 0 && rate > 0 && total * 1000 / rate <= u64::MAX ==> (mp3_duration(d) matches Ok(x)
                && whole_millis(x as int, total, rate))
            &&& !(total > 0 && rate > 0) && d.len() > 0 && d.len() * 8000 <= u64::MAX ==> (mp3_duration(d) matches Ok(x)
                && whole_millis(x as int, (d.len() * 8) as int, 128_000))
        }),
{
    let (total, rate) = mp3_scan(d, mp3_audio_start(d), (2 * d.len()) as nat, 0, 0);
    if total > 0 && rate > 0 {
        lemma_whole_millis(total, rate);
    } else if d.len() > 0 {
        let n = d.len() * 8;
        let x = d.len() * 8000 / 128000;
        assert(x * 128_000 <= n * 1000 < (x + 1) * 128_000) by (nonlinear_arith)
            requires
                n == d.len() * 8,
                x == d.len() * 8000 / 128000,
                d.len() >= 0,
        ;
    }
}

} // verus!
