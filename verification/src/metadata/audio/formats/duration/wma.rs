//! Duration of a WMA (ASF) file, from its File Properties object.
use vstd::prelude::*;

use crate::bytes::{has_tag, le32, le64, tag_at};
use crate::numbers::whole_millis;
use crate::error::MetaError;
use crate::helpers::wma::read_u64_le;
use crate::metadata::audio::formats::wma::as_i64;
use crate::walk::{lemma_walk_never_ends, runs};
use crate::reader::{
    can_read_exact, pos_after_exact, read_count, valid_target, FileReader, MAX_POS,
};

verus! {

/// The ASF File Properties object GUID.
pub open spec fn guid_file_properties() -> Seq<u8> {
    seq![0xa1u8, 0xdc, 0xab, 0x8c, 0x47, 0xa9, 0xcf, 0x11, 0x8e, 0xe4, 0x00, 0xc0, 0x0c, 0x20, 0x53, 0x65]
}

/// Walking the objects from `pos` for at most `fuel` of them, each a 16-byte
/// GUID and a 64-bit size, to the File Properties object, whose play
/// duration (in 100 ns units, 40 bytes into its content) gives the
/// milliseconds.  Other objects are skipped by their size.  `None` when
/// `fuel` objects are not enough for the walk to end.
pub open spec fn wma_duration_from(d: Seq<u8>, pos: int, fuel: nat) -> Option<
    (Result<u64, MetaError>, int),
>
    decreases fuel,
{
    let len = d.len() as int;
    if read_count(len, pos, 16) != 16 {
        Some((Err(MetaError::NoFileProperties), pos + read_count(len, pos, 16)))
    } else if fuel == 0 {
        None
    } else {
        let p = pos + 16;
        if !can_read_exact(len, p, 8) {
            Some((Err(MetaError::UnexpectedEof), pos_after_exact(len, p, 8)))
        } else {
            let q = p + 8;
            let size = as_i64(le64(d, p));
            if tag_at(d, pos, guid_file_properties()) {
                if !valid_target(q + 40) {
                    Some((Err(MetaError::InvalidSeek), q))
                } else if !can_read_exact(len, q + 40, 8) {
                    Some((Err(MetaError::UnexpectedEof), pos_after_exact(len, q + 40, 8)))
                } else {
                    Some((Ok((le64(d, q + 40) / 10000) as u64), q + 48))
                }
            } else if size - 24 < i64::MIN {
                Some((Err(MetaError::Overflow), q))
            } else if !valid_target(q + size - 24) {
                Some((Err(MetaError::InvalidSeek), q))
            } else {
                wma_duration_from(d, q + size - 24, (fuel - 1) as nat)
            }
        }
    }
}

/// The duration in milliseconds of a WMA file, walking its objects from the
/// start for at most one more object than the file has bytes.
pub open spec fn wma_duration(d: Seq<u8>) -> Option<(Result<u64, MetaError>, int)> {
    wma_duration_from(d, 0, (d.len() + 1) as nat)
}

/// Computes the duration of a WMA file in milliseconds.
/// `Err(MetaError::Endless)` when the walk over the objects would never end.
pub fn compute(f: &mut FileReader) -> (r: Result<u64, MetaError>)
    ensures
        final(f)@.0 == old(f)@.0,
        wma_duration(old(f)@.0) is None <==> r == Err::<u64, MetaError>(MetaError::Endless),
        wma_duration(old(f)@.0) matches Some((res, pos)) ==> r == res && final(f)@.1 == pos,
{
    let props: [u8; 16] = [
        0xA1,
        0xDC,
        0xAB,
        0x8C,
        0x47,
        0xA9,
        0xCF,
        0x11,
        0x8E,
        0xE4,
        0x00,
        0xC0,
        0x0C,
        0x20,
        0x53,
        0x65,
    ];
    assert(props@ =~= guid_file_properties());
    let ghost d = f@.0;
    f.seek_start(0)?;
    let budget: u64 = f.len() + 1;
    let mut steps: u64 = 0;
    loop
        invariant
            f@.0 == d,
            d == old(f)@.0,
            budget == d.len() + 1,
            steps <= budget,
            props@ == guid_file_properties(),
            wma_duration(d) == wma_duration_from(d, f@.1, (budget - steps) as nat),
        decreases budget - steps,
    {
        let ghost pos = f@.1;
        let guid = f.read(16);
        if guid.len() != 16 {
            return Err(MetaError::NoFileProperties);
        }
        if steps == budget {
            return Err(MetaError::Endless);
        }
        steps += 1;
        let size = #[verifier::truncate] (read_u64_le(f)? as i64);
        if has_tag(&guid, 0, &props) {
            assert(tag_at(d, pos, guid_file_properties())) by {
                assert(guid@.subrange(0, 16) =~= guid@);
            }
            f.seek_current(40)?;
            let play_duration_100ns = read_u64_le(f)?;
            return Ok(play_duration_100ns / 10_000);
        } else {
            assert(!tag_at(d, pos, guid_file_properties())) by {
                if tag_at(d, pos, guid_file_properties()) {
                    assert(guid@.subrange(0, 16) =~= d.subrange(pos, pos + 16));
                }
            }
            if size < i64::MIN + 24 {
                return Err(MetaError::Overflow);
            }
            f.seek_current(size - 24)?;
        }
    }
}

} // verus!

verus! {

/// Where a step of the duration walk from `pos` leads: past an object that
/// is not the File Properties object, when it can be skipped.
pub open spec fn duration_step(d: Seq<u8>, pos: int) -> Option<int> {
    let len = d.len() as int;
    let q = pos + 24;
    let size = as_i64(le64(d, pos + 16));
    if read_count(len, pos, 16) == 16 && can_read_exact(len, pos + 16, 8) && !tag_at(
        d,
        pos,
        guid_file_properties(),
    ) && size - 24 >= i64::MIN && valid_target(q + size - 24) {
        Some(q + size - 24)
    } else {
        None
    }
}

/// Whether the duration walk can read an object's GUID at `pos`.
pub open spec fn duration_live(d: Seq<u8>, pos: int) -> bool {
    0 <= pos && read_count(d.len() as int, pos, 16) == 16
}

proof fn lemma_duration_runs(d: Seq<u8>, pos: int, fuel: nat)
    requires
        0 <= pos,
    ensures
        wma_duration_from(d, pos, fuel) is None <==> runs(
            |x: int| duration_step(d, x),
            |x: int| duration_live(d, x),
            pos,
            fuel,
        ),
    decreases fuel,
{
    if fuel > 0 {
        if let Some(n) = duration_step(d, pos) {
            lemma_duration_runs(d, n, (fuel - 1) as nat);
        }
    }
}

proof fn lemma_duration_more_fuel(d: Seq<u8>, pos: int, f: nat, g: nat)
    requires
        wma_duration_from(d, pos, f) is Some,
        f <= g,
    ensures
        wma_duration_from(d, pos, g) == wma_duration_from(d, pos, f),
    decreases f,
{
    if f > 0 {
        if let Some(n) = duration_step(d, pos) {
            lemma_duration_more_fuel(d, n, (f - 1) as nat, (g - 1) as nat);
        }
    }
}

/// The walk over the objects of a WMA file for its duration ends within
/// one more object than the file has bytes, or never: allowed any number
/// of objects, it ends with the outcome that `wma_duration` gives, or, when
/// that is none, goes on for ever.
pub proof fn lemma_wma_duration_walk(d: Seq<u8>, fuel: nat)
    ensures
        wma_duration(d) is None ==> wma_duration_from(d, 0, fuel) is None,
        wma_duration(d) is Some && fuel >= d.len() + 1 ==> wma_duration_from(d, 0, fuel)
            == wma_duration(d),
{
    let next = |x: int| duration_step(d, x);
    let live = |x: int| duration_live(d, x);
    if wma_duration(d) is None {
        lemma_duration_runs(d, 0, (d.len() + 1) as nat);
        lemma_walk_never_ends(next, live, 0, d.len() as int, 0, (d.len() + 1) as nat, fuel);
        lemma_duration_runs(d, 0, fuel);
    } else if fuel >= d.len() + 1 {
        lemma_duration_more_fuel(d, 0, (d.len() + 1) as nat, fuel);
    }
}

} // verus!

verus! {

/// When the walk reaches the File Properties object, the duration is the
/// whole number of milliseconds in its play duration, which counts 100 ns
/// units (ten million a second) 40 bytes into the object's content.
pub proof fn lemma_wma_duration_in_ms(d: Seq<u8>, pos: int, fuel: nat)
    requires
        0 <= pos,
        pos + 72 <= d.len() <= MAX_POS,
        fuel > 0,
        tag_at(d, pos, guid_file_properties()),
    ensures
        wma_duration_from(d, pos, fuel) matches Some((Ok(x), p)) && p == pos + 72 && whole_millis(
            x as int,
            le64(d, pos + 64),
            10_000_000,
        ),
{
    let pd = le64(d, pos + 64);
    assert(0 <= le32(d, pos + 64) <= 0xFFFF_FFFF && 0 <= le32(d, pos + 68) <= 0xFFFF_FFFF);
    assert(0 <= pd);
    let x = pd / 10000;
    assert(x * 10_000_000 <= pd * 1000 < (x + 1) * 10_000_000) by (nonlinear_arith)
        requires
            pd >= 0,
            x == pd / 10000,
    ;
    assert(0 <= x <= pd) by (nonlinear_arith)
        requires
            pd >= 0,
            x == pd / 10000,
    ;
    assert(pd <= 0xFFFF_FFFF_FFFF_FFFF) by (nonlinear_arith)
        requires
            0 <= le32(d, pos + 64) <= 0xFFFF_FFFF,
            0 <= le32(d, pos + 68) <= 0xFFFF_FFFF,
            pd == le32(d, pos + 64) + le32(d, pos + 68) * 0x1_0000_0000,
    ;
}

} // verus!
