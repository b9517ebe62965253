//! Size of a HEIF image.
use vstd::prelude::*;

use crate::bytes::{be32, be32_at, tag_at};
use crate::error::MetaError;
use crate::metadata::images::{image, image_of, image_result, ImageMeta, ImageMetadata};
use crate::reader::{ahead, can_read_exact, pos_after_exact, reader_ok, valid_target, FileReader, MAX_POS};

verus! {

/// `heif`
pub open spec fn name_heif() -> Seq<char> {
    seq!['h', 'e', 'i', 'f']
}

/// `meta`
pub open spec fn tag_meta() -> Seq<u8> {
    seq![0x6Du8, 0x65, 0x74, 0x61]
}

/// `ipco`: the item property container.
pub open spec fn tag_ipco() -> Seq<u8> {
    seq![0x69u8, 0x70, 0x63, 0x6F]
}

/// `ispe`: the image spatial extents.
pub open spec fn tag_ispe() -> Seq<u8> {
    seq![0x69u8, 0x73, 0x70, 0x65]
}

/// How far `p` is short of `end`.
pub open spec fn gap(p: int, end: int) -> nat {
    if p < end {
        (end - p) as nat
    } else {
        0
    }
}

/// An `ispe` box body at `p`: version and flags skipped, then width and
/// height as big-endian 32-bit values; the reader then moves to `end`.
pub open spec fn ispe_box(d: Seq<u8>, p: int, end: int) -> (Result<(u32, u32), MetaError>, int) {
    let len = d.len() as int;
    if !valid_target(p + 4) {
        (Err(MetaError::InvalidSeek), p)
    } else if !can_read_exact(len, p + 4, 4) {
        (Err(MetaError::UnexpectedEof), pos_after_exact(len, p + 4, 4))
    } else if !can_read_exact(len, p + 8, 4) {
        (Err(MetaError::UnexpectedEof), pos_after_exact(len, p + 8, 4))
    } else if !valid_target(end) {
        (Err(MetaError::InvalidSeek), p + 12)
    } else {
        (Ok((be32(d, p + 4) as u32, be32(d, p + 8) as u32)), end)
    }
}

/// The sub-boxes of an `ipco` box, from `p` while the reader is before
/// `end`: each a 32-bit size and a type.  The size of an `ispe` box that
/// reads in full replaces `dims`; other boxes are skipped.  A sub-box size
/// under 8 stops the scan with `Overflow`.
pub open spec fn heif_ipco(d: Seq<u8>, p: int, end: int, dims: Option<(u32, u32)>) -> (Result<
    Option<(u32, u32)>,
    MetaError,
>, int)
    decreases gap(p, end),
{
    let len = d.len() as int;
    if p >= end {
        (Ok(dims), p)
    } else if !can_read_exact(len, p, 4) {
        (Err(MetaError::UnexpectedEof), pos_after_exact(len, p, 4))
    } else if !can_read_exact(len, p + 4, 4) {
        (Err(MetaError::UnexpectedEof), pos_after_exact(len, p + 4, 4))
    } else if be32(d, p) < 8 {
        (Err(MetaError::Overflow), p + 8)
    } else {
        let sub_end = p + be32(d, p);
        if tag_at(d, p + 4, tag_ispe()) {
            let (r, q) = ispe_box(d, p + 8, sub_end);
            let next = match r {
                Ok(wh) => Some(wh),
                Err(_) => dims,
            };
            proof {
                lemma_ispe_box_advances(d, p + 8, sub_end);
            }
            heif_ipco(d, q, end, next)
        } else if !valid_target(sub_end) {
            (Err(MetaError::InvalidSeek), p + 8)
        } else {
            heif_ipco(d, sub_end, end, dims)
        }
    }
}

/// The top-level boxes of a HEIF file from `p`: each a 32-bit size and a
/// type.  A `meta` box is entered past its version and flags, the
/// sub-boxes of an `ipco` box are scanned, other boxes are skipped.  The
/// scan ends at the end of the file, at a size that cannot be read, or at a
/// size under 8.
pub open spec fn heif_from(d: Seq<u8>, p: int, dims: Option<(u32, u32)>) -> (Result<
    Option<(u32, u32)>,
    MetaError,
>, int)
    decreases ahead(d.len() as int, p),
{
    let len = d.len() as int;
    if !can_read_exact(len, p, 4) {
        (Ok(dims), pos_after_exact(len, p, 4))
    } else if !can_read_exact(len, p + 4, 4) {
        (Err(MetaError::UnexpectedEof), pos_after_exact(len, p + 4, 4))
    } else if be32(d, p) < 8 {
        (Ok(dims), p + 8)
    } else {
        let start = p + 8;
        let end = start + be32(d, p) - 8;
        let step: (Result<Option<(u32, u32)>, MetaError>, int) = if tag_at(d, p + 4, tag_meta()) {
            if valid_target(start + 4) {
                (Ok(dims), start + 4)
            } else {
                (Err(MetaError::InvalidSeek), start)
            }
        } else if tag_at(d, p + 4, tag_ipco()) {
            heif_ipco(d, start, end, dims)
        } else if valid_target(end) {
            (Ok(dims), end)
        } else {
            (Err(MetaError::InvalidSeek), start)
        };
        proof {
            lemma_heif_ipco_advances(d, start, end, dims);
        }
        match step {
            (Err(e), q) => (Err(e), q),
            (Ok(next), q) => if q >= len {
                (Ok(next), q)
            } else {
                heif_from(d, q, next)
            },
        }
    }
}

/// A HEIF image: the size found by scanning its boxes, 24 bits deep.
pub open spec fn heif_image(d: Seq<u8>) -> (Result<ImageMeta, MetaError>, int) {
    match heif_from(d, 0, None) {
        (Err(e), p) => (Err(e), p),
        (Ok(dims), p) => (Ok(image(name_heif(), dims, Some(24))), p),
    }
}

/// Where an `ispe` box leaves the reader: past its start.
pub proof fn lemma_ispe_box_advances(d: Seq<u8>, p: int, end: int)
    requires
        end >= p,
    ensures
        ispe_box(d, p, end).1 >= p,
{
}

/// Where a scan of sub-boxes leaves the reader: never before its start.
pub proof fn lemma_heif_ipco_advances(d: Seq<u8>, p: int, end: int, dims: Option<(u32, u32)>)
    ensures
        heif_ipco(d, p, end, dims).1 >= p,
    decreases gap(p, end),
{
    let len = d.len() as int;
    if p < end && can_read_exact(len, p, 4) && can_read_exact(len, p + 4, 4) && be32(d, p) >= 8 {
        let sub_end = p + be32(d, p);
        if tag_at(d, p + 4, tag_ispe()) {
            let (r, q) = ispe_box(d, p + 8, sub_end);
            let next = match r {
                Ok(wh) => Some(wh),
                Err(_) => dims,
            };
            lemma_ispe_box_advances(d, p + 8, sub_end);
            lemma_heif_ipco_advances(d, q, end, next);
        } else if valid_target(sub_end) {
            lemma_heif_ipco_advances(d, sub_end, end, dims);
        }
    }
}

/// A big-endian 32-bit value read at the reader's position.
fn read_u32_be(f: &mut FileReader) -> (r: Result<u32, MetaError>)
    ensures
        reader_ok(final(f)@),
        final(f)@.0 == old(f)@.0,
        final(f)@.1 == pos_after_exact(old(f)@.0.len() as int, old(f)@.1, 4),
        can_read_exact(old(f)@.0.len() as int, old(f)@.1, 4) ==> r == Ok::<u32, MetaError>(
            be32(old(f)@.0, old(f)@.1) as u32,
        ),
        !can_read_exact(old(f)@.0.len() as int, old(f)@.1, 4) ==> r == Err::<u32, MetaError>(
            MetaError::UnexpectedEof,
        ),
{
    let ghost p = f@.1;
    let buf = f.read_exact(4)?;
    assert(buf@ =~= f@.0.subrange(p, p + 4));
    Ok(be32_at(&buf, 0))
}

/// A four-byte type code read at the reader's position.
fn read_type(f: &mut FileReader) -> (r: Result<[u8; 4], MetaError>)
    ensures
        reader_ok(final(f)@),
        final(f)@.0 == old(f)@.0,
        final(f)@.1 == pos_after_exact(old(f)@.0.len() as int, old(f)@.1, 4),
        can_read_exact(old(f)@.0.len() as int, old(f)@.1, 4) ==> r is Ok && r->Ok_0@
            == old(f)@.0.subrange(old(f)@.1, old(f)@.1 + 4),
        !can_read_exact(old(f)@.0.len() as int, old(f)@.1, 4) ==> r == Err::<[u8; 4], MetaError>(
            MetaError::UnexpectedEof,
        ),
{
    let ghost p = f@.1;
    let buf = f.read_exact(4)?;
    let t = [buf[0], buf[1], buf[2], buf[3]];
    assert(t@ =~= f@.0.subrange(p, p + 4));
    Ok(t)
}

fn same_type(t: &[u8; 4], code: &[u8; 4]) -> (r: bool)
    ensures
        r == (t@ == code@),
{
    let r = t[0] == code[0] && t[1] == code[1] && t[2] == code[2] && t[3] == code[3];
    if r {
        assert(t@ =~= code@);
    }
    r
}

/// Reads width and height from an `ispe` box whose body starts at the
/// reader's position, then moves to `box_end`.
fn parse_ispe_box(f: &mut FileReader, box_end: u64) -> (r: Result<(u32, u32), MetaError>)
    ensures
        reader_ok(final(f)@),
        final(f)@.0 == old(f)@.0,
        (r, final(f)@.1) == ispe_box(old(f)@.0, old(f)@.1, box_end as int),
{
    f.seek_current(4)?;
    let width = read_u32_be(f)?;
    let height = read_u32_be(f)?;
    f.seek_start(box_end)?;
    Ok((width, height))
}

/// Scans the sub-boxes of an `ipco` box from the reader's position to
/// `end`.
fn scan_ipco(f: &mut FileReader, end: u64, dims: Option<(u32, u32)>) -> (r: Result<
    Option<(u32, u32)>,
    MetaError,
>)
    requires
        reader_ok(old(f)@),
    ensures
        reader_ok(final(f)@),
        final(f)@.0 == old(f)@.0,
        (r, final(f)@.1) == heif_ipco(old(f)@.0, old(f)@.1, end as int, dims),
{
    let ghost d = f@.0;
    let ispe: [u8; 4] = [0x69, 0x73, 0x70, 0x65];
    assert(ispe@ =~= tag_ispe());
    let mut dimensions = dims;
    while f.stream_position() < end
        invariant
            f@.0 == d,
            old(f)@.0 == d,
            reader_ok(f@),
            ispe@ == tag_ispe(),
            heif_ipco(d, old(f)@.1, end as int, dims) == heif_ipco(d, f@.1, end as int, dimensions),
        decreases gap(f@.1, end as int),
    {
        let ghost p = f@.1;
        let sub_size = read_u32_be(f)?;
        let sub_type = read_type(f)?;
        assert(sub_type@ == d.subrange(p + 4, p + 8));
        let sub_start = f.stream_position();
        if sub_size < 8 {
            return Err(MetaError::Overflow);
        }
        let sub_end = sub_start + (sub_size as u64 - 8);
        if same_type(&sub_type, &ispe) {
            assert(tag_at(d, p + 4, tag_ispe()));
            proof {
                lemma_ispe_box_advances(d, p + 8, sub_end as int);
            }
            if let Ok((w, h)) = parse_ispe_box(f, sub_end) {
                dimensions = Some((w, h));
            }
        } else {
            assert(!tag_at(d, p + 4, tag_ispe())) by {
                if tag_at(d, p + 4, tag_ispe()) {
                    assert(sub_type@ =~= ispe@);
                }
            }
            f.seek_start(sub_end)?;
        }
    }
    Ok(dimensions)
}

fn heif_meta(dims: Option<(u32, u32)>) -> (r: ImageMetadata)
    ensures
        r@ == image(name_heif(), dims, Some(24)),
{
    let name = ['h', 'e', 'i', 'f'];
    assert(name@ =~= name_heif());
    image_of(&name, dims, Some(24))
}

/// Reads the size of a HEIF image.
pub fn parse(f: &mut FileReader) -> (r: Result<ImageMetadata, MetaError>)
    ensures
        final(f)@.0 == old(f)@.0,
        (image_result(r), final(f)@.1) == heif_image(old(f)@.0),
{
    f.seek_start(0)?;
    let ghost d = f@.0;
    let meta: [u8; 4] = [0x6D, 0x65, 0x74, 0x61];
    let ipco: [u8; 4] = [0x69, 0x70, 0x63, 0x6F];
    assert(meta@ =~= tag_meta());
    assert(ipco@ =~= tag_ipco());
    let mut dimensions: Option<(u32, u32)> = None;
    loop
        invariant
            f@.0 == d,
            old(f)@.0 == d,
            reader_ok(f@),
            meta@ == tag_meta(),
            ipco@ == tag_ipco(),
            heif_from(d, 0, None) == heif_from(d, f@.1, dimensions),
        decreases ahead(d.len() as int, f@.1),
    {
        let ghost p = f@.1;
        let size = match read_u32_be(f) {
            Ok(s) => s,
            Err(_) => {
                return Ok(heif_meta(dimensions));
            },
        };
        let box_type = read_type(f)?;
        assert(box_type@ == d.subrange(p + 4, p + 8));
        let start = f.stream_position();
        if size < 8 {
            return Ok(heif_meta(dimensions));
        }
        let end = start + (size as u64 - 8);
        if same_type(&box_type, &meta) {
            assert(tag_at(d, p + 4, tag_meta()));
            f.seek_current(4)?;
        } else if same_type(&box_type, &ipco) {
            assert(!tag_at(d, p + 4, tag_meta())) by {
                if tag_at(d, p + 4, tag_meta()) {
                    assert(box_type@ =~= meta@);
                }
            }
            assert(tag_at(d, p + 4, tag_ipco()));
            proof {
                lemma_heif_ipco_advances(d, start as int, end as int, dimensions);
            }
            dimensions = scan_ipco(f, end, dimensions)?;
        } else {
            assert(!tag_at(d, p + 4, tag_meta())) by {
                if tag_at(d, p + 4, tag_meta()) {
                    assert(box_type@ =~= meta@);
                }
            }
            assert(!tag_at(d, p + 4, tag_ipco())) by {
                if tag_at(d, p + 4, tag_ipco()) {
                    assert(box_type@ =~= ipco@);
                }
            }
            f.seek_start(end)?;
        }
        if f.stream_position() >= f.len() {
            return Ok(heif_meta(dimensions));
        }
    }
}

} // verus!

verus! {

/// An `ispe` box body that reads in full gives the width (the first
/// big-endian value after the version and flags) and then the height.
pub proof fn lemma_heif_ispe_width_first(d: Seq<u8>, p: int, end: int)
    requires
        0 <= p,
        p + 12 <= d.len(),
        d.len() <= MAX_POS,
        valid_target(end),
    ensures
        ispe_box(d, p, end) == (Ok::<(u32, u32), MetaError>(
            (
                (d[p + 4] * 0x100_0000 + d[p + 5] * 0x1_0000 + d[p + 6] * 0x100 + d[p + 7]) as u32,
                (d[p + 8] * 0x100_0000 + d[p + 9] * 0x1_0000 + d[p + 10] * 0x100 + d[p + 11]) as u32,
            ),
        ), end),
{
}

} // verus!
