//! Size of an AVIF image.
//!
//! An AVIF file is a HEIF container of AV1 images; its size stands in an
//! `ispe` box inside `meta` / `iprp` / `ipco`.
use vstd::prelude::*;

use crate::bytes::{be32, be32_at, has_tag, tag_at};
use crate::error::MetaError;
use crate::metadata::images::{empty_image, image_result, ImageMeta, ImageMetadata};
use crate::reader::{
    ahead,
    can_read_exact,
    pos_after_exact,
    read_count,
    reader_ok,
    valid_target,
    FileReader,
    MAX_POS,
};
use crate::text::string_from_chars;

verus! {

/// `AVIF`
pub open spec fn name_avif() -> Seq<char> {
    seq!['A', 'V', 'I', 'F']
}

/// `ftyp`
pub open spec fn tag_ftyp() -> Seq<u8> {
    seq![0x66u8, 0x74, 0x79, 0x70]
}

/// `meta`
pub open spec fn tag_meta() -> Seq<u8> {
    seq![0x6Du8, 0x65, 0x74, 0x61]
}

/// `iprp`: item properties.
pub open spec fn tag_iprp() -> Seq<u8> {
    seq![0x69u8, 0x70, 0x72, 0x70]
}

/// `ipco`: the item property container.
pub open spec fn tag_ipco() -> Seq<u8> {
    seq![0x69u8, 0x70, 0x63, 0x6F]
}

/// `ispe`: the image spatial extents.
pub open spec fn tag_ispe() -> Seq<u8> {
    seq![0x69u8, 0x73, 0x70, 0x65]
}

/// `avif`
pub open spec fn brand_avif() -> Seq<u8> {
    seq![0x61u8, 0x76, 0x69, 0x66]
}

/// `avis`
pub open spec fn brand_avis() -> Seq<u8> {
    seq![0x61u8, 0x76, 0x69, 0x73]
}

/// Whether `avif` or `avis` occurs anywhere in `b`.
pub open spec fn avif_brand(b: Seq<u8>) -> bool {
    exists|i: int| tag_at(b, i, brand_avif()) || tag_at(b, i, brand_avis())
}

/// How far `p` is short of `end`.
pub open spec fn gap(p: int, end: int) -> nat {
    if p < end {
        (end - p) as nat
    } else {
        0
    }
}

/// The type of the boxes looked for at each level: `iprp` inside `meta`
/// (level 2), `ipco` inside `iprp` (level 1), `ispe` inside `ipco`
/// (level 0).
pub open spec fn child_tag(level: nat) -> Seq<u8> {
    if level == 2 {
        tag_iprp()
    } else if level == 1 {
        tag_ipco()
    } else {
        tag_ispe()
    }
}

/// An `ispe` box at `s` of `size` bytes, the reader at `fpos`: a box of at
/// least 20 bytes gives width and height, big-endian 32-bit values after
/// the version and flags.
pub open spec fn ispe_props(d: Seq<u8>, s: int, size: int, m: ImageMeta, fpos: int) -> (Result<
    ImageMeta,
    MetaError,
>, int) {
    let len = d.len() as int;
    if size < 20 {
        (Ok(m), fpos)
    } else if !valid_target(s + 8) {
        (Err(MetaError::InvalidSeek), fpos)
    } else if !can_read_exact(len, s + 8, 12) {
        (Err(MetaError::UnexpectedEof), pos_after_exact(len, s + 8, 12))
    } else {
        (Ok(ImageMeta { dimensions: Some((be32(d, s + 12) as u32, be32(d, s + 16) as u32)), ..m }),
        s + 20)
    }
}

/// The boxes from `q` on while a header fits before `end`, the reader at
/// `fpos`: each box is read at its start, a size under 8 ends the walk, and
/// a box of the level's child type is entered.
pub open spec fn box_walk(level: nat, d: Seq<u8>, q: int, end: int, m: ImageMeta, fpos: int) -> (Result<
    ImageMeta,
    MetaError,
>, int)
    decreases level, gap(q, end),
{
    let len = d.len() as int;
    if q + 8 > end {
        (Ok(m), fpos)
    } else if !valid_target(q) {
        (Err(MetaError::InvalidSeek), fpos)
    } else if !can_read_exact(len, q, 8) {
        (Err(MetaError::UnexpectedEof), pos_after_exact(len, q, 8))
    } else if be32(d, q) < 8 {
        (Ok(m), q + 8)
    } else {
        let size = be32(d, q);
        let inner: (Result<ImageMeta, MetaError>, int) = if !tag_at(d, q + 4, child_tag(level)) {
            (Ok(m), q + 8)
        } else if level == 0 {
            ispe_props(d, q, size, m, q + 8)
        } else {
            box_walk((level - 1) as nat, d, q + 8, q + size, m, q + 8)
        };
        match inner {
            (Err(e), p) => (Err(e), p),
            (Ok(m2), p) => box_walk(level, d, q + size, end, m2, p),
        }
    }
}

/// Where a walk leaves the reader: not before the start of the walk or the
/// reader's position, whichever is first.
pub proof fn lemma_box_walk_advances(
    level: nat,
    d: Seq<u8>,
    q: int,
    end: int,
    m: ImageMeta,
    fpos: int,
)
    ensures
        box_walk(level, d, q, end, m, fpos).1 >= if fpos < q {
            fpos
        } else {
            q
        },
    decreases level, gap(q, end),
{
    let len = d.len() as int;
    if q + 8 <= end && valid_target(q) && can_read_exact(len, q, 8) && be32(d, q) >= 8 {
        let size = be32(d, q);
        if tag_at(d, q + 4, child_tag(level)) && level > 0 {
            lemma_box_walk_advances((level - 1) as nat, d, q + 8, q + size, m, q + 8);
        }
        let inner: (Result<ImageMeta, MetaError>, int) = if !tag_at(d, q + 4, child_tag(level)) {
            (Ok(m), q + 8)
        } else if level == 0 {
            ispe_props(d, q, size, m, q + 8)
        } else {
            box_walk((level - 1) as nat, d, q + 8, q + size, m, q + 8)
        };
        if let (Ok(m2), p) = inner {
            lemma_box_walk_advances(level, d, q + size, end, m2, p);
        }
    }
}

/// The top-level boxes of an AVIF file from `p`.  An `ftyp` box must name
/// the brand `avif` or `avis` within its first 64 bytes, and sets the
/// format; a `meta` box is walked for the size; other boxes are skipped.
/// The walk ends where a full box header cannot be read or a size is under
/// 8.
pub open spec fn avif_from(d: Seq<u8>, p: int, m: ImageMeta) -> (Result<ImageMeta, MetaError>, int)
    decreases ahead(d.len() as int, p),
{
    let len = d.len() as int;
    let n = read_count(len, p, 8);
    if n < 8 {
        (Ok(m), p + n)
    } else if be32(d, p) < 8 {
        (Ok(m), p + 8)
    } else {
        let size = be32(d, p);
        if tag_at(d, p + 4, tag_ftyp()) {
            let k = if size - 8 < 64 {
                size - 8
            } else {
                64
            };
            if !can_read_exact(len, p + 8, k) {
                (Err(MetaError::UnexpectedEof), pos_after_exact(len, p + 8, k))
            } else if !avif_brand(d.subrange(p + 8, p + 8 + k)) {
                (Err(MetaError::NotAvif), p + 8 + k)
            } else {
                avif_from(d, p + 8 + k, ImageMeta { format: Some(name_avif()), ..m })
            }
        } else if tag_at(d, p + 4, tag_meta()) {
            proof {
                lemma_box_walk_advances(2, d, p + 12, p + size, m, p + 8);
            }
            match box_walk(2, d, p + 12, p + size, m, p + 8) {
                (Err(e), q) => (Err(e), q),
                (Ok(m2), q) => avif_from(d, q, m2),
            }
        } else if !valid_target(p + size) {
            (Err(MetaError::InvalidSeek), p + 8)
        } else {
            avif_from(d, p + size, m)
        }
    }
}

/// An AVIF image: the format and size its boxes give.
pub open spec fn avif_image(d: Seq<u8>) -> (Result<ImageMeta, MetaError>, int) {
    avif_from(d, 0, empty_image())
}

/// Whether a walk that ends with `r` and the metadata and reader at `m` and
/// `p` has the outcome `o`.
pub open spec fn walk_outcome(
    r: Result<(), MetaError>,
    m: ImageMeta,
    p: int,
    o: (Result<ImageMeta, MetaError>, int),
) -> bool {
    &&& p == o.1
    &&& match o.0 {
        Ok(m2) => r is Ok && m == m2,
        Err(e) => r == Err::<(), MetaError>(e),
    }
}

/// Whether `b` holds `avif` or `avis`.
fn has_avif_brand(b: &[u8]) -> (r: bool)
    ensures
        r == avif_brand(b@),
{
    let avif: [u8; 4] = [0x61, 0x76, 0x69, 0x66];
    let avis: [u8; 4] = [0x61, 0x76, 0x69, 0x73];
    assert(avif@ =~= brand_avif());
    assert(avis@ =~= brand_avis());
    let mut i: usize = 0;
    while i < b.len()
        invariant
            i <= b.len(),
            avif@ == brand_avif(),
            avis@ == brand_avis(),
            forall|j: int| j < i ==> !tag_at(b@, j, brand_avif()) && !tag_at(b@, j, brand_avis()),
        decreases b.len() - i,
    {
        if has_tag(b, i, &avif) || has_tag(b, i, &avis) {
            return true;
        }
        i += 1;
    }
    assert forall|j: int| !tag_at(b@, j, brand_avif()) && !tag_at(b@, j, brand_avis()) by {
        if j >= i {
            assert(!tag_at(b@, j, brand_avif()));
        }
    }
    false
}

fn parse_ispe(f: &mut FileReader, box_start: u64, box_size: u64, meta: &mut ImageMetadata) -> (r:
    Result<(), MetaError>)
    requires
        box_start <= MAX_POS + 0x4_0000_0000,
    ensures
        final(f)@.0 == old(f)@.0,
        reader_ok(final(f)@),
        walk_outcome(
            r,
            final(meta)@,
            final(f)@.1,
            ispe_props(old(f)@.0, box_start as int, box_size as int, old(meta)@, old(f)@.1),
        ),
{
    let _ = f.len();
    if box_size < 20 {
        return Ok(());
    }
    f.seek_start(box_start + 8)?;
    let ghost d = f@.0;
    let buf = f.read_exact(12)?;
    assert(buf@ =~= d.subrange(box_start + 8, box_start + 20));
    let width = be32_at(&buf, 4);
    let height = be32_at(&buf, 8);
    meta.dimensions = Some((width, height));
    Ok(())
}

fn parse_ipco(f: &mut FileReader, ipco_start: u64, ipco_size: u64, meta: &mut ImageMetadata) -> (r:
    Result<(), MetaError>)
    requires
        ipco_start + ipco_size <= MAX_POS + 0x3_0000_0000,
        ipco_size <= 0xFFFF_FFFF,
    ensures
        final(f)@.0 == old(f)@.0,
        reader_ok(final(f)@),
        walk_outcome(
            r,
            final(meta)@,
            final(f)@.1,
            box_walk(
                0,
                old(f)@.0,
                ipco_start + 8,
                ipco_start + ipco_size,
                old(meta)@,
                old(f)@.1,
            ),
        ),
{
    let _ = f.len();
    let ghost d = f@.0;
    let ispe: [u8; 4] = [0x69, 0x73, 0x70, 0x65];
    assert(ispe@ =~= tag_ispe());
    let mut pos = ipco_start + 8;
    let ipco_end = ipco_start + ipco_size;
    while pos + 8 <= ipco_end
        invariant
            f@.0 == d,
            old(f)@.0 == d,
            reader_ok(f@),
            ispe@ == tag_ispe(),
            ipco_end == ipco_start + ipco_size,
            ipco_end <= MAX_POS + 0x3_0000_0000,
            pos <= ipco_end + 0x1_0000_0000,
            box_walk(0, d, ipco_start + 8, ipco_end as int, old(meta)@, old(f)@.1) == box_walk(
                0,
                d,
                pos as int,
                ipco_end as int,
                meta@,
                f@.1,
            ),
        decreases gap(pos as int, ipco_end as int),
    {
        f.seek_start(pos)?;
        let h = f.read_exact(8)?;
        assert(h@ =~= d.subrange(pos as int, pos + 8));
        let size = be32_at(&h, 0) as u64;
        if size < 8 {
            return Ok(());
        }
        assert(tag_at(h@, 4, ispe@) == tag_at(d, pos + 4, tag_ispe())) by {
            assert(h@.subrange(4, 8) =~= d.subrange(pos + 4, pos + 8));
        }
        if has_tag(&h, 4, &ispe) {
            parse_ispe(f, pos, size, meta)?;
        }
        pos += size;
    }
    Ok(())
}

fn parse_iprp(f: &mut FileReader, iprp_start: u64, iprp_size: u64, meta: &mut ImageMetadata) -> (r:
    Result<(), MetaError>)
    requires
        iprp_start + iprp_size <= MAX_POS + 0x2_0000_0000,
        iprp_size <= 0xFFFF_FFFF,
    ensures
        final(f)@.0 == old(f)@.0,
        reader_ok(final(f)@),
        walk_outcome(
            r,
            final(meta)@,
            final(f)@.1,
            box_walk(
                1,
                old(f)@.0,
                iprp_start + 8,
                iprp_start + iprp_size,
                old(meta)@,
                old(f)@.1,
            ),
        ),
{
    let _ = f.len();
    let ghost d = f@.0;
    let ipco: [u8; 4] = [0x69, 0x70, 0x63, 0x6F];
    assert(ipco@ =~= tag_ipco());
    let mut pos = iprp_start + 8;
    let iprp_end = iprp_start + iprp_size;
    while pos + 8 <= iprp_end
        invariant
            f@.0 == d,
            old(f)@.0 == d,
            reader_ok(f@),
            ipco@ == tag_ipco(),
            iprp_end == iprp_start + iprp_size,
            iprp_end <= MAX_POS + 0x2_0000_0000,
            pos <= iprp_end + 0x1_0000_0000,
            box_walk(1, d, iprp_start + 8, iprp_end as int, old(meta)@, old(f)@.1) == box_walk(
                1,
                d,
                pos as int,
                iprp_end as int,
                meta@,
                f@.1,
            ),
        decreases gap(pos as int, iprp_end as int),
    {
        f.seek_start(pos)?;
        let h = f.read_exact(8)?;
        assert(h@ =~= d.subrange(pos as int, pos + 8));
        let size = be32_at(&h, 0) as u64;
        if size < 8 {
            return Ok(());
        }
        assert(tag_at(h@, 4, ipco@) == tag_at(d, pos + 4, tag_ipco())) by {
            assert(h@.subrange(4, 8) =~= d.subrange(pos + 4, pos + 8));
        }
        if has_tag(&h, 4, &ipco) {
            parse_ipco(f, pos, size, meta)?;
        }
        pos += size;
    }
    Ok(())
}

fn parse_meta_box(f: &mut FileReader, meta_start: u64, meta_size: u32, meta: &mut ImageMetadata) -> (r:
    Result<(), MetaError>)
    requires
        meta_start <= MAX_POS,
    ensures
        final(f)@.0 == old(f)@.0,
        reader_ok(final(f)@),
        walk_outcome(
            r,
            final(meta)@,
            final(f)@.1,
            box_walk(
                2,
                old(f)@.0,
                meta_start + 12,
                meta_start + meta_size,
                old(meta)@,
                old(f)@.1,
            ),
        ),
{
    let _ = f.len();
    let ghost d = f@.0;
    let iprp: [u8; 4] = [0x69, 0x70, 0x72, 0x70];
    assert(iprp@ =~= tag_iprp());
    let mut pos = meta_start + 12;
    let meta_end = meta_start + meta_size as u64;
    while pos + 8 <= meta_end
        invariant
            f@.0 == d,
            old(f)@.0 == d,
            reader_ok(f@),
            iprp@ == tag_iprp(),
            meta_end == meta_start + meta_size,
            meta_end <= MAX_POS + 0x1_0000_0000,
            pos <= meta_end + 0x1_0000_0000,
            box_walk(2, d, meta_start + 12, meta_end as int, old(meta)@, old(f)@.1) == box_walk(
                2,
                d,
                pos as int,
                meta_end as int,
                meta@,
                f@.1,
            ),
        decreases gap(pos as int, meta_end as int),
    {
        f.seek_start(pos)?;
        let h = f.read_exact(8)?;
        assert(h@ =~= d.subrange(pos as int, pos + 8));
        let size = be32_at(&h, 0) as u64;
        if size < 8 {
            return Ok(());
        }
        assert(tag_at(h@, 4, iprp@) == tag_at(d, pos + 4, tag_iprp())) by {
            assert(h@.subrange(4, 8) =~= d.subrange(pos + 4, pos + 8));
        }
        if has_tag(&h, 4, &iprp) {
            parse_iprp(f, pos, size, meta)?;
        }
        pos += size;
    }
    Ok(())
}

/// Reads the format and size of an AVIF image.
pub fn parse(f: &mut FileReader) -> (r: Result<ImageMetadata, MetaError>)
    ensures
        final(f)@.0 == old(f)@.0,
        (image_result(r), final(f)@.1) == avif_image(old(f)@.0),
{
    let mut meta = ImageMetadata::default();
    f.seek_start(0)?;
    let ghost d = f@.0;
    let ftyp: [u8; 4] = [0x66, 0x74, 0x79, 0x70];
    let meta_tag: [u8; 4] = [0x6D, 0x65, 0x74, 0x61];
    assert(ftyp@ =~= tag_ftyp());
    assert(meta_tag@ =~= tag_meta());
    loop
        invariant
            f@.0 == d,
            old(f)@.0 == d,
            reader_ok(f@),
            ftyp@ == tag_ftyp(),
            meta_tag@ == tag_meta(),
            avif_image(d) == avif_from(d, f@.1, meta@),
        decreases ahead(d.len() as int, f@.1),
    {
        let box_start = f.stream_position();
        let header = f.read(8);
        if header.len() < 8 {
            return Ok(meta);
        }
        assert(header@ =~= d.subrange(box_start as int, box_start + 8));
        let size = be32_at(&header, 0);
        if size < 8 {
            return Ok(meta);
        }
        let payload = size as u64 - 8;
        assert(tag_at(header@, 4, ftyp@) == tag_at(d, box_start + 4, tag_ftyp())) by {
            assert(header@.subrange(4, 8) =~= d.subrange(box_start + 4, box_start + 8));
        }
        assert(tag_at(header@, 4, meta_tag@) == tag_at(d, box_start + 4, tag_meta())) by {
            assert(header@.subrange(4, 8) =~= d.subrange(box_start + 4, box_start + 8));
        }
        if has_tag(&header, 4, &ftyp) {
            let k = if payload < 64 {
                payload
            } else {
                64
            };
            let buf = f.read_exact(k as usize)?;
            assert(buf@ =~= d.subrange(box_start + 8, box_start + 8 + k));
            if !has_avif_brand(&buf) {
                return Err(MetaError::NotAvif);
            }
            let name = ['A', 'V', 'I', 'F'];
            assert(name@ =~= name_avif());
            meta.format = Some(string_from_chars(&name));
        } else if has_tag(&header, 4, &meta_tag) {
            proof {
                lemma_box_walk_advances(
                    2,
                    d,
                    box_start + 12,
                    box_start + size,
                    meta@,
                    box_start + 8,
                );
            }
            parse_meta_box(f, box_start, size, &mut meta)?;
        } else {
            f.seek_start(box_start + size as u64)?;
        }
    }
}

} // verus!

verus! {

/// An `ispe` box at `s` of at least 20 bytes that reads in full sets the
/// width to the first big-endian value after its version and flags and the
/// height to the second, and nothing else.
pub proof fn lemma_avif_ispe_width_first(d: Seq<u8>, s: int, size: int, m: ImageMeta, fpos: int)
    requires
        0 <= s,
        size >= 20,
        s + 20 <= d.len(),
        d.len() <= MAX_POS,
    ensures
        ispe_props(d, s, size, m, fpos) == (Ok::<ImageMeta, MetaError>(
            ImageMeta {
                title: m.title,
                dimensions: Some(
                    (
                        (d[s + 12] * 0x100_0000 + d[s + 13] * 0x1_0000 + d[s + 14] * 0x100 + d[s
                            + 15]) as u32,
                        (d[s + 16] * 0x100_0000 + d[s + 17] * 0x1_0000 + d[s + 18] * 0x100 + d[s
                            + 19]) as u32,
                    ),
                ),
                color_depth: m.color_depth,
                format: m.format,
            },
        ), s + 20),
{
}

} // verus!
