//! Size of the largest icon in an ICO file.
use vstd::prelude::*;

use crate::bytes::{le16, le16_at};
use crate::error::MetaError;
use crate::metadata::images::{image, image_of, image_result, ImageMeta, ImageMetadata};
use crate::reader::{can_read_exact, pos_after_exact, FileReader};

verus! {

/// `ico`
pub open spec fn name_ico() -> Seq<char> {
    seq!['i', 'c', 'o']
}

/// An icon side as stored in a directory entry: zero stands for 256.
pub open spec fn icon_side(b: u8) -> u32 {
    if b == 0 {
        256
    } else {
        b as u32
    }
}

/// The directory entries from `p` on, `k` of them, each 16 bytes: width and
/// height in the first two bytes, the bit count (its low byte kept) at byte
/// six.  The first entry of the largest area wins over `(w, h, bpp)`.
pub open spec fn ico_entries(d: Seq<u8>, p: int, k: nat, w: u32, h: u32, bpp: u8) -> (Result<
    (u32, u32, u8),
    MetaError,
>, int)
    decreases k,
{
    let len = d.len() as int;
    if k == 0 {
        (Ok((w, h, bpp)), p)
    } else if !can_read_exact(len, p, 16) {
        (Err(MetaError::UnexpectedEof), pos_after_exact(len, p, 16))
    } else {
        let ew = icon_side(d[p]);
        let eh = icon_side(d[p + 1]);
        if ew * eh > w * h {
            ico_entries(d, p + 16, (k - 1) as nat, ew, eh, d[p + 6])
        } else {
            ico_entries(d, p + 16, (k - 1) as nat, w, h, bpp)
        }
    }
}

/// An ICO file: a six-byte header whose last two bytes count the directory
/// entries, then the entries.
pub open spec fn ico_image(d: Seq<u8>) -> (Result<ImageMeta, MetaError>, int) {
    let len = d.len() as int;
    if !can_read_exact(len, 0, 6) {
        (Err(MetaError::UnexpectedEof), pos_after_exact(len, 0, 6))
    } else {
        match ico_entries(d, 6, le16(d, 4) as nat, 0, 0, 0) {
            (Err(e), p) => (Err(e), p),
            (Ok((w, h, bpp)), p) => (Ok(image(name_ico(), Some((w, h)), Some(bpp))), p),
        }
    }
}

/// Reads the size and depth of the largest icon of an ICO file.
pub fn parse(f: &mut FileReader) -> (r: Result<ImageMetadata, MetaError>)
    ensures
        final(f)@.0 == old(f)@.0,
        (image_result(r), final(f)@.1) == ico_image(old(f)@.0),
{
    f.seek_start(0)?;
    let header = f.read_exact(6)?;
    assert(header@ =~= f@.0.subrange(0, 6));
    let count = le16_at(&header, 4);
    let ghost d = f@.0;
    let mut best_w: u32 = 0;
    let mut best_h: u32 = 0;
    let mut best_bpp: u8 = 0;
    let mut j: u16 = 0;
    while j < count
        invariant
            f@.0 == d,
            old(f)@.0 == d,
            d.len() >= 6,
            count == le16(d, 4),
            j <= count,
            best_w <= 256,
            best_h <= 256,
            ico_entries(d, 6, count as nat, 0, 0, 0) == ico_entries(
                d,
                f@.1,
                (count - j) as nat,
                best_w,
                best_h,
                best_bpp,
            ),
        decreases count - j,
    {
        let ghost p = f@.1;
        let entry = f.read_exact(16)?;
        assert(entry@ =~= d.subrange(p, p + 16));
        let w: u32 = if entry[0] == 0 {
            256
        } else {
            entry[0] as u32
        };
        let h: u32 = if entry[1] == 0 {
            256
        } else {
            entry[1] as u32
        };
        let bpp = entry[6];
        assert(w * h <= 256 * 256) by (nonlinear_arith)
            requires
                w <= 256,
                h <= 256,
        ;
        assert(best_w * best_h <= 256 * 256) by (nonlinear_arith)
            requires
                best_w <= 256,
                best_h <= 256,
        ;
        if w * h > best_w * best_h {
            best_w = w;
            best_h = h;
            best_bpp = bpp;
        }
        j += 1;
    }
    let name = ['i', 'c', 'o'];
    assert(name@ =~= name_ico());
    Ok(image_of(&name, Some((best_w, best_h)), Some(best_bpp)))
}

} // verus!

verus! {

/// The area of the directory entry at `e`.
pub open spec fn entry_area(d: Seq<u8>, e: int) -> int {
    icon_side(d[e]) * icon_side(d[e + 1])
}

/// The icon chosen from `k` entries at `p` is at least as large as the one
/// given and as every entry read, and it is the given one or one of the
/// entries.
pub proof fn lemma_ico_largest(d: Seq<u8>, p: int, k: nat, w: u32, h: u32, bpp: u8)
    requires
        0 <= p,
    ensures
        ico_entries(d, p, k, w, h, bpp).0 matches Ok((bw, bh, bb)) ==> {
            &&& bw * bh >= w * h
            &&& forall|j: int| 0 <= j < k ==> entry_area(d, #[trigger] (p + 16 * j)) <= bw * bh
            &&& ((bw, bh, bb) == (w, h, bpp) || exists|j: int|
                0 <= j < k && (bw, bh, bb) == (
                    icon_side(d[#[trigger] (p + 16 * j)]),
                    icon_side(d[p + 16 * j + 1]),
                    d[p + 16 * j + 6],
                ))
        },
    decreases k,
{
    let len = d.len() as int;
    if k > 0 && can_read_exact(len, p, 16) {
        let ew = icon_side(d[p]);
        let eh = icon_side(d[p + 1]);
        let bigger = ew * eh > w * h;
        let (nw, nh, nb) = if bigger {
            (ew, eh, d[p + 6])
        } else {
            (w, h, bpp)
        };
        lemma_ico_largest(d, p + 16, (k - 1) as nat, nw, nh, nb);
        if let (Ok((bw, bh, bb)), _) = ico_entries(d, p, k, w, h, bpp) {
            assert(ico_entries(d, p, k, w, h, bpp) == ico_entries(d, p + 16, (k - 1) as nat, nw, nh, nb));
            assert(entry_area(d, p + 16 * 0) <= bw * bh);
            assert forall|j: int| 0 <= j < k implies entry_area(d, #[trigger] (p + 16 * j)) <= bw * bh by {
                if j > 0 {
                    assert(p + 16 * j == (p + 16) + 16 * (j - 1));
                }
            }
            if (bw, bh, bb) != (nw, nh, nb) {
                let j = choose|j: int|
                    0 <= j < k - 1 && (bw, bh, bb) == (
                        icon_side(d[#[trigger] ((p + 16) + 16 * j)]),
                        icon_side(d[(p + 16) + 16 * j + 1]),
                        d[(p + 16) + 16 * j + 6],
                    );
                assert(p + 16 * (j + 1) == (p + 16) + 16 * j);
            } else if bigger {
                assert(p + 16 * 0 == p);
            }
        }
    }
}

} // verus!
