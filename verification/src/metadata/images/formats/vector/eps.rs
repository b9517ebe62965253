//! Size of an EPS image.
use vstd::prelude::*;
use vstd::utf8::*;

use crate::error::MetaError;
use crate::metadata::images::{image, image_of, image_result, ImageMeta, ImageMetadata};
use crate::numbers::{i32_of_text, parse_i32};
use crate::reader::FileReader;
use crate::text::{
    char_is_whitespace,
    chars_of,
    copy_range,
    is_whitespace,
    match_at,
    matches_at,
    string_from_utf8,
};

verus! {

/// `eps`
pub open spec fn name_eps() -> Seq<char> {
    seq!['e', 'p', 's']
}

/// `%%BoundingBox:`
pub open spec fn bounding_box_key() -> Seq<char> {
    seq!['%', '%', 'B', 'o', 'u', 'n', 'd', 'i', 'n', 'g', 'B', 'o', 'x', ':']
}

/// The number a whitespace-separated token reads as, if it reads as one.
pub open spec fn token_number(tok: Seq<char>) -> Seq<i32> {
    match i32_of_text(tok) {
        Some(v) => seq![v],
        None => seq![],
    }
}

/// The numbers among the whitespace-separated tokens of `s` from `i` on,
/// `tok` being the part of a token already passed.
pub open spec fn numbers_from(s: Seq<char>, i: int, tok: Seq<char>) -> Seq<i32>
    decreases s.len() - i,
{
    if i < 0 || i >= s.len() {
        token_number(tok)
    } else if is_whitespace(s[i]) {
        token_number(tok) + numbers_from(s, i + 1, seq![])
    } else {
        numbers_from(s, i + 1, tok.push(s[i]))
    }
}

/// The tokens of `s`, split at whitespace, that read as 32-bit integers.
pub open spec fn whitespace_numbers(s: Seq<char>) -> Seq<i32> {
    numbers_from(s, 0, seq![])
}

/// The size a bounding box line gives: four numbers `x0 y0 x1 y1` give
/// `x1 - x0` by `y1 - y0`, each as the 32-bit pattern of the difference.  A
/// difference that does not fit in 32 bits is `Overflow`; another count of
/// numbers gives no size.
pub open spec fn bounding_box(rest: Seq<char>) -> Result<Option<(u32, u32)>, MetaError> {
    let nums = whitespace_numbers(rest);
    if nums.len() != 4 {
        Ok(None)
    } else {
        let w = nums[2] - nums[0];
        let h = nums[3] - nums[1];
        if w < i32::MIN || w > i32::MAX || h < i32::MIN || h > i32::MAX {
            Err(MetaError::Overflow)
        } else {
            Ok(Some(((w as i32) as u32, (h as i32) as u32)))
        }
    }
}

/// Where the line that starts at `p` ends: its newline, or the end of the
/// file.
pub open spec fn line_end(d: Seq<u8>, p: int) -> int
    decreases d.len() - p,
{
    if p < 0 || p >= d.len() {
        d.len() as int
    } else if d[p] == 0x0A {
        p
    } else {
        line_end(d, p + 1)
    }
}

/// The text of a line: its bytes decoded, without the carriage return of a
/// line ended by `\r\n`.
pub open spec fn line_text(d: Seq<u8>, p: int, e: int) -> Seq<char> {
    let c = decode_utf8(d.subrange(p, e));
    if e < d.len() && c.len() > 0 && c.last() == '\r' {
        c.drop_last()
    } else {
        c
    }
}

/// The lines of the file from `p` on, read until the first that starts with
/// `%%BoundingBox:`, which gives the size.  A line that is not valid UTF-8
/// is `InvalidUtf8`.
pub open spec fn eps_from(d: Seq<u8>, p: int) -> Result<Option<(u32, u32)>, MetaError>
    decreases d.len() + 1 - p,
{
    if p < 0 || p >= d.len() {
        Ok(None)
    } else {
        let e = line_end(d, p);
        if !(p <= e <= d.len()) {
            Ok(None)
        } else if !valid_utf8(d.subrange(p, e)) {
            Err(MetaError::InvalidUtf8)
        } else {
            let line = line_text(d, p, e);
            if match_at(line, 0, bounding_box_key()) {
                bounding_box(line.subrange(14, line.len() as int))
            } else {
                eps_from(d, e + 1)
            }
        }
    }
}

/// An EPS image: the size from its bounding box comment.
pub open spec fn eps_image(d: Seq<u8>) -> Result<ImageMeta, MetaError> {
    match eps_from(d, 0) {
        Err(e) => Err(e),
        Ok(dims) => Ok(image(name_eps(), dims, None)),
    }
}

proof fn lemma_line_end(d: Seq<u8>, p: int)
    requires
        0 <= p <= d.len(),
    ensures
        p <= line_end(d, p) <= d.len(),
        line_end(d, p) < d.len() ==> d[line_end(d, p)] == 0x0A,
        forall|k: int| p <= k < line_end(d, p) ==> d[k] != 0x0A,
    decreases d.len() - p,
{
    if p < d.len() && d[p] != 0x0A {
        lemma_line_end(d, p + 1);
    }
}

fn find_line_end(d: &[u8], p: usize) -> (e: usize)
    requires
        p <= d.len(),
    ensures
        e == line_end(d@, p as int),
        p <= e <= d.len(),
{
    proof {
        lemma_line_end(d@, p as int);
    }
    let mut i = p;
    while i < d.len() && d[i] != 0x0A
        invariant
            p <= i <= d.len(),
            line_end(d@, p as int) == line_end(d@, i as int),
        decreases d.len() - i,
    {
        i += 1;
    }
    i
}

/// The numbers among the whitespace-separated tokens of `s`.
fn numbers_of(s: &[char]) -> (r: Vec<i32>)
    ensures
        r@ == whitespace_numbers(s@),
{
    let mut nums: Vec<i32> = Vec::new();
    let mut tok: Vec<char> = Vec::new();
    let mut i: usize = 0;
    while i < s.len()
        invariant
            i <= s.len(),
            whitespace_numbers(s@) == nums@ + numbers_from(s@, i as int, tok@),
        decreases s.len() - i,
    {
        if char_is_whitespace(s[i]) {
            let ghost before = nums@;
            if let Some(v) = parse_i32(&tok) {
                nums.push(v);
            }
            assert(nums@ == before + token_number(tok@));
            assert(before + (token_number(tok@) + numbers_from(s@, i + 1, seq![])) =~= nums@
                + numbers_from(s@, i + 1, seq![]));
            tok = Vec::new();
            assert(tok@ =~= seq![]);
        } else {
            tok.push(s[i]);
        }
        i += 1;
    }
    let ghost before = nums@;
    if let Some(v) = parse_i32(&tok) {
        nums.push(v);
    }
    assert(nums@ =~= before + token_number(tok@));
    nums
}

fn read_bounding_box(rest: &[char]) -> (r: Result<Option<(u32, u32)>, MetaError>)
    ensures
        r == bounding_box(rest@),
{
    let nums = numbers_of(rest);
    if nums.len() != 4 {
        return Ok(None);
    }
    let w = nums[2] as i64 - nums[0] as i64;
    let h = nums[3] as i64 - nums[1] as i64;
    if w < i32::MIN as i64 || w > i32::MAX as i64 || h < i32::MIN as i64 || h > i32::MAX as i64 {
        return Err(MetaError::Overflow);
    }
    Ok(Some(((w as i32) as u32, (h as i32) as u32)))
}

/// Reads the size of an EPS image from its `%%BoundingBox:` comment.
pub fn parse(f: &mut FileReader) -> (r: Result<ImageMetadata, MetaError>)
    ensures
        final(f)@.0 == old(f)@.0,
        image_result(r) == eps_image(old(f)@.0),
{
    f.seek_start(0)?;
    let data = f.read_to_end();
    let ghost d = f@.0;
    assert(data@ =~= d);
    let key = ['%', '%', 'B', 'o', 'u', 'n', 'd', 'i', 'n', 'g', 'B', 'o', 'x', ':'];
    assert(key@ =~= bounding_box_key());
    let name = ['e', 'p', 's'];
    assert(name@ =~= name_eps());
    let n = data.len();
    let mut p: usize = 0;
    while p < n
        invariant
            data@ == d,
            f@.0 == d,
            old(f)@.0 == d,
            n == d.len(),
            p <= n,
            key@ == bounding_box_key(),
            name@ == name_eps(),
            eps_from(d, 0) == eps_from(d, p as int),
        decreases n - p,
    {
        let e = find_line_end(&data, p);
        let raw = copy_range(&data, p, e);
        let s = match string_from_utf8(&raw) {
            Some(s) => s,
            None => {
                return Err(MetaError::InvalidUtf8);
            },
        };
        let mut line = chars_of(s.as_str());
        if e < n && line.len() > 0 && line[line.len() - 1] == '\r' {
            line.pop();
            assert(line@ =~= line_text(d, p as int, e as int));
        }
        assert(line@ == line_text(d, p as int, e as int));
        if matches_at(&line, 0, &key) {
            let rest = copy_range(&line, 14, line.len());
            let dims = read_bounding_box(&rest)?;
            return Ok(image_of(&name, dims, None));
        }
        assert(eps_from(d, p as int) == eps_from(d, e + 1));
        if e == n {
            assert(eps_from(d, e + 1) == eps_from(d, n as int));
            p = n;
        } else {
            p = e + 1;
        }
    }
    Ok(image_of(&name, None, None))
}

} // verus!

verus! {

/// A bounding box `x0 y0 x1 y1` gives the width `x1 - x0` and the height
/// `y1 - y0`, each as the 32-bit pattern of the difference, when both fit.
pub proof fn lemma_bounding_box_size(rest: Seq<char>, x0: i32, y0: i32, x1: i32, y1: i32)
    requires
        whitespace_numbers(rest) == seq![x0, y0, x1, y1],
        i32::MIN <= x1 - x0 <= i32::MAX,
        i32::MIN <= y1 - y0 <= i32::MAX,
    ensures
        bounding_box(rest) == Ok::<Option<(u32, u32)>, MetaError>(
            Some((((x1 - x0) as i32) as u32, ((y1 - y0) as i32) as u32)),
        ),
{
}

} // verus!
