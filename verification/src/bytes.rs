//! Reading integers and tags out of byte sequences.
use vstd::prelude::*;

verus! {

/// Little-endian value of `s[i..i+2]`.
pub open spec fn le16(s: Seq<u8>, i: int) -> int {
    s[i] + s[i + 1] * 0x100
}

/// Little-endian value of `s[i..i+4]`.
pub open spec fn le32(s: Seq<u8>, i: int) -> int {
    s[i] + s[i + 1] * 0x100 + s[i + 2] * 0x1_0000 + s[i + 3] * 0x100_0000
}

/// Little-endian value of `s[i..i+8]`.
pub open spec fn le64(s: Seq<u8>, i: int) -> int {
    le32(s, i) + le32(s, i + 4) * 0x1_0000_0000
}

/// Big-endian value of `s[i..i+2]`.
pub open spec fn be16(s: Seq<u8>, i: int) -> int {
    s[i] * 0x100 + s[i + 1]
}

/// Big-endian value of `s[i..i+4]`.
pub open spec fn be32(s: Seq<u8>, i: int) -> int {
    s[i] * 0x100_0000 + s[i + 1] * 0x1_0000 + s[i + 2] * 0x100 + s[i + 3]
}

/// Big-endian value of `s[i..i+8]`.
pub open spec fn be64(s: Seq<u8>, i: int) -> int {
    be32(s, i) * 0x1_0000_0000 + be32(s, i + 4)
}

/// Whether `s[i..i+tag.len()]` is present and equal to `tag`.
pub open spec fn tag_at(s: Seq<u8>, i: int, tag: Seq<u8>) -> bool {
    0 <= i && i + tag.len() <= s.len() && s.subrange(i, i + tag.len()) == tag
}

/// Little-endian `u16` at `s[i..i+2]`.
pub fn le16_at(s: &[u8], i: usize) -> (r: u16)
    requires
        i + 2 <= s.len(),
    ensures
        r == le16(s@, i as int),
{
    s[i] as u16 + (s[i + 1] as u16) * 0x100
}

/// Little-endian `u32` at `s[i..i+4]`.
pub fn le32_at(s: &[u8], i: usize) -> (r: u32)
    requires
        i + 4 <= s.len(),
    ensures
        r == le32(s@, i as int),
{
    s[i] as u32 + (s[i + 1] as u32) * 0x100 + (s[i + 2] as u32) * 0x1_0000 + (s[i + 3] as u32)
        * 0x100_0000
}

/// Little-endian `u64` at `s[i..i+8]`.
pub fn le64_at(s: &[u8], i: usize) -> (r: u64)
    requires
        i + 8 <= s.len(),
    ensures
        r == le64(s@, i as int),
{
    le32_at(s, i) as u64 + (le32_at(s, i + 4) as u64) * 0x1_0000_0000
}

/// Big-endian `u16` at `s[i..i+2]`.
pub fn be16_at(s: &[u8], i: usize) -> (r: u16)
    requires
        i + 2 <= s.len(),
    ensures
        r == be16(s@, i as int),
{
    (s[i] as u16) * 0x100 + s[i + 1] as u16
}

/// Big-endian `u32` at `s[i..i+4]`.
pub fn be32_at(s: &[u8], i: usize) -> (r: u32)
    requires
        i + 4 <= s.len(),
    ensures
        r == be32(s@, i as int),
{
    (s[i] as u32) * 0x100_0000 + (s[i + 1] as u32) * 0x1_0000 + (s[i + 2] as u32) * 0x100 + s[i
        + 3] as u32
}

/// Big-endian `u64` at `s[i..i+8]`.
pub fn be64_at(s: &[u8], i: usize) -> (r: u64)
    requires
        i + 8 <= s.len(),
    ensures
        r == be64(s@, i as int),
{
    (be32_at(s, i) as u64) * 0x1_0000_0000 + be32_at(s, i + 4) as u64
}

/// Whether `s[i..i+tag.len()]` is present and equal to `tag`.
pub fn has_tag(s: &[u8], i: usize, tag: &[u8]) -> (r: bool)
    ensures
        r == tag_at(s@, i as int, tag@),
{
    if i > s.len() || tag.len() > s.len() - i {
        return false;
    }
    let mut k: usize = 0;
    while k < tag.len()
        invariant
            i + tag.len() <= s.len(),
            k <= tag.len(),
            forall|j: int| 0 <= j < k ==> s@[i + j] == tag@[j],
        decreases tag.len() - k,
    {
        if s[i + k] != tag[k] {
            assert(s@.subrange(i as int, i + tag.len())[k as int] != tag@[k as int]);
            return false;
        }
        k += 1;
    }
    assert(s@.subrange(i as int, i + tag.len()) =~= tag@);
    true
}

} // verus!

verus! {

/// The sum of the bytes.
pub open spec fn byte_sum(s: Seq<u8>) -> nat
    decreases s.len(),
{
    if s.len() == 0 {
        0
    } else {
        byte_sum(s.drop_last()) + s.last() as nat
    }
}

proof fn lemma_byte_sum_bound(s: Seq<u8>)
    ensures
        0 <= byte_sum(s) <= 255 * s.len(),
    decreases s.len(),
{
    if s.len() > 0 {
        lemma_byte_sum_bound(s.drop_last());
    }
}

/// The sum of the bytes, as the lacing values of an Ogg page add up.
pub fn sum_bytes(s: &[u8]) -> (r: usize)
    requires
        s.len() <= 0x1_0000,
    ensures
        r == byte_sum(s@),
{
    let mut total: usize = 0;
    let mut i: usize = 0;
    while i < s.len()
        invariant
            s.len() <= 0x1_0000,
            i <= s.len(),
            total == byte_sum(s@.subrange(0, i as int)),
            total <= 255 * i,
        decreases s.len() - i,
    {
        assert(s@.subrange(0, i + 1).drop_last() =~= s@.subrange(0, i as int));
        total += s[i] as usize;
        i += 1;
    }
    assert(s@.subrange(0, s.len() as int) =~= s@);
    total
}

} // verus!

verus! {

/// The first index from `i` on where `tag` stands in `s`.
pub open spec fn first_tag_from(s: Seq<u8>, tag: Seq<u8>, i: int) -> Option<int>
    decreases s.len() + 1 - i,
{
    if i < 0 || i + tag.len() > s.len() {
        None
    } else if tag_at(s, i, tag) {
        Some(i)
    } else {
        first_tag_from(s, tag, i + 1)
    }
}

/// The first index where `tag` stands in `s`: the position of the first
/// window of `s` equal to `tag`.
pub open spec fn first_tag(s: Seq<u8>, tag: Seq<u8>) -> Option<int> {
    first_tag_from(s, tag, 0)
}

/// A tag found from `i` on lies within `s`.
pub proof fn lemma_first_tag_fits(s: Seq<u8>, tag: Seq<u8>, i: int)
    ensures
        first_tag_from(s, tag, i) matches Some(k) ==> 0 <= k && k + tag.len() <= s.len()
            && tag_at(s, k, tag),
    decreases s.len() + 1 - i,
{
    if 0 <= i && i + tag.len() <= s.len() && !tag_at(s, i, tag) {
        lemma_first_tag_fits(s, tag, i + 1);
    }
}

/// Where `tag` stands at `k` and at no index before it, the first index
/// found from any `i` up to `k` is `k`.
pub proof fn lemma_first_tag_is_first(s: Seq<u8>, tag: Seq<u8>, i: int, k: int)
    requires
        0 <= i <= k,
        tag_at(s, k, tag),
        forall|j: int| i <= j < k ==> !tag_at(s, j, tag),
    ensures
        first_tag_from(s, tag, i) == Some(k),
    decreases k - i,
{
    if i < k {
        assert(!tag_at(s, i, tag));
        lemma_first_tag_is_first(s, tag, i + 1, k);
    }
}

/// Finds the first place where `tag` stands in `s`.
pub fn find_tag(s: &[u8], tag: &[u8]) -> (r: Option<usize>)
    ensures
        r matches Some(i) ==> first_tag(s@, tag@) == Some(i as int) && i + tag.len() <= s.len(),
        r is None ==> first_tag(s@, tag@) is None,
{
    proof {
        lemma_first_tag_fits(s@, tag@, 0);
    }
    if tag.len() > s.len() {
        return None;
    }
    let mut i: usize = 0;
    while i <= s.len() - tag.len()
        invariant
            tag.len() <= s.len(),
            i <= s.len() - tag.len() + 1,
            first_tag(s@, tag@) == first_tag_from(s@, tag@, i as int),
        decreases s.len() - tag.len() + 1 - i,
    {
        if has_tag(s, i, tag) {
            return Some(i);
        }
        if i == s.len() - tag.len() {
            assert(first_tag_from(s@, tag@, i + 1) is None);
            return None;
        }
        i += 1;
    }
    None
}

} // verus!
