//! Text decoding and trimming.
use vstd::prelude::*;
use vstd::utf8::*;

verus! {

broadcast use vstd::string::axiom_spec_iter;

/// The characters that `String::from_utf8_lossy` makes of the given bytes.
pub uninterp spec fn utf8_lossy(bytes: Seq<u8>) -> Seq<char>;

/// Whether `char::is_numeric` holds of the character.
pub uninterp spec fn numeric_char(c: char) -> bool;

/// The characters of the uppercase mapping that `char::to_uppercase` yields.
pub uninterp spec fn uppercase_of(c: char) -> Seq<char>;

/// `String::from_utf8_lossy`: the bytes decoded as UTF-8, each invalid
/// sequence replaced by U+FFFD.  Stated: the result is the named decoding of
/// the bytes, and for valid UTF-8 it is the plain decoding.  Which characters
/// stand for invalid input is left to the name.
#[verifier::external_body]
pub(crate) fn string_from_utf8_lossy(bytes: &[u8]) -> (s: String)
    ensures
        s@ == utf8_lossy(bytes@),
        valid_utf8(bytes@) ==> s@ == decode_utf8(bytes@),
{
    String::from_utf8_lossy(bytes).into_owned()
}

/// `String::from_utf8`: succeeds exactly on valid UTF-8, with the decoded
/// characters.
#[verifier::external_body]
pub(crate) fn string_from_utf8(bytes: &[u8]) -> (r: Option<String>)
    ensures
        r is Some <==> valid_utf8(bytes@),
        r matches Some(s) ==> s@ == decode_utf8(bytes@),
{
    String::from_utf8(bytes.to_vec()).ok()
}

/// `char::is_numeric`, stated as the named property of the character; among
/// ASCII characters exactly the digits `0` to `9` are numeric.
#[verifier::external_body]
pub(crate) fn char_is_numeric(c: char) -> (r: bool)
    ensures
        r == numeric_char(c),
        (c as u32) < 128 ==> (r <==> ('0' <= c && c <= '9')),
{
    c.is_numeric()
}

/// `char::to_uppercase`, collected: stated as the named mapping; an ASCII
/// character maps to its ASCII uppercase, `a` to `z` to `A` to `Z` and
/// the others to themselves.
#[verifier::external_body]
pub(crate) fn char_to_uppercase(c: char) -> (s: String)
    ensures
        s@ == uppercase_of(c),
        (c as u32) < 128 ==> s@ == seq![upper_ascii(c)],
{
    c.to_uppercase().collect::<String>()
}

/// `String::from_iter` over characters: the string of exactly these
/// characters.
#[verifier::external_body]
pub(crate) fn string_from_chars(chars: &[char]) -> (s: String)
    ensures
        s@ == chars@,
{
    String::from_iter(chars)
}

/// Whether `char::is_numeric` holds: among ASCII characters the digits, for
/// the others the named property.
pub open spec fn numeric(c: char) -> bool {
    if (c as u32) < 128 {
        '0' <= c <= '9'
    } else {
        numeric_char(c)
    }
}

/// The ASCII uppercase of a character; other characters stay as they are.
pub open spec fn upper_ascii(c: char) -> char {
    if 'a' <= c <= 'z' {
        ((c as u32) - 32) as char
    } else {
        c
    }
}

/// The characters `char::to_uppercase` yields: for an ASCII character its
/// ASCII uppercase, for the others the named mapping.
pub open spec fn upper_chars(c: char) -> Seq<char> {
    if (c as u32) < 128 {
        seq![upper_ascii(c)]
    } else {
        uppercase_of(c)
    }
}

/// The characters of a string, in order.
pub fn chars_of(s: &str) -> (v: Vec<char>)
    ensures
        v@ == s@,
{
    let mut v: Vec<char> = Vec::new();
    for c in it: s.chars()
        invariant
            it.seq() == s@,
            v.len() == it.index(),
            forall|i: int| 0 <= i < v.len() ==> v@[i] == it.seq()[i],
    {
        v.push(c);
    }
    assert(v@ =~= s@);
    v
}

/// Whether `char::is_whitespace` holds: the Unicode `White_Space` property.
pub open spec fn is_whitespace(c: char) -> bool {
    ||| '\u{9}' <= c <= '\u{d}'
    ||| c == ' '
    ||| c == '\u{85}'
    ||| c == '\u{a0}'
    ||| c == '\u{1680}'
    ||| '\u{2000}' <= c <= '\u{200a}'
    ||| c == '\u{2028}'
    ||| c == '\u{2029}'
    ||| c == '\u{202f}'
    ||| c == '\u{205f}'
    ||| c == '\u{3000}'
}

/// `char::is_whitespace`.
pub fn char_is_whitespace(c: char) -> (r: bool)
    ensures
        r == is_whitespace(c),
{
    ('\u{9}' <= c && c <= '\u{d}') || c == ' ' || c == '\u{85}' || c == '\u{a0}' || c == '\u{1680}'
        || ('\u{2000}' <= c && c <= '\u{200a}') || c == '\u{2028}' || c == '\u{2029}' || c
        == '\u{202f}' || c == '\u{205f}' || c == '\u{3000}'
}

/// Which characters a trim removes.
#[derive(Clone, Copy, Debug, PartialEq, Eq)]
pub enum CharClass {
    /// The character U+0000.
    Nul,
    /// Characters with the Unicode `White_Space` property.
    Whitespace,
}

pub open spec fn in_class(c: char, class: CharClass) -> bool {
    match class {
        CharClass::Nul => c == '\0',
        CharClass::Whitespace => is_whitespace(c),
    }
}

fn char_in_class(c: char, class: CharClass) -> (r: bool)
    ensures
        r == in_class(c, class),
{
    match class {
        CharClass::Nul => c == '\0',
        CharClass::Whitespace => char_is_whitespace(c),
    }
}

/// `s` without the characters of `class` at its start.
pub open spec fn trim_start_class(s: Seq<char>, class: CharClass) -> Seq<char>
    decreases s.len(),
{
    if s.len() > 0 && in_class(s[0], class) {
        trim_start_class(s.drop_first(), class)
    } else {
        s
    }
}

/// `s` without the characters of `class` at its end.
pub open spec fn trim_end_class(s: Seq<char>, class: CharClass) -> Seq<char>
    decreases s.len(),
{
    if s.len() > 0 && in_class(s.last(), class) {
        trim_end_class(s.drop_last(), class)
    } else {
        s
    }
}

/// `s` without the characters of `class` at either end.
pub open spec fn trim_class(s: Seq<char>, class: CharClass) -> Seq<char> {
    trim_end_class(trim_start_class(s, class), class)
}

/// `s` with the characters of `class` removed from its start.
pub fn trim_start_chars(s: &[char], class: CharClass) -> (r: Vec<char>)
    ensures
        r@ == trim_start_class(s@, class),
{
    let mut a: usize = 0;
    assert(s@.subrange(0, s.len() as int) =~= s@);
    while a < s.len() && char_in_class(s[a], class)
        invariant
            a <= s.len(),
            trim_start_class(s@, class) == trim_start_class(s@.subrange(a as int, s.len() as int), class),
        decreases s.len() - a,
    {
        assert(s@.subrange(a as int, s.len() as int).drop_first() =~= s@.subrange(
            a + 1,
            s.len() as int,
        ));
        a += 1;
    }
    let mut r: Vec<char> = Vec::new();
    let mut i: usize = a;
    while i < s.len()
        invariant
            a <= i <= s.len(),
            r@ == s@.subrange(a as int, i as int),
        decreases s.len() - i,
    {
        r.push(s[i]);
        i += 1;
    }
    r
}

/// `s` with the characters of `class` removed from its end.
pub fn trim_end_chars(s: &[char], class: CharClass) -> (r: Vec<char>)
    ensures
        r@ == trim_end_class(s@, class),
{
    let mut b: usize = s.len();
    assert(s@.subrange(0, s.len() as int) =~= s@);
    while b > 0 && char_in_class(s[b - 1], class)
        invariant
            b <= s.len(),
            trim_end_class(s@, class) == trim_end_class(s@.subrange(0, b as int), class),
        decreases b,
    {
        assert(s@.subrange(0, b as int).drop_last() =~= s@.subrange(0, b - 1));
        b -= 1;
    }
    let mut r: Vec<char> = Vec::new();
    let mut i: usize = 0;
    while i < b
        invariant
            i <= b <= s.len(),
            r@ == s@.subrange(0, i as int),
        decreases b - i,
    {
        r.push(s[i]);
        i += 1;
    }
    r
}

/// `s` with the characters of `class` removed from both ends.
pub fn trim_chars(s: &[char], class: CharClass) -> (r: Vec<char>)
    ensures
        r@ == trim_class(s@, class),
{
    let t = trim_start_chars(s, class);
    trim_end_chars(&t, class)
}

/// The text of `s` with U+0000 removed from both ends.
pub fn trim_nul(s: &str) -> (r: String)
    ensures
        r@ == trim_class(s@, CharClass::Nul),
{
    let v = chars_of(s);
    let t = trim_chars(&v, CharClass::Nul);
    string_from_chars(&t)
}

/// The ASCII lowercase of a character; other characters stay as they are.
pub open spec fn lower_ascii(c: char) -> char {
    if 'A' <= c <= 'Z' {
        ((c as u32) + 32) as char
    } else {
        c
    }
}

/// `str::to_ascii_lowercase`, character by character.
pub open spec fn lower_ascii_seq(s: Seq<char>) -> Seq<char> {
    Seq::new(s.len(), |i: int| lower_ascii(s[i]))
}

/// `char::to_ascii_lowercase`.
pub fn char_to_ascii_lowercase(c: char) -> (r: char)
    ensures
        r == lower_ascii(c),
{
    if 'A' <= c && c <= 'Z' {
        ((c as u8) + 32) as char
    } else {
        c
    }
}

/// Whether two character slices are equal.
pub fn chars_equal(a: &[char], b: &[char]) -> (r: bool)
    ensures
        r == (a@ == b@),
{
    if a.len() != b.len() {
        return false;
    }
    let mut i: usize = 0;
    while i < a.len()
        invariant
            a.len() == b.len(),
            i <= a.len(),
            forall|k: int| 0 <= k < i ==> a@[k] == b@[k],
        decreases a.len() - i,
    {
        if a[i] != b[i] {
            return false;
        }
        i += 1;
    }
    assert(a@ =~= b@);
    true
}

/// The index of the first `c` in `s`, if any.
pub open spec fn first_index(s: Seq<char>, c: char) -> Option<int>
    decreases s.len(),
{
    if s.len() == 0 {
        None
    } else if s[0] == c {
        Some(0)
    } else {
        match first_index(s.drop_first(), c) {
            Some(i) => Some(i + 1),
            None => None,
        }
    }
}

pub proof fn lemma_first_index_found(s: Seq<char>, c: char, i: int)
    requires
        0 <= i < s.len(),
        s[i] == c,
        forall|k: int| 0 <= k < i ==> s[k] != c,
    ensures
        first_index(s, c) == Some(i),
    decreases i,
{
    if i > 0 {
        lemma_first_index_found(s.drop_first(), c, i - 1);
    }
}

proof fn lemma_first_index_absent(s: Seq<char>, c: char)
    requires
        forall|k: int| 0 <= k < s.len() ==> s[k] != c,
    ensures
        first_index(s, c) is None,
    decreases s.len(),
{
    if s.len() > 0 {
        lemma_first_index_absent(s.drop_first(), c);
    }
}

/// Finds the first `c` in `s`.
pub fn find_char(s: &[char], c: char) -> (r: Option<usize>)
    ensures
        r matches Some(i) ==> first_index(s@, c) == Some(i as int) && i < s.len() && s@[i as int]
            == c,
        r is None ==> first_index(s@, c) is None,
{
    let mut i: usize = 0;
    while i < s.len()
        invariant
            i <= s.len(),
            forall|k: int| 0 <= k < i ==> s@[k] != c,
        decreases s.len() - i,
    {
        if s[i] == c {
            proof {
                lemma_first_index_found(s@, c, i as int);
            }
            return Some(i);
        }
        i += 1;
    }
    proof {
        lemma_first_index_absent(s@, c);
    }
    None
}

/// Copies `s[a..b]`.
pub fn copy_range<T: Copy>(s: &[T], a: usize, b: usize) -> (r: Vec<T>)
    requires
        a <= b <= s.len(),
    ensures
        r@ == s@.subrange(a as int, b as int),
{
    let mut r: Vec<T> = Vec::new();
    let mut i = a;
    while i < b
        invariant
            a <= i <= b <= s.len(),
            r@ == s@.subrange(a as int, i as int),
        decreases b - i,
    {
        r.push(s[i]);
        i += 1;
    }
    r
}

} // verus!

verus! {

/// The decimal digits of `n`, as `{}` formats it.
pub open spec fn decimal(n: nat) -> Seq<char>
    decreases n,
{
    if n < 10 {
        seq![(n + 48) as char]
    } else {
        decimal(n / 10).push(((n % 10) + 48) as char)
    }
}

/// The decimal text of a byte.
pub fn byte_to_decimal(b: u8) -> (r: String)
    ensures
        r@ == decimal(b as nat),
{
    let mut digits: Vec<char> = Vec::new();
    if b >= 100 {
        digits.push(((b / 100) + 48) as char);
    }
    if b >= 10 {
        digits.push((((b / 10) % 10) + 48) as char);
    }
    digits.push(((b % 10) + 48) as char);
    proof {
        let n = b as nat;
        if n >= 100 {
            assert(decimal(n / 100) == seq![((n / 100) + 48) as char]);
            assert(decimal(n / 10) == decimal(n / 100).push((((n / 10) % 10) + 48) as char));
        } else if n >= 10 {
            assert(decimal(n / 10) == seq![((n / 10) + 48) as char]);
        }
        assert(digits@ =~= decimal(n));
    }
    string_from_chars(&digits)
}

} // verus!

verus! {

/// Whether `char::from_u32` gives a character for `v`.
pub open spec fn is_scalar_value(v: u32) -> bool {
    v < 0xD800 || 0xE000 <= v <= 0x10FFFF
}

/// `char::from_u32`: a character exactly for Unicode scalar values, with
/// that value.
#[verifier::external_body]
pub(crate) fn char_from_u32(v: u32) -> (r: Option<char>)
    ensures
        r is Some <==> is_scalar_value(v),
        r matches Some(c) ==> c as u32 == v && c == v as char,
{
    char::from_u32(v)
}

} // verus!

verus! {

/// Whether `pat` stands in `s` at `i`.
pub open spec fn match_at(s: Seq<char>, i: int, pat: Seq<char>) -> bool {
    0 <= i && i + pat.len() <= s.len() && s.subrange(i, i + pat.len()) == pat
}

/// The first index from `i` on where `pat` stands in `s`.
pub open spec fn first_match_from(s: Seq<char>, pat: Seq<char>, i: int) -> Option<int>
    decreases s.len() + 1 - i,
{
    if i < 0 || i + pat.len() > s.len() {
        None
    } else if match_at(s, i, pat) {
        Some(i)
    } else {
        first_match_from(s, pat, i + 1)
    }
}

/// A match found from `i` on lies within `s`.
pub proof fn lemma_first_match_fits(s: Seq<char>, pat: Seq<char>, i: int)
    ensures
        first_match_from(s, pat, i) matches Some(k) ==> 0 <= k && k + pat.len() <= s.len(),
    decreases s.len() + 1 - i,
{
    if 0 <= i && i + pat.len() <= s.len() && !match_at(s, i, pat) {
        lemma_first_match_fits(s, pat, i + 1);
    }
}

/// The first index where `pat` stands in `s`, as `str::find` gives it.
pub open spec fn first_match(s: Seq<char>, pat: Seq<char>) -> Option<int> {
    first_match_from(s, pat, 0)
}

/// Whether `pat` stands in `s` at `i`.
pub fn matches_at(s: &[char], i: usize, pat: &[char]) -> (r: bool)
    ensures
        r == match_at(s@, i as int, pat@),
{
    if i > s.len() || pat.len() > s.len() - i {
        return false;
    }
    let mut k: usize = 0;
    while k < pat.len()
        invariant
            i + pat.len() <= s.len(),
            k <= pat.len(),
            forall|j: int| 0 <= j < k ==> s@[i + j] == pat@[j],
        decreases pat.len() - k,
    {
        if s[i + k] != pat[k] {
            assert(s@.subrange(i as int, i + pat.len())[k as int] != pat@[k as int]);
            return false;
        }
        k += 1;
    }
    assert(s@.subrange(i as int, i + pat.len()) =~= pat@);
    true
}

/// Finds the first place where `pat` stands in `s`.
pub fn find_seq(s: &[char], pat: &[char]) -> (r: Option<usize>)
    ensures
        r matches Some(i) ==> first_match(s@, pat@) == Some(i as int),
        r is None ==> first_match(s@, pat@) is None,
{
    if pat.len() > s.len() {
        return None;
    }
    let mut i: usize = 0;
    while i <= s.len() - pat.len()
        invariant
            pat.len() <= s.len(),
            i <= s.len() - pat.len() + 1,
            first_match(s@, pat@) == first_match_from(s@, pat@, i as int),
        decreases s.len() - pat.len() + 1 - i,
    {
        if matches_at(s, i, pat) {
            return Some(i);
        }
        if i == s.len() - pat.len() {
            assert(first_match_from(s@, pat@, i + 1) is None);
            return None;
        }
        i += 1;
    }
    None
}

} // verus!

verus! {

/// UTF-16 decoding as `String::from_utf16_lossy` does it: a unit outside
/// the surrogates is its own character, a high surrogate followed by a low
/// one is the character they encode together, and any other surrogate is
/// U+FFFD.
pub open spec fn utf16_decode(u: Seq<u16>) -> Seq<char>
    decreases u.len(),
{
    if u.len() == 0 {
        seq![]
    } else if u[0] < 0xD800 || u[0] > 0xDFFF {
        seq![u[0] as char] + utf16_decode(u.drop_first())
    } else if u[0] <= 0xDBFF && u.len() >= 2 && 0xDC00 <= u[1] <= 0xDFFF {
        seq![(0x10000 + (u[0] - 0xD800) * 0x400 + (u[1] - 0xDC00)) as char] + utf16_decode(
            u.subrange(2, u.len() as int),
        )
    } else {
        seq!['\u{FFFD}'] + utf16_decode(u.drop_first())
    }
}

/// Decodes UTF-16 code units, each unpaired surrogate replaced by U+FFFD.
pub fn decode_utf16_lossy(units: &[u16]) -> (s: String)
    ensures
        s@ == utf16_decode(units@),
{
    let mut out: Vec<char> = Vec::new();
    let mut i: usize = 0;
    let n = units.len();
    assert(units@.subrange(0, n as int) =~= units@);
    while i < n
        invariant
            n == units.len(),
            i <= n,
            utf16_decode(units@) == out@ + utf16_decode(units@.subrange(i as int, n as int)),
        decreases n - i,
    {
        let ghost rest = units@.subrange(i as int, n as int);
        let ghost before = out@;
        let a = units[i];
        if a < 0xD800 || a > 0xDFFF {
            let c = char_from_u32(a as u32);
            out.push(c.unwrap());
            assert(rest.drop_first() =~= units@.subrange(i + 1, n as int));
            assert(out@ =~= before + seq![a as char]);
            i += 1;
        } else if a <= 0xDBFF && n - i >= 2 && 0xDC00 <= units[i + 1] && units[i + 1] <= 0xDFFF {
            let b = units[i + 1];
            let v: u32 = 0x10000 + (a as u32 - 0xD800) * 0x400 + (b as u32 - 0xDC00);
            let c = char_from_u32(v);
            out.push(c.unwrap());
            assert(rest.subrange(2, rest.len() as int) =~= units@.subrange(i + 2, n as int));
            assert(out@ =~= before + seq![
                (0x10000 + (rest[0] - 0xD800) * 0x400 + (rest[1] - 0xDC00)) as char
            ]);
            i += 2;
        } else {
            out.push('\u{FFFD}');
            assert(rest.drop_first() =~= units@.subrange(i + 1, n as int));
            assert(out@ =~= before + seq!['\u{FFFD}']);
            i += 1;
        }
        assert(utf16_decode(units@) == out@ + utf16_decode(units@.subrange(i as int, n as int)));
    }
    assert(out@ =~= out@ + utf16_decode(units@.subrange(n as int, n as int)));
    string_from_chars(&out)
}

} // verus!
