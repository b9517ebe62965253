//! Decimal integers read from text, as `str::parse` reads them.
use vstd::prelude::*;

use crate::text::copy_range;

verus! {

/// Whether `c` is an ASCII digit.
pub open spec fn is_digit(c: char) -> bool {
    '0' <= c <= '9'
}

/// Whether every character of `s` is an ASCII digit.
pub open spec fn all_digits(s: Seq<char>) -> bool {
    forall|i: int| 0 <= i < s.len() ==> is_digit(#[trigger] s[i])
}

/// The value of a string of decimal digits.
pub open spec fn digits_value(s: Seq<char>) -> nat
    decreases s.len(),
{
    if s.len() == 0 {
        0
    } else {
        digits_value(s.drop_last()) * 10 + ((s.last() as u32) - 48) as nat
    }
}

/// `u32::from_str`: an optional `+`, then at least one ASCII digit, with a
/// value that fits.
pub open spec fn u32_of_text(s: Seq<char>) -> Option<u32> {
    let ds = if s.len() > 0 && s[0] == '+' {
        s.drop_first()
    } else {
        s
    };
    if ds.len() > 0 && all_digits(ds) && digits_value(ds) <= u32::MAX {
        Some(digits_value(ds) as u32)
    } else {
        None
    }
}

/// `i32::from_str`: an optional `+` or `-`, then at least one ASCII digit,
/// with a value that fits.
pub open spec fn i32_of_text(s: Seq<char>) -> Option<i32> {
    if s.len() > 0 && s[0] == '-' {
        let ds = s.drop_first();
        if ds.len() > 0 && all_digits(ds) && digits_value(ds) <= 0x8000_0000 {
            Some((-(digits_value(ds) as int)) as i32)
        } else {
            None
        }
    } else {
        let ds = if s.len() > 0 && s[0] == '+' {
            s.drop_first()
        } else {
            s
        };
        if ds.len() > 0 && all_digits(ds) && digits_value(ds) <= i32::MAX {
            Some(digits_value(ds) as i32)
        } else {
            None
        }
    }
}

proof fn lemma_digits_value_prefix(s: Seq<char>, k: int)
    requires
        0 <= k <= s.len(),
        all_digits(s),
    ensures
        digits_value(s.subrange(0, k)) <= digits_value(s),
    decreases s.len() - k,
{
    if k < s.len() {
        lemma_digits_value_prefix(s, k + 1);
        let t = s.subrange(0, k + 1);
        assert(t.drop_last() =~= s.subrange(0, k));
        assert(t.last() == s[k]);
        assert(is_digit(s[k]));
        assert(digits_value(t) == digits_value(s.subrange(0, k)) * 10 + ((s[k] as u32) - 48) as nat);
    } else {
        assert(s.subrange(0, k) =~= s);
    }
}

/// The value of the digits `s`, when they are all ASCII digits, there is at
/// least one, and the value is at most `cap`.
fn digits_upto(s: &[char], cap: u64) -> (r: Option<u64>)
    requires
        cap <= 0x1_0000_0000,
    ensures
        r == (if s.len() > 0 && all_digits(s@) && digits_value(s@) <= cap {
            Some(digits_value(s@) as u64)
        } else {
            None::<u64>
        }),
{
    if s.len() == 0 {
        return None;
    }
    let mut i: usize = 0;
    while i < s.len()
        invariant
            i <= s.len(),
            forall|j: int| 0 <= j < i ==> is_digit(#[trigger] s@[j]),
        decreases s.len() - i,
    {
        if !('0' <= s[i] && s[i] <= '9') {
            return None;
        }
        i += 1;
    }
    assert(all_digits(s@));
    let mut v: u64 = 0;
    let mut i: usize = 0;
    assert(s@.subrange(0, 0) =~= Seq::<char>::empty());
    while i < s.len()
        invariant
            i <= s.len(),
            all_digits(s@),
            cap <= 0x1_0000_0000,
            v == digits_value(s@.subrange(0, i as int)),
            v <= cap,
        decreases s.len() - i,
    {
        assert(is_digit(s@[i as int]));
        assert(s@.subrange(0, i + 1).drop_last() =~= s@.subrange(0, i as int));
        let next = v * 10 + (s[i] as u64 - 48);
        if next > cap {
            proof {
                lemma_digits_value_prefix(s@, i + 1);
            }
            return None;
        }
        v = next;
        i += 1;
    }
    assert(s@.subrange(0, s.len() as int) =~= s@);
    Some(v)
}

/// `u32::from_str` on the characters `s`.
pub fn parse_u32(s: &[char]) -> (r: Option<u32>)
    ensures
        r == u32_of_text(s@),
{
    let start: usize = if s.len() > 0 && s[0] == '+' {
        1
    } else {
        0
    };
    let ds = copy_range(s, start, s.len());
    assert(ds@ =~= if s@.len() > 0 && s@[0] == '+' {
        s@.drop_first()
    } else {
        s@
    });
    match digits_upto(&ds, 0xFFFF_FFFF) {
        Some(v) => Some(v as u32),
        None => None,
    }
}

/// `i32::from_str` on the characters `s`.
pub fn parse_i32(s: &[char]) -> (r: Option<i32>)
    ensures
        r == i32_of_text(s@),
{
    if s.len() > 0 && s[0] == '-' {
        let ds = copy_range(s, 1, s.len());
        assert(ds@ =~= s@.drop_first());
        match digits_upto(&ds, 0x8000_0000) {
            Some(v) => Some((0 - (v as i64)) as i32),
            None => None,
        }
    } else {
        let start: usize = if s.len() > 0 && s[0] == '+' {
            1
        } else {
            0
        };
        let ds = copy_range(s, start, s.len());
        assert(ds@ =~= if s@.len() > 0 && s@[0] == '+' {
            s@.drop_first()
        } else {
            s@
        });
        match digits_upto(&ds, 0x7FFF_FFFF) {
            Some(v) => Some(v as i32),
            None => None,
        }
    }
}

} // verus!

verus! {

/// Whether `x` is the whole number of milliseconds in `ticks` ticks of a
/// clock running at `rate` ticks per second.
pub open spec fn whole_millis(x: int, ticks: int, rate: int) -> bool {
    x * rate <= ticks * 1000 < (x + 1) * rate
}

/// `ticks * 1000 / rate` is the whole number of milliseconds in `ticks`
/// ticks at `rate` ticks per second.
pub proof fn lemma_whole_millis(ticks: int, rate: int)
    requires
        ticks >= 0,
        rate > 0,
    ensures
        whole_millis(ticks * 1000 / rate, ticks, rate),
        0 <= ticks * 1000 / rate <= ticks * 1000,
{
    let x = ticks * 1000 / rate;
    assert(x * rate <= ticks * 1000 < (x + 1) * rate) by (nonlinear_arith)
        requires
            ticks >= 0,
            rate > 0,
            x == ticks * 1000 / rate,
    ;
    assert(0 <= x <= ticks * 1000) by (nonlinear_arith)
        requires
            ticks >= 0,
            rate > 0,
            x == ticks * 1000 / rate,
    ;
}

} // verus!
