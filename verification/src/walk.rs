//! Walks from position to position through a file, and when they end.
//!
//! A walk is at a live position while it can go on reading there; `next`
//! gives the position a step from there leads to, or none where the walk
//! ends.  A walk that stays among finitely many positions for more steps
//! than there are positions has come back to one of them, and then goes
//! round for ever.
use vstd::prelude::*;
use vstd::set_lib::*;

verus! {

/// Whether the walk from `p` is still at a live position after `fuel`
/// steps.
pub open spec fn runs(next: spec_fn(int) -> Option<int>, live: spec_fn(int) -> bool, p: int, fuel: nat) -> bool
    decreases fuel,
{
    if !live(p) {
        false
    } else if fuel == 0 {
        true
    } else {
        match next(p) {
            None => false,
            Some(n) => runs(next, live, n, (fuel - 1) as nat),
        }
    }
}

/// The position after `k` steps from `p`, while steps lead on.
pub open spec fn iterate(next: spec_fn(int) -> Option<int>, p: int, k: nat) -> int
    decreases k,
{
    if k == 0 {
        p
    } else {
        match next(p) {
            None => p,
            Some(n) => iterate(next, n, (k - 1) as nat),
        }
    }
}

/// A walk that runs `f` steps runs any fewer.
pub proof fn lemma_runs_fewer(
    next: spec_fn(int) -> Option<int>,
    live: spec_fn(int) -> bool,
    p: int,
    f: nat,
    g: nat,
)
    requires
        runs(next, live, p, f),
        g <= f,
    ensures
        runs(next, live, p, g),
    decreases g,
{
    if g > 0 {
        let n = next(p)->0;
        lemma_runs_fewer(next, live, n, (f - 1) as nat, (g - 1) as nat);
    }
}

/// Running `i + g` steps is running `i` steps and then `g` more from where
/// they lead.
pub proof fn lemma_runs_split(
    next: spec_fn(int) -> Option<int>,
    live: spec_fn(int) -> bool,
    p: int,
    i: nat,
    g: nat,
)
    requires
        runs(next, live, p, i),
    ensures
        runs(next, live, p, i + g) == runs(next, live, iterate(next, p, i), g),
    decreases i,
{
    if i > 0 {
        let n = next(p)->0;
        lemma_runs_split(next, live, n, (i - 1) as nat, g);
        assert((i + g - 1) as nat == ((i - 1) as nat + g) as nat);
    }
}

/// On a walk that runs `f` steps, each position up to the `f`-th is live,
/// and each before it steps to the one after.
pub proof fn lemma_runs_positions(
    next: spec_fn(int) -> Option<int>,
    live: spec_fn(int) -> bool,
    p: int,
    f: nat,
    k: nat,
)
    requires
        runs(next, live, p, f),
        k <= f,
    ensures
        live(iterate(next, p, k)),
        k < f ==> next(iterate(next, p, k)) == Some(iterate(next, p, (k + 1) as nat)),
    decreases k,
{
    if k > 0 {
        let n = next(p)->0;
        lemma_runs_positions(next, live, n, (f - 1) as nat, (k - 1) as nat);
    } else if f > 0 {
        let n = next(p)->0;
        assert(iterate(next, p, 1) == iterate(next, n, 0));
    }
}

/// From a position that the walk comes back to after `c` steps, it runs
/// for ever.
proof fn lemma_cycle_runs(
    next: spec_fn(int) -> Option<int>,
    live: spec_fn(int) -> bool,
    q: int,
    c: nat,
    g: nat,
    k: nat,
)
    requires
        c > 0,
        k < c,
        iterate(next, q, c) == q,
        forall|j: nat| j <= c ==> live(#[trigger] iterate(next, q, j)),
        forall|j: nat|
            j < c ==> next(#[trigger] iterate(next, q, j)) == Some(iterate(next, q, (j + 1) as nat)),
    ensures
        runs(next, live, iterate(next, q, k), g),
    decreases g,
{
    let pk = iterate(next, q, k);
    assert(live(pk));
    if g > 0 {
        assert(next(pk) == Some(iterate(next, q, (k + 1) as nat)));
        if k + 1 < c {
            lemma_cycle_runs(next, live, q, c, (g - 1) as nat, (k + 1) as nat);
        } else {
            assert(iterate(next, q, 0) == q);
            lemma_cycle_runs(next, live, q, c, (g - 1) as nat, 0);
        }
    }
}

/// The `j`-th position from the `i`-th is the `(i + j)`-th.
proof fn lemma_iterate_add(next: spec_fn(int) -> Option<int>, p: int, i: nat, j: nat)
    requires
        forall|k: nat| k < i + j ==> (#[trigger] next(iterate(next, p, k))) is Some,
    ensures
        iterate(next, iterate(next, p, i), j) == iterate(next, p, i + j),
    decreases i,
{
    if i > 0 {
        assert(next(iterate(next, p, 0)) is Some);
        let n = next(p)->0;
        assert forall|k: nat| k < (i - 1) + j implies (#[trigger] next(iterate(next, n, k))) is Some by {
            assert(iterate(next, p, k + 1) == iterate(next, n, k));
            assert(next(iterate(next, p, k + 1)) is Some);
        }
        lemma_iterate_add(next, n, (i - 1) as nat, j);
        assert(iterate(next, p, i + j) == iterate(next, n, (i + j - 1) as nat));
    }
}

/// Among `n + 1` integers in `[lo, hi)`, with `n >= hi - lo`, two are
/// equal.
proof fn lemma_pigeonhole(s: Seq<int>, lo: int, hi: int)
    requires
        lo <= hi,
        s.len() > hi - lo,
        forall|i: int| 0 <= i < s.len() ==> lo <= #[trigger] s[i] < hi,
    ensures
        exists|i: int, j: int| 0 <= i < j < s.len() && s[i] == s[j],
{
    if !(exists|i: int, j: int| 0 <= i < j < s.len() && s[i] == s[j]) {
        assert(s.no_duplicates()) by {
            assert forall|i: int, j: int|
                0 <= i < s.len() && 0 <= j < s.len() && i != j implies s[i] != s[j] by {
                if i < j {
                    assert(!(s[i] == s[j]));
                } else {
                    assert(!(s[j] == s[i]));
                }
            }
        }
        s.unique_seq_to_set();
        lemma_int_range(lo, hi);
        assert(s.to_set().subset_of(set_int_range(lo, hi)));
        lemma_len_subset(s.to_set(), set_int_range(lo, hi));
    }
}

/// A walk among the positions of `[lo, hi)` that is still running after
/// `hi - lo` steps or more runs for ever.
pub proof fn lemma_walk_never_ends(
    next: spec_fn(int) -> Option<int>,
    live: spec_fn(int) -> bool,
    lo: int,
    hi: int,
    p: int,
    n: nat,
    f: nat,
)
    requires
        lo <= hi,
        n >= hi - lo,
        forall|x: int| #[trigger] live(x) ==> lo <= x < hi,
        runs(next, live, p, n),
    ensures
        runs(next, live, p, f),
{
    if f <= n {
        lemma_runs_fewer(next, live, p, n, f);
        return;
    }
    let s = Seq::new((n + 1) as nat, |k: int| iterate(next, p, k as nat));
    assert forall|k: int| 0 <= k < s.len() implies lo <= #[trigger] s[k] < hi by {
        lemma_runs_positions(next, live, p, n, k as nat);
    }
    lemma_pigeonhole(s, lo, hi);
    let (i, j) = choose|i: int, j: int| 0 <= i < j < s.len() && s[i] == s[j];
    let q = iterate(next, p, i as nat);
    let c = (j - i) as nat;
    assert forall|k: nat| k < i + c implies (#[trigger] next(iterate(next, p, k))) is Some by {
        lemma_runs_positions(next, live, p, n, k);
    }
    lemma_iterate_add(next, p, i as nat, c);
    assert(iterate(next, q, c) == q) by {
        assert(s[i] == iterate(next, p, i as nat));
        assert(s[j] == iterate(next, p, j as nat));
    }
    assert forall|t: nat| t <= c implies live(#[trigger] iterate(next, q, t)) by {
        assert forall|k: nat| k < i + t implies (#[trigger] next(iterate(next, p, k))) is Some by {
            lemma_runs_positions(next, live, p, n, k);
        }
        lemma_iterate_add(next, p, i as nat, t);
        lemma_runs_positions(next, live, p, n, (i + t) as nat);
    }
    assert forall|t: nat| t < c implies next(#[trigger] iterate(next, q, t)) == Some(
        iterate(next, q, (t + 1) as nat),
    ) by {
        assert forall|k: nat| k < i + t + 1 implies (#[trigger] next(iterate(next, p, k))) is Some by {
            lemma_runs_positions(next, live, p, n, k);
        }
        lemma_iterate_add(next, p, i as nat, t);
        lemma_iterate_add(next, p, i as nat, (t + 1) as nat);
        lemma_runs_positions(next, live, p, n, (i + t) as nat);
    }
    assert(iterate(next, q, 0) == q);
    lemma_cycle_runs(next, live, q, c, (f - i) as nat, 0);
    lemma_runs_fewer(next, live, p, n, i as nat);
    lemma_runs_split(next, live, p, i as nat, (f - i) as nat);
}

} // verus!
