//! Counting the indices below a bound at which a predicate holds.

use vstd::prelude::*;

verus! {

/// The number of `k` with `0 <= k < n` and `f(k)`.
pub open spec fn count_below(f: spec_fn(int) -> bool, n: int) -> nat
    decreases n,
{
    if n <= 0 {
        0
    } else {
        count_below(f, n - 1) + if f(n - 1) { 1nat } else { 0nat }
    }
}

/// A count never exceeds the bound.
pub proof fn lemma_count_bound(f: spec_fn(int) -> bool, n: int)
    requires
        0 <= n,
    ensures
        count_below(f, n) <= n,
    decreases n,
{
    if n > 0 {
        lemma_count_bound(f, n - 1);
    }
}

/// Counts grow with the bound.
pub proof fn lemma_count_monotone(f: spec_fn(int) -> bool, a: int, b: int)
    requires
        a <= b,
    ensures
        count_below(f, a) <= count_below(f, b),
    decreases b - a,
{
    if a < b {
        lemma_count_monotone(f, a, b - 1);
    }
}

/// Where the predicate fails on all of `[a, b)`, the count does not move.
pub proof fn lemma_count_skip(f: spec_fn(int) -> bool, a: int, b: int)
    requires
        0 <= a <= b,
        forall|k: int| a <= k < b ==> !#[trigger] f(k),
    ensures
        count_below(f, b) == count_below(f, a),
    decreases b - a,
{
    if a < b {
        lemma_count_skip(f, a, b - 1);
    }
}

/// A predicate that implies another counts no more than it.
pub proof fn lemma_count_le(f: spec_fn(int) -> bool, g: spec_fn(int) -> bool, n: int)
    requires
        forall|k: int| 0 <= k < n && #[trigger] f(k) ==> g(k),
    ensures
        count_below(f, n) <= count_below(g, n),
    decreases n,
{
    if n > 0 {
        lemma_count_le(f, g, n - 1);
    }
}

/// Predicates that agree below the bound count the same.
pub proof fn lemma_count_same(f: spec_fn(int) -> bool, g: spec_fn(int) -> bool, n: int)
    requires
        forall|k: int| 0 <= k < n ==> #[trigger] f(k) == #[trigger] g(k),
    ensures
        count_below(f, n) == count_below(g, n),
    decreases n,
{
    if n > 0 {
        lemma_count_same(f, g, n - 1);
    }
}

/// Turning the predicate on at one index adds one to every count that
/// reaches past it and leaves the others alone.
pub proof fn lemma_count_gain(f: spec_fn(int) -> bool, g: spec_fn(int) -> bool, i: int, n: int)
    requires
        0 <= i,
        !f(i),
        g(i),
        forall|k: int| 0 <= k < n && k != i ==> #[trigger] f(k) == #[trigger] g(k),
    ensures
        count_below(g, n) == count_below(f, n) + if i < n { 1nat } else { 0nat },
    decreases n,
{
    if n > 0 {
        lemma_count_gain(f, g, i, n - 1);
    }
}

/// Where the count is zero, the predicate holds nowhere below the bound.
pub proof fn lemma_count_zero(f: spec_fn(int) -> bool, n: int)
    requires
        count_below(f, n) == 0,
    ensures
        forall|k: int| 0 <= k < n ==> !#[trigger] f(k),
    decreases n,
{
    if n > 0 {
        lemma_count_zero(f, n - 1);
    }
}

/// A predicate that implies another and counts as much as it holds exactly
/// where the other holds.
pub proof fn lemma_count_full(f: spec_fn(int) -> bool, g: spec_fn(int) -> bool, n: int)
    requires
        forall|k: int| 0 <= k < n && #[trigger] f(k) ==> g(k),
        count_below(f, n) == count_below(g, n),
    ensures
        forall|k: int| 0 <= k < n && #[trigger] g(k) ==> f(k),
    decreases n,
{
    if n > 0 {
        lemma_count_le(f, g, n - 1);
        lemma_count_full(f, g, n - 1);
    }
}

} // verus!
