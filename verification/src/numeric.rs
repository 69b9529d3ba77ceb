//! The mathematical vocabulary of the engine: sums and dot products over
//! indicator rows, counting, and the exact rational order used for scores.
//! A score is the fraction `n / d` of two integers with `d != 0`; the engine
//! never rounds, so score comparisons are exact.

use vstd::prelude::*;

verus! {

/// The sum of the values of `s`.
pub open spec fn sum_int(s: Seq<int>) -> int
    decreases s.len(),
{
    if s.len() == 0 {
        0
    } else {
        sum_int(s.drop_last()) + s.last()
    }
}

/// The dot product of an indicator row with a weight vector: the sum of the
/// weights at the positions the row marks.
pub open spec fn dot_bool(row: Seq<bool>, w: Seq<int>) -> int
    decreases row.len(),
{
    if row.len() == 0 || w.len() == 0 {
        0
    } else {
        dot_bool(row.drop_last(), w.drop_last()) + if row.last() {
            w.last()
        } else {
            0
        }
    }
}

/// How many positions of `s` are marked.
pub open spec fn count_true(s: Seq<bool>) -> nat
    decreases s.len(),
{
    if s.len() == 0 {
        0
    } else {
        count_true(s.drop_last()) + if s.last() {
            1nat
        } else {
            0nat
        }
    }
}

/// `n1 / d1 == n2 / d2` as exact rationals (`d1, d2 != 0`).
pub open spec fn rat_eq(n1: int, d1: int, n2: int, d2: int) -> bool {
    n1 * d2 == n2 * d1
}

/// `n1 / d >= n2 / d` as exact rationals with the shared denominator
/// `d != 0`: multiplying both sides by the positive `d * d` turns the
/// comparison into `n1 * d >= n2 * d`.
pub open spec fn frac_ge(n1: int, n2: int, d: int) -> bool {
    n1 * d >= n2 * d
}

/// `n1 / d > n2 / d` as exact rationals with the shared denominator `d != 0`.
pub open spec fn frac_gt(n1: int, n2: int, d: int) -> bool {
    n1 * d > n2 * d
}

/// The fraction order over a shared denominator follows the numerator
/// order, reversed under a negative denominator.
pub proof fn lemma_frac_cmp(n1: int, n2: int, d: int)
    by (nonlinear_arith)
    requires
        d != 0,
    ensures
        d > 0 ==> (frac_gt(n1, n2, d) <==> n1 > n2),
        d > 0 ==> (frac_ge(n1, n2, d) <==> n1 >= n2),
        d < 0 ==> (frac_gt(n1, n2, d) <==> n1 < n2),
        d < 0 ==> (frac_ge(n1, n2, d) <==> n1 <= n2),
{
}

/// A row that marks every position another row marks scores at least as
/// high under non-negative weights.
pub proof fn lemma_dot_superset(a: Seq<bool>, b: Seq<bool>, w: Seq<int>)
    requires
        a.len() == w.len(),
        b.len() == w.len(),
        forall|j: int| 0 <= j < w.len() && b[j] ==> a[j],
        forall|j: int| 0 <= j < w.len() ==> w[j] >= 0,
    ensures
        dot_bool(a, w) >= dot_bool(b, w),
    decreases w.len(),
{
    if w.len() > 0 {
        lemma_dot_superset(a.drop_last(), b.drop_last(), w.drop_last());
    }
}

/// Scoring monotonicity: two candidates with the same attributes except
/// that the first carries one extra feature rank in that order under a
/// non-negative preference vector. Stated over indicator rows `a` and `b`
/// that agree everywhere but at column `c`, where only `a` is marked: with
/// non-negative weights and a positive total `d`, the score of `a` is at
/// least the score of `b`, both as weighted sums and as rationals over `d`.
pub proof fn lemma_scoring_monotonic(a: Seq<bool>, b: Seq<bool>, w: Seq<int>, c: int, d: int)
    requires
        a.len() == w.len(),
        b.len() == w.len(),
        0 <= c < w.len(),
        a[c],
        !b[c],
        forall|j: int| 0 <= j < w.len() && j != c ==> a[j] == b[j],
        forall|j: int| 0 <= j < w.len() ==> w[j] >= 0,
        d > 0,
    ensures
        dot_bool(a, w) >= dot_bool(b, w),
        frac_ge(dot_bool(a, w), dot_bool(b, w), d),
{
    lemma_dot_superset(a, b, w);
    lemma_frac_cmp(dot_bool(a, w), dot_bool(b, w), d);
}

} // verus!
