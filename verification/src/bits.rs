//! Counting over bit sequences: the mathematical model of rank and select.

use vstd::prelude::*;

verus! {

/// How many of the first `n` bits are set.
pub open spec fn count_ones(bits: Seq<bool>, n: int) -> int
    decreases n,
{
    if n <= 0 {
        0
    } else {
        count_ones(bits, n - 1) + if bits[n - 1] { 1int } else { 0int }
    }
}

/// How many of the first `n` bits are clear.
pub open spec fn count_zeros(bits: Seq<bool>, n: int) -> int
    decreases n,
{
    if n <= 0 {
        0
    } else {
        count_zeros(bits, n - 1) + if bits[n - 1] { 0int } else { 1int }
    }
}

/// `p` is the position of the `k`-th set bit, counting from 1.
pub open spec fn is_nth_one(bits: Seq<bool>, k: int, p: int) -> bool {
    0 <= p < bits.len() && bits[p] && count_ones(bits, p + 1) == k
}

/// `p` is the position of the `k`-th clear bit, counting from 1.
pub open spec fn is_nth_zero(bits: Seq<bool>, k: int, p: int) -> bool {
    0 <= p < bits.len() && !bits[p] && count_zeros(bits, p + 1) == k
}

/// The position of the `k`-th set bit, where there is one.
pub open spec fn nth_one(bits: Seq<bool>, k: int) -> int {
    choose|p: int| is_nth_one(bits, k, p)
}

/// The position of the `k`-th clear bit, where there is one.
pub open spec fn nth_zero(bits: Seq<bool>, k: int) -> int {
    choose|p: int| is_nth_zero(bits, k, p)
}

/// Every one of the first `n` bits is either set or clear.
pub proof fn lemma_counts_partition(bits: Seq<bool>, n: int)
    requires
        0 <= n,
    ensures
        0 <= count_ones(bits, n) <= n,
        0 <= count_zeros(bits, n) <= n,
        count_ones(bits, n) + count_zeros(bits, n) == n,
    decreases n,
{
    if n > 0 {
        lemma_counts_partition(bits, n - 1);
    }
}

/// A longer prefix holds at least as many set bits, and at least as many
/// clear bits, and at most as many more as it is longer.
pub proof fn lemma_counts_monotonic(bits: Seq<bool>, a: int, b: int)
    requires
        0 <= a <= b,
    ensures
        count_ones(bits, a) <= count_ones(bits, b) <= count_ones(bits, a) + (b - a),
        count_zeros(bits, a) <= count_zeros(bits, b) <= count_zeros(bits, a) + (b - a),
    decreases b - a,
{
    if a < b {
        lemma_counts_monotonic(bits, a, b - 1);
    }
}

/// No two positions hold the `k`-th set bit.
pub proof fn lemma_nth_one_unique(bits: Seq<bool>, k: int, p: int, q: int)
    requires
        is_nth_one(bits, k, p),
        is_nth_one(bits, k, q),
    ensures
        p == q,
{
    if p < q {
        lemma_counts_monotonic(bits, p + 1, q);
    } else if q < p {
        lemma_counts_monotonic(bits, q + 1, p);
    }
}

/// No two positions hold the `k`-th clear bit.
pub proof fn lemma_nth_zero_unique(bits: Seq<bool>, k: int, p: int, q: int)
    requires
        is_nth_zero(bits, k, p),
        is_nth_zero(bits, k, q),
    ensures
        p == q,
{
    if p < q {
        lemma_counts_monotonic(bits, p + 1, q);
    } else if q < p {
        lemma_counts_monotonic(bits, q + 1, p);
    }
}

/// A position that holds the `k`-th set bit is the one that `nth_one` names.
pub proof fn lemma_nth_one_is(bits: Seq<bool>, k: int, p: int)
    requires
        is_nth_one(bits, k, p),
    ensures
        nth_one(bits, k) == p,
{
    lemma_nth_one_unique(bits, k, p, nth_one(bits, k));
}

/// A position that holds the `k`-th clear bit is the one that `nth_zero` names.
pub proof fn lemma_nth_zero_is(bits: Seq<bool>, k: int, p: int)
    requires
        is_nth_zero(bits, k, p),
    ensures
        nth_zero(bits, k) == p,
{
    lemma_nth_zero_unique(bits, k, p, nth_zero(bits, k));
}

/// Where the first `n` bits hold at least `k` set bits, one of them is the
/// `k`-th.
pub proof fn lemma_nth_one_exists(bits: Seq<bool>, k: int, n: int)
    requires
        1 <= k <= count_ones(bits, n),
        0 <= n <= bits.len(),
    ensures
        is_nth_one(bits, k, nth_one(bits, k)),
        nth_one(bits, k) < n,
    decreases n,
{
    if count_ones(bits, n - 1) >= k {
        lemma_nth_one_exists(bits, k, n - 1);
    } else {
        assert(is_nth_one(bits, k, n - 1));
        lemma_nth_one_is(bits, k, n - 1);
    }
}

/// Where the first `n` bits hold at least `k` clear bits, one of them is the
/// `k`-th.
pub proof fn lemma_nth_zero_exists(bits: Seq<bool>, k: int, n: int)
    requires
        1 <= k <= count_zeros(bits, n),
        0 <= n <= bits.len(),
    ensures
        is_nth_zero(bits, k, nth_zero(bits, k)),
        nth_zero(bits, k) < n,
    decreases n,
{
    if count_zeros(bits, n - 1) >= k {
        lemma_nth_zero_exists(bits, k, n - 1);
    } else {
        assert(is_nth_zero(bits, k, n - 1));
        lemma_nth_zero_is(bits, k, n - 1);
    }
}

/// Between the `k`-th clear bit and the next one every bit is set, and `k`
/// clear bits come before each of them.
pub proof fn lemma_run_between_zeros(bits: Seq<bool>, k: int, p: int, q: int, j: int)
    requires
        is_nth_zero(bits, k, p),
        is_nth_zero(bits, k + 1, q),
        p < j < q,
    ensures
        bits[j],
        count_zeros(bits, j + 1) == k,
{
    lemma_counts_monotonic(bits, p + 1, j);
    lemma_counts_monotonic(bits, j + 1, q);
}

/// The `k`-th clear bit comes before the next one.
pub proof fn lemma_zeros_in_order(bits: Seq<bool>, k: int, p: int, q: int)
    requires
        is_nth_zero(bits, k, p),
        is_nth_zero(bits, k + 1, q),
    ensures
        p < q,
{
    if q <= p {
        lemma_counts_monotonic(bits, q + 1, p + 1);
    }
}

} // verus!
