//! What a LOUDS bit sequence says about its tree: where a node's edge sits,
//! which node an edge leads to, who its parent is and where its children are.
//!
//! The `k`-th set bit is the edge that leads to node `k`. The edges to the
//! children of node `k` are the bits between the `k`-th clear bit and the next
//! clear bit, all of them set; the first clear bit closes the range of the
//! virtual root, whose one child is node 1.

use vstd::prelude::*;

use crate::bits::{
    count_ones, count_zeros, is_nth_one, is_nth_zero, lemma_counts_monotonic,
    lemma_counts_partition, lemma_nth_one_exists, lemma_nth_one_is, lemma_nth_zero_exists,
    lemma_run_between_zeros, lemma_zeros_in_order, nth_one, nth_zero,
};
use crate::lbs::{is_lbs, lemma_lbs_ends_clear, lemma_lbs_size, node_count};

verus! {

/// `n` is the number of a real node of the tree.
pub open spec fn has_node(bits: Seq<bool>, n: int) -> bool {
    1 <= n <= node_count(bits)
}

/// `p` is the position of an edge, that is of a set bit.
pub open spec fn is_node_position(bits: Seq<bool>, p: int) -> bool {
    0 <= p < bits.len() && bits[p]
}

/// The position of the edge that leads to node `n`.
pub open spec fn node_position(bits: Seq<bool>, n: int) -> int {
    nth_one(bits, n)
}

/// The number of the node that the edge at position `p` leads to.
pub open spec fn node_at(bits: Seq<bool>, p: int) -> int {
    count_ones(bits, p + 1)
}

/// The number of the node from which the edge at position `p` leaves.
pub open spec fn parent_at(bits: Seq<bool>, p: int) -> int {
    count_zeros(bits, p + 1)
}

/// The position just behind the `n`-th clear bit, where the edges to the
/// children of node `n` begin.
pub open spec fn first_child(bits: Seq<bool>, n: int) -> int {
    nth_zero(bits, n) + 1
}

/// The position just before the next clear bit, where the edges to the
/// children of node `n` end. For a leaf this is one less than `first_child`.
pub open spec fn last_child(bits: Seq<bool>, n: int) -> int {
    nth_zero(bits, n + 1) - 1
}

/// Every real node has its edge.
pub proof fn lemma_node_has_position(bits: Seq<bool>, n: int)
    requires
        has_node(bits, n),
    ensures
        is_nth_one(bits, n, node_position(bits, n)),
{
    lemma_nth_one_exists(bits, n, bits.len() as int);
}

/// For every real node `n` there is an `n`-th clear bit and a next one, in that
/// order, and neither is the first bit.
pub proof fn lemma_node_has_bounds(bits: Seq<bool>, n: int)
    requires
        is_lbs(bits),
        has_node(bits, n),
    ensures
        is_nth_zero(bits, n, nth_zero(bits, n)),
        is_nth_zero(bits, n + 1, nth_zero(bits, n + 1)),
        1 <= nth_zero(bits, n) < nth_zero(bits, n + 1) < bits.len(),
{
    lemma_lbs_size(bits);
    lemma_nth_zero_exists(bits, n, bits.len() as int);
    lemma_nth_zero_exists(bits, n + 1, bits.len() as int);
    lemma_zeros_in_order(bits, n, nth_zero(bits, n), nth_zero(bits, n + 1));
}

/// Every position in the range of node `n` holds an edge that leaves node `n`
/// and leads to a real node.
pub proof fn lemma_child_position(bits: Seq<bool>, n: int, p: int)
    requires
        is_lbs(bits),
        has_node(bits, n),
        first_child(bits, n) <= p <= last_child(bits, n),
    ensures
        is_node_position(bits, p),
        p >= 2,
        parent_at(bits, p) == n,
        has_node(bits, node_at(bits, p)),
{
    lemma_node_has_bounds(bits, n);
    lemma_run_between_zeros(bits, n, nth_zero(bits, n), nth_zero(bits, n + 1), p);
    lemma_counts_monotonic(bits, p + 1, bits.len() as int);
    lemma_counts_partition(bits, p);
}

/// The range of node `n` lies between two clear bits and holds set bits only,
/// and it fits in the sequence.
pub proof fn lemma_children_run(bits: Seq<bool>, n: int)
    requires
        is_lbs(bits),
        has_node(bits, n),
    ensures
        2 <= first_child(bits, n) <= last_child(bits, n) + 1 < bits.len(),
        !bits[first_child(bits, n) - 1],
        !bits[last_child(bits, n) + 1],
        forall|p: int|
            first_child(bits, n) <= p <= last_child(bits, n) ==> #[trigger] is_node_position(
                bits,
                p,
            ),
{
    lemma_node_has_bounds(bits, n);
    assert forall|p: int|
        first_child(bits, n) <= p <= last_child(bits, n) implies #[trigger] is_node_position(
        bits,
        p,
    ) by {
        lemma_child_position(bits, n, p);
    }
}

/// An edge that is not the first bit leaves a real node.
pub proof fn lemma_parent_is_node(bits: Seq<bool>, p: int)
    requires
        is_lbs(bits),
        is_node_position(bits, p),
        p != 0,
    ensures
        has_node(bits, parent_at(bits, p)),
{
    lemma_lbs_size(bits);
    lemma_lbs_ends_clear(bits);
    lemma_counts_monotonic(bits, 2, p + 1);
    lemma_counts_monotonic(bits, p + 1, bits.len() - 1);
    assert(count_zeros(bits, 2) == 1) by {
        assert(count_zeros(bits, 1) == 0) by {
            assert(count_zeros(bits, 0) == 0);
        }
    }
}

/// From an edge to its node and back: the edge at `p` leads to a real node,
/// and the edge of that node is the one at `p`.
pub proof fn lemma_position_round_trip(bits: Seq<bool>, p: int)
    requires
        is_lbs(bits),
        is_node_position(bits, p),
    ensures
        has_node(bits, node_at(bits, p)),
        node_position(bits, node_at(bits, p)) == p,
{
    lemma_counts_monotonic(bits, p + 1, bits.len() as int);
    lemma_counts_partition(bits, p);
    lemma_nth_one_is(bits, node_at(bits, p), p);
}

/// Every edge but the one to the root lies in the range of the node that it
/// leaves.
pub proof fn lemma_child_of_parent(bits: Seq<bool>, p: int)
    requires
        is_lbs(bits),
        is_node_position(bits, p),
        p != 0,
    ensures
        has_node(bits, parent_at(bits, p)),
        first_child(bits, parent_at(bits, p)) <= p <= last_child(bits, parent_at(bits, p)),
{
    let n = parent_at(bits, p);
    lemma_parent_is_node(bits, p);
    lemma_node_has_bounds(bits, n);
    let lo = nth_zero(bits, n);
    let hi = nth_zero(bits, n + 1);
    if p <= lo {
        lemma_counts_monotonic(bits, p + 1, lo);
    }
    if hi <= p {
        lemma_counts_monotonic(bits, hi + 1, p + 1);
    }
}

/// The range of a node is empty where it would begin at a clear bit, and only
/// there.
pub proof fn lemma_leaf_has_no_children(bits: Seq<bool>, n: int)
    requires
        is_lbs(bits),
        has_node(bits, n),
    ensures
        first_child(bits, n) < bits.len(),
        !bits[first_child(bits, n)] <==> last_child(bits, n) < first_child(bits, n),
{
    lemma_node_has_bounds(bits, n);
    let lo = nth_zero(bits, n);
    let hi = nth_zero(bits, n + 1);
    if lo + 1 < hi {
        lemma_run_between_zeros(bits, n, lo, hi, lo + 1);
    }
}

} // verus!
