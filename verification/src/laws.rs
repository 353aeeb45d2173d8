//! What holds of every well-formed tree and of every walk over the children of
//! a node, stated over the same functions as the contracts of the operations.

use vstd::prelude::*;

use crate::bits::lemma_counts_partition;
use crate::children::{pop_back, pop_front, ChildIndexIter};
use crate::index::{LoudsIndex, LoudsNodeNum};
use crate::lbs::{
    all_prefixes_balanced, has_root_prefix, is_first_unbalanced, is_lbs, prefix_balanced, rejects,
    LbsError,
};
use crate::louds::Louds;
use crate::tree;

verus! {

/// A sequence that is turned down is no LOUDS bit sequence: one that does not
/// begin with a set bit and a clear bit, or has an unbalanced prefix, or is
/// not balanced over all, is never accepted.
pub proof fn law_rejected_is_not_lbs(bits: Seq<bool>, error: LbsError)
    requires
        rejects(bits, error),
    ensures
        !is_lbs(bits),
{
}

/// A sequence is turned down for one reason only.
pub proof fn law_rejection_is_unique(bits: Seq<bool>, first: LbsError, second: LbsError)
    requires
        rejects(bits, first),
        rejects(bits, second),
    ensures
        first == second,
{
    if let LbsError::PrefixUnbalanced { index: i } = first {
        if let LbsError::PrefixUnbalanced { index: j } = second {
            if i < j {
                assert(prefix_balanced(bits, i as int));
            } else if j < i {
                assert(prefix_balanced(bits, j as int));
            }
        } else {
            assert(!prefix_balanced(bits, i as int));
        }
    } else if let LbsError::PrefixUnbalanced { index: j } = second {
        assert(!prefix_balanced(bits, j as int));
    }
}

/// A sequence that is no LOUDS bit sequence is turned down for some reason.
/// With the two laws before, each sequence is either accepted or turned down
/// for exactly one reason.
pub proof fn law_not_lbs_is_rejected(bits: Seq<bool>)
    requires
        !is_lbs(bits),
        bits.len() <= u64::MAX,
    ensures
        exists|error: LbsError| rejects(bits, error),
{
    if !has_root_prefix(bits) {
        assert(rejects(bits, LbsError::BadStart));
    } else if !all_prefixes_balanced(bits) {
        let i = choose|i: int| 0 <= i < bits.len() && !prefix_balanced(bits, i);
        let first = lemma_first_unbalanced(bits, i);
        assert(rejects(bits, LbsError::PrefixUnbalanced { index: first as u64 }));
    } else {
        assert(rejects(bits, LbsError::Unbalanced));
    }
}

/// Where some prefix is not balanced, there is a first such prefix.
proof fn lemma_first_unbalanced(bits: Seq<bool>, i: int) -> (first: int)
    requires
        0 <= i < bits.len(),
        !prefix_balanced(bits, i),
    ensures
        is_first_unbalanced(bits, first),
        first <= i,
    decreases i,
{
    if exists|j: int| 0 <= j < i && !prefix_balanced(bits, j) {
        let j = choose|j: int| 0 <= j < i && !prefix_balanced(bits, j);
        lemma_first_unbalanced(bits, j)
    } else {
        i
    }
}

/// From a node to the position of its edge and back: the edge of a real node
/// leads to that node.
pub proof fn law_node_round_trip(louds: &Louds, node_num: LoudsNodeNum)
    requires
        louds.wf(),
        louds.has_node(node_num),
    ensures
        louds.is_node_index(louds.index_of(node_num)),
        louds.node_at(louds.index_of(node_num)) == node_num,
{
    tree::lemma_node_has_position(louds@, node_num.0 as int);
}

/// From the position of an edge to its node and back: an edge leads to a real
/// node, and the edge of that node is the one started from.
pub proof fn law_index_round_trip(louds: &Louds, index: LoudsIndex)
    requires
        louds.wf(),
        louds.is_node_index(index),
    ensures
        louds.has_node(louds.node_at(index)),
        louds.index_of(louds.node_at(index)) == index,
{
    lemma_counts_partition(louds@, index.0 + 1);
    tree::lemma_position_round_trip(louds@, index.0 as int);
}

/// The parent of every child of a node is that node: each position among the
/// children of `node_num` holds an edge, other than the one to the root, that
/// leaves `node_num`.
pub proof fn law_parent_of_child(louds: &Louds, node_num: LoudsNodeNum, i: int)
    requires
        louds.wf(),
        louds.has_node(node_num),
        0 <= i < louds.children(node_num).len(),
    ensures
        louds.is_node_index(louds.children(node_num)[i]),
        louds.children(node_num)[i].0 != 0,
        louds.parent_of(louds.children(node_num)[i]) == node_num,
{
    let bits = louds@;
    let n = node_num.0 as int;
    tree::lemma_children_run(bits, n);
    tree::lemma_child_position(bits, n, tree::first_child(bits, n) + i);
}

/// Every node but the root is among the children of its parent.
pub proof fn law_child_of_parent(louds: &Louds, index: LoudsIndex)
    requires
        louds.wf(),
        louds.is_node_index(index),
        index.0 != 0,
    ensures
        louds.has_node(louds.parent_of(index)),
        louds.children(louds.parent_of(index)).contains(index),
{
    let bits = louds@;
    let p = index.0 as int;
    let n = tree::parent_at(bits, p);
    lemma_counts_partition(bits, p + 1);
    tree::lemma_child_of_parent(bits, p);
    tree::lemma_children_run(bits, n);
    assert(louds.children(louds.parent_of(index))[p - tree::first_child(bits, n)] == index);
}

/// A node for which the clear bit that opens its range is followed at once
/// by another clear bit has no children; and only such a node has none.
pub proof fn law_leaf_has_no_children(louds: &Louds, node_num: LoudsNodeNum)
    requires
        louds.wf(),
        louds.has_node(node_num),
    ensures
        tree::first_child(louds@, node_num.0 as int) < louds@.len(),
        !louds@[tree::first_child(louds@, node_num.0 as int)] <==> louds.children(node_num).len()
            == 0,
{
    tree::lemma_leaf_has_no_children(louds@, node_num.0 as int);
}

/// A walk over the children of such a node holds nothing, so that `is_empty`
/// answers `true` for it.
pub proof fn law_leaf_walk_is_empty(iter: &ChildIndexIter<'_>)
    requires
        iter.wf(),
        !iter.tree()@[tree::first_child(iter.tree()@, iter.node().0 as int)],
    ensures
        iter@.len() == 0,
{
    tree::lemma_leaf_has_no_children(iter.tree()@, iter.node().0 as int);
}

/// The items drawn at the front, one after the other, until none is left.
pub open spec fn drain_front<T>(items: Seq<T>) -> Seq<T>
    decreases items.len(),
{
    match pop_front(items) {
        (Some(item), rest) => seq![item] + drain_front(rest),
        (None, _) => Seq::empty(),
    }
}

/// The items drawn at the back, one after the other, until none is left.
pub open spec fn drain_back<T>(items: Seq<T>) -> Seq<T>
    decreases items.len(),
{
    match pop_back(items) {
        (Some(item), rest) => seq![item] + drain_back(rest),
        (None, _) => Seq::empty(),
    }
}

/// What a series of draws leaves of a walk.
pub struct Drawn<T> {
    /// The items drawn at the front, in the order drawn.
    pub front: Seq<T>,
    /// The items drawn at the back, in the order drawn.
    pub back: Seq<T>,
    /// The items not drawn yet.
    pub rest: Seq<T>,
}

/// The outcome of one draw for each entry of `at_front`, in order: at the
/// front where the entry is `true`, at the back where it is `false`. A draw
/// from an exhausted walk yields nothing.
pub open spec fn draw<T>(items: Seq<T>, at_front: Seq<bool>) -> Drawn<T>
    decreases at_front.len(),
{
    if at_front.len() == 0 {
        Drawn { front: Seq::empty(), back: Seq::empty(), rest: items }
    } else {
        let before = draw(items, at_front.drop_last());
        if at_front.last() {
            match pop_front(before.rest) {
                (Some(item), rest) => Drawn { front: before.front.push(item), rest, ..before },
                (None, _) => before,
            }
        } else {
            match pop_back(before.rest) {
                (Some(item), rest) => Drawn { back: before.back.push(item), rest, ..before },
                (None, _) => before,
            }
        }
    }
}

/// Drawing at the front until nothing is left yields the items in order.
pub proof fn law_drain_front<T>(items: Seq<T>)
    ensures
        drain_front(items) == items,
    decreases items.len(),
{
    if items.len() > 0 {
        law_drain_front(items.drop_first());
    }
}

/// Drawing at the back until nothing is left yields the items in reverse.
pub proof fn law_drain_back<T>(items: Seq<T>)
    ensures
        drain_back(items) == items.reverse(),
    decreases items.len(),
{
    if items.len() > 0 {
        law_drain_back(items.drop_last());
    }
}

/// Collecting forward and then reversing equals collecting backward.
pub proof fn law_forward_reversed_is_backward<T>(items: Seq<T>)
    ensures
        drain_front(items).reverse() == drain_back(items),
{
    law_drain_front(items);
    law_drain_back(items);
}

/// However draws at the front and at the back are mixed, what was drawn at
/// the front, then what is left, then what was drawn at the back in reverse,
/// is the whole walk in forward order; and once there were as many draws as
/// items, nothing is left.
pub proof fn law_mixed_draws<T>(items: Seq<T>, at_front: Seq<bool>)
    ensures
        draw(items, at_front).front + draw(items, at_front).rest + draw(
            items,
            at_front,
        ).back.reverse() == items,
        at_front.len() >= items.len() ==> draw(items, at_front).rest.len() == 0,
        at_front.len() >= items.len() ==> draw(items, at_front).front + draw(
            items,
            at_front,
        ).back.reverse() == items,
    decreases at_front.len(),
{
    lemma_draw_leaves(items, at_front);
}

/// The length of a walk is the number of items that drawing at the front
/// yields before it yields nothing.
pub proof fn law_len_counts_forward_draws<T>(items: Seq<T>)
    ensures
        drain_front(items).len() == items.len(),
{
    law_drain_front(items);
}

proof fn lemma_draw_leaves<T>(items: Seq<T>, at_front: Seq<bool>)
    ensures
        draw(items, at_front).front + draw(items, at_front).rest + draw(
            items,
            at_front,
        ).back.reverse() == items,
        draw(items, at_front).rest.len() == if at_front.len() >= items.len() {
            0
        } else {
            items.len() - at_front.len()
        },
        at_front.len() >= items.len() ==> draw(items, at_front).front + draw(
            items,
            at_front,
        ).back.reverse() == items,
    decreases at_front.len(),
{
    if at_front.len() > 0 {
        lemma_draw_leaves(items, at_front.drop_last());
    }
}

} // verus!
