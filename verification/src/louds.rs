//! The LOUDS tree: construction from a checked bit sequence, and navigation
//! between node numbers and bit positions.

use fid_rs::Fid;
use vstd::prelude::*;

use crate::bits::{
    count_ones, count_zeros, is_nth_one, lemma_counts_partition, lemma_nth_one_is,
    lemma_nth_zero_is,
};
use crate::fid::{fid_bits, fid_from_bits, fid_get};
use crate::index::{LoudsIndex, LoudsNodeNum};
use crate::lbs::{
    has_root_prefix, is_first_non_token, is_lbs, is_token, is_token_string, lemma_lbs_size,
    prefix_balanced, rejects, token_bits, LbsError,
};
use crate::tree;

verus! {

/// An ordered tree in LOUDS encoding. Once built it never changes.
#[derive(Debug)]
pub struct Louds {
    lbs: Fid,
}

/// The positions from `first` to `last`, both included, in rising order; none
/// where `last` lies before `first`.
pub open spec fn index_range(first: int, last: int) -> Seq<LoudsIndex> {
    Seq::new(
        if first <= last {
            (last + 1 - first) as nat
        } else {
            0
        },
        |i: int| LoudsIndex((first + i) as u64),
    )
}

impl Clone for Louds {
    /// A tree with the same bit sequence.
    fn clone(&self) -> (copy: Self)
        ensures
            copy@ == self@,
    {
        Louds { lbs: self.lbs.clone() }
    }
}

impl View for Louds {
    type V = Seq<bool>;

    /// The bit sequence of the tree.
    closed spec fn view(&self) -> Seq<bool> {
        fid_bits(&self.lbs)
    }
}

impl Louds {
    /// The tree holds a LOUDS bit sequence, of a length that fits in memory.
    pub open spec fn wf(&self) -> bool {
        is_lbs(self@) && self@.len() <= usize::MAX
    }

    /// `node_num` is the number of a real node of this tree.
    pub open spec fn has_node(&self, node_num: LoudsNodeNum) -> bool {
        tree::has_node(self@, node_num.0 as int)
    }

    /// `index` is the position of a set bit, that is of the edge to a node.
    pub open spec fn is_node_index(&self, index: LoudsIndex) -> bool {
        tree::is_node_position(self@, index.0 as int)
    }

    /// The position of the edge that leads to node `node_num`.
    pub open spec fn index_of(&self, node_num: LoudsNodeNum) -> LoudsIndex {
        LoudsIndex(tree::node_position(self@, node_num.0 as int) as u64)
    }

    /// The node that the edge at `index` leads to.
    pub open spec fn node_at(&self, index: LoudsIndex) -> LoudsNodeNum {
        LoudsNodeNum(tree::node_at(self@, index.0 as int) as u64)
    }

    /// The node from which the edge at `index` leaves.
    pub open spec fn parent_of(&self, index: LoudsIndex) -> LoudsNodeNum {
        LoudsNodeNum(tree::parent_at(self@, index.0 as int) as u64)
    }

    /// The edge at `index` leaves `node_num`. Such an edge is not the one at
    /// position 0, which leads to the root and leaves no real node.
    pub open spec fn is_child_of(&self, index: LoudsIndex, node_num: LoudsNodeNum) -> bool {
        &&& self.is_node_index(index)
        &&& index.0 != 0
        &&& self.parent_of(index) == node_num
    }

    /// The positions of the edges to the children of `node_num`, first child
    /// first.
    pub open spec fn children(&self, node_num: LoudsNodeNum) -> Seq<LoudsIndex> {
        index_range(
            tree::first_child(self@, node_num.0 as int),
            tree::last_child(self@, node_num.0 as int),
        )
    }

    /// The children of `node_num`, first child first.
    pub open spec fn child_nodes(&self, node_num: LoudsNodeNum) -> Seq<LoudsNodeNum> {
        self.nodes_at(self.children(node_num))
    }

    /// The nodes that the edges at `indices` lead to, in the same order.
    pub open spec fn nodes_at(&self, indices: Seq<LoudsIndex>) -> Seq<LoudsNodeNum> {
        Seq::new(indices.len(), |i: int| self.node_at(indices[i]))
    }

    /// Tells whether the bits of `lbs` form a LOUDS bit sequence, and if not,
    /// why not.
    pub fn validate_lbs(lbs: &Fid) -> (r: Result<(), LbsError>)
        ensures
            match r {
                Ok(()) => is_lbs(fid_bits(lbs)),
                Err(error) => rejects(fid_bits(lbs), error),
            },
            r is Ok <==> is_lbs(fid_bits(lbs)),
    {
        let ghost bits = fid_bits(lbs);
        let n = lbs.len();
        if n < 2 || !fid_get(lbs, 0) || fid_get(lbs, 1) {
            return Err(LbsError::BadStart);
        }
        let mut cnt0: u64 = 0;
        let mut cnt1: u64 = 0;
        let mut i: u64 = 0;
        while i < n
            invariant
                bits == fid_bits(lbs),
                n == bits.len(),
                i <= n,
                has_root_prefix(bits),
                cnt0 == count_zeros(bits, i as int),
                cnt1 == count_ones(bits, i as int),
                cnt0 + cnt1 == i,
                forall|j: int| 0 <= j < i ==> #[trigger] prefix_balanced(bits, j),
            decreases n - i,
        {
            if fid_get(lbs, i) {
                cnt1 += 1;
            } else {
                cnt0 += 1;
            }
            if cnt0 > cnt1 && cnt0 - cnt1 > 1 {
                return Err(LbsError::PrefixUnbalanced { index: i });
            }
            i += 1;
        }
        if cnt0 > cnt1 && cnt0 - cnt1 == 1 {
            Ok(())
        } else {
            Err(LbsError::Unbalanced)
        }
    }

    /// Builds the tree from a token string: `'1'` and `'0'` spell the bits, and
    /// `'_'` may separate them. Says why if `s` spells no LOUDS bit sequence.
    pub fn from_str(s: &str) -> (r: Result<Louds, LbsError>)
        ensures
            match r {
                Ok(louds) => louds.wf() && is_token_string(s@) && louds@ == token_bits(s@),
                Err(LbsError::InvalidChar(c)) => exists|i: int|
                    is_first_non_token(s@, i) && s@[i] == c,
                Err(error) => is_token_string(s@) && rejects(token_bits(s@), error),
            },
            r is Ok <==> is_token_string(s@) && is_lbs(token_bits(s@)),
    {
        let mut bits: Vec<bool> = Vec::new();
        for c in it: s.chars()
            invariant
                it.seq() == s@,
                forall|j: int| 0 <= j < it.index() ==> is_token(#[trigger] s@[j]),
                bits@ == token_bits(s@.take(it.index())),
        {
            if c == '0' || c == '1' {
                bits.push(c == '1');
            } else if c != '_' {
                assert(is_first_non_token(s@, it.index()));
                return Err(LbsError::InvalidChar(c));
            }
            assert(s@.take(it.index() + 1).drop_last() == s@.take(it.index()));
        }
        assert(s@.take(s@.len() as int) == s@);
        Self::from_bits(bits.as_slice())
    }

    /// Builds the tree from its bit sequence, or says why `bits` is none.
    pub fn from_bits(bits: &[bool]) -> (r: Result<Louds, LbsError>)
        ensures
            match r {
                Ok(louds) => louds.wf() && louds@ == bits@,
                Err(error) => rejects(bits@, error),
            },
            r is Ok <==> is_lbs(bits@),
    {
        if bits.len() == 0 {
            return Err(LbsError::BadStart);
        }
        let fid = fid_from_bits(bits);
        match Self::validate_lbs(&fid) {
            Ok(()) => Ok(Louds { lbs: fid }),
            Err(error) => Err(error),
        }
    }

    /// Tells whether `node_num` is the number of a real node of this tree.
    pub fn contains_node(&self, node_num: LoudsNodeNum) -> (found: bool)
        requires
            self.wf(),
        ensures
            found == self.has_node(node_num),
    {
        proof {
            lemma_lbs_size(self@);
        }
        node_num.0 >= 1 && node_num.0 <= (self.lbs.len() - 1) / 2
    }

    /// Tells whether `index` is the position of the edge to a node.
    pub fn validate_index(&self, index: LoudsIndex) -> (found: bool)
        ensures
            found == self.is_node_index(index),
    {
        index.0 < self.lbs.len() && fid_get(&self.lbs, index.0)
    }

    /// The position of the edge that leads to `node_num`.
    pub fn node_num_to_index(&self, node_num: LoudsNodeNum) -> (index: LoudsIndex)
        requires
            self.wf(),
            self.has_node(node_num),
        ensures
            index == self.index_of(node_num),
            is_nth_one(self@, node_num.0 as int, index.0 as int),
            self.is_node_index(index),
    {
        proof {
            lemma_counts_partition(self@, self@.len() as int);
        }
        let found = self.lbs.select(node_num.0);
        proof {
            if let Some(p) = found {
                lemma_nth_one_is(self@, node_num.0 as int, p as int);
            }
        }
        LoudsIndex(found.unwrap())
    }

    /// The node that the edge at `index` leads to.
    pub fn index_to_node_num(&self, index: LoudsIndex) -> (node_num: LoudsNodeNum)
        requires
            self.wf(),
            self.is_node_index(index),
        ensures
            node_num == self.node_at(index),
            self.has_node(node_num),
    {
        proof {
            tree::lemma_position_round_trip(self@, index.0 as int);
        }
        LoudsNodeNum(self.lbs.rank(index.0))
    }

    /// The node from which the edge at `index` leaves. The edge to the root,
    /// at position 0, leaves no real node.
    pub fn child_to_parent(&self, index: LoudsIndex) -> (parent: LoudsNodeNum)
        requires
            self.wf(),
            self.is_node_index(index),
            index.0 != 0,
        ensures
            parent == self.parent_of(index),
            self.has_node(parent),
    {
        proof {
            tree::lemma_parent_is_node(self@, index.0 as int);
        }
        LoudsNodeNum(self.lbs.rank0(index.0))
    }

    /// The position where the edges to the children of `node_num` begin.
    pub(crate) fn first_child_index(&self, node_num: LoudsNodeNum) -> (first: u64)
        requires
            self.wf(),
            self.has_node(node_num),
        ensures
            first == tree::first_child(self@, node_num.0 as int),
    {
        proof {
            tree::lemma_node_has_bounds(self@, node_num.0 as int);
            lemma_lbs_size(self@);
        }
        let found = self.lbs.select0(node_num.0);
        proof {
            if let Some(p) = found {
                lemma_nth_zero_is(self@, node_num.0 as int, p as int);
            }
        }
        found.unwrap() + 1
    }

    /// The position where the edges to the children of `node_num` end: one
    /// less than where they begin, if there are none.
    pub(crate) fn last_child_index(&self, node_num: LoudsNodeNum) -> (last: u64)
        requires
            self.wf(),
            self.has_node(node_num),
        ensures
            last == tree::last_child(self@, node_num.0 as int),
    {
        proof {
            tree::lemma_node_has_bounds(self@, node_num.0 as int);
            lemma_lbs_size(self@);
        }
        let found = self.lbs.select0(node_num.0 + 1);
        proof {
            if let Some(p) = found {
                lemma_nth_zero_is(self@, node_num.0 + 1, p as int);
            }
        }
        found.unwrap() - 1
    }
}

} // verus!
