//! What makes a bit sequence a LOUDS bit sequence, and how one is written as
//! a string of tokens.

use vstd::prelude::*;

use crate::bits::{count_ones, count_zeros, lemma_counts_monotonic, lemma_counts_partition};

verus! {

/// Why a bit sequence, or the string that spells one, was turned down.
#[derive(PartialEq, Eq, Debug, Clone, Copy, Structural)]
pub enum LbsError {
    /// The string holds this character, which is neither `'0'`, `'1'` nor `'_'`.
    InvalidChar(char),
    /// The sequence does not begin with a set bit followed by a clear bit.
    BadStart,
    /// Among the bits at positions `0..=index` more than one more bit is clear
    /// than is set, and `index` is the first position where that happens.
    PrefixUnbalanced { index: u64 },
    /// Over the whole sequence the clear bits are not exactly one more than
    /// the set bits.
    Unbalanced,
}

/// A character that may stand in a token string.
pub open spec fn is_token(c: char) -> bool {
    c == '0' || c == '1' || c == '_'
}

/// Every character of `s` may stand in a token string.
pub open spec fn is_token_string(s: Seq<char>) -> bool {
    forall|i: int| 0 <= i < s.len() ==> is_token(#[trigger] s[i])
}

/// `i` is the position of the first character of `s` that may not stand in a
/// token string.
pub open spec fn is_first_non_token(s: Seq<char>, i: int) -> bool {
    &&& 0 <= i < s.len()
    &&& !is_token(s[i])
    &&& forall|j: int| 0 <= j < i ==> is_token(#[trigger] s[j])
}

/// The bits that a token string spells: `'1'` is a set bit, `'0'` a clear
/// bit, and the separator `'_'` spells nothing.
pub open spec fn token_bits(s: Seq<char>) -> Seq<bool>
    decreases s.len(),
{
    if s.len() == 0 {
        Seq::empty()
    } else if s.last() == '_' {
        token_bits(s.drop_last())
    } else {
        token_bits(s.drop_last()).push(s.last() == '1')
    }
}

/// The sequence begins with the virtual root: the edge to its one child, then
/// the clear bit that closes its range.
pub open spec fn has_root_prefix(bits: Seq<bool>) -> bool {
    bits.len() >= 2 && bits[0] && !bits[1]
}

/// Among the bits at positions `0..=i`, at most one more is clear than is set.
pub open spec fn prefix_balanced(bits: Seq<bool>, i: int) -> bool {
    count_zeros(bits, i + 1) <= count_ones(bits, i + 1) + 1
}

/// Every prefix of the sequence is balanced.
pub open spec fn all_prefixes_balanced(bits: Seq<bool>) -> bool {
    forall|i: int| 0 <= i < bits.len() ==> #[trigger] prefix_balanced(bits, i)
}

/// `i` is the first position whose prefix is not balanced.
pub open spec fn is_first_unbalanced(bits: Seq<bool>, i: int) -> bool {
    &&& 0 <= i < bits.len()
    &&& !prefix_balanced(bits, i)
    &&& forall|j: int| 0 <= j < i ==> #[trigger] prefix_balanced(bits, j)
}

/// Over the whole sequence exactly one more bit is clear than is set: every
/// node closes its range with a clear bit, and every node but the virtual
/// root has its edge.
pub open spec fn totals_balanced(bits: Seq<bool>) -> bool {
    count_zeros(bits, bits.len() as int) == count_ones(bits, bits.len() as int) + 1
}

/// `bits` is a LOUDS bit sequence.
pub open spec fn is_lbs(bits: Seq<bool>) -> bool {
    &&& has_root_prefix(bits)
    &&& all_prefixes_balanced(bits)
    &&& totals_balanced(bits)
}

/// The number of real nodes of the tree that `bits` encodes: one per set bit.
pub open spec fn node_count(bits: Seq<bool>) -> int {
    count_ones(bits, bits.len() as int)
}

/// `error` is the reason for which `bits` is turned down. The first fault
/// found, reading from the front, decides: the start, then the earliest
/// unbalanced prefix, then the totals.
pub open spec fn rejects(bits: Seq<bool>, error: LbsError) -> bool {
    match error {
        LbsError::InvalidChar(_) => false,
        LbsError::BadStart => !has_root_prefix(bits),
        LbsError::PrefixUnbalanced { index } => has_root_prefix(bits) && is_first_unbalanced(
            bits,
            index as int,
        ),
        LbsError::Unbalanced => has_root_prefix(bits) && all_prefixes_balanced(bits)
            && !totals_balanced(bits),
    }
}

/// A LOUDS bit sequence of a tree with `n` real nodes holds `n` set bits and
/// `n + 1` clear bits, so `2n + 1` bits in all, and its tree has a root.
pub proof fn lemma_lbs_size(bits: Seq<bool>)
    requires
        is_lbs(bits),
    ensures
        node_count(bits) >= 1,
        count_zeros(bits, bits.len() as int) == node_count(bits) + 1,
        bits.len() == 2 * node_count(bits) + 1,
{
    lemma_counts_partition(bits, bits.len() as int);
    lemma_counts_monotonic(bits, 1, bits.len() as int);
    assert(count_ones(bits, 1) == 1) by {
        assert(count_ones(bits, 0) == 0);
    }
}

/// A LOUDS bit sequence ends in a clear bit, which closes the range of its
/// last node.
pub proof fn lemma_lbs_ends_clear(bits: Seq<bool>)
    requires
        is_lbs(bits),
    ensures
        !bits[bits.len() - 1],
{
    let n = bits.len() as int;
    assert(prefix_balanced(bits, n - 2));
}

} // verus!
