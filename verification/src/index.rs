//! The two scalar domains of a LOUDS tree: node numbers and bit positions.

use vstd::prelude::*;

verus! {

/// Number of a node, in level order. Real nodes count from 1; 0 stands for the
/// virtual root, the parent of node 1.
#[derive(PartialEq, Eq, Debug, Clone, Copy, Structural)]
pub struct LoudsNodeNum(pub u64);

/// Position of a bit in the LOUDS bit sequence, counted from 0.
#[derive(PartialEq, Eq, Debug, Clone, Copy, Structural)]
pub struct LoudsIndex(pub u64);

impl LoudsIndex {
    /// The position `value`.
    pub fn new(value: u64) -> (index: Self)
        ensures
            index == LoudsIndex(value),
    {
        LoudsIndex(value)
    }

    /// The position as a plain integer.
    pub fn value(&self) -> (value: u64)
        ensures
            value == self.0,
    {
        self.0
    }
}

} // verus!
