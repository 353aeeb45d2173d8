//! LOUDS (Level-Order Unary Degree Sequence): an ordered tree of any branching
//! factor, held as a bit sequence of two bits per node and navigated without
//! ever building nodes and pointers.
//!
//! A tree with `N` nodes is written as `2N + 1` bits. Reading the nodes level
//! by level, each node writes one set bit for each of its children and then one
//! clear bit. In front stands the virtual root, node 0, with its one child:
//! node 1, the root of the tree. So `10_1110_10_0_0_0` is a root with three
//! children, the first of which has one child.
//!
//! A [`LoudsNodeNum`] names a node by its place in level order, counted from 1.
//! A [`LoudsIndex`] names a bit by its position, counted from 0; the position
//! of the `k`-th set bit stands for node `k`.
//!
//! ```text
//! let louds = Louds::from_str("10_1110_10_0_1110_0_0_10_110_0_0_0")?;
//!
//! let node8 = LoudsNodeNum(8);
//! let index11 = louds.node_num_to_index(node8);
//! assert_eq!(louds.index_to_node_num(index11), node8);
//!
//! assert_eq!(louds.parent_to_children(node8), vec![LoudsIndex(17), LoudsIndex(18)]);
//! assert_eq!(louds.child_to_parent(index11), LoudsNodeNum(4));
//! ```
//!
//! The modules, from the ground up:
//!
//! - [`bits`]: counting set and clear bits, the model of rank and select;
//! - [`lbs`]: which bit sequences encode a tree, and how one is spelled as a
//!   string;
//! - [`tree`]: what a bit sequence says about nodes, parents and children;
//! - [`fid`]: the bit vector that stores the sequence, and what is taken for
//!   granted about it;
//! - [`louds`]: the tree itself, its construction and its navigation;
//! - [`children`]: walking the children of a node from either end;
//! - [`laws`]: what holds of every tree and of every walk.

pub mod bits;
pub mod children;
pub mod fid;
pub mod index;
pub mod laws;
pub mod lbs;
pub mod louds;
pub mod tree;

pub use children::{ChildIndexIter, ChildNodeIter};
pub use index::{LoudsIndex, LoudsNodeNum};
pub use lbs::LbsError;
pub use louds::Louds;
