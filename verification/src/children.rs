//! Enumerating the children of a node: lazily from either end, or all at once.

use vstd::prelude::*;

use crate::index::{LoudsIndex, LoudsNodeNum};
use crate::louds::{index_range, Louds};
use crate::tree;

verus! {

/// Drawing at the front of a sequence: its first item and what is left, or
/// nothing and the empty sequence unchanged.
pub open spec fn pop_front<T>(items: Seq<T>) -> (Option<T>, Seq<T>) {
    if items.len() > 0 {
        (Some(items.first()), items.drop_first())
    } else {
        (None, items)
    }
}

/// Drawing at the back of a sequence: its last item and what is left, or
/// nothing and the empty sequence unchanged.
pub open spec fn pop_back<T>(items: Seq<T>) -> (Option<T>, Seq<T>) {
    if items.len() > 0 {
        (Some(items.last()), items.drop_last())
    } else {
        (None, items)
    }
}

/// Walks the positions of the edges to the children of one node, from either
/// end. Each bound of the range is looked up in the tree only when the first
/// draw at that end, or a question about the length, needs it.
pub struct ChildIndexIter<'a> {
    inner: &'a Louds,
    node: LoudsNodeNum,
    start: Option<u64>,
    end: Option<u64>,
}

impl<'a> View for ChildIndexIter<'a> {
    type V = Seq<LoudsIndex>;

    /// The positions still to come, in rising order.
    open spec fn view(&self) -> Seq<LoudsIndex> {
        index_range(self.front(), self.back())
    }
}

impl<'a> ChildIndexIter<'a> {
    /// The tree that is walked.
    pub closed spec fn tree(&self) -> Louds {
        *self.inner
    }

    /// The node whose children are walked.
    pub closed spec fn node(&self) -> LoudsNodeNum {
        self.node
    }

    /// The next position to come at the front, once it has been looked up.
    pub closed spec fn start(&self) -> Option<u64> {
        self.start
    }

    /// The next position to come at the back, once it has been looked up.
    pub closed spec fn end(&self) -> Option<u64> {
        self.end
    }

    /// The next position to come at the front, looked up or not.
    pub open spec fn front(&self) -> int {
        match self.start() {
            Some(start) => start as int,
            None => tree::first_child(self.tree()@, self.node().0 as int),
        }
    }

    /// The next position to come at the back, looked up or not.
    pub open spec fn back(&self) -> int {
        match self.end() {
            Some(end) => end as int,
            None => tree::last_child(self.tree()@, self.node().0 as int),
        }
    }

    /// The walk is over a real node of a well-formed tree, and both ends lie
    /// within the range of that node, the front at most one step past the back.
    pub open spec fn wf(&self) -> bool {
        let first = tree::first_child(self.tree()@, self.node().0 as int);
        let last = tree::last_child(self.tree()@, self.node().0 as int);
        &&& self.tree().wf()
        &&& self.tree().has_node(self.node())
        &&& first <= self.front() <= last + 1
        &&& first - 1 <= self.back() <= last
        &&& self.front() <= self.back() + 1
    }

    /// A walk over all the children of `node_num`, with neither bound looked
    /// up yet.
    pub(crate) fn new(inner: &'a Louds, node_num: LoudsNodeNum) -> (iter: Self)
        requires
            inner.wf(),
            inner.has_node(node_num),
        ensures
            iter.wf(),
            iter.tree() == *inner,
            iter.node() == node_num,
            iter.start() is None,
            iter.end() is None,
    {
        proof {
            tree::lemma_node_has_bounds(inner@, node_num.0 as int);
        }
        ChildIndexIter { inner, node: node_num, start: None, end: None }
    }

    /// Draws the next position at the front, if any is left.
    pub fn next(&mut self) -> (item: Option<LoudsIndex>)
        requires
            old(self).wf(),
        ensures
            final(self).wf(),
            final(self).tree() == old(self).tree(),
            final(self).node() == old(self).node(),
            (item, final(self)@) == pop_front(old(self)@),
            item matches Some(index) ==> old(self).tree().is_child_of(index, old(self).node()),
            final(self).start() is Some,
            final(self).end() == old(self).end(),
    {
        proof {
            tree::lemma_children_run(self.inner@, self.node.0 as int);
            if self@.len() > 0 {
                tree::lemma_child_position(self.inner@, self.node.0 as int, self.front());
            }
        }
        if self.start.is_none() {
            self.start = Some(self.inner.first_child_index(self.node));
        }
        let start = self.start.unwrap();
        let more = match self.end {
            Some(last) => start <= last,
            None => self.inner.validate_index(LoudsIndex(start)),
        };
        if more {
            self.start = Some(start + 1);
            Some(LoudsIndex(start))
        } else {
            None
        }
    }

    /// Draws the next position at the back, if any is left.
    pub fn next_back(&mut self) -> (item: Option<LoudsIndex>)
        requires
            old(self).wf(),
        ensures
            final(self).wf(),
            final(self).tree() == old(self).tree(),
            final(self).node() == old(self).node(),
            (item, final(self)@) == pop_back(old(self)@),
            item matches Some(index) ==> old(self).tree().is_child_of(index, old(self).node()),
            final(self).end() is Some,
            final(self).start() == old(self).start(),
    {
        proof {
            tree::lemma_children_run(self.inner@, self.node.0 as int);
            if self@.len() > 0 {
                tree::lemma_child_position(self.inner@, self.node.0 as int, self.back());
            }
        }
        if self.end.is_none() {
            self.end = Some(self.inner.last_child_index(self.node));
        }
        let end = self.end.unwrap();
        let more = match self.start {
            Some(first) => first <= end,
            None => self.inner.validate_index(LoudsIndex(end)),
        };
        if more {
            self.end = Some(end - 1);
            Some(LoudsIndex(end))
        } else {
            None
        }
    }

    /// The number of positions still to come. Looks up both bounds, and draws
    /// nothing.
    pub fn len(&mut self) -> (n: usize)
        requires
            old(self).wf(),
        ensures
            final(self).wf(),
            final(self).tree() == old(self).tree(),
            final(self).node() == old(self).node(),
            final(self)@ == old(self)@,
            n == old(self)@.len(),
            final(self).start() is Some,
            final(self).end() is Some,
    {
        proof {
            tree::lemma_children_run(self.inner@, self.node.0 as int);
        }
        if self.start.is_none() {
            self.start = Some(self.inner.first_child_index(self.node));
        }
        if self.end.is_none() {
            self.end = Some(self.inner.last_child_index(self.node));
        }
        let start = self.start.unwrap();
        let end = self.end.unwrap();
        (end + 1 - start) as usize
    }

    /// Tells whether no position is left. Looks up both bounds, and draws
    /// nothing.
    pub fn is_empty(&mut self) -> (empty: bool)
        requires
            old(self).wf(),
        ensures
            final(self).wf(),
            final(self).tree() == old(self).tree(),
            final(self).node() == old(self).node(),
            final(self)@ == old(self)@,
            empty == (old(self)@.len() == 0),
            final(self).start() is Some,
            final(self).end() is Some,
    {
        self.len() == 0
    }
}

/// Walks the children of one node, from either end, as node numbers.
pub struct ChildNodeIter<'a>(ChildIndexIter<'a>);

impl<'a> View for ChildNodeIter<'a> {
    type V = Seq<LoudsNodeNum>;

    /// The nodes still to come, in rising order.
    open spec fn view(&self) -> Seq<LoudsNodeNum> {
        self.indices().tree().nodes_at(self.indices()@)
    }
}

impl<'a> ChildNodeIter<'a> {
    /// The walk over the positions of the same children.
    pub closed spec fn indices(&self) -> ChildIndexIter<'a> {
        self.0
    }

    /// The walk over the positions is well-formed.
    pub open spec fn wf(&self) -> bool {
        self.indices().wf()
    }

    /// Draws the next child at the front, if any is left.
    pub fn next(&mut self) -> (item: Option<LoudsNodeNum>)
        requires
            old(self).wf(),
        ensures
            final(self).wf(),
            final(self).indices().tree() == old(self).indices().tree(),
            final(self).indices().node() == old(self).indices().node(),
            final(self).indices()@ == pop_front(old(self).indices()@).1,
            final(self).indices().start() is Some,
            final(self).indices().end() == old(self).indices().end(),
            (item, final(self)@) == pop_front(old(self)@),
            item matches Some(node_num) ==> old(self).indices().tree().has_node(node_num),
    {
        match self.0.next() {
            Some(index) => Some(self.0.inner.index_to_node_num(index)),
            None => None,
        }
    }

    /// Draws the next child at the back, if any is left.
    pub fn next_back(&mut self) -> (item: Option<LoudsNodeNum>)
        requires
            old(self).wf(),
        ensures
            final(self).wf(),
            final(self).indices().tree() == old(self).indices().tree(),
            final(self).indices().node() == old(self).indices().node(),
            final(self).indices()@ == pop_back(old(self).indices()@).1,
            final(self).indices().end() is Some,
            final(self).indices().start() == old(self).indices().start(),
            (item, final(self)@) == pop_back(old(self)@),
            item matches Some(node_num) ==> old(self).indices().tree().has_node(node_num),
    {
        match self.0.next_back() {
            Some(index) => Some(self.0.inner.index_to_node_num(index)),
            None => None,
        }
    }

    /// The number of children still to come. Draws nothing.
    pub fn len(&mut self) -> (n: usize)
        requires
            old(self).wf(),
        ensures
            final(self).wf(),
            final(self).indices().tree() == old(self).indices().tree(),
            final(self).indices().node() == old(self).indices().node(),
            final(self).indices()@ == old(self).indices()@,
            final(self).indices().start() is Some,
            final(self).indices().end() is Some,
            final(self)@ == old(self)@,
            n == old(self)@.len(),
    {
        self.0.len()
    }

    /// Tells whether no child is left. Draws nothing.
    pub fn is_empty(&mut self) -> (empty: bool)
        requires
            old(self).wf(),
        ensures
            final(self).wf(),
            final(self).indices().tree() == old(self).indices().tree(),
            final(self).indices().node() == old(self).indices().node(),
            final(self).indices()@ == old(self).indices()@,
            final(self).indices().start() is Some,
            final(self).indices().end() is Some,
            final(self)@ == old(self)@,
            empty == (old(self)@.len() == 0),
    {
        self.len() == 0
    }
}

impl Louds {
    /// A walk over the positions of the edges to the children of `node_num`.
    /// Nothing is looked up in the tree before the first draw.
    pub fn parent_to_children_indices(&self, node_num: LoudsNodeNum) -> (iter: ChildIndexIter<'_>)
        requires
            self.wf(),
            self.has_node(node_num),
        ensures
            iter.wf(),
            iter.tree() == *self,
            iter.node() == node_num,
            iter@ == self.children(node_num),
            iter.start() is None,
            iter.end() is None,
    {
        ChildIndexIter::new(self, node_num)
    }

    /// A walk over the children of `node_num`.
    pub fn parent_to_children_nodes(&self, node_num: LoudsNodeNum) -> (iter: ChildNodeIter<'_>)
        requires
            self.wf(),
            self.has_node(node_num),
        ensures
            iter.wf(),
            iter.indices().tree() == *self,
            iter.indices().node() == node_num,
            iter.indices()@ == self.children(node_num),
            iter.indices().start() is None,
            iter.indices().end() is None,
            iter@ == self.child_nodes(node_num),
    {
        ChildNodeIter(self.parent_to_children_indices(node_num))
    }

    /// The positions of the edges to the children of `node_num`, first child
    /// first.
    pub fn parent_to_children(&self, node_num: LoudsNodeNum) -> (indices: Vec<LoudsIndex>)
        requires
            self.wf(),
            self.has_node(node_num),
        ensures
            indices@ == self.children(node_num),
            forall|i: int|
                0 <= i < indices@.len() ==> self.is_child_of(#[trigger] indices@[i], node_num),
    {
        let mut iter = self.parent_to_children_indices(node_num);
        let mut indices: Vec<LoudsIndex> = Vec::new();
        loop
            invariant
                iter.wf(),
                iter.tree() == *self,
                iter.node() == node_num,
                indices@ + iter@ == self.children(node_num),
                forall|i: int|
                    0 <= i < indices@.len() ==> self.is_child_of(#[trigger] indices@[i], node_num),
            ensures
                indices@ == self.children(node_num),
                forall|i: int|
                    0 <= i < indices@.len() ==> self.is_child_of(#[trigger] indices@[i], node_num),
            decreases iter@.len(),
        {
            match iter.next() {
                Some(index) => indices.push(index),
                None => break,
            }
        }
        indices
    }
}

} // verus!
