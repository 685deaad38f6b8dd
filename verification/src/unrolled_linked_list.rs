//! An unrolled linked list: a chain of nodes that hold several items each.
//!
//! The nodes live in one vector and point at their successor by index, so the
//! list owns every node and nothing is shared.

use vstd::prelude::*;

verus! {

/// One node of the list: a block of items and the index of the next node.
pub struct ListNode<T> {
    pub items: Vec<T>,
    pub next: Option<usize>,
}

impl<T> ListNode<T> {
    /// An empty node with room for `size` items and no successor.
    pub fn new(size: usize) -> (node: Self)
        ensures
            node.items@ == Seq::<T>::empty(),
            node.next is None,
    {
        ListNode { items: Vec::with_capacity(size), next: None }
    }

    /// Makes the node at index `item` the successor.
    pub fn set_next(&mut self, item: usize)
        ensures
            final(self).next == Some(item),
            final(self).items == old(self).items,
    {
        self.next = Some(item);
    }
}

/// A list of nodes with direct access to the first and the last one.
pub struct UnrolledLinkedList<T> {
    nodes: Vec<ListNode<T>>,
    first: usize,
    last: usize,
}

impl<T> UnrolledLinkedList<T> {
    /// The chain starts at the first node, runs through every node in order
    /// and ends at the last.
    pub closed spec fn wf(&self) -> bool {
        &&& self.nodes@.len() > 0
        &&& self.first == 0
        &&& self.last == self.nodes@.len() - 1
        &&& forall|i: int|
            0 <= i < self.nodes@.len() ==> (#[trigger] self.nodes@[i]).next == if i + 1
                < self.nodes@.len() {
                Some((i + 1) as usize)
            } else {
                None
            }
    }

    /// The blocks of the list, from the first node to the last.
    pub closed spec fn blocks(&self) -> Seq<Seq<T>> {
        Seq::new(self.nodes@.len(), |i: int| self.nodes@[i].items@)
    }

    /// A well-formed list has at least one node.
    pub proof fn lemma_wf_is_not_empty(&self)
        requires
            self.wf(),
        ensures
            self.blocks().len() > 0,
    {
    }

    /// A list of one node. The node becomes first and last; it has no
    /// successor, whatever its `next` held.
    pub fn new(first_item: ListNode<T>) -> (list: Self)
        ensures
            list.wf(),
            list.blocks() == seq![first_item.items@],
    {
        let mut nodes: Vec<ListNode<T>> = Vec::new();
        nodes.push(ListNode { items: first_item.items, next: None });
        let list = UnrolledLinkedList { nodes, first: 0, last: 0 };
        assert(list.blocks() =~= seq![first_item.items@]);
        list
    }

    /// Appends a node: the last node gets it as successor, and it becomes the
    /// last.
    pub fn add(&mut self, item: ListNode<T>)
        requires
            old(self).wf(),
        ensures
            final(self).wf(),
            final(self).blocks() == old(self).blocks().push(item.items@),
    {
        let point: usize = self.nodes.len();
        self.nodes[self.last].set_next(point);
        self.nodes.push(ListNode { items: item.items, next: None });
        self.last = point;
        assert(self.blocks() =~= old(self).blocks().push(item.items@));
    }

    /// The number of nodes.
    pub fn node_count(&self) -> (count: usize)
        requires
            self.wf(),
        ensures
            count == self.blocks().len(),
            count > 0,
    {
        self.nodes.len()
    }

    /// The items of the first node.
    pub fn first_items(&self) -> (items: &Vec<T>)
        requires
            self.wf(),
        ensures
            items@ == self.blocks()[0],
    {
        &self.nodes[self.first].items
    }

    /// The items of the last node.
    pub fn last_items(&self) -> (items: &Vec<T>)
        requires
            self.wf(),
        ensures
            items@ == self.blocks().last(),
    {
        &self.nodes[self.last].items
    }
}

} // verus!
