//! A time-ordered index over log entries: nodes that record how many entries
//! lie below them and the range of time they span.
//!
//! The nodes of a tree live in one vector and name each other by index.

use vstd::prelude::*;

verus! {

/// An entry of the index.
pub struct LogEntry {
    pub time: u64,
}

/// A node of the index.
pub struct TreeNode {
    /// The index of the parent node, none for a root.
    pub parent: Option<usize>,
    pub children: Vec<Box<TreeNode>>,
    /// The number of entries in this node and below.
    pub entries: u64,
    /// The earliest time below this node.
    pub min: u64,
    /// The latest time below this node.
    pub max: u64,
    /// The key under which the node's entries are stored.
    pub index_collection_key: Option<String>,
}

/// The number of entries below a row of nodes.
pub open spec fn total_entries(children: Seq<Box<TreeNode>>) -> nat
    decreases children.len(),
{
    if children.len() == 0 {
        0
    } else {
        total_entries(children.drop_last()) + children.last().entries as nat
    }
}

impl TreeNode {
    /// A node without children or entries.
    pub fn new() -> (node: Self)
        ensures
            node.parent is None,
            node.children@ == Seq::<Box<TreeNode>>::empty(),
            node.entries == 0,
            node.min == 0,
            node.max == 0,
            node.index_collection_key is None,
    {
        TreeNode {
            parent: None,
            children: Vec::new(),
            entries: 0,
            min: 0,
            max: 0,
            index_collection_key: None,
        }
    }

    /// A node above `children`, which are ordered by time: it counts their
    /// entries and spans from the first child's earliest time to the last
    /// child's latest.
    pub fn from(children: Vec<Box<TreeNode>>) -> (node: Self)
        requires
            children@.len() > 0,
            total_entries(children@) <= u64::MAX,
        ensures
            node.parent is None,
            node.index_collection_key is None,
            node.children == children,
            node.entries == total_entries(children@),
            node.min == children@[0].min,
            node.max == children@.last().max,
    {
        let mut entries: u64 = 0;
        let mut i: usize = 0;
        assert(children@.take(0) =~= Seq::<Box<TreeNode>>::empty());
        while i < children.len()
            invariant
                i <= children.len(),
                entries == total_entries(children@.take(i as int)),
                total_entries(children@) <= u64::MAX,
            decreases children.len() - i,
        {
            proof {
                assert(children@.take(i as int + 1).drop_last() =~= children@.take(i as int));
                lemma_total_entries_grows(children@, i as int + 1);
            }
            entries = entries + children[i].entries;
            i += 1;
        }
        assert(children@.take(children@.len() as int) =~= children@);
        let min = children[0].min;
        let max = children[children.len() - 1].max;
        TreeNode { parent: None, index_collection_key: None, children, entries, min, max }
    }

    /// Counts one more entry and moves the latest time to the entry's.
    pub fn add(&mut self, entry: LogEntry)
        requires
            old(self).entries < u64::MAX,
        ensures
            final(self).entries == old(self).entries + 1,
            final(self).max == entry.time,
            final(self).min == old(self).min,
            final(self).parent == old(self).parent,
            final(self).children == old(self).children,
            final(self).index_collection_key == old(self).index_collection_key,
    {
        self.entries = self.entries + 1;
        self.max = entry.time;
    }
}

/// The entries below the first `n` nodes of a row are at most those below
/// the whole row.
proof fn lemma_total_entries_grows(children: Seq<Box<TreeNode>>, n: int)
    requires
        0 <= n <= children.len(),
    ensures
        total_entries(children.take(n)) <= total_entries(children),
    decreases children.len() - n,
{
    if n < children.len() {
        lemma_total_entries_grows(children, n + 1);
        assert(children.take(n + 1).drop_last() =~= children.take(n));
    } else {
        assert(children.take(n) =~= children);
    }
}

/// The index: its nodes, the root, and the right-most leaf, where entries
/// that arrive in order go.
pub struct MainTree {
    pub nodes: Vec<TreeNode>,
    pub head: usize,
    pub current_leave: usize,
}

/// The node that takes an entry: the right-most leaf if the entry is later
/// than the leaf's earliest time, else the root.
pub open spec fn insertion_point(tree: MainTree, entry: LogEntry) -> int {
    if tree.nodes@[tree.current_leave as int].min < entry.time {
        tree.current_leave as int
    } else {
        tree.head as int
    }
}

impl MainTree {
    /// The root and the right-most leaf are nodes of the tree.
    pub open spec fn wf(&self) -> bool {
        self.head < self.nodes@.len() && self.current_leave < self.nodes@.len()
    }

    /// A tree of one empty node, which is root and right-most leaf.
    pub fn new() -> (tree: Self)
        ensures
            tree.wf(),
            tree.nodes@.len() == 1,
            tree.head == 0,
            tree.current_leave == 0,
            tree.nodes@[0].parent is None,
            tree.nodes@[0].children@ == Seq::<Box<TreeNode>>::empty(),
            tree.nodes@[0].entries == 0,
            tree.nodes@[0].min == 0,
            tree.nodes@[0].max == 0,
            tree.nodes@[0].index_collection_key is None,
    {
        let mut nodes: Vec<TreeNode> = Vec::new();
        nodes.push(TreeNode::new());
        MainTree { nodes, head: 0, current_leave: 0 }
    }

    /// Adds an entry to the node that [`insertion_point`] names.
    pub fn insert(&mut self, entry: LogEntry)
        requires
            old(self).wf(),
            old(self).nodes@[insertion_point(*old(self), entry)].entries < u64::MAX,
        ensures
            final(self).wf(),
            final(self).head == old(self).head,
            final(self).current_leave == old(self).current_leave,
            final(self).nodes@.len() == old(self).nodes@.len(),
            forall|i: int|
                0 <= i < old(self).nodes@.len() && i != insertion_point(*old(self), entry)
                    ==> final(self).nodes@[i] == old(self).nodes@[i],
            ({
                let at = insertion_point(*old(self), entry);
                let before = old(self).nodes@[at];
                let after = final(self).nodes@[at];
                &&& after.entries == before.entries + 1
                &&& after.max == entry.time
                &&& after.min == before.min
                &&& after.parent == before.parent
                &&& after.children == before.children
                &&& after.index_collection_key == before.index_collection_key
            }),
    {
        let at: usize = if self.nodes[self.current_leave].min < entry.time {
            self.current_leave
        } else {
            self.head
        };
        self.nodes[at].add(entry);
    }
}

} // verus!
