use logship::tree::{LogEntry, MainTree, TreeNode};
use logship::unrolled_linked_list::{ListNode, UnrolledLinkedList};

fn leaf(entries: u64, min: u64, max: u64) -> Box<TreeNode> {
    let mut node = TreeNode::new();
    node.entries = entries;
    node.min = min;
    node.max = max;
    Box::new(node)
}

#[test]
fn new_node_is_empty() {
    let node = TreeNode::new();
    assert!(node.parent.is_none());
    assert!(node.children.is_empty());
    assert_eq!(node.entries, 0);
    assert_eq!(node.min, 0);
    assert_eq!(node.max, 0);
    assert!(node.index_collection_key.is_none());
}

#[test]
fn node_above_children_sums_and_spans() {
    let node = TreeNode::from(vec![leaf(3, 10, 20), leaf(0, 21, 21), leaf(5, 30, 45)]);
    assert_eq!(node.entries, 8);
    assert_eq!(node.min, 10);
    assert_eq!(node.max, 45);
    assert_eq!(node.children.len(), 3);
    assert_eq!(node.children[2].entries, 5);
    assert!(node.parent.is_none());
    assert!(node.index_collection_key.is_none());
}

#[test]
fn node_above_one_child_takes_its_range() {
    let node = TreeNode::from(vec![leaf(u64::MAX, 7, 9)]);
    assert_eq!(node.entries, u64::MAX);
    assert_eq!(node.min, 7);
    assert_eq!(node.max, 9);
}

#[test]
fn add_counts_and_moves_the_latest_time() {
    let mut node = TreeNode::new();
    node.add(LogEntry { time: 1665622800655 });
    assert_eq!(node.entries, 1);
    assert_eq!(node.max, 1665622800655);
    assert_eq!(node.min, 0);
    node.add(LogEntry { time: 5 });
    assert_eq!(node.entries, 2);
    assert_eq!(node.max, 5);
}

#[test]
fn new_tree_has_one_node() {
    let tree = MainTree::new();
    assert_eq!(tree.nodes.len(), 1);
    assert_eq!(tree.head, 0);
    assert_eq!(tree.current_leave, 0);
    assert_eq!(tree.nodes[0].entries, 0);
}

#[test]
fn insert_goes_to_the_leaf_for_later_entries() {
    let mut tree = MainTree::new();
    let mut leaf_node = TreeNode::new();
    leaf_node.min = 100;
    leaf_node.max = 100;
    tree.nodes.push(leaf_node);
    tree.current_leave = 1;
    tree.insert(LogEntry { time: 150 });
    assert_eq!(tree.nodes[1].entries, 1);
    assert_eq!(tree.nodes[1].max, 150);
    assert_eq!(tree.nodes[0].entries, 0);
    tree.insert(LogEntry { time: 100 });
    assert_eq!(tree.nodes[0].entries, 1);
    assert_eq!(tree.nodes[0].max, 100);
    assert_eq!(tree.nodes[1].entries, 1);
    tree.insert(LogEntry { time: 50 });
    assert_eq!(tree.nodes[0].entries, 2);
    assert_eq!(tree.nodes[0].max, 50);
}

#[test]
fn insert_into_fresh_tree_counts_in_the_only_node() {
    let mut tree = MainTree::new();
    tree.insert(LogEntry { time: 1665622800655 });
    tree.insert(LogEntry { time: 0 });
    assert_eq!(tree.nodes[0].entries, 2);
    assert_eq!(tree.nodes[0].max, 0);
    assert_eq!(tree.nodes[0].min, 0);
}

#[test]
fn new_list_node_is_empty() {
    let node: ListNode<i32> = ListNode::new(16);
    assert!(node.items.is_empty());
    assert!(node.items.capacity() >= 16);
    assert!(node.next.is_none());
}

#[test]
fn set_next_links_a_node() {
    let mut node: ListNode<i32> = ListNode::new(0);
    node.items.push(4);
    node.set_next(3);
    assert_eq!(node.next, Some(3));
    assert_eq!(node.items, vec![4]);
}

#[test]
fn list_of_one_node_starts_and_ends_there() {
    let mut first_node = ListNode::new(16);
    first_node.items.push(111);
    let list: UnrolledLinkedList<i32> = UnrolledLinkedList::new(first_node);
    assert_eq!(list.node_count(), 1);
    assert_eq!(list.first_items(), &vec![111]);
    assert_eq!(list.last_items(), &vec![111]);
}

#[test]
fn add_appends_behind_the_last_node() {
    let mut first_node = ListNode::new(16);
    first_node.items.push(111);
    let mut second_node: ListNode<i32> = ListNode::new(16);
    second_node.items.push(222);
    let mut list: UnrolledLinkedList<i32> = UnrolledLinkedList::new(first_node);
    list.add(second_node);
    assert_eq!(list.node_count(), 2);
    assert_eq!(list.first_items(), &vec![111]);
    assert_eq!(list.last_items(), &vec![222]);
    let mut third: ListNode<i32> = ListNode::new(2);
    third.items.push(1);
    third.items.push(2);
    third.next = Some(99);
    list.add(third);
    assert_eq!(list.node_count(), 3);
    assert_eq!(list.first_items(), &vec![111]);
    assert_eq!(list.last_items(), &vec![1, 2]);
}
