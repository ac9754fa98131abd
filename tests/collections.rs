use rustlab::bst::BinarySearchTree;
use rustlab::dynamic_array::DynamicArray as U64Array;
use rustlab::generic_array::DynamicArray;
use rustlab::queue::List;
use rustlab::skip_list::SkipList;
use rustlab::stack::Stack;
use rustlab::transaction_log::{BetterTransactionLog, TransactionLog};

#[test]
fn dynamic_array_clone() {
    let mut list = DynamicArray::new_array();
    list.append(3.14);
    let mut list2 = list.clone();
    list2.append(42.0);
    assert_eq!(list[0], Some(3.14));
    assert_eq!(list[1], None);
    assert_eq!(list2[0], Some(3.14));
    assert_eq!(list2[1], Some(42.0));
}

#[test]
fn dynamic_array_index() {
    let mut list = DynamicArray::new_array();
    list.append(3.14);

    assert_eq!(list[0], Some(3.14));
    let mut list = DynamicArray::new_array();
    list.append("Hello");
    assert_eq!(list[0], Some("Hello"));
    assert_eq!(list[1], None);
}

#[test]
fn dynamic_array_2d_array() {
    let mut list = DynamicArray::new_array();
    let mut sublist = DynamicArray::new_array();
    sublist.append(3.14);
    list.append(sublist);
    assert_eq!(list.at(0).unwrap().at(0), Some(3.14));
    assert_eq!(list[0].as_ref().unwrap()[0], Some(3.14));
}

#[test]
fn dynamic_array_grows_past_min_size() {
    let mut list = DynamicArray::new_array();
    for i in 0..25u32 {
        list.append(i);
    }
    assert_eq!(list.length, 25);
    assert_eq!(list.at(0), Some(0));
    assert_eq!(list.at(24), Some(24));
    assert_eq!(list.at(25), None);
    assert_eq!(list[12], Some(12));
}

#[test]
fn test_stack() {
    let mut stack: Stack<usize> = Stack::new();
    stack.push(1);
    stack.push(2);
    stack.push(3);
    assert_eq!(stack.length(), 3);
    assert_eq!(stack.peek(), Some(&3));
    assert_eq!(stack.pop(), Some(3));
    assert_eq!(stack.pop(), Some(2));
    assert_eq!(stack.pop(), Some(1));
    assert_eq!(stack.pop(), None);
    assert_eq!(stack.is_empty(), true);
}

#[test]
fn test_list_new_empty() {
    let mut list: List<i32> = List::new_empty();
    assert_eq!(list.length, 0);
    assert_eq!(list.pop(), None);
}

#[test]
fn test_list_append() {
    let mut list = List::new_empty();
    list.append(1);
    list.append(1);
    list.append(1);
    list.append(1);
    list.append(1);
    assert_eq!(list.length, 5);
}

#[test]
fn test_list_pop() {
    let mut list = List::new_empty();
    list.append(1);
    list.append(1);
    list.append(1);
    list.append(1);
    list.append(1);
    assert_eq!(list.length, 5);
    assert_eq!(list.pop(), Some(1));
    assert_eq!(list.pop(), Some(1));
    assert_eq!(list.pop(), Some(1));
    assert_eq!(list.pop(), Some(1));
    assert_eq!(list.pop(), Some(1));
    assert_eq!(list.length, 0);
    assert_eq!(list.pop(), None);
}

#[test]
fn list_pops_in_append_order() {
    let mut list = List::new_empty();
    list.append(1);
    list.append(2);
    list.append(3);
    assert_eq!(list.pop(), Some(1));
    assert_eq!(list.pop(), Some(2));
    assert_eq!(list.length, 1);
}

#[test]
fn binary_search_tree_find_and_right_child() {
    let mut tree = BinarySearchTree::new();
    tree.add(5);
    tree.add(3);
    tree.add(7);
    assert_eq!(tree.length, 3);
    assert!(tree.find(3));
    assert!(tree.find(5));
    assert!(!tree.find(9));
    assert_eq!(tree.find_right(3), None);
    assert_eq!(tree.find_right(5), Some(7));
    assert_eq!(tree.find_right(9), None);
}

#[test]
fn binary_search_tree_equal_values_go_right() {
    let mut tree = BinarySearchTree::new();
    assert!(!tree.find(1));
    tree.add(4);
    tree.add(4);
    tree.add(2);
    tree.add(3);
    assert_eq!(tree.length, 4);
    assert_eq!(tree.find_right(4), Some(4));
    assert_eq!(tree.find_right(2), Some(3));
    assert!(tree.find(3));
}

#[test]
fn u64_dynamic_array_add_get_remove() {
    let mut array = U64Array::new(2);
    array.add(3);
    array.add(4);
    array.add(5);
    assert_eq!(array.length, 3);
    assert_eq!(array.get(1), Some(4));
    assert_eq!(array.get(3), None);
    assert_eq!(array.remove(), Some(5));
    assert_eq!(array.length, 2);
    assert_eq!(array.remove(), Some(4));
    assert_eq!(array.remove(), Some(3));
    assert_eq!(array.remove(), None);
}

#[test]
fn transaction_log_queue() {
    let mut log = TransactionLog::new_empty();
    log.append("Hello".to_string());
    log.append("World".to_string());
    log.append("Rust".to_string());
    assert_eq!(log.get_all(), vec!["Hello", "World", "Rust"]);
    assert_eq!(log.pop(), Some("Hello".to_string()));
    assert_eq!(log.get_all(), vec!["World", "Rust"]);
    assert_eq!(log.peek(), Some("World".to_string()));
    assert_eq!(log.length, 2);
}

#[test]
fn better_transaction_log_walks_both_ways() {
    let mut log = BetterTransactionLog::new();
    for entry in ["hello", "world", "foo", "bar"] {
        log.append(entry.to_string());
    }
    assert_eq!(log.len(), 4);
    let mut it = log.iter();
    assert_eq!(it.next(), Some("hello".to_string()));
    assert_eq!(it.next(), Some("world".to_string()));
    assert_eq!(it.next(), Some("foo".to_string()));
    assert_eq!(it.next(), Some("bar".to_string()));
    assert_eq!(it.next(), None);
    let mut back = log.iter_back();
    assert_eq!(back.next_back(), Some("bar".to_string()));
    assert_eq!(back.next_back(), Some("foo".to_string()));
    assert_eq!(back.next(), Some("world".to_string()));
    assert_eq!(back.next(), Some("foo".to_string()));
    let empty = BetterTransactionLog::new();
    assert_eq!(empty.iter().next(), None);
}

#[test]
fn test_append_and_find() {
    let mut list = SkipList {
        head: None,
        tails: vec![None; 32],
        max_level: 32,
        length: 0,
        nodes: Vec::new(),
    };

    list.append(1, "hello".to_string());
    list.append(2, "world".to_string());
    list.append(3, "foo".to_string());
    list.append(4, "bar".to_string());

    assert_eq!(list.find(1), Some("hello".to_string()));
    assert_eq!(list.find(2), Some("world".to_string()));
    assert_eq!(list.find(3), Some("foo".to_string()));
    assert_eq!(list.find(4), Some("bar".to_string()));
    assert_eq!(list.find(5), None);
}

#[test]
fn skip_list_finds_every_entry_of_a_long_log() {
    let mut list = SkipList { head: None, tails: vec![None; 8], max_level: 8, length: 0, nodes: Vec::new() };
    for i in 0..200u64 {
        list.append(i * 3, format!("cmd{}", i));
    }
    assert_eq!(list.length, 200);
    for i in 0..200u64 {
        assert_eq!(list.find(i * 3), Some(format!("cmd{}", i)));
        assert_eq!(list.find(i * 3 + 1), None);
    }
}

#[test]
fn binary_search_tree_layout_rows() {
    let mut tree = BinarySearchTree::new();
    assert_eq!(tree.layout(), vec![]);
    tree.add(5);
    tree.add(3);
    tree.add(7);
    tree.add(6);
    assert_eq!(tree.layout(), vec![(1, 7), (2, 6), (0, 5), (1, 3)]);
}
