use data_structure::linked_list::LinkedList;
use data_structure::node::Node;

fn values(list: &LinkedList<i32>) -> Vec<i32> {
    let mut out = Vec::new();
    let mut i = 0;
    while let Some(val) = list.get(i) {
        out.push(*val);
        i += 1;
    }
    out
}

fn list_of(vals: &[i32]) -> LinkedList<i32> {
    let mut list = LinkedList::<i32>::new();
    for v in vals {
        list.insert_at_tail(*v);
    }
    list
}

#[test]
fn insert_at_tail_works() {
    let mut list = LinkedList::<i32>::new();
    let second_value = 2;
    list.insert_at_tail(1);
    list.insert_at_tail(second_value);
    println!("Linked List is {}", list.to_string());
    match list.get(1) {
        Some(val) => assert_eq!(*val, second_value),
        None => panic!("Expected to find {second_value} at index 1"),
    }
}

#[test]
fn insert_at_head_works() {
    let mut list = LinkedList::<i32>::new();
    let second_value = 2;
    list.insert_at_head(1);
    list.insert_at_head(second_value);
    println!("Linked List is {}", list.to_string());
    match list.get(0) {
        Some(val) => assert_eq!(*val, second_value),
        None => panic!("Expected to find {second_value} at index 0"),
    }
}

#[test]
fn insert_at_ith_can_add_to_tail() {
    let mut list = LinkedList::<i32>::new();
    let second_value = 2;
    list.insert_at_ith(0, 0);
    list.insert_at_ith(1, second_value);
    println!("Linked List is {}", list.to_string());
    match list.get(1) {
        Some(val) => assert_eq!(*val, second_value),
        None => panic!("Expected to find {second_value} at index 1"),
    }
}

#[test]
fn insert_at_ith_can_add_to_head() {
    let mut list = LinkedList::<i32>::new();
    let second_value = 2;
    list.insert_at_ith(0, 1);
    list.insert_at_ith(0, second_value);
    println!("Linked List is {}", list.to_string());
    match list.get(0) {
        Some(val) => assert_eq!(*val, second_value),
        None => panic!("Expected to find {second_value} at index 0"),
    }
}

#[test]
fn insert_at_ith_can_add_to_middle() {
    let mut list = LinkedList::<i32>::new();
    let second_value = 2;
    let third_value = 3;
    list.insert_at_ith(0, 1);
    list.insert_at_ith(1, second_value);
    list.insert_at_ith(1, third_value);
    println!("Linked List is {}", list.to_string());
    match list.get(1) {
        Some(val) => assert_eq!(*val, third_value),
        None => panic!("Expected to find {third_value} at index 1"),
    }

    match list.get(2) {
        Some(val) => assert_eq!(*val, second_value),
        None => panic!("Expected to find {second_value} at index 1"),
    }
}

#[test]
fn insert_at_ith_and_delete_at_ith_in_the_middle() {
    // Insert and delete in the middle of the list to ensure the links are updated correctly
    let mut list = LinkedList::<i32>::new();
    let first_value = 0;
    let second_value = 1;
    let third_value = 2;
    let fourth_value = 3;

    list.insert_at_ith(0, first_value);
    list.insert_at_ith(1, fourth_value);
    list.insert_at_ith(1, third_value);
    list.insert_at_ith(1, second_value);

    list.delete_ith(2);
    list.insert_at_ith(2, third_value);

    for (i, expected) in [
        (0, first_value),
        (1, second_value),
        (2, third_value),
        (3, fourth_value),
    ] {
        match list.get(i) {
            Some(val) => assert_eq!(*val, expected),
            None => panic!("Expected to find {expected} at index {i}"),
        }
    }
}

#[test]
fn insert_at_ith_and_delete_ith_work_over_many_iterations() {
    let mut list = LinkedList::<i32>::new();
    for i in 0..100 {
        list.insert_at_ith(i, i.try_into().unwrap());
    }

    for i in 0..50 {
        println!("list.length {}", list.length);
        if i % 2 == 0 {
            list.delete_ith(i);
        }
    }

    assert_eq!(list.length, 75);

    // Insert even numbers back
    for i in 0..50 {
        if i % 2 == 0 {
            list.insert_at_ith(i, i.try_into().unwrap());
        }
    }

    assert_eq!(list.length, 100);

    // Ensure numbers were added back and we're able to traverse nodes
    if let Some(val) = list.get(78) {
        assert_eq!(*val, 78);
    } else {
        panic!("Expected to find 78 at index 78");
    }
}

#[test]
fn new_list_is_empty() {
    let list = LinkedList::<i32>::new();
    assert_eq!(list.length, 0);
    assert!(list.head.is_none());
    assert!(list.tail.is_none());
    assert!(list.get(0).is_none());
    assert_eq!(list.to_string(), "");
}

#[test]
fn default_list_is_empty() {
    let list: LinkedList<i32> = Default::default();
    assert_eq!(list.length, 0);
    assert!(list.head.is_none());
    assert!(list.tail.is_none());
}

#[test]
fn node_new_has_no_neighbours() {
    let node = Node::new(7);
    assert_eq!(node.val, 7);
    assert!(node.next.is_none());
    assert!(node.prev.is_none());
}

#[test]
fn tail_inserts_are_found_in_the_order_of_insertion() {
    let mut list = LinkedList::<i32>::new();
    let inserted = [5, -1, 8, 8, 0, 13];
    for v in inserted {
        list.insert_at_tail(v);
    }
    for (i, v) in inserted.iter().enumerate() {
        assert_eq!(list.get(i as i32), Some(v));
    }
    assert_eq!(list.length, 6);
    assert_eq!(list.get(6), None);
}

#[test]
fn head_insert_is_always_found_at_index_zero() {
    let mut list = LinkedList::<i32>::new();
    for v in [4, 9, 2, 7] {
        list.insert_at_head(v);
        assert_eq!(list.get(0), Some(&v));
    }
    assert_eq!(values(&list), vec![7, 2, 9, 4]);
}

#[test]
fn insert_at_ith_zero_is_insert_at_head() {
    let mut by_index = list_of(&[1, 2, 3]);
    let mut by_head = list_of(&[1, 2, 3]);
    by_index.insert_at_ith(0, 9);
    by_head.insert_at_head(9);
    assert_eq!(values(&by_index), vec![9, 1, 2, 3]);
    assert_eq!(values(&by_index), values(&by_head));
    assert_eq!(by_index.length, by_head.length);
}

#[test]
fn insert_at_ith_length_is_insert_at_tail() {
    let mut by_index = list_of(&[1, 2, 3]);
    let mut by_tail = list_of(&[1, 2, 3]);
    by_index.insert_at_ith(3, 9);
    by_tail.insert_at_tail(9);
    assert_eq!(values(&by_index), vec![1, 2, 3, 9]);
    assert_eq!(values(&by_index), values(&by_tail));
    assert_eq!(by_index.length, by_tail.length);
}

#[test]
fn insert_then_delete_at_the_same_index_restores_the_list() {
    for i in 0..=4u32 {
        let mut list = list_of(&[10, 20, 30, 40]);
        list.insert_at_ith(i, 99);
        assert_eq!(list.length, 5);
        assert_eq!(list.get(i as i32), Some(&99));
        assert_eq!(list.delete_ith(i), Some(99));
        assert_eq!(values(&list), vec![10, 20, 30, 40]);
        assert_eq!(list.length, 4);
    }
}

#[test]
fn length_counts_inserts_less_deletes() {
    let mut list = LinkedList::<i32>::new();
    let mut inserts = 0u32;
    let mut deletes = 0u32;
    assert!(list.delete_head().is_none());
    assert!(list.delete_tail().is_none());
    assert!(list.delete_ith(0).is_none());
    assert_eq!(list.length, inserts - deletes);
    for v in 0..10 {
        list.insert_at_tail(v);
        inserts += 1;
        assert_eq!(list.length, inserts - deletes);
    }
    list.insert_at_head(-1);
    inserts += 1;
    list.insert_at_ith(4, -2);
    inserts += 1;
    assert_eq!(list.length, inserts - deletes);
    while list.length > 0 {
        let deleted = match list.length % 3 {
            0 => list.delete_head(),
            1 => list.delete_tail(),
            _ => list.delete_ith(1),
        };
        assert!(deleted.is_some());
        deletes += 1;
        assert_eq!(list.length, inserts - deletes);
    }
    assert_eq!(inserts, 12);
    assert_eq!(deletes, 12);
    assert!(list.delete_head().is_none());
    assert_eq!(list.length, 0);
}

#[test]
fn delete_head_on_empty_list_gives_nothing() {
    let mut list = LinkedList::<i32>::new();
    assert_eq!(list.delete_head(), None);
    assert_eq!(list.length, 0);
    assert!(list.head.is_none());
    assert!(list.tail.is_none());
}

#[test]
fn delete_tail_on_empty_list_gives_nothing() {
    let mut list = LinkedList::<i32>::new();
    assert_eq!(list.delete_tail(), None);
    assert_eq!(list.length, 0);
}

#[test]
fn delete_ith_on_empty_list_gives_nothing() {
    let mut list = LinkedList::<i32>::new();
    assert_eq!(list.delete_ith(0), None);
    assert_eq!(list.length, 0);
}

#[test]
fn get_outside_the_list_gives_nothing() {
    let list = list_of(&[1, 2, 3]);
    assert_eq!(list.get(2), Some(&3));
    assert_eq!(list.get(3), None);
    assert_eq!(list.get(4), None);
    assert_eq!(list.get(i32::MAX), None);
    assert_eq!(list.get(-1), None);
    assert_eq!(list.get(i32::MIN), None);
}

#[test]
fn positional_inserts_and_a_delete_in_the_middle() {
    let mut list = LinkedList::<i32>::new();
    list.insert_at_ith(0, 0);
    list.insert_at_ith(1, 3);
    list.insert_at_ith(1, 2);
    list.insert_at_ith(1, 1);
    assert_eq!(values(&list), vec![0, 1, 2, 3]);
    assert_eq!(list.delete_ith(2), Some(2));
    assert_eq!(values(&list), vec![0, 1, 3]);
    list.insert_at_ith(2, 2);
    assert_eq!(values(&list), vec![0, 1, 2, 3]);
}

#[test]
fn hundred_values_survive_deleting_and_reinserting_every_other_one() {
    let mut list = LinkedList::<i32>::new();
    for i in 0..100u32 {
        list.insert_at_ith(i, i as i32);
    }
    assert_eq!(values(&list), (0..100).collect::<Vec<i32>>());
    let mut removed = Vec::new();
    for i in 0..50u32 {
        if i % 2 == 0 {
            removed.push((i, list.delete_ith(i).unwrap()));
        }
    }
    assert_eq!(list.length, 75);
    assert_eq!(removed.len(), 25);
    assert_eq!(values(&list).len(), 75);
    for (i, v) in removed {
        list.insert_at_ith(i, v);
    }
    assert_eq!(list.length, 100);
    assert_eq!(list.get(78), Some(&78));
    assert_eq!(values(&list).len(), 100);
}

#[test]
fn delete_head_hands_out_the_first_value() {
    let mut list = list_of(&[1, 2, 3]);
    assert_eq!(list.delete_head(), Some(1));
    assert_eq!(values(&list), vec![2, 3]);
    assert_eq!(list.delete_head(), Some(2));
    assert_eq!(list.delete_head(), Some(3));
    assert_eq!(list.delete_head(), None);
    assert!(list.head.is_none());
    assert!(list.tail.is_none());
}

#[test]
fn delete_tail_hands_out_the_last_value() {
    let mut list = list_of(&[1, 2, 3]);
    assert_eq!(list.delete_tail(), Some(3));
    assert_eq!(values(&list), vec![1, 2]);
    assert_eq!(list.delete_tail(), Some(2));
    assert_eq!(list.delete_tail(), Some(1));
    assert_eq!(list.delete_tail(), None);
    assert!(list.head.is_none());
    assert!(list.tail.is_none());
}

#[test]
fn delete_ith_with_index_length_deletes_the_tail() {
    let mut list = list_of(&[1, 2, 3]);
    assert_eq!(list.delete_ith(3), Some(3));
    assert_eq!(values(&list), vec![1, 2]);
    assert_eq!(list.length, 2);
}

#[test]
fn delete_ith_of_the_last_position_keeps_the_tail_right() {
    let mut list = list_of(&[1, 2, 3]);
    assert_eq!(list.delete_ith(2), Some(3));
    assert_eq!(values(&list), vec![1, 2]);
    list.insert_at_tail(4);
    assert_eq!(values(&list), vec![1, 2, 4]);
    assert_eq!(list.delete_tail(), Some(4));
    assert_eq!(list.delete_tail(), Some(2));
    assert_eq!(values(&list), vec![1]);
}

#[test]
fn head_and_tail_name_the_same_node_in_a_list_of_one() {
    let mut list = LinkedList::<i32>::new();
    list.insert_at_head(1);
    assert!(list.head.is_some());
    assert_eq!(list.head, list.tail);
    list.insert_at_tail(2);
    assert_ne!(list.head, list.tail);
    list.delete_head();
    assert_eq!(list.head, list.tail);
    list.delete_tail();
    assert!(list.head.is_none());
    assert!(list.tail.is_none());
}

#[test]
fn list_owns_values_that_are_not_copied() {
    let mut list = LinkedList::<String>::new();
    list.insert_at_tail(String::from("b"));
    list.insert_at_head(String::from("a"));
    list.insert_at_ith(2, String::from("c"));
    assert_eq!(list.to_string(), "a, b, c");
    assert_eq!(list.delete_ith(1), Some(String::from("b")));
    assert_eq!(list.get(1).map(|s| s.as_str()), Some("c"));
    assert_eq!(list.to_string(), "a, c");
}

#[test]
fn to_string_separates_values_by_comma_and_space() {
    assert_eq!(list_of(&[]).to_string(), "");
    assert_eq!(list_of(&[7]).to_string(), "7");
    assert_eq!(list_of(&[1, 2]).to_string(), "1, 2");
    assert_eq!(list_of(&[0, -1, 22, 3]).to_string(), "0, -1, 22, 3");
}

#[test]
fn node_to_string_shows_the_node_and_those_behind_it() {
    let list = list_of(&[1, 2, 3]);
    let first = list.head.unwrap();
    assert_eq!(list.node_to_string(first), "1, 2, 3");
    let second = list.pool.get(first).next.unwrap();
    assert_eq!(list.node_to_string(second), "2, 3");
    let last = list.tail.unwrap();
    assert_eq!(list.node_to_string(last), "3");
}

#[test]
fn links_run_both_ways_after_inserts_and_deletes() {
    let mut list = LinkedList::<i32>::new();
    for i in 0..10u32 {
        list.insert_at_ith(i / 2, i as i32);
    }
    list.delete_ith(3);
    list.delete_head();
    list.delete_tail();
    list.insert_at_ith(2, 77);
    let expected = values(&list);
    assert_eq!(expected.len(), list.length as usize);

    let mut forward = Vec::new();
    let mut cur = list.head;
    assert_eq!(list.pool.get(cur.unwrap()).prev, None);
    while let Some(h) = cur {
        let node = list.pool.get(h);
        forward.push(node.val);
        if node.next.is_none() {
            assert_eq!(list.tail, Some(h));
        }
        cur = node.next;
    }
    assert_eq!(forward, expected);

    let mut backward = Vec::new();
    let mut cur = list.tail;
    while let Some(h) = cur {
        let node = list.pool.get(h);
        backward.push(node.val);
        if node.prev.is_none() {
            assert_eq!(list.head, Some(h));
        }
        cur = node.prev;
    }
    backward.reverse();
    assert_eq!(backward, expected);
}

#[test]
fn a_deleted_node_leaves_the_pool() {
    let mut list = list_of(&[1, 2, 3]);
    let first = list.head.unwrap();
    let second = list.pool.get(first).next.unwrap();
    assert!(list.pool.contains(second));
    assert_eq!(list.delete_ith(1), Some(2));
    assert!(!list.pool.contains(second));
    assert_eq!(list.pool.get(first).next, list.tail);
}
