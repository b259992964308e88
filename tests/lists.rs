use deet::linked_list::LinkedList;
use deet::ll;

#[test]
fn u32_list_push_and_pop() {
    let mut list = ll::LinkedList::new();
    assert!(list.is_empty());
    assert_eq!(list.pop(), None);
    list.push(11);
    list.push(21);
    list.push(22);
    list.push(31);
    assert_eq!(list.get_size(), 4);
    assert!(!list.is_empty());
    assert_eq!(list.pop(), Some(31));
    assert_eq!(list.get_size(), 3);
}

#[test]
fn generic_list_front_operations() {
    let mut list: LinkedList<u32> = LinkedList::new();
    assert!(list.is_empty());
    assert_eq!(list.get_size(), 0);
    for i in 1..12 {
        list.push_front(i);
    }
    assert_eq!(list.get_size(), 11);
    assert_eq!(list.pop_front(), Some(11));
    assert_eq!(list.get_size(), 10);
}

#[test]
fn generic_list_iterates_front_first() {
    let mut list: LinkedList<String> = LinkedList::new();
    list.push_front("c".to_string());
    list.push_front("b".to_string());
    list.push_front("a".to_string());
    let mut it = list.iter();
    let mut seen = Vec::new();
    while let Some(v) = it.next() {
        seen.push(v.clone());
    }
    assert_eq!(seen, vec!["a", "b", "c"]);
    assert_eq!(list.get_size(), 3);
}

#[test]
fn nodes_chain_values() {
    let tail = ll::Node::new(2, None);
    let _head = ll::Node::new(1, Some(Box::new(tail)));
    let t = deet::linked_list::Node::new("x", None);
    let _h = deet::linked_list::Node::new("y", Some(Box::new(t)));
}
