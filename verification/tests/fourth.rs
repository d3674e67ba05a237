use linked_lists::fourth::{List, Node};

#[test]
fn fourth_basics() {
    let mut list = List::new();

    // Check empty list behaves right
    assert_eq!(list.pop_front(), None);

    // Populate list
    list.push_front(1);
    list.push_front(2);
    list.push_front(3);

    // Check normal removal
    assert_eq!(list.pop_front(), Some(3));
    assert_eq!(list.pop_front(), Some(2));

    // Push some more just to make sure nothing's corrupted
    list.push_front(4);
    list.push_front(5);

    // Check normal removal
    assert_eq!(list.pop_front(), Some(5));
    assert_eq!(list.pop_front(), Some(4));

    // Check exhaustion
    assert_eq!(list.pop_front(), Some(1));
    assert_eq!(list.pop_front(), None);

    // ---- back -----

    // Check empty list behaves right
    assert_eq!(list.pop_back(), None);

    // Populate list
    list.push_back(1);
    list.push_back(2);
    list.push_back(3);

    // Check normal removal
    assert_eq!(list.pop_back(), Some(3));
    assert_eq!(list.pop_back(), Some(2));

    // Push some more just to make sure nothing's corrupted
    list.push_back(4);
    list.push_back(5);

    // Check normal removal
    assert_eq!(list.pop_back(), Some(5));
    assert_eq!(list.pop_back(), Some(4));

    // Check exhaustion
    assert_eq!(list.pop_back(), Some(1));
    assert_eq!(list.pop_back(), None);
}

#[test]
fn fourth_peek() {
    let mut list = List::new();
    assert!(list.peek_front().is_none());
    assert!(list.peek_back().is_none());
    assert!(list.peek_front_mut().is_none());
    assert!(list.peek_back_mut().is_none());

    list.push_front(1);
    list.push_front(2);
    list.push_front(3);

    assert_eq!(&*list.peek_front().unwrap(), &3);
    assert_eq!(&mut *list.peek_front_mut().unwrap(), &mut 3);
    assert_eq!(&*list.peek_back().unwrap(), &1);
    assert_eq!(&mut *list.peek_back_mut().unwrap(), &mut 1);
}

#[test]
fn fourth_into_iter() {
    let mut list = List::new();
    list.push_front(1);
    list.push_front(2);
    list.push_front(3);

    let mut iter = list.into_iter();
    assert_eq!(iter.next(), Some(3));
    assert_eq!(iter.next_back(), Some(1));
    assert_eq!(iter.next(), Some(2));
    assert_eq!(iter.next_back(), None);
    assert_eq!(iter.next(), None);
}

#[test]
fn fourth_node_new_is_unlinked() {
    let node = Node::new(7);
    assert_eq!(node.elem, 7);
    assert_eq!(node.prev, None);
    assert_eq!(node.next, None);
}

#[test]
fn fourth_peek_mut_writes_through() {
    let mut list = List::new();
    list.push_back(1);
    list.push_back(2);
    list.push_back(3);
    *list.peek_front_mut().unwrap() = 10;
    *list.peek_back_mut().unwrap() = 30;
    assert_eq!(list.pop_front(), Some(10));
    assert_eq!(list.pop_front(), Some(2));
    assert_eq!(list.pop_front(), Some(30));
    assert_eq!(list.pop_front(), None);
}

#[test]
fn fourth_mixed_ends_reuse_nodes() {
    let mut list = List::new();
    let mut round: u32 = 0;
    while round < 50 {
        list.push_back(round);
        list.push_front(round + 1000);
        assert_eq!(list.pop_back(), Some(round));
        list.push_back(round + 2000);
        assert_eq!(list.pop_front(), Some(round + 1000));
        round += 1;
    }
    let mut expected: u32 = 2000;
    while expected < 2050 {
        assert_eq!(list.pop_front(), Some(expected));
        expected += 1;
    }
    assert_eq!(list.pop_front(), None);
    assert_eq!(list.pop_back(), None);
}
