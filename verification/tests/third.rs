use linked_lists::third::List;

#[test]
fn third_basics() {
    let list = List::new();
    assert_eq!(list.head(), None);

    let list = list.prepend(1).prepend(2).prepend(3);
    assert_eq!(list.head(), Some(&3));

    let list = list.tail();
    assert_eq!(list.head(), Some(&2));

    let list = list.tail();
    assert_eq!(list.head(), Some(&1));

    let list = list.tail();
    assert_eq!(list.head(), None);

    // Make sure empty tail works
    let list = list.tail();
    assert_eq!(list.head(), None);
}

#[test]
fn third_prepend_shares_the_tail() {
    let base = List::new().prepend(1).prepend(2);
    let left = base.prepend(10);
    let right = base.prepend(20);
    assert_eq!(left.head(), Some(&10));
    assert_eq!(right.head(), Some(&20));
    assert_eq!(left.tail().head(), Some(&2));
    assert_eq!(right.tail().head(), Some(&2));
    assert_eq!(right.tail().tail().head(), Some(&1));
    drop(left);
    assert_eq!(base.head(), Some(&2));
    assert_eq!(right.tail().tail().head(), Some(&1));
}

#[test]
fn third_drop_long_list() {
    let mut list = List::new();
    let mut i: u32 = 0;
    while i < 200_000 {
        list = list.prepend(i);
        i += 1;
    }
    assert_eq!(list.head(), Some(&199_999));
}
