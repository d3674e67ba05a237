use linked_lists::sixth::laws::Op;
use linked_lists::sixth::{render_sequence, LinkedList};
use std::cmp::Ordering;
use std::collections::hash_map::DefaultHasher;
use std::collections::HashMap;
use std::hash::{Hash, Hasher};

fn range(from: i32, to: i32) -> Vec<i32> {
    let mut items = Vec::new();
    let mut i = from;
    while i < to {
        items.push(i);
        i += 1;
    }
    items
}

fn hash_of(list: &LinkedList<i32>) -> u64 {
    let mut state = DefaultHasher::new();
    list.hash(&mut state);
    state.finish()
}

fn collect(list: &LinkedList<i32>) -> Vec<i32> {
    let mut out = Vec::new();
    let mut iter = list.iter();
    while let Some(value) = iter.next() {
        out.push(*value);
    }
    out
}

#[test]
fn sixth_equality_and_hash() {
    let a = LinkedList::from_vec(range(0, 10));
    let b = LinkedList::from_vec(range(0, 10));
    let c = LinkedList::from_vec(range(1, 11));
    assert!(a == b);
    assert_eq!(hash_of(&a), hash_of(&b));
    assert!(a != c);
    assert_eq!(a.partial_cmp(&c), Some(Ordering::Less));
    assert_eq!(c.partial_cmp(&a), Some(Ordering::Greater));
    assert!(a < c);
    assert!(!(a > c));
    assert!(c > a);
    assert!(a <= b);
    assert!(a >= b);
    assert_eq!(a.partial_cmp(&b), Some(Ordering::Equal));
}

#[test]
fn sixth_hash_feeds_length_then_elements() {
    let list = LinkedList::from_vec(vec![7, 8, 9]);
    let mut expected = DefaultHasher::new();
    expected.write_usize(3);
    7i32.hash(&mut expected);
    8i32.hash(&mut expected);
    9i32.hash(&mut expected);
    assert_eq!(hash_of(&list), expected.finish());
}

#[test]
fn sixth_hash_does_not_depend_on_how_the_list_was_built() {
    let mut built = LinkedList::new();
    built.push_front(2);
    built.push_front(99);
    built.push_back(3);
    built.push_front(1);
    assert_eq!(built.pop_back(), Some(3));
    built.push_back(3);
    let mut scrambled = LinkedList::new();
    scrambled.push_back(1);
    scrambled.push_back(99);
    scrambled.push_back(2);
    scrambled.push_back(3);
    let direct = LinkedList::from_vec(vec![1, 99, 2, 3]);
    assert!(built == direct);
    assert!(scrambled == direct);
    assert_eq!(hash_of(&built), hash_of(&direct));
    let mut map = HashMap::new();
    map.insert(direct, "found");
    assert_eq!(map.get(&built), Some(&"found"));
}

#[test]
fn sixth_equality_short_circuits_on_length() {
    let a = LinkedList::from_vec(vec![1, 2, 3]);
    let b = LinkedList::from_vec(vec![1, 2]);
    let empty: LinkedList<i32> = LinkedList::new();
    assert!(a != b);
    assert!(b != a);
    assert!(empty != a);
    assert!(empty == LinkedList::new());
}

#[test]
fn sixth_ordering_is_lexicographic() {
    let short = LinkedList::from_vec(vec![1, 2]);
    let long = LinkedList::from_vec(vec![1, 2, 0]);
    let other = LinkedList::from_vec(vec![1, 3]);
    let empty: LinkedList<i32> = LinkedList::new();
    assert_eq!(short.partial_cmp(&long), Some(Ordering::Less));
    assert_eq!(long.partial_cmp(&short), Some(Ordering::Greater));
    assert_eq!(long.partial_cmp(&other), Some(Ordering::Less));
    assert_eq!(empty.partial_cmp(&short), Some(Ordering::Less));
    assert_eq!(short.partial_cmp(&empty), Some(Ordering::Greater));
    assert_eq!(empty.partial_cmp(&LinkedList::new()), Some(Ordering::Equal));
}

#[test]
fn sixth_ordering_propagates_incomparable_elements() {
    let a = LinkedList::from_vec(vec![1.0f64, f64::NAN, 3.0]);
    let b = LinkedList::from_vec(vec![1.0f64, 2.0, 3.0]);
    let c = LinkedList::from_vec(vec![0.5f64, f64::NAN]);
    assert_eq!(a.partial_cmp(&b), None);
    assert_eq!(b.partial_cmp(&a), None);
    assert_eq!(c.partial_cmp(&a), Some(Ordering::Less));
    assert!(!(a < b));
    assert!(!(a > b));
    assert!(a != b);
}

#[test]
fn sixth_debug_rendering() {
    let empty: LinkedList<i32> = LinkedList::new();
    assert_eq!(empty.debug_string(), "[]");
    let list = LinkedList::from_vec(vec![0, 1, 2]);
    assert_eq!(list.debug_string(), "[0, 1, 2]");
    assert_eq!(list.debug_string(), format!("{:?}", vec![0, 1, 2]));
    let one = LinkedList::from_vec(vec!["a"]);
    assert_eq!(one.debug_string(), "[\"a\"]");
}

#[test]
fn sixth_render_sequence_joins_with_comma_and_space() {
    assert_eq!(render_sequence(&Vec::new()), "[]");
    assert_eq!(render_sequence(&vec![String::from("x")]), "[x]");
    assert_eq!(
        render_sequence(&vec![String::from("x"), String::from(""), String::from("z z")]),
        "[x, , z z]"
    );
}

#[test]
fn sixth_clone_is_independent() {
    let mut source = LinkedList::from_vec(vec![1, 2, 3]);
    let mut copy = source.clone();
    assert!(source == copy);
    *copy.front_mut().unwrap() = 100;
    copy.push_back(4);
    assert_eq!(collect(&source), vec![1, 2, 3]);
    assert_eq!(collect(&copy), vec![100, 2, 3, 4]);
    assert_eq!(source.pop_front(), Some(1));
    assert_eq!(collect(&copy), vec![100, 2, 3, 4]);
}

#[test]
fn sixth_extend_appends_in_order() {
    let mut list = LinkedList::new();
    list.push_back(1);
    list.extend(vec![2, 3]);
    list.extend(Vec::new());
    list.extend(vec![4]);
    assert_eq!(collect(&list), vec![1, 2, 3, 4]);
    assert_eq!(list.len(), 4);
    let mut fresh = LinkedList::new();
    fresh.extend(vec![1, 2, 3, 4]);
    assert!(fresh == list);
    assert!(LinkedList::from_vec(vec![1, 2, 3, 4]) == list);
}

#[test]
fn sixth_clear_empties_the_list() {
    let mut list = LinkedList::from_vec(range(0, 1000));
    list.clear();
    assert_eq!(list.len(), 0);
    assert_eq!(list.front(), None);
    assert_eq!(list.back(), None);
    list.push_back(5);
    assert_eq!(collect(&list), vec![5]);
}

#[test]
fn sixth_perform_follows_the_operations() {
    let mut list = LinkedList::new();
    assert_eq!(list.perform(Op::PopFront), None);
    assert_eq!(list.perform(Op::PushFront(1)), None);
    assert_eq!(list.perform(Op::PushBack(2)), None);
    assert_eq!(list.perform(Op::PushFront(0)), None);
    assert_eq!(list.len(), 3);
    assert_eq!(list.perform(Op::PopBack), Some(2));
    assert_eq!(list.perform(Op::PopFront), Some(0));
    assert_eq!(list.perform(Op::PopBack), Some(1));
    assert_eq!(list.perform(Op::PopBack), None);
    assert_eq!(list.len(), 0);
}

#[test]
fn sixth_long_list_is_torn_down_without_deep_recursion() {
    let mut list = LinkedList::new();
    let mut i: u32 = 0;
    while i < 300_000 {
        list.push_back(i);
        i += 1;
    }
    assert_eq!(list.len(), 300_000);
    assert_eq!(list.back(), Some(&299_999));
}

fn needs_send<T: Send>(_value: &T) {}

fn needs_sync<T: Sync>(_value: &T) {}

fn shorten<'a>(list: LinkedList<&'static str>, _witness: &'a str) -> LinkedList<&'a str> {
    list
}

#[test]
fn sixth_list_and_iterators_cross_threads_when_elements_do() {
    let mut list = LinkedList::from_vec(vec![1, 2, 3]);
    needs_send(&list);
    needs_sync(&list);
    needs_send(&list.iter());
    needs_sync(&list.iter());
    needs_send(&list.iter_mut());
    needs_sync(&list.iter_mut());
}

#[test]
fn sixth_list_is_covariant_in_its_element_type() {
    let local = String::from("short-lived");
    let list = shorten(LinkedList::from_vec(vec!["a", "b"]), local.as_str());
    assert_eq!(list.front(), Some(&"a"));
    assert_eq!(list.len(), 2);
}
