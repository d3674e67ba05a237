//! Lexicographic ordering of lists, decided by the elements' own ordering.
use super::LinkedList;
use std::cmp::Ordering;
use vstd::prelude::*;
use vstd::std_specs::cmp::PartialOrdSpec;
use vstd::std_specs::cmp::PartialOrdSpecImpl;

verus! {

/// The lexicographic comparison of two sequences: the first pair of elements
/// that does not compare as equal decides, an incomparable pair makes the
/// sequences incomparable, and a sequence that runs out first is the lesser.
pub open spec fn lexical<T: PartialOrd>(left: Seq<T>, right: Seq<T>) -> Option<Ordering>
    decreases left.len(),
{
    if left.len() == 0 {
        if right.len() == 0 {
            Some(Ordering::Equal)
        } else {
            Some(Ordering::Less)
        }
    } else if right.len() == 0 {
        Some(Ordering::Greater)
    } else {
        match left[0].partial_cmp_spec(&right[0]) {
            Some(Ordering::Equal) => lexical(left.drop_first(), right.drop_first()),
            decided => decided,
        }
    }
}

impl<T: PartialOrd> PartialOrd for LinkedList<T> {
    /// Compares two lists lexicographically, front to back.
    fn partial_cmp(&self, other: &Self) -> (order: Option<Ordering>) {
        let mut left = self.iter();
        let mut right = other.iter();
        loop
            invariant
                T::obeys_partial_cmp_spec() ==> lexical(self@, other@) == lexical(left@, right@),
            decreases left@.len(),
        {
            match left.next() {
                None => {
                    return match right.next() {
                        None => Some(Ordering::Equal),
                        Some(_) => Some(Ordering::Less),
                    };
                },
                Some(a) => {
                    match right.next() {
                        None => {
                            return Some(Ordering::Greater);
                        },
                        Some(b) => {
                            match a.partial_cmp(b) {
                                Some(Ordering::Equal) => {},
                                decided => {
                                    return decided;
                                },
                            }
                        },
                    }
                },
            }
        }
    }
}

impl<T: PartialOrd> PartialOrdSpecImpl for LinkedList<T> {
    open spec fn obeys_partial_cmp_spec() -> bool {
        T::obeys_partial_cmp_spec()
    }

    open spec fn partial_cmp_spec(&self, other: &Self) -> Option<Ordering> {
        lexical(self@, other@)
    }
}

} // verus!
