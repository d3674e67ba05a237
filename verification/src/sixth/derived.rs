//! What the list offers on top of its iterators and its length: bulk
//! construction and extension, cloning, equality, hashing and a textual
//! rendering. Nothing here reads the links.
use super::LinkedList;
use std::fmt::Debug;
use std::hash::{Hash, Hasher};
use vstd::prelude::*;
use vstd::std_specs::cmp::PartialEqSpec;
use vstd::std_specs::cmp::PartialEqSpecImpl;
use vstd::string::StringExecFns;

verus! {

impl<T> LinkedList<T> {
    /// Appends the elements of `items` behind the last element, in their
    /// order.
    pub fn extend(&mut self, items: Vec<T>)
        ensures
            final(self)@ == old(self)@ + items@,
    {
        for item in source: items
            invariant
                self@ == old(self)@ + source.seq().take(source.index()),
        {
            assert(source.seq().take(source.index() + 1) =~= source.seq().take(
                source.index(),
            ).push(item));
            self.push_back(item);
        }
    }

    /// A list that holds the elements of `items`, in their order: the same as
    /// extending an empty list by `items`.
    pub fn from_vec(items: Vec<T>) -> (list: Self)
        ensures
            list@ == items@,
    {
        let mut list = LinkedList::new();
        list.extend(items);
        list
    }

    /// Removes every element, front first, and leaves the list empty.
    pub fn clear(&mut self)
        ensures
            final(self)@ == Seq::<T>::empty(),
    {
        loop
            ensures
                self@.len() == 0,
            decreases self@.len(),
        {
            match self.pop_front() {
                Some(_) => {},
                None => {
                    break ;
                },
            }
        }
    }
}

impl<T: Clone> Clone for LinkedList<T> {
    /// A new list, independent of this one, that holds a clone of every
    /// element in the same order.
    fn clone(&self) -> (copy: Self)
        ensures
            copy@.len() == self@.len(),
            forall|i: int| 0 <= i < self@.len() ==> cloned::<T>(self@[i], #[trigger] copy@[i]),
    {
        let mut copy = LinkedList::new();
        let mut iter = self.iter();
        loop
            invariant
                copy@.len() + iter@.len() == self@.len(),
                iter@ == self@.skip(copy@.len() as int),
                forall|i: int| 0 <= i < copy@.len() ==> cloned::<T>(self@[i], #[trigger] copy@[i]),
            ensures
                copy@.len() == self@.len(),
                forall|i: int| 0 <= i < copy@.len() ==> cloned::<T>(self@[i], #[trigger] copy@[i]),
            decreases iter@.len(),
        {
            match iter.next() {
                None => {
                    break ;
                },
                Some(elem) => {
                    copy.push_back(elem.clone());
                },
            }
        }
        copy
    }
}

impl<T: PartialEq> PartialEq for LinkedList<T> {
    /// Two lists are equal when they have the same length and their elements
    /// are pairwise equal, front to back. Lists of different lengths are
    /// told apart without looking at any element.
    fn eq(&self, other: &Self) -> (equal: bool) {
        if self.len() != other.len() {
            return false;
        }
        let mut left = self.iter();
        let mut right = other.iter();
        let ghost mut done: int = 0;
        loop
            invariant
                self@.len() == other@.len(),
                0 <= done <= self@.len(),
                left@ == self@.skip(done),
                right@ == other@.skip(done),
                T::obeys_eq_spec() ==> forall|i: int|
                    0 <= i < done ==> self@[i].eq_spec(&other@[i]),
            ensures
                T::obeys_eq_spec() ==> forall|i: int|
                    0 <= i < self@.len() ==> self@[i].eq_spec(&other@[i]),
            decreases self@.len() - done,
        {
            match left.next() {
                None => {
                    break ;
                },
                Some(a) => {
                    match right.next() {
                        None => {
                            break ;
                        },
                        Some(b) => {
                            if *a != *b {
                                return false;
                            }
                            proof {
                                done = done + 1;
                            }
                        },
                    }
                },
            }
        }
        true
    }
}

/// Equality of lists is an equivalence wherever equality of elements is.
impl<T: Eq> Eq for LinkedList<T> {

}

impl<T: PartialEq> PartialEqSpecImpl for LinkedList<T> {
    open spec fn obeys_eq_spec() -> bool {
        T::obeys_eq_spec()
    }

    open spec fn eq_spec(&self, other: &Self) -> bool {
        &&& self@.len() == other@.len()
        &&& forall|i: int| 0 <= i < self@.len() ==> self@[i].eq_spec(&other@[i])
    }
}

/// `Hasher::write_usize`: feeds one `usize` into the hash state. Nothing is
/// claimed of the state afterwards.
#[verifier::external_body]
fn feed_len<H: Hasher>(state: &mut H, len: usize) {
    state.write_usize(len);
}

/// `Hash::hash`: feeds one element into the hash state. Nothing is claimed
/// of the state afterwards.
#[verifier::external_body]
fn feed_elem<T: Hash, H: Hasher>(state: &mut H, elem: &T) {
    elem.hash(state);
}

impl<T: Hash> Hash for LinkedList<T> {
    /// Feeds the length and then every element, front to back, into `state`.
    fn hash<H: Hasher>(&self, state: &mut H) {
        feed_len(state, self.len());
        let mut iter = self.iter();
        loop
            decreases iter@.len(),
        {
            match iter.next() {
                None => {
                    break ;
                },
                Some(elem) => {
                    feed_elem(state, elem);
                },
            }
        }
    }
}

/// The texts of `parts`, each separated from the next by a comma and a
/// space.
pub open spec fn joined(parts: Seq<Seq<char>>) -> Seq<char>
    decreases parts.len(),
{
    if parts.len() == 0 {
        Seq::empty()
    } else if parts.len() == 1 {
        parts[0]
    } else {
        joined(parts.drop_last()) + ", "@ + parts.last()
    }
}

/// The sequence-style text of `parts`: the joined texts between square
/// brackets.
pub open spec fn bracketed(parts: Seq<Seq<char>>) -> Seq<char> {
    "["@ + joined(parts) + "]"@
}

/// The views of the strings of `texts`.
pub open spec fn texts_of(texts: Seq<String>) -> Seq<Seq<char>> {
    Seq::new(texts.len(), |i: int| texts[i]@)
}

/// Renders `parts`, the texts of a sequence's elements in order, as one
/// sequence-style text: `[]` for no element, `[a, b, c]` for three.
pub fn render_sequence(parts: &Vec<String>) -> (text: String)
    ensures
        text@ == bracketed(texts_of(parts@)),
{
    let mut text = String::new();
    text.append("[");
    let ghost all = texts_of(parts@);
    let mut i: usize = 0;
    while i < parts.len()
        invariant
            i <= parts.len(),
            all == texts_of(parts@),
            text@ == "["@ + joined(all.take(i as int)),
        decreases parts.len() - i,
    {
        proof {
            assert(all.take(i + 1).drop_last() =~= all.take(i as int));
            assert(all.take(i + 1).last() == parts@[i as int]@);
        }
        if i > 0 {
            text.append(", ");
        }
        text.append(parts[i].as_str());
        assert(text@ =~= "["@ + joined(all.take(i + 1)));
        i = i + 1;
    }
    assert(all.take(parts.len() as int) =~= all);
    text.append("]");
    text
}

/// `format!("{:?}", elem)`: the element's own debug text. Nothing is claimed
/// of the text.
#[verifier::external_body]
fn debug_text<T: Debug>(elem: &T) -> (text: String) {
    format!("{:?}", elem)
}

impl<T: Debug> LinkedList<T> {
    /// The list's debug rendering: the debug texts of its elements, front to
    /// back, as one sequence-style text.
    pub fn debug_string(&self) -> (text: String)
        ensures
            exists|parts: Seq<Seq<char>>|
                parts.len() == self@.len() && text@ == #[trigger] bracketed(parts),
    {
        let mut parts: Vec<String> = Vec::new();
        let mut iter = self.iter();
        loop
            invariant
                parts@.len() + iter@.len() == self@.len(),
            ensures
                parts@.len() == self@.len(),
            decreases iter@.len(),
        {
            match iter.next() {
                None => {
                    break ;
                },
                Some(elem) => {
                    parts.push(debug_text(elem));
                },
            }
        }
        let text = render_sequence(&parts);
        assert(texts_of(parts@).len() == self@.len());
        text
    }
}

} // verus!
