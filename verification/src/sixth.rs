//! A double-ended linked list with constant-time insertion and removal at
//! both ends, boundary accessors, and consuming, borrowing and mutably
//! borrowing double-ended iteration.
use crate::chain::Chain;
use vstd::prelude::*;

mod derived;
pub mod laws;
mod order;

pub use derived::{bracketed, joined, render_sequence, texts_of};
pub use order::lexical;

verus! {

pub use crate::chain::Cursor;

/// A doubly-linked sequence of `T`. Its model is the sequence of its
/// elements, front to back.
pub struct LinkedList<T> {
    chain: Chain<T>,
}

impl<T> View for LinkedList<T> {
    type V = Seq<T>;

    /// The elements, front to back.
    closed spec fn view(&self) -> Seq<T> {
        self.chain.items()
    }
}

impl<T> LinkedList<T> {
    /// The links of the list are in good order: see `Chain::wf`.
    #[verifier::type_invariant]
    spec fn linked(self) -> bool {
        self.chain.wf()
    }

    /// Creates an empty list.
    pub fn new() -> (list: Self)
        ensures
            list@ == Seq::<T>::empty(),
    {
        LinkedList { chain: Chain::new() }
    }

    /// Inserts `elem` in front of the first element.
    pub fn push_front(&mut self, elem: T)
        ensures
            final(self)@ == seq![elem] + old(self)@,
    {
        proof {
            use_type_invariant(&*self);
        }
        let mut chain = Chain::new();
        std::mem::swap(&mut chain, &mut self.chain);
        chain.push_front(elem);
        self.chain = chain;
    }

    /// Appends `elem` behind the last element.
    pub fn push_back(&mut self, elem: T)
        ensures
            final(self)@ == old(self)@.push(elem),
    {
        proof {
            use_type_invariant(&*self);
        }
        let mut chain = Chain::new();
        std::mem::swap(&mut chain, &mut self.chain);
        chain.push_back(elem);
        self.chain = chain;
    }

    /// Removes the first element and returns it, or returns `None` and leaves
    /// the list as it is when the list is empty.
    pub fn pop_front(&mut self) -> (elem: Option<T>)
        ensures
            old(self)@.len() == 0 ==> elem is None && final(self)@ == old(self)@,
            old(self)@.len() > 0 ==> elem == Some(old(self)@[0]) && final(self)@ == old(self)@.drop_first(),
    {
        proof {
            use_type_invariant(&*self);
        }
        let mut chain = Chain::new();
        std::mem::swap(&mut chain, &mut self.chain);
        let elem = chain.pop_front();
        self.chain = chain;
        elem
    }

    /// Removes the last element and returns it, or returns `None` and leaves
    /// the list as it is when the list is empty.
    pub fn pop_back(&mut self) -> (elem: Option<T>)
        ensures
            old(self)@.len() == 0 ==> elem is None && final(self)@ == old(self)@,
            old(self)@.len() > 0 ==> elem == Some(old(self)@.last()) && final(self)@ == old(self)@.drop_last(),
    {
        proof {
            use_type_invariant(&*self);
        }
        let mut chain = Chain::new();
        std::mem::swap(&mut chain, &mut self.chain);
        let elem = chain.pop_back();
        self.chain = chain;
        elem
    }

    /// The number of elements, read from the cached counter.
    pub fn len(&self) -> (len: usize)
        ensures
            len == self@.len(),
    {
        proof {
            use_type_invariant(self);
        }
        self.chain.len()
    }

    /// Whether the list holds no element.
    pub fn is_empty(&self) -> (empty: bool)
        ensures
            empty <==> self@.len() == 0,
    {
        self.len() == 0
    }

    /// A shared view of the first element, or `None` when the list is empty.
    pub fn front(&self) -> (elem: Option<&T>)
        ensures
            self@.len() == 0 ==> elem is None,
            self@.len() > 0 ==> elem == Some(&self@[0]),
    {
        proof {
            use_type_invariant(self);
        }
        self.chain.front()
    }

    /// A shared view of the last element, or `None` when the list is empty.
    pub fn back(&self) -> (elem: Option<&T>)
        ensures
            self@.len() == 0 ==> elem is None,
            self@.len() > 0 ==> elem == Some(&self@.last()),
    {
        proof {
            use_type_invariant(self);
        }
        self.chain.back()
    }

    /// An exclusive view of the first element, or `None` when the list is
    /// empty. What the caller leaves in the view becomes the first element;
    /// the rest of the list is untouched.
    pub fn front_mut(&mut self) -> (elem: Option<&mut T>)
        ensures
            old(self)@.len() == 0 ==> elem is None && final(self)@ == old(self)@,
            old(self)@.len() > 0 ==> elem is Some && *elem.unwrap() == old(self)@[0] && final(self)@ == old(self)@.update(0, *final(elem.unwrap())),
    {
        proof {
            use_type_invariant(&*self);
        }
        self.chain.front_mut()
    }

    /// An exclusive view of the last element, or `None` when the list is
    /// empty. What the caller leaves in the view becomes the last element;
    /// the rest of the list is untouched.
    pub fn back_mut(&mut self) -> (elem: Option<&mut T>)
        ensures
            old(self)@.len() == 0 ==> elem is None && final(self)@ == old(self)@,
            old(self)@.len() > 0 ==> elem is Some && *elem.unwrap() == old(self)@.last() && final(self)@ == old(self)@.update(old(self)@.len() - 1, *final(elem.unwrap())),
    {
        proof {
            use_type_invariant(&*self);
        }
        self.chain.back_mut()
    }
}

/// A borrowing double-ended iterator: a snapshot of the list's two ends and
/// of its length, taken when the iterator was made.
pub struct Iter<'a, T> {
    list: &'a LinkedList<T>,
    cursor: Cursor,
}

/// A mutably borrowing double-ended iterator. It holds the exclusive borrow
/// of the list and lends out one element at a time. The fields are public so
/// that contracts can speak of the list that the borrow gives back.
pub struct IterMut<'a, T> {
    pub list: &'a mut LinkedList<T>,
    pub cursor: Cursor,
}

/// A consuming double-ended iterator: it owns the list and pops it.
pub struct IntoIter<T>(LinkedList<T>);

impl<'a, T> View for Iter<'a, T> {
    type V = Seq<T>;

    /// The elements still to come, front to back.
    closed spec fn view(&self) -> Seq<T> {
        self.cursor.span(self.list@)
    }
}

impl<'a, T> View for IterMut<'a, T> {
    type V = Seq<T>;

    /// The elements still to come, as they are now, front to back.
    closed spec fn view(&self) -> Seq<T> {
        self.cursor.span(self.list@)
    }
}

impl<T> View for IntoIter<T> {
    type V = Seq<T>;

    /// The elements still to come, front to back.
    closed spec fn view(&self) -> Seq<T> {
        self.0@
    }
}

impl<T> LinkedList<T> {
    /// An iterator over shared views of the elements.
    pub fn iter(&self) -> (iter: Iter<'_, T>)
        ensures
            iter@ == self@,
    {
        proof {
            use_type_invariant(self);
            self.chain.lemma_order_len();
        }
        let cursor = self.chain.cursor();
        assert(cursor.span(self@) =~= self@);
        Iter { list: self, cursor }
    }

    /// An iterator over exclusive views of the elements. When the borrow ends
    /// the list is what `iter.list` then holds.
    pub fn iter_mut(&mut self) -> (iter: IterMut<'_, T>)
        ensures
            iter.wf(),
            iter@ == old(self)@,
            iter.list@ == old(self)@,
            iter.position() == 0,
            *final(iter.list) == *final(self),
    {
        proof {
            use_type_invariant(&*self);
            self.chain.lemma_order_len();
        }
        let cursor = self.chain.cursor();
        assert(cursor.span(self@) =~= self@);
        IterMut { list: self, cursor }
    }

    /// Turns the list into an iterator that yields its elements by value.
    pub fn into_iter(self) -> (iter: IntoIter<T>)
        ensures
            iter@ == self@,
    {
        IntoIter(self)
    }
}

impl<'a, T> Iter<'a, T> {
    /// The cursor lies within the list it was taken from.
    #[verifier::type_invariant]
    spec fn in_range(self) -> bool {
        self.cursor.within(self.list.chain.order())
    }

    /// Yields a shared view of the frontmost element still to come, or `None`
    /// once none is left; after that every step yields `None`.
    pub fn next(&mut self) -> (item: Option<&'a T>)
        ensures
            old(self)@.len() == 0 ==> item is None && final(self)@ == old(self)@,
            old(self)@.len() > 0 ==> item == Some(&old(self)@[0]) && final(self)@ == old(self)@.drop_first(),
    {
        proof {
            use_type_invariant(&*self);
            use_type_invariant(self.list);
            self.list.chain.lemma_order_len();
            self.cursor.lemma_within(self.list.chain.order());
        }
        self.list.chain.step_front(&mut self.cursor)
    }

    /// Yields a shared view of the backmost element still to come, or `None`
    /// once none is left; after that every step yields `None`.
    pub fn next_back(&mut self) -> (item: Option<&'a T>)
        ensures
            old(self)@.len() == 0 ==> item is None && final(self)@ == old(self)@,
            old(self)@.len() > 0 ==> item == Some(&old(self)@.last()) && final(self)@ == old(self)@.drop_last(),
    {
        proof {
            use_type_invariant(&*self);
            use_type_invariant(self.list);
            self.list.chain.lemma_order_len();
            self.cursor.lemma_within(self.list.chain.order());
        }
        self.list.chain.step_back(&mut self.cursor)
    }

    /// The exact number of elements still to come.
    pub fn len(&self) -> (len: usize)
        ensures
            len == self@.len(),
    {
        proof {
            use_type_invariant(self);
            use_type_invariant(self.list);
            self.list.chain.lemma_order_len();
            self.cursor.lemma_within(self.list.chain.order());
        }
        self.cursor.len()
    }
}

impl<'a, T> IterMut<'a, T> {
    /// The cursor lies within the borrowed list. `iter_mut` establishes this
    /// and every step keeps it.
    pub closed spec fn wf(&self) -> bool {
        self.cursor.within(self.list.chain.order())
    }

    /// The position in the list, counted from its front, of the element that
    /// `next` yields.
    pub closed spec fn position(&self) -> int {
        self.cursor.start()
    }

    /// Lends an exclusive view of the frontmost element still to come, or
    /// yields `None` once none is left; after that every step yields `None`.
    /// What the caller leaves in the view replaces that element in the list.
    pub fn next(&mut self) -> (item: Option<&mut T>)
        requires
            old(self).wf(),
        ensures
            final(self).wf(),
            *final(final(self).list) == *final(old(self).list),
            old(self)@.len() == 0 ==> item is None && final(self)@ == old(self)@ && final(self).list@ == old(self).list@ && final(self).position() == old(self).position(),
            old(self)@.len() > 0 ==> item is Some && *item.unwrap() == old(self)@[0] && final(self)@ == old(self)@.drop_first() && final(self).list@ == old(self).list@.update(
                old(self).position(),
                *final(item.unwrap()),
            ) && final(self).position() == old(self).position() + 1,
    {
        proof {
            use_type_invariant(&*self.list);
            self.list.chain.lemma_order_len();
            self.cursor.lemma_within(self.list.chain.order());
        }
        self.list.chain.step_front_mut(&mut self.cursor)
    }

    /// Lends an exclusive view of the backmost element still to come, or
    /// yields `None` once none is left; after that every step yields `None`.
    /// What the caller leaves in the view replaces that element in the list.
    pub fn next_back(&mut self) -> (item: Option<&mut T>)
        requires
            old(self).wf(),
        ensures
            final(self).wf(),
            *final(final(self).list) == *final(old(self).list),
            final(self).position() == old(self).position(),
            old(self)@.len() == 0 ==> item is None && final(self)@ == old(self)@ && final(self).list@ == old(self).list@,
            old(self)@.len() > 0 ==> item is Some && *item.unwrap() == old(self)@.last() && final(self)@ == old(self)@.drop_last() && final(self).list@ == old(self).list@.update(
                old(self).position() + old(self)@.len() - 1,
                *final(item.unwrap()),
            ),
    {
        proof {
            use_type_invariant(&*self.list);
            self.list.chain.lemma_order_len();
            self.cursor.lemma_within(self.list.chain.order());
        }
        self.list.chain.step_back_mut(&mut self.cursor)
    }

    /// The exact number of elements still to come.
    pub fn len(&self) -> (len: usize)
        requires
            self.wf(),
        ensures
            len == self@.len(),
    {
        proof {
            use_type_invariant(&*self.list);
            self.list.chain.lemma_order_len();
            self.cursor.lemma_within(self.list.chain.order());
        }
        self.cursor.len()
    }
}

impl<T> IntoIter<T> {
    /// Yields the first element of the list, or `None` once it is empty.
    pub fn next(&mut self) -> (item: Option<T>)
        ensures
            old(self)@.len() == 0 ==> item is None && final(self)@ == old(self)@,
            old(self)@.len() > 0 ==> item == Some(old(self)@[0]) && final(self)@ == old(self)@.drop_first(),
    {
        self.0.pop_front()
    }

    /// Yields the last element of the list, or `None` once it is empty.
    pub fn next_back(&mut self) -> (item: Option<T>)
        ensures
            old(self)@.len() == 0 ==> item is None && final(self)@ == old(self)@,
            old(self)@.len() > 0 ==> item == Some(old(self)@.last()) && final(self)@ == old(self)@.drop_last(),
    {
        self.0.pop_back()
    }

    /// The exact number of elements still to come.
    pub fn len(&self) -> (len: usize)
        ensures
            len == self@.len(),
    {
        self.0.len()
    }
}

} // verus!
