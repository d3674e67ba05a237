//! A first-in, first-out queue: elements enter at the tail and leave at the
//! head, with consuming, borrowing and mutably borrowing iteration from the
//! head.
use crate::chain::Chain;
use vstd::prelude::*;

verus! {

pub use crate::chain::Cursor;

/// A queue of `T`. Its model is the sequence of its elements, oldest first.
pub struct List<T> {
    chain: Chain<T>,
}

impl<T> View for List<T> {
    type V = Seq<T>;

    /// The elements, oldest first.
    closed spec fn view(&self) -> Seq<T> {
        self.chain.items()
    }
}

impl<T> List<T> {
    /// The links of the queue are in good order: see `Chain::wf`.
    #[verifier::type_invariant]
    spec fn linked(self) -> bool {
        self.chain.wf()
    }

    /// Creates an empty queue.
    pub fn new() -> (list: Self)
        ensures
            list@ == Seq::<T>::empty(),
    {
        List { chain: Chain::new() }
    }

    /// Appends `elem` at the tail of the queue.
    pub fn push(&mut self, elem: T)
        ensures
            final(self)@ == old(self)@.push(elem),
    {
        proof {
            use_type_invariant(&*self);
        }
        let mut chain = Chain::new();
        std::mem::swap(&mut chain, &mut self.chain);
        chain.push_back(elem);
        self.chain = chain;
    }

    /// Removes the oldest element and returns it, or returns `None` and
    /// leaves the queue as it is when the queue is empty.
    pub fn pop(&mut self) -> (elem: Option<T>)
        ensures
            old(self)@.len() == 0 ==> elem is None && final(self)@ == old(self)@,
            old(self)@.len() > 0 ==> elem == Some(old(self)@[0]) && final(self)@ == old(self)@.drop_first(),
    {
        proof {
            use_type_invariant(&*self);
        }
        let mut chain = Chain::new();
        std::mem::swap(&mut chain, &mut self.chain);
        let elem = chain.pop_front();
        self.chain = chain;
        elem
    }

    /// A shared view of the oldest element, or `None` when the queue is
    /// empty.
    pub fn peek(&self) -> (elem: Option<&T>)
        ensures
            self@.len() == 0 ==> elem is None,
            self@.len() > 0 ==> elem == Some(&self@[0]),
    {
        proof {
            use_type_invariant(self);
        }
        self.chain.front()
    }

    /// An exclusive view of the oldest element, or `None` when the queue is
    /// empty. What the caller leaves in the view becomes the oldest element;
    /// the rest is untouched.
    pub fn peek_mut(&mut self) -> (elem: Option<&mut T>)
        ensures
            old(self)@.len() == 0 ==> elem is None && final(self)@ == old(self)@,
            old(self)@.len() > 0 ==> elem is Some && *elem.unwrap() == old(self)@[0] && final(self)@ == old(self)@.update(0, *final(elem.unwrap())),
    {
        proof {
            use_type_invariant(&*self);
        }
        self.chain.front_mut()
    }

    /// Turns the queue into an iterator that yields its elements by value,
    /// oldest first.
    pub fn into_iter(self) -> (iter: IntoIter<T>)
        ensures
            iter@ == self@,
    {
        IntoIter(self)
    }

    /// An iterator over shared views of the elements, oldest first.
    pub fn iter(&self) -> (iter: Iter<'_, T>)
        ensures
            iter@ == self@,
    {
        proof {
            use_type_invariant(self);
            self.chain.lemma_order_len();
        }
        let cursor = self.chain.cursor();
        assert(cursor.span(self@) =~= self@);
        Iter { list: self, cursor }
    }

    /// An iterator over exclusive views of the elements, oldest first. When
    /// the borrow ends the queue is what `iter.list` then holds.
    pub fn iter_mut(&mut self) -> (iter: IterMut<'_, T>)
        ensures
            iter.wf(),
            iter@ == old(self)@,
            iter.list@ == old(self)@,
            iter.position() == 0,
            *final(iter.list) == *final(self),
    {
        proof {
            use_type_invariant(&*self);
            self.chain.lemma_order_len();
        }
        let cursor = self.chain.cursor();
        assert(cursor.span(self@) =~= self@);
        IterMut { list: self, cursor }
    }
}

/// A consuming iterator: it owns the queue and pops it.
pub struct IntoIter<T>(List<T>);

/// A borrowing iterator over a queue.
pub struct Iter<'a, T> {
    list: &'a List<T>,
    cursor: Cursor,
}

/// A mutably borrowing iterator over a queue. It holds the exclusive borrow
/// of the queue and lends out one element at a time. The fields are public
/// so that contracts can speak of the queue that the borrow gives back.
pub struct IterMut<'a, T> {
    pub list: &'a mut List<T>,
    pub cursor: Cursor,
}

impl<T> View for IntoIter<T> {
    type V = Seq<T>;

    /// The elements still to come, oldest first.
    closed spec fn view(&self) -> Seq<T> {
        self.0@
    }
}

impl<'a, T> View for Iter<'a, T> {
    type V = Seq<T>;

    /// The elements still to come, oldest first.
    closed spec fn view(&self) -> Seq<T> {
        self.cursor.span(self.list@)
    }
}

impl<'a, T> View for IterMut<'a, T> {
    type V = Seq<T>;

    /// The elements still to come, as they are now, oldest first.
    closed spec fn view(&self) -> Seq<T> {
        self.cursor.span(self.list@)
    }
}

impl<T> IntoIter<T> {
    /// Yields the oldest element of the queue, or `None` once it is empty.
    pub fn next(&mut self) -> (item: Option<T>)
        ensures
            old(self)@.len() == 0 ==> item is None && final(self)@ == old(self)@,
            old(self)@.len() > 0 ==> item == Some(old(self)@[0]) && final(self)@ == old(self)@.drop_first(),
    {
        self.0.pop()
    }
}

impl<'a, T> Iter<'a, T> {
    /// The cursor lies within the queue it was taken from.
    #[verifier::type_invariant]
    spec fn in_range(self) -> bool {
        self.cursor.within(self.list.chain.order())
    }

    /// Yields a shared view of the next element, or `None` once none is
    /// left; after that every step yields `None`.
    pub fn next(&mut self) -> (item: Option<&'a T>)
        ensures
            old(self)@.len() == 0 ==> item is None && final(self)@ == old(self)@,
            old(self)@.len() > 0 ==> item == Some(&old(self)@[0]) && final(self)@ == old(self)@.drop_first(),
    {
        proof {
            use_type_invariant(&*self);
            use_type_invariant(self.list);
            self.list.chain.lemma_order_len();
            self.cursor.lemma_within(self.list.chain.order());
        }
        self.list.chain.step_front(&mut self.cursor)
    }
}

impl<'a, T> IterMut<'a, T> {
    /// The cursor lies within the borrowed queue. `iter_mut` establishes
    /// this and every step keeps it.
    pub closed spec fn wf(&self) -> bool {
        self.cursor.within(self.list.chain.order())
    }

    /// The position in the queue, counted from its head, of the element
    /// that `next` yields.
    pub closed spec fn position(&self) -> int {
        self.cursor.start()
    }

    /// Lends an exclusive view of the next element, or yields `None` once
    /// none is left; after that every step yields `None`. What the caller
    /// leaves in the view replaces that element in the queue.
    pub fn next(&mut self) -> (item: Option<&mut T>)
        requires
            old(self).wf(),
        ensures
            final(self).wf(),
            *final(final(self).list) == *final(old(self).list),
            old(self)@.len() == 0 ==> item is None && final(self)@ == old(self)@ && final(self).list@ == old(self).list@ && final(self).position() == old(self).position(),
            old(self)@.len() > 0 ==> item is Some && *item.unwrap() == old(self)@[0] && final(self)@ == old(self)@.drop_first() && final(self).list@ == old(self).list@.update(
                old(self).position(),
                *final(item.unwrap()),
            ) && final(self).position() == old(self).position() + 1,
    {
        proof {
            use_type_invariant(&*self.list);
            self.list.chain.lemma_order_len();
            self.cursor.lemma_within(self.list.chain.order());
        }
        self.list.chain.step_front_mut(&mut self.cursor)
    }
}

} // verus!
