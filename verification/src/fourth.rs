//! A double-ended queue: insertion and removal at both ends, boundary
//! accessors, and a consuming double-ended iterator.
use crate::chain::Chain;
use vstd::prelude::*;

verus! {

pub use crate::chain::Node;

/// A deque of `T`. Its model is the sequence of its elements, head first.
pub struct List<T> {
    chain: Chain<T>,
}

impl<T> View for List<T> {
    type V = Seq<T>;

    /// The elements, head first.
    closed spec fn view(&self) -> Seq<T> {
        self.chain.items()
    }
}

impl<T> List<T> {
    /// The links of the deque are in good order: see `Chain::wf`.
    #[verifier::type_invariant]
    spec fn linked(self) -> bool {
        self.chain.wf()
    }

    /// Creates an empty deque.
    pub fn new() -> (list: Self)
        ensures
            list@ == Seq::<T>::empty(),
    {
        List { chain: Chain::new() }
    }

    /// Inserts `elem` at the head.
    pub fn push_front(&mut self, elem: T)
        ensures
            final(self)@ == seq![elem] + old(self)@,
    {
        proof {
            use_type_invariant(&*self);
        }
        let mut chain = Chain::new();
        std::mem::swap(&mut chain, &mut self.chain);
        chain.push_front(elem);
        self.chain = chain;
    }

    /// Inserts `elem` at the tail.
    pub fn push_back(&mut self, elem: T)
        ensures
            final(self)@ == old(self)@.push(elem),
    {
        proof {
            use_type_invariant(&*self);
        }
        let mut chain = Chain::new();
        std::mem::swap(&mut chain, &mut self.chain);
        chain.push_back(elem);
        self.chain = chain;
    }

    /// Removes the head and returns it, or returns `None` and leaves the
    /// deque as it is when the deque is empty.
    pub fn pop_front(&mut self) -> (elem: Option<T>)
        ensures
            old(self)@.len() == 0 ==> elem is None && final(self)@ == old(self)@,
            old(self)@.len() > 0 ==> elem == Some(old(self)@[0]) && final(self)@ == old(self)@.drop_first(),
    {
        proof {
            use_type_invariant(&*self);
        }
        let mut chain = Chain::new();
        std::mem::swap(&mut chain, &mut self.chain);
        let elem = chain.pop_front();
        self.chain = chain;
        elem
    }

    /// Removes the tail and returns it, or returns `None` and leaves the
    /// deque as it is when the deque is empty.
    pub fn pop_back(&mut self) -> (elem: Option<T>)
        ensures
            old(self)@.len() == 0 ==> elem is None && final(self)@ == old(self)@,
            old(self)@.len() > 0 ==> elem == Some(old(self)@.last()) && final(self)@ == old(self)@.drop_last(),
    {
        proof {
            use_type_invariant(&*self);
        }
        let mut chain = Chain::new();
        std::mem::swap(&mut chain, &mut self.chain);
        let elem = chain.pop_back();
        self.chain = chain;
        elem
    }

    /// A shared view of the head, or `None` when the deque is empty.
    pub fn peek_front(&self) -> (elem: Option<&T>)
        ensures
            self@.len() == 0 ==> elem is None,
            self@.len() > 0 ==> elem == Some(&self@[0]),
    {
        proof {
            use_type_invariant(self);
        }
        self.chain.front()
    }

    /// A shared view of the tail, or `None` when the deque is empty.
    pub fn peek_back(&self) -> (elem: Option<&T>)
        ensures
            self@.len() == 0 ==> elem is None,
            self@.len() > 0 ==> elem == Some(&self@.last()),
    {
        proof {
            use_type_invariant(self);
        }
        self.chain.back()
    }

    /// An exclusive view of the head, or `None` when the deque is empty. What
    /// the caller leaves in the view becomes the head; the rest is untouched.
    pub fn peek_front_mut(&mut self) -> (elem: Option<&mut T>)
        ensures
            old(self)@.len() == 0 ==> elem is None && final(self)@ == old(self)@,
            old(self)@.len() > 0 ==> elem is Some && *elem.unwrap() == old(self)@[0] && final(self)@ == old(self)@.update(0, *final(elem.unwrap())),
    {
        proof {
            use_type_invariant(&*self);
        }
        self.chain.front_mut()
    }

    /// An exclusive view of the tail, or `None` when the deque is empty. What
    /// the caller leaves in the view becomes the tail; the rest is untouched.
    pub fn peek_back_mut(&mut self) -> (elem: Option<&mut T>)
        ensures
            old(self)@.len() == 0 ==> elem is None && final(self)@ == old(self)@,
            old(self)@.len() > 0 ==> elem is Some && *elem.unwrap() == old(self)@.last() && final(self)@ == old(self)@.update(old(self)@.len() - 1, *final(elem.unwrap())),
    {
        proof {
            use_type_invariant(&*self);
        }
        self.chain.back_mut()
    }

    /// Turns the deque into an iterator that yields its elements by value,
    /// from either end.
    pub fn into_iter(self) -> (iter: IntoIter<T>)
        ensures
            iter@ == self@,
    {
        IntoIter(self)
    }
}

/// A consuming double-ended iterator: it owns the deque and pops it.
pub struct IntoIter<T>(List<T>);

impl<T> View for IntoIter<T> {
    type V = Seq<T>;

    /// The elements still to come, head first.
    closed spec fn view(&self) -> Seq<T> {
        self.0@
    }
}

impl<T> IntoIter<T> {
    /// Yields the head of the deque, or `None` once it is empty.
    pub fn next(&mut self) -> (item: Option<T>)
        ensures
            old(self)@.len() == 0 ==> item is None && final(self)@ == old(self)@,
            old(self)@.len() > 0 ==> item == Some(old(self)@[0]) && final(self)@ == old(self)@.drop_first(),
    {
        self.0.pop_front()
    }

    /// Yields the tail of the deque, or `None` once it is empty.
    pub fn next_back(&mut self) -> (item: Option<T>)
        ensures
            old(self)@.len() == 0 ==> item is None && final(self)@ == old(self)@,
            old(self)@.len() > 0 ==> item == Some(old(self)@.last()) && final(self)@ == old(self)@.drop_last(),
    {
        self.0.pop_back()
    }
}

} // verus!
