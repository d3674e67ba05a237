//! A generic stack built from optional owning boxes, with consuming,
//! borrowing and mutably borrowing iteration.
use vstd::prelude::*;

verus! {

/// A stack of `T`; the top of the stack is the head of the chain.
pub struct List<T> {
    head: Link<T>,
}

type Link<T> = Option<Box<Node<T>>>;

/// One link of the chain: a value and the rest of the chain below it.
pub struct Node<T> {
    value: T,
    next: Link<T>,
}

/// The values reachable from `link`, nearest first.
spec fn link_items<T>(link: Link<T>) -> Seq<T>
    decreases link,
{
    match link {
        None => Seq::empty(),
        Some(node) => seq![node.value] + link_items(node.next),
    }
}

impl<T> Node<T> {
    /// This node's value followed by the values below it.
    pub closed spec fn items(self) -> Seq<T> {
        seq![self.value] + link_items(self.next)
    }
}

impl<T> View for List<T> {
    type V = Seq<T>;

    /// The stack's contents, top first.
    closed spec fn view(&self) -> Seq<T> {
        link_items(self.head)
    }
}

impl<T> List<T> {
    /// Creates an empty stack.
    pub fn new() -> (list: Self)
        ensures
            list@ == Seq::<T>::empty(),
    {
        List { head: None }
    }

    /// Puts `elem` on top of the stack.
    pub fn push(&mut self, elem: T)
        ensures
            final(self)@ == seq![elem] + old(self)@,
    {
        let node = Box::new(Node { value: elem, next: self.head.take() });
        self.head = Some(node);
    }

    /// Takes the top of the stack off, or returns `None` when the stack is
    /// empty.
    pub fn pop(&mut self) -> (top: Option<T>)
        ensures
            old(self)@.len() == 0 ==> top is None && final(self)@ == old(self)@,
            old(self)@.len() > 0 ==> top == Some(old(self)@[0]) && final(self)@ == old(self)@.drop_first(),
    {
        match self.head.take() {
            None => None,
            Some(node) => {
                let node = *node;
                assert((seq![node.value] + link_items(node.next)).drop_first() =~= link_items(
                    node.next,
                ));
                self.head = node.next;
                Some(node.value)
            },
        }
    }

    /// A shared view of the top of the stack, or `None` when it is empty.
    pub fn peek(&self) -> (top: Option<&T>)
        ensures
            self@.len() == 0 ==> top is None,
            self@.len() > 0 ==> top == Some(&self@[0]),
    {
        match &self.head {
            None => None,
            Some(node) => Some(&node.value),
        }
    }

    /// An exclusive view of the top of the stack, or `None` when it is empty.
    /// What the caller leaves in the view becomes the new top; the rest of the
    /// stack is untouched.
    pub fn peek_mut(&mut self) -> (top: Option<&mut T>)
        ensures
            old(self)@.len() == 0 ==> top is None && final(self)@ == old(self)@,
            old(self)@.len() > 0 ==> top is Some && *top.unwrap() == old(self)@[0] && final(self)@
                == old(self)@.update(0, *final(top.unwrap())),
    {
        match &mut self.head {
            None => None,
            Some(node) => {
                assert((seq![node.value] + link_items(node.next)).len() > 0);
                Some(&mut node.value)
            },
        }
    }
}

/// A consuming iterator: it owns the stack and pops it.
pub struct IntoIter<T>(List<T>);

/// A borrowing iterator: it points at the node whose value comes next.
pub struct Iter<'a, T> {
    next: Option<&'a Node<T>>,
}

/// A mutably borrowing iterator: it holds the exclusive borrow of the node
/// whose value comes next. The field is public so that contracts can speak of
/// the value that the borrowed chain has once the borrow ends.
pub struct IterMut<'a, T> {
    pub next: Option<&'a mut Node<T>>,
}

impl<T> View for IntoIter<T> {
    type V = Seq<T>;

    /// The values still to come, in the order in which they come.
    closed spec fn view(&self) -> Seq<T> {
        self.0@
    }
}

impl<'a, T> View for Iter<'a, T> {
    type V = Seq<T>;

    /// The values still to come, in the order in which they come.
    closed spec fn view(&self) -> Seq<T> {
        match self.next {
            None => Seq::empty(),
            Some(node) => node.items(),
        }
    }
}

impl<'a, T> View for IterMut<'a, T> {
    type V = Seq<T>;

    /// The values still to come, as they are now, in the order in which they
    /// come.
    open spec fn view(&self) -> Seq<T> {
        match self.next {
            None => Seq::empty(),
            Some(node) => node.items(),
        }
    }
}

impl<T> List<T> {
    /// Turns the stack into an iterator that yields its values top first.
    pub fn into_iter(self) -> (iter: IntoIter<T>)
        ensures
            iter@ == self@,
    {
        IntoIter(self)
    }

    /// An iterator over shared views of the values, top first.
    pub fn iter(&self) -> (iter: Iter<'_, T>)
        ensures
            iter@ == self@,
    {
        match &self.head {
            None => Iter { next: None },
            Some(node) => Iter { next: Some(&**node) },
        }
    }

    /// An iterator over exclusive views of the values, top first. When the
    /// borrow ends the stack holds what the chain behind `iter.next` then
    /// holds.
    pub fn iter_mut(&mut self) -> (iter: IterMut<'_, T>)
        ensures
            iter@ == old(self)@,
            final(self)@ == (match iter.next {
                None => Seq::<T>::empty(),
                Some(node) => final(node).items(),
            }),
    {
        match &mut self.head {
            None => IterMut { next: None },
            Some(node) => IterMut { next: Some(&mut **node) },
        }
    }
}

impl<T> IntoIter<T> {
    /// Yields the next value, or `None` once the stack is exhausted.
    pub fn next(&mut self) -> (item: Option<T>)
        ensures
            old(self)@.len() == 0 ==> item is None && final(self)@ == old(self)@,
            old(self)@.len() > 0 ==> item == Some(old(self)@[0]) && final(self)@ == old(self)@.drop_first(),
    {
        self.0.pop()
    }
}

impl<'a, T> Iter<'a, T> {
    /// Yields a shared view of the next value, or `None` once the chain is
    /// exhausted.
    pub fn next(&mut self) -> (item: Option<&'a T>)
        ensures
            old(self)@.len() == 0 ==> item is None && final(self)@ == old(self)@,
            old(self)@.len() > 0 ==> item == Some(&old(self)@[0]) && final(self)@ == old(self)@.drop_first(),
    {
        match self.next {
            None => None,
            Some(node) => {
                assert((seq![node.value] + link_items(node.next)).drop_first() =~= link_items(
                    node.next,
                ));
                self.next =
                match &node.next {
                    None => None,
                    Some(below) => Some(&**below),
                };
                Some(&node.value)
            },
        }
    }
}

impl<'a, T> IterMut<'a, T> {
    /// Yields an exclusive view of the next value, or `None` once the chain is
    /// exhausted. The chain that the iterator had borrowed ends up holding
    /// what the caller leaves in the view, followed by what the chain behind
    /// the advanced cursor ends up holding.
    pub fn next(&mut self) -> (item: Option<&'a mut T>)
        ensures
            old(self)@.len() == 0 ==> item is None && old(self).next is None && final(self).next is None,
            old(self)@.len() > 0 ==> old(self).next is Some && item is Some && *item.unwrap()
                == old(self)@[0]
                && final(self)@ == old(self)@.drop_first() && final(old(self).next.unwrap()).items() == seq![
                *final(item.unwrap()),
            ] + (match final(self).next {
                None => Seq::<T>::empty(),
                Some(below) => final(below).items(),
            }),
    {
        match self.next.take() {
            None => None,
            Some(node) => {
                assert((seq![node.value] + link_items(node.next)).drop_first() =~= link_items(
                    node.next,
                ));
                self.next =
                match &mut node.next {
                    None => None,
                    Some(below) => Some(&mut **below),
                };
                Some(&mut node.value)
            },
        }
    }
}

impl<T> Drop for List<T> {
    /// Unlinks the nodes one by one, so that dropping a long stack does not
    /// recurse once per node.
    fn drop(&mut self)
        opens_invariants none
        no_unwind
    {
        let mut cur_link: Link<T> = None;
        std::mem::swap(&mut cur_link, &mut self.head);
        loop
            decreases cur_link,
        {
            match cur_link {
                None => {
                    break ;
                },
                Some(node) => {
                    let Node { value, next } = *node;
                    cur_link = next;
                },
            }
        }
    }
}

} // verus!
