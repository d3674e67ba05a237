//! A persistent stack: lists share their tails through reference-counted
//! nodes, and no operation changes a list that already exists.
use std::rc::Rc;
use vstd::prelude::*;

verus! {

/// An immutable stack of `T` whose tail may be shared with other lists.
pub struct List<T> {
    head: Link<T>,
}

type Link<T> = Option<Rc<Node<T>>>;

struct Node<T> {
    value: T,
    next: Link<T>,
}

/// The values reachable from `link`, nearest first.
spec fn link_items<T>(link: Link<T>) -> Seq<T>
    decreases link,
{
    match link {
        None => Seq::empty(),
        Some(node) => seq![node.value] + link_items(node.next),
    }
}

/// `Rc::clone`: a second handle to the allocation behind `rc`. The contract
/// claims that the new handle points at the same value, which is all that a
/// reference-counted pointer's clone does besides counting.
#[verifier::external_body]
fn share<T>(rc: &Rc<T>) -> (shared: Rc<T>)
    ensures
        shared == *rc,
{
    Rc::clone(rc)
}

/// `Rc::try_unwrap`: the value behind `rc` when no other handle shares it,
/// else the handle back. The contract claims that either way the result holds
/// the value that `rc` pointed at, and that the call neither panics nor
/// touches an invariant, which is what a destructor may call.
#[verifier::external_body]
fn take_unshared<T>(rc: Rc<T>) -> (taken: Result<T, Rc<T>>)
    ensures
        match taken {
            Ok(value) => value == *rc,
            Err(handle) => handle == rc,
        },
    opens_invariants none
    no_unwind
{
    Rc::try_unwrap(rc)
}

impl<T> View for List<T> {
    type V = Seq<T>;

    /// The list's contents, head first.
    closed spec fn view(&self) -> Seq<T> {
        link_items(self.head)
    }
}

impl<T> List<T> {
    /// Creates an empty list.
    pub fn new() -> (list: Self)
        ensures
            list@ == Seq::<T>::empty(),
    {
        List { head: None }
    }

    /// A list with `elem` in front of this list's values. This list stays as
    /// it is and becomes the shared tail of the result.
    pub fn prepend(&self, elem: T) -> (list: List<T>)
        ensures
            list@ == seq![elem] + self@,
    {
        let next = match &self.head {
            None => None,
            Some(node) => Some(share(node)),
        };
        List { head: Some(Rc::new(Node { value: elem, next })) }
    }

    /// The list without its first value; the tail of an empty list is empty.
    pub fn tail(&self) -> (list: List<T>)
        ensures
            self@.len() == 0 ==> list@ == Seq::<T>::empty(),
            self@.len() > 0 ==> list@ == self@.drop_first(),
    {
        match &self.head {
            None => List { head: None },
            Some(node) => {
                assert((seq![node.value] + link_items(node.next)).drop_first() =~= link_items(
                    node.next,
                ));
                let next = match &node.next {
                    None => None,
                    Some(below) => Some(share(below)),
                };
                List { head: next }
            },
        }
    }

    /// A shared view of the first value, or `None` when the list is empty.
    pub fn head(&self) -> (first: Option<&T>)
        ensures
            self@.len() == 0 ==> first is None,
            self@.len() > 0 ==> first == Some(&self@[0]),
    {
        match &self.head {
            None => None,
            Some(node) => Some(&node.value),
        }
    }
}

impl<T> Drop for List<T> {
    /// Releases the nodes that no other list shares, one by one, and stops at
    /// the first node that is still shared.
    fn drop(&mut self)
        opens_invariants none
        no_unwind
    {
        let mut head: Link<T> = None;
        std::mem::swap(&mut head, &mut self.head);
        loop
            decreases head,
        {
            match head {
                None => {
                    break ;
                },
                Some(shared_node) => {
                    match take_unshared(shared_node) {
                        Ok(node) => {
                            let Node { value, next } = node;
                            head = next;
                        },
                        Err(still_shared) => {
                            break ;
                        },
                    }
                },
            }
        }
    }
}

} // verus!
