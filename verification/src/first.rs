//! A stack of `i32` built from an owning, tagged link.
use vstd::prelude::*;

verus! {

/// A stack of 32-bit integers; the top of the stack is the head of the chain.
pub struct List {
    head: Link,
}

struct Node {
    value: i32,
    next: Link,
}

enum Link {
    Empty,
    More(Box<Node>),
}

impl Link {
    /// The values reachable from this link, nearest first.
    spec fn items(self) -> Seq<i32>
        decreases self,
    {
        match self {
            Link::Empty => Seq::empty(),
            Link::More(node) => seq![node.value] + node.next.items(),
        }
    }
}

impl View for List {
    type V = Seq<i32>;

    /// The stack's contents, top first.
    closed spec fn view(&self) -> Seq<i32> {
        self.head.items()
    }
}

impl List {
    /// Creates an empty stack.
    pub fn new() -> (list: Self)
        ensures
            list@ == Seq::<i32>::empty(),
    {
        List { head: Link::Empty }
    }

    /// Puts `elem` on top of the stack.
    pub fn push(&mut self, elem: i32)
        ensures
            final(self)@ == seq![elem] + old(self)@,
    {
        let mut rest = Link::Empty;
        std::mem::swap(&mut rest, &mut self.head);
        let node = Box::new(Node { value: elem, next: rest });
        self.head = Link::More(node);
    }

    /// Takes the top of the stack off, or returns `None` when the stack is
    /// empty.
    pub fn pop(&mut self) -> (top: Option<i32>)
        ensures
            old(self)@.len() == 0 ==> top is None && final(self)@ == old(self)@,
            old(self)@.len() > 0 ==> top == Some(old(self)@[0]) && final(self)@ == old(self)@.drop_first(),
    {
        let mut head = Link::Empty;
        std::mem::swap(&mut head, &mut self.head);
        match head {
            Link::Empty => None,
            Link::More(node) => {
                let node = *node;
                assert((seq![node.value] + node.next.items()).drop_first() =~= node.next.items());
                self.head = node.next;
                Some(node.value)
            },
        }
    }
}

impl Drop for List {
    /// Unlinks the nodes one by one, so that dropping a long stack does not
    /// recurse once per node.
    fn drop(&mut self)
        opens_invariants none
        no_unwind
    {
        let mut cur_link = Link::Empty;
        std::mem::swap(&mut cur_link, &mut self.head);
        loop
            decreases cur_link,
        {
            match cur_link {
                Link::Empty => {
                    break ;
                },
                Link::More(mut node) => {
                    let mut next = Link::Empty;
                    std::mem::swap(&mut next, &mut node.next);
                    cur_link = next;
                },
            }
        }
    }
}

} // verus!
