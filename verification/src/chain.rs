//! The node store behind the pointer-linked lists: nodes live in the slots of
//! a vector, and a link is the index of a slot. A ghost sequence records the
//! order in which the links connect the nodes, which is what the invariant
//! and every contract are stated over.
use vstd::prelude::*;

verus! {

/// A nullable handle to a node: the index of its slot, or `None` for "no
/// node in that direction".
pub type Link = Option<usize>;

/// One node of a chain: its element and the links to its two neighbours.
pub struct Node<T> {
    pub prev: Link,
    pub next: Link,
    pub elem: T,
}

impl<T> Node<T> {
    /// A node that holds `elem` and is linked to nothing yet.
    pub fn new(elem: T) -> (node: Self)
        ensures
            node.elem == elem,
            node.prev is None,
            node.next is None,
    {
        Node { prev: None, next: None, elem }
    }
}

/// A doubly-linked chain of nodes with a cached length.
pub struct Chain<T> {
    /// The node storage; a slot is `None` while no node lives in it.
    slots: Vec<Option<Node<T>>>,
    /// The indices of the empty slots, each once.
    free: Vec<usize>,
    front: Link,
    back: Link,
    len: usize,
    /// The handles of the linked nodes, front to back.
    order: Ghost<Seq<usize>>,
}

/// The link that the node at position `i` of `order` must hold towards the
/// front.
pub open spec fn prev_of(order: Seq<usize>, i: int) -> Link {
    if i == 0 {
        None
    } else {
        Some(order[i - 1])
    }
}

/// The link that the node at position `i` of `order` must hold towards the
/// back.
pub open spec fn next_of(order: Seq<usize>, i: int) -> Link {
    if i + 1 == order.len() {
        None
    } else {
        Some(order[i + 1])
    }
}

/// The handle at position `i` of `order`. The invariant is instantiated
/// through this name, so that speaking of a neighbour's handle does not
/// instantiate it again.
pub open spec fn handle_at(order: Seq<usize>, i: int) -> usize {
    order[i]
}

/// The slot behind `h` is taken by a node whose links are `prev` and `next`.
pub open spec fn links_ok<T>(slots: Seq<Option<Node<T>>>, h: usize, prev: Link, next: Link) -> bool {
    &&& h < slots.len()
    &&& slots[h as int] is Some
    &&& slots[h as int].unwrap().prev == prev
    &&& slots[h as int].unwrap().next == next
}

/// Every entry of `free` names an empty slot of `slots`, and none occurs
/// twice.
pub open spec fn free_list_ok<U>(slots: Seq<Option<U>>, free: Seq<usize>) -> bool {
    &&& forall|k: int| 0 <= k < free.len() ==> free[k] < slots.len() && slots[free[k] as int] is None
    &&& forall|k: int, l: int| 0 <= k < l < free.len() ==> free[k] != free[l]
}

/// Puts `node` into an empty slot, a recycled one if there is any and else a
/// new one at the end, and returns the slot's index. No other slot changes.
fn store<T>(slots: &mut Vec<Option<Node<T>>>, free: &mut Vec<usize>, node: Node<T>) -> (h: usize)
    requires
        free_list_ok(old(slots)@, old(free)@),
    ensures
        free_list_ok(final(slots)@, final(free)@),
        h < final(slots).len(),
        h < old(slots).len() ==> old(slots)[h as int] is None,
        final(slots)@ == (if old(free).len() == 0 {
            old(slots)@.push(Some(node))
        } else {
            old(slots)@.update(h as int, Some(node))
        }),
        final(free)@ == (if old(free).len() == 0 {
            old(free)@
        } else {
            old(free)@.drop_last()
        }),
        old(free).len() == 0 ==> h == old(slots).len(),
        old(free).len() > 0 ==> h == old(free)@.last(),
{
    match free.pop() {
        Some(h) => {
            slots[h] = Some(node);
            h
        },
        None => {
            let h = slots.len();
            slots.push(Some(node));
            h
        },
    }
}

impl<T> Chain<T> {
    /// The handles of the linked nodes, front to back.
    pub closed spec fn order(self) -> Seq<usize> {
        self.order@
    }

    /// The node at position `i` lives in a slot and holds the links that its
    /// position asks for.
    pub closed spec fn linked_at(self, i: int) -> bool {
        links_ok(
            self.slots@,
            handle_at(self.order@, i),
            prev_of(self.order@, i),
            next_of(self.order@, i),
        )
    }

    /// The structural invariant: the cached length counts the linked nodes,
    /// `front` and `back` are the two ends (both absent exactly when the
    /// chain is empty), the two link directions mirror each other, no node
    /// occurs twice, and every slot is either linked or on the free list.
    pub closed spec fn wf(self) -> bool {
        &&& self.order@.len() == self.len
        &&& self.len + self.free.len() == self.slots.len()
        &&& self.front == if self.len == 0 {
            None
        } else {
            Some(self.order@[0])
        }
        &&& self.back == if self.len == 0 {
            None
        } else {
            Some(self.order@[self.len - 1])
        }
        &&& forall|i: int|
            0 <= i < self.order@.len() ==> links_ok(
                self.slots@,
                #[trigger] handle_at(self.order@, i),
                prev_of(self.order@, i),
                next_of(self.order@, i),
            )
        &&& forall|i: int, j: int|
            0 <= i < j < self.order@.len() ==> self.order@[i] != self.order@[j]
        &&& free_list_ok(self.slots@, self.free@)
    }

    /// The elements, front to back.
    pub closed spec fn items(self) -> Seq<T> {
        Seq::new(
            self.order@.len(),
            |i: int| self.slots[handle_at(self.order@, i) as int].unwrap().elem,
        )
    }

    /// Creates an empty chain.
    pub fn new() -> (chain: Self)
        ensures
            chain.wf(),
            chain.items() == Seq::<T>::empty(),
    {
        Chain {
            slots: Vec::new(),
            free: Vec::new(),
            front: None,
            back: None,
            len: 0,
            order: Ghost(Seq::empty()),
        }
    }

    /// The number of linked nodes, read from the cached counter.
    pub fn len(&self) -> (len: usize)
        requires
            self.wf(),
        ensures
            len == self.items().len(),
        no_unwind
    {
        self.len
    }
}

impl<T> Chain<T> {
    /// Links a new node holding `elem` in front of the first node.
    pub fn push_front(&mut self, elem: T)
        requires
            old(self).wf(),
        ensures
            final(self).wf(),
            final(self).items() == seq![elem] + old(self).items(),
    {
        let old_front = self.front;
        let mut node = Node::new(elem);
        node.next = old_front;
        let h = store(&mut self.slots, &mut self.free, node);
        match old_front {
            Some(f) => {
                assert(old(self).linked_at(0));
                match &mut self.slots[f] {
                    Some(node) => {
                        node.prev = Some(h);
                    },
                    None => {},
                }
            },
            None => {
                self.back = Some(h);
            },
        }
        self.front = Some(h);
        self.len = self.len + 1;
        proof {
            self.order@ = seq![h] + old(self).order@;
            assert forall|i: int| 0 <= i < self.order@.len() implies links_ok(
                self.slots@,
                #[trigger] handle_at(self.order@, i),
                prev_of(self.order@, i),
                next_of(self.order@, i),
            ) by {
                if i > 0 {
                    assert(old(self).linked_at(i - 1));
                }
            }
            assert forall|i: int, j: int| 0 <= i < j < self.order@.len() implies self.order@[i]
                != self.order@[j] by {
                if i > 0 {
                } else {
                    assert(old(self).linked_at(j - 1));
                }
            }
            assert(self.items() =~= seq![elem] + old(self).items()) by {
                assert forall|i: int| 1 <= i < self.order@.len() implies self.items()[i] == old(self).items()[i - 1] by {
                    assert(old(self).linked_at(i - 1));
                }
            }
        }
    }

    /// Links a new node holding `elem` behind the last node.
    pub fn push_back(&mut self, elem: T)
        requires
            old(self).wf(),
        ensures
            final(self).wf(),
            final(self).items() == old(self).items().push(elem),
    {
        let old_back = self.back;
        let mut node = Node::new(elem);
        node.prev = old_back;
        let h = store(&mut self.slots, &mut self.free, node);
        match old_back {
            Some(b) => {
                assert(old(self).linked_at(old(self).len - 1));
                match &mut self.slots[b] {
                    Some(node) => {
                        node.next = Some(h);
                    },
                    None => {},
                }
            },
            None => {
                self.front = Some(h);
            },
        }
        self.back = Some(h);
        self.len = self.len + 1;
        proof {
            self.order@ = old(self).order@.push(h);
            assert forall|i: int| 0 <= i < self.order@.len() implies links_ok(
                self.slots@,
                #[trigger] handle_at(self.order@, i),
                prev_of(self.order@, i),
                next_of(self.order@, i),
            ) by {
                if i < old(self).order@.len() {
                    assert(old(self).linked_at(i));
                }
            }
            assert forall|i: int, j: int| 0 <= i < j < self.order@.len() implies self.order@[i]
                != self.order@[j] by {
                assert(old(self).linked_at(i));
            }
            assert(self.items() =~= old(self).items().push(elem)) by {
                assert forall|i: int| 0 <= i < old(self).order@.len() implies self.items()[i]
                    == old(self).items()[i] by {
                    assert(old(self).linked_at(i));
                }
            }
        }
    }

    /// Unlinks the first node and returns its element, or returns `None` when
    /// the chain is empty. The node's slot goes back to the free list.
    pub fn pop_front(&mut self) -> (elem: Option<T>)
        requires
            old(self).wf(),
        ensures
            final(self).wf(),
            old(self).items().len() == 0 ==> elem is None && final(self).items() == old(self).items(),
            old(self).items().len() > 0 ==> elem == Some(old(self).items()[0]) && final(self).items() == old(self).items().drop_first(),
    {
        match self.front {
            None => None,
            Some(h) => {
                assert(old(self).linked_at(0));
                let mut slot: Option<Node<T>> = None;
                std::mem::swap(&mut slot, &mut self.slots[h]);
                match slot {
                    None => None,
                    Some(node) => {
                        self.front = node.next;
                        match self.front {
                            Some(new_front) => {
                                assert(old(self).linked_at(1));
                                match &mut self.slots[new_front] {
                                    Some(first) => {
                                        first.prev = None;
                                    },
                                    None => {},
                                }
                            },
                            None => {
                                self.back = None;
                            },
                        }
                        self.len = self.len - 1;
                        self.free.push(h);
                        proof {
                            self.order@ = old(self).order@.drop_first();
                            assert forall|i: int| 0 <= i < self.order@.len() implies links_ok(
                self.slots@,
                #[trigger] handle_at(self.order@, i),
                prev_of(self.order@, i),
                next_of(self.order@, i),
            ) by {
                                assert(old(self).linked_at(i + 1));
                            }
                            assert(free_list_ok(self.slots@, self.free@)) by {
                                assert forall|k: int| 0 <= k < old(self).free.len() implies old(self).free[k] != h by {}
                            }
                            assert(self.items() =~= old(self).items().drop_first()) by {
                                assert forall|i: int| 0 <= i < self.order@.len() implies self.items()[i]
                                    == old(self).items()[i + 1] by {
                                    assert(old(self).linked_at(i + 1));
                                }
                            }
                        }
                        Some(node.elem)
                    },
                }
            },
        }
    }

    /// Unlinks the last node and returns its element, or returns `None` when
    /// the chain is empty. The node's slot goes back to the free list.
    pub fn pop_back(&mut self) -> (elem: Option<T>)
        requires
            old(self).wf(),
        ensures
            final(self).wf(),
            old(self).items().len() == 0 ==> elem is None && final(self).items() == old(self).items(),
            old(self).items().len() > 0 ==> elem == Some(old(self).items().last()) && final(self).items() == old(self).items().drop_last(),
    {
        match self.back {
            None => None,
            Some(h) => {
                let ghost last = old(self).len - 1;
                assert(old(self).linked_at(last));
                let mut slot: Option<Node<T>> = None;
                std::mem::swap(&mut slot, &mut self.slots[h]);
                match slot {
                    None => None,
                    Some(node) => {
                        self.back = node.prev;
                        match self.back {
                            Some(new_back) => {
                                assert(old(self).linked_at(last - 1));
                                match &mut self.slots[new_back] {
                                    Some(end) => {
                                        end.next = None;
                                    },
                                    None => {},
                                }
                            },
                            None => {
                                self.front = None;
                            },
                        }
                        self.len = self.len - 1;
                        self.free.push(h);
                        proof {
                            self.order@ = old(self).order@.drop_last();
                            assert forall|i: int| 0 <= i < self.order@.len() implies links_ok(
                self.slots@,
                #[trigger] handle_at(self.order@, i),
                prev_of(self.order@, i),
                next_of(self.order@, i),
            ) by {
                                assert(old(self).linked_at(i));
                            }
                            assert(free_list_ok(self.slots@, self.free@)) by {
                                assert forall|k: int| 0 <= k < old(self).free.len() implies old(self).free[k] != h by {}
                            }
                            assert(self.items() =~= old(self).items().drop_last()) by {
                                assert forall|i: int| 0 <= i < self.order@.len() implies self.items()[i]
                                    == old(self).items()[i] by {
                                    assert(old(self).linked_at(i));
                                }
                            }
                        }
                        Some(node.elem)
                    },
                }
            },
        }
    }

    /// A shared view of the first element, or `None` when the chain is empty.
    pub fn front(&self) -> (elem: Option<&T>)
        requires
            self.wf(),
        ensures
            self.items().len() == 0 ==> elem is None,
            self.items().len() > 0 ==> elem == Some(&self.items()[0]),
        no_unwind
    {
        match self.front {
            None => None,
            Some(h) => {
                assert(self.linked_at(0));
                match &self.slots[h] {
                    Some(node) => Some(&node.elem),
                    None => None,
                }
            },
        }
    }

    /// A shared view of the last element, or `None` when the chain is empty.
    pub fn back(&self) -> (elem: Option<&T>)
        requires
            self.wf(),
        ensures
            self.items().len() == 0 ==> elem is None,
            self.items().len() > 0 ==> elem == Some(&self.items().last()),
        no_unwind
    {
        match self.back {
            None => None,
            Some(h) => {
                assert(self.linked_at(self.len - 1));
                match &self.slots[h] {
                    Some(node) => Some(&node.elem),
                    None => None,
                }
            },
        }
    }

    /// An exclusive view of the element at position `at`, whose handle is `h`.
    /// Only that element can change through the view; links, order and free
    /// list stay as they are.
    fn elem_mut(&mut self, h: usize, Ghost(at): Ghost<int>) -> (elem: Option<&mut T>)
        requires
            old(self).wf(),
            0 <= at < old(self).order().len(),
            old(self).order()[at] == h,
        ensures
            elem is Some,
            *elem.unwrap() == old(self).items()[at],
            final(self).wf(),
            final(self).order() == old(self).order(),
            final(self).items() == old(self).items().update(at, *final(elem.unwrap())),
        no_unwind
    {
        assert(self.linked_at(at));
        match &mut self.slots[h] {
            Some(node) => Some(&mut node.elem),
            None => None,
        }
    }

    /// An exclusive view of the first element, or `None` when the chain is
    /// empty. Nothing but that element can change through the view.
    pub fn front_mut(&mut self) -> (elem: Option<&mut T>)
        requires
            old(self).wf(),
        ensures
            final(self).wf(),
            final(self).order() == old(self).order(),
            old(self).items().len() == 0 ==> elem is None && final(self).items() == old(self).items(),
            old(self).items().len() > 0 ==> elem is Some && *elem.unwrap() == old(self).items()[0]
                && final(self).items() == old(self).items().update(0, *final(elem.unwrap())),
        no_unwind
    {
        match self.front {
            None => None,
            Some(h) => self.elem_mut(h, Ghost(0)),
        }
    }

    /// An exclusive view of the last element, or `None` when the chain is
    /// empty. Nothing but that element can change through the view.
    pub fn back_mut(&mut self) -> (elem: Option<&mut T>)
        requires
            old(self).wf(),
        ensures
            final(self).wf(),
            final(self).order() == old(self).order(),
            old(self).items().len() == 0 ==> elem is None && final(self).items() == old(self).items(),
            old(self).items().len() > 0 ==> elem is Some && *elem.unwrap() == old(self).items().last() && final(self).items() == old(self).items().update(
                old(self).items().len() - 1,
                *final(elem.unwrap()),
            ),
        no_unwind
    {
        match self.back {
            None => None,
            Some(h) => self.elem_mut(h, Ghost(self.len - 1)),
        }
    }
}

/// A double-ended position in a chain: the handle from which the next step
/// forward is taken, the handle from which the next step backward is taken,
/// and the number of steps that are left before the two would cross.
pub struct Cursor {
    front: Link,
    back: Link,
    len: usize,
    /// The position in the chain's order that `front` stands at.
    start: Ghost<int>,
}

impl Cursor {
    /// The number of elements that the cursor has not stepped over yet.
    pub closed spec fn remaining(self) -> nat {
        self.len as nat
    }

    /// The position, counted from the chain's front, of the element that a
    /// step forward yields.
    pub closed spec fn start(self) -> int {
        self.start@
    }

    /// The cursor lies within a chain whose nodes are linked in `order`: its
    /// span fits, and while steps are left its two handles are the ends of
    /// the span.
    pub closed spec fn within(self, order: Seq<usize>) -> bool {
        &&& 0 <= self.start@
        &&& self.start@ + self.len <= order.len()
        &&& self.len > 0 ==> self.front == Some(order[self.start@]) && self.back == Some(
            order[self.start@ + self.len - 1],
        )
    }

    /// The elements of `items` that the cursor has not stepped over yet.
    pub open spec fn span<T>(self, items: Seq<T>) -> Seq<T> {
        items.subrange(self.start(), self.start() + self.remaining())
    }

    /// A cursor within a chain spans a range of positions of that chain.
    pub proof fn lemma_within(self, order: Seq<usize>)
        requires
            self.within(order),
        ensures
            0 <= self.start(),
            self.start() + self.remaining() <= order.len(),
    {
    }

    /// The number of steps that are left.
    pub fn len(&self) -> (len: usize)
        ensures
            len == self.remaining(),
        no_unwind
    {
        self.len
    }
}

impl<T> Chain<T> {
    /// A chain in good order has one node per element.
    pub proof fn lemma_order_len(self)
        ensures
            self.items().len() == self.order().len(),
    {
    }

    /// A cursor over the whole chain.
    pub fn cursor(&self) -> (cursor: Cursor)
        requires
            self.wf(),
        ensures
            cursor.within(self.order()),
            cursor.start() == 0,
            cursor.remaining() == self.items().len(),
    {
        Cursor { front: self.front, back: self.back, len: self.len, start: Ghost(0) }
    }

    /// Steps `cursor` forward: yields the element at its front handle and
    /// moves that handle along the node's next-link. Once no steps are left
    /// the cursor stays as it is and yields nothing.
    pub fn step_front<'a>(&'a self, cursor: &mut Cursor) -> (elem: Option<&'a T>)
        requires
            self.wf(),
            old(cursor).within(self.order()),
        ensures
            final(cursor).within(self.order()),
            old(cursor).remaining() == 0 ==> elem is None && *final(cursor) == *old(cursor),
            old(cursor).remaining() > 0 ==> elem == Some(&self.items()[old(cursor).start()])
                && final(cursor).start() == old(cursor).start() + 1 && final(cursor).remaining()
                == old(cursor).remaining() - 1,
        no_unwind
    {
        if cursor.len == 0 {
            return None;
        }
        match cursor.front {
            None => None,
            Some(h) => {
                assert(self.linked_at(cursor.start@));
                match &self.slots[h] {
                    None => None,
                    Some(node) => {
                        cursor.len = cursor.len - 1;
                        cursor.front = node.next;
                        proof {
                            cursor.start@ = cursor.start@ + 1;
                        }
                        Some(&node.elem)
                    },
                }
            },
        }
    }

    /// Steps `cursor` backward: yields the element at its back handle and
    /// moves that handle along the node's previous-link. Once no steps are
    /// left the cursor stays as it is and yields nothing.
    pub fn step_back<'a>(&'a self, cursor: &mut Cursor) -> (elem: Option<&'a T>)
        requires
            self.wf(),
            old(cursor).within(self.order()),
        ensures
            final(cursor).within(self.order()),
            old(cursor).remaining() == 0 ==> elem is None && *final(cursor) == *old(cursor),
            old(cursor).remaining() > 0 ==> elem == Some(
                &self.items()[old(cursor).start() + old(cursor).remaining() - 1],
            ) && final(cursor).start() == old(cursor).start() && final(cursor).remaining() == old(cursor).remaining() - 1,
        no_unwind
    {
        if cursor.len == 0 {
            return None;
        }
        match cursor.back {
            None => None,
            Some(h) => {
                assert(self.linked_at(cursor.start@ + cursor.len - 1));
                match &self.slots[h] {
                    None => None,
                    Some(node) => {
                        cursor.len = cursor.len - 1;
                        cursor.back = node.prev;
                        Some(&node.elem)
                    },
                }
            },
        }
    }

    /// Steps `cursor` forward and yields an exclusive view of the element it
    /// stepped over. Nothing but that element can change through the view.
    pub fn step_front_mut<'a>(&'a mut self, cursor: &mut Cursor) -> (elem: Option<&'a mut T>)
        requires
            old(self).wf(),
            old(cursor).within(old(self).order()),
        ensures
            final(self).wf(),
            final(self).order() == old(self).order(),
            final(cursor).within(old(self).order()),
            old(cursor).remaining() == 0 ==> elem is None && *final(cursor) == *old(cursor)
                && final(self).items() == old(self).items(),
            old(cursor).remaining() > 0 ==> elem is Some && *elem.unwrap() == old(self).items()[old(cursor).start()] && final(self).items() == old(self).items().update(
                old(cursor).start(),
                *final(elem.unwrap()),
            ) && final(cursor).start() == old(cursor).start() + 1 && final(cursor).remaining()
                == old(cursor).remaining() - 1,
        no_unwind
    {
        if cursor.len == 0 {
            return None;
        }
        match cursor.front {
            None => None,
            Some(h) => {
                let ghost at = cursor.start@;
                assert(self.linked_at(at));
                let next = match &self.slots[h] {
                    None => None,
                    Some(node) => node.next,
                };
                cursor.len = cursor.len - 1;
                cursor.front = next;
                proof {
                    cursor.start@ = at + 1;
                }
                self.elem_mut(h, Ghost(at))
            },
        }
    }

    /// Steps `cursor` backward and yields an exclusive view of the element it
    /// stepped over. Nothing but that element can change through the view.
    pub fn step_back_mut<'a>(&'a mut self, cursor: &mut Cursor) -> (elem: Option<&'a mut T>)
        requires
            old(self).wf(),
            old(cursor).within(old(self).order()),
        ensures
            final(self).wf(),
            final(self).order() == old(self).order(),
            final(cursor).within(old(self).order()),
            old(cursor).remaining() == 0 ==> elem is None && *final(cursor) == *old(cursor)
                && final(self).items() == old(self).items(),
            old(cursor).remaining() > 0 ==> elem is Some && *elem.unwrap() == old(self).items()[old(cursor).start() + old(cursor).remaining() - 1] && final(self).items() == old(self).items().update(
                old(cursor).start() + old(cursor).remaining() - 1,
                *final(elem.unwrap()),
            ) && final(cursor).start() == old(cursor).start() && final(cursor).remaining() == old(cursor).remaining() - 1,
        no_unwind
    {
        if cursor.len == 0 {
            return None;
        }
        match cursor.back {
            None => None,
            Some(h) => {
                let ghost at = cursor.start@ + cursor.len - 1;
                assert(self.linked_at(at));
                let prev = match &self.slots[h] {
                    None => None,
                    Some(node) => node.prev,
                };
                cursor.len = cursor.len - 1;
                cursor.back = prev;
                self.elem_mut(h, Ghost(at))
            },
        }
    }
}

} // verus!
