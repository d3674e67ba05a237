//! A model of the list's operations on plain sequences, and what holds of
//! every run of them.
use super::LinkedList;
use vstd::prelude::*;

verus! {

/// One operation on the ends of a list.
pub enum Op<T> {
    PushFront(T),
    PushBack(T),
    PopFront,
    PopBack,
}

impl<T> Op<T> {
    /// Whether the operation inserts an element.
    pub open spec fn is_push(self) -> bool {
        self is PushFront || self is PushBack
    }

    /// The elements of a list that held `items`, once the operation is done.
    pub open spec fn after(self, items: Seq<T>) -> Seq<T> {
        match self {
            Op::PushFront(elem) => seq![elem] + items,
            Op::PushBack(elem) => items.push(elem),
            Op::PopFront => if items.len() == 0 {
                items
            } else {
                items.drop_first()
            },
            Op::PopBack => if items.len() == 0 {
                items
            } else {
                items.drop_last()
            },
        }
    }

    /// What the operation hands back on a list that holds `items`: the
    /// removed element for a pop that finds one, and nothing otherwise.
    pub open spec fn yields(self, items: Seq<T>) -> Option<T> {
        match self {
            Op::PushFront(_) => None,
            Op::PushBack(_) => None,
            Op::PopFront => if items.len() == 0 {
                None
            } else {
                Some(items[0])
            },
            Op::PopBack => if items.len() == 0 {
                None
            } else {
                Some(items.last())
            },
        }
    }
}

/// The elements of a list that held `items`, once `ops` are done in order.
pub open spec fn run<T>(items: Seq<T>, ops: Seq<Op<T>>) -> Seq<T>
    decreases ops.len(),
{
    if ops.len() == 0 {
        items
    } else {
        ops.last().after(run(items, ops.drop_last()))
    }
}

/// The number of insertions among `ops`.
pub open spec fn pushes<T>(ops: Seq<Op<T>>) -> nat
    decreases ops.len(),
{
    if ops.len() == 0 {
        0
    } else {
        pushes(ops.drop_last()) + if ops.last().is_push() {
            1nat
        } else {
            0nat
        }
    }
}

/// The number of removals among `ops` that find an element, on a list that
/// held `items` at the start.
pub open spec fn successful_pops<T>(items: Seq<T>, ops: Seq<Op<T>>) -> nat
    decreases ops.len(),
{
    if ops.len() == 0 {
        0
    } else {
        successful_pops(items, ops.drop_last()) + if ops.last().yields(
            run(items, ops.drop_last()),
        ) is Some {
            1nat
        } else {
            0nat
        }
    }
}

/// What comes out of a list that holds `items` when it is stepped through
/// from the front until it is exhausted.
pub open spec fn drained_front<T>(items: Seq<T>) -> Seq<T>
    decreases items.len(),
{
    if items.len() == 0 {
        Seq::empty()
    } else {
        seq![items[0]] + drained_front(items.drop_first())
    }
}

/// What comes out of a list that holds `items` when it is stepped through
/// from the back until it is exhausted.
pub open spec fn drained_back<T>(items: Seq<T>) -> Seq<T>
    decreases items.len(),
{
    if items.len() == 0 {
        Seq::empty()
    } else {
        seq![items.last()] + drained_back(items.drop_last())
    }
}

/// What a list holds after `items` were appended to it one by one.
pub open spec fn appended<T>(start: Seq<T>, items: Seq<T>) -> Seq<T>
    decreases items.len(),
{
    if items.len() == 0 {
        start
    } else {
        appended(start, items.drop_last()).push(items.last())
    }
}

impl<T> LinkedList<T> {
    /// Performs one operation and hands back what it yields.
    pub fn perform(&mut self, op: Op<T>) -> (out: Option<T>)
        ensures
            final(self)@ == op.after(old(self)@),
            out == op.yields(old(self)@),
    {
        match op {
            Op::PushFront(elem) => {
                self.push_front(elem);
                None
            },
            Op::PushBack(elem) => {
                self.push_back(elem);
                None
            },
            Op::PopFront => self.pop_front(),
            Op::PopBack => self.pop_back(),
        }
    }
}

/// After any run of operations on a list that was empty, the length is the
/// number of insertions less the number of removals that found an element.
pub proof fn law_len_counts_pushes_less_pops<T>(ops: Seq<Op<T>>)
    ensures
        run(Seq::<T>::empty(), ops).len() == pushes(ops) - successful_pops(Seq::<T>::empty(), ops),
    decreases ops.len(),
{
    if ops.len() > 0 {
        law_len_counts_pushes_less_pops(ops.drop_last());
    }
}

/// A removal finds an element exactly when the list is not empty, at either
/// end: the two ends are absent together.
pub proof fn law_ends_absent_together<T>(items: Seq<T>)
    ensures
        items.len() == 0 <==> Op::<T>::PopFront.yields(items) is None,
        items.len() == 0 <==> Op::<T>::PopBack.yields(items) is None,
{
}

/// Once a list is empty, removals at either end keep finding nothing and
/// keep it empty, however many follow.
pub proof fn law_exhausted_stays_exhausted<T>(ops: Seq<Op<T>>)
    requires
        forall|i: int| 0 <= i < ops.len() ==> !(#[trigger] ops[i]).is_push(),
    ensures
        run(Seq::<T>::empty(), ops) == Seq::<T>::empty(),
        successful_pops(Seq::<T>::empty(), ops) == 0,
    decreases ops.len(),
{
    if ops.len() > 0 {
        assert forall|i: int| 0 <= i < ops.drop_last().len() implies !(#[trigger] ops.drop_last()[i]).is_push() by {
            assert(ops.drop_last()[i] == ops[i]);
        }
        law_exhausted_stays_exhausted(ops.drop_last());
        assert(!ops.last().is_push());
    }
}

/// Appending elements one by one to an empty list and stepping through it
/// from the front gives the elements back in their order.
pub proof fn law_round_trip_front<T>(items: Seq<T>)
    ensures
        drained_front(appended(Seq::<T>::empty(), items)) == items,
{
    lemma_appended(Seq::<T>::empty(), items);
    assert(Seq::<T>::empty() + items =~= items);
    lemma_drained_front(items);
}

/// Appending elements one by one to an empty list and stepping through it
/// from the back gives the elements back in reverse order.
pub proof fn law_round_trip_back<T>(items: Seq<T>)
    ensures
        drained_back(appended(Seq::<T>::empty(), items)) == items.reverse(),
{
    lemma_appended(Seq::<T>::empty(), items);
    assert(Seq::<T>::empty() + items =~= items);
    lemma_drained_back(items);
}

/// An element inserted at one end of an empty list comes out at the other
/// end, and leaves the list empty.
pub proof fn law_ends_are_symmetric<T>(elem: T)
    ensures
        Op::<T>::PopBack.yields(Op::PushFront(elem).after(Seq::empty())) == Some(elem),
        Op::<T>::PopFront.yields(Op::PushBack(elem).after(Seq::empty())) == Some(elem),
        Op::<T>::PopBack.after(Op::PushFront(elem).after(Seq::empty())) == Seq::<T>::empty(),
        Op::<T>::PopFront.after(Op::PushBack(elem).after(Seq::empty())) == Seq::<T>::empty(),
{
    let front = Op::PushFront(elem).after(Seq::empty());
    let back = Op::PushBack(elem).after(Seq::empty());
    assert(front =~= seq![elem]);
    assert(back =~= seq![elem]);
    assert(front.drop_last() =~= Seq::<T>::empty());
    assert(back.drop_first() =~= Seq::<T>::empty());
}

proof fn lemma_appended<T>(start: Seq<T>, items: Seq<T>)
    ensures
        appended(start, items) == start + items,
    decreases items.len(),
{
    if items.len() == 0 {
        assert(start + items =~= start);
    } else {
        lemma_appended(start, items.drop_last());
        assert((start + items.drop_last()).push(items.last()) =~= start + items);
    }
}

proof fn lemma_drained_front<T>(items: Seq<T>)
    ensures
        drained_front(items) == items,
    decreases items.len(),
{
    if items.len() > 0 {
        lemma_drained_front(items.drop_first());
        assert(seq![items[0]] + items.drop_first() =~= items);
    }
}

proof fn lemma_drained_back<T>(items: Seq<T>)
    ensures
        drained_back(items) == items.reverse(),
    decreases items.len(),
{
    if items.len() == 0 {
        assert(items.reverse() =~= Seq::<T>::empty());
    } else {
        lemma_drained_back(items.drop_last());
        assert(seq![items.last()] + items.drop_last().reverse() =~= items.reverse());
    }
}

} // verus!
