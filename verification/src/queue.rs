//! The queue abstraction the benchmark drives, and the concrete variants it
//! is instantiated with: a growable-array deque (with and without a
//! pre-reserved capacity) and a doubly linked list.

use vstd::prelude::*;
use std::collections::LinkedList;
use std::collections::VecDeque;

verus! {

/// The capability set every benchmarked variant offers: append a value at
/// the back, remove the value at the front, and ask whether anything is
/// queued. `contents` is the queued values, front first.
pub trait Queue {
    /// The queued values, front first.
    spec fn contents(&self) -> Seq<usize>;

    /// Appends `value` at the logical back.
    fn enqueue(&mut self, value: usize)
        ensures
            final(self).contents() == old(self).contents().push(value),
    ;

    /// Removes and returns the logical front value; `None` exactly when the
    /// queue holds nothing.
    fn dequeue(&mut self) -> (r: Option<usize>)
        ensures
            old(self).contents().len() == 0 ==> r is None && final(self).contents()
                == old(self).contents(),
            old(self).contents().len() > 0 ==> r == Some(old(self).contents()[0])
                && final(self).contents() == old(self).contents().drop_first(),
    ;

    /// True exactly when the queue holds nothing.
    fn is_empty(&self) -> (r: bool)
        ensures
            r == (self.contents().len() == 0),
    ;
}

/// A queue backed by std's growable-array deque.
pub struct ArrayQueue {
    items: VecDeque<usize>,
}

impl ArrayQueue {
    /// An empty queue with the default capacity.
    pub fn new() -> (r: Self)
        ensures
            r.contents() == Seq::<usize>::empty(),
    {
        ArrayQueue { items: VecDeque::new() }
    }

    /// An empty queue whose backing array is pre-sized for `capacity`
    /// values, so that the first `capacity` enqueues need not reallocate.
    pub fn with_capacity(capacity: usize) -> (r: Self)
        ensures
            r.contents() == Seq::<usize>::empty(),
    {
        ArrayQueue { items: VecDeque::with_capacity(capacity) }
    }
}

impl Queue for ArrayQueue {
    closed spec fn contents(&self) -> Seq<usize> {
        self.items@
    }

    fn enqueue(&mut self, value: usize) {
        self.items.push_back(value);
    }

    fn dequeue(&mut self) -> (r: Option<usize>) {
        let r = self.items.pop_front();
        proof {
            if old(self).items@.len() > 0 {
                assert(self.items@ =~= old(self).items@.drop_first());
            }
        }
        r
    }

    fn is_empty(&self) -> (r: bool) {
        self.items.len() == 0
    }
}

/// A queue backed by std's doubly linked list. vstd gives
/// `std::collections::LinkedList` no specification, so the list is held
/// opaquely and each operation is a trusted wrapper around one
/// `LinkedList` call.
#[verifier::external_body]
pub struct ListQueue {
    items: LinkedList<usize>,
}

/// The values a `ListQueue` holds, front first.
pub uninterp spec fn list_contents(q: ListQueue) -> Seq<usize>;

impl ListQueue {
    /// Relies on `LinkedList::new`: the new list holds nothing.
    #[verifier::external_body]
    pub fn new() -> (r: Self)
        ensures
            list_contents(r) == Seq::<usize>::empty(),
    {
        ListQueue { items: LinkedList::new() }
    }

    /// Relies on `LinkedList::push_back`: appends one value at the back.
    #[verifier::external_body]
    fn push_back(&mut self, value: usize)
        ensures
            list_contents(*final(self)) == list_contents(*old(self)).push(value),
    {
        self.items.push_back(value);
    }

    /// Relies on `LinkedList::pop_front`: removes and returns the front
    /// value, or returns `None` when the list holds nothing.
    #[verifier::external_body]
    fn pop_front(&mut self) -> (r: Option<usize>)
        ensures
            list_contents(*old(self)).len() == 0 ==> r is None && list_contents(*final(self))
                == list_contents(*old(self)),
            list_contents(*old(self)).len() > 0 ==> r == Some(list_contents(*old(self))[0])
                && list_contents(*final(self)) == list_contents(*old(self)).drop_first(),
    {
        self.items.pop_front()
    }

    /// Relies on `LinkedList::is_empty`: true exactly when the list holds
    /// nothing.
    #[verifier::external_body]
    fn has_no_items(&self) -> (r: bool)
        ensures
            r == (list_contents(*self).len() == 0),
    {
        self.items.is_empty()
    }
}

impl Queue for ListQueue {
    open spec fn contents(&self) -> Seq<usize> {
        list_contents(*self)
    }

    fn enqueue(&mut self, value: usize) {
        self.push_back(value);
    }

    fn dequeue(&mut self) -> (r: Option<usize>) {
        self.pop_front()
    }

    fn is_empty(&self) -> (r: bool) {
        self.has_no_items()
    }
}

} // verus!
