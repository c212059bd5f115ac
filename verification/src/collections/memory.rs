//! Bounded queues held in memory: single owner, never blocking.

use crate::error::QueueError;
use vstd::prelude::*;

verus! {

/// A queue of at most `limit()` elements.
///
/// Every operation expects a queue within its capacity and leaves it so; a
/// queue fresh from its constructor is.
///
/// `items()` lists the elements in arrival order. Which element a pop serves,
/// and what it leaves behind, is the implementor's choice, told by `served`
/// and `after_pop`.
pub trait HasQueue<T: Clone> {
    /// The elements, oldest first.
    spec fn items(&self) -> Seq<T>;

    /// The capacity fixed at construction.
    spec fn limit(&self) -> nat;

    /// The element that a pop of a non-empty queue hands out a copy of.
    spec fn served(items: Seq<T>) -> T;

    /// What a successful pop leaves in the queue.
    spec fn after_pop(items: Seq<T>) -> Seq<T>;

    /// Appends `element`, unless the queue is at capacity: then nothing
    /// changes and the push fails with `QueueFull`.
    fn push(&mut self, element: T) -> (r: Result<(), QueueError>)
        requires
            old(self).items().len() <= old(self).limit(),
        ensures
            final(self).limit() == old(self).limit(),
            final(self).items().len() <= final(self).limit(),
            old(self).items().len() < old(self).limit() ==> r == Ok::<(), QueueError>(())
                && final(self).items() == old(self).items().push(element),
            old(self).items().len() >= old(self).limit() ==> r == Err::<(), QueueError>(
                QueueError::QueueFull,
            ) && final(self).items() == old(self).items(),
            final(self).items().len() == if r is Ok {
                old(self).items().len() + 1
            } else {
                old(self).items().len()
            },
    ;

    /// Hands out a copy of the served element, or fails with `QueueEmpty`
    /// and changes nothing.
    fn pop(&mut self) -> (r: Result<T, QueueError>)
        requires
            old(self).items().len() <= old(self).limit(),
        ensures
            final(self).limit() == old(self).limit(),
            final(self).items().len() <= final(self).limit(),
            old(self).items().len() > 0 ==> r is Ok && cloned(
                Self::served(old(self).items()),
                r->Ok_0,
            ) && final(self).items() == Self::after_pop(old(self).items()),
            old(self).items().len() == 0 ==> r == Err::<T, QueueError>(QueueError::QueueEmpty)
                && final(self).items() == old(self).items(),
            final(self).items().len() == if r is Ok {
                Self::after_pop(old(self).items()).len()
            } else {
                old(self).items().len()
            },
    ;

    /// Empties the queue; an already empty queue reports `QueueEmpty`.
    fn clear(&mut self) -> (r: Result<(), QueueError>)
        requires
            old(self).items().len() <= old(self).limit(),
        ensures
            final(self).limit() == old(self).limit(),
            final(self).items().len() == 0,
            r == if old(self).items().len() > 0 {
                Ok::<(), QueueError>(())
            } else {
                Err::<(), QueueError>(QueueError::QueueEmpty)
            },
    ;

    /// The number of elements held; the queue is left as it was.
    fn len(&mut self) -> (n: usize)
        requires
            old(self).items().len() <= old(self).limit(),
        ensures
            n == old(self).items().len(),
            n <= old(self).limit(),
            final(self).items() == old(self).items(),
            final(self).limit() == old(self).limit(),
    ;
}

/// First in, first out, in memory. A pop serves the oldest element and
/// leaves it in place.
#[derive(Debug)]
pub struct FifoQueue<T: Clone> {
    queue: Vec<T>,
    capacity: usize,
}

impl<T: Clone> View for FifoQueue<T> {
    type V = Seq<T>;

    closed spec fn view(&self) -> Seq<T> {
        self.queue@
    }
}

impl<T: Clone> FifoQueue<T> {
    /// The capacity, as a specification value.
    pub closed spec fn spec_capacity(&self) -> usize {
        self.capacity
    }

    /// An empty queue that will hold at most `capacity` elements.
    pub fn new(capacity: usize) -> (q: FifoQueue<T>)
        ensures
            q@ == Seq::<T>::empty(),
            q.spec_capacity() == capacity,
    {
        FifoQueue { queue: Vec::new(), capacity }
    }

    /// The capacity fixed at construction.
    #[verifier::when_used_as_spec(spec_capacity)]
    pub fn capacity(&self) -> (c: usize)
        ensures
            c == self.spec_capacity(),
    {
        self.capacity
    }
}

impl<T: Clone> HasQueue<T> for FifoQueue<T> {
    open spec fn items(&self) -> Seq<T> {
        self@
    }

    open spec fn limit(&self) -> nat {
        self.spec_capacity() as nat
    }

    open spec fn served(items: Seq<T>) -> T {
        items.first()
    }

    open spec fn after_pop(items: Seq<T>) -> Seq<T> {
        items
    }

    fn push(&mut self, element: T) -> (r: Result<(), QueueError>) {
        if self.queue.len() < self.capacity {
            self.queue.push(element);
            Ok(())
        } else {
            Err(QueueError::QueueFull)
        }
    }

    fn pop(&mut self) -> (r: Result<T, QueueError>)
        ensures
            final(self).items() == old(self).items(),
    {
        match self.queue.first() {
            Some(val) => Ok(val.clone()),
            None => Err(QueueError::QueueEmpty),
        }
    }

    fn clear(&mut self) -> (r: Result<(), QueueError>) {
        if self.queue.len() > 0 {
            self.queue.clear();
            Ok(())
        } else {
            Err(QueueError::QueueEmpty)
        }
    }

    fn len(&mut self) -> (n: usize) {
        self.queue.len()
    }
}

/// Last in, first out, in memory. A pop serves the newest element and
/// takes it out.
#[derive(Debug)]
pub struct LifoQueue<T: Clone> {
    queue: Vec<T>,
    capacity: usize,
}

impl<T: Clone> View for LifoQueue<T> {
    type V = Seq<T>;

    closed spec fn view(&self) -> Seq<T> {
        self.queue@
    }
}

impl<T: Clone> LifoQueue<T> {
    /// The capacity, as a specification value.
    pub closed spec fn spec_capacity(&self) -> usize {
        self.capacity
    }

    /// An empty queue that will hold at most `capacity` elements.
    pub fn new(capacity: usize) -> (q: LifoQueue<T>)
        ensures
            q@ == Seq::<T>::empty(),
            q.spec_capacity() == capacity,
    {
        LifoQueue { queue: Vec::new(), capacity }
    }

    /// The capacity fixed at construction.
    #[verifier::when_used_as_spec(spec_capacity)]
    pub fn capacity(&self) -> (c: usize)
        ensures
            c == self.spec_capacity(),
    {
        self.capacity
    }
}

impl<T: Clone> HasQueue<T> for LifoQueue<T> {
    open spec fn items(&self) -> Seq<T> {
        self@
    }

    open spec fn limit(&self) -> nat {
        self.spec_capacity() as nat
    }

    open spec fn served(items: Seq<T>) -> T {
        items.last()
    }

    open spec fn after_pop(items: Seq<T>) -> Seq<T> {
        items.drop_last()
    }

    fn push(&mut self, element: T) -> (r: Result<(), QueueError>) {
        if self.queue.len() < self.capacity {
            self.queue.push(element);
            Ok(())
        } else {
            Err(QueueError::QueueFull)
        }
    }

    fn pop(&mut self) -> (r: Result<T, QueueError>)
        ensures
            r is Ok ==> final(self).items().len() == old(self).items().len() - 1,
    {
        match self.queue.pop() {
            Some(val) => Ok(val.clone()),
            None => Err(QueueError::QueueEmpty),
        }
    }

    fn clear(&mut self) -> (r: Result<(), QueueError>) {
        if self.queue.len() > 0 {
            self.queue.clear();
            Ok(())
        } else {
            Err(QueueError::QueueEmpty)
        }
    }

    fn len(&mut self) -> (n: usize) {
        self.queue.len()
    }
}

} // verus!
