//! A first-in-first-out queue.

use vstd::prelude::*;
use std::collections::VecDeque;

verus! {

/// A queue: values leave in the order in which they came.
///
/// Its view is the sequence of the waiting values, the one that leaves next
/// first.
#[derive(Debug)]
pub struct Queue<T> {
    elements: VecDeque<T>,
}

impl<T> View for Queue<T> {
    type V = Seq<T>;

    closed spec fn view(&self) -> Seq<T> {
        self.elements@
    }
}

impl<T> Queue<T> {
    /// An empty queue.
    pub fn new() -> (queue: Queue<T>)
        ensures
            queue@ == Seq::<T>::empty(),
    {
        Queue { elements: VecDeque::new() }
    }

    /// Puts `value` at the back of the queue.
    pub fn enqueue(&mut self, value: T)
        ensures
            final(self)@ == old(self)@.push(value),
    {
        self.elements.push_back(value)
    }

    /// Takes the value at the front out of the queue; `None` if the queue is empty.
    pub fn dequeue(&mut self) -> (front: Option<T>)
        ensures
            old(self)@.len() == 0 ==> front is None && final(self)@ == old(self)@,
            old(self)@.len() > 0 ==> front == Some(old(self)@[0]) && final(self)@ == old(
                self,
            )@.drop_first(),
    {
        self.elements.pop_front()
    }

    /// The value at the front, which stays in the queue; `None` if the queue is empty.
    pub fn peek_front(&self) -> (front: Option<&T>)
        ensures
            self@.len() == 0 ==> front is None,
            self@.len() > 0 ==> front == Some(&self@[0]),
    {
        if self.elements.len() == 0 {
            None
        } else {
            Some(&self.elements[0])
        }
    }

    /// The value at the back, which stays in the queue; `None` if the queue is empty.
    pub fn peek_back(&self) -> (back: Option<&T>)
        ensures
            self@.len() == 0 ==> back is None,
            self@.len() > 0 ==> back == Some(&self@[self@.len() - 1]),
    {
        let n: usize = self.elements.len();
        if n == 0 {
            None
        } else {
            Some(&self.elements[n - 1])
        }
    }

    /// The number of values in the queue.
    pub fn len(&self) -> (n: usize)
        ensures
            n == self@.len(),
    {
        self.elements.len()
    }

    /// Whether the queue holds no value.
    pub fn is_empty(&self) -> (empty: bool)
        ensures
            empty == (self@.len() == 0),
    {
        self.elements.len() == 0
    }

    /// Takes every value out of the queue.
    pub fn drain(&mut self)
        ensures
            final(self)@ == Seq::<T>::empty(),
    {
        self.elements.clear();
    }
}

impl<T> Default for Queue<T> {
    fn default() -> (queue: Queue<T>)
        ensures
            queue@ == Seq::<T>::empty(),
    {
        Queue::new()
    }
}

} // verus!
