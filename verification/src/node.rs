//! One element of a linked list.

use vstd::prelude::*;

verus! {

/// A list element: a value and the handles of its neighbours.
///
/// The list that owns the node owns the value. `next` and `prev` only name
/// positions in that list's storage; they never keep a node alive.
pub struct Node<T> {
    pub val: T,
    pub next: Option<usize>,
    pub prev: Option<usize>,
}

impl<T> Node<T> {
    /// A node that holds `t` and has no neighbours.
    pub fn new(t: T) -> (node: Node<T>)
        ensures
            node.val == t,
            node.next is None,
            node.prev is None,
    {
        Node { val: t, prev: None, next: None }
    }
}

} // verus!
