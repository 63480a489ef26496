//! Storage that owns the nodes of a list and names each by a handle.

use vstd::prelude::*;
use crate::node::Node;

verus! {

/// A pool of nodes.
///
/// Storing a node yields a handle; the node stays under that handle until it
/// is taken out again. The handle of a removed node is handed out again
/// before the pool grows.
pub struct Pool<T> {
    slots: Vec<Option<Node<T>>>,
    vacant: Vec<usize>,
}

impl<T> View for Pool<T> {
    type V = Map<usize, Node<T>>;

    /// The stored nodes, by handle.
    closed spec fn view(&self) -> Map<usize, Node<T>> {
        Map::new(
            |h: usize| h < self.slots@.len() && self.slots@[h as int] is Some,
            |h: usize| self.slots@[h as int]->0,
        )
    }
}

impl<T> Pool<T> {
    /// Every empty slot is listed as vacant exactly once, and no occupied slot is.
    pub closed spec fn wf(&self) -> bool {
        &&& self.vacant@.no_duplicates()
        &&& forall|j: int|
            0 <= j < self.vacant@.len() ==> {
                &&& (#[trigger] self.vacant@[j]) < self.slots@.len()
                &&& self.slots@[self.vacant@[j] as int] is None
            }
        &&& forall|h: usize|
            h < self.slots@.len() && (#[trigger] self.slots@[h as int]) is None
                ==> self.vacant@.contains(h)
    }

    /// An empty pool.
    pub fn new() -> (pool: Self)
        ensures
            pool.wf(),
            pool@ == Map::<usize, Node<T>>::empty(),
    {
        Pool { slots: Vec::new(), vacant: Vec::new() }
    }

    /// Stores `node` and returns the handle it now lives under.
    pub fn insert(&mut self, node: Node<T>) -> (h: usize)
        requires
            old(self).wf(),
        ensures
            final(self).wf(),
            !old(self)@.dom().contains(h),
            final(self)@ == old(self)@.insert(h, node),
    {
        match self.vacant.pop() {
            Some(h) => {
                self.slots[h] = Some(node);
                proof {
                    assert forall|k: usize|
                        k < self.slots@.len() && (#[trigger] self.slots@[k as int]) is None
                    implies self.vacant@.contains(k) by {
                        let j = choose|j: int|
                            0 <= j < old(self).vacant@.len() && old(self).vacant@[j] == k;
                        assert(self.vacant@[j] == k);
                    }
                }
                h
            },
            None => {
                let h: usize = self.slots.len();
                self.slots.push(Some(node));
                h
            },
        }
    }

    /// Takes the node under `h` out of the pool.
    pub fn remove(&mut self, h: usize) -> (node: Node<T>)
        requires
            old(self).wf(),
            old(self)@.dom().contains(h),
        ensures
            final(self).wf(),
            node == old(self)@[h],
            final(self)@ == old(self)@.remove(h),
    {
        let node = self.slots[h].take().unwrap();
        self.vacant.push(h);
        proof {
            assert forall|k: usize|
                k < self.slots@.len() && (#[trigger] self.slots@[k as int]) is None
            implies self.vacant@.contains(k) by {
                if k == h {
                    assert(self.vacant@[old(self).vacant@.len() as int] == h);
                } else {
                    let j = choose|j: int|
                        0 <= j < old(self).vacant@.len() && old(self).vacant@[j] == k;
                    assert(self.vacant@[j] == k);
                }
            }
        }
        node
    }

    /// Whether a node lives under `h`.
    pub fn contains(&self, h: usize) -> (stored: bool)
        ensures
            stored == self@.dom().contains(h),
    {
        h < self.slots.len() && self.slots[h].is_some()
    }

    /// The node under `h`.
    pub fn get(&self, h: usize) -> (node: &Node<T>)
        requires
            self.wf(),
            self@.dom().contains(h),
        ensures
            *node == self@[h],
    {
        self.slots[h].as_ref().unwrap()
    }

    /// Points the node under `h` at a new successor.
    pub fn set_next(&mut self, h: usize, next: Option<usize>)
        requires
            old(self).wf(),
            old(self)@.dom().contains(h),
        ensures
            final(self).wf(),
            final(self)@ == old(self)@.insert(
                h,
                Node { val: old(self)@[h].val, next: next, prev: old(self)@[h].prev },
            ),
    {
        if let Some(node) = &mut self.slots[h] {
            node.next = next;
        }
    }

    /// Points the node under `h` at a new predecessor.
    pub fn set_prev(&mut self, h: usize, prev: Option<usize>)
        requires
            old(self).wf(),
            old(self)@.dom().contains(h),
        ensures
            final(self).wf(),
            final(self)@ == old(self)@.insert(
                h,
                Node { val: old(self)@[h].val, next: old(self)@[h].next, prev: prev },
            ),
    {
        if let Some(node) = &mut self.slots[h] {
            node.prev = prev;
        }
    }
}

} // verus!
