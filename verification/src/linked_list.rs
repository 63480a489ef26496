//! A doubly-linked list with positional insert, delete and lookup.

use vstd::prelude::*;
use std::fmt::Display;
use crate::model::{
    deleted_at, head_value, inserted_at, inserted_at_head, inserted_at_tail, tail_value, value_at,
    value_deleted_at, without_head, without_tail,
};
use crate::node::Node;
use crate::pool::Pool;
use crate::text::{comma_separated, displayed_as, join_with_commas, texts_of};

verus! {

/// A doubly-linked list.
///
/// The list owns its nodes through a pool; `head`, `tail` and the links of the
/// nodes are handles into that pool. A node leaves the pool when its value is
/// deleted, and whatever is left goes with the list when the list is dropped.
/// The view of a list is the sequence of its values, first to last.
pub struct LinkedList<T> {
    /// The number of nodes.
    pub length: u32,
    /// The handle of the first node; `None` in an empty list.
    pub head: Option<usize>,
    /// The handle of the last node; `None` in an empty list.
    pub tail: Option<usize>,
    /// The storage that owns the nodes.
    pub pool: Pool<T>,
    /// The handles of the nodes, first to last.
    pub order: Ghost<Seq<usize>>,
}

impl<T> View for LinkedList<T> {
    type V = Seq<T>;

    /// The values of the list, first to last.
    open spec fn view(&self) -> Seq<T> {
        Seq::new(self.handles().len(), |i: int| self.node(self.handles()[i]).val)
    }
}

/// Putting a handle that a sequence of distinct handles does not hold at position `at`
/// gives a sequence of distinct handles that holds the new one and those it held before.
proof fn lemma_handle_inserted(hs: Seq<usize>, at: int, h: usize)
    requires
        hs.no_duplicates(),
        !hs.contains(h),
        0 <= at <= hs.len(),
    ensures
        hs.insert(at, h).len() == hs.len() + 1,
        hs.insert(at, h).no_duplicates(),
        hs.insert(at, h)[at] == h,
        forall|j: int| 0 <= j < at ==> #[trigger] hs.insert(at, h)[j] == hs[j],
        forall|j: int| at < j <= hs.len() ==> #[trigger] hs.insert(at, h)[j] == hs[j - 1],
        forall|x: usize| #[trigger] hs.insert(at, h).contains(x) <==> x == h || hs.contains(x),
{
    let hs2 = hs.insert(at, h);
    assert forall|x: usize| #[trigger] hs2.contains(x) <==> x == h || hs.contains(x) by {
        if x == h {
            assert(hs2[at] == x);
        } else if hs.contains(x) {
            let j = choose|j: int| 0 <= j < hs.len() && hs[j] == x;
            if j < at {
                assert(hs2[j] == x);
            } else {
                assert(hs2[j + 1] == x);
            }
        }
    }
}

/// Taking the handle at position `at` out of a sequence of distinct handles gives a
/// sequence of distinct handles that holds the others and no longer that one.
proof fn lemma_handle_removed(hs: Seq<usize>, at: int)
    requires
        hs.no_duplicates(),
        0 <= at < hs.len(),
    ensures
        hs.remove(at).len() == hs.len() - 1,
        hs.remove(at).no_duplicates(),
        forall|j: int| 0 <= j < at ==> #[trigger] hs.remove(at)[j] == hs[j],
        forall|j: int| at <= j < hs.len() - 1 ==> #[trigger] hs.remove(at)[j] == hs[j + 1],
        forall|x: usize| #[trigger] hs.remove(at).contains(x) <==> x != hs[at] && hs.contains(x),
{
    let hs2 = hs.remove(at);
    assert forall|x: usize| #[trigger] hs2.contains(x) <==> x != hs[at] && hs.contains(x) by {
        if x != hs[at] && hs.contains(x) {
            let j = choose|j: int| 0 <= j < hs.len() && hs[j] == x;
            if j < at {
                assert(hs2[j] == x);
            } else {
                assert(hs2[j - 1] == x);
            }
        }
    }
}

impl<T> Default for LinkedList<T> {
    fn default() -> (list: Self)
        ensures
            list.wf(),
            list@ == Seq::<T>::empty(),
            list.length == 0,
    {
        Self::new()
    }
}

impl<T> LinkedList<T> {
    /// The handles of the nodes, first to last.
    pub open spec fn handles(&self) -> Seq<usize> {
        self.order@
    }

    /// The node that lives under handle `h`.
    pub open spec fn node(&self, h: usize) -> Node<T> {
        self.pool@[h]
    }

    /// The pool holds the nodes of this list and no others.
    pub open spec fn owns_its_nodes(&self) -> bool {
        &&& self.pool.wf()
        &&& forall|h: usize| self.pool@.dom().contains(h) <==> self.handles().contains(h)
    }

    /// The handle at position `i`, if `i` is a position of the list.
    pub open spec fn handle_at(&self, i: int) -> Option<usize> {
        if 0 <= i < self.handles().len() {
            Some(self.handles()[i])
        } else {
            None
        }
    }

    /// The node at position `i` names its neighbours: `next` the node at the
    /// next position, `prev` the node at the position before, and nothing where
    /// the list ends.
    pub open spec fn linked_at(&self, i: int) -> bool {
        &&& self.node(self.handles()[i]).next == self.handle_at(i + 1)
        &&& self.node(self.handles()[i]).prev == self.handle_at(i - 1)
    }

    /// The list is well formed: it owns its nodes, no node occurs twice,
    /// `length` counts the nodes, `head` and `tail` name the first and the last
    /// node (or nothing, in an empty list), and every node names its neighbours.
    pub open spec fn wf(&self) -> bool {
        &&& self.owns_its_nodes()
        &&& self.handles().no_duplicates()
        &&& self.length == self.handles().len()
        &&& self.head == self.handle_at(0)
        &&& self.tail == self.handle_at(self.handles().len() - 1)
        &&& forall|i: int| 0 <= i < self.handles().len() ==> #[trigger] self.linked_at(i)
    }

    /// An empty list.
    pub fn new() -> (list: Self)
        ensures
            list.wf(),
            list@ == Seq::<T>::empty(),
            list.length == 0,
    {
        LinkedList { length: 0, head: None, tail: None, pool: Pool::new(), order: Ghost(Seq::empty()) }
    }

    /// Links a new node that holds `obj` in at position `at`, between the
    /// nodes `before` and `after` that are neighbours there.
    fn splice_in(
        &mut self,
        Ghost(at): Ghost<int>,
        before: Option<usize>,
        after: Option<usize>,
        obj: T,
    )
        requires
            old(self).wf(),
            old(self).length < u32::MAX,
            0 <= at <= old(self).handles().len(),
            before == old(self).handle_at(at - 1),
            after == old(self).handle_at(at),
        ensures
            final(self).wf(),
            final(self)@ == old(self)@.insert(at, obj),
            final(self).length == old(self).length + 1,
    {
        let ghost hs = self.order@;
        let h = self.pool.insert(Node { val: obj, next: after, prev: before });
        proof {
            lemma_handle_inserted(hs, at, h);
        }
        match before {
            Some(p) => {
                assert(hs[at - 1] == p && hs.contains(p));
                self.pool.set_next(p, Some(h));
            },
            None => {
                self.head = Some(h);
            },
        }
        match after {
            Some(n) => {
                assert(hs[at] == n && hs.contains(n));
                self.pool.set_prev(n, Some(h));
            },
            None => {
                self.tail = Some(h);
            },
        }
        self.length = self.length + 1;
        proof {
            self.order@ = hs.insert(at, h);
            assert forall|j: int| 0 <= j < self.handles().len() implies #[trigger] self.linked_at(
                j,
            ) by {
                if j < at {
                    assert(old(self).linked_at(j));
                } else if j > at {
                    assert(old(self).linked_at(j - 1));
                }
            }
        }
    }

    /// Puts `obj` in front of the list.
    pub fn insert_at_head(&mut self, obj: T)
        requires
            old(self).wf(),
            old(self).length < u32::MAX,
        ensures
            final(self).wf(),
            final(self)@ == inserted_at_head(old(self)@, obj),
            final(self).length == old(self).length + 1,
    {
        let first = self.head;
        self.splice_in(Ghost(0), None, first, obj);
    }

    /// Puts `obj` behind the last value of the list.
    pub fn insert_at_tail(&mut self, obj: T)
        requires
            old(self).wf(),
            old(self).length < u32::MAX,
        ensures
            final(self).wf(),
            final(self)@ == inserted_at_tail(old(self)@, obj),
            final(self).length == old(self).length + 1,
    {
        let last = self.tail;
        self.splice_in(Ghost(old(self)@.len() as int), last, None, obj);
    }

    /// Unlinks the node `h` that stands at position `at` and hands out its value.
    fn splice_out(&mut self, Ghost(at): Ghost<int>, h: usize) -> (val: T)
        requires
            old(self).wf(),
            0 <= at < old(self).handles().len(),
            old(self).handles()[at] == h,
        ensures
            final(self).wf(),
            val == old(self)@[at],
            final(self)@ == old(self)@.remove(at),
            final(self).length == old(self).length - 1,
    {
        let ghost hs = self.order@;
        assert(hs.contains(h) && self.linked_at(at));
        let node = self.pool.remove(h);
        proof {
            lemma_handle_removed(hs, at);
        }
        match node.prev {
            Some(p) => {
                assert(hs[at - 1] == p && hs.contains(p));
                self.pool.set_next(p, node.next);
            },
            None => {
                self.head = node.next;
            },
        }
        match node.next {
            Some(n) => {
                assert(hs[at + 1] == n && hs.contains(n));
                self.pool.set_prev(n, node.prev);
            },
            None => {
                self.tail = node.prev;
            },
        }
        self.length = self.length - 1;
        proof {
            self.order@ = hs.remove(at);
            assert forall|j: int| 0 <= j < self.handles().len() implies #[trigger] self.linked_at(
                j,
            ) by {
                if j < at {
                    assert(old(self).linked_at(j));
                } else {
                    assert(old(self).linked_at(j + 1));
                }
            }
        }
        node.val
    }

    /// The handle of the node at position `index`, found by walking from the
    /// head; `None` if the list has no such position.
    fn get_ith_node(&self, index: u32) -> (found: Option<usize>)
        requires
            self.wf(),
        ensures
            found == self.handle_at(index as int),
    {
        let mut cur = self.head;
        let mut left: u32 = index;
        while left > 0
            invariant
                self.wf(),
                left <= index,
                cur == self.handle_at(index - left),
            decreases left,
        {
            match cur {
                Some(h) => {
                    assert(self.handles().contains(h) && self.linked_at(index - left));
                    cur = self.pool.get(h).next;
                },
                None => {
                    return None;
                },
            }
            left = left - 1;
        }
        cur
    }

    /// Puts `obj` at position `index`; the value that stood there, and those
    /// behind it, move one position back. With `index` 0 this is
    /// `insert_at_head`, with `index == length` it is `insert_at_tail`.
    pub fn insert_at_ith(&mut self, index: u32, obj: T)
        requires
            old(self).wf(),
            old(self).length < u32::MAX,
            index <= old(self).length,
        ensures
            final(self).wf(),
            final(self)@ == inserted_at(old(self)@, index as int, obj),
            final(self).length == old(self).length + 1,
    {
        if index == 0 || self.head.is_none() {
            self.insert_at_head(obj);
            return ;
        }
        if self.length == index {
            self.insert_at_tail(obj);
            return ;
        }
        if let Some(ith_node) = self.get_ith_node(index) {
            assert(self.handles().contains(ith_node) && self.linked_at(index as int));
            let before = self.pool.get(ith_node).prev;
            self.splice_in(Ghost(index as int), before, Some(ith_node), obj);
        }
    }

    /// Deletes the first value and hands it out; `None`, and no change, if the list is empty.
    pub fn delete_head(&mut self) -> (deleted: Option<T>)
        requires
            old(self).wf(),
        ensures
            final(self).wf(),
            deleted == head_value(old(self)@),
            final(self)@ == without_head(old(self)@),
            final(self).length == old(self).length - (if deleted is Some { 1int } else { 0int }),
    {
        match self.head {
            Some(first) => Some(self.splice_out(Ghost(0), first)),
            None => None,
        }
    }

    /// Deletes the last value and hands it out; `None`, and no change, if the list is empty.
    pub fn delete_tail(&mut self) -> (deleted: Option<T>)
        requires
            old(self).wf(),
        ensures
            final(self).wf(),
            deleted == tail_value(old(self)@),
            final(self)@ == without_tail(old(self)@),
            final(self).length == old(self).length - (if deleted is Some { 1int } else { 0int }),
    {
        match self.tail {
            Some(last) => Some(self.splice_out(Ghost(old(self)@.len() - 1), last)),
            None => None,
        }
    }

    /// Deletes the value at position `index` and hands it out; the values
    /// behind it move one position forward. `None`, and no change, if the list
    /// is empty.
    ///
    /// With `index` 0 this is `delete_head`. Position `length` holds no value;
    /// as an index it stands for the last position, so that `index == length`
    /// is `delete_tail`.
    pub fn delete_ith(&mut self, index: u32) -> (deleted: Option<T>)
        requires
            old(self).wf(),
            index <= old(self).length,
        ensures
            final(self).wf(),
            deleted == value_deleted_at(old(self)@, index as int),
            final(self)@ == deleted_at(old(self)@, index as int),
            final(self).length == old(self).length - (if deleted is Some { 1int } else { 0int }),
    {
        if index == 0 || self.head.is_none() {
            return self.delete_head();
        }
        if self.length == index {
            return self.delete_tail();
        }
        match self.get_ith_node(index) {
            Some(ith_node) => Some(self.splice_out(Ghost(index as int), ith_node)),
            None => None,
        }
    }

    /// The value at position `index`; `None` if `index` is negative or not
    /// below `length`.
    pub fn get(&self, index: i32) -> (found: Option<&T>)
        requires
            self.wf(),
        ensures
            match value_at(self@, index as int) {
                Some(val) => found == Some(&val),
                None => found is None,
            },
    {
        if index < 0 {
            return None;
        }
        match self.get_ith_node(index as u32) {
            Some(ith_node) => {
                assert(self.handles().contains(ith_node));
                Some(&self.pool.get(ith_node).val)
            },
            None => None,
        }
    }
}

impl<T: Display> LinkedList<T> {
    /// The text of the node `h` and of every node behind it: their values as
    /// they display, in the order of the list, with a comma and a space
    /// between each two.
    pub fn node_to_string(&self, h: usize) -> (text: String)
        requires
            self.wf(),
            self.handles().contains(h),
        ensures
            exists|parts: Seq<String>|
                displayed_as(self@.skip(self.handles().index_of(h)), parts) && text@
                    == comma_separated(texts_of(parts)),
    {
        let ghost start = self.handles().index_of(h);
        let mut parts: Vec<String> = Vec::new();
        let mut cur = Some(h);
        let ghost mut at: int = start;
        loop
            invariant
                self.wf(),
                0 <= start <= at <= self.handles().len(),
                cur == self.handle_at(at),
                displayed_as(self@.subrange(start, at), parts@),
            ensures
                displayed_as(self@.skip(start), parts@),
            decreases self.handles().len() - at,
        {
            match cur {
                Some(here) => {
                    assert(self.handles().contains(here) && self.linked_at(at));
                    let node = self.pool.get(here);
                    parts.push(node.val.to_string());
                    cur = node.next;
                    proof {
                        at = at + 1;
                    }
                },
                None => {
                    break ;
                },
            }
        }
        join_with_commas(&parts)
    }

    /// The text of the list: the values as they display, first to last, with
    /// a comma and a space between each two. The text of an empty list is empty.
    pub fn to_string(&self) -> (text: String)
        requires
            self.wf(),
        ensures
            exists|parts: Seq<String>|
                displayed_as(self@, parts) && text@ == comma_separated(texts_of(parts)),
    {
        match self.head {
            Some(first) => {
                assert(self@.skip(0) =~= self@);
                self.node_to_string(first)
            },
            None => {
                let text = String::new();
                assert(displayed_as(self@, Seq::<String>::empty()));
                text
            },
        }
    }
}

} // verus!
