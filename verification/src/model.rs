//! The list operations as functions on mathematical sequences.
//!
//! A list is described by the sequence of its values, first to last. Each
//! operation of `LinkedList` is specified by one of the functions below.

use vstd::prelude::*;

verus! {

/// The sequence after `v` was put in front.
pub open spec fn inserted_at_head<T>(s: Seq<T>, v: T) -> Seq<T> {
    seq![v] + s
}

/// The sequence after `v` was put behind the last value.
pub open spec fn inserted_at_tail<T>(s: Seq<T>, v: T) -> Seq<T> {
    s.push(v)
}

/// The sequence after `v` was put at position `i`; what stood at `i` or behind moves one back.
pub open spec fn inserted_at<T>(s: Seq<T>, i: int, v: T) -> Seq<T>
    recommends
        0 <= i <= s.len(),
{
    s.insert(i, v)
}

/// The value that deleting the head hands out: the first one, if there is any.
pub open spec fn head_value<T>(s: Seq<T>) -> Option<T> {
    if s.len() == 0 {
        None
    } else {
        Some(s[0])
    }
}

/// The sequence after its head was deleted. An empty sequence stays empty.
pub open spec fn without_head<T>(s: Seq<T>) -> Seq<T> {
    if s.len() == 0 {
        s
    } else {
        s.subrange(1, s.len() as int)
    }
}

/// The value that deleting the tail hands out: the last one, if there is any.
pub open spec fn tail_value<T>(s: Seq<T>) -> Option<T> {
    if s.len() == 0 {
        None
    } else {
        Some(s[s.len() - 1])
    }
}

/// The sequence after its tail was deleted. An empty sequence stays empty.
pub open spec fn without_tail<T>(s: Seq<T>) -> Seq<T> {
    if s.len() == 0 {
        s
    } else {
        s.subrange(0, s.len() - 1)
    }
}

/// The value that deleting at position `i` hands out.
///
/// Position `s.len()` names no value of its own; it stands for the tail.
pub open spec fn value_deleted_at<T>(s: Seq<T>, i: int) -> Option<T>
    recommends
        0 <= i <= s.len(),
{
    if s.len() == 0 {
        None
    } else if i == s.len() {
        tail_value(s)
    } else {
        Some(s[i])
    }
}

/// The sequence after the value at position `i` was deleted.
///
/// Position `s.len()` names no value of its own; it stands for the tail.
pub open spec fn deleted_at<T>(s: Seq<T>, i: int) -> Seq<T>
    recommends
        0 <= i <= s.len(),
{
    if s.len() == 0 {
        s
    } else if i == s.len() {
        without_tail(s)
    } else {
        s.remove(i)
    }
}

/// The value at position `i`, if `i` is a position of the sequence.
pub open spec fn value_at<T>(s: Seq<T>, i: int) -> Option<T> {
    if 0 <= i < s.len() {
        Some(s[i])
    } else {
        None
    }
}

/// The sequence after the values of `vals` were put at the tail, one after another.
pub open spec fn inserted_all_at_tail<T>(s: Seq<T>, vals: Seq<T>) -> Seq<T>
    decreases vals.len(),
{
    if vals.len() == 0 {
        s
    } else {
        inserted_at_tail(inserted_all_at_tail(s, vals.drop_last()), vals.last())
    }
}

/// The sequence after the values of `vals` were put at the head, one after another.
pub open spec fn inserted_all_at_head<T>(s: Seq<T>, vals: Seq<T>) -> Seq<T>
    decreases vals.len(),
{
    if vals.len() == 0 {
        s
    } else {
        inserted_at_head(inserted_all_at_head(s, vals.drop_last()), vals.last())
    }
}

/// Values put at the tail one after another stand behind what was there, in
/// the order in which they were put: the `i`-th of them is found `i`
/// positions behind the old end. In a list that was empty, the `i`-th value
/// put is the value at position `i`.
pub proof fn lemma_tail_inserts_keep_order<T>(s: Seq<T>, vals: Seq<T>)
    ensures
        inserted_all_at_tail(s, vals) == s + vals,
        forall|i: int|
            0 <= i < vals.len() ==> value_at(inserted_all_at_tail(s, vals), s.len() + i) == Some(
                #[trigger] vals[i],
            ),
    decreases vals.len(),
{
    if vals.len() > 0 {
        lemma_tail_inserts_keep_order(s, vals.drop_last());
    }
}

/// After any number of values were put at the head, the one put last is the
/// value at position 0, and the one put just before it stands at position 1,
/// and so on, down to what was there at the start.
pub proof fn lemma_head_insert_is_first<T>(s: Seq<T>, vals: Seq<T>)
    ensures
        inserted_all_at_head(s, vals) == vals.reverse() + s,
        vals.len() > 0 ==> value_at(inserted_all_at_head(s, vals), 0) == Some(vals.last()),
    decreases vals.len(),
{
    if vals.len() > 0 {
        lemma_head_insert_is_first(s, vals.drop_last());
    }
}

/// To insert at position 0 is to insert at the head, and to insert at the
/// position just behind the last value is to insert at the tail.
pub proof fn lemma_insert_at_ends<T>(s: Seq<T>, v: T)
    ensures
        inserted_at(s, 0, v) == inserted_at_head(s, v),
        inserted_at(s, s.len() as int, v) == inserted_at_tail(s, v),
{
}

/// To delete at the position at which a value was just inserted hands that
/// value out and gives back the sequence as it was before the insert.
pub proof fn lemma_insert_then_delete<T>(s: Seq<T>, i: int, v: T)
    requires
        0 <= i <= s.len(),
    ensures
        value_deleted_at(inserted_at(s, i, v), i) == Some(v),
        deleted_at(inserted_at(s, i, v), i) == s,
{
}

/// An operation that changes a list. Each variant stands for the operation
/// of `LinkedList` of the same name, with the arguments it takes.
pub enum Op<T> {
    InsertAtHead(T),
    InsertAtTail(T),
    InsertAtIth(u32, T),
    DeleteHead,
    DeleteTail,
    DeleteIth(u32),
}

impl<T> Op<T> {
    /// The index that the operation is given, if it takes one, is at most the length of `s`.
    pub open spec fn in_bounds(self, s: Seq<T>) -> bool {
        match self {
            Op::InsertAtIth(i, _) => i <= s.len(),
            Op::DeleteIth(i) => i <= s.len(),
            _ => true,
        }
    }

    /// The sequence that the operation makes of `s`.
    pub open spec fn apply(self, s: Seq<T>) -> Seq<T> {
        match self {
            Op::InsertAtHead(v) => inserted_at_head(s, v),
            Op::InsertAtTail(v) => inserted_at_tail(s, v),
            Op::InsertAtIth(i, v) => inserted_at(s, i as int, v),
            Op::DeleteHead => without_head(s),
            Op::DeleteTail => without_tail(s),
            Op::DeleteIth(i) => deleted_at(s, i as int),
        }
    }

    /// The value that the operation hands out when it is applied to `s`.
    pub open spec fn yields(self, s: Seq<T>) -> Option<T> {
        match self {
            Op::DeleteHead => head_value(s),
            Op::DeleteTail => tail_value(s),
            Op::DeleteIth(i) => value_deleted_at(s, i as int),
            _ => None,
        }
    }

    /// The operation is an insert.
    pub open spec fn is_insert(self) -> bool {
        self is InsertAtHead || self is InsertAtTail || self is InsertAtIth
    }
}

/// The operations of `ops` can be applied one after another to a list that
/// starts out empty, each with its index in bounds.
pub open spec fn all_in_bounds<T>(ops: Seq<Op<T>>) -> bool
    decreases ops.len(),
{
    ops.len() > 0 ==> all_in_bounds(ops.drop_last()) && ops.last().in_bounds(
        after_all(ops.drop_last()),
    )
}

/// The sequence after the operations of `ops` were applied, one after
/// another, to a list that starts out empty.
pub open spec fn after_all<T>(ops: Seq<Op<T>>) -> Seq<T>
    decreases ops.len(),
{
    if ops.len() == 0 {
        Seq::empty()
    } else {
        ops.last().apply(after_all(ops.drop_last()))
    }
}

/// The number of inserts among `ops`.
pub open spec fn inserts_among<T>(ops: Seq<Op<T>>) -> nat
    decreases ops.len(),
{
    if ops.len() == 0 {
        0
    } else {
        inserts_among(ops.drop_last()) + (if ops.last().is_insert() {
            1nat
        } else {
            0nat
        })
    }
}

/// The number of deletes among `ops` that handed out a value, when `ops` were
/// applied one after another to a list that starts out empty.
pub open spec fn deletes_among<T>(ops: Seq<Op<T>>) -> nat
    decreases ops.len(),
{
    if ops.len() == 0 {
        0
    } else {
        deletes_among(ops.drop_last()) + (if ops.last().yields(after_all(ops.drop_last()))
            is Some {
            1nat
        } else {
            0nat
        })
    }
}

/// After any operations on a list that starts out empty, the number of values
/// is the number of inserts less the number of deletes that handed out a value.
pub proof fn lemma_length_counts_inserts_less_deletes<T>(ops: Seq<Op<T>>)
    requires
        all_in_bounds(ops),
    ensures
        after_all(ops).len() == inserts_among(ops) - deletes_among(ops),
    decreases ops.len(),
{
    if ops.len() > 0 {
        lemma_length_counts_inserts_less_deletes(ops.drop_last());
    }
}

} // verus!
