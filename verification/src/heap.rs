//! The binary heap under the timeline.
//!
//! The pending events stand in a vector, each in a slot that also holds the
//! number under which it was accepted. Slots are ordered by time, and among
//! equal times by that number, so no two slots of one heap are ever tied.
//! The vector is kept in heap order: no slot fires before its parent does,
//! hence the slot at the root fires first.

use crate::timeline_event::Event;
use vstd::multiset::*;
use vstd::prelude::*;
use vstd::seq_lib::*;

verus! {

/// `<[T]>::swap` of std: exchanges the elements at two indices of a slice
/// and leaves the others alone. It panics when an index is out of bounds,
/// which the precondition rules out.
pub assume_specification<T>[ <[T]>::swap ](slice: &mut [T], a: usize, b: usize)
    requires
        a < old(slice)@.len(),
        b < old(slice)@.len(),
    ensures
        final(slice)@ == old(slice)@.update(a as int, old(slice)@[b as int]).update(
            b as int,
            old(slice)@[a as int],
        ),
;

/// A pending event and the number under which the timeline accepted it.
pub(crate) struct Slot<A> {
    pub(crate) seq: u64,
    pub(crate) event: Event<A>,
}

/// `a` fires strictly before `b`: at an earlier time, or at the same time
/// and accepted earlier.
pub(crate) open spec fn fires_before<A>(a: Slot<A>, b: Slot<A>) -> bool {
    a.event.time@ < b.event.time@ || (a.event.time@ == b.event.time@ && a.seq < b.seq)
}

/// `b` does not fire before `a`.
pub(crate) open spec fn fires_no_later<A>(a: Slot<A>, b: Slot<A>) -> bool {
    a.event.time@ < b.event.time@ || (a.event.time@ == b.event.time@ && a.seq <= b.seq)
}

/// The index of the parent of the slot at index `i > 0`.
pub(crate) open spec fn parent_of(i: int) -> int {
    (i - 1) / 2
}

/// Heap order: no slot fires before its parent.
pub(crate) open spec fn in_heap_order<A>(s: Seq<Slot<A>>) -> bool {
    forall|j: int| 0 < j < s.len() ==> fires_no_later(s[parent_of(j)], #[trigger] s[j])
}

/// Heap order but for the slot at `hole`, which may fire before its parent;
/// the children of `hole` are in order with its parent.
pub(crate) open spec fn in_heap_order_but_above<A>(s: Seq<Slot<A>>, hole: int) -> bool {
    &&& forall|j: int|
        0 < j < s.len() && j != hole ==> fires_no_later(s[parent_of(j)], #[trigger] s[j])
    &&& forall|j: int|
        0 < j < s.len() && parent_of(j) == hole && hole > 0 ==> fires_no_later(
            s[parent_of(hole)],
            #[trigger] s[j],
        )
}

/// Heap order but for the slot at `hole`, whose children may fire before
/// it; they are in order with its parent.
pub(crate) open spec fn in_heap_order_but_below<A>(s: Seq<Slot<A>>, hole: int) -> bool {
    &&& forall|j: int|
        0 < j < s.len() && parent_of(j) != hole ==> fires_no_later(
            s[parent_of(j)],
            #[trigger] s[j],
        )
    &&& forall|j: int|
        0 < j < s.len() && parent_of(j) == hole && hole > 0 ==> fires_no_later(
            s[parent_of(hole)],
            #[trigger] s[j],
        )
}

/// In heap order, no slot fires before the root.
pub(crate) proof fn lemma_root_fires_first<A>(s: Seq<Slot<A>>, i: int)
    requires
        in_heap_order(s),
        0 <= i < s.len(),
    ensures
        fires_no_later(s[0], s[i]),
    decreases i,
{
    if i > 0 {
        lemma_root_fires_first(s, parent_of(i));
    }
}

/// Exchanging two elements of a sequence keeps what it holds.
pub(crate) proof fn lemma_swap_keeps_multiset<A>(s: Seq<A>, i: int, j: int)
    requires
        0 <= i < s.len(),
        0 <= j < s.len(),
    ensures
        s.update(i, s[j]).update(j, s[i]).to_multiset() == s.to_multiset(),
{
    broadcast use group_multiset_axioms;

    let mid = s.update(i, s[j]);
    to_multiset_update(s, i, s[j]);
    to_multiset_update(mid, j, s[i]);
    to_multiset_contains(s, s[i]);
    to_multiset_contains(s, s[j]);
}

/// Taking out the first element by moving the last into its place takes
/// exactly the first element out of what the sequence holds.
pub(crate) proof fn lemma_swap_remove_first<A>(s: Seq<A>)
    requires
        s.len() > 0,
    ensures
        s.update(0, s.last()).drop_last().to_multiset() == s.to_multiset().remove(s[0]),
{
    broadcast use group_multiset_axioms;

    let mid = s.update(0, s.last());
    to_multiset_update(s, 0, s.last());
    to_multiset_remove(mid, s.len() - 1);
    to_multiset_contains(s, s[0]);
    to_multiset_contains(s, s.last());
}

/// Whether `a` fires strictly before `b`.
pub(crate) fn slot_precedes<A>(a: &Slot<A>, b: &Slot<A>) -> (r: bool)
    ensures
        r == fires_before(*a, *b),
{
    if a.event.time.precedes(&b.event.time) {
        true
    } else if b.event.time.precedes(&a.event.time) {
        false
    } else {
        a.seq < b.seq
    }
}

/// Restores heap order after the slot at `start` was put where it may fire
/// before its ancestors: moves it up until its parent fires no later.
pub(crate) fn sift_up<A>(heap: &mut Vec<Slot<A>>, start: usize)
    requires
        start < old(heap)@.len(),
        in_heap_order_but_above(old(heap)@, start as int),
    ensures
        in_heap_order(final(heap)@),
        final(heap)@.to_multiset() == old(heap)@.to_multiset(),
        final(heap)@.len() == old(heap)@.len(),
{
    let mut i: usize = start;
    while i > 0
        invariant
            i < heap@.len(),
            heap@.len() == old(heap)@.len(),
            heap@.to_multiset() == old(heap)@.to_multiset(),
            in_heap_order_but_above(heap@, i as int),
        decreases i,
    {
        let p: usize = (i - 1) / 2;
        if !slot_precedes(&heap[i], &heap[p]) {
            return ;
        }
        let ghost before = heap@;
        heap.swap(i, p);
        proof {
            lemma_swap_keeps_multiset(before, i as int, p as int);
        }
        i = p;
    }
}

/// Restores heap order after the slot at `start` was put where its
/// descendants may fire before it: moves it down, each time below the child
/// that fires first, until neither child fires before it.
pub(crate) fn sift_down<A>(heap: &mut Vec<Slot<A>>, start: usize)
    requires
        start < old(heap)@.len(),
        in_heap_order_but_below(old(heap)@, start as int),
    ensures
        in_heap_order(final(heap)@),
        final(heap)@.to_multiset() == old(heap)@.to_multiset(),
        final(heap)@.len() == old(heap)@.len(),
{
    let n: usize = heap.len();
    let mut i: usize = start;
    while i < n / 2
        invariant
            i < n,
            n == heap@.len(),
            heap@.len() == old(heap)@.len(),
            heap@.to_multiset() == old(heap)@.to_multiset(),
            in_heap_order_but_below(heap@, i as int),
        decreases n - i,
    {
        let left: usize = 2 * i + 1;
        let right: usize = left + 1;
        let mut child: usize = left;
        if right < n && slot_precedes(&heap[right], &heap[left]) {
            child = right;
        }
        if !slot_precedes(&heap[child], &heap[i]) {
            return ;
        }
        let ghost before = heap@;
        heap.swap(i, child);
        proof {
            lemma_swap_keeps_multiset(before, i as int, child as int);
        }
        i = child;
    }
}

} // verus!
