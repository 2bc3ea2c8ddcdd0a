//! The timeline: the simulation clock and the queue of pending events.
//!
//! The timeline hands out its pending events in the order of their times,
//! and events of equal time in the order in which it accepted them. Handing
//! out an event moves the clock to that event's time, and nothing else moves
//! the clock past a pending event or backwards: every pending event lies at
//! or after the current time.

use crate::heap::Slot;
use crate::heap::in_heap_order;
use crate::heap::lemma_root_fires_first;
use crate::heap::lemma_swap_remove_first;
use crate::heap::sift_down;
use crate::heap::sift_up;
use crate::model::ModelControl;
use crate::time::Time;
use crate::timeline_event::Event;
use vstd::prelude::*;
use vstd::seq_lib::*;

verus! {

/// Why the timeline refused a time.
#[derive(Clone, Copy, Debug, PartialEq, Eq, Hash, Structural)]
pub enum TimelineError {
    /// The time is not a number and cannot be ordered.
    NotANumber,
    /// The time lies before the current time.
    InThePast,
    /// The time lies after that of an event that is still pending.
    OvertakesPending,
    /// The timeline has accepted as many events as it can number.
    Exhausted,
}

/// Whether `k` is the index of the event that fires next: no pending event
/// is earlier, and every event accepted before it is strictly later.
pub open spec fn fires_next<A>(pending: Seq<Event<A>>, k: int) -> bool {
    &&& 0 <= k < pending.len()
    &&& forall|j: int| 0 <= j < pending.len() ==> pending[k].time@ <= (#[trigger] pending[j]).time@
    &&& forall|j: int| 0 <= j < k ==> pending[k].time@ < (#[trigger] pending[j]).time@
}

/// The index of the event that fires next: the first of those with the
/// earliest time. Zero when nothing is pending.
pub open spec fn next_index<A>(pending: Seq<Event<A>>) -> int
    decreases pending.len(),
{
    if pending.len() <= 1 {
        0
    } else {
        let k = next_index(pending.drop_last());
        if pending.last().time@ < pending[k].time@ {
            pending.len() - 1
        } else {
            k
        }
    }
}

/// The pending events in the order in which the timeline hands them out
/// when nothing more is scheduled.
pub open spec fn firing_order<A>(pending: Seq<Event<A>>) -> Seq<Event<A>>
    decreases pending.len(),
{
    if pending.len() == 0 {
        Seq::empty()
    } else {
        let k = next_index(pending);
        proof {
            lemma_next_index_fires_next(pending);
        }
        seq![pending[k]] + firing_order(pending.remove(k))
    }
}

/// The times of a sequence of events.
pub open spec fn times_of<A>(events: Seq<Event<A>>) -> Seq<Time> {
    Seq::new(events.len(), |i: int| events[i].time)
}

/// What a timeline is, to those who use it.
pub struct TimelineView<A> {
    /// The current simulation time.
    pub now: Time,
    /// The pending events, in the order in which they were accepted.
    pub pending: Seq<Event<A>>,
    /// How many events the timeline has accepted since it was made.
    pub accepted: nat,
}

impl<A> TimelineView<A> {
    /// The current time is a number, and every pending event has a time that
    /// is a number and does not lie before the current time.
    pub open spec fn causal(self) -> bool {
        &&& !self.now.is_nan()
        &&& forall|j: int|
            0 <= j < self.pending.len() ==> {
                &&& !(#[trigger] self.pending[j]).time.is_nan()
                &&& self.now@ <= self.pending[j].time@
            }
    }

    /// Why an event at `time` cannot be scheduled, if it cannot.
    pub open spec fn push_refusal(self, time: Time) -> Option<TimelineError> {
        if time.is_nan() {
            Some(TimelineError::NotANumber)
        } else if time@ < self.now@ {
            Some(TimelineError::InThePast)
        } else if self.accepted >= u64::MAX {
            Some(TimelineError::Exhausted)
        } else {
            None
        }
    }

    /// The timeline after it has accepted `event`.
    pub open spec fn pushed(self, event: Event<A>) -> TimelineView<A> {
        TimelineView {
            now: self.now,
            pending: self.pending.push(event),
            accepted: self.accepted + 1,
        }
    }

    /// Why the clock cannot be set to `time`, if it cannot.
    pub open spec fn clock_refusal(self, time: Time) -> Option<TimelineError> {
        if time.is_nan() {
            Some(TimelineError::NotANumber)
        } else if time@ < self.now@ {
            Some(TimelineError::InThePast)
        } else if exists|j: int|
            0 <= j < self.pending.len() && (#[trigger] self.pending[j]).time@ < time@ {
            Some(TimelineError::OvertakesPending)
        } else {
            None
        }
    }

    /// The timeline with its clock at `time`.
    pub open spec fn at(self, time: Time) -> TimelineView<A> {
        TimelineView { now: time, pending: self.pending, accepted: self.accepted }
    }

    /// The event that fires next, if any is pending.
    pub open spec fn next(self) -> Option<Event<A>> {
        if self.pending.len() == 0 {
            None
        } else {
            Some(self.pending[next_index(self.pending)])
        }
    }

    /// The timeline after it has handed out the event that fires next: that
    /// event is no longer pending and the clock stands at its time. Unchanged
    /// when nothing is pending.
    pub open spec fn popped(self) -> TimelineView<A> {
        if self.pending.len() == 0 {
            self
        } else {
            let k = next_index(self.pending);
            TimelineView {
                now: self.pending[k].time,
                pending: self.pending.remove(k),
                accepted: self.accepted,
            }
        }
    }
}

/// One use of a timeline.
pub enum Operation<A> {
    /// Scheduling an event.
    Push(Event<A>),
    /// Taking the event that fires next.
    Pop,
    /// Setting the clock.
    SetNow(Time),
}

/// The timeline after one operation; an operation that is refused leaves it
/// as it was.
pub open spec fn applied<A>(view: TimelineView<A>, operation: Operation<A>) -> TimelineView<A> {
    match operation {
        Operation::Push(event) => if view.push_refusal(event.time) is None {
            view.pushed(event)
        } else {
            view
        },
        Operation::Pop => view.popped(),
        Operation::SetNow(time) => if view.clock_refusal(time) is None {
            view.at(time)
        } else {
            view
        },
    }
}

/// The timeline after a sequence of operations.
pub open spec fn replayed<A>(view: TimelineView<A>, operations: Seq<Operation<A>>) -> TimelineView<
    A,
>
    decreases operations.len(),
{
    if operations.len() == 0 {
        view
    } else {
        applied(replayed(view, operations.drop_last()), operations.last())
    }
}

/// The events of a sequence of slots.
spec fn events_of<A>(order: Seq<Slot<A>>) -> Seq<Event<A>> {
    Seq::new(order.len(), |i: int| order[i].event)
}

/// The simulation clock and the queue of pending events.
pub struct Timeline<A> {
    now: Time,
    event_queue: Vec<Slot<A>>,
    next_seq: u64,
    order: Ghost<Seq<Slot<A>>>,
}

impl<A> View for Timeline<A> {
    type V = TimelineView<A>;

    closed spec fn view(&self) -> TimelineView<A> {
        TimelineView {
            now: self.now,
            pending: events_of(self.order@),
            accepted: self.next_seq as nat,
        }
    }
}

impl<A> Timeline<A> {
    /// The queue is a heap of the pending events, each numbered in the order
    /// of acceptance.
    pub closed spec fn inv(&self) -> bool {
        &&& in_heap_order(self.event_queue@)
        &&& self.event_queue@.to_multiset() == self.order@.to_multiset()
        &&& forall|i: int, j: int|
            0 <= i < j < self.order@.len() ==> (#[trigger] self.order@[i]).seq
                < (#[trigger] self.order@[j]).seq
        &&& forall|i: int|
            0 <= i < self.order@.len() ==> (#[trigger] self.order@[i]).seq < self.next_seq
    }

    /// The timeline is well formed: its queue is intact and no pending event
    /// lies before the current time.
    pub open spec fn wf(&self) -> bool {
        self.inv() && self@.causal()
    }

    /// A timeline at time zero with nothing pending.
    pub fn new() -> (timeline: Timeline<A>)
        ensures
            timeline.wf(),
            timeline@.now@ == 0,
            timeline@.pending == Seq::<Event<A>>::empty(),
            timeline@.accepted == 0,
    {
        Timeline {
            now: Time::zero(),
            event_queue: Vec::new(),
            next_seq: 0,
            order: Ghost(Seq::empty()),
        }
    }

    /// The current simulation time.
    pub fn now(&self) -> (now: Time)
        ensures
            now == self@.now,
    {
        self.now
    }

    /// The number of pending events.
    pub fn len(&self) -> (len: usize)
        requires
            self.wf(),
        ensures
            len == self@.pending.len(),
    {
        proof {
            to_multiset_len(self.event_queue@);
            to_multiset_len(self.order@);
        }
        self.event_queue.len()
    }

    /// Whether no event is pending.
    pub fn is_empty(&self) -> (empty: bool)
        requires
            self.wf(),
        ensures
            empty == (self@.pending.len() == 0),
    {
        self.len() == 0
    }

    /// The time of the event that fires next, if any is pending.
    pub fn next_time(&self) -> (time: Option<Time>)
        requires
            self.wf(),
        ensures
            time == match self@.next() {
                Some(event) => Some(event.time),
                None => None,
            },
    {
        if self.len() == 0 {
            None
        } else {
            proof {
                self.lemma_root_fires_next();
            }
            Some(self.event_queue[0].event.time)
        }
    }

    /// Sets the clock to `new_time` and returns it, provided that this moves
    /// the clock neither backwards nor past a pending event. Otherwise the
    /// timeline stays as it is.
    pub fn set_now(&mut self, new_time: Time) -> (result: Result<Time, TimelineError>)
        requires
            old(self).wf(),
        ensures
            final(self).wf(),
            result == match old(self)@.clock_refusal(new_time) {
                Some(error) => Err::<Time, TimelineError>(error),
                None => Ok(new_time),
            },
            final(self)@ == match old(self)@.clock_refusal(new_time) {
                Some(_) => old(self)@,
                None => old(self)@.at(new_time),
            },
    {
        if new_time.is_nan() {
            return Err(TimelineError::NotANumber);
        }
        if new_time.precedes(&self.now) {
            return Err(TimelineError::InThePast);
        }
        if self.len() > 0 {
            proof {
                self.lemma_root_fires_next();
            }
            if self.event_queue[0].event.time.precedes(&new_time) {
                return Err(TimelineError::OvertakesPending);
            }
        }
        self.now = new_time;
        Ok(new_time)
    }

    /// Schedules `event`, unless its time is not a number or lies before the
    /// current time, or the timeline can number no further event. A refused
    /// event is dropped and the timeline stays as it is.
    pub fn push(&mut self, event: Event<A>) -> (result: Result<(), TimelineError>)
        requires
            old(self).wf(),
        ensures
            final(self).wf(),
            result == match old(self)@.push_refusal(event.time) {
                Some(error) => Err::<(), TimelineError>(error),
                None => Ok(()),
            },
            final(self)@ == match old(self)@.push_refusal(event.time) {
                Some(_) => old(self)@,
                None => old(self)@.pushed(event),
            },
    {
        if event.time.is_nan() {
            return Err(TimelineError::NotANumber);
        }
        if event.time.precedes(&self.now) {
            return Err(TimelineError::InThePast);
        }
        if self.next_seq == u64::MAX {
            return Err(TimelineError::Exhausted);
        }
        let ghost before = self.event_queue@;
        let ghost order = self.order@;
        let slot = Slot { seq: self.next_seq, event };
        let ghost added = slot;
        let last: usize = self.event_queue.len();
        self.event_queue.push(slot);
        self.order = Ghost(order.push(added));
        self.next_seq = self.next_seq + 1;
        proof {
            to_multiset_build(before, added);
            to_multiset_build(order, added);
        }
        sift_up(&mut self.event_queue, last);
        proof {
            assert(self@.pending =~= old(self)@.pending.push(event));
        }
        Ok(())
    }

    /// Hands out the event that fires next and moves the clock to its time.
    /// When nothing is pending, returns `None` and leaves the timeline, its
    /// clock included, as it is.
    pub fn pop(&mut self) -> (popped: Option<Event<A>>)
        requires
            old(self).wf(),
        ensures
            final(self).wf(),
            popped == old(self)@.next(),
            final(self)@ == old(self)@.popped(),
            old(self)@.pending.len() == 0 ==> popped is None && final(self)@ == old(self)@,
            old(self)@.pending.len() > 0 ==> popped is Some,
            popped matches Some(event) ==> {
                &&& final(self)@.now == event.time
                &&& fires_next(old(self)@.pending, next_index(old(self)@.pending))
            },
            old(self)@.now@ <= final(self)@.now@,
    {
        if self.len() == 0 {
            return None;
        }
        let ghost before = self.event_queue@;
        let ghost order = self.order@;
        let ghost pending = self@.pending;
        proof {
            self.lemma_root_fires_next();
        }
        let ghost k = self.root_index();
        let slot = self.event_queue.swap_remove(0);
        self.order = Ghost(order.remove(k));
        proof {
            lemma_swap_remove_first(before);
            to_multiset_remove(order, k);
        }
        if self.event_queue.len() > 0 {
            sift_down(&mut self.event_queue, 0);
        }
        self.now = slot.event.time;
        proof {
            assert(self@.pending =~= pending.remove(k));
        }
        Some(slot.event)
    }

    /// The index, in order of acceptance, of the slot at the root of the heap.
    closed spec fn root_index(&self) -> int {
        choose|k: int| 0 <= k < self.order@.len() && self.order@[k] == self.event_queue@[0]
    }

    /// The slot at the root of the heap holds the event that fires next.
    proof fn lemma_root_fires_next(&self)
        requires
            self.inv(),
            self@.pending.len() > 0,
        ensures
            self.event_queue@.len() > 0,
            0 <= self.root_index() < self.order@.len(),
            self.order@[self.root_index()] == self.event_queue@[0],
            self.root_index() == next_index(self@.pending),
            fires_next(self@.pending, self.root_index()),
            self@.pending[self.root_index()] == self.event_queue@[0].event,
    {
        let heap = self.event_queue@;
        let order = self.order@;
        let pending = self@.pending;
        to_multiset_len(heap);
        to_multiset_len(order);
        lemma_same_members(heap, order, heap[0]);
        let k = self.root_index();
        assert forall|j: int| 0 <= j < pending.len() implies pending[k].time@ <= (
        #[trigger] pending[j]).time@ by {
            lemma_same_members(order, heap, order[j]);
            let i = choose|i: int| 0 <= i < heap.len() && heap[i] == order[j];
            lemma_root_fires_first(heap, i);
        }
        assert forall|j: int| 0 <= j < k implies pending[k].time@ < (#[trigger] pending[j]).time@ by {
            lemma_same_members(order, heap, order[j]);
            let i = choose|i: int| 0 <= i < heap.len() && heap[i] == order[j];
            lemma_root_fires_first(heap, i);
        }
        lemma_next_index_fires_next(pending);
        lemma_fires_next_unique(pending, k, next_index(pending));
    }
}

impl<A> Default for Timeline<A> {
    fn default() -> (timeline: Timeline<A>)
        ensures
            timeline.wf(),
            timeline@.now@ == 0,
            timeline@.pending == Seq::<Event<A>>::empty(),
            timeline@.accepted == 0,
    {
        Timeline::new()
    }
}

/// Drains the timeline by one event: takes the event that fires next, moves
/// the clock to its time, and returns its command for execution. When
/// nothing is pending, no command is returned and the control signal is set
/// to `Aborted`; otherwise the signal is left alone.
pub fn run_timeline_event<A>(timeline: &mut Timeline<A>, model_control: &mut ModelControl) -> (command:
    Option<A>)
    requires
        old(timeline).wf(),
    ensures
        final(timeline).wf(),
        final(timeline)@ == old(timeline)@.popped(),
        command == match old(timeline)@.next() {
            Some(event) => Some(event.command),
            None => None,
        },
        *final(model_control) == if old(timeline)@.pending.len() == 0 {
            ModelControl::Aborted
        } else {
            *old(model_control)
        },
        command is Some <==> old(timeline)@.pending.len() > 0,
        command is Some ==> final(timeline)@.pending.len() == old(timeline)@.pending.len() - 1,
{
    match timeline.pop() {
        Some(event) => Some(event.command),
        None => {
            *model_control = ModelControl::Aborted;
            None
        },
    }
}

/// Two sequences that hold the same elements have the same members.
proof fn lemma_same_members<A>(a: Seq<A>, b: Seq<A>, x: A)
    requires
        a.to_multiset() == b.to_multiset(),
        a.contains(x),
    ensures
        b.contains(x),
        exists|i: int| 0 <= i < b.len() && b[i] == x,
{
    to_multiset_contains(a, x);
    to_multiset_contains(b, x);
}

/// Where something is pending, `next_index` is the index of the event that
/// fires next.
pub proof fn lemma_next_index_fires_next<A>(pending: Seq<Event<A>>)
    requires
        pending.len() > 0,
    ensures
        fires_next(pending, next_index(pending)),
    decreases pending.len(),
{
    if pending.len() > 1 {
        let earlier = pending.drop_last();
        lemma_next_index_fires_next(earlier);
        let k = next_index(earlier);
        let n = next_index(pending);
        assert forall|j: int| 0 <= j < pending.len() implies pending[n].time@ <= (
        #[trigger] pending[j]).time@ by {
            if j < earlier.len() {
                assert(earlier[j] == pending[j]);
            }
        }
        assert forall|j: int| 0 <= j < n implies pending[n].time@ < (#[trigger] pending[j]).time@ by {
            assert(earlier[j] == pending[j]);
        }
    }
}

/// At most one event fires next.
pub proof fn lemma_fires_next_unique<A>(pending: Seq<Event<A>>, a: int, b: int)
    requires
        fires_next(pending, a),
        fires_next(pending, b),
    ensures
        a == b,
{
    if a < b {
        assert(pending[a].time@ <= pending[b].time@);
    } else if b < a {
        assert(pending[b].time@ <= pending[a].time@);
    }
}

/// While an event is pending, no event with a later time fires, nor one
/// with the same time that was accepted after it.
pub proof fn lemma_never_overtaken<A>(pending: Seq<Event<A>>, i: int, j: int)
    requires
        0 <= i < pending.len(),
        0 <= j < pending.len(),
        pending[i].time@ < pending[j].time@ || (pending[i].time@ == pending[j].time@ && i < j),
    ensures
        next_index(pending) != j,
{
    lemma_next_index_fires_next(pending);
}

/// One operation keeps the timeline causal and does not move the clock
/// backwards.
pub proof fn lemma_operation_keeps_causality<A>(view: TimelineView<A>, operation: Operation<A>)
    requires
        view.causal(),
    ensures
        applied(view, operation).causal(),
        view.now@ <= applied(view, operation).now@,
{
    if operation is Pop && view.pending.len() > 0 {
        lemma_next_index_fires_next(view.pending);
    }
}

/// Over any sequence of operations the clock never runs backwards, and no
/// pending event is ever left behind it.
pub proof fn lemma_clock_never_runs_backwards<A>(
    view: TimelineView<A>,
    operations: Seq<Operation<A>>,
)
    requires
        view.causal(),
    ensures
        replayed(view, operations).causal(),
        view.now@ <= replayed(view, operations).now@,
    decreases operations.len(),
{
    if operations.len() > 0 {
        lemma_clock_never_runs_backwards(view, operations.drop_last());
        lemma_operation_keeps_causality(
            replayed(view, operations.drop_last()),
            operations.last(),
        );
    }
}

/// The firing order is what taking one event after another yields: its
/// first entry is the event that fires next, and the rest is the firing
/// order of the timeline once that event has been taken.
pub proof fn lemma_firing_order_is_successive_pops<A>(view: TimelineView<A>)
    requires
        view.pending.len() > 0,
    ensures
        firing_order(view.pending).len() > 0,
        view.next() == Some(firing_order(view.pending)[0]),
        firing_order(view.popped().pending) == firing_order(view.pending).drop_first(),
{
}

/// Draining loses and invents nothing: the firing order holds exactly the
/// pending events, each as often as it is pending.
pub proof fn lemma_firing_order_keeps_events<A>(pending: Seq<Event<A>>)
    ensures
        firing_order(pending).to_multiset() == pending.to_multiset(),
        firing_order(pending).len() == pending.len(),
    decreases pending.len(),
{
    broadcast use vstd::multiset::group_multiset_axioms;

    if pending.len() == 0 {
        assert(firing_order(pending) =~= pending);
    } else {
        let k = next_index(pending);
        lemma_next_index_fires_next(pending);
        let rest = pending.remove(k);
        lemma_firing_order_keeps_events(rest);
        let tail = firing_order(rest);
        assert(firing_order(pending) =~= tail.insert(0, pending[k]));
        to_multiset_insert(tail, 0, pending[k]);
        to_multiset_remove(pending, k);
        to_multiset_contains(pending, pending[k]);
    }
}

/// Events fire in the order of their times: of two places in the firing
/// order, the earlier holds the event with the time that is not later.
pub proof fn lemma_firing_order_follows_time<A>(pending: Seq<Event<A>>, i: int, j: int)
    requires
        0 <= i <= j < pending.len(),
    ensures
        firing_order(pending).len() == pending.len(),
        firing_order(pending)[i].time@ <= firing_order(pending)[j].time@,
    decreases pending.len(),
{
    lemma_firing_order_keeps_events(pending);
    let k = next_index(pending);
    lemma_next_index_fires_next(pending);
    let rest = pending.remove(k);
    let tail = firing_order(rest);
    lemma_firing_order_keeps_events(rest);
    if i == 0 {
        if j > 0 {
            let later = tail[j - 1];
            lemma_same_members(tail, rest, later);
        }
    } else {
        lemma_firing_order_follows_time(rest, i - 1, j - 1);
    }
}

/// An event with a strictly earlier time fires strictly earlier, in
/// whatever order the two were scheduled.
pub proof fn lemma_earlier_time_fires_earlier<A>(pending: Seq<Event<A>>, i: int, j: int)
    requires
        0 <= i < pending.len(),
        0 <= j < pending.len(),
        firing_order(pending)[i].time@ < firing_order(pending)[j].time@,
    ensures
        i < j,
{
    if j <= i {
        lemma_firing_order_follows_time(pending, j, i);
    }
}

/// Which event fires next, and the times at which the events fire, depend
/// on the scheduled times alone, not on the commands.
pub proof fn lemma_firing_times_depend_on_times_alone<A, B>(a: Seq<Event<A>>, b: Seq<Event<B>>)
    requires
        times_of(a) == times_of(b),
    ensures
        next_index(a) == next_index(b),
        times_of(firing_order(a)) == times_of(firing_order(b)),
    decreases a.len(),
{
    assert(b.len() == times_of(b).len());
    assert forall|i: int| 0 <= i < a.len() implies a[i].time == b[i].time by {
        assert(times_of(b)[i] == b[i].time);
    }
    lemma_next_index_depends_on_times_alone(a, b);
    if a.len() > 0 {
        let k = next_index(a);
        lemma_next_index_fires_next(a);
        assert(times_of(a.remove(k)) =~= times_of(b.remove(k)));
        lemma_firing_times_depend_on_times_alone(a.remove(k), b.remove(k));
        lemma_firing_order_keeps_events(a.remove(k));
        lemma_firing_order_keeps_events(b.remove(k));
        let fa = firing_order(a);
        let fb = firing_order(b);
        let ta = firing_order(a.remove(k));
        let tb = firing_order(b.remove(k));
        assert forall|i: int| 0 <= i < fa.len() implies times_of(fa)[i] == times_of(fb)[i] by {
            if i > 0 {
                assert(times_of(ta)[i - 1] == times_of(tb)[i - 1]);
            }
        }
    }
}

/// Which event fires next depends on the scheduled times alone.
proof fn lemma_next_index_depends_on_times_alone<A, B>(a: Seq<Event<A>>, b: Seq<Event<B>>)
    requires
        a.len() == b.len(),
        forall|i: int| 0 <= i < a.len() ==> a[i].time == b[i].time,
    ensures
        next_index(a) == next_index(b),
    decreases a.len(),
{
    if a.len() > 1 {
        lemma_next_index_depends_on_times_alone(a.drop_last(), b.drop_last());
        lemma_next_index_fires_next(a.drop_last());
    }
}

} // verus!
