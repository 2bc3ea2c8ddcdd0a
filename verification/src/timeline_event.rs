//! Events: time-stamped units of deferred work.
//!
//! An event pairs the time at which it fires with a command, the work to do
//! then. The kernel never looks inside a command: it only carries it from
//! the one who schedules it to the one who executes it.
//!
//! Events compare by time alone, and in reverse: the event that fires sooner
//! is the greater one, so that a collection that hands out its greatest item
//! first hands out events in the order in which they fire.

use crate::time::Time;
use std::cmp::Ordering;
use vstd::prelude::*;
use vstd::std_specs::cmp::PartialEqSpecImpl;
use vstd::std_specs::cmp::PartialOrdSpecImpl;

verus! {

/// A command and the time at which it is to be executed.
#[derive(Debug)]
pub struct Event<A> {
    pub time: Time,
    pub command: A,
}

/// How `a` compares to `b` as events do: the sooner time is the greater.
pub open spec fn sooner_is_greater(a: Time, b: Time) -> Ordering {
    if a@ < b@ {
        Ordering::Greater
    } else if a@ == b@ {
        Ordering::Equal
    } else {
        Ordering::Less
    }
}

impl<A> Event<A> {
    /// An event that executes `command` at `time`.
    pub fn new(time: Time, command: A) -> (event: Event<A>)
        ensures
            event.time == time,
            event.command == command,
    {
        Event { time, command }
    }

    /// Compares two events by their times, the sooner being the greater.
    pub fn cmp(&self, other: &Event<A>) -> (r: Ordering)
        ensures
            r == sooner_is_greater(self.time, other.time),
    {
        if self.time.precedes(&other.time) {
            Ordering::Greater
        } else if other.time.precedes(&self.time) {
            Ordering::Less
        } else {
            Ordering::Equal
        }
    }
}

impl<A> PartialEq for Event<A> {
    fn eq(&self, other: &Event<A>) -> (r: bool) {
        self.time == other.time
    }
}

impl<A> PartialEqSpecImpl for Event<A> {
    open spec fn obeys_eq_spec() -> bool {
        true
    }

    /// Events are equal when their times are, whatever their commands.
    open spec fn eq_spec(&self, other: &Event<A>) -> bool {
        self.time == other.time
    }
}

impl<A> Eq for Event<A> {

}

impl<A> PartialOrd for Event<A> {
    fn partial_cmp(&self, other: &Event<A>) -> (r: Option<Ordering>) {
        Some(self.cmp(other))
    }
}

impl<A> PartialOrdSpecImpl for Event<A> {
    open spec fn obeys_partial_cmp_spec() -> bool {
        true
    }

    open spec fn partial_cmp_spec(&self, other: &Event<A>) -> Option<Ordering> {
        Some(sooner_is_greater(self.time, other.time))
    }
}

} // verus!
