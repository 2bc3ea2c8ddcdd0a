//! The vocabulary of the tick loop: the phases of a round, the control
//! signal that behaviors use to stop the loop, and the loop's own state.
//!
//! A round runs the behaviors of the phase `First`, then those of `Normal`,
//! then those of `Last`. After each round the loop reads the control signal
//! once: on `Running` it starts another round, on any other value it stops
//! for good.

use std::cmp::Ordering;
use vstd::prelude::*;
use vstd::std_specs::cmp::PartialOrdSpecImpl;

verus! {

/// The three phases of a round, in the order in which they run.
#[derive(Clone, Copy, Debug, PartialEq, Eq, Ord, Hash, Structural)]
pub enum ExecutionPhase {
    First,
    Normal,
    Last,
}

impl ExecutionPhase {
    /// The place of this phase within a round, counted from zero.
    pub open spec fn position(self) -> int {
        match self {
            ExecutionPhase::First => 0,
            ExecutionPhase::Normal => 1,
            ExecutionPhase::Last => 2,
        }
    }

    /// The phase that follows this one within a round, if any does.
    pub open spec fn spec_next(self) -> Option<ExecutionPhase> {
        match self {
            ExecutionPhase::First => Some(ExecutionPhase::Normal),
            ExecutionPhase::Normal => Some(ExecutionPhase::Last),
            ExecutionPhase::Last => None,
        }
    }

    /// The phase with which every round begins.
    pub fn first() -> (phase: ExecutionPhase)
        ensures
            phase == ExecutionPhase::First,
    {
        ExecutionPhase::First
    }

    /// The phase that follows this one within a round, if any does.
    #[verifier::when_used_as_spec(spec_next)]
    pub fn next(self) -> (following: Option<ExecutionPhase>)
        ensures
            following == self.spec_next(),
    {
        match self {
            ExecutionPhase::First => Some(ExecutionPhase::Normal),
            ExecutionPhase::Normal => Some(ExecutionPhase::Last),
            ExecutionPhase::Last => None,
        }
    }

    /// Whether every behavior of this phase has completed before any
    /// behavior of `other` starts, within one round.
    pub fn runs_before(self, other: ExecutionPhase) -> (r: bool)
        ensures
            r == (self.position() < other.position()),
    {
        match (self, other) {
            (ExecutionPhase::First, ExecutionPhase::Normal) => true,
            (ExecutionPhase::First, ExecutionPhase::Last) => true,
            (ExecutionPhase::Normal, ExecutionPhase::Last) => true,
            _ => false,
        }
    }

    /// The phases are strictly ordered, `First` before `Normal` before
    /// `Last`; distinct phases have distinct positions, and `next` steps
    /// from each position to the one after it.
    pub proof fn lemma_phases_strictly_ordered(a: ExecutionPhase, b: ExecutionPhase)
        ensures
            ExecutionPhase::First.position() < ExecutionPhase::Normal.position()
                < ExecutionPhase::Last.position(),
            a == b <==> a.position() == b.position(),
            a.spec_next() == Some(b) <==> b.position() == a.position() + 1,
            a.spec_next() is None <==> a == ExecutionPhase::Last,
    {
    }
}

impl PartialOrd for ExecutionPhase {
    fn partial_cmp(&self, other: &ExecutionPhase) -> (r: Option<Ordering>) {
        if self.runs_before(*other) {
            Some(Ordering::Less)
        } else if other.runs_before(*self) {
            Some(Ordering::Greater)
        } else {
            Some(Ordering::Equal)
        }
    }
}

impl PartialOrdSpecImpl for ExecutionPhase {
    open spec fn obeys_partial_cmp_spec() -> bool {
        true
    }

    /// Phases compare as their positions within a round do.
    open spec fn partial_cmp_spec(&self, other: &ExecutionPhase) -> Option<Ordering> {
        if self.position() < other.position() {
            Some(Ordering::Less)
        } else if self.position() > other.position() {
            Some(Ordering::Greater)
        } else {
            Some(Ordering::Equal)
        }
    }
}

/// The signal through which behaviors ask the tick loop to stop.
#[derive(Clone, Copy, Debug, PartialEq, Eq, PartialOrd, Ord, Hash, Structural)]
pub enum ModelControl {
    /// The simulation goes on.
    Running,
    /// The simulation is suspended.
    Paused,
    /// The simulation stops on an error or on request.
    Aborted,
    /// The simulation has run to completion.
    Finished,
}

impl Default for ModelControl {
    fn default() -> (control: ModelControl)
        ensures
            control == ModelControl::Running,
    {
        ModelControl::Running
    }
}

impl ModelControl {
    /// Whether this value asks the loop to stop.
    pub open spec fn spec_is_terminal(self) -> bool {
        self != ModelControl::Running
    }

    /// Whether this value asks the loop to stop.
    #[verifier::when_used_as_spec(spec_is_terminal)]
    pub fn is_terminal(self) -> (r: bool)
        ensures
            r == self.spec_is_terminal(),
    {
        match self {
            ModelControl::Running => false,
            ModelControl::Paused | ModelControl::Aborted | ModelControl::Finished => true,
        }
    }
}

/// The state of the loop after a round at whose end it read `observed`: a
/// running loop takes on what it read, a stopped loop stays as it is.
pub open spec fn after_round(state: ModelControl, observed: ModelControl) -> ModelControl {
    if state == ModelControl::Running {
        observed
    } else {
        state
    }
}

/// The state of the loop after it was offered one round for each entry of
/// `observed`, the control signal as it stood at the end of that round.
pub open spec fn after_rounds(state: ModelControl, observed: Seq<ModelControl>) -> ModelControl
    decreases observed.len(),
{
    if observed.len() == 0 {
        state
    } else {
        after_round(after_rounds(state, observed.drop_last()), observed.last())
    }
}

/// The state of the tick loop.
///
/// The loop starts out running. Whoever drives it runs one round, reads the
/// control signal and reports it with `round_completed`; the answer says
/// whether to run another round. Once stopped, the loop stays stopped.
#[derive(Clone, Copy, Debug, PartialEq, Eq, Structural)]
pub struct TickLoop {
    state: ModelControl,
}

impl View for TickLoop {
    type V = ModelControl;

    /// `Running` while the loop goes on; otherwise the value that stopped it.
    closed spec fn view(&self) -> ModelControl {
        self.state
    }
}

impl TickLoop {
    /// A loop that is about to run its first round.
    pub fn new() -> (tick: TickLoop)
        ensures
            tick@ == ModelControl::Running,
    {
        TickLoop { state: ModelControl::Running }
    }

    /// `Running` while the loop goes on; otherwise the value that stopped it.
    pub fn state(&self) -> (state: ModelControl)
        ensures
            state == self@,
    {
        self.state
    }

    /// Whether the loop is to run another round.
    pub fn is_running(&self) -> (r: bool)
        ensures
            r == (self@ == ModelControl::Running),
    {
        !self.state.is_terminal()
    }

    /// Records that a round has completed and that the control signal read
    /// `observed` at its end. Returns whether the loop is to run another
    /// round.
    pub fn round_completed(&mut self, observed: ModelControl) -> (running: bool)
        ensures
            final(self)@ == after_round(old(self)@, observed),
            running == (final(self)@ == ModelControl::Running),
    {
        if !self.state.is_terminal() {
            self.state = observed;
        }
        !self.state.is_terminal()
    }

    /// Records that a module could not be initialized. A model with such a
    /// module must not run: a loop that was still to run stands aborted, as
    /// after a round that read `Aborted`; a stopped loop stays as it is.
    pub fn assembly_failed(&mut self)
        ensures
            final(self)@ == after_round(old(self)@, ModelControl::Aborted),
            final(self)@ != ModelControl::Running,
    {
        if !self.state.is_terminal() {
            self.state = ModelControl::Aborted;
        }
    }
}

impl Default for TickLoop {
    fn default() -> (tick: TickLoop)
        ensures
            tick@ == ModelControl::Running,
    {
        TickLoop::new()
    }
}

/// A loop that starts out running is still running after a number of rounds
/// exactly when the control signal read `Running` at the end of each of them.
pub proof fn lemma_runs_while_running(observed: Seq<ModelControl>)
    ensures
        after_rounds(ModelControl::Running, observed) == ModelControl::Running <==> forall|i: int|
            0 <= i < observed.len() ==> observed[i] == ModelControl::Running,
    decreases observed.len(),
{
    if observed.len() > 0 {
        let earlier = observed.drop_last();
        lemma_runs_while_running(earlier);
        if after_rounds(ModelControl::Running, observed) == ModelControl::Running {
            assert forall|i: int| 0 <= i < observed.len() implies observed[i]
                == ModelControl::Running by {
                if i < earlier.len() {
                    assert(earlier[i] == observed[i]);
                }
            }
        } else if after_rounds(ModelControl::Running, earlier) != ModelControl::Running {
            let i = choose|i: int| 0 <= i < earlier.len() && earlier[i] != ModelControl::Running;
            assert(observed[i] != ModelControl::Running);
        }
    }
}

/// The first round at whose end the control signal does not read `Running`
/// stops the loop for good: the loop keeps the value it read then, whatever
/// the signal reads afterwards.
pub proof fn lemma_stops_for_good(observed: Seq<ModelControl>, k: int)
    requires
        0 <= k < observed.len(),
        observed[k] != ModelControl::Running,
        forall|i: int| 0 <= i < k ==> observed[i] == ModelControl::Running,
    ensures
        after_rounds(ModelControl::Running, observed) == observed[k],
    decreases observed.len(),
{
    let earlier = observed.drop_last();
    if k == observed.len() - 1 {
        lemma_runs_while_running(earlier);
    } else {
        lemma_stops_for_good(earlier, k);
    }
}

} // verus!
