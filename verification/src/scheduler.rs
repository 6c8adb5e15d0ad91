//! The cadence of the collector: collect and deliver, sleep, and again,
//! without end.
//!
//! The scheduler decides; its caller acts. The caller asks for the action of
//! the phase, performs it, and reports what happened; the scheduler then
//! moves on.

use vstd::prelude::*;

verus! {

/// Where a cycle stands.
#[derive(Clone, Copy, Debug, PartialEq, Eq, Structural)]
pub enum Phase {
    /// The lines are gathered and the batch is sent.
    Collecting,
    /// The interval passes.
    Sleeping,
}

/// What the caller does in a phase.
#[derive(Clone, Copy, Debug, PartialEq, Eq, Structural)]
pub enum Action {
    /// Gather the lines of all sources and send them as one batch, once.
    CollectAndSend,
    /// Sleep for so many seconds.
    Sleep(u64),
}

/// What the caller reports.
#[derive(Clone, Copy, Debug, PartialEq, Eq, Structural)]
pub enum Event {
    /// The batch was sent and an answer came back.
    Delivered,
    /// The batch was sent and no answer came back. The batch is gone: it is
    /// not sent again.
    DeliveryFailed,
    /// The sleep is over.
    Woke,
}

/// The action of a phase, for an interval in seconds.
pub open spec fn action_of(phase: Phase, interval: u64) -> Action {
    match phase {
        Phase::Collecting => Action::CollectAndSend,
        Phase::Sleeping => Action::Sleep(interval),
    }
}

/// The phase that follows on an event. Collecting ends with the delivery,
/// however it went; sleeping ends with the waking. An event that does not
/// belong to the phase changes nothing.
pub open spec fn next_phase(phase: Phase, event: Event) -> Phase {
    match (phase, event) {
        (Phase::Collecting, Event::Delivered) => Phase::Sleeping,
        (Phase::Collecting, Event::DeliveryFailed) => Phase::Sleeping,
        (Phase::Sleeping, Event::Woke) => Phase::Collecting,
        _ => phase,
    }
}

/// The phase after a run of events.
pub open spec fn phase_after(phase: Phase, events: Seq<Event>) -> Phase
    decreases events.len(),
{
    if events.len() == 0 {
        phase
    } else {
        next_phase(phase_after(phase, events.drop_last()), events.last())
    }
}

/// The scheduler: the phase it is in, and the interval between two cycles.
/// It keeps nothing else from one cycle to the next.
#[derive(Clone, Copy, Debug)]
pub struct Scheduler {
    phase: Phase,
    interval: u64,
}

impl Scheduler {
    /// The phase that the scheduler is in.
    pub closed spec fn phase(&self) -> Phase {
        self.phase
    }

    /// The seconds that the scheduler sleeps between two cycles.
    pub closed spec fn interval(&self) -> u64 {
        self.interval
    }

    /// A scheduler at its start: it collects at once.
    pub fn new(dump_interval_seconds: u64) -> (scheduler: Self)
        ensures
            scheduler.phase() == Phase::Collecting,
            scheduler.interval() == dump_interval_seconds,
    {
        Scheduler { phase: Phase::Collecting, interval: dump_interval_seconds }
    }

    /// The phase that the scheduler is in.
    pub fn current_phase(&self) -> (phase: Phase)
        ensures
            phase == self.phase(),
    {
        self.phase
    }

    /// What the caller does now.
    pub fn action(&self) -> (action: Action)
        ensures
            action == action_of(self.phase(), self.interval()),
    {
        match self.phase {
            Phase::Collecting => Action::CollectAndSend,
            Phase::Sleeping => Action::Sleep(self.interval),
        }
    }

    /// Takes note of what happened and moves on.
    pub fn advance(&mut self, event: Event)
        ensures
            final(self).phase() == next_phase(old(self).phase(), event),
            final(self).interval() == old(self).interval(),
    {
        let next = match (self.phase, event) {
            (Phase::Collecting, Event::Delivered) => Phase::Sleeping,
            (Phase::Collecting, Event::DeliveryFailed) => Phase::Sleeping,
            (Phase::Sleeping, Event::Woke) => Phase::Collecting,
            (phase, _) => phase,
        };
        self.phase = next;
    }
}

/// A delivery that failed ends the collecting as one that went well does:
/// the scheduler then sleeps, for the interval and not otherwise, and on
/// waking collects again.
pub proof fn lemma_failure_keeps_the_cadence(interval: u64, outcome: Event)
    requires
        outcome == Event::Delivered || outcome == Event::DeliveryFailed,
    ensures
        next_phase(Phase::Collecting, outcome) == Phase::Sleeping,
        action_of(next_phase(Phase::Collecting, outcome), interval) == Action::Sleep(interval),
        phase_after(Phase::Collecting, seq![outcome, Event::Woke]) == Phase::Collecting,
        action_of(phase_after(Phase::Collecting, seq![outcome, Event::Woke]), interval)
            == Action::CollectAndSend,
{
    let events = seq![outcome, Event::Woke];
    assert(events.drop_last() =~= seq![outcome]);
    assert(seq![outcome].drop_last() =~= Seq::<Event>::empty());
    reveal_with_fuel(phase_after, 3);
}

/// There is no last phase: whatever happens, the scheduler is collecting or
/// sleeping, and some event moves it on.
pub proof fn lemma_never_ends(phase: Phase)
    ensures
        exists|event: Event| next_phase(phase, event) != phase,
{
    match phase {
        Phase::Collecting => {
            assert(next_phase(phase, Event::Delivered) != phase);
        },
        Phase::Sleeping => {
            assert(next_phase(phase, Event::Woke) != phase);
        },
    }
}

} // verus!
