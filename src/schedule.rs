//! The decisions of the background poll loop: when a cycle starts, and that
//! a cycle's end, however it ended, leads back to waiting.
use vstd::prelude::*;

verus! {

/// Seconds between the end of one poll cycle and the start of the next.
pub const POLL_EVENTS_INTERVAL_SECS: u64 = 300;

/// Whether the loop is waiting for its timer or running a cycle.
#[derive(Clone, Copy, Debug, PartialEq, Eq, Structural)]
pub enum PollState {
    Idle,
    Polling,
}

/// What happened to the loop.
#[derive(Clone, Copy, Debug, PartialEq, Eq, Structural)]
pub enum PollEvent {
    /// The wait between cycles is over.
    TimerExpired,
    /// The running cycle ended, successfully or not.
    CycleFinished { succeeded: bool },
}

/// What the loop does next.
#[derive(Clone, Copy, Debug, PartialEq, Eq, Structural)]
pub enum PollAction {
    /// Run one poll cycle to its end.
    StartCycle,
    /// Wait for the given number of seconds.
    Sleep(u64),
    /// Nothing: the event does not fit the state.
    Ignore,
}

/// The next state and action for an event.
pub open spec fn poll_step(state: PollState, event: PollEvent) -> (PollState, PollAction) {
    match (state, event) {
        (PollState::Idle, PollEvent::TimerExpired) => (PollState::Polling, PollAction::StartCycle),
        (PollState::Polling, PollEvent::CycleFinished { .. }) => (
            PollState::Idle,
            PollAction::Sleep(POLL_EVENTS_INTERVAL_SECS),
        ),
        _ => (state, PollAction::Ignore),
    }
}

/// The poll loop's state.
#[derive(Clone, Copy, Debug, PartialEq, Eq, Structural)]
pub struct PollScheduler {
    pub state: PollState,
}

impl PollScheduler {
    /// The loop for a process whose provider credentials are `configured`:
    /// none without them; otherwise one that starts with a cycle.
    pub fn start(configured: bool) -> (r: Option<PollScheduler>)
        ensures
            r is Some <==> configured,
            r matches Some(s) ==> s.state == PollState::Polling,
    {
        if configured {
            Some(PollScheduler { state: PollState::Polling })
        } else {
            None
        }
    }

    /// Moves the loop on by one event and returns what to do next.
    pub fn step(&mut self, event: PollEvent) -> (r: PollAction)
        ensures
            (final(self).state, r) == poll_step(old(self).state, event),
    {
        match (self.state, event) {
            (PollState::Idle, PollEvent::TimerExpired) => {
                self.state = PollState::Polling;
                PollAction::StartCycle
            },
            (PollState::Polling, PollEvent::CycleFinished { .. }) => {
                self.state = PollState::Idle;
                PollAction::Sleep(POLL_EVENTS_INTERVAL_SECS)
            },
            _ => PollAction::Ignore,
        }
    }
}

/// A cycle that ends, whether it succeeded or failed, returns the loop to
/// waiting for the full interval; and a timer that fires while a cycle runs
/// starts no second cycle.
pub proof fn lemma_cycle_end_returns_to_idle(succeeded: bool)
    ensures
        poll_step(PollState::Polling, PollEvent::CycleFinished { succeeded }) == (
        PollState::Idle,
        PollAction::Sleep(POLL_EVENTS_INTERVAL_SECS),
        ),
        poll_step(PollState::Polling, PollEvent::TimerExpired) == (PollState::Polling, PollAction::Ignore),
{
}

} // verus!
