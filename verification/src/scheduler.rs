//! The process-wide control loop, as a state machine.
//!
//! The process first checks store connectivity: failure is terminal.  From
//! then on it alternates forever between running one full pipeline pass to
//! completion and sleeping for the configured interval.  The loop itself —
//! the passes, the sleeps, the process exit — runs outside the library and
//! feeds each outcome back as an event.

use vstd::prelude::*;

verus! {

/// Where the control loop stands.
#[derive(Clone, Copy, PartialEq, Eq, Structural, Debug)]
pub enum SchedState {
    /// Before the store connectivity check.
    Starting,
    /// One pipeline pass is running to completion.
    RunningPass,
    /// Waiting out the configured interval.
    Sleeping,
    /// The connectivity check failed; the process terminates.
    Terminated,
}

/// What the world reports back to the control loop.
#[derive(Clone, Copy, PartialEq, Eq, Structural, Debug)]
pub enum SchedEvent {
    StoreReachable,
    StoreUnreachable,
    PassComplete,
    SleepElapsed,
}

/// The loop's transition relation: the connectivity check admits or
/// terminates, and passes and sleeps alternate; any other pairing leaves
/// the state alone.
pub open spec fn spec_sched_step(state: SchedState, event: SchedEvent) -> SchedState {
    match (state, event) {
        (SchedState::Starting, SchedEvent::StoreReachable) => SchedState::RunningPass,
        (SchedState::Starting, SchedEvent::StoreUnreachable) => SchedState::Terminated,
        (SchedState::RunningPass, SchedEvent::PassComplete) => SchedState::Sleeping,
        (SchedState::Sleeping, SchedEvent::SleepElapsed) => SchedState::RunningPass,
        _ => state,
    }
}

/// Advances the control loop by one event.
pub fn sched_step(state: SchedState, event: SchedEvent) -> (r: SchedState)
    ensures
        r == spec_sched_step(state, event),
{
    match (state, event) {
        (SchedState::Starting, SchedEvent::StoreReachable) => SchedState::RunningPass,
        (SchedState::Starting, SchedEvent::StoreUnreachable) => SchedState::Terminated,
        (SchedState::RunningPass, SchedEvent::PassComplete) => SchedState::Sleeping,
        (SchedState::Sleeping, SchedEvent::SleepElapsed) => SchedState::RunningPass,
        (s, _) => s,
    }
}

/// Termination is terminal: no event leaves the terminated state.
pub proof fn lemma_terminated_absorbing(event: SchedEvent)
    ensures
        spec_sched_step(SchedState::Terminated, event) == SchedState::Terminated,
{
}

} // verus!
