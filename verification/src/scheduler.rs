//! The schedule of the refresh: one cycle, then a pause of one period, then
//! the next cycle, for as long as the process lives.

use vstd::prelude::*;

verus! {

/// The pause between the end of one refresh cycle and the start of the next,
/// in seconds.
pub const NODES_CONNECTIVITY_UPDATE_INTERVAL_SECS: u64 = 30;

/// What the scheduler is doing.
#[derive(Debug, Clone, Copy, PartialEq, Eq, Structural)]
pub enum SchedulerState {
    /// A cycle is under way.
    Running,
    /// The pause after a cycle is under way.
    Sleeping,
}

/// How a cycle ended.
#[derive(Debug, Clone, Copy, PartialEq, Eq, Structural)]
pub enum CycleOutcome {
    Succeeded,
    Failed,
}

/// What has happened.
#[derive(Debug, Clone, Copy, PartialEq, Eq, Structural)]
pub enum SchedulerEvent {
    /// The cycle that was under way has ended.
    CycleFinished(CycleOutcome),
    /// The pause that was under way is over.
    PeriodElapsed,
}

/// What is to be done next.
#[derive(Debug, Clone, Copy, PartialEq, Eq, Structural)]
pub enum SchedulerAction {
    /// Fetch the ranking and refresh the snapshot from it, once.
    RunCycle,
    /// Pause for `secs` seconds, after reporting the failure of the cycle if
    /// `report_failure` is set.
    Sleep { secs: u64, report_failure: bool },
    /// Nothing: the event does not belong to what the scheduler is doing,
    /// and it goes on doing it.
    Stay,
}

/// The state after an event, and what is to be done, for a scheduler with a
/// period of `period_secs` seconds.
///
/// A cycle that ends, well or badly, is followed by a pause of one period,
/// counted from the end of the cycle; a failure is reported and has no other
/// effect. A pause that is over is followed by a cycle. There is no state
/// from which nothing follows.
pub open spec fn next(state: SchedulerState, event: SchedulerEvent, period_secs: u64) -> (
    SchedulerState,
    SchedulerAction,
) {
    match (state, event) {
        (SchedulerState::Running, SchedulerEvent::CycleFinished(outcome)) => (
            SchedulerState::Sleeping,
            SchedulerAction::Sleep {
                secs: period_secs,
                report_failure: outcome == CycleOutcome::Failed,
            },
        ),
        (SchedulerState::Sleeping, SchedulerEvent::PeriodElapsed) => (
            SchedulerState::Running,
            SchedulerAction::RunCycle,
        ),
        _ => (state, SchedulerAction::Stay),
    }
}

/// How a scheduler starts: with a cycle.
pub fn scheduler_start() -> (start: (SchedulerState, SchedulerAction))
    ensures
        start == (SchedulerState::Running, SchedulerAction::RunCycle),
{
    (SchedulerState::Running, SchedulerAction::RunCycle)
}

/// The state after an event, and what is to be done: see [`next`].
pub fn scheduler_step(state: SchedulerState, event: SchedulerEvent, period_secs: u64) -> (step: (
    SchedulerState,
    SchedulerAction,
))
    ensures
        step == next(state, event, period_secs),
{
    match state {
        SchedulerState::Running => match event {
            SchedulerEvent::CycleFinished(outcome) => {
                let report_failure: bool = match outcome {
                    CycleOutcome::Failed => true,
                    CycleOutcome::Succeeded => false,
                };
                (
                    SchedulerState::Sleeping,
                    SchedulerAction::Sleep { secs: period_secs, report_failure },
                )
            },
            SchedulerEvent::PeriodElapsed => (state, SchedulerAction::Stay),
        },
        SchedulerState::Sleeping => match event {
            SchedulerEvent::PeriodElapsed => (SchedulerState::Running, SchedulerAction::RunCycle),
            SchedulerEvent::CycleFinished(_) => (state, SchedulerAction::Stay),
        },
    }
}

/// The state of a scheduler that started with a cycle, after the cycles with
/// these outcomes and the pause after each of them.
pub open spec fn state_after(outcomes: Seq<CycleOutcome>, period_secs: u64) -> SchedulerState
    decreases outcomes.len(),
{
    if outcomes.len() == 0 {
        SchedulerState::Running
    } else {
        let paused = next(
            state_after(outcomes.drop_last(), period_secs),
            SchedulerEvent::CycleFinished(outcomes.last()),
            period_secs,
        ).0;
        next(paused, SchedulerEvent::PeriodElapsed, period_secs).0
    }
}

/// A cycle that fails does not keep the next one from running: however a
/// cycle ends, a pause of exactly one period follows, no longer after a
/// failure than after a success, and after the pause the next cycle runs.
pub proof fn lemma_next_cycle_runs(outcome: CycleOutcome, period_secs: u64)
    ensures
        next(SchedulerState::Running, SchedulerEvent::CycleFinished(outcome), period_secs) == (
            SchedulerState::Sleeping,
            SchedulerAction::Sleep {
                secs: period_secs,
                report_failure: outcome == CycleOutcome::Failed,
            },
        ),
        next(
            next(SchedulerState::Running, SchedulerEvent::CycleFinished(outcome), period_secs).0,
            SchedulerEvent::PeriodElapsed,
            period_secs,
        ) == (SchedulerState::Running, SchedulerAction::RunCycle),
{
}

/// The scheduler never stops: after any number of cycles, whichever of them
/// failed, it is running the next one.
pub proof fn lemma_scheduler_never_stops(outcomes: Seq<CycleOutcome>, period_secs: u64)
    ensures
        state_after(outcomes, period_secs) == SchedulerState::Running,
    decreases outcomes.len(),
{
    if outcomes.len() > 0 {
        lemma_scheduler_never_stops(outcomes.drop_last(), period_secs);
        lemma_next_cycle_runs(outcomes.last(), period_secs);
    }
}

} // verus!
