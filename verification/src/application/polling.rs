//! The aggregator's polling loop as a state machine.
//!
//! The loop learns the current slot, asks for the blocks from the slot after
//! the last one processed up to it, processes them, sleeps, and starts over,
//! until a shutdown signal arrives. The decisions are made here, from the
//! state and what the last piece of outside work returned; the work itself
//! (calls to the node, processing in tasks, sleeping) is done by the caller,
//! which hands back what came of it.

use crate::domain::errors::{AggregatorError, BcClientError};
use vstd::prelude::*;

verus! {

/// Where the loop stands. Every state after the first carries the highest
/// slot processed so far.
pub enum PollState {
    /// Waiting for the first reading of the current slot.
    Starting,
    /// Waiting for the current slot.
    FetchingSlot { last_processed_slot: u64 },
    /// Waiting for the list of blocks up to the current slot.
    FetchingBlocks { last_processed_slot: u64 },
    /// Waiting for the blocks to be processed.
    ProcessingBlocks { last_processed_slot: u64 },
    /// Waiting for the pause between rounds to end.
    Sleeping { last_processed_slot: u64 },
    /// The loop has ended.
    Stopped,
}

/// What came of the outside work, or a shutdown signal.
pub enum PollEvent {
    CurrentSlot(Result<u64, BcClientError>),
    Blocks(Result<Vec<u64>, BcClientError>),
    /// For each block: `Ok(slot)` where it was processed, `Err(slot)` where not.
    BlocksProcessed(Vec<Result<u64, u64>>),
    Slept,
    Shutdown,
}

/// What the caller is to do next.
pub enum PollAction {
    GetCurrentSlot,
    GetBlocks { start_slot: u64, end_slot: u64 },
    /// Process each of these blocks, in any order, and report on each.
    ProcessBlocks(Vec<u64>),
    /// Pause for one second.
    Sleep,
    /// The loop ends with this result.
    Finish(Result<(), AggregatorError>),
    /// The event means nothing in this state; go on waiting.
    Wait,
}

impl PollState {
    /// The highest slot processed so far, once the loop has started.
    pub open spec fn last_processed(self) -> Option<u64> {
        match self {
            PollState::FetchingSlot { last_processed_slot } => Some(last_processed_slot),
            PollState::FetchingBlocks { last_processed_slot } => Some(last_processed_slot),
            PollState::ProcessingBlocks { last_processed_slot } => Some(last_processed_slot),
            PollState::Sleeping { last_processed_slot } => Some(last_processed_slot),
            _ => None,
        }
    }
}

/// The highest of `last` and of the slots processed with success.
pub open spec fn advanced_slot(last: u64, results: Seq<Result<u64, u64>>) -> u64
    decreases results.len(),
{
    if results.len() == 0 {
        last
    } else {
        let before = advanced_slot(last, results.drop_last());
        match results.last() {
            Ok(slot) => if slot > before {
                slot
            } else {
                before
            },
            Err(_) => before,
        }
    }
}

/// A step is defined unless the next round would start past the last slot
/// there is.
pub open spec fn step_defined(state: PollState, event: PollEvent) -> bool {
    match (state, event) {
        (PollState::FetchingSlot { last_processed_slot }, PollEvent::CurrentSlot(Ok(_))) => last_processed_slot < u64::MAX,
        _ => true,
    }
}

/// The loop's decisions.
pub open spec fn poll_step(state: PollState, event: PollEvent) -> (PollState, PollAction) {
    match (state, event) {
        (PollState::Stopped, _) => (PollState::Stopped, PollAction::Wait),
        (PollState::Starting, PollEvent::CurrentSlot(Ok(slot))) => (
            PollState::FetchingSlot { last_processed_slot: slot },
            PollAction::GetCurrentSlot,
        ),
        (PollState::Starting, PollEvent::CurrentSlot(Err(e))) => (
            PollState::Stopped,
            PollAction::Finish(Err(AggregatorError::FailedBcClient(e))),
        ),
        (PollState::Starting, _) => (PollState::Starting, PollAction::Wait),
        (_, PollEvent::Shutdown) => (PollState::Stopped, PollAction::Finish(Ok(()))),
        (PollState::FetchingSlot { last_processed_slot }, PollEvent::CurrentSlot(Ok(current))) => (
            PollState::FetchingBlocks { last_processed_slot },
            PollAction::GetBlocks {
                start_slot: (last_processed_slot + 1) as u64,
                end_slot: current,
            },
        ),
        (PollState::FetchingSlot { last_processed_slot }, PollEvent::CurrentSlot(Err(_))) => (
            PollState::Sleeping { last_processed_slot },
            PollAction::Sleep,
        ),
        (PollState::FetchingBlocks { last_processed_slot }, PollEvent::Blocks(Ok(slots))) => (
            PollState::ProcessingBlocks { last_processed_slot },
            PollAction::ProcessBlocks(slots),
        ),
        (PollState::FetchingBlocks { last_processed_slot }, PollEvent::Blocks(Err(_))) => (
            PollState::Sleeping { last_processed_slot },
            PollAction::Sleep,
        ),
        (
            PollState::ProcessingBlocks { last_processed_slot },
            PollEvent::BlocksProcessed(results),
        ) => (
            PollState::Sleeping { last_processed_slot: advanced_slot(last_processed_slot, results@) },
            PollAction::Sleep,
        ),
        (PollState::Sleeping { last_processed_slot }, PollEvent::Slept) => (
            PollState::FetchingSlot { last_processed_slot },
            PollAction::GetCurrentSlot,
        ),
        (s, _) => (s, PollAction::Wait),
    }
}

/// The decisions of the earlier loop without a shutdown signal: there, a
/// failed reading of the slot or of the block list ends the loop with the
/// error, and a shutdown signal means nothing; otherwise it decides as
/// [`poll_step`].
pub open spec fn legacy_poll_step(state: PollState, event: PollEvent) -> (PollState, PollAction) {
    match (state, event) {
        (PollState::Stopped, _) => (PollState::Stopped, PollAction::Wait),
        (_, PollEvent::Shutdown) => (state, PollAction::Wait),
        (PollState::FetchingSlot { .. }, PollEvent::CurrentSlot(Err(e))) => (
            PollState::Stopped,
            PollAction::Finish(Err(AggregatorError::FailedBcClient(e))),
        ),
        (PollState::FetchingBlocks { .. }, PollEvent::Blocks(Err(e))) => (
            PollState::Stopped,
            PollAction::Finish(Err(AggregatorError::FailedBcClient(e))),
        ),
        _ => poll_step(state, event),
    }
}

/// The loop's first state, and its first action: read the current slot.
pub fn start() -> (started: (PollState, PollAction))
    ensures
        started == (PollState::Starting, PollAction::GetCurrentSlot),
{
    (PollState::Starting, PollAction::GetCurrentSlot)
}

/// The highest of `last` and of the slots processed with success.
pub fn advance_last_processed_slot(last: u64, results: &Vec<Result<u64, u64>>) -> (advanced: u64)
    ensures
        advanced == advanced_slot(last, results@),
{
    let mut highest = last;
    let mut i: usize = 0;
    while i < results.len()
        invariant
            i <= results@.len(),
            highest == advanced_slot(last, results@.take(i as int)),
        decreases results@.len() - i,
    {
        proof {
            assert(results@.take(i + 1).drop_last() =~= results@.take(i as int));
        }
        match &results[i] {
            Ok(slot) => {
                if *slot > highest {
                    highest = *slot;
                }
            },
            Err(_) => {},
        }
        i = i + 1;
    }
    proof {
        assert(results@.take(i as int) =~= results@);
    }
    highest
}

/// The next state and the next action, given what came of the last action.
pub fn step(state: PollState, event: PollEvent) -> (next: (PollState, PollAction))
    requires
        step_defined(state, event),
    ensures
        next == poll_step(state, event),
{
    match state {
        PollState::Stopped => (PollState::Stopped, PollAction::Wait),
        PollState::Starting => match event {
            PollEvent::CurrentSlot(Ok(slot)) => (
                PollState::FetchingSlot { last_processed_slot: slot },
                PollAction::GetCurrentSlot,
            ),
            PollEvent::CurrentSlot(Err(e)) => (
                PollState::Stopped,
                PollAction::Finish(Err(AggregatorError::FailedBcClient(e))),
            ),
            _ => (PollState::Starting, PollAction::Wait),
        },
        PollState::FetchingSlot { last_processed_slot } => match event {
            PollEvent::Shutdown => (PollState::Stopped, PollAction::Finish(Ok(()))),
            PollEvent::CurrentSlot(Ok(current)) => (
                PollState::FetchingBlocks { last_processed_slot },
                PollAction::GetBlocks { start_slot: last_processed_slot + 1, end_slot: current },
            ),
            PollEvent::CurrentSlot(Err(_)) => (
                PollState::Sleeping { last_processed_slot },
                PollAction::Sleep,
            ),
            _ => (PollState::FetchingSlot { last_processed_slot }, PollAction::Wait),
        },
        PollState::FetchingBlocks { last_processed_slot } => match event {
            PollEvent::Shutdown => (PollState::Stopped, PollAction::Finish(Ok(()))),
            PollEvent::Blocks(Ok(slots)) => (
                PollState::ProcessingBlocks { last_processed_slot },
                PollAction::ProcessBlocks(slots),
            ),
            PollEvent::Blocks(Err(_)) => (
                PollState::Sleeping { last_processed_slot },
                PollAction::Sleep,
            ),
            _ => (PollState::FetchingBlocks { last_processed_slot }, PollAction::Wait),
        },
        PollState::ProcessingBlocks { last_processed_slot } => match event {
            PollEvent::Shutdown => (PollState::Stopped, PollAction::Finish(Ok(()))),
            PollEvent::BlocksProcessed(results) => {
                let advanced = advance_last_processed_slot(last_processed_slot, &results);
                (PollState::Sleeping { last_processed_slot: advanced }, PollAction::Sleep)
            },
            _ => (PollState::ProcessingBlocks { last_processed_slot }, PollAction::Wait),
        },
        PollState::Sleeping { last_processed_slot } => match event {
            PollEvent::Shutdown => (PollState::Stopped, PollAction::Finish(Ok(()))),
            PollEvent::Slept => (
                PollState::FetchingSlot { last_processed_slot },
                PollAction::GetCurrentSlot,
            ),
            _ => (PollState::Sleeping { last_processed_slot }, PollAction::Wait),
        },
    }
}


/// The next state and action of the earlier loop without a shutdown signal.
pub fn legacy_step(state: PollState, event: PollEvent) -> (next: (PollState, PollAction))
    requires
        step_defined(state, event),
    ensures
        next == legacy_poll_step(state, event),
{
    match (state, event) {
        (PollState::Stopped, _) => (PollState::Stopped, PollAction::Wait),
        (state, PollEvent::Shutdown) => (state, PollAction::Wait),
        (PollState::FetchingSlot { .. }, PollEvent::CurrentSlot(Err(e))) => (
            PollState::Stopped,
            PollAction::Finish(Err(AggregatorError::FailedBcClient(e))),
        ),
        (PollState::FetchingBlocks { .. }, PollEvent::Blocks(Err(e))) => (
            PollState::Stopped,
            PollAction::Finish(Err(AggregatorError::FailedBcClient(e))),
        ),
        (state, event) => step(state, event),
    }
}

/// The highest processed slot is at least the one before, at least every slot
/// processed with success, and is one of them.
pub proof fn lemma_advanced_slot_bounds(last: u64, results: Seq<Result<u64, u64>>)
    ensures
        advanced_slot(last, results) >= last,
        forall|i: int|
            0 <= i < results.len() && (#[trigger] results[i]) is Ok ==> advanced_slot(last, results)
                >= results[i]->Ok_0,
        advanced_slot(last, results) == last || exists|i: int|
            0 <= i < results.len() && #[trigger] results[i] == Ok::<u64, u64>(
                advanced_slot(last, results),
            ),
    decreases results.len(),
{
    if results.len() > 0 {
        let rest = results.drop_last();
        lemma_advanced_slot_bounds(last, rest);
        assert forall|i: int|
            0 <= i < results.len() && (#[trigger] results[i]) is Ok implies advanced_slot(
                last,
                results,
            ) >= results[i]->Ok_0 by {
            if i < results.len() - 1 {
                assert(rest[i] == results[i]);
            }
        }
        if advanced_slot(last, results) != last {
            if advanced_slot(last, results) == advanced_slot(last, rest) {
                let i = choose|i: int|
                    0 <= i < rest.len() && #[trigger] rest[i] == Ok::<u64, u64>(
                        advanced_slot(last, rest),
                    );
                assert(results[i] == rest[i]);
            } else {
                assert(results[results.len() - 1] == Ok::<u64, u64>(advanced_slot(last, results)));
            }
        }
    }
}

/// The highest processed slot never goes down, whatever happens.
pub proof fn lemma_last_processed_never_decreases(state: PollState, event: PollEvent)
    requires
        state.last_processed() is Some,
        poll_step(state, event).0.last_processed() is Some,
    ensures
        state.last_processed()->Some_0 <= poll_step(state, event).0.last_processed()->Some_0,
{
    if let (PollState::ProcessingBlocks { last_processed_slot }, PollEvent::BlocksProcessed(results)) = (state, event) {
        lemma_advanced_slot_bounds(last_processed_slot, results@);
    }
}

/// A shutdown signal ends a running loop, with success.
pub proof fn lemma_shutdown_stops(state: PollState)
    requires
        state.last_processed() is Some,
    ensures
        poll_step(state, PollEvent::Shutdown) == (PollState::Stopped, PollAction::Finish(Ok(()))),
{
}

/// Once stopped, the loop stays stopped and asks for nothing.
pub proof fn lemma_stopped_stays_stopped(event: PollEvent)
    ensures
        poll_step(PollState::Stopped, event) == (PollState::Stopped, PollAction::Wait),
{
}

/// A round asks for the blocks from the slot after the last one processed up
/// to the current slot.
pub proof fn lemma_round_starts_after_last(last_processed_slot: u64, current: u64)
    requires
        last_processed_slot < u64::MAX,
    ensures
        poll_step(
            PollState::FetchingSlot { last_processed_slot },
            PollEvent::CurrentSlot(Ok(current)),
        ) == (
            PollState::FetchingBlocks { last_processed_slot },
            PollAction::GetBlocks { start_slot: (last_processed_slot + 1) as u64, end_slot: current },
        ),
{
}

/// A block that failed is asked for again in the next round, provided no
/// higher-numbered block of its round succeeded and the node's current slot
/// reaches it.
pub proof fn lemma_failed_block_retried(
    last_processed_slot: u64,
    results: Seq<Result<u64, u64>>,
    failed: int,
)
    requires
        0 <= failed < results.len(),
        results[failed] is Err,
        results[failed]->Err_0 > last_processed_slot,
        forall|j: int|
            0 <= j < results.len() && (#[trigger] results[j]) is Ok ==> results[j]->Ok_0
                < results[failed]->Err_0,
    ensures
        advanced_slot(last_processed_slot, results) < results[failed]->Err_0,
{
    lemma_advanced_slot_bounds(last_processed_slot, results);
    if advanced_slot(last_processed_slot, results) != last_processed_slot {
        let i = choose|i: int|
            0 <= i < results.len() && #[trigger] results[i] == Ok::<u64, u64>(
                advanced_slot(last_processed_slot, results),
            );
        assert(results[i] is Ok);
    }
}

/// The states and actions that a run of events leads through, one pair per
/// event.
pub open spec fn run_events(state: PollState, events: Seq<PollEvent>) -> Seq<(PollState, PollAction)>
    decreases events.len(),
{
    if events.len() == 0 {
        Seq::empty()
    } else {
        let next = poll_step(state, events[0]);
        seq![next] + run_events(next.0, events.drop_first())
    }
}

/// The state in which event `i` of a run arrives.
pub open spec fn state_at(start: PollState, events: Seq<PollEvent>, i: int) -> PollState {
    if i == 0 {
        start
    } else {
        run_events(start, events)[i - 1].0
    }
}

pub open spec fn finishes_with_error(action: PollAction) -> bool {
    action matches PollAction::Finish(Err(_))
}

/// The state a running loop is in has its processed slot, or has stopped.
pub open spec fn started(state: PollState) -> bool {
    state.last_processed() is Some || state is Stopped
}

/// One step: the loop ends with success only on a shutdown signal that
/// reaches it while it runs; it ends with an error only on the first reading
/// of the slot; and once started it never goes back to the start.
pub proof fn lemma_step_endings(state: PollState, event: PollEvent)
    ensures
        poll_step(state, event).1 == PollAction::Finish(Ok(())) ==> event is Shutdown
            && state.last_processed() is Some,
        finishes_with_error(poll_step(state, event).1) ==> state is Starting,
        started(state) ==> started(poll_step(state, event).0),
        !(poll_step(state, event).0 is Starting) || state is Starting,
{
}

pub proof fn lemma_run_events_len(state: PollState, events: Seq<PollEvent>)
    ensures
        run_events(state, events).len() == events.len(),
    decreases events.len(),
{
    if events.len() > 0 {
        lemma_run_events_len(poll_step(state, events[0]).0, events.drop_first());
    }
}

/// Event `i` of a run is stepped from the state it arrives in.
pub proof fn lemma_run_events_at(state: PollState, events: Seq<PollEvent>, i: int)
    requires
        0 <= i < events.len(),
    ensures
        run_events(state, events)[i] == poll_step(state_at(state, events, i), events[i]),
    decreases i,
{
    lemma_run_events_len(state, events);
    if i > 0 {
        let next = poll_step(state, events[0]);
        let rest = events.drop_first();
        lemma_run_events_len(next.0, rest);
        lemma_run_events_at(next.0, rest, i - 1);
        assert(run_events(state, events)[i] == run_events(next.0, rest)[i - 1]);
        if i > 1 {
            assert(run_events(state, events)[i - 1] == run_events(next.0, rest)[i - 2]);
        }
        assert(rest[i - 1] == events[i]);
    }
}

/// Over any run of events: the loop finishes with success only on a
/// shutdown signal that arrives while it runs, and with an error only on an
/// event that arrives before it has started; once it has started, it stays
/// started and never finishes with an error.
pub proof fn law_run_endings(start: PollState, events: Seq<PollEvent>)
    ensures
        run_events(start, events).len() == events.len(),
        forall|i: int|
            0 <= i < events.len() && #[trigger] run_events(start, events)[i].1 == PollAction::Finish(
                Ok(()),
            ) ==> events[i] is Shutdown && state_at(start, events, i).last_processed() is Some,
        forall|i: int|
            0 <= i < events.len() && finishes_with_error(#[trigger] run_events(start, events)[i].1)
                ==> state_at(start, events, i) is Starting,
        started(start) ==> forall|i: int|
            0 <= i < events.len() ==> started(#[trigger] run_events(start, events)[i].0)
                && !finishes_with_error(run_events(start, events)[i].1),
{
    lemma_run_events_len(start, events);
    assert forall|i: int| 0 <= i < events.len() implies {
        let r = #[trigger] run_events(start, events)[i];
        &&& r.1 == PollAction::Finish(Ok(())) ==> events[i] is Shutdown && state_at(
            start,
            events,
            i,
        ).last_processed() is Some
        &&& finishes_with_error(r.1) ==> state_at(start, events, i) is Starting
    } by {
        lemma_run_events_at(start, events, i);
        lemma_step_endings(state_at(start, events, i), events[i]);
    }
    if started(start) {
        assert forall|i: int| 0 <= i < events.len() implies started(
            #[trigger] run_events(start, events)[i].0,
        ) && !finishes_with_error(run_events(start, events)[i].1) by {
            lemma_started_stays(start, events, i);
        }
    }
}

proof fn lemma_started_stays(start: PollState, events: Seq<PollEvent>, i: int)
    requires
        started(start),
        0 <= i < events.len(),
    ensures
        started(run_events(start, events)[i].0),
        !finishes_with_error(run_events(start, events)[i].1),
    decreases i,
{
    lemma_run_events_at(start, events, i);
    if i > 0 {
        lemma_started_stays(start, events, i - 1);
    }
    lemma_step_endings(state_at(start, events, i), events[i]);
}

/// A loop leaves its start only on a successful first reading of the slot:
/// where event `i` of a run from the start finds the loop started or stopped,
/// some earlier event found it at the start and was such a reading, or was
/// its failure (which stops it).
pub proof fn law_leaves_start_only_on_first_reading(events: Seq<PollEvent>, i: int)
    requires
        0 <= i <= events.len(),
        !(state_at(PollState::Starting, events, i) is Starting),
    ensures
        exists|j: int|
            0 <= j < i && state_at(PollState::Starting, events, j) is Starting && (
            #[trigger] events[j]) is CurrentSlot,
        state_at(PollState::Starting, events, i) is Stopped || exists|j: int|
            0 <= j < i && state_at(PollState::Starting, events, j) is Starting && (
            #[trigger] events[j]) matches PollEvent::CurrentSlot(Ok(_)),
    decreases i,
{
    let start = PollState::Starting;
    lemma_run_events_len(start, events);
    let j = i - 1;
    lemma_run_events_at(start, events, j);
    if state_at(start, events, j) is Starting {
        assert(events[j] is CurrentSlot);
        if !(state_at(start, events, i) is Stopped) {
            assert(events[j] matches PollEvent::CurrentSlot(Ok(_)));
        }
    } else {
        law_leaves_start_only_on_first_reading(events, j);
        if !(state_at(start, events, i) is Stopped) && state_at(start, events, j) is Stopped {
            lemma_stopped_stays_stopped(events[j]);
        }
    }
}

} // verus!
