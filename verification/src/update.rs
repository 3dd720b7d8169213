//! The update cycle: what is done with each answer of the upstream source.

use vstd::prelude::*;
use futures::sync::mpsc::UnboundedSender;
use crate::cache::LogoCache;
use crate::cache::SwapOutcome;
use crate::description::LogoResponse;
use crate::live::send_update;
use crate::live::visits_each_once;
use crate::live::Listeners;
use crate::logo::get_logo_png;
use crate::logo::rendered_png;
use crate::logo::LogoOptions;
use crate::logo::RenderError;

verus! {

/// The time between the end of one cycle and the start of the next, in
/// milliseconds.
pub const POLL_INTERVAL_MS: u64 = 1000;

/// Why the upstream source gave no description.
#[derive(Clone, Copy, Debug, PartialEq, Eq, Structural)]
pub enum FetchError {
    /// The request did not get through.
    Network,
    /// The answer was not a description.
    Decode,
}

/// Where the update loop stands.
#[derive(Clone, Copy, Debug, PartialEq, Eq, Structural)]
pub enum LoopState {
    /// Waiting for the next cycle.
    Idle,
    /// Asking the upstream source.
    Fetching,
    /// Comparing the answer with the description held.
    Deciding,
    /// Rendering the new description and handing it on.
    Propagating,
}

/// What moves the update loop on.
#[derive(Clone, Copy, Debug, PartialEq, Eq, Structural)]
pub enum LoopEvent {
    /// The waiting time is over.
    DelayElapsed,
    /// The upstream source answered with a description.
    FetchSucceeded,
    /// The upstream source gave no description.
    FetchFailed,
    /// The description differs from the one held.
    Changed,
    /// The description equals the one held.
    Unchanged,
    /// The new description has been handed on, or could not be rendered.
    Propagated,
}

/// The state that follows `state` on `event`. An event that does not belong
/// to a state leaves the loop where it is.
pub open spec fn next_state(state: LoopState, event: LoopEvent) -> LoopState {
    match (state, event) {
        (LoopState::Idle, LoopEvent::DelayElapsed) => LoopState::Fetching,
        (LoopState::Fetching, LoopEvent::FetchSucceeded) => LoopState::Deciding,
        (LoopState::Fetching, LoopEvent::FetchFailed) => LoopState::Idle,
        (LoopState::Deciding, LoopEvent::Changed) => LoopState::Propagating,
        (LoopState::Deciding, LoopEvent::Unchanged) => LoopState::Idle,
        (LoopState::Propagating, LoopEvent::Propagated) => LoopState::Idle,
        _ => state,
    }
}

/// Moves the update loop on.
pub fn advance(state: LoopState, event: LoopEvent) -> (next: LoopState)
    ensures
        next == next_state(state, event),
{
    match (state, event) {
        (LoopState::Idle, LoopEvent::DelayElapsed) => LoopState::Fetching,
        (LoopState::Fetching, LoopEvent::FetchSucceeded) => LoopState::Deciding,
        (LoopState::Fetching, LoopEvent::FetchFailed) => LoopState::Idle,
        (LoopState::Deciding, LoopEvent::Changed) => LoopState::Propagating,
        (LoopState::Deciding, LoopEvent::Unchanged) => LoopState::Idle,
        (LoopState::Propagating, LoopEvent::Propagated) => LoopState::Idle,
        _ => state,
    }
}

/// The loop has no last state: from every state an event leads to another
/// state, and from every state at most three events lead back to `Idle`.
pub proof fn lemma_loop_goes_on(state: LoopState)
    ensures
        exists|event: LoopEvent| next_state(state, event) != state,
        state != LoopState::Idle ==> exists|a: LoopEvent, b: LoopEvent, c: LoopEvent|
            #![trigger next_state(next_state(next_state(state, a), b), c)]
            next_state(next_state(next_state(state, a), b), c) == LoopState::Idle,
{
    match state {
        LoopState::Idle => {
            assert(next_state(state, LoopEvent::DelayElapsed) != state);
        },
        LoopState::Fetching => {
            assert(next_state(state, LoopEvent::FetchFailed) != state);
            assert(next_state(
                next_state(next_state(state, LoopEvent::FetchFailed), LoopEvent::FetchFailed),
                LoopEvent::FetchFailed,
            ) == LoopState::Idle);
        },
        LoopState::Deciding => {
            assert(next_state(state, LoopEvent::Unchanged) != state);
            assert(next_state(
                next_state(next_state(state, LoopEvent::Unchanged), LoopEvent::Unchanged),
                LoopEvent::Unchanged,
            ) == LoopState::Idle);
        },
        LoopState::Propagating => {
            assert(next_state(state, LoopEvent::Propagated) != state);
            assert(next_state(
                next_state(next_state(state, LoopEvent::Propagated), LoopEvent::Propagated),
                LoopEvent::Propagated,
            ) == LoopState::Idle);
        },
    }
}

/// How one cycle ended.
#[derive(Debug)]
pub enum CycleOutcome {
    /// The source gave no description. Nothing was changed or sent.
    FetchFailed(FetchError),
    /// The description equals the one held. Nothing was sent.
    Unchanged,
    /// The description is new and is held now, but has no image. Nothing
    /// was sent.
    RenderFailed(RenderError),
    /// The description is new and is held now; its image was offered to the
    /// listeners and is to be stored.
    Propagated {
        /// The encoded image.
        png: Vec<u8>,
        /// Each listener's id with whether its channel took the image.
        report: Vec<(usize, bool)>,
    },
}

/// Runs the part of a cycle that follows the answer of the upstream source.
///
/// A failed fetch leaves the cache as it is. A description equal to the one
/// held ends the cycle. A new description replaces the one held and is
/// rendered with the default options; where that succeeds, the image is
/// offered to every listener, and is handed back to be stored afterwards.
pub fn update_logo(
    cache: &mut LogoCache,
    listeners: &Listeners<UnboundedSender<Vec<u8>>>,
    fetched: Result<LogoResponse, FetchError>,
) -> (outcome: CycleOutcome)
    requires
        listeners.wf(),
    ensures
        match fetched {
            Err(e) => final(cache)@ == old(cache)@ && outcome == CycleOutcome::FetchFailed(e),
            Ok(description) => {
                &&& final(cache)@ == description@
                &&& if description@ == old(cache)@ {
                    outcome == CycleOutcome::Unchanged
                } else {
                    match rendered_png(description@, 1) {
                        Err(e) => outcome == CycleOutcome::RenderFailed(e),
                        Ok(bytes) => match outcome {
                            CycleOutcome::Propagated { png, report } => png@ == bytes && visits_each_once(
                                report@,
                                listeners@.sinks.dom(),
                            ),
                            _ => false,
                        },
                    }
                }
            },
        },
{
    let description = match fetched {
        Ok(description) => description,
        Err(e) => {
            return CycleOutcome::FetchFailed(e);
        },
    };
    match cache.compare_and_swap(description) {
        SwapOutcome::Unchanged => {
            return CycleOutcome::Unchanged;
        },
        SwapOutcome::Changed => {},
    }
    let options = LogoOptions::default();
    match get_logo_png(cache.current(), options) {
        Err(e) => CycleOutcome::RenderFailed(e),
        Ok(png) => {
            let report = send_update(listeners, &png);
            CycleOutcome::Propagated { png, report }
        },
    }
}

/// The events that a cycle with the given end consists of, after the
/// waiting time is over.
pub open spec fn events_of(outcome: CycleOutcome) -> Seq<LoopEvent> {
    match outcome {
        CycleOutcome::FetchFailed(_) => seq![LoopEvent::FetchFailed],
        CycleOutcome::Unchanged => seq![LoopEvent::FetchSucceeded, LoopEvent::Unchanged],
        CycleOutcome::RenderFailed(_) => seq![
            LoopEvent::FetchSucceeded,
            LoopEvent::Changed,
            LoopEvent::Propagated,
        ],
        CycleOutcome::Propagated { .. } => seq![
            LoopEvent::FetchSucceeded,
            LoopEvent::Changed,
            LoopEvent::Propagated,
        ],
    }
}

/// The state that the loop reaches from `state` on the given events in turn.
pub open spec fn run_events(state: LoopState, events: Seq<LoopEvent>) -> LoopState
    decreases events.len(),
{
    if events.len() == 0 {
        state
    } else {
        run_events(next_state(state, events[0]), events.drop_first())
    }
}

/// The events that a cycle consisted of, given how it ended.
pub fn cycle_events(outcome: &CycleOutcome) -> (events: Vec<LoopEvent>)
    ensures
        events@ == events_of(*outcome),
{
    let mut events: Vec<LoopEvent> = Vec::new();
    match outcome {
        CycleOutcome::FetchFailed(_) => {
            events.push(LoopEvent::FetchFailed);
        },
        CycleOutcome::Unchanged => {
            events.push(LoopEvent::FetchSucceeded);
            events.push(LoopEvent::Unchanged);
        },
        CycleOutcome::RenderFailed(_) => {
            events.push(LoopEvent::FetchSucceeded);
            events.push(LoopEvent::Changed);
            events.push(LoopEvent::Propagated);
        },
        CycleOutcome::Propagated { .. } => {
            events.push(LoopEvent::FetchSucceeded);
            events.push(LoopEvent::Changed);
            events.push(LoopEvent::Propagated);
        },
    }
    assert(events@ =~= events_of(*outcome));
    events
}

/// Every cycle ends where it began: however a cycle ends, its events lead
/// the loop from `Fetching` back to `Idle`, through `Propagating` exactly
/// when the description was new.
pub proof fn lemma_cycle_returns_to_idle(outcome: CycleOutcome)
    ensures
        run_events(LoopState::Fetching, events_of(outcome)) == LoopState::Idle,
        run_events(LoopState::Idle, seq![LoopEvent::DelayElapsed] + events_of(outcome))
            == LoopState::Idle,
{
    reveal_with_fuel(run_events, 5);
    let events = events_of(outcome);
    let all = seq![LoopEvent::DelayElapsed] + events;
    assert(all[0] == LoopEvent::DelayElapsed);
    assert(all.drop_first() =~= events);
    match outcome {
        CycleOutcome::FetchFailed(_) => {
            assert(events.drop_first().len() == 0);
        },
        CycleOutcome::Unchanged => {
            assert(events.drop_first().drop_first().len() == 0);
        },
        CycleOutcome::RenderFailed(_) => {
            assert(events.drop_first().drop_first().drop_first().len() == 0);
        },
        CycleOutcome::Propagated { .. } => {
            assert(events.drop_first().drop_first().drop_first().len() == 0);
        },
    }
}

} // verus!
