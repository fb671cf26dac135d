//! The course of a call that reads the marketplace: in which order its context is observed,
//! what it starts from is opened, the source is read, the context is confirmed and the result
//! is recorded, and how each of these may end it.

use crate::context_binding;
use crate::evidence;
use crate::failure::{self, Failure, FailureV};
use crate::json::{Json, JsonV};
use crate::product_batch::{self, Unconfirmed};
use crate::service;
use vstd::prelude::*;

verus! {

/// What is called for.
#[derive(Clone, Copy, Debug, PartialEq, Eq, Structural)]
pub enum Tool {
    Search,
    Products,
    Reviews,
    Images,
}

/// What a call is waiting for.
#[derive(Debug)]
pub enum Phase {
    /// The context is observed.
    Observing,
    /// The research and the references that the call starts from are opened.
    Opening { context_id: String },
    /// The source is read.
    Fetching { context_id: String, research_id: String },
    /// The context is observed once more.
    Confirming { context_id: String, research_id: String },
    /// The result is stored. Products that were read just now are refused where there is a
    /// reason for it.
    Recording { research_id: String, refused: Option<Unconfirmed> },
    /// The journal is told that the call was cancelled.
    Noting { research_id: String, error: Failure },
    Answered,
    Failed(Failure),
}

/// What a call starts from, once it is opened.
#[derive(Debug)]
pub struct Start {
    pub research_id: String,
    /// Whether what it reads was kept by an earlier call.
    pub cached: bool,
}

/// What reading the source came to.
#[derive(Clone, Copy, Debug, PartialEq, Eq, Structural)]
pub struct Reading {
    /// Whether anything was read just now.
    pub live: bool,
    /// Whether there is time left to confirm the context.
    pub in_time: bool,
}

/// What happened to a call.
#[derive(Debug)]
pub enum Event {
    Observed(Result<Json, Failure>),
    Opened(Result<Start, Failure>),
    Fetched(Result<Reading, Failure>),
    /// The result was stored; the call may have been cancelled meanwhile.
    Recorded { stored: Result<(), Failure>, cancelled: bool },
    Noted(Result<(), Failure>),
}

/// What a [`Phase`] holds.
pub enum PhaseV {
    Observing,
    Opening { context_id: Seq<char> },
    Fetching { context_id: Seq<char>, research_id: Seq<char> },
    Confirming { context_id: Seq<char>, research_id: Seq<char> },
    Recording { research_id: Seq<char>, refused: Option<(Seq<char>, Seq<char>)> },
    Noting { research_id: Seq<char>, error: FailureV },
    Answered,
    Failed(FailureV),
}

impl View for Phase {
    type V = PhaseV;

    open spec fn view(&self) -> PhaseV {
        match self {
            Phase::Observing => PhaseV::Observing,
            Phase::Opening { context_id } => PhaseV::Opening { context_id: context_id@ },
            Phase::Fetching { context_id, research_id } => PhaseV::Fetching {
                context_id: context_id@,
                research_id: research_id@,
            },
            Phase::Confirming { context_id, research_id } => PhaseV::Confirming {
                context_id: context_id@,
                research_id: research_id@,
            },
            Phase::Recording { research_id, refused } => PhaseV::Recording {
                research_id: research_id@,
                refused: product_batch::unconfirmed_view(*refused),
            },
            Phase::Noting { research_id, error } => PhaseV::Noting {
                research_id: research_id@,
                error: error@,
            },
            Phase::Answered => PhaseV::Answered,
            Phase::Failed(e) => PhaseV::Failed(e@),
        }
    }
}

/// What an [`Event`] holds.
pub enum EventV {
    Observed(Result<JsonV, FailureV>),
    Opened(Result<(Seq<char>, bool), FailureV>),
    Fetched(Result<Reading, FailureV>),
    Recorded { problem: Option<FailureV>, cancelled: bool },
    Noted(Option<FailureV>),
}

impl View for Event {
    type V = EventV;

    open spec fn view(&self) -> EventV {
        match self {
            Event::Observed(r) => EventV::Observed(failure::outcome(*r)),
            Event::Opened(Ok(s)) => EventV::Opened(Ok((s.research_id@, s.cached))),
            Event::Opened(Err(e)) => EventV::Opened(Err(e@)),
            Event::Fetched(Ok(f)) => EventV::Fetched(Ok(*f)),
            Event::Fetched(Err(e)) => EventV::Fetched(Err(e@)),
            Event::Recorded { stored, cancelled } => EventV::Recorded {
                problem: service::problem(*stored),
                cancelled: *cancelled,
            },
            Event::Noted(r) => EventV::Noted(service::problem(*r)),
        }
    }
}

/// Whether a failure is a cancellation.
pub open spec fn is_cancelled(e: FailureV) -> bool {
    evidence::code_of(e) == "CANCELLED"@
}

/// How a failure ends a call that belongs to a research: a cancellation is noted there first.
pub open spec fn stopped(research_id: Seq<char>, error: FailureV) -> PhaseV {
    if is_cancelled(error) {
        PhaseV::Noting { research_id, error }
    } else {
        PhaseV::Failed(error)
    }
}

/// Why products that were read just now are refused for an error.
pub open spec fn refusal_for(error: FailureV) -> (Seq<char>, Seq<char>) {
    (evidence::code_of(error), evidence::shown_message(error.message()))
}

/// Why products that were read just now are refused where there is no time left.
pub open spec fn too_late() -> (Seq<char>, Seq<char>) {
    ("UPSTREAM_TIMEOUT"@, "The product batch exhausted its context confirmation budget."@)
}

/// What is wrong with the context at the end of a call.
pub open spec fn confirmation_problem(
    observed: Result<JsonV, FailureV>,
    expected: Seq<char>,
) -> Option<FailureV> {
    match observed {
        Ok(current) => context_binding::context_problem(current, expected),
        Err(e) => Some(e),
    }
}

/// What follows when the source was read.
pub open spec fn after_fetch(
    tool: Tool,
    context_id: Seq<char>,
    research_id: Seq<char>,
    reading: Reading,
) -> PhaseV {
    if tool != Tool::Products || (reading.live && reading.in_time) {
        PhaseV::Confirming { context_id, research_id }
    } else if reading.live {
        PhaseV::Recording { research_id, refused: Some(too_late()) }
    } else {
        PhaseV::Recording { research_id, refused: None }
    }
}

/// What follows when the context was observed once more. A batch of products goes on without
/// the ones that were read just now; any other call ends where the context is not the same.
pub open spec fn after_confirmation(
    tool: Tool,
    context_id: Seq<char>,
    research_id: Seq<char>,
    observed: Result<JsonV, FailureV>,
) -> PhaseV {
    match confirmation_problem(observed, context_id) {
        None => PhaseV::Recording { research_id, refused: None },
        Some(e) => if tool == Tool::Products {
            PhaseV::Recording { research_id, refused: Some(refusal_for(e)) }
        } else {
            stopped(research_id, e)
        },
    }
}

/// The phase behind another, by what happened. What the call does not wait for changes
/// nothing.
pub open spec fn phase_after(tool: Tool, phase: PhaseV, event: EventV) -> PhaseV {
    match (phase, event) {
        (PhaseV::Observing, EventV::Observed(Ok(context))) => match service::required(
            context,
            "contextId"@,
        ) {
            Ok(context_id) => PhaseV::Opening { context_id },
            Err(e) => PhaseV::Failed(e),
        },
        (PhaseV::Observing, EventV::Observed(Err(e))) => PhaseV::Failed(e),
        (PhaseV::Opening { context_id }, EventV::Opened(Ok((research_id, cached)))) => if cached {
            PhaseV::Recording { research_id, refused: None }
        } else {
            PhaseV::Fetching { context_id, research_id }
        },
        (PhaseV::Opening { .. }, EventV::Opened(Err(e))) => PhaseV::Failed(e),
        (PhaseV::Fetching { context_id, research_id }, EventV::Fetched(Ok(reading))) => after_fetch(
            tool,
            context_id,
            research_id,
            reading,
        ),
        (PhaseV::Fetching { research_id, .. }, EventV::Fetched(Err(e))) => stopped(research_id, e),
        (PhaseV::Confirming { context_id, research_id }, EventV::Observed(observed)) =>
            after_confirmation(tool, context_id, research_id, observed),
        (PhaseV::Recording { research_id, .. }, EventV::Recorded { problem, cancelled }) =>
            match problem {
                Some(e) => PhaseV::Failed(e),
                None => if cancelled {
                    PhaseV::Noting {
                        research_id,
                        error: FailureV::Message("CANCELLED: request cancelled"@),
                    }
                } else {
                    PhaseV::Answered
                },
            },
        (PhaseV::Noting { error, .. }, EventV::Noted(problem)) => match problem {
            Some(e) => PhaseV::Failed(e),
            None => PhaseV::Failed(error),
        },
        _ => phase,
    }
}

fn stop(research_id: String, error: Failure) -> (r: Phase)
    ensures
        r@ == stopped(research_id@, error@),
{
    if service::is_cancellation(&error) {
        Phase::Noting { research_id, error }
    } else {
        Phase::Failed(error)
    }
}

fn confirm(tool: Tool, context_id: String, research_id: String, observed: Result<Json, Failure>) -> (r:
    Phase)
    ensures
        r@ == after_confirmation(tool, context_id@, research_id@, failure::outcome(observed)),
{
    let problem: Result<(), Failure> = match observed {
        Ok(current) => context_binding::confirm_context(&current, context_id.as_str()),
        Err(e) => Err(e),
    };
    match problem {
        Ok(_) => Phase::Recording { research_id, refused: None },
        Err(e) => if tool == Tool::Products {
            Phase::Recording { research_id, refused: Some(product_batch::unconfirmed(Some(&e))) }
        } else {
            stop(research_id, e)
        },
    }
}

impl Phase {
    /// How a call begins.
    pub fn first() -> (r: Phase)
        ensures
            r@ == PhaseV::Observing,
    {
        Phase::Observing
    }

    /// The phase behind this one, by what happened.
    pub fn advance(self, tool: Tool, event: Event) -> (r: Phase)
        ensures
            r@ == phase_after(tool, self@, event@),
    {
        match (self, event) {
            (Phase::Observing, Event::Observed(Ok(context))) => match service::required_text(
                &context,
                "contextId",
            ) {
                Ok(id) => Phase::Opening { context_id: id.to_owned() },
                Err(e) => Phase::Failed(e),
            },
            (Phase::Observing, Event::Observed(Err(e))) => Phase::Failed(e),
            (Phase::Opening { context_id }, Event::Opened(Ok(start))) => if start.cached {
                Phase::Recording { research_id: start.research_id, refused: None }
            } else {
                Phase::Fetching { context_id, research_id: start.research_id }
            },
            (Phase::Opening { .. }, Event::Opened(Err(e))) => Phase::Failed(e),
            (Phase::Fetching { context_id, research_id }, Event::Fetched(Ok(reading))) => {
                if tool != Tool::Products || (reading.live && reading.in_time) {
                    Phase::Confirming { context_id, research_id }
                } else if reading.live {
                    Phase::Recording {
                        research_id,
                        refused: Some(product_batch::unconfirmed(None)),
                    }
                } else {
                    Phase::Recording { research_id, refused: None }
                }
            },
            (Phase::Fetching { research_id, .. }, Event::Fetched(Err(e))) => stop(research_id, e),
            (Phase::Confirming { context_id, research_id }, Event::Observed(observed)) => confirm(
                tool,
                context_id,
                research_id,
                observed,
            ),
            (Phase::Recording { research_id, .. }, Event::Recorded { stored, cancelled }) =>
                match stored {
                    Err(e) => Phase::Failed(e),
                    Ok(_) => if cancelled {
                        Phase::Noting {
                            research_id,
                            error: Failure::new("CANCELLED: request cancelled"),
                        }
                    } else {
                        Phase::Answered
                    },
                },
            (Phase::Noting { error, .. }, Event::Noted(noted)) => match noted {
                Err(e) => Phase::Failed(e),
                Ok(_) => Phase::Failed(error),
            },
            (phase, _) => phase,
        }
    }
}

/// The phase that a row of events leads to, from the first.
pub open spec fn phase_at(tool: Tool, events: Seq<EventV>) -> PhaseV
    decreases events.len(),
{
    if events.len() == 0 {
        PhaseV::Observing
    } else {
        phase_after(tool, phase_at(tool, events.drop_last()), events.last())
    }
}

/// Whether an observation shows a context under this identifier.
pub open spec fn shows_context(event: EventV, context_id: Seq<char>) -> bool {
    event matches EventV::Observed(Ok(context)) && service::required(context, "contextId"@)
        == Ok::<Seq<char>, FailureV>(context_id)
}

/// Whether a context was observed before something else.
pub open spec fn observed_before(events: Seq<EventV>, end: int, context_id: Seq<char>) -> bool {
    exists|i: int| 0 <= i < end && shows_context(#[trigger] events[i], context_id)
}

/// Whether the source was read, under a context that was observed before.
pub open spec fn read_under(events: Seq<EventV>, end: int, context_id: Seq<char>) -> bool {
    exists|j: int|
        0 <= j < end && (#[trigger] events[j] matches EventV::Fetched(Ok(_))) && observed_before(
            events,
            j,
            context_id,
        )
}

/// Whether the context was the same before the source was read and after it.
pub open spec fn confirmed(events: Seq<EventV>) -> bool {
    exists|k: int, context_id: Seq<char>|
        0 <= k < events.len() && #[trigger] shows_context(events[k], context_id) && read_under(
            events,
            k,
            context_id,
        )
}

/// Whether what the call reads was kept by an earlier one.
pub open spec fn was_kept(events: Seq<EventV>) -> bool {
    exists|i: int|
        0 <= i < events.len() && (#[trigger] events[i] matches EventV::Opened(Ok((_, cached)))
            && cached)
}

/// What holds of the events behind each phase.
spec fn explained(tool: Tool, events: Seq<EventV>) -> bool {
    match phase_at(tool, events) {
        PhaseV::Opening { context_id } => observed_before(events, events.len() as int, context_id),
        PhaseV::Fetching { context_id, .. } => observed_before(
            events,
            events.len() as int,
            context_id,
        ),
        PhaseV::Confirming { context_id, .. } => read_under(
            events,
            events.len() as int,
            context_id,
        ),
        PhaseV::Recording { .. } => was_kept(events) || confirmed(events),
        PhaseV::Answered => was_kept(events) || confirmed(events),
        _ => true,
    }
}

proof fn lemma_observed_grows(events: Seq<EventV>, more: Seq<EventV>, end: int, context_id: Seq<char>)
    requires
        0 <= end <= events.len() <= more.len(),
        forall|i: int| 0 <= i < events.len() ==> more[i] == events[i],
        observed_before(events, end, context_id),
    ensures
        observed_before(more, end, context_id),
{
    let i = choose|i: int| 0 <= i < end && shows_context(#[trigger] events[i], context_id);
    assert(shows_context(more[i], context_id));
}

proof fn lemma_read_grows(events: Seq<EventV>, more: Seq<EventV>, context_id: Seq<char>)
    requires
        events.len() <= more.len(),
        forall|i: int| 0 <= i < events.len() ==> more[i] == events[i],
        read_under(events, events.len() as int, context_id),
    ensures
        read_under(more, events.len() as int, context_id),
{
    let j = choose|j: int|
        0 <= j < events.len() && (#[trigger] events[j] matches EventV::Fetched(Ok(_)))
            && observed_before(events, j, context_id);
    lemma_observed_grows(events, more, j, context_id);
    assert(more[j] matches EventV::Fetched(Ok(_)));
}

proof fn lemma_kept_or_confirmed_grows(events: Seq<EventV>, more: Seq<EventV>)
    requires
        events.len() <= more.len(),
        forall|i: int| 0 <= i < events.len() ==> more[i] == events[i],
        was_kept(events) || confirmed(events),
    ensures
        was_kept(more) || confirmed(more),
{
    if was_kept(events) {
        let i = choose|i: int|
            0 <= i < events.len() && (#[trigger] events[i] matches EventV::Opened(Ok((_, cached)))
                && cached);
        assert(more[i] == events[i]);
        assert(was_kept(more));
    } else {
        let (k, context_id) = choose|k: int, context_id: Seq<char>|
            0 <= k < events.len() && #[trigger] shows_context(events[k], context_id)
                && read_under(events, k, context_id);
        let j = choose|j: int|
            0 <= j < k && (#[trigger] events[j] matches EventV::Fetched(Ok(_)))
                && observed_before(events, j, context_id);
        lemma_observed_grows(events, more, j, context_id);
        assert(more[j] matches EventV::Fetched(Ok(_)));
        assert(read_under(more, k, context_id));
        assert(shows_context(more[k], context_id));
        assert(confirmed(more));
    }
}

proof fn lemma_explained(tool: Tool, events: Seq<EventV>)
    requires
        tool != Tool::Products,
    ensures
        explained(tool, events),
    decreases events.len(),
{
    if events.len() > 0 {
        let rest = events.drop_last();
        let n = rest.len() as int;
        lemma_explained(tool, rest);
        let before = phase_at(tool, rest);
        let after = phase_at(tool, events);
        let event = events.last();
        assert(event == events[n]);
        assert(forall|i: int| 0 <= i < n ==> events[i] == rest[i]);
        match before {
            PhaseV::Observing => {
                if let PhaseV::Opening { context_id } = after {
                    assert(shows_context(events[n], context_id));
                }
            },
            PhaseV::Opening { context_id } => {
                lemma_observed_grows(rest, events, n, context_id);
                assert(observed_before(events, n + 1, context_id));
                if after is Recording {
                    assert(events[n] matches EventV::Opened(Ok((_, cached))) && cached);
                    assert(was_kept(events));
                }
            },
            PhaseV::Fetching { context_id, .. } => {
                lemma_observed_grows(rest, events, n, context_id);
                assert(observed_before(events, n + 1, context_id));
                if after is Confirming {
                    assert(events[n] matches EventV::Fetched(Ok(_)));
                    assert(read_under(events, n + 1, context_id));
                }
            },
            PhaseV::Confirming { context_id, .. } => {
                lemma_read_grows(rest, events, context_id);
                let j = choose|j: int|
                    0 <= j < n && (#[trigger] events[j] matches EventV::Fetched(Ok(_)))
                        && observed_before(events, j, context_id);
                assert(events[j] matches EventV::Fetched(Ok(_)));
                assert(read_under(events, n + 1, context_id));
                if after is Recording {
                    assert(shows_context(events[n], context_id));
                    assert(confirmed(events));
                }
            },
            PhaseV::Recording { .. } => {
                lemma_kept_or_confirmed_grows(rest, events);
            },
            PhaseV::Answered => {
                lemma_kept_or_confirmed_grows(rest, events);
            },
            _ => {},
        }
    }
}

/// Whatever happens, a search, reviews or images are stored and answered only where the
/// context was the same before the source was read and after it, or where nothing had to be
/// read.
pub proof fn answers_belong_to_one_context(tool: Tool, events: Seq<EventV>)
    requires
        tool != Tool::Products,
        phase_at(tool, events) is Recording || phase_at(tool, events) is Answered,
    ensures
        was_kept(events) || confirmed(events),
{
    lemma_explained(tool, events);
}

/// A batch of products shows what was read just now only where the context was confirmed.
pub proof fn unconfirmed_products_are_refused(
    context_id: Seq<char>,
    research_id: Seq<char>,
    reading: Reading,
    observed: Result<JsonV, FailureV>,
)
    ensures
        reading.live ==> match after_fetch(Tool::Products, context_id, research_id, reading) {
            PhaseV::Recording { refused, .. } => refused is Some,
            _ => true,
        },
        match after_confirmation(Tool::Products, context_id, research_id, observed) {
            PhaseV::Recording { refused, .. } => refused is None ==> confirmation_problem(
                observed,
                context_id,
            ) is None,
            _ => false,
        },
{
}

/// A call whose research is known does not fail for a cancellation before that is noted there.
pub proof fn cancellations_are_noted(tool: Tool, phase: PhaseV, event: EventV)
    requires
        phase is Fetching || phase is Confirming,
    ensures
        phase_after(tool, phase, event) matches PhaseV::Failed(e) ==> !is_cancelled(e),
{
}

/// Whether a call waits for an event of this kind.
pub open spec fn is_awaited(phase: PhaseV, event: EventV) -> bool {
    match phase {
        PhaseV::Observing => event is Observed,
        PhaseV::Opening { .. } => event is Opened,
        PhaseV::Fetching { .. } => event is Fetched,
        PhaseV::Confirming { .. } => event is Observed,
        PhaseV::Recording { .. } => event is Recorded,
        PhaseV::Noting { .. } => event is Noted,
        PhaseV::Answered => false,
        PhaseV::Failed(_) => false,
    }
}

/// How many events a call can still wait for.
pub open spec fn events_left(phase: PhaseV) -> nat {
    match phase {
        PhaseV::Observing => 6,
        PhaseV::Opening { .. } => 5,
        PhaseV::Fetching { .. } => 4,
        PhaseV::Confirming { .. } => 3,
        PhaseV::Recording { .. } => 2,
        PhaseV::Noting { .. } => 1,
        PhaseV::Answered => 0,
        PhaseV::Failed(_) => 0,
    }
}

/// A call ends: each event that it waits for brings it closer to its end, and no other event
/// changes it.
pub proof fn calls_end(tool: Tool, phase: PhaseV, event: EventV)
    ensures
        is_awaited(phase, event) ==> events_left(phase_after(tool, phase, event)) < events_left(
            phase,
        ),
        !is_awaited(phase, event) ==> phase_after(tool, phase, event) == phase,
        events_left(phase) == 0 <==> phase is Answered || phase is Failed,
{
}

} // verus!
