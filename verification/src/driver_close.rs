//! Closing the daemon of the driver when its browser cannot be asked: which daemon may be
//! closed, and when it is known to be gone.

use crate::browser;
use crate::json::{self, Json, JsonV};
use vstd::prelude::*;

verus! {

/// Which daemon is closed: the one that is found to own the profile, or the one that was noted
/// when its browser was closed.
#[derive(Clone, Copy, Debug, PartialEq, Eq, Structural)]
pub enum Target {
    Matching,
    Recorded,
}

/// What is done next about a daemon.
#[derive(Clone, Copy, Debug, PartialEq, Eq, Structural)]
pub enum DriverStep {
    /// Ask it for the facts of its session.
    AskFacts,
    /// See by the list of processes that it owns the profile.
    CheckOwner { launched: bool, pages: u64 },
    /// Note in the marker that it is being closed.
    NoteClosing,
    /// See by the list of processes that nothing below it uses a profile.
    CheckBare,
    /// See by the list of processes that the profile is unused.
    CheckUnused,
    /// Ask it to close.
    AskClose,
    /// Wait until its process and its socket are gone.
    AwaitExit,
    /// See once more that the profile is unused.
    CheckProfile,
    Finished { closed: bool },
}

/// What a step brought.
#[derive(Debug)]
pub enum DriverEvent {
    /// The reply of the daemon, where there was one.
    Reply(Option<Json>),
    /// Whether what was looked for is so, where that could be told.
    Answer(Option<bool>),
}

pub enum DriverEventV {
    Reply(Option<JsonV>),
    Answer(Option<bool>),
}

impl View for DriverEvent {
    type V = DriverEventV;

    open spec fn view(&self) -> DriverEventV {
        match self {
            DriverEvent::Reply(o) => DriverEventV::Reply(json::read_of(*o)),
            DriverEvent::Answer(b) => DriverEventV::Answer(*b),
        }
    }
}

pub open spec fn facts_id(target: Target) -> Seq<char> {
    match target {
        Target::Matching => "ozon-recovery-info"@,
        Target::Recorded => "ozon-recorded-info"@,
    }
}

pub open spec fn close_id(target: Target) -> Seq<char> {
    match target {
        Target::Matching => "ozon-recovery-close"@,
        Target::Recorded => "ozon-recorded-close"@,
    }
}

pub open spec fn most_pages(target: Target) -> u64 {
    match target {
        Target::Matching => 0xffff_ffff,
        Target::Recorded => u64::MAX,
    }
}

/// The request that a step sends to the daemon, where it sends one.
pub open spec fn request_of(target: Target, step: DriverStep) -> Option<(Seq<char>, Seq<char>)> {
    match step {
        DriverStep::AskFacts => Some((facts_id(target), "session_info"@)),
        DriverStep::AskClose => Some((close_id(target), "close"@)),
        _ => None,
    }
}

fn facts_name(target: Target) -> (r: &'static str)
    ensures
        r@ == facts_id(target),
{
    match target {
        Target::Matching => "ozon-recovery-info",
        Target::Recorded => "ozon-recorded-info",
    }
}

fn close_name(target: Target) -> (r: &'static str)
    ensures
        r@ == close_id(target),
{
    match target {
        Target::Matching => "ozon-recovery-close",
        Target::Recorded => "ozon-recorded-close",
    }
}

/// The request that a step sends to the daemon, where it sends one.
pub fn step_request(target: Target, step: DriverStep) -> (r: Option<Json>)
    ensures
        json::read_of(r) == match request_of(target, step) {
            Some((id, action)) => Some(
                JsonV::object().with("id"@, JsonV::Text(id)).with("action"@, JsonV::Text(action)),
            ),
            None => None,
        },
{
    match step {
        DriverStep::AskFacts => Some(browser::daemon_request(facts_name(target), "session_info")),
        DriverStep::AskClose => Some(browser::daemon_request(close_name(target), "close")),
        _ => None,
    }
}

/// A step on success, the end on failure.
pub open spec fn on(holds: bool, step: DriverStep) -> DriverStep {
    if holds {
        step
    } else {
        DriverStep::Finished { closed: false }
    }
}

pub open spec fn says(event: DriverEventV, wanted: bool) -> bool {
    event == DriverEventV::Answer(Some(wanted))
}

/// The step behind another, by what that one brought.
pub open spec fn step_after(
    target: Target,
    pid: u32,
    step: DriverStep,
    event: DriverEventV,
) -> DriverStep {
    match step {
        DriverStep::AskFacts => match event {
            DriverEventV::Reply(Some(reply)) => match browser::session_facts(
                reply,
                facts_id(target),
                pid,
                most_pages(target),
            ) {
                Some((launched, pages)) => match target {
                    Target::Matching => DriverStep::CheckOwner { launched, pages },
                    Target::Recorded => DriverStep::CheckBare,
                },
                None => DriverStep::Finished { closed: false },
            },
            _ => DriverStep::Finished { closed: false },
        },
        DriverStep::CheckOwner { .. } => on(says(event, true), DriverStep::NoteClosing),
        DriverStep::NoteClosing => on(says(event, true), DriverStep::AskClose),
        DriverStep::CheckBare => on(says(event, true), DriverStep::CheckUnused),
        DriverStep::CheckUnused => on(says(event, true), DriverStep::AskClose),
        DriverStep::AskClose => on(
            event matches DriverEventV::Reply(Some(reply)) && browser::confirms_close(
                reply,
                close_id(target),
            ),
            DriverStep::AwaitExit,
        ),
        DriverStep::AwaitExit => on(says(event, true), DriverStep::CheckProfile),
        DriverStep::CheckProfile => DriverStep::Finished { closed: says(event, true) },
        DriverStep::Finished { closed } => step,
    }
}

fn when(holds: bool, step: DriverStep) -> (r: DriverStep)
    ensures
        r == on(holds, step),
{
    if holds {
        step
    } else {
        DriverStep::Finished { closed: false }
    }
}

fn is_yes(event: &DriverEvent) -> (r: bool)
    ensures
        r == says(event@, true),
{
    match event {
        DriverEvent::Answer(Some(b)) => *b,
        _ => false,
    }
}

/// The step behind another, by what that one brought.
pub fn advance_driver(target: Target, pid: u32, step: DriverStep, event: &DriverEvent) -> (r:
    DriverStep)
    ensures
        r == step_after(target, pid, step, event@),
{
    match step {
        DriverStep::AskFacts => match event {
            DriverEvent::Reply(Some(reply)) => {
                let most: u64 = match target {
                    Target::Matching => 0xffff_ffff,
                    Target::Recorded => u64::MAX,
                };
                match browser::read_session_facts(reply, facts_name(target), pid, most) {
                    Some((launched, pages)) => match target {
                        Target::Matching => DriverStep::CheckOwner { launched, pages },
                        Target::Recorded => DriverStep::CheckBare,
                    },
                    None => DriverStep::Finished { closed: false },
                }
            },
            _ => DriverStep::Finished { closed: false },
        },
        DriverStep::CheckOwner { .. } => when(is_yes(event), DriverStep::NoteClosing),
        DriverStep::NoteClosing => when(is_yes(event), DriverStep::AskClose),
        DriverStep::CheckBare => when(is_yes(event), DriverStep::CheckUnused),
        DriverStep::CheckUnused => when(is_yes(event), DriverStep::AskClose),
        DriverStep::AskClose => match event {
            DriverEvent::Reply(Some(reply)) => when(
                browser::is_close_confirmed(reply, close_name(target)),
                DriverStep::AwaitExit,
            ),
            _ => DriverStep::Finished { closed: false },
        },
        DriverStep::AwaitExit => when(is_yes(event), DriverStep::CheckProfile),
        DriverStep::CheckProfile => DriverStep::Finished { closed: is_yes(event) },
        DriverStep::Finished { .. } => step,
    }
}

/// The steps that a row of events leads through, from the first.
pub open spec fn step_at(target: Target, pid: u32, events: Seq<DriverEventV>) -> DriverStep
    decreases events.len(),
{
    if events.len() == 0 {
        DriverStep::AskFacts
    } else {
        step_after(target, pid, step_at(target, pid, events.drop_last()), events.last())
    }
}

/// Whether a daemon confirmed in the course of events that it closes.
pub open spec fn confirmed(target: Target, events: Seq<DriverEventV>) -> bool {
    exists|i: int|
        0 <= i < events.len() && (#[trigger] events[i] matches DriverEventV::Reply(Some(reply))
            && browser::confirms_close(reply, close_id(target)))
}

proof fn lemma_confirmed(target: Target, pid: u32, events: Seq<DriverEventV>)
    ensures
        match step_at(target, pid, events) {
            DriverStep::AwaitExit | DriverStep::CheckProfile => confirmed(target, events),
            DriverStep::Finished { closed } => closed ==> confirmed(target, events),
            _ => true,
        },
    decreases events.len(),
{
    if events.len() > 0 {
        let rest = events.drop_last();
        lemma_confirmed(target, pid, rest);
        if confirmed(target, rest) {
            let i = choose|i: int|
                0 <= i < rest.len() && (#[trigger] rest[i] matches DriverEventV::Reply(Some(reply))
                    && browser::confirms_close(reply, close_id(target)));
            assert(events[i] == rest[i]);
            assert(confirmed(target, events));
        }
        if step_at(target, pid, rest) is AskClose && step_at(target, pid, events) is AwaitExit {
            assert(events[events.len() - 1] == events.last());
            assert(confirmed(target, events));
        }
    }
}

/// Whatever a daemon and the system answer, it counts as closed only where it confirmed that
/// it closes.
pub proof fn closed_daemons_confirmed_it(target: Target, pid: u32, events: Seq<DriverEventV>)
    ensures
        step_at(target, pid, events) == (DriverStep::Finished { closed: true }) ==> confirmed(
            target,
            events,
        ),
{
    lemma_confirmed(target, pid, events);
}

/// How many steps are left at most.
pub open spec fn steps_left(step: DriverStep) -> nat {
    match step {
        DriverStep::AskFacts => 6,
        DriverStep::CheckOwner { .. } => 5,
        DriverStep::CheckBare => 5,
        DriverStep::NoteClosing => 4,
        DriverStep::CheckUnused => 4,
        DriverStep::AskClose => 3,
        DriverStep::AwaitExit => 2,
        DriverStep::CheckProfile => 1,
        DriverStep::Finished { .. } => 0,
    }
}

/// Closing a daemon ends.
pub proof fn daemon_closes_end(target: Target, pid: u32, step: DriverStep, event: DriverEventV)
    requires
        !(step is Finished),
    ensures
        steps_left(step_after(target, pid, step, event)) < steps_left(step),
{
}

} // verus!
