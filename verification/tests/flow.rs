use ozon_research::call_flow::{Event, Phase, Reading, Start, Tool};
use ozon_research::evidence::error_code;
use ozon_research::failure::Failure;
use ozon_research::json::Json;

fn context(id: &str) -> Event {
    Event::Observed(Ok(Json::object().with("contextId", Json::text(id))))
}

fn opened(cached: bool) -> Event {
    Event::Opened(Ok(Start { research_id: "r".to_owned(), cached }))
}

fn fetched(live: bool, in_time: bool) -> Event {
    Event::Fetched(Ok(Reading { live, in_time }))
}

fn cancelled() -> Failure {
    Failure::new("CANCELLED: request cancelled")
}

/// The phases that events lead through, by name.
fn phases(tool: Tool, events: Vec<Event>) -> Vec<String> {
    let mut phase = Phase::first();
    let mut names = vec![];
    for event in events {
        phase = phase.advance(tool, event);
        names.push(match &phase {
            Phase::Observing => "observing".to_owned(),
            Phase::Opening { context_id } => format!("opening {context_id}"),
            Phase::Fetching { .. } => "fetching".to_owned(),
            Phase::Confirming { .. } => "confirming".to_owned(),
            Phase::Recording { refused, .. } => match refused {
                Some(refused) => format!("recording without {}", refused.code),
                None => "recording".to_owned(),
            },
            Phase::Noting { .. } => "noting".to_owned(),
            Phase::Answered => "answered".to_owned(),
            Phase::Failed(error) => format!("failed {}", error_code(error)),
        });
    }
    names
}

#[test]
fn calls_are_answered_in_order() {
    let stored = || Event::Recorded { stored: Ok(()), cancelled: false };
    assert_eq!(
        phases(
            Tool::Search,
            vec![context("a"), opened(false), fetched(true, true), context("a"), stored()]
        ),
        ["opening a", "fetching", "confirming", "recording", "answered"]
    );
    assert_eq!(
        phases(Tool::Reviews, vec![context("a"), opened(true), stored()]),
        ["opening a", "recording", "answered"]
    );
}

#[test]
fn scripted_context_change_rejects_search_before_recording_success() {
    assert_eq!(
        phases(
            Tool::Search,
            vec![context("before"), opened(false), fetched(true, true), context("after")]
        ),
        ["opening before", "fetching", "confirming", "failed CONTEXT_CHANGED"]
    );
}

#[test]
fn cancellation_records_terminal_event_after_gateway_cleanup() {
    assert_eq!(
        phases(
            Tool::Search,
            vec![
                context("same"),
                opened(false),
                Event::Fetched(Err(cancelled())),
                Event::Noted(Ok(()))
            ]
        ),
        ["opening same", "fetching", "noting", "failed CANCELLED"]
    );
    assert_eq!(
        phases(
            Tool::Images,
            vec![
                context("same"),
                opened(false),
                fetched(true, true),
                context("same"),
                Event::Recorded { stored: Ok(()), cancelled: true },
                Event::Noted(Ok(()))
            ]
        )[3..],
        ["recording", "noting", "failed CANCELLED"]
    );
}

#[test]
fn product_batch_uses_one_post_fetch_context_confirmation() {
    let ends = |events| phases(Tool::Products, events).pop().unwrap();
    assert_eq!(ends(vec![context("a"), opened(false), fetched(true, true)]), "confirming");
    assert_eq!(
        ends(vec![context("a"), opened(false), fetched(true, true), context("a")]),
        "recording"
    );
    assert_eq!(ends(vec![context("a"), opened(false), fetched(false, true)]), "recording");
    assert_eq!(
        ends(vec![context("a"), opened(false), fetched(true, false)]),
        "recording without UPSTREAM_TIMEOUT"
    );
    assert_eq!(
        ends(vec![context("a"), opened(false), fetched(true, true), context("b")]),
        "recording without CONTEXT_CHANGED"
    );
}

#[test]
fn calls_wait_for_what_they_asked_for() {
    assert_eq!(phases(Tool::Search, vec![opened(false)]), ["observing"]);
    assert_eq!(
        phases(Tool::Search, vec![Event::Observed(Err(cancelled())), context("a")]),
        ["failed CANCELLED", "failed CANCELLED"]
    );
    assert_eq!(
        phases(Tool::Search, vec![Event::Observed(Ok(Json::object()))]),
        ["failed SOURCE_CHANGED"]
    );
}
