use ozon_research::driver_close::{
    advance_driver, step_request, DriverEvent, DriverStep, Target,
};
use ozon_research::browser::is_known_daemon;
use ozon_research::json::Json;
use ozon_research::processes::is_daemon_peer;

fn reply(text: &str) -> DriverEvent {
    DriverEvent::Reply(Some(Json::parse(text).unwrap()))
}

fn yes() -> DriverEvent {
    DriverEvent::Answer(Some(true))
}

/// The steps that events lead through.
fn steps(target: Target, events: Vec<DriverEvent>) -> Vec<DriverStep> {
    let mut step = DriverStep::AskFacts;
    events
        .iter()
        .map(|event| {
            step = advance_driver(target, 7, step, event);
            step
        })
        .collect()
}

#[test]
fn owning_daemons_are_closed() {
    let facts = r#"{"id":"ozon-recovery-info","success":true,"data":{"backgroundPid":7,"browserLaunched":true,"pageCount":2}}"#;
    let closed = r#"{"id":"ozon-recovery-close","success":true,"data":{"closed":true}}"#;
    assert_eq!(
        steps(Target::Matching, vec![reply(facts), yes(), yes(), reply(closed), yes(), yes()]),
        [
            DriverStep::CheckOwner { launched: true, pages: 2 },
            DriverStep::NoteClosing,
            DriverStep::AskClose,
            DriverStep::AwaitExit,
            DriverStep::CheckProfile,
            DriverStep::Finished { closed: true },
        ]
    );
}

#[test]
fn recorded_daemons_are_closed_without_a_browser() {
    let facts = r#"{"id":"ozon-recorded-info","success":true,"data":{"backgroundPid":7,"browserLaunched":false,"pageCount":0}}"#;
    let closed = r#"{"id":"ozon-recorded-close","success":true,"data":{"closed":true}}"#;
    assert_eq!(
        steps(Target::Recorded, vec![reply(facts), yes(), yes(), reply(closed), yes(), yes()]),
        [
            DriverStep::CheckBare,
            DriverStep::CheckUnused,
            DriverStep::AskClose,
            DriverStep::AwaitExit,
            DriverStep::CheckProfile,
            DriverStep::Finished { closed: true },
        ]
    );
}

#[test]
fn unconfirmed_daemons_are_left() {
    let left = vec![DriverStep::Finished { closed: false }];
    let other = r#"{"id":"ozon-recovery-info","success":true,"data":{"backgroundPid":8,"browserLaunched":true,"pageCount":0}}"#;
    assert_eq!(steps(Target::Matching, vec![reply(other)]), left);
    assert_eq!(steps(Target::Matching, vec![reply("{}")]), left);
    assert_eq!(steps(Target::Matching, vec![DriverEvent::Reply(None)]), left);
    let facts = r#"{"id":"ozon-recovery-info","success":true,"data":{"backgroundPid":7,"browserLaunched":true,"pageCount":2}}"#;
    for answer in [Some(false), None] {
        let ended = steps(Target::Matching, vec![reply(facts), DriverEvent::Answer(answer)]);
        assert_eq!(ended[1], DriverStep::Finished { closed: false });
    }
    let refused = r#"{"id":"ozon-recovery-close","success":false}"#;
    let ended = steps(Target::Matching, vec![reply(facts), yes(), yes(), reply(refused), yes()]);
    assert_eq!(ended[4], DriverStep::Finished { closed: false });
}

#[test]
fn daemons_are_asked_by_name() {
    let text = |target, step| step_request(target, step).map(|request| request.to_text());
    assert_eq!(
        text(Target::Matching, DriverStep::AskFacts).as_deref(),
        Some(r#"{"action":"session_info","id":"ozon-recovery-info"}"#)
    );
    assert_eq!(
        text(Target::Recorded, DriverStep::AskClose).as_deref(),
        Some(r#"{"action":"close","id":"ozon-recorded-close"}"#)
    );
    assert_eq!(text(Target::Recorded, DriverStep::CheckBare), None);
}

#[test]
fn only_the_daemon_itself_is_talked_to() {
    assert!(is_known_daemon("0.36.0"));
    assert!(!is_known_daemon("0.35.0"));
    assert!(!is_known_daemon("0.36.0\n"));
    assert!(is_daemon_peer(501, Some(7), 501, 7));
    assert!(is_daemon_peer(501, None, 501, 7));
    assert!(!is_daemon_peer(502, Some(7), 501, 7));
    assert!(!is_daemon_peer(501, Some(8), 501, 7));
    assert!(!is_daemon_peer(501, Some(1), 501, 1));
}
