use ozon_research::browser_error::BrowserError;
use ozon_research::failure::Failure;
use ozon_research::json::Json;
use ozon_research::ozon_pages::{
    after_composer, after_context, after_evaluation, after_recovery, after_widgets,
    check_navigation, cleanup_remaining, is_requested_page, merge_context_region, read_outcome,
    readiness, resolve_target, settle_region, should_probe_region, should_try_again, Composed,
    ContextProbe, ContextStep, Evaluated, Readiness, Restored,
};
use ozon_research::page_outcome::{
    ContextObservation, FilteredPage, NavigationProbe, PageError, PageOutcome, RegionProbe,
};

fn json(text: &str) -> Json {
    Json::parse(text).unwrap()
}

fn outcome(text: &str) -> PageOutcome {
    PageOutcome::from_json(&json(text)).unwrap()
}

const CONTEXT: &str = r#"{"page": {"widgetStates": {},
    "contextObservation": {"regionLabel": null, "regionVerified": false,
        "accountState": "anonymous", "accessState": "available", "signature": "stable"},
    "regionProbe": {"addressBookModalAvailable": false, "selectedRegionLabel": null}}}"#;

/// Runs a page script on scripted outcomes, and counts its runs and the visits of the home
/// page.
fn evaluate(mode: &str, outcomes: &[&str]) -> (Result<(PageOutcome, bool), BrowserError>, usize, usize) {
    match after_evaluation(mode, outcome(outcomes[0])) {
        Evaluated::Take { outcome, renews } => (Ok((outcome, renews)), 1, 0),
        Evaluated::Refuse => (Err(BrowserError::InvalidOrigin), 1, 0),
        Evaluated::Recover => match after_recovery(outcome(outcomes[1])) {
            Some(taken) => (Ok(taken), 2, 1),
            None => (Err(BrowserError::InvalidOrigin), 2, 1),
        },
    }
}

#[test]
fn warm_context_revisits_home_once_after_unexpected_origin() {
    let (result, runs, visits) = evaluate("context", &[r#"{"error":"INVALID_ORIGIN"}"#, CONTEXT]);
    let (taken, ready) = result.unwrap();
    assert!(ready);
    let page = match after_context(taken, ContextProbe::first()) {
        ContextStep::Done(page) => page,
        _ => panic!(),
    };
    assert_eq!(page.context_observation.unwrap().account_state, "anonymous");
    assert_eq!((runs, visits), (2, 1));
}

#[test]
fn persistent_unexpected_origin_is_typed_and_bounded() {
    let foreign = r#"{"error":"INVALID_ORIGIN"}"#;
    let (result, runs, visits) = evaluate("context", &[foreign, foreign]);
    assert!(matches!(result, Err(BrowserError::InvalidOrigin)));
    assert_eq!((runs, visits), (2, 1));
}

#[test]
fn source_fetch_shares_unexpected_origin_recovery() {
    let (result, _, visits) = evaluate(
        "fetch",
        &[
            r#"{"error":"INVALID_ORIGIN"}"#,
            r#"{"page":{"widgetStates":{"source":"recovered"}}}"#,
        ],
    );
    match after_composer(result.unwrap().0) {
        Composed::Done(source) => {
            assert_eq!(source.field("widgetStates").field("source").as_str(), Some("recovered"))
        }
        _ => panic!(),
    }
    assert_eq!(visits, 1);
}

#[test]
fn page_bound_modes_never_replay_on_home_after_unexpected_origin() {
    for mode in ["widgets", "contextModal", "navigation"] {
        let (result, runs, visits) = evaluate(
            mode,
            &[r#"{"error":"INVALID_ORIGIN"}"#, r#"{"page":{"widgetStates":{}}}"#],
        );
        assert!(matches!(result, Err(BrowserError::InvalidOrigin)));
        assert_eq!((runs, visits), (1, 0), "mode {mode}");
    }
}

#[test]
fn page_error_does_not_renew_warm_readiness() {
    match after_evaluation("context", outcome(r#"{"error":"CAPTCHA_OR_BLOCKED"}"#)) {
        Evaluated::Take { outcome: PageOutcome::Error(failure), renews } => {
            assert_eq!(failure.error, PageError::CaptchaOrBlocked);
            assert!(!renews);
        }
        _ => panic!(),
    }
}

fn context_page(account_state: &str, signature: &str) -> FilteredPage {
    FilteredPage {
        widget_states: Json::object(),
        seo: None,
        layout_tracking_info: None,
        context_observation: Some(ContextObservation {
            region_label: None,
            region_verified: false,
            region_source_url: None,
            account_state: account_state.to_owned(),
            access_state: "available".to_owned(),
            signature: Some(signature.to_owned()),
        }),
        region_probe: Some(RegionProbe {
            address_book_modal_available: true,
            selected_region_label: None,
        }),
        navigation_probe: None,
    }
}

#[test]
fn authenticated_modal_region_requires_stable_before_and_after_context() {
    let merged = merge_context_region(
        context_page("authenticated", "same"),
        context_page("authenticated", "same"),
        Some("Москва".to_owned()),
    )
    .unwrap();
    let observation = merged.context_observation.unwrap();
    assert_eq!(observation.region_label.as_deref(), Some("Москва"));
    assert!(observation.region_verified);
    assert!(observation.signature.is_some_and(|value| value.len() == 64));
    assert!(merged.region_probe.is_none());

    assert!(merge_context_region(
        context_page("authenticated", "before"),
        context_page("authenticated", "after"),
        Some("Москва".to_owned()),
    )
    .is_err());
    assert!(merge_context_region(
        context_page("authenticated", "same"),
        context_page("anonymous", "same"),
        Some("Москва".to_owned()),
    )
    .is_err());
}

#[test]
fn navigation_probe_rejects_url_fields_crossing_the_page_boundary() {
    assert!(PageOutcome::from_json(&json(
        r#"{"page": {"widgetStates": {},
            "navigationProbe": {"routeValid": true, "status": 200, "url": "private"}}}"#
    ))
    .is_none());
}

#[test]
fn shared_outcome_contract_accepts_all_variants_and_fails_closed() {
    for (text, kind) in [
        (r#"{"page":{"widgetStates":{}}}"#, "page"),
        (
            r#"{"page":{"widgetStates":{"a":"b"},"seo":{"title":"t","link":[{"href":"h"}]},"layoutTrackingInfo":{"sku":7}}}"#,
            "page",
        ),
        (CONTEXT, "page"),
        (r#"{"error":"CAPTCHA_OR_BLOCKED"}"#, "error"),
        (r#"{"error":"FETCH_FAILED"}"#, "error"),
        (r#"{"error":"FETCH_TIMEOUT"}"#, "error"),
        (r#"{"error":"INVALID_OPTIONS"}"#, "error"),
        (r#"{"error":"INVALID_ORIGIN"}"#, "error"),
        (r#"{"error":"INVALID_RESPONSE"}"#, "error"),
        (r#"{"error":"RESPONSE_TOO_LARGE"}"#, "error"),
        (r#"{"status":403}"#, "status"),
    ] {
        let actual = match outcome(text) {
            PageOutcome::Page(_) => "page",
            PageOutcome::Error(_) => "error",
            PageOutcome::Status(_) => "status",
        };
        assert_eq!(actual, kind);
    }
    for text in [
        "null",
        "{}",
        r#"{"page":{}}"#,
        r#"{"page":{"widgetStates":[]}}"#,
        r#"{"page":{"widgetStates":{},"extra":1}}"#,
        r#"{"page":{"widgetStates":{}},"status":200}"#,
        r#"{"page":{"widgetStates":{},"seo":{"title":1,"link":[]}}}"#,
        r#"{"error":"UNKNOWN"}"#,
        r#"{"error":"FETCH_FAILED","detail":"x"}"#,
        r#"{"status":"403"}"#,
        r#"{"status":-1}"#,
        r#"{"status":1.5}"#,
        r#"{"result":1}"#,
    ] {
        assert!(PageOutcome::from_json(&json(text)).is_none(), "accepted malformed outcome {text}");
        assert!(read_outcome(&json(text)).is_err());
    }
}

#[test]
fn pages_are_written_as_they_were_read() {
    for text in [
        r#"{"widgetStates":{"a":"b"}}"#,
        r#"{"layoutTrackingInfo":{"sku":7},"navigationProbe":{"routeValid":true,"status":null},"seo":{"link":[{"href":"h"}],"title":"t"},"widgetStates":{}}"#,
    ] {
        match outcome(&format!(r#"{{"page":{text}}}"#)) {
            PageOutcome::Page(success) => assert_eq!(success.page.into_value().to_text(), text),
            _ => panic!(),
        }
    }
}

#[test]
fn headers_are_waited_for_at_hand_and_then_at_home() {
    let bare = r#"{"page":{"widgetStates":{}}}"#;
    let mut probe = ContextProbe::first();
    let mut homes = 0;
    let mut runs = 0;
    loop {
        runs += 1;
        match after_context(outcome(bare), probe) {
            ContextStep::Wait(next) => probe = next,
            ContextStep::Home(next) => {
                homes += 1;
                probe = next;
            }
            ContextStep::Done(_) => break,
            ContextStep::Failed(_) => panic!(),
        }
    }
    assert_eq!((runs, homes), (6, 1));
    assert!(matches!(
        after_context(outcome(r#"{"error":"RESPONSE_TOO_LARGE"}"#), ContextProbe::first()),
        ContextStep::Failed(Failure::Browser(BrowserError::ResponseTooLarge))
    ));
    assert!(matches!(
        after_context(outcome(r#"{"status":403}"#), ContextProbe::first()),
        ContextStep::Failed(Failure::Browser(BrowserError::CaptchaOrBlocked))
    ));
}

#[test]
fn sessions_stay_warm_for_a_while() {
    assert_eq!(readiness(false, 0), Readiness::Start);
    assert_eq!(readiness(true, 589), Readiness::Warm);
    assert_eq!(readiness(true, 590), Readiness::Restart);
    let failed = Failure::Browser(BrowserError::CommandFailed { command: "eval".to_owned() });
    assert!(should_try_again(&failed, false));
    assert!(!should_try_again(&failed, true));
    assert!(!should_try_again(&Failure::Browser(BrowserError::CommandTimeout), false));
    assert!(cleanup_remaining(10, 10).is_err());
    assert!(cleanup_remaining(11, 10).is_ok());
}

#[test]
fn targets_stay_on_the_site() {
    assert_eq!(resolve_target("/search/?text=a").unwrap(), "https://www.ozon.ru/search/?text=a");
    assert!(matches!(
        resolve_target("https://evil.example/"),
        Err(Failure::Browser(BrowserError::InvalidOrigin))
    ));
    assert!(check_navigation(&NavigationProbe { route_valid: true, status: Some(200) }).is_ok());
    assert!(check_navigation(&NavigationProbe { route_valid: false, status: Some(200) }).is_err());
    assert!(after_widgets(outcome(r#"{"error":"RESPONSE_TOO_LARGE"}"#)).is_err());
    assert!(should_probe_region(&context_page("authenticated", "s")));
}

#[test]
fn regions_are_settled_once_the_home_page_is_back() {
    let (resets, result) = settle_region(Restored::Home, Ok(Some("Москва".to_owned())));
    assert!(!resets);
    assert_eq!(result.unwrap().as_deref(), Some("Москва"));
    let (resets, result) = settle_region(Restored::Failed(Failure::new("x")), Ok(None));
    assert!(resets);
    assert_eq!(result.unwrap_err().message(), "x");
    let (_, result) = settle_region(Restored::AlreadyClosed, Ok(None));
    assert!(matches!(result, Err(Failure::Browser(BrowserError::CleanupFailed))));
}

#[test]
fn fallback_must_match_product_or_search() {
    assert!(is_requested_page(
        "https://www.ozon.ru/product/123/",
        "https://www.ozon.ru/product/item-123/"
    ));
    assert!(!is_requested_page(
        "https://www.ozon.ru/product/123/reviews/",
        "https://www.ozon.ru/product/123/"
    ));
    assert!(!is_requested_page(
        "https://www.ozon.ru/search/?text=mouse",
        "https://www.ozon.ru/search/?text=phone"
    ));
    assert!(!is_requested_page(
        "https://www.ozon.ru/product/123/",
        "https://evil.example/product/123/"
    ));
}

#[test]
fn search_redirect_preserves_all_semantic_query_pairs() {
    let requested = "https://www.ozon.ru/search/?text=mouse&brand=logitech&delivery=tomorrow&page=2&search_page_state=abc";
    assert!(is_requested_page(
        requested,
        "https://www.ozon.ru/search/?search_page_state=abc&page=2&delivery=tomorrow&brand=logitech&text=mouse"
    ));
    for actual in [
        "https://www.ozon.ru/search/?text=mouse&delivery=tomorrow&page=2&search_page_state=abc",
        "https://www.ozon.ru/search/?text=mouse&brand=other&delivery=tomorrow&page=2&search_page_state=abc",
        "https://www.ozon.ru/search/?text=mouse&brand=logitech&page=2&search_page_state=abc",
        "https://www.ozon.ru/search/?text=mouse&brand=logitech&delivery=tomorrow&page=3&search_page_state=abc",
        "https://www.ozon.ru/search/?text=mouse&brand=logitech&delivery=tomorrow&page=2&search_page_state=changed",
        "https://www.ozon.ru/search/?text=mouse&brand=logitech&delivery=tomorrow&page=2&search_page_state=abc&color=black",
    ] {
        assert!(!is_requested_page(requested, actual), "accepted {actual}");
    }
}

#[test]
fn search_redirect_compares_duplicate_query_pairs_as_a_multiset() {
    assert!(is_requested_page(
        "https://www.ozon.ru/search/?text=mouse&brand=a&brand=b",
        "https://www.ozon.ru/search/?brand=b&text=mouse&brand=a"
    ));
    assert!(!is_requested_page(
        "https://www.ozon.ru/search/?text=mouse&brand=a&brand=b",
        "https://www.ozon.ru/search/?text=mouse&brand=b&brand=b"
    ));
    assert!(!is_requested_page(
        "https://www.ozon.ru/search/?text=mouse&brand=a&brand=a",
        "https://www.ozon.ru/search/?text=mouse&brand=a"
    ));
}

#[test]
fn search_redirect_allows_only_known_navigation_metadata() {
    assert!(is_requested_page(
        "https://www.ozon.ru/search/?text=mouse&brand=logitech",
        "https://www.ozon.ru/search/?brand=logitech&text=mouse&__rr=1&deny_category_prediction=true&from_global=true&at=analytics-token"
    ));
    assert!(!is_requested_page(
        "https://www.ozon.ru/search/?text=mouse&brand=logitech",
        "https://www.ozon.ru/search/?text=mouse&brand=logitech&tracking_token=123"
    ));
    assert!(!is_requested_page(
        "https://www.ozon.ru/search/?text=mouse&brand=logitech",
        "https://www.ozon.ru/search/?text=mouse&brand=logitech&utm_source=unknown"
    ));
}

#[test]
fn search_redirect_normalizes_only_default_sort() {
    assert!(is_requested_page(
        "https://www.ozon.ru/search/?text=mouse&sorting=popular",
        "https://www.ozon.ru/search/?text=mouse&sorting=score"
    ));
    assert!(is_requested_page(
        "https://www.ozon.ru/search/?text=mouse",
        "https://www.ozon.ru/search/?text=mouse&sorting=score"
    ));
    assert!(!is_requested_page(
        "https://www.ozon.ru/search/?text=mouse",
        "https://www.ozon.ru/search/?text=mouse&sorting=price"
    ));
    assert!(!is_requested_page(
        "https://www.ozon.ru/search/?text=mouse&sorting=rating",
        "https://www.ozon.ru/search/?text=mouse"
    ));
    for actual in [
        "https://www.ozon.ru/search/?text=mouse&sorting=price&sorting=score",
        "https://www.ozon.ru/search/?text=mouse&sorting=score&sorting=price",
        "https://www.ozon.ru/search/?text=mouse&sorting=rating&sorting=popular",
        "https://www.ozon.ru/search/?text=mouse&sorting=popular&sorting=rating",
    ] {
        assert!(!is_requested_page(
            "https://www.ozon.ru/search/?text=mouse&sorting=price",
            actual
        ));
    }
    assert!(!is_requested_page(
        "https://www.ozon.ru/search/?text=mouse&sorting=price&sorting=score",
        "https://www.ozon.ru/search/?text=mouse&sorting=price"
    ));
}

#[test]
fn search_prediction_requires_marker_and_matching_semantics() {
    assert!(is_requested_page(
        "https://www.ozon.ru/search/?text=mouse&brand=logitech",
        "https://www.ozon.ru/category/mice-15871/?brand=logitech&text=mouse&category_was_predicted=true"
    ));
    assert!(!is_requested_page(
        "https://www.ozon.ru/search/?text=mouse&brand=logitech",
        "https://www.ozon.ru/category/mice-15871/?brand=logitech&text=mouse"
    ));
    assert!(!is_requested_page(
        "https://www.ozon.ru/search/?text=mouse&brand=logitech",
        "https://www.ozon.ru/category/mice-15871/?brand=other&text=mouse&category_was_predicted=true"
    ));
    assert!(is_requested_page(
        "https://www.ozon.ru/search/?text=mouse&brand=26303256",
        "https://www.ozon.ru/category/mice-15871/logitech-26303256/?text=mouse&category_was_predicted=true"
    ));
    assert!(!is_requested_page(
        "https://www.ozon.ru/search/?text=mouse&brand=26303256&brand=other",
        "https://www.ozon.ru/category/mice-15871/logitech-26303256/?text=mouse&category_was_predicted=true"
    ));
    assert!(!is_requested_page(
        "https://www.ozon.ru/search/?text=mouse&brand=26303256",
        "https://www.ozon.ru/category/mice-15871/other-42/?text=mouse&category_was_predicted=true"
    ));
}

#[test]
fn search_brand_prediction_marker_is_final_only_navigation_metadata() {
    let requested = "https://www.ozon.ru/search/?text=GMKtec+M6+Ultra";
    let observed = "https://www.ozon.ru/category/mini-pk-15705/gmktec-100888485/?brand_was_predicted=true&category_was_predicted=true&deny_category_prediction=true&from_global=true&text=GMKtec+M6+Ultra";
    assert!(is_requested_page(requested, observed));
    assert!(is_requested_page(
        "https://www.ozon.ru/search/?text=GMKtec+M6+32",
        "https://www.ozon.ru/search/?brand=100888485&brand_was_predicted=true&deny_category_prediction=true&from_global=true&text=GMKtec+M6+32"
    ));
    assert!(is_requested_page(
        "https://www.ozon.ru/search/?text=GMKtec+M6+32&brand=100888485&brand_was_predicted=true&page=2",
        "https://www.ozon.ru/search/?page=2&brand_was_predicted=true&brand=100888485&text=GMKtec+M6+32&__rr=1"
    ));

    for actual in [
        "https://www.ozon.ru/category/mini-pk-15705/gmktec-100888485/?brand_was_predicted=false&category_was_predicted=true&text=GMKtec+M6+Ultra",
        "https://www.ozon.ru/category/mini-pk-15705/gmktec-100888485/?brand_was_predicted=true&brand_was_predicted=true&category_was_predicted=true&text=GMKtec+M6+Ultra",
        "https://www.ozon.ru/category/mini-pk-15705/gmktec-100888485/?brand_was_predicted=true&category_was_predicted=true&text=GMKtec+M6",
        "https://www.ozon.ru/category/mini-pk-15705/gmktec-100888485/?brand_was_predicted=true&category_was_predicted=true&text=GMKtec+M6+Ultra&color=black",
        "https://www.ozon.ru/category/mini-pk-15705/gmktec-100888485/?brand_was_predicted=true&category_was_predicted=true&text=GMKtec+M6+Ultra&sorting=price",
        "https://evil.example/category/mini-pk-15705/gmktec-100888485/?brand_was_predicted=true&category_was_predicted=true&text=GMKtec+M6+Ultra",
        "https://www.ozon.ru/search/?brand=100888485&text=GMKtec+M6+Ultra",
        "https://www.ozon.ru/search/?brand=not-numeric&brand_was_predicted=true&text=GMKtec+M6+Ultra",
        "https://www.ozon.ru/search/?brand=100888485&brand=42&brand_was_predicted=true&text=GMKtec+M6+Ultra",
    ] {
        assert!(!is_requested_page(requested, actual), "accepted {actual}");
    }

    assert!(!is_requested_page(
        "https://www.ozon.ru/search/?text=GMKtec+M6+Ultra&brand=42",
        "https://www.ozon.ru/category/mini-pk-15705/gmktec-100888485/?brand_was_predicted=true&category_was_predicted=true&text=GMKtec+M6+Ultra"
    ));
    assert!(!is_requested_page(
        "https://www.ozon.ru/search/?text=GMKtec+M6+Ultra&brand=42",
        "https://www.ozon.ru/search/?text=GMKtec+M6+Ultra&brand=43&brand_was_predicted=true"
    ));
    assert!(is_requested_page(
        "https://www.ozon.ru/search/?text=GMKtec+M6+Ultra&brand=42",
        "https://www.ozon.ru/search/?text=GMKtec+M6+Ultra&brand=42&brand_was_predicted=true"
    ));
    assert!(!is_requested_page(
        "https://www.ozon.ru/category/mini-pk-15705/?text=GMKtec+M6+32",
        "https://www.ozon.ru/category/mini-pk-15705/?text=GMKtec+M6+32&brand=100888485&brand_was_predicted=true"
    ));
    for requested in [
        "https://www.ozon.ru/search/?text=GMKtec+M6+32&brand=100888485&brand_was_predicted=false",
        "https://www.ozon.ru/search/?text=GMKtec+M6+32&brand=100888485&brand_was_predicted=true&brand_was_predicted=true",
    ] {
        assert!(!is_requested_page(
            requested,
            "https://www.ozon.ru/search/?text=GMKtec+M6+32&brand=100888485&brand_was_predicted=true"
        ));
    }
}

#[test]
fn category_redirect_requires_exact_path_and_semantics() {
    assert!(is_requested_page(
        "https://www.ozon.ru/category/mice-15871/?brand=logitech&page=2",
        "https://www.ozon.ru/category/mice-15871/?page=2&brand=logitech&__rr=1"
    ));
    assert!(!is_requested_page(
        "https://www.ozon.ru/category/mice-15871/?brand=logitech&page=2",
        "https://www.ozon.ru/category/keyboards-15872/?brand=logitech&page=2"
    ));
    assert!(!is_requested_page(
        "https://www.ozon.ru/category/mice-15871/?brand=logitech&page=2",
        "https://www.ozon.ru/category/mice-15871/?brand=logitech&page=3"
    ));
    assert!(!is_requested_page(
        "https://www.ozon.ru/category/mice-15871/?brand=logitech&page=2",
        "https://www.ozon.ru/search/?brand=logitech&page=2"
    ));
    assert!(is_requested_page(
        "https://www.ozon.ru/category/mice-15871/?brand=26303256&page=2",
        "https://www.ozon.ru/category/mice-15871/logitech-26303256/?page=2"
    ));
    assert!(is_requested_page(
        "https://www.ozon.ru/category/mice-15871/?brand=26303256&sorting=score",
        "https://www.ozon.ru/category/mice-15871/logitech-26303256/"
    ));
    assert!(!is_requested_page(
        "https://www.ozon.ru/category/mice-15871/?brand=26303256&sorting=price",
        "https://www.ozon.ru/category/mice-15871/logitech-26303256/"
    ));
    assert!(!is_requested_page(
        "https://www.ozon.ru/category/mice-15871/?brand=26303256&sorting=rating",
        "https://www.ozon.ru/category/mice-15871/logitech-26303256/"
    ));
    assert!(!is_requested_page(
        "https://www.ozon.ru/category/mice-15871/?brand=26303256&page=2",
        "https://www.ozon.ru/category/keyboards-15872/logitech-26303256/?page=2"
    ));
}

#[test]
fn paths_that_are_no_address_are_refused_by_what_is_wrong() {
    assert_eq!(resolve_target("/search/?text=x").unwrap(), "https://www.ozon.ru/search/?text=x");
    assert_eq!(resolve_target("https://[/").unwrap_err().message(), "invalid IPv6 address");
    assert!(matches!(
        resolve_target("https://example.test/").unwrap_err(),
        Failure::Browser(BrowserError::InvalidOrigin)
    ));
}
