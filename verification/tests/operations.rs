use ozon_research::executor::{ended, must_take_down, Ending, RequestExecutor};
use ozon_research::failure::Failure;
use ozon_research::browser_error::BrowserError;
use ozon_research::json::Json;
use ozon_research::model::{ProductDetails, ReviewPage, Warning};
use ozon_research::operations::{
    product_path, reviews_limit, DetailsArgs, Fetched, Operation, OperationResult, ReviewsArgs,
    Step,
};
use ozon_research::search::SearchArgs;

fn json(text: &str) -> Json {
    Json::parse(text).unwrap()
}

fn details(product: &str) -> Operation {
    Operation::Details(DetailsArgs { product: product.to_owned() })
}

fn reviews(limit: usize) -> Operation {
    Operation::Reviews(ReviewsArgs { product: "1".to_owned(), limit })
}

/// Runs an operation on scripted pages, and lists the paths that were asked for.
fn run(operation: Operation, pages: Vec<Fetched>) -> (Result<OperationResult, Failure>, Vec<String>) {
    let mut paths = Vec::new();
    let mut pages = pages.into_iter();
    let mut step = operation.prepare().unwrap().start(false);
    loop {
        match step {
            Step::Fetch(scenario) => {
                paths.push(scenario.path());
                step = scenario.advance(pages.next().unwrap(), false);
            }
            Step::Done(result) => return (Ok(result), paths),
            Step::Failed(error) => return (Err(error), paths),
        }
    }
}

fn as_details(result: OperationResult) -> ProductDetails {
    match result {
        OperationResult::Details(d) => d,
        _ => panic!(),
    }
}

fn as_reviews(result: OperationResult) -> ReviewPage {
    match result {
        OperationResult::Reviews(r) => r,
        _ => panic!(),
    }
}

#[test]
fn validates_before_page_source_execution() {
    assert!(reviews(0).prepare().is_err());
    assert!(Operation::Search(SearchArgs {
        query: None,
        search_url: None,
        next_cursor: None,
        include_facets: None,
        sort: None,
        price_min: None,
        price_max: None,
        limit: 12
    })
    .prepare()
    .is_err());
}

#[test]
fn details_scenario_fetches_secondary_and_parser_merges_description() {
    let (result, paths) = run(
        details("1"),
        vec![
            Fetched::Page(json(
                r#"{"widgetStates": {"webProductHeading-x": {"title": "Example"}, "webPrice-x": {"price": "10 ₽"}, "webDescription-x": {"richAnnotation": "<img src='base.jpg'>"}}}"#,
            )),
            Fetched::Page(json(
                r#"{"widgetStates": {"webDescription-x": {"richAnnotation": "Text<img src='extra.jpg'>"}}}"#,
            )),
        ],
    );
    let result = as_details(result.unwrap());
    assert_eq!(result.description.text, "Text");
    assert_eq!(result.description.images, ["base.jpg", "extra.jpg"]);
    assert_eq!(paths.len(), 2);
}

#[test]
fn base_description_completes_details_without_another_fetch() {
    let (result, paths) = run(
        details("901"),
        vec![Fetched::Page(json(
            r#"{"widgetStates": {"webProductHeading-x": {"title": "Example"}, "webPrice-x": {"price": "10 ₽"}, "webDescription-x": {"richAnnotation": "Useful text"}}}"#,
        ))],
    );
    let result = as_details(result.unwrap());
    assert_eq!(result.description.text, "Useful text");
    assert!(result.warnings.is_empty());
    assert_eq!(paths, ["/product/901/"]);
}

#[test]
fn cancellation_before_or_after_base_fetch_stops_the_details_scenario() {
    for cancel_before_fetch in [true, false] {
        let mut calls = 0;
        let result = match details("901").prepare().unwrap().start(cancel_before_fetch) {
            Step::Fetch(scenario) => {
                calls += 1;
                scenario.advance(Fetched::Page(json(r#"{"widgetStates": {}}"#)), true)
            }
            other => other,
        };
        assert!(matches!(result, Step::Failed(_)));
        assert_eq!(calls, usize::from(!cancel_before_fetch));
    }
}

#[test]
fn secondary_failure_returns_partial_details_with_warning() {
    let (result, _) = run(
        details("1"),
        vec![
            Fetched::Page(json(
                r#"{"widgetStates": {"webProductHeading-x": {"title": "Example"}, "webPrice-x": {"price": "10 ₽"}, "webDescription-x": {"richAnnotation": "<img src='base.jpg'>"}}}"#,
            )),
            Fetched::Failed(Failure::new("secondary failed")),
        ],
    );
    let result = as_details(result.unwrap());
    assert!(result.warnings.contains(&Warning::DescriptionFetchFailed));
    assert_eq!(result.description.images, ["base.jpg"]);
}

#[test]
fn usable_review_widget_after_wrong_shape_does_not_warn() {
    let (result, _) = run(
        reviews(10),
        vec![Fetched::Page(json(
            r#"{"widgetStates": {"webListReviews-a": {}, "webListReviews-b": {"reviews": []}}}"#,
        ))],
    );
    let result = as_reviews(result.unwrap());
    assert!(!result.warnings.contains(&Warning::ReviewsWidgetMissing));
    assert_eq!(result.count, 0);
}

#[test]
fn accepts_product_identifiers_and_rejects_unsafe_paths() {
    assert_eq!(
        product_path("https://www.ozon.ru/product/товар-123/reviews/?x=1").unwrap(),
        "/product/товар-123/"
    );
    assert_eq!(product_path("7").unwrap(), "/product/7/");
    for input in [
        "https://evil.example/product/123/",
        "https://user@ozon.ru/product/123/",
        "123%2F456",
        "../123",
        "123%ZZ",
    ] {
        assert!(product_path(input).is_err(), "accepted {input}");
    }
}

#[test]
fn percent_encoded_slugs_are_decoded() {
    assert_eq!(product_path("%D1%82-7").unwrap(), "/product/т-7/");
}

#[test]
fn invalid_requests_take_no_slot_and_full_queues_refuse() {
    let mut executor = RequestExecutor::new(2);
    assert!(executor.admit_operation(reviews(0)).is_err());
    assert_eq!(executor.free, 2);
    assert!(executor.admit_operation(reviews(1)).is_ok());
    assert!(executor.admit_operation(reviews(1)).is_ok());
    assert!(executor
        .admit_operation(reviews(1))
        .unwrap_err()
        .message()
        .starts_with("SERVER_BUSY:"));
    executor.release();
    assert!(executor.admit_operation(reviews(1)).is_ok());
    executor.release();
    executor.stop();
    assert_eq!(
        executor.admit_operation(reviews(1)).unwrap_err().message(),
        "Server shutting down"
    );
}

#[test]
fn doubtful_sessions_are_taken_down() {
    assert!(must_take_down(true, None));
    assert!(!must_take_down(false, None));
    assert!(must_take_down(false, Some(&Failure::Browser(BrowserError::CommandTimeout))));
    assert!(!must_take_down(false, Some(&Failure::Browser(BrowserError::HttpStatus(503)))));
    assert!(!must_take_down(false, Some(&Failure::new("ordinary parse error"))));
    assert!(ended(Ending::Deadline).message().starts_with("TOOL_TIMEOUT:"));
    assert_eq!(ended(Ending::Cancelled).message(), "Request cancelled");
    assert_eq!(ended(Ending::Stopped).message(), "Server shutting down");
    assert_eq!(ended(Ending::WorkerFailed).message(), "Tool worker failed");
}

#[test]
fn ten_reviews_are_shown_by_default() {
    assert_eq!(reviews_limit(), 10);
}

#[test]
fn product_paths_name_themselves() {
    for input in [
        "7",
        "https://www.ozon.ru/product/товар-123/reviews/?x=1",
        "%D1%82-7",
        "/product/a_B-9/questions/",
    ] {
        let path = product_path(input).unwrap();
        assert_eq!(product_path(&path).unwrap(), path);
        assert_eq!(ozon_research::gateway::product_path(&path).unwrap(), path);
    }
    let longest = format!("{}1", "a".repeat(1989));
    let path = product_path(&longest).unwrap();
    assert_eq!(path, format!("/product/{longest}/"));
    assert_eq!(product_path(&path).unwrap(), path);
    let longer = format!("{}1", "a".repeat(1990));
    assert!(product_path(&product_path(&longer).unwrap()).is_err());
    for slug in ["a", "a b1", "a.1", "a/b1", "1\u{301}", "a\u{2028}1"] {
        assert!(product_path(slug).is_err(), "accepted {slug}");
    }
}
