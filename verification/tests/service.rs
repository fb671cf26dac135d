use ozon_research::context_binding::{bind_context, bind_context_as, cached_context, confirm_context};
use ozon_research::contracts::{Contract, ToolReply};
use ozon_research::evidence::error_code;
use ozon_research::failure::Failure;
use ozon_research::gateway::CapabilityObservations;
use ozon_research::journal::{context_answer, journal_answer_at, journal_start, JournalCall};
use ozon_research::json::Json;
use ozon_research::ledger::{Ledger, StoredRef};
use ozon_research::marketplace::normalize_context;
use ozon_research::product_batch::{
    confirmation_reserve, finish_products_at, needs_confirmation, note_product, product_lookup,
    product_sections, products_answer_at, unconfirmed, validate_product_url, Batch, FetchedProduct,
    Unconfirmed,
};
use ozon_research::refinements::continue_page;
use ozon_research::review_call::{
    finish_reviews_at, open_reviews, review_limit, review_source, review_start,
};
use ozon_research::search_call::{
    envelope_at, finish_search_at, query_args, search_start, search_summary, stored_args,
    SearchStart,
};
use ozon_research::seen_chain::{LoadedReviewSeen, SeenLoader};
use ozon_research::service::{
    gate, interrupted, is_cancellation, presentation_args, presentation_binding,
    presentation_lookup, price_range_inverted, refuse_call, reply, reply_unbound, Interruption,
};

const NOW: &str = "2026-01-02T03:04:05.000Z";

fn json(text: &str) -> Json {
    Json::parse(text).unwrap()
}

/// The value at a path of keys and indices.
fn at<'a>(value: &'a Json, path: &str) -> &'a Json {
    path.split('/').fold(value, |v, part| match part.parse::<usize>() {
        Ok(i) => &v.as_array().unwrap()[i],
        Err(_) => v.field(part),
    })
}

fn contracts() -> Vec<Contract> {
    ["ozon_search", "ozon_get_products", "ozon_get_reviews", "ozon_list_research"]
        .iter()
        .map(|name| Contract {
            name: name.to_string(),
            input: json(r#"{"type":"object"}"#),
            output: json(r#"{"type":"object"}"#),
        })
        .collect()
}

fn fake_context(signature: &str) -> Json {
    json(&format!(
        r#"{{"sourceUrl":"https://www.ozon.ru/","regionLabel":"Москва","regionVerification":"verified","accountState":"anonymous","accessState":"available","signature":"{signature}","capabilities":{{}}}}"#
    ))
}

fn product_fixture(sku: &str) -> Json {
    json(&format!(
        r#"{{"sku":"{sku}","name":"Product {sku}","url":"https://www.ozon.ru/product/item-{sku}/","cardPrice":null,"priceRegular":100.0,"available":true,"rating":null,"reviews":null,"seller":null,"images":[],"characteristics":{{}},"description":{{"text":"","images":[]}},"variants":{{"status":"available","items":[],"hasNext":false,"nextPath":null}},"offers":{{"status":"unsupported","items":[],"hasNext":null,"nextPath":null}},"warnings":[]}}"#
    ))
}

fn failure_code(reply: &ToolReply) -> String {
    let value = json(reply.text.as_deref().unwrap());
    at(&value, "error/code").as_str().unwrap().to_owned()
}

/// A context, and what was stored in it.
struct World {
    ledger: Ledger,
    context: Json,
}

impl World {
    fn new() -> World {
        let bound = bind_context_as(&fake_context("same"), None, "0");
        let id = bound.context.field("contextId").copy();
        World { ledger: Ledger::new(id), context: bound.context }
    }

    fn context_id(&self) -> String {
        self.context.field("contextId").as_str().unwrap().to_owned()
    }

    fn stored(&self, id: &str, kind: &str) -> Result<StoredRef, Failure> {
        match self.ledger.writes.iter().find(|w| w.id == id && w.kind == kind) {
            Some(w) => Ok(StoredRef {
                research_id: w.research_id.clone(),
                context_id: self.context_id(),
                value: w.value.copy(),
            }),
            None => Err(Failure::new("INVALID_REFERENCE: reference is unknown")),
        }
    }

    fn search(&mut self, args: &str, raw: &str) -> Result<Json, Failure> {
        let args = self.presented("ozon_search", args)?;
        let (context, id) = (self.context.copy(), self.context_id());
        let n = finish_search_at(json(raw), &args, &mut self.ledger, "r", &context, &id, NOW)?;
        let value = envelope_at(n, "r", &context, NOW);
        let shown = reply(&contracts(), "ozon_search", &args, Ok((value, vec![])));
        Ok(shown.structured.unwrap())
    }

    fn presented(&self, name: &str, args: &str) -> Result<Json, Failure> {
        let args = json(args);
        let stored = match presentation_lookup(name, &args) {
            Some((id, kind)) => Some(self.stored(id, kind)?.value),
            None => None,
        };
        presentation_args(name, args, stored.as_ref())
    }

    /// Answers a call for products, with what the source brings of each that is not stored.
    fn products(
        &mut self,
        args: &str,
        mut source: Vec<Result<Json, Failure>>,
        refused: Option<Unconfirmed>,
    ) -> Json {
        let args = self.presented("ozon_get_products", args).unwrap();
        let (context, id) = (self.context.copy(), self.context_id());
        let selectors: Vec<Json> =
            args.field("products").as_array().unwrap().iter().map(Json::copy).collect();
        let mut batch = Batch::new(&args);
        for selector in &selectors {
            let found = product_lookup(selector).map(|(id, kind)| self.stored(id, kind));
            batch.add_product(selector, found, &id);
        }
        batch.bind_views();
        let view = batch.view.clone();
        let research = batch.research_id.clone().unwrap_or("r".to_owned());
        let mut fetched: Vec<Result<FetchedProduct, Failure>> = vec![];
        for resolved in batch.resolved {
            fetched.push(match resolved {
                Err(e) => Err(e),
                Ok(product) => {
                    let sections = match product.sections {
                        Some(sections) => sections,
                        None => product_sections(&args, &view),
                    };
                    match product.cached_raw {
                        Some(raw) => Ok(note_product(raw, false, sections, &view, NOW)),
                        None => {
                            source.remove(0).map(|raw| note_product(raw, true, sections, &view, NOW))
                        }
                    }
                }
            });
        }
        let refused = if needs_confirmation(&fetched) { refused } else { None };
        let n = finish_products_at(
            &selectors,
            &fetched,
            &refused,
            &mut self.ledger,
            &research,
            &id,
            NOW,
        );
        let value = products_answer_at(n, &research, &context, &view, NOW);
        reply(&contracts(), "ozon_get_products", &args, Ok((value, vec![]))).structured.unwrap()
    }

    fn seen(&self, seen_ref: Option<&str>, research: &str) -> Result<LoadedReviewSeen, Failure> {
        let mut loader = SeenLoader::start(seen_ref);
        loop {
            let next = match loader.next(false, false)? {
                Some(id) => id.to_owned(),
                None => return loader.finish(),
            };
            let node = self.stored(&next, "review_seen");
            loader = loader.feed(node, research, &self.context_id())?;
        }
    }

    fn reviews(&mut self, args: &str, source: &mut Vec<Json>) -> Result<Json, Failure> {
        let args = self.presented("ozon_get_reviews", args)?;
        let (context, id) = (self.context.copy(), self.context_id());
        let (start, reference) = review_start(&args)?;
        let stored = self.stored(reference, start.stored_kind())?;
        let progress = open_reviews(start, &stored, &args, &id)?;
        let seen = self.seen(progress.seen_ref.as_deref(), &stored.research_id)?;
        let from = review_source(start, reference, stored)?;
        let raw = match &from.cached_raw {
            Some(raw) => raw.copy(),
            None => source.remove(0),
        };
        let n =
            finish_reviews_at(raw, &args, &mut self.ledger, &from, &progress, &seen, &id, NOW)?;
        let value = envelope_at(n, &from.research_id, &context, NOW);
        Ok(reply(&contracts(), "ozon_get_reviews", &args, Ok((value, vec![]))).structured.unwrap())
    }
}

#[test]
fn rejects_non_product_routes() {
    assert!(validate_product_url("https://www.ozon.ru/search/?text=x").is_err());
    assert!(validate_product_url("https://www.ozon.ru/product/name-123/").is_ok());
}

#[test]
fn range_order_is_semantic() {
    assert!(price_range_inverted(&json(
        r#"{"start":{"query":"x","priceRange":{"minMinor":2,"maxMinor":1}}}"#
    )));
    assert!(!price_range_inverted(&json(
        r#"{"start":{"query":"x","priceRange":{"minMinor":1,"maxMinor":1}}}"#
    )));
}

#[test]
fn calls_are_refused_before_any_work() {
    let refused = |name: &str, args: &str, free: bool| {
        refuse_call(&contracts(), name, &json(args), free).map(|reply| failure_code(&reply))
    };
    assert_eq!(refused("ozon_list_research", "{}", true), None);
    assert_eq!(refused("ozon_list_research", "{}", false).as_deref(), Some("SERVER_BUSY"));
    assert_eq!(refused("ozon_order", "{}", true).as_deref(), Some("INVALID_ARGUMENT"));
    assert_eq!(refused("ozon_search", "[]", true).as_deref(), Some("INVALID_ARGUMENT"));
    assert_eq!(
        refused(
            "ozon_search",
            r#"{"start":{"query":"x","priceRange":{"minMinor":2,"maxMinor":1}}}"#,
            true
        )
        .as_deref(),
        Some("INVALID_ARGUMENT")
    );
    assert_eq!(failure_code(&interrupted(Interruption::Cancelled, None)), "CANCELLED");
    assert_eq!(failure_code(&reply_unbound(&Failure::new("INVALID_ARGUMENT: x"))), "INVALID_ARGUMENT");
    assert_eq!(error_code(&gate(true, false, false).unwrap_err()), "CANCELLED");
    assert_eq!(error_code(&gate(false, true, false).unwrap_err()), "UPSTREAM_TIMEOUT");
    assert!(gate(false, false, true).is_ok());
    assert!(is_cancellation(&Failure::new("CANCELLED: x")));
    assert!(!is_cancellation(&Failure::new("NOT_FOUND: x")));
}

#[test]
fn journal_answers_warn_of_their_age() {
    let start = |name: &str, args: &str| journal_start(name, &json(args));
    assert!(matches!(start("ozon_list_research", "{}"), Ok((JournalCall::List, None))));
    assert!(matches!(
        start("ozon_get_research", r#"{"researchId":"r"}"#),
        Ok((JournalCall::Read, Some(id))) if id == "r"
    ));
    assert!(start("ozon_append_research_note", "{}").is_err());
    assert!(start("ozon_search", "{}").is_err());
    let answer = |call, id| journal_answer_at(call, id, Json::object(), &cached_context(None), NOW);
    assert_eq!(
        at(&answer(JournalCall::List, None), "warnings/0/code").as_str(),
        Some("HISTORICAL_CONTEXT")
    );
    assert_eq!(answer(JournalCall::AppendNote, Some("r")).field("warnings").to_text(), "[]");
}

#[test]
fn contexts_keep_their_identifier_while_nothing_changes() {
    let first = bind_context(&fake_context("a"), None);
    let again = bind_context(&fake_context("a"), Some(&first.remembered));
    assert!(again.context.field("contextId").equals(first.context.field("contextId")));
    let changed = bind_context(&fake_context("b"), Some(&first.remembered));
    assert!(!changed.context.field("contextId").equals(first.context.field("contextId")));
    let id = first.context.field("contextId").as_str().unwrap();
    assert!(confirm_context(&again.context, id).is_ok());
    assert_eq!(
        error_code(&confirm_context(&changed.context, id).unwrap_err()),
        "CONTEXT_CHANGED"
    );
}

const FACETED: &str = r#"{"searchUrl":"https://www.ozon.ru/search/?text=x","items":[{"sku":"1","name":"Server","price":1.0,"url":"https://www.ozon.ru/product/item-1/"}],"hasNext":true,"nextCursor":"source-cursor","facets":{"items":[{"title":"Type","options":[{"label":"A","searchUrl":"https://www.ozon.ru/category/a-1/"},{"label":"B","searchUrl":"https://www.ozon.ru/category/b-2/"}]}]}}"#;

#[test]
fn search_cursors_bind_view_and_local_refinements_need_no_gateway() {
    let mut world = World::new();
    let first = world
        .search(
            r#"{"start":{"query":"x"},"view":"comparison","includeFacets":true,"refinementLimit":1}"#,
            FACETED,
        )
        .unwrap();
    let cursor = at(&first, "data/nextCursor").as_str().unwrap();
    let invalid = world
        .presented("ozon_search", &format!(r#"{{"start":{{"cursor":"{cursor}"}},"view":"full"}}"#))
        .unwrap_err();
    assert_eq!(error_code(&invalid), "INVALID_ARGUMENT");
    let kept = world
        .presented("ozon_search", &format!(r#"{{"start":{{"cursor":"{cursor}"}}}}"#))
        .unwrap();
    assert_eq!(kept.field("view").as_str(), Some("comparison"));

    let metadata_cursor = at(&first, "data/refinementsNextCursor").as_str().unwrap();
    let args = world
        .presented(
            "ozon_search",
            &format!(r#"{{"start":{{"refinementsCursor":"{metadata_cursor}"}}}}"#),
        )
        .unwrap();
    let stored = world.stored(metadata_cursor, "search_refinements").unwrap();
    let context_id = world.context_id();
    let value = continue_page(
        &mut world.ledger,
        &stored,
        None,
        &context_id,
        args.field("view").as_str(),
        args.field("repeatMode").as_str(),
        args.field("refinementLimit").as_u64().map(|n| n as usize),
    )
    .unwrap();
    let more = reply(&contracts(), "ozon_search", &args, Ok((value, vec![]))).structured.unwrap();
    assert_eq!(more.field("view").as_str(), Some("comparison"));
    assert!(more.field("observedAt").equals(first.field("observedAt")));
    assert_eq!(at(&more, "data/items").to_text(), "[]");
    assert_eq!(at(&more, "data/refinements").as_array().unwrap().len(), 1);
}

#[test]
fn searches_start_from_what_they_name() {
    let args = json(r#"{"start":{"query":"x","sort":"price"}}"#);
    let start = search_start(&args).unwrap();
    assert!(matches!(start, SearchStart::Query("x")));
    assert_eq!(search_summary(&start), "Search: x");
    assert_eq!(query_args(&args, "x").query.as_deref(), Some("x"));
    let args = json(r#"{"start":{"cursor":"c"}}"#);
    let start = search_start(&args).unwrap();
    let stored = StoredRef {
        research_id: "r".to_owned(),
        context_id: "ctx".to_owned(),
        value: json(r#"{"cursor":"source"}"#),
    };
    let made = stored_args(&args, &start, &stored, "ctx").unwrap();
    assert_eq!(made.next_cursor.as_deref(), Some("source"));
    assert!(stored_args(&args, &start, &stored, "other").is_err());
    assert!(search_start(&json(r#"{"start":{}}"#)).is_err());
}

#[test]
fn failed_refinement_admission_makes_no_answer() {
    let mut world = World::new();
    let huge = format!(
        r#"{{"searchUrl":"https://www.ozon.ru/search/?text=x","items":[{{"sku":"1","name":"Server","price":2.0,"url":"https://www.ozon.ru/product/item-1/"}}],"hasNext":false,"facets":{{"items":[{{"title":"Huge","options":[{{"label":"{}","searchUrl":"https://www.ozon.ru/category/x-1/"}}]}}]}}}}"#,
        "x".repeat(9000)
    );
    let failed = world
        .search(r#"{"start":{"query":"x"},"includeFacets":true}"#, &huge)
        .unwrap_err();
    assert_eq!(error_code(&failed), "RESULT_TOO_LARGE");
}

#[test]
fn search_region_warning_matches_authoritative_response_context() {
    let cases = [
        (
            r#"{"sourceUrl":"https://www.ozon.ru/","regionLabel":"Москва","regionVerification":"verified","accountState":"anonymous","accessState":"available","signature":"verified","capabilities":{}}"#,
            "false",
            false,
        ),
        (
            r#"{"sourceUrl":"https://www.ozon.ru/","regionLabel":"Москва","regionVerification":"unverified","accountState":"anonymous","accessState":"available","signature":"unverified","capabilities":{}}"#,
            "true",
            true,
        ),
        (
            r#"{"sourceUrl":"https://www.ozon.ru/","regionLabel":"Москва","accountState":"anonymous","accessState":"available","signature":"label-only","capabilities":{}}"#,
            "true",
            true,
        ),
    ];
    for (context, verified, expect_warning) in cases {
        let bound = bind_context(&json(context), None);
        let mut world = World {
            ledger: Ledger::new(bound.context.field("contextId").copy()),
            context: bound.context,
        };
        let value = world
            .search(
                r#"{"start":{"query":"x"},"includeFacets":false}"#,
                &format!(
                    r#"{{"searchUrl":"https://www.ozon.ru/search/?text=x","items":[],"hasNext":false,"context":{{"regionVerified":{verified}}}}}"#
                ),
            )
            .unwrap();
        let has_warning = value
            .field("warnings")
            .as_array()
            .unwrap()
            .iter()
            .any(|warning| warning.field("code").as_str() == Some("REGION_UNVERIFIED"));
        assert_eq!(has_warning, expect_warning, "context={context}");
    }
}

#[test]
fn successful_image_observation_updates_context_capability() {
    let page = |signature: &str| {
        json(&format!(
            r#"{{"widgetStates":{{}},"contextObservation":{{"regionLabel":"Москва","regionVerified":true,"accountState":"anonymous","accessState":"available","signature":"{signature}"}}}}"#
        ))
    };
    let status = |raw: &Json| {
        let shown = normalize_context(raw);
        let found = shown
            .data
            .field("capabilities")
            .as_array()
            .unwrap()
            .iter()
            .find(|c| c.field("name").as_str() == Some("image_content"))
            .unwrap()
            .field("status")
            .as_str()
            .unwrap()
            .to_owned();
        found
    };
    let mut observed = CapabilityObservations::default();
    observed.observe_context(&page("same"));
    observed.mark_image_content_available();
    assert_eq!(status(&observed.observe_context(&page("same"))), "available");
    assert_eq!(status(&observed.observe_context(&page("changed"))), "unverified");
}

#[test]
fn context_answers_name_their_context() {
    let bound = bind_context_as(&fake_context("same"), None, "7");
    let answer = context_answer(fake_context("same"), &bound.context);
    assert_eq!(at(&answer, "data/contextId").as_str(), Some("context_7"));
    assert_eq!(at(&answer, "context/contextId").as_str(), Some("context_7"));
    assert!(answer.field("researchId").is_null());
    assert!(answer.field("observedAt").equals(at(&answer, "data/observedAt")));
}

#[test]
fn invalid_product_cursors_cannot_change_valid_sibling_view() {
    let mut world = World::new();
    let mut cursors = vec![];
    for view in ["full", "comparison"] {
        let value = Json::object()
            .with("cachedRaw", product_fixture("2"))
            .with("presentation", json(&format!(r#"{{"view":"{view}"}}"#)));
        cursors.push(world.ledger.put_ref("foreign", "product_cursor", value, Some(1800)));
    }
    let value = world.products(
        &format!(
            r#"{{"researchId":"r","products":[{{"cursor":"{}"}},{{"cursor":"{}"}},{{"sku":"1"}}]}}"#,
            cursors[0], cursors[1]
        ),
        vec![Ok(product_fixture("1"))],
        None,
    );
    assert_eq!(value.field("view").as_str(), Some("compact"));
    assert_eq!(at(&value, "data/results/0/error/code").as_str(), Some("INVALID_REFERENCE"));
    assert_eq!(at(&value, "data/results/1/error/code").as_str(), Some("INVALID_REFERENCE"));
    assert_eq!(at(&value, "data/results/2/status").as_str(), Some("ok"));
    assert!(at(&value, "data/results/2/product").get("url").is_none());
}

#[test]
fn batch_fails_live_items_when_cleanup_exhausts_confirmation_budget() {
    let mut world = World::new();
    let value = world.products(
        r#"{"products":[{"sku":"1"},{"sku":"2"}]}"#,
        vec![
            Ok(product_fixture("1")),
            Err(gate(false, true, true).unwrap_err()),
        ],
        Some(unconfirmed(None)),
    );
    assert_eq!(at(&value, "data/results/0/error/code").as_str(), Some("UPSTREAM_TIMEOUT"));
    assert_eq!(at(&value, "data/results/1/error/code").as_str(), Some("UPSTREAM_TIMEOUT"));
}

#[test]
fn product_batch_shows_every_product_that_was_confirmed() {
    let mut world = World::new();
    let selectors: Vec<String> = (1..=8).map(|sku| format!(r#"{{"sku":"{sku}"}}"#)).collect();
    let value = world.products(
        &format!(r#"{{"products":[{}]}}"#, selectors.join(",")),
        (1..=8).map(|sku| Ok(product_fixture(&sku.to_string()))).collect(),
        None,
    );
    let shown = at(&value, "data/results").as_array().unwrap();
    assert_eq!(shown.iter().filter(|r| r.field("status").as_str() == Some("ok")).count(), 8);
    assert!(confirmation_reserve(10) <= 5);
}

#[test]
fn product_batch_context_mismatch_fails_live_items_but_keeps_cached_items() {
    let mut world = World::new();
    let value = json(r#"{"path":"/product/item-1/","include":["characteristics"]}"#)
        .with("cachedRaw", product_fixture("1"));
    let cursor = world.ledger.put_ref("r", "product_cursor", value, Some(1800));
    let other = bind_context_as(&fake_context("after"), None, "1");
    let refused = confirm_context(&other.context, &world.context_id()).unwrap_err();
    let value = world.products(
        &format!(r#"{{"researchId":"r","products":[{{"cursor":"{cursor}"}},{{"sku":"2"}}]}}"#),
        vec![Ok(product_fixture("2"))],
        Some(unconfirmed(Some(&refused))),
    );
    assert_eq!(at(&value, "data/results/0/status").as_str(), Some("ok"));
    assert_eq!(at(&value, "data/results/1/error/code").as_str(), Some("CONTEXT_CHANGED"));
}

#[test]
fn product_batch_reports_invalid_reference_per_item_and_keeps_valid_sku() {
    let mut world = World::new();
    let value = world.products(
        r#"{"products":[{"productRef":"ref_missing"},{"sku":"2"}]}"#,
        vec![Ok(product_fixture("2"))],
        None,
    );
    assert_eq!(at(&value, "data/results/0/error/code").as_str(), Some("INVALID_REFERENCE"));
    assert_eq!(at(&value, "data/results/1/status").as_str(), Some("ok"));
}

#[test]
fn legacy_review_cursor_requires_restart_instead_of_resetting_coverage() {
    let mut world = World::new();
    let cursor = world.ledger.put_ref(
        "r",
        "review_cursor",
        json(
            r#"{"path":"/product/item-123/reviews/?page=2","productRef":"ref_product","sku":"123","sourceUrl":"https://www.ozon.ru/product/item-123/reviews/"}"#,
        ),
        Some(1800),
    );
    let error = world
        .reviews(
            &format!(r#"{{"start":{{"cursor":"{cursor}"}},"researchId":"r","limit":10}}"#),
            &mut vec![],
        )
        .unwrap_err();
    assert_eq!(error_code(&error), "INVALID_REFERENCE");
    assert_eq!(review_limit(&Json::object()), 10);
}

#[test]
fn review_handler_drains_cached_source_page_before_upstream_continuation() {
    let mut world = World::new();
    let product_ref = world.ledger.put_ref(
        "r",
        "product",
        json(r#"{"sku":"123","url":"https://www.ozon.ru/product/item-123/"}"#),
        None,
    );
    let rows: Vec<String> = (0..30)
        .map(|index| {
            let id = match index {
                1 => "null".to_owned(),
                3 => r#""r0""#.to_owned(),
                _ => format!(r#""r{index}""#),
            };
            format!(
                r#"{{"reviewId":{id},"score":5.0,"comment":"review-{index}","pros":null,"cons":null,"date":null,"purchased":null,"variantLabel":null,"photos":[]}}"#
            )
        })
        .collect();
    let mut source = vec![
        json(&format!(
            r#"{{"rating":5.0,"totalReviews":31,"reviews":[{}],"nextPath":"/product/item-123/reviews/?page=2","hasNext":true,"refinements":[],"aggregationScope":"specific_sku","warnings":[]}}"#,
            rows.join(",")
        )),
        json(
            r#"{"rating":5.0,"totalReviews":31,"reviews":[
                {"reviewId":"r29","score":5.0,"comment":"upstream-duplicate","photos":[]},
                {"reviewId":"r30","score":5.0,"comment":"upstream-new","photos":[]}
            ],"nextPath":null,"hasNext":false,"refinements":[],"aggregationScope":"specific_sku","warnings":[]}"#,
        ),
    ];
    let texts = |value: &Json| -> Vec<String> {
        let shown = at(value, "data/reviews").as_array().unwrap();
        shown.iter().map(|r| r.field("text").as_str().unwrap().to_owned()).collect()
    };
    let mut start = format!(r#"{{"productRef":"{product_ref}"}}"#);
    let mut emitted: Vec<String> = vec![];
    let mut unique_seen: Vec<u64> = vec![];
    let mut observed_at: Option<String> = None;
    let mut first_cursor: Option<String> = None;
    for limit in [3, 5, 30, 30] {
        let value = world
            .reviews(
                &format!(r#"{{"start":{start},"researchId":"r","limit":{limit}}}"#),
                &mut source,
            )
            .unwrap();
        let observed = value.field("observedAt").as_str().unwrap().to_owned();
        if unique_seen.len() < 3 {
            assert_eq!(observed_at.get_or_insert(observed.clone()), &observed);
        }
        emitted.extend(texts(&value));
        unique_seen.push(at(&value, "data/coverage/uniqueSeen").as_u64().unwrap());
        match at(&value, "data/nextCursor").as_str() {
            Some(cursor) => {
                if first_cursor.is_none() {
                    first_cursor = Some(cursor.to_owned());
                    let mismatch = world
                        .presented(
                            "ozon_get_reviews",
                            &format!(r#"{{"start":{{"cursor":"{cursor}"}},"includeFacets":true}}"#),
                        )
                        .unwrap_err();
                    assert_eq!(error_code(&mismatch), "INVALID_ARGUMENT");
                    let inherited = world
                        .presented(
                            "ozon_get_reviews",
                            &format!(r#"{{"start":{{"cursor":"{cursor}"}}}}"#),
                        )
                        .unwrap();
                    assert_eq!(inherited.field("includeFacets").as_bool(), Some(false));
                }
                start = format!(r#"{{"cursor":"{cursor}"}}"#);
            }
            None => break,
        }
    }
    let mut expected: Vec<String> =
        (0..30).filter(|index| *index != 3).map(|index| format!("review-{index}")).collect();
    expected.push("upstream-new".to_owned());
    assert_eq!(emitted, expected);
    assert_eq!(unique_seen, [3, 8, 29, 30]);

    let replay = world
        .reviews(
            &format!(
                r#"{{"start":{{"cursor":"{}"}},"researchId":"r","limit":5}}"#,
                first_cursor.unwrap()
            ),
            &mut source,
        )
        .unwrap();
    assert_eq!(at(&replay, "data/coverage/uniqueSeen").as_u64(), Some(8));
    assert_eq!(texts(&replay), ["review-4", "review-5", "review-6", "review-7", "review-8"]);
}

#[test]
fn review_seen_checkpoint_bounds_loader_and_honors_cancellation() {
    let mut world = World::new();
    let keys: Vec<String> = (0..100).map(|index| format!(r#""id:{index:064x}""#)).collect();
    let mut head = world.ledger.put_ref(
        "r",
        "review_seen",
        json(&format!(
            r#"{{"kind":"checkpoint","keys":[{}],"count":100,"depth":0}}"#,
            keys.join(",")
        )),
        None,
    );
    for offset in 0..255usize {
        let key = format!("id:{:064x}", offset + 100);
        let node = json(&format!(
            r#"{{"kind":"delta","parent":"{head}","keys":["{key}"],"count":{},"depth":{}}}"#,
            101 + offset,
            offset + 1
        ));
        head = world.ledger.put_ref("r", "review_seen", node, None);
    }
    let loaded = world.seen(Some(&head), "r").unwrap();
    assert_eq!(loaded.keys.len(), 355);
    assert_eq!(loaded.depth, 255);
    assert_eq!(loaded.nodes_read, 256);

    let loader = SeenLoader::start(Some(&head));
    assert_eq!(error_code(&loader.next(true, false).unwrap_err()), "CANCELLED");
    assert_eq!(error_code(&loader.next(false, true).unwrap_err()), "UPSTREAM_TIMEOUT");
    assert!(world.seen(Some(&head), "another").is_err());
}

#[test]
fn presentations_are_stored_with_what_continues() {
    let args = json(r#"{"view":"compact","repeatMode":"delta","includeFacets":true}"#);
    assert_eq!(
        presentation_binding(&args).to_text(),
        r#"{"includeFacets":true,"repeatMode":"delta","view":"compact"}"#
    );
}
