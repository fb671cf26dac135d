use ozon_research::evidence::envelope;
use ozon_research::json::Json;
use ozon_research::keys::KeySet;
use ozon_research::ledger::{Ledger, RefWrite};
use ozon_research::marketplace::{
    item_error, normalize_context, normalize_product, normalize_reviews, normalize_search, warning,
    Normalized, ReviewRequest,
};
use ozon_research::parse::parse_reviews;
use ozon_research::product_details::{pointer_escape, product_prices};
use ozon_research::review_pages::{review_identity, store_review_seen_state};
use std::collections::BTreeSet;

fn json(text: &str) -> Json {
    Json::parse(text).unwrap()
}

/// The value at a path of keys and indices.
fn at<'a>(value: &'a Json, path: &str) -> &'a Json {
    path.split('/').fold(value, |v, part| match part.parse::<usize>() {
        Ok(i) => &v.as_array().unwrap()[i],
        Err(_) => v.field(part),
    })
}

fn setup() -> Ledger {
    Ledger::new(Json::text("c"))
}

fn context() -> Json {
    json(
        r#"{"contextId":"c","regionLabel":null,"regionVerification":"unverified","accountState":"unknown","accessState":"available"}"#,
    )
}

fn write<'a>(ledger: &'a Ledger, id: &str, kind: &str) -> &'a RefWrite {
    ledger.writes.iter().find(|w| w.id == id && w.kind == kind).unwrap()
}

fn sections(names: &[&str]) -> Vec<String> {
    names.iter().map(|s| s.to_string()).collect()
}

fn read_seen_chain(ledger: &Ledger, seen_ref: Option<&str>) -> Vec<String> {
    let mut current = seen_ref.map(str::to_owned);
    let mut keys = BTreeSet::new();
    while let Some(reference) = current {
        let node = &write(ledger, &reference, "review_seen").value;
        for key in node.field("keys").as_array().unwrap() {
            keys.insert(key.as_str().unwrap().to_owned());
        }
        current = node.field("parent").as_str().map(str::to_owned);
    }
    keys.into_iter().collect()
}

fn request<'a>() -> ReviewRequest<'a> {
    ReviewRequest {
        research_id: "r",
        context_id: "c",
        product_ref: "ref_product",
        sku: "123",
        source_url: "https://www.ozon.ru/product/item-123/reviews/",
        limit: 10,
        prior_seen_review_keys: &[],
        prior_seen_ref: None,
        prior_seen_depth: 0,
        current_path: "",
        prior_no_progress_pages: 0,
        prior_page_made_progress: false,
    }
}

fn shown(n: &Normalized) -> usize {
    n.data.field("reviews").as_array().unwrap().len()
}

#[test]
fn missing_card_price_is_not_inferred() {
    assert!(product_prices(&json(r#"{"price":10.0,"cardPrice":null}"#), "e")
        .iter()
        .all(|v| v.field("type").as_str() != Some("ozon_card")));
}

#[test]
fn selected_address_city_has_separate_static_source_evidence() {
    let raw = |url: &str| {
        json(&format!(
            r#"{{"contextId":"c","regionLabel":"Москва","regionVerification":"verified","accountState":"authenticated","accessState":"available","regionSourceUrl":"{url}"}}"#
        ))
    };
    let normalized = normalize_context(&raw("https://www.ozon.ru/modal/addressbook"));
    assert_eq!(normalized.evidence.len(), 2);
    let region_ref = at(&normalized.data, "region/evidenceRefs/0");
    let region = normalized
        .evidence
        .iter()
        .find(|item| item.field("evidenceRef").equals(region_ref))
        .unwrap();
    assert_eq!(region.field("sourceUrl").as_str(), Some("https://www.ozon.ru/modal/addressbook"));
    assert_eq!(region.field("fieldPaths").to_text(), r#"["/region/label"]"#);
    assert_eq!(normalized.evidence[0].field("sourceUrl").as_str(), Some("https://www.ozon.ru/"));
    assert_eq!(
        normalized.evidence[0].field("fieldPaths").to_text(),
        r#"["/accountState","/accessState"]"#
    );
    let normalized = normalize_context(&raw("https://www.ozon.ru/modal/addressbook?private=value"));
    assert_eq!(normalized.evidence.len(), 1);
    assert!(!Json::array(normalized.evidence).to_text().contains("private"));
}

#[test]
fn search_creates_durable_refs() {
    let mut ledger = setup();
    let n = normalize_search(
        &json(
            r#"{"searchUrl":"https://www.ozon.ru/search/?text=x","items":[{"sku":"1","name":"x","price":1.5,"priceType":"unknown","currency":"RUB","url":"https://www.ozon.ru/product/1/"}],"hasNext":false}"#,
        ),
        &mut ledger,
        "r",
        "c",
        false,
        false,
    )
    .unwrap();
    let p = at(&n.data, "items/0/productRef").as_str().unwrap();
    assert_eq!(write(&ledger, p, "product").research_id, "r");
    assert!(!n.evidence[0].field("facts").as_array().unwrap().is_empty());
    let answer = envelope(Some("r"), n.data, &context(), n.evidence, n.warnings, "t");
    assert!(at(&answer, "evidence/0").get("facts").is_none());
}

#[test]
fn search_price_range_semantics_are_explicit() {
    let mut ledger = setup();
    let raw = json(
        r#"{
        "searchUrl": "https://www.ozon.ru/search/?text=x&currency_price=500.000%3B1500.000",
        "items": [
            {"sku":"1","name":"below","price":362.0,"priceType":"unknown","matchesPriceRange":false,"currency":"RUB","url":"https://www.ozon.ru/product/1/"},
            {"sku":"2","name":"inside","price":500.0,"priceType":"unknown","matchesPriceRange":true,"currency":"RUB","url":"https://www.ozon.ru/product/2/"},
            {"sku":"3","name":"unknown","price":null,"priceType":"unknown","matchesPriceRange":null,"currency":"RUB","url":"https://www.ozon.ru/product/3/"}
        ],
        "priceRangeAssessment": {"basis": "displayed_search_price", "sourceFilterGuaranteesMatch": false},
        "nextCursor": "opaque-source-cursor",
        "hasNext": true,
        "coverage": {"uniqueSeen": 3},
        "warnings": ["PRICE_OUTSIDE_REQUESTED_RANGE"]
    }"#,
    );
    let normalized = normalize_search(&raw, &mut ledger, "r", "c", false, false).unwrap();
    let matches: Vec<Option<bool>> = normalized
        .data
        .field("items")
        .as_array()
        .unwrap()
        .iter()
        .map(|item| item.field("matchesDisplayedPriceRange").as_bool())
        .collect();
    assert_eq!(matches, [Some(false), Some(true), None]);
    assert_eq!(
        normalized.data.field("priceRangeAssessment").to_text(),
        r#"{"basis":"displayed_search_price","sourceFilterGuaranteesMatch":false}"#
    );
    assert_eq!(at(&normalized.data, "coverage/completeness").as_str(), Some("partial"));
    assert_eq!(at(&normalized.data, "coverage/returned").as_u64(), Some(3));
    assert_eq!(
        normalized.warnings[0].field("message").as_str(),
        Some("Returned displayed search prices do not all match the requested range. Ozon's source filter price basis is unknown; results were preserved.")
    );
}

#[test]
fn product_and_review_conversion_match_public_contracts() {
    let mut ledger = setup();
    let raw = json(
        r#"{"sku":"123","name":"Headphones","url":"https://www.ozon.ru/product/headphones-123/?tracking=x","price":640.0,"cardPrice":627.0,"priceRegular":640.0,"available":null,"rating":4.9,"reviews":27,"seller":null,"deliveryLabel":null,"images":["https://ir.ozone.ru/a.jpg"],"characteristics":{"Цвет":"черный"},"description":{"text":"Описание","images":[]},"variants":{"status":"unsupported","items":[],"hasNext":null,"nextPath":null},"offers":{"status":"unsupported","items":[],"hasNext":null,"nextPath":null},"warnings":[]}"#,
    );
    let product = normalize_product(
        &raw,
        &json(r#"{"sku":"123"}"#),
        &mut ledger,
        "r",
        "c",
        &sections(&["characteristics", "offers", "images"]),
    )
    .unwrap();
    assert_eq!(at(&product.result, "product/prices/0/type").as_str(), Some("ozon_card"));
    assert_eq!(at(&product.result, "product/prices/0/amountMinor").as_u64(), Some(62_700));
    assert_eq!(
        at(&product.result, "product/url").as_str(),
        Some("https://www.ozon.ru/product/headphones-123/")
    );
    assert!(!product.evidence[0].field("facts").as_array().unwrap().is_empty());

    let product_ref = product.product_refs[0].clone();
    let reviews = normalize_reviews(
        &json(
            r#"{"rating":4.9,"totalReviews":1,"reviews":[{"reviewId":"r1","score":5.0,"comment":"ok","pros":null,"cons":null,"date":null,"purchased":false,"variantLabel":null,"photos":[]}],"nextPath":null,"hasNext":false,"refinements":[],"aggregationScope":"specific_sku","warnings":[]}"#,
        ),
        &mut ledger,
        ReviewRequest {
            product_ref: &product_ref,
            source_url: "https://www.ozon.ru/product/headphones-123/reviews/",
            ..request()
        },
    )
    .unwrap();
    assert!(reviews.evidence.iter().all(|e| !e.field("facts").as_array().unwrap().is_empty()));
    assert!(at(&reviews.data, "reviews/0/purchaseVerified").is_null());
}

#[test]
fn review_cursor_drains_captured_page_without_skipping() {
    let mut ledger = setup();
    let product_ref = ledger.put_ref(
        "r",
        "product",
        json(r#"{"sku":"123","url":"https://www.ozon.ru/product/item-123/"}"#),
        None,
    );
    let reviews: Vec<String> = (0..30)
        .map(|index| {
            format!(
                r#"{{"reviewId":"r{index}","score":5.0,"comment":"review-{index}","pros":null,"cons":null,"date":null,"purchased":null,"variantLabel":null,"photos":[]}}"#
            )
        })
        .collect();
    let mut current = json(&format!(
        r#"{{"rating":5.0,"totalReviews":30,"reviews":[{}],"nextPath":null,"hasNext":false,"refinements":[],"aggregationScope":"specific_sku","warnings":[]}}"#,
        reviews.join(",")
    ));
    let mut emitted: Vec<String> = vec![];
    let mut captured_at: Option<String> = None;
    let mut seen_keys: Vec<String> = vec![];
    let mut seen_ref: Option<String> = None;
    let mut depth = 0;
    for limit in [3, 5, 30] {
        let normalized = normalize_reviews(
            &current,
            &mut ledger,
            ReviewRequest {
                product_ref: &product_ref,
                limit,
                prior_seen_review_keys: &seen_keys,
                prior_seen_ref: seen_ref.as_deref(),
                prior_seen_depth: depth,
                ..request()
            },
        )
        .unwrap();
        let observed = normalized.evidence[0].field("observedAt").as_str().unwrap().to_owned();
        assert_eq!(captured_at.get_or_insert(observed.clone()), &observed);
        for review in normalized.data.field("reviews").as_array().unwrap() {
            emitted.push(review.field("text").as_str().unwrap().to_owned());
        }
        assert_eq!(
            at(&normalized.data, "coverage/uniqueSeen").as_u64(),
            Some(emitted.len() as u64)
        );
        match normalized.data.field("nextCursor").as_str() {
            Some(cursor) => {
                let value = write(&ledger, cursor, "review_cursor").value.copy();
                assert_eq!(value.field("capturedAt").as_str(), Some(observed.as_str()));
                assert_eq!(value.field("contextId").as_str(), Some("c"));
                seen_ref = value.field("seenRef").as_str().map(str::to_owned);
                seen_keys = read_seen_chain(&ledger, seen_ref.as_deref());
                depth = match &seen_ref {
                    Some(id) => {
                        let node = &write(&ledger, id, "review_seen").value;
                        node.field("depth").as_u64().unwrap() as usize
                    }
                    None => 0,
                };
                current = value.field("cachedRaw").copy();
            }
            None => break,
        }
    }
    let expected: Vec<String> = (0..30).map(|index| format!("review-{index}")).collect();
    assert_eq!(emitted, expected);
}

fn two_reviews(next: &str) -> Json {
    json(&format!(
        r#"{{"rating":5.0,"totalReviews":2,"reviews":[
            {{"reviewId":"r1","score":5.0,"comment":"one","photos":[]}},
            {{"reviewId":"r2","score":5.0,"comment":"two","photos":[]}}
        ],"nextPath":"{next}","hasNext":true,"refinements":[],"aggregationScope":"specific_sku","warnings":[]}}"#
    ))
}

#[test]
fn all_duplicate_review_page_advances_without_growing_seen_chain() {
    let mut ledger = setup();
    let first = normalize_reviews(
        &two_reviews("/product/item-123/reviews/?page=2"),
        &mut ledger,
        request(),
    )
    .unwrap();
    let cursor = write(&ledger, first.data.field("nextCursor").as_str().unwrap(), "review_cursor");
    let seen_ref = cursor.value.field("seenRef").as_str().unwrap().to_owned();
    let seen = read_seen_chain(&ledger, Some(&seen_ref));

    let duplicate = normalize_reviews(
        &two_reviews("/product/item-123/reviews/?page=3"),
        &mut ledger,
        ReviewRequest {
            prior_seen_review_keys: &seen,
            prior_seen_ref: Some(&seen_ref),
            prior_seen_depth: 1,
            current_path: "/product/item-123/reviews/?page=2",
            ..request()
        },
    )
    .unwrap();
    assert_eq!(shown(&duplicate), 0);
    assert_eq!(at(&duplicate.data, "coverage/uniqueSeen").as_u64(), Some(2));
    let cursor =
        write(&ledger, duplicate.data.field("nextCursor").as_str().unwrap(), "review_cursor");
    assert_eq!(cursor.value.field("seenRef").as_str(), Some(seen_ref.as_str()));
}

#[test]
fn identical_idless_review_rows_remain_distinct_across_pages() {
    let mut ledger = setup();
    let row = r#"{"reviewId":null,"score":5.0,"comment":"same","photos":[]}"#;
    let page = |next: &str, more: bool| {
        json(&format!(
            r#"{{"rating":5.0,"totalReviews":4,"reviews":[{row},{row}],"nextPath":{next},"hasNext":{more},"refinements":[],"aggregationScope":"specific_sku","warnings":[]}}"#
        ))
    };
    let first = normalize_reviews(
        &page(r#""/product/item-123/reviews/?page=2""#, true),
        &mut ledger,
        request(),
    )
    .unwrap();
    assert_eq!(shown(&first), 2);
    assert_eq!(at(&first.data, "coverage/uniqueSeen").as_u64(), Some(2));
    let cursor = write(&ledger, first.data.field("nextCursor").as_str().unwrap(), "review_cursor");
    let seen_ref = cursor.value.field("seenRef").as_str().unwrap().to_owned();
    let seen = read_seen_chain(&ledger, Some(&seen_ref));
    let depth =
        write(&ledger, &seen_ref, "review_seen").value.field("depth").as_u64().unwrap() as usize;

    let second = normalize_reviews(
        &page("null", false),
        &mut ledger,
        ReviewRequest {
            prior_seen_review_keys: &seen,
            prior_seen_ref: Some(&seen_ref),
            prior_seen_depth: depth,
            current_path: "/product/item-123/reviews/?page=2",
            ..request()
        },
    )
    .unwrap();
    assert_eq!(shown(&second), 2);
    assert_eq!(at(&second.data, "coverage/uniqueSeen").as_u64(), Some(4));
}

#[test]
fn duplicate_review_cycles_stop_without_hidden_writes_and_progress_resets_bound() {
    let mut ledger = setup();
    let duplicate =
        r#"{"reviewId":"r1","score":5.0,"comment":"same","photos":["https://ir.ozone.ru/a.jpg"]}"#;
    ledger.stock(1, 1);
    let seen = vec![review_identity(&json(duplicate), &mut ledger)];
    let refinements: Vec<String> = (0..100)
        .map(|i| format!(r#"{{"label":"f{i}","url":"/product/item-123/reviews/?f={i}"}}"#))
        .collect();
    let page = |review: &str, next: &str, refinements: &str| {
        json(&format!(
            r#"{{"reviews":[{review}],"nextPath":"/product/item-123/reviews/?page={next}","hasNext":true,"refinements":[{refinements}],"warnings":[]}}"#
        ))
    };
    let before = ledger.writes.len();
    let same_path = normalize_reviews(
        &page(duplicate, "1", &refinements.join(",")),
        &mut ledger,
        ReviewRequest {
            prior_seen_review_keys: &seen,
            current_path: "/product/item-123/reviews/?page=1",
            ..request()
        },
    )
    .unwrap_err();
    assert!(same_path.message().starts_with("SOURCE_CHANGED:"));
    assert_eq!(ledger.writes.len(), before);

    let page_a = normalize_reviews(
        &page(duplicate, "b", ""),
        &mut ledger,
        ReviewRequest {
            prior_seen_review_keys: &seen,
            current_path: "/product/item-123/reviews/?page=a",
            ..request()
        },
    )
    .unwrap();
    let cursor = write(&ledger, page_a.data.field("nextCursor").as_str().unwrap(), "review_cursor");
    assert_eq!(cursor.value.field("noProgressPages").as_u64(), Some(1));
    let page_b = normalize_reviews(
        &page(duplicate, "a", ""),
        &mut ledger,
        ReviewRequest {
            prior_seen_review_keys: &seen,
            current_path: "/product/item-123/reviews/?page=b",
            prior_no_progress_pages: 1,
            ..request()
        },
    )
    .unwrap();
    assert_eq!(at(&page_b.data, "coverage/returned").as_u64(), Some(0));
    let cycle = normalize_reviews(
        &page(duplicate, "b", ""),
        &mut ledger,
        ReviewRequest {
            prior_seen_review_keys: &seen,
            current_path: "/product/item-123/reviews/?page=a",
            prior_no_progress_pages: 2,
            ..request()
        },
    )
    .unwrap_err();
    assert!(cycle.message().starts_with("SOURCE_CHANGED:"));

    let progress = normalize_reviews(
        &page(r#"{"reviewId":"r2","score":5.0,"comment":"new","photos":[]}"#, "c", ""),
        &mut ledger,
        ReviewRequest {
            prior_seen_review_keys: &seen,
            current_path: "/product/item-123/reviews/?page=b",
            prior_no_progress_pages: 2,
            ..request()
        },
    )
    .unwrap();
    let cursor =
        write(&ledger, progress.data.field("nextCursor").as_str().unwrap(), "review_cursor");
    assert_eq!(cursor.value.field("noProgressPages").as_u64(), Some(0));
}

#[test]
fn large_small_limit_review_seen_chain_stays_bounded_and_under_quota() {
    let mut ledger = setup();
    let mut parent: Option<String> = None;
    let mut all_keys = KeySet::new();
    let mut depth = 0;
    let total = 23_091usize;
    for start in (0..total).step_by(10) {
        let end = (start + 10).min(total);
        let keys: Vec<String> = (start..end).map(|index| format!("id:{index:064x}")).collect();
        all_keys.insert_all(&keys);
        ledger.stock(1, 1);
        let (next, next_depth) = store_review_seen_state(
            &mut ledger,
            "r",
            parent.as_deref(),
            depth,
            &keys,
            &all_keys,
        )
        .unwrap();
        parent = Some(next);
        depth = next_depth;
    }
    assert_eq!(all_keys.len(), total);
    assert_eq!(read_seen_chain(&ledger, parent.as_deref()).len(), total);
    let bytes: usize = ledger.writes.iter().map(|w| w.value.to_text().len()).sum();
    assert!(bytes < 32 * 1024 * 1024, "seen chain used {bytes} bytes");
}

#[test]
fn context_registry_is_complete_and_contract_valid() {
    let raw = json(
        r#"{"contextId":"c","regionLabel":null,"regionVerification":"unverified","accountState":"unknown","accessState":"available","capabilities":{"search":"available","variants":"unsupported","review_images":"unverified","image_content":"unverified"}}"#,
    );
    let n = normalize_context(&raw);
    let observed = n.data.field("observedAt").as_str().unwrap().to_owned();
    let output = envelope(None, n.data, &raw, n.evidence, n.warnings, &observed);
    assert_eq!(at(&output, "data/capabilities").as_array().unwrap().len(), 17);
    assert_eq!(at(&output, "warnings/0/code").as_str(), Some("REGION_UNVERIFIED"));
}

#[test]
fn characteristics_overflow_has_a_bound_continuation() {
    let mut ledger = setup();
    let characteristics: Vec<String> =
        (0..51).map(|i| format!(r#""field-{i:02}":"value-{i}""#)).collect();
    let raw = json(&format!(
        r#"{{"sku":"123","name":"x","url":"https://www.ozon.ru/product/x-123/","cardPrice":null,"priceRegular":1.0,"available":true,"rating":null,"reviews":null,"seller":null,"images":[],"characteristics":{{{}}},"description":{{"text":"","images":[]}},"variants":{{"status":"unsupported","items":[],"hasNext":null,"nextPath":null}},"offers":{{"status":"unsupported","items":[],"hasNext":null,"nextPath":null}},"warnings":[]}}"#,
        characteristics.join(",")
    ));
    let asked = sections(&["characteristics"]);
    let first =
        normalize_product(&raw, &json(r#"{"sku":"123"}"#), &mut ledger, "r", "c", &asked).unwrap();
    let section = at(&first.result, "product/characteristics");
    assert_eq!(section.field("hasNext").as_bool(), Some(true));
    let observed = first.evidence[0].field("observedAt").as_str().unwrap();
    let cursor = section.field("nextCursor").as_str().unwrap();
    let value = write(&ledger, cursor, "product_cursor").value.copy();
    assert_eq!(value.field("capturedAt").as_str(), Some(observed));
    assert_eq!(value.field("contextId").as_str(), Some("c"));
    assert!(value.get("presentation").is_none());
    let second = normalize_product(
        value.field("cachedRaw"),
        &json(&format!(r#"{{"cursor":"{cursor}"}}"#)),
        &mut ledger,
        "r",
        "c",
        &asked,
    )
    .unwrap();
    assert_eq!(
        at(&second.result, "product/characteristics/items").as_array().unwrap().len(),
        1
    );
    assert!(at(&second.result, "product/productRef").equals(at(&first.result, "product/productRef")));
    assert_eq!(second.evidence[0].field("observedAt").as_str(), Some(observed));
}

#[test]
fn empty_description_is_unverified_instead_of_available() {
    let mut ledger = setup();
    let raw = json(
        r#"{"sku": "123", "name": "x", "url": "https://www.ozon.ru/product/x-123/",
            "cardPrice": null, "priceRegular": 1.0, "available": true, "rating": null,
            "reviews": null, "seller": null, "images": [], "characteristics": {},
            "description": {"text": "", "images": []},
            "variants": {"status": "unsupported", "items": [], "hasNext": null, "nextPath": null},
            "offers": {"status": "unsupported", "items": [], "hasNext": null, "nextPath": null},
            "warnings": []}"#,
    );
    let product = normalize_product(
        &raw,
        &json(r#"{"sku": "123"}"#),
        &mut ledger,
        "r",
        "c",
        &sections(&["description"]),
    )
    .unwrap();
    let description = at(&product.result, "product/description");
    assert_eq!(description.field("status").as_str(), Some("unknown"));
    assert!(description.field("text").is_null());
    assert!(description.field("hasNext").is_null());
    assert!(description.field("nextCursor").is_null());
}

#[test]
fn observed_review_timestamp_survives_parse_and_normalization() {
    let page = json(
        r#"{"widgetStates": {"webListReviews-0": {"reviews": [{
            "uuid": "review-1", "content": {"score": 5}, "publishedAt": 1704067200}]}}}"#,
    );
    let raw = parse_reviews(&page, 10).to_json();
    let mut ledger = setup();
    let normalized = normalize_reviews(
        &raw,
        &mut ledger,
        ReviewRequest { source_url: "https://www.ozon.ru/product/x-123/reviews/", ..request() },
    )
    .unwrap();
    assert_eq!(
        at(&normalized.data, "reviews/0/publishedAt").as_str(),
        Some("2024-01-01T00:00:00+00:00")
    );
}

#[test]
fn problems_are_told_as_data() {
    assert_eq!(
        warning("CODE", "text", &["e"]).to_text(),
        r#"{"code":"CODE","evidenceRefs":["e"],"message":"text"}"#
    );
    assert_eq!(
        item_error(&json(r#"{"sku":"1"}"#), "UPSTREAM_TIMEOUT", "late").to_text(),
        r#"{"error":{"code":"UPSTREAM_TIMEOUT","message":"late","retryable":true},"requested":{"sku":"1"},"status":"error"}"#
    );
}

#[test]
fn sections_are_shown_page_by_page() {
    let named: Vec<String> =
        (0..120).map(|i| format!(r#""field-{i:03}":"value-{i}""#)).collect();
    let images: Vec<String> =
        (0..30).map(|i| format!(r#""https://ir.ozone.ru/s3/{i}.jpg""#)).collect();
    let text = "описание ".repeat(3000);
    let raw = json(&format!(
        r#"{{"sku":"123","name":"x","url":"https://www.ozon.ru/product/x-123/","available":true,"images":[{0},{0}],"characteristics":{{{1}}},"description":{{"text":"{text}","images":[]}},"warnings":[]}}"#,
        images.join(","),
        named.join(",")
    ));
    for section in ["characteristics", "description", "images"] {
        let mut ledger = setup();
        let mut asked = sections(&["characteristics", "images", "description"]);
        let mut current = raw.copy();
        let mut shown: Vec<String> = vec![];
        let mut pages = 0;
        let mut identity: Option<(String, String)> = None;
        loop {
            let made = normalize_product(
                &current,
                &json(r#"{"sku":"123"}"#),
                &mut ledger,
                "r",
                "c",
                &asked,
            )
            .unwrap();
            pages += 1;
            let own = (
                made.product_refs[0].clone(),
                made.evidence[0].field("observedAt").as_str().unwrap().to_owned(),
            );
            assert_eq!(identity.get_or_insert(own.clone()), &own);
            let part = at(&made.result, "product").field(section);
            match section {
                "description" => shown.push(part.field("text").as_str().unwrap().to_owned()),
                _ => {
                    for item in part.field("items").as_array().unwrap() {
                        shown.push(if section == "images" {
                            let name = item.field("imageRef").as_str().unwrap();
                            let stored = write(&ledger, name, "image");
                            stored.value.field("url").as_str().unwrap().to_owned()
                        } else {
                            item.field("name").as_str().unwrap().to_owned()
                        });
                    }
                }
            }
            match part.field("nextCursor").as_str() {
                Some(cursor) => {
                    let value = &write(&ledger, cursor, "product_cursor").value;
                    assert_eq!(at(value, "include/0").as_str(), Some(section));
                    current = value.field("cachedRaw").copy();
                    asked = sections(&[section]);
                }
                None => break,
            }
        }
        assert_eq!(pages, 3);
        let expected: Vec<String> = match section {
            "characteristics" => (0..120).map(|i| format!("field-{i:03}")).collect(),
            "images" => (0..30).map(|i| format!("https://ir.ozone.ru/s3/{i}.jpg")).collect(),
            _ => vec![text.clone()],
        };
        if section == "description" {
            assert_eq!(shown.concat(), expected[0]);
        } else {
            assert_eq!(shown, expected);
        }
    }
}

#[test]
fn pointers_hold_no_separators() {
    assert_eq!(pointer_escape("a/b~1"), "a~1b~01");
    assert_eq!(pointer_escape("~1"), "~01");
    assert_eq!(pointer_escape("/"), "~1");
    assert_eq!(pointer_escape("вес"), "вес");
    assert_eq!(pointer_escape(""), "");
}
