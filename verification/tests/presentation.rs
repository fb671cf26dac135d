use ozon_research::json::Json;
use ozon_research::ledger::{Ledger, StoredRef};
use ozon_research::presentation::{apply, apply_repeat_mode, remove_evidence_refs};
use ozon_research::refinements::{continue_page, cursor_state, first_page, MAX_REFINEMENT_PAGE_UTF16};
use ozon_research::response::serialized_utf16_len;

fn json(text: &str) -> Json {
    Json::parse(text).unwrap()
}

/// The value at a path of keys and indices.
fn at<'a>(value: &'a Json, path: &str) -> &'a Json {
    path.split('/').fold(value, |v, part| match part.parse::<usize>() {
        Ok(i) => &v.as_array().unwrap()[i],
        Err(_) => v.field(part),
    })
}

fn example(tool: &str) -> Json {
    let data = match tool {
        "ozon_search" => {
            r#"{"items":[{"productRef":"p","sku":"1","title":"t","url":"u","availability":"unknown",
                "prices":[{"type":"regular","amountMinor":100,"currency":"RUB","evidenceRefs":["e"]}],
                "rating":4.5,"reviewCount":3,"seller":null,"deliveryLabel":null,"imageRefs":[],
                "matchesDisplayedPriceRange":null,"evidenceRefs":["e"]}],
              "coverage":{"returned":1},"nextCursor":null,"hasNext":false,"refinements":[]}"#
        }
        "ozon_get_products" => {
            r#"{"results":[{"status":"ok","product":{"productRef":"p","sku":"1","title":"t","url":"u",
                "availability":"unknown","prices":[],"fieldEvidence":{"a":["e"]},"evidenceRefs":["e"],
                "characteristics":{"items":[{"name":"n","value":"v","evidenceRefs":["e"]}],"hasNext":false},
                "description":{"text":"d","evidenceRefs":["e"]},
                "images":{"items":[{"imageRef":"i","evidenceRefs":["e"]}]}}}]}"#
        }
        _ => {
            r#"{"reviews":[{"text":"x","rating":5,"publishedAt":"2024-01-01T00:00:00Z","authorName":null,
                "imageRefs":[],"evidenceRefs":["e"]}],
              "aggregationScope":"specific_sku","aggregate":{"rating":5},"coverage":{"returned":1},
              "nextCursor":"n","hasNext":true,"refinements":[]}"#
        }
    };
    json(&format!(
        r#"{{"schemaVersion":"1","researchId":"r","data":{data},
            "context":{{"contextId":"c","regionLabel":null}},"observedAt":"2024-01-01T00:00:00Z",
            "evidence":[{{"evidenceRef":"e","sourceKind":"ozon_page"}}],
            "warnings":[{{"code":"W","message":"m","evidenceRefs":["e"]}}]}}"#
    ))
}

const TOOLS: [&str; 3] = ["ozon_search", "ozon_get_products", "ozon_get_reviews"];

#[test]
fn full_adds_metadata_without_changing_the_journaled_envelope() {
    for tool in TOOLS {
        let mut expected = example(tool)
            .with("view", Json::text("full"))
            .with("evidenceDetail", Json::text("inline"));
        if tool == "ozon_search" {
            expected = expected.with("repeatMode", Json::text("full"));
        }
        let full = apply(tool, example(tool), "full").unwrap();
        assert_eq!(full.to_text(), expected.to_text());
    }
}

#[test]
fn compact_search_keeps_decision_fields_and_safety_fields() {
    let original = example("ozon_search");
    let compact = apply("ozon_search", example("ozon_search"), "compact").unwrap();
    for path in ["context", "observedAt", "warnings", "data/coverage"] {
        assert!(at(&compact, path).equals(at(&original, path)), "changed {path}");
    }
    let item = at(&compact, "data/items/0");
    for key in [
        "productRef",
        "sku",
        "title",
        "availability",
        "prices",
        "rating",
        "reviewCount",
        "matchesDisplayedPriceRange",
        "evidenceRefs",
    ] {
        assert!(item.get(key).is_some(), "missing {key}");
    }
    for key in ["url", "seller", "deliveryLabel", "imageRefs"] {
        assert!(item.get(key).is_none(), "retained {key}");
    }
    assert!(at(item, "prices/0").get("evidenceRefs").is_none());
    assert_eq!(compact.field("evidence").to_text(), "[]");
}

#[test]
fn compact_products_preserves_requested_sections_but_deduplicates_evidence() {
    let original = example("ozon_get_products");
    let compact = apply("ozon_get_products", example("ozon_get_products"), "compact").unwrap();
    for path in ["context", "observedAt", "warnings"] {
        assert!(at(&compact, path).equals(at(&original, path)), "changed {path}");
    }
    let before = at(&original, "data/results/0/product");
    let after = at(&compact, "data/results/0/product");
    for section in ["characteristics", "description", "variants", "offers", "images"] {
        if let Some(shown) = before.get(section) {
            let expected = remove_evidence_refs(shown);
            assert_eq!(after.field(section).to_text(), expected.to_text(), "changed {section}");
        }
    }
    assert!(after.get("url").is_none());
    assert!(after.get("fieldEvidence").is_none());
    assert!(after.field("evidenceRefs").equals(before.field("evidenceRefs")));
}

#[test]
fn compact_reviews_preserves_text_rating_date_and_navigation() {
    let original = example("ozon_get_reviews").to_text().replace(
        r#""authorName":null"#,
        r#""authorName":"Покупатель""#,
    );
    let compact = apply("ozon_get_reviews", json(&original), "compact").unwrap();
    let original = json(&original);
    let before = at(&original, "data/reviews/0");
    let after = at(&compact, "data/reviews/0");
    for key in ["text", "rating", "publishedAt", "evidenceRefs"] {
        assert!(after.field(key).equals(before.field(key)), "changed review {key}");
    }
    for key in
        ["aggregationScope", "aggregate", "coverage", "nextCursor", "hasNext", "refinements"]
    {
        assert!(at(&compact, "data").field(key).equals(at(&original, "data").field(key)));
    }
    assert!(after.get("authorName").is_none());
    assert!(after.get("imageRefs").is_none());
}

#[test]
fn compact_is_measurably_smaller_and_invalid_inputs_fail_closed() {
    for tool in TOOLS {
        let full = apply(tool, example(tool), "full").unwrap();
        let compact = apply(tool, example(tool), "compact").unwrap();
        assert!(compact.to_text().len() < full.to_text().len());
    }
    assert!(apply("ozon_search", json("[]"), "compact").is_err());
    assert!(apply("ozon_search", json("{}"), "tiny").is_err());
    assert!(apply("unknown", json("{}"), "compact").is_err());
}

/// The search example with other members in its one item.
fn search_with(members: &[(&str, &str)]) -> Json {
    let mut value = example("ozon_search");
    let mut item = at(&value, "data/items/0").copy();
    for (key, member) in members {
        item = item.with(key, json(member));
    }
    let data = value.field("data").copy().with("items", Json::array(vec![item]));
    value.set("data", data);
    value
}

#[test]
fn delta_keeps_all_rows_and_decision_fields_plus_changed_values() {
    let mut value = search_with(&[
        (
            "novelty",
            r#"{"status":"changed","previousProductRef":"product-old","changedFields":["prices","seller","deliveryLabel"]}"#,
        ),
        ("seller", r#"{"name":"Seller","rating":4.8,"url":null,"evidenceRefs":["ev-search"]}"#),
        ("deliveryLabel", r#""tomorrow""#),
    ]);
    let original_count = at(&value, "data/items").as_array().unwrap().len();
    apply_repeat_mode(&mut value, "delta").unwrap();
    let compact = apply("ozon_search", value, "compact").unwrap();
    assert_eq!(at(&compact, "data/items").as_array().unwrap().len(), original_count);
    let item = at(&compact, "data/items/0");
    assert_eq!(item.field("representation").as_str(), Some("delta"));
    assert_eq!(item.field("baselineProductRef").as_str(), Some("product-old"));
    assert_eq!(item.field("availability").as_str(), Some("unknown"));
    assert!(item.get("prices").is_some());
    assert_eq!(at(item, "seller/name").as_str(), Some("Seller"));
    assert_eq!(item.field("deliveryLabel").as_str(), Some("tomorrow"));
}

#[test]
fn unchanged_delta_keeps_unknown_price_and_rejects_unknown_baseline() {
    let prices = ("prices", r#"[{"type":"unknown","amountMinor":1}]"#);
    let mut value = search_with(&[
        ("novelty", r#"{"status":"unchanged","previousProductRef":"product-old","changedFields":[]}"#),
        prices,
    ]);
    apply_repeat_mode(&mut value, "delta").unwrap();
    assert_eq!(at(&value, "data/items/0/prices/0/type").as_str(), Some("unknown"));

    let mut value = search_with(&[
        ("novelty", r#"{"status":"unchanged","previousProductRef":null,"changedFields":[]}"#),
        prices,
    ]);
    assert!(apply_repeat_mode(&mut value, "delta").is_err());
}

#[test]
fn deltas_are_presented_in_all_views() {
    for view in ["compact", "comparison", "full"] {
        let mut value = search_with(&[(
            "novelty",
            r#"{"status":"unchanged","previousProductRef":"product-old","changedFields":[]}"#,
        )]);
        apply_repeat_mode(&mut value, "delta").unwrap();
        let presented = apply("ozon_search", value, view).unwrap();
        assert_eq!(presented.field("view").as_str(), Some(view));
        assert_eq!(presented.field("repeatMode").as_str(), Some("delta"));
    }
}

fn context() -> Json {
    json(
        r#"{"contextId":"context-a","regionLabel":"Москва","regionVerification":"verified",
            "accountState":"authenticated","accessState":"available"}"#,
    )
}

fn setup() -> Ledger {
    Ledger::new(Json::text("context-a"))
}

/// What was stored under a reference.
fn stored(ledger: &Ledger, id: &str) -> StoredRef {
    let write = ledger.writes.iter().find(|w| w.id == id).unwrap();
    StoredRef {
        research_id: write.research_id.clone(),
        context_id: "context-a".to_owned(),
        value: write.value.copy(),
    }
}

fn rows(count: usize) -> Vec<Json> {
    (0..count)
        .map(|index| {
            json(&format!(
                r#"{{"kind":"filter","label":"row-{index}","groupLabel":"group","selected":false,"searchRef":"search-ref-{index}"}}"#
            ))
        })
        .collect()
}

const OBSERVED: &str = "2026-09-15T10:00:00.000Z";

#[test]
fn pages_every_captured_row_and_replays_without_remote_state() {
    let mut ledger = setup();
    let expected = Json::array(rows(29)).to_text();
    let mut data = json(
        r#"{"items":[{"sentinel":true}],"refinementsIncluded":true,"refinementsTruncated":false,
            "nextCursor":"product-page","hasNext":true,"coverage":{"returned":1}}"#,
    )
    .with("refinements", Json::array(rows(29)));
    first_page(&mut ledger, "r", &mut data, &context(), OBSERVED, "compact", "include", 12).unwrap();
    assert_eq!(data.field("items").to_text(), r#"[{"sentinel":true}]"#);
    assert_eq!(data.field("nextCursor").as_str(), Some("product-page"));
    assert_eq!(data.field("refinementsTotal").as_u64(), Some(29));

    let first = stored(&ledger, data.field("refinementsNextCursor").as_str().unwrap());
    let replay =
        continue_page(&mut ledger, &first, Some("r"), "context-a", None, None, None).unwrap();
    let replay_again = continue_page(
        &mut ledger,
        &first,
        Some("r"),
        "context-a",
        Some("compact"),
        Some("include"),
        Some(12),
    )
    .unwrap();
    assert!(at(&replay, "data/refinements").equals(at(&replay_again, "data/refinements")));
    assert!(replay.field("context").equals(&context()));
    assert_eq!(replay.field("observedAt").as_str(), Some(OBSERVED));
    assert_eq!(replay.field("evidence").to_text(), "[]");
    assert_eq!(replay.field("warnings").to_text(), "[]");

    let cursor = stored(&ledger, at(&replay, "data/refinementsNextCursor").as_str().unwrap());
    let last = continue_page(&mut ledger, &cursor, None, "context-a", None, None, None).unwrap();
    let collected: Vec<Json> = [
        data.field("refinements"),
        at(&replay, "data/refinements"),
        at(&last, "data/refinements"),
    ]
    .iter()
    .flat_map(|page| page.as_array().unwrap().iter().map(Json::copy))
    .collect();
    assert_eq!(Json::array(collected).to_text(), expected);
    assert!(at(&last, "data/refinementsNextCursor").is_null());
    assert_eq!(at(&last, "data/refinementsTruncated").as_bool(), Some(false));
}

#[test]
fn rejects_cursor_binding_mismatches_and_expiry() {
    let mut ledger = setup();
    let state = cursor_state(&rows(2), 1, false, &context(), OBSERVED, "compact", "include", 1);
    let id = ledger.put_ref("r", "search_refinements", state, Some(1_800));
    let cursor = stored(&ledger, &id);
    for result in [
        continue_page(&mut ledger, &cursor, Some("other-research"), "context-a", None, None, None),
        continue_page(&mut ledger, &cursor, None, "context-b", None, None, None),
        continue_page(&mut ledger, &cursor, None, "context-a", Some("full"), None, None),
        continue_page(&mut ledger, &cursor, None, "context-a", None, Some("omit"), None),
        continue_page(&mut ledger, &cursor, None, "context-a", None, None, Some(2)),
    ] {
        assert!(result.is_err());
    }
    assert!(continue_page(&mut ledger, &cursor, None, "context-a", None, None, None).is_ok());
}

#[test]
fn obeys_utf16_budget_and_reports_source_truncation() {
    let mut ledger = setup();
    let wide: Vec<Json> = (0..4)
        .map(|index| {
            json(&format!(
                r#"{{"kind":"filter","label":"{index}-{}","groupLabel":null,"selected":null,"searchRef":"search-ref-{index}"}}"#,
                "😀".repeat(1_200)
            ))
        })
        .collect();
    let mut data = json(r#"{"refinementsTruncated":true}"#).with("refinements", Json::array(wide));
    first_page(&mut ledger, "r", &mut data, &context(), OBSERVED, "compact", "include", 4).unwrap();
    assert!(serialized_utf16_len(data.field("refinements")) <= MAX_REFINEMENT_PAGE_UTF16);
    assert_eq!(data.field("refinementsSourceTruncated").as_bool(), Some(true));
    assert_eq!(data.field("refinementsTruncated").as_bool(), Some(true));
    let cursor = stored(&ledger, data.field("refinementsNextCursor").as_str().unwrap());
    let next = continue_page(&mut ledger, &cursor, None, "context-a", None, None, None).unwrap();
    assert_eq!(at(&next, "warnings/0/code").as_str(), Some("REFINEMENTS_SOURCE_TRUNCATED"));
}

#[test]
fn rejects_a_single_row_over_the_utf16_budget() {
    let mut ledger = setup();
    let row = json(&format!(
        r#"{{"kind":"filter","label":"{}","groupLabel":null,"selected":null,"searchRef":"ref"}}"#,
        "😀".repeat(MAX_REFINEMENT_PAGE_UTF16 as usize)
    ));
    let mut data =
        json(r#"{"refinementsTruncated":false}"#).with("refinements", Json::array(vec![row]));
    assert!(first_page(
        &mut ledger,
        "r",
        &mut data,
        &context(),
        OBSERVED,
        "compact",
        "include",
        12
    )
    .unwrap_err()
    .message()
    .starts_with("RESULT_TOO_LARGE:"));
}

#[test]
fn presenting_twice_is_presenting_once() {
    for tool in TOOLS {
        for view in ["compact", "comparison", "full"] {
            let once = apply(tool, example(tool), view).unwrap();
            assert_eq!(once.field("view").as_str(), Some(view));
            let detail = if view == "full" { "inline" } else { "journal" };
            assert_eq!(once.field("evidenceDetail").as_str(), Some(detail));
            let text = once.to_text();
            assert_eq!(apply(tool, once, view).unwrap().to_text(), text);
        }
    }
}
