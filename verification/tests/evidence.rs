use ozon_research::config::{check_spelling, Config};
use ozon_research::contracts::{
    definitions, failure, tool_names, validate_input, validate_output, Contract,
};
use ozon_research::evidence::{
    canonical_source_url, enum_value, envelope, envelope_evidence, error_code, failure_from_chain,
    observed_evidence, safe_message, Cause,
};
use ozon_research::failure::Failure;
use ozon_research::gateway::{
    after_base, after_supplement, ensure_not_cancelled, needs_product_supplement, product_path,
    reviews_path, start_reviews, CapabilityObservations,
};
use ozon_research::json::{Json, Number};
use ozon_research::parse;
use ozon_research::response::{bounded_value, serialized_utf16_len, MAX_RESULT_UNITS};

fn json(text: &str) -> Json {
    Json::parse(text).unwrap()
}

#[test]
fn canonical_url_drops_private_navigation_state() {
    assert_eq!(
        canonical_source_url("https://www.ozon.ru/product/a/?tracking=x#reviews").as_deref(),
        Some("https://www.ozon.ru/product/a/")
    );
    assert!(canonical_source_url("https://evil.example/product/a").is_none());
}

#[test]
fn canonical_urls_name_no_one() {
    assert_eq!(
        canonical_source_url("https://u:p@www.ozon.ru/product/a/?x=1#top").as_deref(),
        Some("https://www.ozon.ru/product/a/")
    );
    assert!(canonical_source_url("not a url").is_none());
}

#[test]
fn envelope_evidence_removes_private_facts() {
    let value = envelope_evidence(json(r#"{"evidenceRef":"e","facts":[1],"fieldPaths":[""]}"#));
    assert!(value.get("facts").is_none());
}

#[test]
fn envelopes_show_evidence_without_facts() {
    let evidence = vec![json(r#"{"evidenceRef":"e","facts":[1]}"#)];
    let shown = envelope(Some("r"), Json::Null, &Json::object(), evidence, vec![], "t");
    assert_eq!(shown.field("evidence").to_text(), r#"[{"evidenceRef":"e"}]"#);
    assert_eq!(shown.field("schemaVersion").as_str(), Some("1"));
    assert_eq!(shown.field("researchId").as_str(), Some("r"));
    assert_eq!(shown.field("observedAt").as_str(), Some("t"));
}

#[test]
fn storage_full_is_detected_through_error_chains() {
    let error = failure_from_chain(
        "write research event",
        &vec![Cause::Other, Cause::Sqlite { disk_full: true }],
    );
    assert_eq!(error_code(&error), "STORAGE_FULL");

    let error = failure_from_chain(
        "persist research",
        &vec![Cause::Other, Cause::Io { os_error: Some(28) }],
    );
    assert_eq!(error_code(&error), "STORAGE_FULL");
    let error = failure_from_chain("x", &vec![Cause::Io { os_error: Some(2) }, Cause::Other]);
    assert_eq!(error_code(&error), "SOURCE_CHANGED");
}

#[test]
fn messages_tell_their_code() {
    assert_eq!(error_code(&Failure::new("CONTEXT_CHANGED: moved")), "CONTEXT_CHANGED");
    assert_eq!(error_code(&Failure::new("moved")), "SOURCE_CHANGED");
    assert_eq!(safe_message(&Failure::new("CONTEXT_CHANGED: moved")), "moved");
}

#[test]
fn evidence_names_its_source() {
    let e = observed_evidence(
        Some("https://www.ozon.ru/product/a/?x=1"),
        "c",
        None,
        &["/title"],
        json("[]"),
        "t",
    );
    assert_eq!(
        e.to_text(),
        r#"{"contextId":"c","facts":[],"fieldPaths":["/title"],"observedAt":"t","sku":null,"sourceKind":"ozon_page","sourceUrl":"https://www.ozon.ru/product/a/"}"#
    );
    let raw = json(r#"{"a":"x","b":"z"}"#);
    assert_eq!(enum_value(&raw, "a", &["x", "y"], "y").as_str(), Some("x"));
    assert_eq!(enum_value(&raw, "b", &["x", "y"], "y").as_str(), Some("y"));
}

#[test]
fn measures_the_serialized_wire_format_in_utf16() {
    for (text, units) in [("a", 1), ("я", 1), ("😀", 2), ("\n", 2)] {
        assert_eq!(serialized_utf16_len(&Json::text(text)), units + 2);
    }
}

#[test]
fn accepts_exact_limit_and_rejects_overflow_without_truncating() {
    for character in ["a", "я", "😀"] {
        let width = character.encode_utf16().count();
        let value = |text: &str| Json::object().with("text", Json::text(text));
        let overhead = serialized_utf16_len(&value("")) as usize;
        let whole = value(&character.repeat((MAX_RESULT_UNITS - overhead) / width));
        assert_eq!(bounded_value(&whole).unwrap().to_text(), whole.to_text());
        let too_large = value(&character.repeat((MAX_RESULT_UNITS - overhead) / width + 1));
        assert!(bounded_value(&too_large).is_err());
    }
}

#[test]
fn rejects_long_socket_path_with_actionable_error() {
    let root = format!("/tmp/{}", "x".repeat(110));
    let error = Config::at(root).unwrap_err();
    assert!(error.message().contains("OZON_DATA_DIR"));
}

#[test]
fn fixed_paths_stand_below_the_root() {
    let config = Config::at("/nested/data".to_owned()).unwrap();
    assert_eq!(config.profile, "/nested/data/browser-profile");
    assert_eq!(config.socket, "/nested/data/broker.sock");
    for (root, profile, socket, part) in [
        ("data", "/p", "/data/b", "OZON_DATA_DIR must be absolute"),
        ("/data", "p", "/data/b", "OZON_USER_DATA_DIR must be absolute"),
        ("/data", "/p", "b", "OZON_BROKER_SOCKET must be absolute"),
        ("/data/../x", "/p", "/data/b", "OZON_DATA_DIR must not contain '..'"),
    ] {
        let error = check_spelling(root, profile, socket).unwrap_err();
        assert!(error.message().contains(part), "{}", error.message());
    }
    let elsewhere =
        Config::new("/data".to_owned(), "/p".to_owned(), "/data/x/b.sock".to_owned());
    assert!(elsewhere.unwrap_err().message().contains("directly inside OZON_DATA_DIR"));
}

#[test]
fn valid_description_does_not_skip_customs_supplement() {
    let base = json(
        r#"{"widgetStates":{"webDescription-0":{"richAnnotation":"<p>Real product description</p>"}}}"#,
    );
    assert!(needs_product_supplement(&base));
    let secondary = json(
        r#"{"widgetStates":{"webIconWithText-duty":{"title":"Таможенная пошлина", "text":"1 737 ₽ при получении"}}}"#,
    );
    let duty = parse::parse_details(&base, Some(&secondary)).duty.unwrap();
    assert_eq!(f64::from_bits(duty.amount.bits), 1737.0);
    let both = json(
        r#"{"widgetStates":{"webDescription-0":{"richAnnotation":"<p>Real product description</p>"},"webIconWithText-duty":{"title":"Таможенная пошлина", "text":"1 737 ₽ при получении"}}}"#,
    );
    assert!(!needs_product_supplement(&both));
}

#[test]
fn product_and_review_navigation_stays_on_public_product_routes() {
    assert_eq!(product_path("901").unwrap(), "/product/901/");
    assert_eq!(
        product_path("https://www.ozon.ru/product/example-901/?tracking=discard").unwrap(),
        "/product/example-901/"
    );
    assert_eq!(
        reviews_path("/product/example-901/reviews/?page=2").unwrap(),
        "/product/example-901/reviews/?page=2"
    );
    assert_eq!(
        reviews_path("/product/example-901/reviews/?page=2&page_key=TOKEN_1&reviewsVariantMode=2&sort=score_desc").unwrap(),
        "/product/example-901/reviews/?page=2&page_key=TOKEN_1&reviewsVariantMode=2&sort=score_desc"
    );
    for invalid in [
        "https://example.test/product/901/",
        "https://www.ozon.ru@127.0.0.1/product/901/",
        "/product/901/reviews/?redirect=https://example.test",
        "/product/901/reviews/?page=2#private",
    ] {
        assert!(
            if invalid.contains("/reviews/") && invalid.starts_with('/') {
                reviews_path(invalid)
            } else {
                product_path(invalid)
            }
            .is_err(),
            "accepted unsafe navigation {invalid}"
        );
    }
}

#[test]
fn image_content_observation_resets_when_context_signature_changes() {
    let mut observed = CapabilityObservations::default();
    observed.update_context_signature(Json::text("context-a"));
    observed.mark_image_content_available();
    observed.update_context_signature(Json::text("context-a"));
    assert!(observed.observed.image_content);
    observed.update_context_signature(Json::text("context-b"));
    assert!(!observed.observed.image_content);
}

#[test]
fn supplements_are_fetched_where_they_are_needed() {
    let bare = json(r#"{"widgetStates":{}}"#);
    assert!(after_base("/product/1/", &bare, false).unwrap().unwrap().starts_with("/product/1/?"));
    assert!(after_base("/product/1/", &bare, true).is_err());
    assert!(after_supplement(Err(Failure::new("x")), true).is_err());
    assert!(ensure_not_cancelled(false).is_ok());
    assert!(ensure_not_cancelled(true).is_err());
    assert!(start_reviews("/product/1/reviews/", 0, false).is_err());
}

fn published(name: &str, input: &str) -> Vec<Contract> {
    vec![Contract { name: name.to_owned(), input: json(input), output: json(r#"{"type":"object"}"#) }]
}

const PRODUCTS: &str = r##"{
    "type": "object",
    "required": ["products"],
    "additionalProperties": false,
    "properties": {
        "products": {"type": "array", "minItems": 1, "items": {"oneOf": [
            {"type": "object", "required": ["sku"], "additionalProperties": false, "properties": {"sku": {"type": "string", "pattern": "^[0-9]+$"}}},
            {"type": "object", "required": ["cursor"], "additionalProperties": false, "properties": {"cursor": {"type": "string"}}}
        ]}},
        "include": {"type": "array", "items": {"enum": ["characteristics", "description", "variants", "offers", "images"]}},
        "view": {"enum": ["brief", "compact", "full"]}
    },
    "if": {"properties": {"products": {"contains": {"required": ["cursor"]}}}},
    "then": {"not": {"required": ["include"]}}
}"##;

#[test]
fn products_invalid_arguments_explain_path_reason_and_expected_shape() {
    let contracts = published("ozon_get_products", PRODUCTS);
    let refused = |args: &str| {
        validate_input(&contracts, "ozon_get_products", &json(args)).unwrap_err().message()
    };
    let missing = refused(r#"{"productRefs":["ref"]}"#);
    assert!(missing.contains("/products"), "{missing}");
    assert!(missing.contains("required"), "{missing}");
    assert!(missing.contains("expected"), "{missing}");

    let wrong_start = refused(r#"{"start":{"productRefs":["ref"]}}"#);
    assert!(wrong_start.contains("/products"), "{wrong_start}");

    let cursor_include = refused(r#"{"products":[{"cursor":"secret-cursor"}],"include":["variants"]}"#);
    assert!(cursor_include.contains("/include"), "{cursor_include}");
    assert!(!cursor_include.contains("secret-cursor"), "{cursor_include}");

    let bad_section = refused(r#"{"products":[{"sku":"123"}],"include":["private-section"]}"#);
    assert!(bad_section.contains("/include/0"), "{bad_section}");
    assert!(bad_section.contains("variants"), "{bad_section}");
    assert!(!bad_section.contains("private-section"), "{bad_section}");
    assert!(validate_input(&contracts, "ozon_get_products", &json(r#"{"products":[{"sku":"123"}]}"#)).is_ok());
}

#[test]
fn results_are_held_to_their_schema() {
    let contracts = published("ozon_search", r#"{"type":"object"}"#);
    assert!(validate_output(&contracts, "ozon_search", &json("{}")).is_ok());
    let error = validate_output(&contracts, "ozon_search", &json("[]")).unwrap_err().message();
    assert!(error.starts_with("SOURCE_CHANGED: output contract failed at "), "{error}");
    assert!(validate_output(&contracts, "other", &json("{}")).is_err());
    assert!(validate_input(&contracts, "other", &json("{}")).is_err());
}

#[test]
fn failure_is_text_not_success_content() {
    let reply = failure("SOURCE_BLOCKED", "Ozon requires a manual check", None);
    assert!(reply.error);
    assert!(reply.structured.is_none());
    assert!(reply.images.is_empty());
    let value = json(reply.text.as_deref().unwrap());
    let text = value.to_text();
    assert!(text.contains("SOURCE_BLOCKED"));
    assert!(text.contains("Ozon requires a manual check"));
}

#[test]
fn tools_are_announced_with_their_schemas() {
    assert_eq!(tool_names().len(), 8);
    let contracts = published("ozon_get_products", PRODUCTS);
    let tools = definitions(&contracts);
    assert_eq!(tools.len(), 1);
    assert_eq!(tools[0].name, "ozon_get_products");
    assert_eq!(tools[0].input.field("type").as_str(), Some("object"));
    assert_eq!(tools[0].input.field("required").to_text(), r#"["products"]"#);
    assert!(!tools[0].destructive);
}

#[test]
fn decimal_numbers_are_the_nearest_doubles() {
    for text in [
        "0.1", "1e300", "5e-324", "2.2250738585072014e-308", "0.3", "-0.0",
        "1.7976931348623157e308", "4.35", "123456789012345678901234567890",
    ] {
        let expected: f64 = text.parse().unwrap();
        match json(text) {
            Json::Number(Number::Real { bits, .. }) => assert_eq!(bits, expected.to_bits(), "{text}"),
            _ => panic!(),
        }
    }
    assert!(Json::parse("x").is_none());
}
