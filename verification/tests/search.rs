use ozon_research::address::Address;
use ozon_research::json::Json;
use ozon_research::search::{
    annotate_price_range, facets, finish, normalize_search_url, paginator_url, prepare, Request,
    SearchArgs,
};

fn json(text: &str) -> Json {
    Json::parse(text).unwrap()
}

fn none() -> SearchArgs {
    SearchArgs {
        query: None,
        search_url: None,
        next_cursor: None,
        include_facets: None,
        sort: None,
        price_min: None,
        price_max: None,
        limit: 12,
    }
}

fn query(text: &str, limit: usize) -> SearchArgs {
    SearchArgs { query: Some(text.to_owned()), limit, ..none() }
}

fn at_url(url: &str) -> SearchArgs {
    SearchArgs { search_url: Some(url.to_owned()), ..none() }
}

fn continued(cursor: &Json, limit: usize) -> SearchArgs {
    SearchArgs { next_cursor: Some(cursor.as_str().unwrap().to_owned()), limit, ..none() }
}

fn page(ids: &[u64], next: Option<&str>) -> Json {
    let items: Vec<String> = ids
        .iter()
        .map(|id| {
            format!(
                r#"{{"sku":{id},"action":{{"link":"/product/test-{id}/"}},"mainState":[]}}"#
            )
        })
        .collect();
    let paginator = match next {
        Some(n) => format!(r#","infiniteVirtualPaginator-x":{{"nextPage":"{n}"}}"#),
        None => String::new(),
    };
    json(&format!(
        r#"{{"widgetStates":{{"tileGridDesktop-x":{{"items":[{}]}}{paginator}}}}}"#,
        items.join(",")
    ))
}

fn has_warning(result: &Json, code: &str) -> bool {
    result.field("warnings").as_array().unwrap().iter().any(|w| w.as_str() == Some(code))
}

fn text_parameter(url: &str) -> String {
    url::Url::parse(url).unwrap().query_pairs().find(|(k, _)| k == "text").unwrap().1.into_owned()
}

#[test]
fn urls_are_scoped_before_normalization() {
    for s in [
        "http://www.ozon.ru/search/",
        "https://ozon.ru/search/",
        "https://www.ozon.ru/product/x-1/",
        "https://www.ozon.ru/search/../search/",
        "https://www.ozon.ru/category/%2e%2e/search/",
        "https://www.ozon.ru/search/?text=a&text=b",
        "https://www.ozon.ru/search/#x",
        "https://www.ozon.ru/search/?action=buy",
        "https://www.ozon.ru//search/",
    ] {
        assert!(normalize_search_url(s).is_err(), "{s}");
    }
    assert_eq!(
        normalize_search_url(
            "https://www.ozon.ru/category/mice-123/brand-2/?__rr=1&search_page_state=abc&page=2"
        )
        .unwrap(),
        "https://www.ozon.ru/category/mice-123/brand-2/?search_page_state=abc&page=2"
    );
}

#[test]
fn input_modes_and_cursor_bounds() {
    assert!(prepare(&none()).is_err());
    assert!(prepare(&SearchArgs {
        query: Some("x".to_owned()),
        search_url: Some("https://www.ozon.ru/search/".to_owned()),
        ..none()
    })
    .is_err());
    assert!(prepare(&SearchArgs {
        query: Some("x".to_owned()),
        next_cursor: Some("{}".to_owned()),
        ..none()
    })
    .is_err());
    assert!(prepare(&SearchArgs { sort: Some("bad".to_owned()), ..query("x", 12) }).is_err());
    for r in [
        r#"{"version":2,"url":"https://www.ozon.ru/search/","offset":0,"seen":[],"calls":0}"#,
        r#"{"version":1,"url":"https://www.ozon.ru/search/","offset":10001,"seen":[],"calls":0}"#,
        r#"{"version":1,"url":"https://www.ozon.ru/search/","offset":0,"seen":["abc"],"calls":0}"#,
    ] {
        assert!(prepare(&SearchArgs { next_cursor: Some(r.to_owned()), ..none() }).is_err());
    }
}

#[test]
fn overflow_deduplicates_and_advances_only_consumed_cards() {
    let a = query("x", 2);
    let p = page(&[1, 1, 2, 3], Some("/search/?text=x&page=2"));
    let first = finish(&p, &a, prepare(&a).unwrap()).unwrap();
    assert_eq!(first.field("count").as_u64(), Some(2));
    assert_eq!(first.field("coverage").field("parsedOffsetEnd").as_u64(), Some(3));
    let a = continued(first.field("nextCursor"), 2);
    let second = finish(&p, &a, prepare(&a).unwrap()).unwrap();
    assert_eq!(second.field("count").as_u64(), Some(1));
    assert_eq!(second.field("items").as_array().unwrap()[0].field("sku").as_str(), Some("3"));
    let a = continued(second.field("nextCursor"), 2);
    let req = prepare(&a).unwrap();
    assert!(req.url.ends_with("page=2"));
    assert_eq!(req.offset, 0);
    let third = finish(&page(&[2, 4], Some("")), &a, req).unwrap();
    assert_eq!(third.field("count").as_u64(), Some(1));
    assert_eq!(third.field("hasNext").as_bool(), Some(false));
}

#[test]
fn continuation_caps_are_explicit() {
    let a = query("x", 2);
    let mut req: Request = prepare(&a).unwrap();
    req.seen = (1..500).map(|n| n.to_string()).collect();
    let r = finish(&page(&[500, 501], Some("/search/?page=2")), &a, req).unwrap();
    assert_eq!(r.field("count").as_u64(), Some(1));
    assert_eq!(r.field("hasNext").as_bool(), Some(true));
    assert!(r.field("nextCursor").is_null());
    assert!(has_warning(&r, "CONTINUATION_LIMIT_REACHED"));
}

#[test]
fn canonical_brand_refinements_and_stalled_paginator() {
    let p = json(
        r#"{"widgetStates":{"filtersDesktop-x":{"sections":[{"filters":[{"type":"checkboxesFilter","key":"brand","checkboxesFilter":{"sections":[{"items":[{"key":"1","title":{"text":"One"},"isSelected":true},{"key":"2","title":{"text":"Two"}}]}]}}]}]},"searchResultsFiltersActive-x":{"activeFilters":[{"key":"brand","activeValues":[{"title":"One","disableUri":"/category/mice-3/?text=x"}]}]}}}"#,
    );
    let f = facets(&p, "https://www.ozon.ru/category/mice-3/one-1/?text=x");
    let options = f.field("items").as_array().unwrap()[0].field("options");
    let options = options.as_array().unwrap();
    assert_eq!(
        options[0].field("searchUrl").as_str(),
        Some("https://www.ozon.ru/category/mice-3/?text=x")
    );
    let add = options[1].field("searchUrl").as_str().unwrap();
    assert!(!add.contains("one-1"));
    assert!(add.contains("brand=1%2C2"));
    let a = at_url("https://www.ozon.ru/search/?text=x");
    let r = finish(&page(&[1], Some("/search/?text=x")), &a, prepare(&a).unwrap()).unwrap();
    assert!(r.field("nextCursor").is_null());
    assert!(has_warning(&r, "CONTINUATION_STALLED"));
}

#[test]
fn paginator_transport_is_removed_but_semantic_state_retained() {
    let result = paginator_url("/category/mice-1/?page=2&search_page_state=abc&start_page_id=def&brand=123&sorting=price&paginator_token=fragment&layout_page_index=2&layout_container=grid").unwrap();
    assert_eq!(
        result,
        "https://www.ozon.ru/category/mice-1/?page=2&search_page_state=abc&start_page_id=def&brand=123&sorting=price"
    );
    assert!(
        normalize_search_url("https://www.ozon.ru/search/?page=2&paginator_token=observed")
            .unwrap()
            .contains("paginator_token")
    );
}

#[test]
fn maximum_unicode_query_roundtrips_through_cursor() {
    for text in ["я".repeat(2000), "界".repeat(2000), "😀".repeat(1000)] {
        let a = query(&text, 1);
        let req = prepare(&a).unwrap();
        assert_eq!(text_parameter(&req.url), text);
        let response = finish(&page(&[1, 2], None), &a, req).unwrap();
        let next = continued(response.field("nextCursor"), 1);
        let req = prepare(&next).unwrap();
        assert_eq!(req.offset, 1);
        assert_eq!(text_parameter(&req.url), text);
    }
}

#[test]
fn only_explicit_empty_paginator_proves_exhaustion() {
    let a = query("x", 12);
    for paginator in ["{}", r#"{"nextPage":null}"#, r#"{"nextPage":42}"#, r#"{"nextPage":[]}"#] {
        let p = json(&format!(
            r#"{{"widgetStates":{{"tileGridDesktop-x":{{"items":[{{"sku":1,"action":{{"link":"/product/test-1/"}},"mainState":[]}}]}},"infiniteVirtualPaginator-x":{paginator}}}}}"#
        ));
        let r = finish(&p, &a, prepare(&a).unwrap()).unwrap();
        assert!(r.field("hasNext").is_null());
    }
    let r = finish(&page(&[1], Some("")), &a, prepare(&a).unwrap()).unwrap();
    assert_eq!(r.field("hasNext").as_bool(), Some(false));
}

#[test]
fn displayed_prices_are_checked_without_filtering_or_reordering() {
    let mut products = vec![
        json(r#"{"sku":"1","price":99}"#),
        json(r#"{"price":100}"#),
        json(r#"{"price":200}"#),
        json(r#"{"price":201}"#),
        json(r#"{"price":null}"#),
    ];
    let u =
        Address::parse("https://www.ozon.ru/search/?currency_price=100.000;200.000").unwrap();
    assert!(annotate_price_range(&mut products, &u));
    let notes: Vec<Option<bool>> =
        products.iter().map(|p| p.field("matchesPriceRange").as_bool()).collect();
    assert_eq!(notes, vec![Some(false), Some(true), Some(true), Some(false), None]);
    assert!(products[4].get("matchesPriceRange").unwrap().is_null());
    assert_eq!(products[0].field("sku").as_str(), Some("1"));
    assert_eq!(products.len(), 5);
    for url in [
        "https://www.ozon.ru/search/",
        "https://www.ozon.ru/search/?currency_price=broken",
        "https://www.ozon.ru/search/?currency_price=NaN;200",
    ] {
        assert!(!annotate_price_range(&mut products, &Address::parse(url).unwrap()));
        assert!(products.iter().all(|p| p.get("matchesPriceRange").unwrap().is_null()));
    }
}

#[test]
fn native_score_sort_has_public_popular_alias() {
    let a = at_url("https://www.ozon.ru/search/?sorting=score");
    let r = finish(&page(&[1], None), &a, prepare(&a).unwrap()).unwrap();
    assert_eq!(r.field("sort").as_str(), Some("popular"));
    assert_eq!(
        r.field("searchUrl").as_str(),
        Some("https://www.ozon.ru/search/?sorting=score")
    );
}

#[test]
fn missing_metadata_is_unknown() {
    let a = query("x", 12);
    let result = finish(&page(&[1], None), &a, prepare(&a).unwrap()).unwrap();
    assert!(result.field("hasNext").is_null());
    assert!(result.field("total").is_null());
    assert!(result.field("facets").is_null());
}

#[test]
fn observed_facets_preserve_selection_and_reset_paging() {
    let p = json(
        r#"{"widgetStates":{"filtersDesktop-x":{"sections":[{"filters":[{"type":"checkboxesFilter","key":"brand","checkboxesFilter":{"title":"Brand","sections":[{"items":[{"key":"1","title":{"text":"One"},"isSelected":true},{"key":"2","title":{"text":"Two"}}]}]}},{"type":"boolFilter","key":"is_promo","boolFilter":{"title":"Promo"}}]}]}}}"#,
    );
    let f = facets(
        &p,
        "https://www.ozon.ru/search/?text=x&brand=1&page=2&search_page_state=secret",
    );
    let items = f.field("items").as_array().unwrap();
    let u = items[0].field("options").as_array().unwrap()[1].field("searchUrl").as_str().unwrap();
    assert!(u.contains("brand=1%2C2"));
    assert!(!u.contains("page"));
    assert!(items[1].field("searchUrl").as_str().unwrap().contains("is_promo=true"));
}

#[test]
fn normalized_urls_are_normalized_already() {
    for (input, expected) in [
        (
            "https://www.ozon.ru/search/?text=a%20b&__rr=1&page=2",
            "https://www.ozon.ru/search/?text=a+b&page=2",
        ),
        (
            "https://www.ozon.ru/category/mice-1/?brand=%D1%8F&at=x",
            "https://www.ozon.ru/category/mice-1/?brand=%D1%8F",
        ),
        ("https://www.ozon.ru/search/", "https://www.ozon.ru/search/"),
    ] {
        let once = normalize_search_url(input).unwrap();
        assert_eq!(once, expected);
        assert_eq!(normalize_search_url(&once).unwrap(), once);
    }
}

#[test]
fn prepared_paths_are_prepared_to_themselves() {
    for args in [
        query("мышь & co", 5),
        SearchArgs { price_min: Some(100), price_max: Some(200), ..query("x", 5) },
        at_url("https://www.ozon.ru/category/mice-1/?brand=123&__rr=1"),
    ] {
        let first = prepare(&args).unwrap();
        let again = prepare(&at_url(&format!("https://www.ozon.ru{}", first.path()))).unwrap();
        assert_eq!(again.path(), first.path());
        assert_eq!(again.url, first.url);
    }
}

#[test]
fn cursor_names_that_occur_twice_are_refused() {
    let cursor = |extra: &str| SearchArgs {
        next_cursor: Some(format!(
            r#"{{"version":1,"url":"https://www.ozon.ru/search/?text=x","offset":0,"seen":[],"calls":0{extra}}}"#
        )),
        ..none()
    };
    assert!(prepare(&cursor("")).is_ok());
    assert!(prepare(&cursor(r#","offset":0"#)).is_err());
    assert!(prepare(&cursor(r#","\u006fffset":0"#)).is_err());
    assert!(prepare(&cursor(r#","seen":["1"]"#)).is_err());
    assert!(prepare(&cursor(r#","other":1"#)).is_err());
}

#[test]
fn requests_of_any_making_are_read_as_they_stand() {
    let request = |url: &str, seen: &[&str]| Request {
        version: 1,
        url: url.to_owned(),
        offset: 0,
        seen: seen.iter().map(|s| s.to_string()).collect(),
        calls: 0,
    };
    let twice = "https://www.ozon.ruhttps://www.ozon.ru/search/";
    assert_eq!(request(twice, &[]).path(), "/search/");
    assert_eq!(request("/search/", &[]).path(), "/search/");
    let a = query("x", 5);
    let seen = request("https://www.ozon.ru/search/?text=x", &["1", "2", "1"]);
    let result = finish(&page(&[1, 3], None), &a, seen).unwrap();
    assert_eq!(result.field("count").as_u64(), Some(1));
    assert_eq!(result.field("coverage").field("uniqueSeen").as_u64(), Some(3));
}
