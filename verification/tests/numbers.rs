use ozon_research::double::{
    nearest_bits, number_real, order_of, scaled_integer_part, scaled_to_integer, sum, Real,
};
use ozon_research::json::{Json, Number};
use ozon_research::parse::{
    clean_url, count_from_value, image_url, normalize_sku, parse_description, parse_details,
    parse_duty, parse_localized_number, parse_review_count, parse_reviews, parse_search_item,
    parse_search_items, price_to_number, rating_from_value,
};

fn json(text: &str) -> Json {
    Json::parse(text).unwrap()
}

fn value(r: Option<Real>) -> Option<f64> {
    r.map(|r| f64::from_bits(r.bits))
}

fn page(widget: &str, state: &str) -> Json {
    Json::object().with(
        "widgetStates",
        Json::object().with(&format!("{widget}-1-default-1"), Json::text(state)),
    )
}

#[test]
fn integers_have_nearest_doubles() {
    for n in [
        0,
        1,
        3,
        1_000_000,
        (1 << 53) - 1,
        1 << 53,
        (1 << 53) + 1,
        (1 << 53) + 3,
        (1 << 54) + 2,
        u64::MAX / 3,
        u64::MAX - 1024,
        u64::MAX - 1023,
        u64::MAX,
    ] {
        assert_eq!(nearest_bits(n), (n as f64).to_bits(), "{n}");
    }
}

#[test]
fn products_are_rounded_as_doubles() {
    for number in [0.0, 0.5, 1.4999999, 2.5, 1.2, 4.35, 1e-300, 5e-324, 123456.789, 9e15, 1e300] {
        for factor in [1u64, 1_000, 1_000_000] {
            let scaled: f64 = number * factor as f64;
            assert_eq!(scaled_to_integer(f64::to_bits(number), factor), scaled.round() as u64);
            assert_eq!(scaled_integer_part(f64::to_bits(number), factor), scaled as i64);
        }
    }
}

#[test]
fn sums_are_those_of_doubles() {
    for (a, b) in [("0.1", "0.2"), ("4999", "123.45"), ("1e16", "1"), ("0", "7.5"), ("1e300", "1e-300")]
    {
        let read = |text: &str| price_to_number(Some(&json(text))).unwrap();
        let expected = a.parse::<f64>().unwrap() + b.parse::<f64>().unwrap();
        let shown = sum(&read(a), &read(b)).unwrap();
        assert_eq!(shown.bits, expected.to_bits());
        assert_eq!(shown.spelling, json(&format!("{expected:e}")).to_text());
    }
}

#[test]
fn doubles_have_places_in_order() {
    let numbers: [f64; 6] = [-2.0, -0.5, 0.0, 1e-310, 0.25, 3.0];
    for pair in numbers.windows(2) {
        assert!(order_of(pair[0].to_bits()) < order_of(pair[1].to_bits()));
    }
    assert_eq!(order_of((-0.0f64).to_bits()), order_of(0.0f64.to_bits()));
    assert_eq!(value(number_real(&Number::Negative(-7))), Some(-7.0));
    assert_eq!(value(number_real(&Number::Unsigned(7))), Some(7.0));
}

#[test]
fn localized_numbers_are_read() {
    let read = |text: &str| value(parse_localized_number(text));
    assert_eq!(read("1 234"), Some(1234.0));
    assert_eq!(read("1\u{a0}234,5"), Some(1234.5));
    assert_eq!(read("1.234,56"), Some(1234.56));
    assert_eq!(read("1,234.56"), Some(1234.56));
    assert_eq!(read("1.234"), Some(1234.0));
    assert_eq!(read("12,5"), Some(12.5));
    assert_eq!(read("-4,5"), Some(-4.5));
    assert_eq!(read("+7"), Some(7.0));
    assert_eq!(read("12345,678"), None);
    assert_eq!(read("1,2,3"), None);
    assert_eq!(read("abc"), None);
    assert_eq!(read(""), None);
    let price = |text: &str| value(price_to_number(Some(&json(text))));
    assert_eq!(price("\"4 999 ₽\""), Some(4999.0));
    assert_eq!(price("12.5"), Some(12.5));
    assert_eq!(price("-1"), None);
    assert_eq!(price("\"-1 ₽\""), None);
    assert_eq!(price("true"), None);
    assert_eq!(value(price_to_number(None)), None);
}

#[test]
fn counts_are_scaled() {
    let count = |text: &str| count_from_value(Some(&json(text)));
    assert_eq!(count("17"), Some(17));
    assert_eq!(count("2.5"), Some(3));
    assert_eq!(count("-1"), None);
    assert_eq!(count("\"1,2 тыс.\""), Some(1200));
    assert_eq!(count("\"3 млн\""), Some(3_000_000));
    assert_eq!(count("\"5k\""), Some(5000));
    assert_eq!(count("\"5K\""), Some(5000));
    assert_eq!(count("\"2 ТЫС\""), Some(2000));
    assert_eq!(count("\"5 apples\""), None);
    let reviews = |text: &str| parse_review_count(Some(&Json::text(text)));
    assert_eq!(reviews("4.8 • 1 234 отзыва"), Some(1234));
    assert_eq!(reviews("2,1 тыс. отзывов"), Some(2100));
    assert_eq!(reviews("no number"), None);
}

#[test]
fn ratings_are_at_most_five() {
    let rating = |text: &str| value(rating_from_value(Some(&json(text))));
    assert_eq!(rating("4.7"), Some(4.7));
    assert_eq!(rating("5.1"), None);
    assert_eq!(rating("\"4,8\""), Some(4.8));
    assert_eq!(rating("\"Оценка 4,5 из 5\""), Some(4.5));
    assert_eq!(rating("\"3 отзыва\""), None);
    assert_eq!(rating("{\"value\":3}"), Some(3.0));
    assert_eq!(rating("{\"text\":\"4.1\",\"value\":3}"), Some(4.1));
    assert_eq!(rating("[4]"), None);
}

#[test]
fn articles_and_addresses_are_cleaned() {
    let sku = |text: &str| normalize_sku(Some(&json(text)));
    assert_eq!(sku("12").as_deref(), Some("12"));
    assert_eq!(sku("\" 12 \"").as_deref(), Some("12"));
    assert_eq!(sku("-1"), None);
    assert_eq!(sku("\"1a\""), None);
    let clean = |text: &str| clean_url(Some(&Json::text(text)));
    assert_eq!(
        clean(" /product/x-1/?at=2#top ").as_deref(),
        Some("https://www.ozon.ru/product/x-1/")
    );
    assert_eq!(clean("http://OZON.ru/a/").as_deref(), Some("https://www.ozon.ru/a/"));
    assert_eq!(clean("https://example.com/a/"), None);
    assert_eq!(clean("javascript:1"), None);
    assert_eq!(clean(" "), None);
    let image = |text: &str| image_url(Some(&json(text)));
    assert_eq!(image("\" a \"").as_deref(), Some("a"));
    assert_eq!(image("{\"link\":\"b\",\"url\":\"c\"}").as_deref(), Some("b"));
    assert_eq!(image("{\"src\":{\"url\":\"c\"}}").as_deref(), Some("c"));
    assert_eq!(image("\"\""), None);
}

const TILE: &str = r#"{"sku":77,"action":{"link":"/product/lamp-77/?x=1"},"tileImage":{"items":[{"image":{}},{"image":{"link":"https://ir.ozone.ru/a.jpg"}}]},"mainState":[
    {"type":"priceV2","priceV2":{"price":[{"textStyle":"PRICE","text":"1 000 ₽"},{"textStyle":"ORIGINAL_PRICE","text":"1 500 ₽"}],"discount":" −33% ","priceStyle":{"styleType":"CARD_PRICE"}}},
    {"id":"name","textDS":{"text":" Desk   lamp "}},
    {"labelListV2":{"items":[{"type":"icon","image":"ic_s_star_filled"},{"type":"text","text":{"text":"4.9"}},{"type":"text","text":{"text":"1 234 отзыва"}}]}},
    {"labelListV2":{"testInfo":{"automatizationId":"tile-list-labels"},"items":[{"type":"text","text":"Acme"},{"type":"text","text":"бренд проверен"}]}}
]}"#;

#[test]
fn tiles_become_search_items() {
    let item = parse_search_item(&json(TILE)).unwrap();
    assert_eq!(item.sku, "77");
    assert_eq!(item.name.as_deref(), Some("Desk lamp"));
    assert_eq!(value(item.price), Some(1000.0));
    assert_eq!(value(item.old_price), Some(1500.0));
    assert_eq!(item.price_label.as_deref(), Some("Цена с Ozon Картой"));
    assert_eq!(value(item.rating), Some(4.9));
    assert_eq!(item.reviews, Some(1234));
    assert_eq!(item.brand.as_deref(), Some("Acme"));
    assert_eq!(item.url.as_deref(), Some("https://www.ozon.ru/product/lamp-77/"));
    assert_eq!(item.image.as_deref(), Some("https://ir.ozone.ru/a.jpg"));
    assert_eq!(item.matches_price_range, None);
    let shown = parse_search_item(&json(TILE)).unwrap().to_json();
    assert_eq!(shown.field("discount").as_str(), Some("−33%"));
    assert!(shown.get("matchesPriceRange").is_none());
    let mut judged = parse_search_item(&json(TILE)).unwrap();
    judged.matches_price_range = Some(None);
    assert!(judged.to_json().get("matchesPriceRange").unwrap().is_null());
    judged.matches_price_range = Some(Some(true));
    assert_eq!(judged.to_json().field("matchesPriceRange").as_bool(), Some(true));
    assert!(parse_search_item(&json("{}")).is_none());
    assert!(parse_search_item(&json("[]")).is_none());

    let grid = page("tileGridDesktop", &format!(r#"{{"items":[{TILE},{{}},1]}}"#));
    assert_eq!(parse_search_items(&grid).len(), 1);
}

#[test]
fn descriptions_are_plain_text() {
    let html = r#"{"richAnnotation":"<p>One &amp; <b>two</b>&#33;&#x21;&bogus;</p><script>no()</script><style>p{}</style><!-- no --><img alt='' src=\"https://ir.ozone.ru/d.jpg\"><img class=a src=https://ir.ozone.ru/d.jpg>"}"#;
    let shown = parse_description(&page("webDescription", html));
    assert_eq!(shown.text, "One & two !!&bogus;");
    assert_eq!(shown.images, ["https://ir.ozone.ru/d.jpg"]);
    assert!(shown.has_text());
    let rich = r#"{"richAnnotationJson":{"content":[{"type":"text","content":" Hello "},{"img":{"src":"x"}},{"type":"image","attrs":{"src":"y"}}]},"richAnnotation":"<p>ignored</p>"}"#;
    let shown = parse_description(&page("webDescription", rich));
    assert_eq!(shown.text, "Hello");
    assert_eq!(shown.images, ["x", "y"]);
    assert!(!parse_description(&Json::object()).has_text());
}

#[test]
fn details_are_read_from_their_widgets() {
    let states = Json::object()
        .with("webProductHeading-1", Json::text(r#"{"title":"Lamp"}"#))
        .with(
            "webPrice-1",
            Json::text(r#"{"isAvailable":true,"cardPrice":"900 ₽","price":"1 000 ₽","originalPrice":"1 500 ₽"}"#),
        )
        .with(
            "webGallery-1",
            Json::text(r#"{"sku":"77","coverImage":"a","images":[{"src":"a"},{"src":"b"},"c"]}"#),
        )
        .with(
            "webIconWithText-1",
            Json::text(r#"{"text":"пошлина 100,50 ₽"}"#),
        )
        .with(
            "webCurrentSeller-1",
            Json::text(r#"{"sellerCell":{"centerBlock":{"title":{"text":"Shop"}},"common":{"action":{"link":"/seller/shop-1/"}}},"rating":{"title":"4,9"}}"#),
        )
        .with(
            "webShortCharacteristics-1",
            Json::text(r#"{"characteristics":[{"title":{"textRs":[{"content":"Color"}]},"values":[{"text":"red"},{"text":"blue"}]},{"title":"Empty"}]}"#),
        )
        .with(
            "webSingleProductScore-1",
            Json::text(r#"{"text":"4.8 • 1 234 отзыва"}"#),
        );
    let base = Json::object().with("widgetStates", states);
    assert_eq!(value(parse_duty(&base)), Some(100.5));
    let shown = parse_details(&base, None);
    assert_eq!(shown.sku.as_deref(), Some("77"));
    assert_eq!(shown.name.as_deref(), Some("Lamp"));
    assert_eq!(shown.url.as_deref(), Some("https://www.ozon.ru/product/77/"));
    assert_eq!(shown.available, Some(true));
    assert_eq!(shown.images, ["a", "b", "c"]);
    assert_eq!(shown.reviews, Some(1234));
    assert_eq!(shown.characteristics.field("Color").as_str(), Some("red blue"));
    let shown = shown.to_json();
    assert_eq!(shown.field("duty").field("total").to_text(), "1000.5");
    assert_eq!(shown.field("duty").field("note").as_str(), Some("пошлина не входит в цену"));
    assert_eq!(
        shown.field("seller").field("url").as_str(),
        Some("https://www.ozon.ru/seller/shop-1/")
    );
    assert_eq!(shown.field("seller").field("rating").to_text(), "4.9");
    assert!(shown.get("warnings").is_none());
}

#[test]
fn reviews_are_read_up_to_a_limit() {
    let state = r#"{"reviews":[
        {"author":{"firstName":"A","lastName":"B"},"content":{"score":5,"comment":"ok","photos":[{}]},"publishedAt":0,"usefulness":{"useful":3},"isItemPurchased":true},
        7,
        {"isAnonymous":true,"content":{"score":"4"},"createdAt":"x"},
        {"content":{"score":3}}
    ]}"#;
    let shown = parse_reviews(&page("webListReviews", state), 2);
    assert_eq!(shown.count, 2);
    assert_eq!(shown.reviews[0].author.as_deref(), Some("A B"));
    assert_eq!(shown.reviews[0].useful, Some(3));
    assert_eq!(shown.reviews[0].purchased, Some(true));
    assert_eq!(shown.reviews[0].has_photos, Some(true));
    assert!(shown.reviews[0].date.as_deref().unwrap().starts_with("1970-01-01"));
    assert_eq!(shown.reviews[1].author.as_deref(), Some("Аноним"));
    assert_eq!(shown.reviews[1].date, None);
    assert_eq!(parse_reviews(&Json::object(), 5).count, 0);
}
