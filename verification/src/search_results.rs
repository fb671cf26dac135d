//! Search observations as public data.

use crate::evidence;
use crate::failure::{Failure, FailureV};
use crate::json::{self, Json, JsonV};
use crate::ledger::{Ledger, LedgerV};
use crate::marketplace::{self, Normalized, NormalizedV};
use crate::text;
use crate::widgets;
use vstd::prelude::*;

verus! {

/// The prices of a search item: the one that it shows, if it shows one.
pub open spec fn search_prices_of(item: JsonV, ev: Seq<char>) -> Seq<JsonV> {
    match marketplace::minor_units(item.field("price"@)) {
        None => Seq::empty(),
        Some(v) => seq![
            marketplace::price_of(
                v,
                evidence::enum_text(
                    item,
                    "priceType"@,
                    seq!["ozon_card"@, "regular"@, "unknown"@],
                    "unknown"@,
                ),
                item.field("priceLabel"@).as_text(),
                ev,
            ),
        ],
    }
}

fn search_prices(item: &Json, ev: &str) -> (r: Vec<Json>)
    ensures
        json::values(r@) == search_prices_of(item@, ev@),
{
    let mut out: Vec<Json> = Vec::new();
    assert(json::values(out@) =~= Seq::empty());
    if let Some(v) = marketplace::money(item.field("price")) {
        let kinds: [&str; 3] = ["ozon_card", "regular", "unknown"];
        assert(widgets::slices(kinds@) =~= seq!["ozon_card"@, "regular"@, "unknown"@]);
        let kind: String = marketplace::enum_or(item, "priceType", &kinds, "unknown");
        let one: Json = marketplace::price(v, kind.as_str(), item.field("priceLabel").as_str(), ev);
        out.push(one);
        assert(json::values(out@) =~= seq![one@]);
    }
    out
}

/// The facts about prices: the amount and the condition of each, under its kind.
pub open spec fn price_facts_of(prices: Seq<JsonV>) -> Seq<JsonV>
    decreases prices.len(),
{
    if prices.len() == 0 {
        Seq::empty()
    } else {
        let p = prices.last();
        let kind = match p.field("type"@) {
            JsonV::Text(s) => s,
            _ => "unknown"@,
        };
        price_facts_of(prices.drop_last()).push(
            marketplace::fact_of("/prices/"@ + kind + "/amountMinor"@, p.field("amountMinor"@)),
        ).push(marketplace::fact_of("/prices/"@ + kind + "/condition"@, p.field("condition"@)))
    }
}

/// The facts about a search item.
pub open spec fn item_facts_of(item: JsonV, prices: Seq<JsonV>) -> Seq<JsonV> {
    seq![
        marketplace::fact_of("/title"@, item.field("name"@)),
        marketplace::fact_of("/rating"@, item.field("rating"@)),
        marketplace::fact_of("/reviewCount"@, item.field("reviews"@)),
        marketplace::fact_of("/deliveryLabel"@, item.field("deliveryLabel"@)),
    ] + price_facts_of(prices)
}

fn item_facts(item: &Json, prices: &Vec<Json>) -> (r: Vec<Json>)
    ensures
        json::values(r@) == item_facts_of(item@, json::values(prices@)),
{
    let mut out: Vec<Json> = Vec::new();
    out.push(marketplace::fact("/title", item.field("name").copy()));
    out.push(marketplace::fact("/rating", item.field("rating").copy()));
    out.push(marketplace::fact("/reviewCount", item.field("reviews").copy()));
    out.push(marketplace::fact("/deliveryLabel", item.field("deliveryLabel").copy()));
    let ghost head = json::values(out@);
    let ghost all = json::values(prices@);
    assert(head =~= item_facts_of(item@, Seq::empty()));
    let mut i: usize = 0;
    assert(head + price_facts_of(all.take(0)) =~= head);
    while i < prices.len()
        invariant
            0 <= i <= prices@.len(),
            all == json::values(prices@),
            json::values(out@) == head + price_facts_of(all.take(i as int)),
        decreases prices@.len() - i,
    {
        assert(all.take(i + 1).drop_last() =~= all.take(i as int));
        assert(all.take(i + 1).last() == prices@[i as int]@);
        let p: &Json = &prices[i];
        let kind: &str = match p.field("type").as_str() {
            Some(s) => s,
            None => "unknown",
        };
        let amount: Json = marketplace::fact(
            text::joined3("/prices/", kind, "/amountMinor").as_str(),
            p.field("amountMinor").copy(),
        );
        let condition: Json = marketplace::fact(
            text::joined3("/prices/", kind, "/condition").as_str(),
            p.field("condition").copy(),
        );
        proof {
            json::lemma_values_push(out@, amount);
        }
        out.push(amount);
        proof {
            json::lemma_values_push(out@, condition);
        }
        out.push(condition);
        assert(json::values(out@) =~= head + price_facts_of(all.take(i + 1)));
        i = i + 1;
    }
    assert(all.take(i as int) =~= all);
    assert(json::values(out@) =~= item_facts_of(item@, all));
    out
}

/// The seller of a search item.
pub open spec fn item_seller_of(item: JsonV, ev: Seq<char>) -> JsonV {
    match item.field("seller"@) {
        JsonV::Text(name) => JsonV::object().with("name"@, JsonV::Text(name)).with(
            "rating"@,
            JsonV::Null,
        ).with("url"@, JsonV::Null).with("evidenceRefs"@, marketplace::only_text(ev)),
        _ => JsonV::Null,
    }
}

fn item_seller(item: &Json, ev: &str) -> (r: Json)
    ensures
        r@ == item_seller_of(item@, ev@),
{
    match item.field("seller").as_str() {
        Some(name) => Json::object().with("name", Json::text(name)).with(
            "rating",
            Json::Null,
        ).with("url", Json::Null).with("evidenceRefs", marketplace::only(ev)),
        None => Json::Null,
    }
}

/// What a product reference holds.
pub open spec fn product_value_of(sku: Seq<char>, url: Seq<char>) -> JsonV {
    JsonV::object().with("sku"@, JsonV::Text(sku)).with("url"@, JsonV::Text(url))
}

/// The reference of a product names its number and its place.
pub proof fn product_references_name_their_product(
    sku: Seq<char>,
    url: Seq<char>,
)
    ensures
        ({
            let shown = product_value_of(sku, url);
            &&& shown is Object
            &&& shown.field("sku"@) == (JsonV::Text(sku))
            &&& shown.field("url"@) == (JsonV::Text(url))
        }),
{
    broadcast use json::lemma_get_with;

    reveal_strlit("sku");
    reveal_strlit("url");
    assert("sku"@.len() == 3);
    assert("url"@.len() == 3);
    assert("sku"@[0] == 's');
    assert("url"@[0] == 'u');
}

pub(crate) fn product_value(sku: &str, url: &str) -> (r: Json)
    ensures
        r@ == product_value_of(sku@, url@),
{
    Json::object().with("sku", Json::text(sku)).with("url", Json::text(url))
}

/// What an image reference holds.
pub open spec fn image_value_of(
    url: Seq<char>,
    source_kind: Seq<char>,
    source_ref: Seq<char>,
    source_url: Seq<char>,
    sku: Seq<char>,
    path: Seq<char>,
) -> JsonV {
    JsonV::object().with("url"@, JsonV::Text(url)).with(
        "sourceKind"@,
        JsonV::Text(source_kind),
    ).with("sourceRef"@, JsonV::Text(source_ref)).with("sourceUrl"@, JsonV::Text(source_url)).with(
        "sku"@,
        JsonV::Text(sku),
    ).with("fieldPath"@, JsonV::Text(path))
}

/// The reference of an image names its place and what it is an image of.
pub proof fn image_references_name_their_source(
    url: Seq<char>,
    source_kind: Seq<char>,
    source_ref: Seq<char>,
    source_url: Seq<char>,
    sku: Seq<char>,
    path: Seq<char>,
)
    ensures
        ({
            let shown = image_value_of(url, source_kind, source_ref, source_url, sku, path);
            &&& shown is Object
            &&& shown.field("url"@) == (JsonV::Text(url))
            &&& shown.field("sourceKind"@) == (JsonV::Text(source_kind))
            &&& shown.field("sourceRef"@) == (JsonV::Text(source_ref))
            &&& shown.field("sourceUrl"@) == (JsonV::Text(source_url))
            &&& shown.field("sku"@) == (JsonV::Text(sku))
            &&& shown.field("fieldPath"@) == (JsonV::Text(path))
        }),
{
    broadcast use json::lemma_get_with;

    reveal_strlit("url");
    reveal_strlit("sourceKind");
    reveal_strlit("sourceRef");
    reveal_strlit("sourceUrl");
    reveal_strlit("sku");
    reveal_strlit("fieldPath");
    assert("url"@.len() == 3);
    assert("sourceKind"@.len() == 10);
    assert("sourceRef"@.len() == 9);
    assert("sourceUrl"@.len() == 9);
    assert("sku"@.len() == 3);
    assert("fieldPath"@.len() == 9);
    assert("url"@[0] == 'u');
    assert("sku"@[0] == 's');
    assert("sourceRef"@[6] == 'R');
    assert("sourceUrl"@[6] == 'U');
    assert("sourceRef"@[0] == 's');
    assert("fieldPath"@[0] == 'f');
    assert("sourceUrl"@[0] == 's');
}

pub(crate) fn image_value(
    url: &str,
    source_kind: &str,
    source_ref: &str,
    source_url: &str,
    sku: &str,
    path: &str,
) -> (r: Json)
    ensures
        r@ == image_value_of(url@, source_kind@, source_ref@, source_url@, sku@, path@),
{
    Json::object().with("url", Json::text(url)).with("sourceKind", Json::text(source_kind)).with(
        "sourceRef",
        Json::text(source_ref),
    ).with("sourceUrl", Json::text(source_url)).with("sku", Json::text(sku)).with(
        "fieldPath",
        Json::text(path),
    )
}

/// Where and in what an observation was made.
pub struct SiteV {
    pub source_url: Seq<char>,
    pub research_id: Seq<char>,
    pub context_id: Seq<char>,
    pub observed: Seq<char>,
}

/// What some search items became.
#[verifier::ext_equal]
pub struct ItemsV {
    pub ledger: LedgerV,
    pub refs: Seq<Seq<char>>,
    pub evidence: Seq<JsonV>,
    pub items: Seq<JsonV>,
}

/// A search item, as it is shown.
pub open spec fn item_shown(
    item: JsonV,
    product_ref: Seq<char>,
    sku: Seq<char>,
    url: Seq<char>,
    image_refs: Seq<JsonV>,
    ev: Seq<char>,
) -> JsonV {
    JsonV::object().with("productRef"@, JsonV::Text(product_ref)).with(
        "sku"@,
        JsonV::Text(sku),
    ).with("title"@, item.field("name"@)).with("url"@, JsonV::Text(url)).with(
        "availability"@,
        JsonV::Text("unknown"@),
    ).with("prices"@, JsonV::Array(search_prices_of(item, ev))).with(
        "seller"@,
        item_seller_of(item, ev),
    ).with("matchesDisplayedPriceRange"@, item.field("matchesPriceRange"@)).with(
        "deliveryLabel"@,
        item.field("deliveryLabel"@),
    ).with("rating"@, item.field("rating"@)).with("reviewCount"@, item.field("reviews"@)).with(
        "imageRefs"@,
        JsonV::Array(image_refs),
    ).with("evidenceRefs"@, marketplace::only_text(ev))
}

/// The row of a search shows its product: reference and number, title, place, availability, prices,
/// rating, the number of reviews, seller, delivery and image.
pub proof fn search_rows_show_their_item(
    item: JsonV,
    product_ref: Seq<char>,
    sku: Seq<char>,
    url: Seq<char>,
    image_refs: Seq<JsonV>,
    ev: Seq<char>,
)
    ensures
        ({
            let shown = item_shown(item, product_ref, sku, url, image_refs, ev);
            &&& shown is Object
            &&& shown.field("productRef"@) == (JsonV::Text(product_ref))
            &&& shown.field("sku"@) == (JsonV::Text(sku))
            &&& shown.field("title"@) == (item.field("name"@))
            &&& shown.field("url"@) == (JsonV::Text(url))
            &&& shown.field("availability"@) == (JsonV::Text("unknown"@))
            &&& shown.field("prices"@) == (JsonV::Array(search_prices_of(item, ev)))
            &&& shown.field("seller"@) == (item_seller_of(item, ev))
            &&& shown.field("matchesDisplayedPriceRange"@) == (item.field("matchesPriceRange"@))
            &&& shown.field("deliveryLabel"@) == (item.field("deliveryLabel"@))
            &&& shown.field("rating"@) == (item.field("rating"@))
            &&& shown.field("reviewCount"@) == (item.field("reviews"@))
            &&& shown.field("imageRefs"@) == (JsonV::Array(image_refs))
            &&& shown.field("evidenceRefs"@) == (marketplace::only_text(ev))
        }),
{
    broadcast use json::lemma_get_with;

    reveal_strlit("productRef");
    reveal_strlit("sku");
    reveal_strlit("title");
    reveal_strlit("url");
    reveal_strlit("availability");
    reveal_strlit("prices");
    reveal_strlit("seller");
    reveal_strlit("matchesDisplayedPriceRange");
    reveal_strlit("deliveryLabel");
    reveal_strlit("rating");
    reveal_strlit("reviewCount");
    reveal_strlit("imageRefs");
    reveal_strlit("evidenceRefs");
    assert("productRef"@.len() == 10);
    assert("sku"@.len() == 3);
    assert("title"@.len() == 5);
    assert("url"@.len() == 3);
    assert("availability"@.len() == 12);
    assert("prices"@.len() == 6);
    assert("seller"@.len() == 6);
    assert("matchesDisplayedPriceRange"@.len() == 26);
    assert("deliveryLabel"@.len() == 13);
    assert("rating"@.len() == 6);
    assert("reviewCount"@.len() == 11);
    assert("imageRefs"@.len() == 9);
    assert("evidenceRefs"@.len() == 12);
    assert("sku"@[0] == 's');
    assert("url"@[0] == 'u');
    assert("availability"@[0] == 'a');
    assert("evidenceRefs"@[0] == 'e');
    assert("prices"@[0] == 'p');
    assert("seller"@[0] == 's');
    assert("rating"@[0] == 'r');
}

/// The evidence for a search item.
pub open spec fn item_evidence(
    item: JsonV,
    index: nat,
    sku: Seq<char>,
    site: SiteV,
    ev: Seq<char>,
) -> JsonV {
    marketplace::cited_as(
        evidence::observed_evidence_of(
            Some(site.source_url),
            site.context_id,
            Some(sku),
            seq!["/items/"@ + text::decimal(index)],
            JsonV::Array(item_facts_of(item, search_prices_of(item, ev))),
            site.observed,
        ),
        ev,
    )
}

/// The ledger and the image references after the image of an item was looked at.
pub open spec fn item_image(
    ledger: LedgerV,
    item: JsonV,
    product_ref: Seq<char>,
    sku: Seq<char>,
    url: Seq<char>,
    site: SiteV,
) -> (LedgerV, Seq<JsonV>) {
    match item.field("image"@) {
        JsonV::Text(image) => (
            ledger.put(
                site.research_id,
                "image"@,
                image_value_of(image, "product"@, product_ref, url, sku, "/images/0"@),
                None,
            ),
            seq![JsonV::Text(ledger.next_ref())],
        ),
        _ => (ledger, Seq::empty()),
    }
}

/// What one more search item makes of what the earlier ones became.
#[verifier::opaque]
pub open spec fn with_item(acc: ItemsV, item: JsonV, index: nat, site: SiteV) -> Result<
    ItemsV,
    (LedgerV, FailureV),
> {
    match (item.field("sku"@), marketplace::canonical_in(item, "url"@)) {
        (JsonV::Text(sku), Some(url)) => {
            let product_ref = acc.ledger.next_ref();
            let noted = acc.ledger.put(
                site.research_id,
                "product"@,
                product_value_of(sku, url),
                None,
            );
            let ev = marketplace::evidence_name(noted.next());
            let image = item_image(noted.drawn(), item, product_ref, sku, url, site);
            Ok(
                ItemsV {
                    ledger: image.0,
                    refs: acc.refs.push(product_ref),
                    evidence: acc.evidence.push(item_evidence(item, index, sku, site, ev)),
                    items: acc.items.push(item_shown(item, product_ref, sku, url, image.1, ev)),
                },
            )
        },
        (JsonV::Text(_), None) => Err(
            (
                acc.ledger,
                FailureV::Message(
                    "SOURCE_CHANGED: search item source URL is missing or invalid"@,
                ),
            ),
        ),
        _ => Err((acc.ledger, FailureV::Message("SOURCE_CHANGED: search item has no SKU"@))),
    }
}

/// What the items of a search became.
pub open spec fn items_made(ledger: LedgerV, items: Seq<JsonV>, site: SiteV) -> Result<
    ItemsV,
    (LedgerV, FailureV),
>
    decreases items.len(),
{
    if items.len() == 0 {
        Ok(
            ItemsV {
                ledger,
                refs: Seq::empty(),
                evidence: Seq::empty(),
                items: Seq::empty(),
            },
        )
    } else {
        match items_made(ledger, items.drop_last(), site) {
            Ok(acc) => with_item(acc, items.last(), (items.len() - 1) as nat, site),
            Err(e) => Err(e),
        }
    }
}

/// An item that was not made makes the rest not made.
proof fn lemma_items_stop(ledger: LedgerV, items: Seq<JsonV>, i: int, site: SiteV)
    requires
        0 <= i <= items.len(),
        items_made(ledger, items.take(i), site) is Err,
    ensures
        items_made(ledger, items, site) == items_made(ledger, items.take(i), site),
    decreases items.len() - i,
{
    if i < items.len() {
        assert(items.take(i + 1).drop_last() =~= items.take(i));
        lemma_items_stop(ledger, items, i + 1, site);
    } else {
        assert(items.take(i) =~= items);
    }
}

/// Where and in what an observation was made.
pub struct Site<'a> {
    pub source_url: &'a str,
    pub research_id: &'a str,
    pub context_id: &'a str,
    pub observed: &'a str,
}

impl View for Site<'_> {
    type V = SiteV;

    open spec fn view(&self) -> SiteV {
        SiteV {
            source_url: self.source_url@,
            research_id: self.research_id@,
            context_id: self.context_id@,
            observed: self.observed@,
        }
    }
}

/// The rows that search items became.
struct ItemRows {
    refs: Vec<String>,
    evidence: Vec<Json>,
    items: Vec<Json>,
}

spec fn rows_view(rows: ItemRows, ledger: LedgerV) -> ItemsV {
    ItemsV {
        ledger,
        refs: text::texts(rows.refs@),
        evidence: json::values(rows.evidence@),
        items: json::values(rows.items@),
    }
}

fn add_item(rows: &mut ItemRows, ledger: &mut Ledger, item: &Json, index: usize, site: &Site) -> (r:
    Result<(), Failure>)
    requires
        old(ledger)@.left() >= 3,
    ensures
        final(ledger)@.ids == old(ledger)@.ids,
        final(ledger)@.used <= old(ledger)@.used + 3,
        match with_item(rows_view(*old(rows), old(ledger)@), item@, index as nat, site@) {
            Ok(v) => r is Ok && rows_view(*final(rows), final(ledger)@) == v,
            Err(e) => r matches Err(f) && e == (final(ledger)@, f@),
        },
{
    proof {
        reveal(with_item);
    }
    let sku: &str = match item.field("sku").as_str() {
        Some(s) => s,
        None => return Err(Failure::new("SOURCE_CHANGED: search item has no SKU")),
    };
    let url: String = match marketplace::canonical(item, "url") {
        Some(u) => u,
        None => {
            return Err(
                Failure::new("SOURCE_CHANGED: search item source URL is missing or invalid"),
            );
        },
    };
    let ghost acc = rows_view(*rows, ledger@);
    let product_ref: String = ledger.put(
        site.research_id,
        "product",
        product_value(sku, url.as_str()),
        None,
    );
    let ev: String = text::joined("evidence_", ledger.draw().as_str());
    let prices: Vec<Json> = search_prices(item, ev.as_str());
    let facts: Vec<Json> = item_facts(item, &prices);
    let path: String = text::joined("/items/", text::decimal_text(index as u64).as_str());
    let paths: [&str; 1] = [path.as_str()];
    assert(widgets::slices(paths@) =~= seq![path@]);
    let one: Json = evidence::observed_evidence(
        Some(site.source_url),
        site.context_id,
        Some(sku),
        &paths,
        Json::array(facts),
        site.observed,
    ).with("evidenceRef", Json::text(ev.as_str()));
    let mut images: Vec<Json> = Vec::new();
    assert(json::values(images@) =~= Seq::empty());
    if let Some(image) = item.field("image").as_str() {
        let image_ref: String = ledger.put(
            site.research_id,
            "image",
            image_value(image, "product", product_ref.as_str(), url.as_str(), sku, "/images/0"),
            None,
        );
        images.push(Json::Text(image_ref));
        assert(json::values(images@) =~= seq![JsonV::Text(image_ref@)]);
    }
    let shown: Json = Json::object().with("productRef", Json::text(product_ref.as_str())).with(
        "sku",
        Json::text(sku),
    ).with("title", item.field("name").copy()).with("url", Json::text(url.as_str())).with(
        "availability",
        Json::text("unknown"),
    ).with("prices", Json::array(prices)).with("seller", item_seller(item, ev.as_str())).with(
        "matchesDisplayedPriceRange",
        item.field("matchesPriceRange").copy(),
    ).with("deliveryLabel", item.field("deliveryLabel").copy()).with(
        "rating",
        item.field("rating").copy(),
    ).with("reviewCount", item.field("reviews").copy()).with(
        "imageRefs",
        Json::array(images),
    ).with("evidenceRefs", marketplace::only(ev.as_str()));
    proof {
        text::lemma_texts_push(rows.refs@, product_ref);
        json::lemma_values_push(rows.evidence@, one);
        json::lemma_values_push(rows.items@, shown);
    }
    rows.refs.push(product_ref);
    rows.evidence.push(one);
    rows.items.push(shown);
    Ok(())
}

fn collect_items(items: &Vec<&Json>, ledger: &mut Ledger, site: &Site) -> (r: Result<
    ItemRows,
    Failure,
>)
    requires
        items@.len() <= 36,
        old(ledger)@.left() >= 108,
    ensures
        final(ledger)@.ids == old(ledger)@.ids,
        final(ledger)@.used <= old(ledger)@.used + 108,
        match items_made(old(ledger)@, json::refs(items@), site@) {
            Ok(v) => r matches Ok(rows) && rows_view(rows, final(ledger)@) == v,
            Err(e) => r matches Err(f) && e == (final(ledger)@, f@),
        },
{
    let ghost start = ledger@;
    let mut rows: ItemRows = ItemRows { refs: Vec::new(), evidence: Vec::new(), items: Vec::new() };
    let ghost all = json::refs(items@);
    let mut i: usize = 0;
    assert(rows_view(rows, ledger@) =~= items_made(start, all.take(0), site@)->Ok_0);
    while i < items.len()
        invariant
            0 <= i <= items@.len() <= 36,
            all == json::refs(items@),
            start == old(ledger)@,
            ledger@.ids == start.ids,
            start.left() >= 108,
            ledger@.used <= start.used + 3 * i,
            items_made(start, all.take(i as int), site@) == Ok::<ItemsV, (LedgerV, FailureV)>(
                rows_view(rows, ledger@),
            ),
        decreases items@.len() - i,
    {
        let ghost acc = rows_view(rows, ledger@);
        let step: Result<(), Failure> = add_item(&mut rows, ledger, items[i], i, site);
        proof {
            assert(all.take(i + 1).drop_last() =~= all.take(i as int));
            assert(all.take(i + 1).last() == items@[i as int]@);
            assert(items_made(start, all.take(i + 1), site@) == with_item(
                acc,
                items@[i as int]@,
                i as nat,
                site@,
            ));
        }
        if let Err(e) = step {
            proof {
                lemma_items_stop(start, all, i + 1, site@);
            }
            return Err(e);
        }
        i = i + 1;
    }
    assert(all.take(i as int) =~= all);
    Ok(rows)
}

/// A refinement that a search offers.
pub struct Offer<'a> {
    pub kind: &'static str,
    pub label: &'a str,
    pub url: &'a str,
    pub group: Json,
    pub selected: Json,
}

/// What an [`Offer`] holds.
pub struct OfferV {
    pub kind: Seq<char>,
    pub label: Seq<char>,
    pub url: Seq<char>,
    pub group: JsonV,
    pub selected: JsonV,
}

impl View for Offer<'_> {
    type V = OfferV;

    open spec fn view(&self) -> OfferV {
        OfferV {
            kind: self.kind@,
            label: self.label@,
            url: self.url@,
            group: self.group@,
            selected: self.selected@,
        }
    }
}

pub open spec fn offers_in(v: Seq<Offer>) -> Seq<OfferV> {
    Seq::new(v.len(), |i: int| v[i]@)
}

/// The refinement that a row offers, where it has a label and a place.
pub open spec fn offer_of(
    kind: Seq<char>,
    row: JsonV,
    label_key: Seq<char>,
    group: JsonV,
    selected: JsonV,
) -> Seq<OfferV> {
    match (row.field(label_key), row.field("searchUrl"@)) {
        (JsonV::Text(label), JsonV::Text(url)) => seq![
            OfferV { kind, label, url, group, selected },
        ],
        _ => Seq::empty(),
    }
}

fn add_offer<'a>(
    out: &mut Vec<Offer<'a>>,
    kind: &'static str,
    row: &'a Json,
    label_key: &str,
    group: Json,
    selected: Json,
)
    ensures
        offers_in(final(out)@) == offers_in(old(out)@) + offer_of(
            kind@,
            row@,
            label_key@,
            group@,
            selected@,
        ),
{
    if let (Some(label), Some(url)) = (
        row.field(label_key).as_str(),
        row.field("searchUrl").as_str(),
    ) {
        let ghost before = out@;
        let one: Offer<'a> = Offer { kind, label, url, group, selected };
        out.push(one);
        assert(offers_in(out@) =~= offers_in(before) + seq![one@]);
    } else {
        assert(offers_in(out@) =~= offers_in(old(out)@) + Seq::<OfferV>::empty());
    }
}

/// The refinements that rows of one kind offer, in the group that each or all belong to.
pub open spec fn row_offers(
    kind: Seq<char>,
    rows: Seq<JsonV>,
    group: JsonV,
    selected: Option<JsonV>,
) -> Seq<OfferV>
    decreases rows.len(),
{
    if rows.len() == 0 {
        Seq::empty()
    } else {
        let row = rows.last();
        row_offers(kind, rows.drop_last(), group, selected) + offer_of(
            kind,
            row,
            "label"@,
            group,
            match selected {
                Some(s) => s,
                None => row.field("selected"@),
            },
        )
    }
}

fn add_rows<'a>(
    out: &mut Vec<Offer<'a>>,
    kind: &'static str,
    rows: &Vec<&'a Json>,
    group: &Json,
    always: bool,
)
    ensures
        offers_in(final(out)@) == offers_in(old(out)@) + row_offers(
            kind@,
            json::refs(rows@),
            group@,
            if always {
                Some(JsonV::Bool(true))
            } else {
                None
            },
        ),
{
    let ghost head = offers_in(out@);
    let ghost all = json::refs(rows@);
    let ghost chosen: Option<JsonV> = if always {
        Some(JsonV::Bool(true))
    } else {
        None
    };
    let mut i: usize = 0;
    assert(head + row_offers(kind@, all.take(0), group@, chosen) =~= head);
    while i < rows.len()
        invariant
            0 <= i <= rows@.len(),
            all == json::refs(rows@),
            chosen == if always {
                Some(JsonV::Bool(true))
            } else {
                None
            },
            offers_in(out@) == head + row_offers(kind@, all.take(i as int), group@, chosen),
        decreases rows@.len() - i,
    {
        assert(all.take(i + 1).drop_last() =~= all.take(i as int));
        assert(all.take(i + 1).last() == rows@[i as int]@);
        let selected: Json = if always {
            Json::Bool(true)
        } else {
            rows[i].field("selected").copy()
        };
        add_offer(out, kind, rows[i], "label", group.copy(), selected);
        assert(offers_in(out@) =~= head + row_offers(kind@, all.take(i + 1), group@, chosen));
        i = i + 1;
    }
    assert(all.take(i as int) =~= all);
}

/// The refinements that facets offer: each facet itself, then its options.
pub open spec fn facet_offers(facets: Seq<JsonV>) -> Seq<OfferV>
    decreases facets.len(),
{
    if facets.len() == 0 {
        Seq::empty()
    } else {
        let facet = facets.last();
        facet_offers(facets.drop_last()) + offer_of(
            "filter"@,
            facet,
            "title"@,
            facet.field("title"@),
            facet.field("selected"@),
        ) + row_offers(
            "filter"@,
            facet.field("options"@).elements(),
            facet.field("title"@),
            None,
        )
    }
}

/// The refinements that active filters offer: their values, all of them selected.
pub open spec fn active_offers(active: Seq<JsonV>) -> Seq<OfferV>
    decreases active.len(),
{
    if active.len() == 0 {
        Seq::empty()
    } else {
        active_offers(active.drop_last()) + row_offers(
            "filter"@,
            active.last().field("values"@).elements(),
            active.last().field("name"@),
            Some(JsonV::Bool(true)),
        )
    }
}

/// All the refinements that a search offers.
pub open spec fn all_offers(raw: JsonV) -> Seq<OfferV> {
    facet_offers(raw.field("facets"@).field("items"@).elements()) + row_offers(
        "sort"@,
        raw.field("sortOptions"@).elements(),
        JsonV::Text("Сортировка"@),
        None,
    ) + active_offers(raw.field("activeFilters"@).elements())
}

fn offers<'a>(raw: &'a Json) -> (r: Vec<Offer<'a>>)
    ensures
        offers_in(r@) == all_offers(raw@),
{
    let mut out: Vec<Offer<'a>> = Vec::new();
    let facets: Vec<&'a Json> = json::elements(raw.field("facets").field("items"));
    let ghost all = json::refs(facets@);
    let mut i: usize = 0;
    assert(offers_in(out@) =~= facet_offers(all.take(0)));
    while i < facets.len()
        invariant
            0 <= i <= facets@.len(),
            all == json::refs(facets@),
            offers_in(out@) == facet_offers(all.take(i as int)),
        decreases facets@.len() - i,
    {
        assert(all.take(i + 1).drop_last() =~= all.take(i as int));
        assert(all.take(i + 1).last() == facets@[i as int]@);
        let facet: &'a Json = facets[i];
        add_offer(
            &mut out,
            "filter",
            facet,
            "title",
            facet.field("title").copy(),
            facet.field("selected").copy(),
        );
        add_rows(
            &mut out,
            "filter",
            &json::elements(facet.field("options")),
            facet.field("title"),
            false,
        );
        i = i + 1;
    }
    assert(all.take(i as int) =~= all);
    let group: Json = Json::text("Сортировка");
    add_rows(&mut out, "sort", &json::elements(raw.field("sortOptions")), &group, false);
    let ghost head = offers_in(out@);
    let active: Vec<&'a Json> = json::elements(raw.field("activeFilters"));
    let ghost rest = json::refs(active@);
    let mut k: usize = 0;
    assert(head + active_offers(rest.take(0)) =~= head);
    while k < active.len()
        invariant
            0 <= k <= active@.len(),
            rest == json::refs(active@),
            offers_in(out@) == head + active_offers(rest.take(k as int)),
        decreases active@.len() - k,
    {
        assert(rest.take(k + 1).drop_last() =~= rest.take(k as int));
        assert(rest.take(k + 1).last() == active@[k as int]@);
        let one: &'a Json = active[k];
        add_rows(&mut out, "filter", &json::elements(one.field("values")), one.field("name"), true);
        assert(offers_in(out@) =~= head + active_offers(rest.take(k + 1)));
        k = k + 1;
    }
    assert(rest.take(k as int) =~= rest);
    out
}

/// A refinement, as it is shown.
pub open spec fn offer_shown(o: OfferV, search_ref: Seq<char>) -> JsonV {
    JsonV::object().with("kind"@, JsonV::Text(o.kind)).with("label"@, JsonV::Text(o.label)).with(
        "groupLabel"@,
        o.group,
    ).with("selected"@, o.selected).with("searchRef"@, JsonV::Text(search_ref))
}

pub open spec fn search_ref_value(url: Seq<char>) -> JsonV {
    JsonV::object().with("searchUrl"@, JsonV::Text(url))
}

/// What refinements become: a reference each, and the row that names it.
pub open spec fn offers_made(ledger: LedgerV, offers: Seq<OfferV>, research_id: Seq<char>) -> (
    LedgerV,
    Seq<JsonV>,
)
    decreases offers.len(),
{
    if offers.len() == 0 {
        (ledger, Seq::empty())
    } else {
        let before = offers_made(ledger, offers.drop_last(), research_id);
        let o = offers.last();
        (
            before.0.put(
                research_id,
                "search_ref"@,
                search_ref_value(o.url),
                Some(marketplace::CURSOR_TTL_SECONDS),
            ),
            before.1.push(offer_shown(o, before.0.next_ref())),
        )
    }
}

/// The refinements of a search, at most a hundred of them.
pub open spec fn refinements_made(ledger: LedgerV, raw: JsonV, research_id: Seq<char>) -> (
    LedgerV,
    Seq<JsonV>,
) {
    offers_made(ledger, marketplace::first_values(all_offers(raw), 100), research_id)
}

fn search_refinements(raw: &Json, ledger: &mut Ledger, research_id: &str) -> (r: Vec<Json>)
    requires
        old(ledger)@.left() >= 100,
    ensures
        (final(ledger)@, json::values(r@)) == refinements_made(
            old(ledger)@,
            raw@,
            research_id@,
        ),
        final(ledger)@.ids == old(ledger)@.ids,
        final(ledger)@.used <= old(ledger)@.used + 100,
{
    let ghost start = ledger@;
    let found: Vec<Offer> = offers(raw);
    let ghost all = offers_in(found@);
    let end: usize = if found.len() < 100 {
        found.len()
    } else {
        100
    };
    let mut out: Vec<Json> = Vec::new();
    let mut i: usize = 0;
    assert(json::values(out@) =~= Seq::empty());
    while i < end
        invariant
            0 <= i <= end <= found@.len(),
            end <= 100,
            all == offers_in(found@),
            start.left() >= 100,
            ledger@.ids == start.ids,
            ledger@.used <= start.used + i,
            (ledger@, json::values(out@)) == offers_made(
                start,
                all.take(i as int),
                research_id@,
            ),
        decreases end - i,
    {
        assert(all.take(i + 1).drop_last() =~= all.take(i as int));
        assert(all.take(i + 1).last() == found@[i as int]@);
        let o: &Offer = &found[i];
        let value: Json = Json::object().with("searchUrl", Json::text(o.url));
        let name: String = ledger.put(
            research_id,
            "search_ref",
            value,
            Some(marketplace::CURSOR_TTL_SECONDS),
        );
        let row: Json = Json::object().with("kind", Json::text(o.kind)).with(
            "label",
            Json::text(o.label),
        ).with("groupLabel", o.group.copy()).with("selected", o.selected.copy()).with(
            "searchRef",
            Json::Text(name),
        );
        proof {
            json::lemma_values_push(out@, row);
        }
        out.push(row);
        i = i + 1;
    }
    out
}

/// How much of a search was seen.
pub open spec fn completeness_of(continues: bool, has_next: JsonV) -> Seq<char> {
    if continues {
        "partial"@
    } else if has_next == JsonV::Bool(false) {
        "complete"@
    } else {
        "unknown"@
    }
}

pub(crate) fn completeness(continues: bool, has_next: &Json) -> (r: &'static str)
    ensures
        r@ == completeness_of(continues, has_next@),
{
    if continues {
        "partial"
    } else {
        match has_next {
            Json::Bool(b) => if *b {
                "unknown"
            } else {
                "complete"
            },
            _ => "unknown",
        }
    }
}

/// How much of a source was seen.
pub open spec fn coverage_of(returned: nat, seen: u64, total: JsonV, complete: Seq<char>) -> JsonV {
    JsonV::object().with("returned"@, JsonV::unsigned(returned as u64)).with(
        "uniqueSeen"@,
        JsonV::unsigned(seen),
    ).with("total"@, total).with("snapshotGuaranteed"@, JsonV::Bool(false)).with(
        "completeness"@,
        JsonV::Text(complete),
    )
}

/// A coverage tells how many were returned and seen, how many there are, and whether that is all.
pub proof fn coverages_tell_what_was_returned(
    returned: nat,
    seen: u64,
    total: JsonV,
    complete: Seq<char>,
)
    ensures
        ({
            let shown = coverage_of(returned, seen, total, complete);
            &&& shown is Object
            &&& shown.field("returned"@) == (JsonV::unsigned(returned as u64))
            &&& shown.field("uniqueSeen"@) == (JsonV::unsigned(seen))
            &&& shown.field("total"@) == (total)
            &&& shown.field("snapshotGuaranteed"@) == (JsonV::Bool(false))
            &&& shown.field("completeness"@) == (JsonV::Text(complete))
        }),
{
    broadcast use json::lemma_get_with;

    reveal_strlit("returned");
    reveal_strlit("uniqueSeen");
    reveal_strlit("total");
    reveal_strlit("snapshotGuaranteed");
    reveal_strlit("completeness");
    assert("returned"@.len() == 8);
    assert("uniqueSeen"@.len() == 10);
    assert("total"@.len() == 5);
    assert("snapshotGuaranteed"@.len() == 18);
    assert("completeness"@.len() == 12);
}

pub(crate) fn coverage(returned: usize, seen: u64, total: Json, complete: &str) -> (r: Json)
    ensures
        r@ == coverage_of(returned as nat, seen, total@, complete@),
{
    Json::object().with("returned", Json::unsigned(returned as u64)).with(
        "uniqueSeen",
        Json::unsigned(seen),
    ).with("total", total).with("snapshotGuaranteed", Json::Bool(false)).with(
        "completeness",
        Json::text(complete),
    )
}

/// What a search continuation holds: the source's own cursor, and how it is shown.
pub open spec fn search_cursor_value(cursor: Seq<char>, raw: JsonV) -> JsonV {
    JsonV::object().with("cursor"@, JsonV::Text(cursor)).with(
        "presentation"@,
        raw.field("_presentation"@),
    )
}

/// A continuation of a search keeps the source's own cursor and how its answer is presented.
pub proof fn search_cursors_keep_the_source_cursor(
    cursor: Seq<char>,
    raw: JsonV,
)
    ensures
        ({
            let shown = search_cursor_value(cursor, raw);
            &&& shown is Object
            &&& shown.field("cursor"@) == (JsonV::Text(cursor))
            &&& shown.field("presentation"@) == (raw.field("_presentation"@))
        }),
{
    broadcast use json::lemma_get_with;

    reveal_strlit("cursor");
    reveal_strlit("presentation");
    assert("cursor"@.len() == 6);
    assert("presentation"@.len() == 12);
}

/// The data of a search.
pub open spec fn search_data(
    raw: JsonV,
    items: Seq<JsonV>,
    refinements: Seq<JsonV>,
    include_facets: bool,
    cursor: Option<Seq<char>>,
) -> JsonV {
    let truncated = raw.field("facets"@).field("truncated"@) == JsonV::Bool(true)
        || refinements.len() >= 100;
    let seen = match raw.field("coverage"@).field("uniqueSeen"@).as_unsigned() {
        Some(n) => n,
        None => items.len() as u64,
    };
    let data = JsonV::object().with("items"@, JsonV::Array(items)).with(
        "refinements"@,
        JsonV::Array(refinements),
    ).with("refinementsIncluded"@, JsonV::Bool(include_facets)).with(
        "refinementsTruncated"@,
        JsonV::Bool(truncated),
    ).with("nextCursor"@, JsonV::optional_text(cursor)).with("hasNext"@, raw.field("hasNext"@)).with(
        "coverage"@,
        coverage_of(
            items.len(),
            seen,
            raw.field("total"@),
            completeness_of(cursor is Some, raw.field("hasNext"@)),
        ),
    );
    match raw.get("priceRangeAssessment"@) {
        Some(a) => data.with("priceRangeAssessment"@, a),
        None => data,
    }
}

fn search_data_of(
    raw: &Json,
    items: Vec<Json>,
    refinements: Vec<Json>,
    include_facets: bool,
    cursor: Option<&str>,
) -> (r: Json)
    ensures
        r@ == search_data(
            raw@,
            json::values(items@),
            json::values(refinements@),
            include_facets,
            json::str_of(cursor),
        ),
{
    let returned: usize = items.len();
    let truncated: bool = (match raw.field("facets").field("truncated").as_bool() {
        Some(b) => b,
        None => false,
    }) || refinements.len() >= 100;
    let seen: u64 = match raw.field("coverage").field("uniqueSeen").as_u64() {
        Some(n) => n,
        None => returned as u64,
    };
    let complete: &str = completeness(cursor.is_some(), raw.field("hasNext"));
    let data: Json = Json::object().with("items", Json::array(items)).with(
        "refinements",
        Json::array(refinements),
    ).with("refinementsIncluded", Json::Bool(include_facets)).with(
        "refinementsTruncated",
        Json::Bool(truncated),
    ).with("nextCursor", Json::optional_text(cursor)).with(
        "hasNext",
        raw.field("hasNext").copy(),
    ).with("coverage", coverage(returned, seen, raw.field("total").copy(), complete));
    match raw.get("priceRangeAssessment") {
        Some(a) => data.with("priceRangeAssessment", a.copy()),
        None => data,
    }
}

/// The warnings of a search.
pub open spec fn search_warnings(raw: JsonV, region_verified: bool) -> Seq<JsonV> {
    if region_verified {
        marketplace::source_warnings_of(raw)
    } else {
        marketplace::source_warnings_of(raw).push(
            marketplace::warning_of(
                "REGION_UNVERIFIED"@,
                "Price and delivery context may depend on region."@,
                Seq::empty(),
            ),
        )
    }
}

/// What a search observation becomes.
pub open spec fn searched(
    raw: JsonV,
    ledger: LedgerV,
    research_id: Seq<char>,
    context_id: Seq<char>,
    region_verified: bool,
    include_facets: bool,
    observed: Seq<char>,
) -> Result<(LedgerV, NormalizedV), (LedgerV, FailureV)> {
    let items = raw.field("items"@).elements();
    if items.len() > 36 {
        Err(
            (
                ledger,
                FailureV::Message(
                    "SOURCE_CHANGED: search result exceeds the 36 item source contract"@,
                ),
            ),
        )
    } else {
        match marketplace::canonical_in(raw, "searchUrl"@) {
            None => Err(
                (
                    ledger,
                    FailureV::Message("SOURCE_CHANGED: search source URL is missing or invalid"@),
                ),
            ),
            Some(source_url) => match items_made(
                ledger,
                items,
                SiteV { source_url, research_id, context_id, observed },
            ) {
                Err(e) => Err(e),
                Ok(rows) => {
                    let refined = if include_facets {
                        refinements_made(rows.ledger, raw, research_id)
                    } else {
                        (rows.ledger, Seq::empty())
                    };
                    let continued = match raw.field("nextCursor"@) {
                        JsonV::Text(cursor) => (
                            refined.0.put(
                                research_id,
                                "search_cursor"@,
                                search_cursor_value(cursor, raw),
                                Some(marketplace::CURSOR_TTL_SECONDS),
                            ),
                            Some(refined.0.next_ref()),
                        ),
                        _ => (refined.0, None),
                    };
                    Ok(
                        (
                            continued.0,
                            NormalizedV {
                                data: search_data(
                                    raw,
                                    rows.items,
                                    refined.1,
                                    include_facets,
                                    continued.1,
                                ),
                                evidence: rows.evidence,
                                warnings: search_warnings(raw, region_verified),
                                product_refs: rows.refs,
                            },
                        ),
                    )
                },
            },
        }
    }
}

/// What a search observation becomes, with identifiers that are there.
pub(crate) fn normalize_search_in(
    raw: &Json,
    ledger: &mut Ledger,
    research_id: &str,
    context_id: &str,
    region_verified: bool,
    include_facets: bool,
    observed: &str,
) -> (r: Result<Normalized, Failure>)
    requires
        old(ledger)@.left() >= 256,
    ensures
        final(ledger)@.ids == old(ledger)@.ids,
        final(ledger)@.used <= old(ledger)@.used + 256,
        marketplace::made(r, final(ledger)@) == searched(
            raw@,
            old(ledger)@,
            research_id@,
            context_id@,
            region_verified,
            include_facets,
            observed@,
        ),
{
    let items: Vec<&Json> = json::elements(raw.field("items"));
    if items.len() > 36 {
        return Err(
            Failure::new("SOURCE_CHANGED: search result exceeds the 36 item source contract"),
        );
    }
    let source_url: String = match marketplace::canonical(raw, "searchUrl") {
        Some(u) => u,
        None => {
            return Err(Failure::new("SOURCE_CHANGED: search source URL is missing or invalid"));
        },
    };
    let site: Site = Site { source_url: source_url.as_str(), research_id, context_id, observed };
    let rows: ItemRows = match collect_items(&items, ledger, &site) {
        Ok(rows) => rows,
        Err(e) => return Err(e),
    };
    let refinements: Vec<Json> = if include_facets {
        search_refinements(raw, ledger, research_id)
    } else {
        Vec::new()
    };
    assert(!include_facets ==> json::values(refinements@) =~= Seq::empty());
    let cursor: Option<String> = match raw.field("nextCursor").as_str() {
        Some(c) => {
            let value: Json = Json::object().with("cursor", Json::text(c)).with(
                "presentation",
                raw.field("_presentation").copy(),
            );
            Some(
                ledger.put(
                    research_id,
                    "search_cursor",
                    value,
                    Some(marketplace::CURSOR_TTL_SECONDS),
                ),
            )
        },
        None => None,
    };
    let mut warnings: Vec<Json> = marketplace::source_warnings(raw);
    if !region_verified {
        let one: Json = marketplace::bare_warning(
            "REGION_UNVERIFIED",
            "Price and delivery context may depend on region.",
        );
        proof {
            json::lemma_values_push(warnings@, one);
        }
        warnings.push(one);
    }
    let shown: Option<&str> = match &cursor {
        Some(c) => Some(c.as_str()),
        None => None,
    };
    Ok(
        Normalized {
            data: search_data_of(raw, rows.items, refinements, include_facets, shown),
            evidence: rows.evidence,
            warnings,
            product_refs: rows.refs,
        },
    )
}

/// What a search observation becomes, at a given time.
pub fn normalize_search_at(
    raw: &Json,
    ledger: &mut Ledger,
    research_id: &str,
    context_id: &str,
    region_verified: bool,
    include_facets: bool,
    observed: &str,
) -> (r: Result<Normalized, Failure>)
    requires
        old(ledger)@.valid(),
    ensures
        final(ledger)@.valid(),
        final(ledger)@.ids.take(old(ledger)@.ids.len() as int) == old(ledger)@.ids,
        marketplace::made(r, final(ledger)@) == searched(
            raw@,
            old(ledger)@.supplied(final(ledger)@),
            research_id@,
            context_id@,
            region_verified,
            include_facets,
            observed@,
        ),
{
    let ghost origin = ledger@;
    ledger.stock(1, 256);
    assert(ledger@ == origin.supplied(ledger@));
    normalize_search_in(
        raw,
        ledger,
        research_id,
        context_id,
        region_verified,
        include_facets,
        observed,
    )
}

/// What a search observation becomes, at the present time. Every item must name its SKU and
/// its place on the site, or nothing of the search is shown.
pub fn normalize_search(
    raw: &Json,
    ledger: &mut Ledger,
    research_id: &str,
    context_id: &str,
    region_verified: bool,
    include_facets: bool,
) -> (r: Result<Normalized, Failure>)
    requires
        old(ledger)@.valid(),
    ensures
        final(ledger)@.valid(),
        final(ledger)@.ids.take(old(ledger)@.ids.len() as int) == old(ledger)@.ids,
        exists|observed: Seq<char>|
            marketplace::made(r, final(ledger)@) == #[trigger] searched(
                raw@,
                old(ledger)@.supplied(final(ledger)@),
                research_id@,
                context_id@,
                region_verified,
                include_facets,
                observed,
            ),
{
    let observed: String = evidence::now();
    normalize_search_at(
        raw,
        ledger,
        research_id,
        context_id,
        region_verified,
        include_facets,
        observed.as_str(),
    )
}

} // verus!
