//! What a search shows of a page, and what its answer makes of it.

use crate::address;
use crate::double;
use crate::evidence;
use crate::json::{self, JsonV, NumberV};
use crate::ledger::{LedgerV, RefWriteV};
use crate::market_laws;
use crate::marketplace;
use crate::model::{self, Warning};
use crate::search::{self, RequestV, Scan, SearchArgsV};
use crate::search_results::{self, ItemsV, OfferV, SiteV};
use crate::text;
use vstd::prelude::*;

verus! {

/// Whether the products of a walk are items of the page, each at its place, in order.
pub open spec fn are_items(products: Seq<JsonV>, all: Seq<JsonV>, places: Seq<int>) -> bool {
    &&& places.len() == products.len()
    &&& forall|k: int|
        0 <= k < places.len() ==> 0 <= #[trigger] places[k] < all.len() && products[k]
            == all[places[k]]
    &&& forall|k: int, m: int| 0 <= k < m < places.len() ==> places[k] < places[m]
}

proof fn lemma_walk(all: Seq<JsonV>, limit: nat, at: Scan, places: Seq<int>) -> (r: Seq<int>)
    requires
        at.offset <= all.len(),
        are_items(at.products, all, places),
        forall|k: int| 0 <= k < places.len() ==> #[trigger] places[k] < at.offset,
    ensures
        are_items(search::scanned(all, limit, at).products, all, r),
        search::scanned(all, limit, at).products.len() >= at.products.len(),
        forall|k: int| 0 <= k < at.products.len() ==> #[trigger] r[k] == places[k],
        forall|k: int|
            at.products.len() <= k < r.len() ==> at.offset <= #[trigger] r[k] < search::scanned(
                all,
                limit,
                at,
            ).offset,
    decreases all.len() - at.offset,
{
    if at.offset < all.len() && at.products.len() < limit && search::distinct(at.seen)
        < search::MAX_SEEN {
        let item = all[at.offset as int];
        let skipped = Scan { offset: at.offset + 1, ..at };
        match search::sku_of(item) {
            Some(s) => if search::is_sku(s) && !at.seen.contains(s) {
                let next = Scan {
                    products: at.products.push(item),
                    seen: at.seen.push(s),
                    offset: at.offset + 1,
                };
                let r = lemma_walk(all, limit, next, places.push(at.offset as int));
                lemma_offset(all, limit, next);
                assert forall|k: int| at.products.len() <= k < r.len() implies at.offset
                    <= #[trigger] r[k] < search::scanned(all, limit, at).offset by {
                    if k == at.products.len() {
                        assert(r[k] == places.push(at.offset as int)[k]);
                    }
                }
                assert forall|k: int| 0 <= k < at.products.len() implies #[trigger] r[k]
                    == places[k] by {
                    assert(r[k] == places.push(at.offset as int)[k]);
                }
                r
            } else {
                lemma_walk(all, limit, skipped, places)
            },
            None => lemma_walk(all, limit, skipped, places),
        }
    } else {
        places
    }
}

proof fn lemma_offset(all: Seq<JsonV>, limit: nat, at: Scan)
    requires
        at.offset <= all.len(),
    ensures
        at.offset <= search::scanned(all, limit, at).offset <= all.len(),
    decreases all.len() - at.offset,
{
    if at.offset < all.len() && at.products.len() < limit && search::distinct(at.seen)
        < search::MAX_SEEN {
        let item = all[at.offset as int];
        let skipped = Scan { offset: at.offset + 1, ..at };
        match search::sku_of(item) {
            Some(s) => if search::is_sku(s) && !at.seen.contains(s) {
                lemma_offset(
                    all,
                    limit,
                    Scan {
                        products: at.products.push(item),
                        seen: at.seen.push(s),
                        offset: at.offset + 1,
                    },
                );
            } else {
                lemma_offset(all, limit, skipped);
            },
            None => {
                lemma_offset(all, limit, skipped);
            },
        }
    }
}

/// The products that a call shows are items of the page from where it starts to where it stops,
/// as they are and in order.
pub proof fn products_are_items_of_the_page(all: Seq<JsonV>, limit: nat, request: RequestV) -> (r:
    Seq<int>)
    requires
        request.offset <= all.len(),
    ensures
        are_items(search::scan_of(all, limit, request).products, all, r),
        forall|k: int|
            0 <= k < r.len() ==> request.offset <= #[trigger] r[k] < search::scan_of(
                all,
                limit,
                request,
            ).offset,
{
    lemma_walk(
        all,
        limit,
        Scan { products: Seq::empty(), seen: request.seen, offset: request.offset as nat },
        Seq::empty(),
    )
}

/// What a call shows of itself, whether or not it tells of the filters: its products and their
/// number, the search that it is of, and how far it went.
pub open spec fn tells_the_search(
    result: JsonV,
    all: Seq<JsonV>,
    scan: Scan,
    request: RequestV,
    pairs: Seq<(Seq<char>, Seq<char>)>,
) -> bool {
    let items = result.field("items"@).elements();
    let coverage = result.field("coverage"@);
    &&& items.len() == scan.products.len()
    &&& result.field("count"@) == JsonV::unsigned(items.len() as u64)
    &&& result.field("searchUrl"@) == JsonV::Text(request.url)
    &&& result.field("query"@) == JsonV::optional_text(address::value_of(pairs, "text"@))
    &&& result.field("total"@) == JsonV::Null
    &&& coverage.field("parsedItems"@) == JsonV::unsigned((all.len() as usize) as u64)
    &&& coverage.field("parsedOffsetStart"@) == JsonV::unsigned(request.offset as u64)
    &&& coverage.field("parsedOffsetEnd"@) == JsonV::unsigned((scan.offset as usize) as u64)
    &&& coverage.field("returned"@) == JsonV::unsigned((items.len() as usize) as u64)
    &&& coverage.field("uniqueSeen"@) == JsonV::unsigned(
        (search::distinct(scan.seen) as usize) as u64,
    )
    &&& coverage.field("callsInChain"@) == JsonV::unsigned(((request.calls + 1) as usize) as u64)
    &&& coverage.field("fetchedPagesThisCall"@) == JsonV::unsigned(1)
    &&& result.field("context"@).field("region"@) == JsonV::Null
    &&& result.field("context"@).field("regionVerified"@) == JsonV::Bool(false)
}

/// The result of a call tells its search and how far it went. Whether there is more it says
/// truly: there is where items of the page are left or its paginator leads on, there is not only
/// where the paginator says so, and else nothing is said.
pub proof fn results_tell_their_search(
    page: JsonV,
    all: Seq<JsonV>,
    args: SearchArgsV,
    request: RequestV,
)
    requires
        address::parsed_url(request.url) is Ok,
    ensures
        search::finished(page, all, args, request) matches Ok(result) && {
            let scan = search::scan_of(all, args.limit as nat, request);
            let next = search::next_page_of(page, request.url);
            let url = address::parsed_url(request.url)->Ok_0;
            let left = scan.offset < all.len();
            &&& tells_the_search(result, all, scan, request, url.pairs)
            &&& (result.field("hasNext"@) == JsonV::Bool(true)) == (left || next.url is Some)
            &&& (result.field("hasNext"@) == JsonV::Bool(false)) == (!left && next.url is None
                && next.ended)
            &&& result.field("nextCursor"@) is Text ==> result.field("hasNext"@) == JsonV::Bool(
                true,
            )
            &&& result.field("sort"@) == (match address::value_of(url.pairs, "sorting"@) {
                Some(v) => if v == "score"@ {
                    JsonV::Text("popular"@)
                } else {
                    JsonV::Text(v)
                },
                None => JsonV::Text("popular"@),
            })
            &&& result.field("coverage"@).field("page"@) == JsonV::unsigned(
                match address::value_of(url.pairs, "page"@) {
                    Some(v) => match text::parsed_u64(v) {
                        Some(n) => n,
                        None => 1,
                    },
                    None => 1,
                },
            )
            &&& args.include_facets == Some(false) && result.get("facets"@) is Some ==> text::utf8_len(
                json::json_text(
                    search::plain_result(page, all, args, request, url),
                ),
            ) > 58_000
            &&& args.include_facets == Some(true) || (args.include_facets is None
                && args.next_cursor is None) ==> result.get("facets"@) is Some && result.get(
                "sortOptions"@,
            ) is Some && result.get("activeFilters"@) is Some
        },
{
    broadcast use json::lemma_get_with;

    reveal_strlit("items");
    reveal_strlit("count");
    reveal_strlit("query");
    reveal_strlit("sort");
    reveal_strlit("searchUrl");
    reveal_strlit("nextCursor");
    reveal_strlit("hasNext");
    reveal_strlit("total");
    reveal_strlit("context");
    reveal_strlit("coverage");
    reveal_strlit("warnings");
    reveal_strlit("facets");
    reveal_strlit("sortOptions");
    reveal_strlit("activeFilters");
    reveal_strlit("region");
    reveal_strlit("regionVerified");
    assert("items"@.len() == 5);
    assert("count"@.len() == 5);
    assert("query"@.len() == 5);
    assert("sort"@.len() == 4);
    assert("searchUrl"@.len() == 9);
    assert("nextCursor"@.len() == 10);
    assert("hasNext"@.len() == 7);
    assert("total"@.len() == 5);
    assert("context"@.len() == 7);
    assert("coverage"@.len() == 8);
    assert("warnings"@.len() == 8);
    assert("facets"@.len() == 6);
    assert("sortOptions"@.len() == 11);
    assert("activeFilters"@.len() == 13);
    assert("region"@.len() == 6);
    assert("regionVerified"@.len() == 14);
    assert("items"@[0] == 'i');
    assert("count"@[0] == 'c');
    assert("query"@[0] == 'q');
    assert("total"@[0] == 't');
    assert("hasNext"@[0] == 'h');
    assert("context"@[0] == 'c');
    assert("coverage"@[0] == 'c');
    assert("warnings"@[0] == 'w');
    assert("facets"@[0] == 'f');
    assert("region"@[0] == 'r');
    let url = address::parsed_url(request.url)->Ok_0;
    let scan = search::scan_of(all, args.limit as nat, request);
    let plain = search::plain_result(page, all, args, request, url);
    lemma_coverage(search::coverage_of(scan, all, request, search::page_number(url.pairs)));
    assert(plain.field("coverage"@) == search::coverage_of(
        scan,
        all,
        request,
        search::page_number(url.pairs),
    ).json());
    let full = search::full_result(page, args, request, plain);
    assert(full.field("coverage"@) == plain.field("coverage"@));
    let trimmed = search::trimmed_result(full);
    assert(trimmed.field("coverage"@) == plain.field("coverage"@));
}

proof fn lemma_coverage(c: model::SearchCoverage)
    ensures
        ({
            let j = c.json();
            &&& j.field("page"@) == JsonV::unsigned(c.page)
            &&& j.field("fetchedPagesThisCall"@) == JsonV::unsigned(
                c.fetched_pages_this_call as u64,
            )
            &&& j.field("parsedItems"@) == JsonV::unsigned(c.parsed_items as u64)
            &&& j.field("parsedOffsetStart"@) == JsonV::unsigned(c.parsed_offset_start as u64)
            &&& j.field("parsedOffsetEnd"@) == JsonV::unsigned(c.parsed_offset_end as u64)
            &&& j.field("returned"@) == JsonV::unsigned(c.returned as u64)
            &&& j.field("uniqueSeen"@) == JsonV::unsigned(c.unique_seen as u64)
            &&& j.field("callsInChain"@) == JsonV::unsigned(c.calls_in_chain as u64)
        }),
{
    broadcast use json::lemma_get_with;

    reveal_strlit("page");
    reveal_strlit("fetchedPagesThisCall");
    reveal_strlit("parsedItems");
    reveal_strlit("parsedOffsetStart");
    reveal_strlit("parsedOffsetEnd");
    reveal_strlit("returned");
    reveal_strlit("uniqueSeen");
    reveal_strlit("callsInChain");
    assert("page"@.len() == 4);
    assert("fetchedPagesThisCall"@.len() == 20);
    assert("parsedItems"@.len() == 11);
    assert("parsedOffsetStart"@.len() == 17);
    assert("parsedOffsetEnd"@.len() == 15);
    assert("returned"@.len() == 8);
    assert("uniqueSeen"@.len() == 10);
    assert("callsInChain"@.len() == 12);
}

/// What the paginator of a page leads to: a link leads on only where it is safe and leads to
/// another page than this one; one that is empty is an end.
pub proof fn paginators_lead_on(page: JsonV, current: Seq<char>)
    ensures
        ({
            let next = search::next_page_of(page, current);
            let link = match search::widget_of(page, "infiniteVirtualPaginator"@) {
                Some(p) => p.field("nextPage"@),
                None => JsonV::Null,
            };
            &&& next.ended == (link == JsonV::Text(Seq::empty()))
            &&& next.url matches Some(u) ==> u != current && (link matches JsonV::Text(s)
                && s.len() > 0 && search::promoted(s) == Some(u))
            &&& next.stalled == (link matches JsonV::Text(s) && s.len() > 0 && search::promoted(s)
                == Some(current))
            &&& next.stalled ==> next.url is None
            &&& next.observed is Some == (link matches JsonV::Text(s) && s.len() > 0)
        }),
{
    let link = match search::widget_of(page, "infiniteVirtualPaginator"@) {
        Some(p) => p.field("nextPage"@),
        None => JsonV::Null,
    };
    if let JsonV::Text(s) = link {
        if s.len() == 0 {
            assert(s =~= Seq::empty());
        }
    }
}

/// Where the next call of a chain starts: on the same page behind what this call went over,
/// while items are left; then on the next page, from its first item. It has seen all that this
/// call has, and is one call further.
pub proof fn next_calls_go_on(
    scan: Scan,
    all: Seq<JsonV>,
    next: search::NextPage,
    request: RequestV,
)
    requires
        all.len() <= usize::MAX,
        request.calls < 100,
    ensures
        ({
            let r = search::next_request(scan, all, next, request);
            &&& scan.offset < all.len() ==> r.url == request.url && r.offset == scan.offset
            &&& scan.offset >= all.len() && next.url is Some ==> Some(r.url) == next.url && r.offset
                == 0
            &&& r.seen == scan.seen
            &&& r.calls == request.calls + 1
            &&& r.version == request.version
        }),
        search::next_cursor_of(scan, all, next, request) is Some ==> {
            &&& search::distinct(scan.seen) < 500
            &&& request.calls + 1 < 100
            &&& scan.offset <= 10_000
            &&& scan.offset < all.len() || next.url is Some
        },
{
}

/// What a call warns of: that results may change always; that the paginator leads back to the
/// page, or nowhere safe, where it does; that the chain ends before the results do; and that a
/// price is outside the range that was asked for.
pub proof fn results_warn_of_what_is_so(
    scan: Scan,
    all: Seq<JsonV>,
    next: search::NextPage,
    request: RequestV,
    outside: bool,
)
    ensures
        ({
            let v = search::warnings_of(scan, all, next, request, outside);
            let more = scan.offset < all.len() || next.url is Some;
            &&& v.contains(Warning::SearchResultsMayChangeBetweenCalls)
            &&& v.contains(Warning::ContinuationStalled) == next.stalled
            &&& v.contains(Warning::UnsafePaginatorUrlIgnored) == (next.observed is Some
                && next.url is None && !next.stalled)
            &&& v.contains(Warning::ContinuationLimitReached) == (more && search::next_cursor_of(
                scan,
                all,
                next,
                request,
            ) is None)
            &&& v.contains(Warning::PriceOutsideRequestedRange) == outside
        }),
{
    let a = seq![Warning::SearchResultsMayChangeBetweenCalls];
    let b = search::noted(a, next.stalled, Warning::ContinuationStalled);
    let unsafe_link = next.observed is Some && next.url is None && !next.stalled;
    let c = search::noted(b, unsafe_link, Warning::UnsafePaginatorUrlIgnored);
    let cut = search::has_next_of(scan, all, next) == Some(true) && search::next_cursor_of(
        scan,
        all,
        next,
        request,
    ) is None;
    let d = search::noted(c, cut, Warning::ContinuationLimitReached);
    assert(a[0] == Warning::SearchResultsMayChangeBetweenCalls);
    assert forall|w: Warning| #[trigger] a.contains(w) == (w
        == Warning::SearchResultsMayChangeBetweenCalls) by {
    }
    lemma_noted(a, next.stalled, Warning::ContinuationStalled);
    lemma_noted(b, unsafe_link, Warning::UnsafePaginatorUrlIgnored);
    lemma_noted(c, cut, Warning::ContinuationLimitReached);
    lemma_noted(d, outside, Warning::PriceOutsideRequestedRange);
}

proof fn lemma_noted(v: Seq<Warning>, applies: bool, w: Warning)
    ensures
        forall|x: Warning| #[trigger]
            search::noted(v, applies, w).contains(x) == (v.contains(x) || (applies && x == w)),
{
    let all = search::noted(v, applies, w);
    assert forall|x: Warning| #[trigger] all.contains(x) == (v.contains(x) || (applies && x == w)) by {
        if applies {
            assert(all[v.len() as int] == w);
            if v.contains(x) {
                let i = choose|i: int| 0 <= i < v.len() && v[i] == x;
                assert(all[i] == x);
            }
            if all.contains(x) && x != w {
                let i = choose|i: int| 0 <= i < all.len() && all[i] == x;
                assert(v[i] == x);
            }
        }
    }
}

/// An article is named by its text or by its number.
pub proof fn articles_are_named_by_their_number(item: JsonV)
    ensures
        item.field("sku"@) matches JsonV::Text(s) ==> search::sku_of(item) == Some(s),
        item.field("sku"@) matches JsonV::Number(NumberV::Unsigned(n)) ==> search::sku_of(item)
            == Some(text::decimal(n as nat)),
        !(item.field("sku"@) is Text) && !(item.field("sku"@) is Number) ==> search::sku_of(item)
            is None,
{
}

/// The price of a product lies in a range where it is neither below its lower end nor above its
/// upper one; where no price or no range is known, nothing is said.
pub proof fn prices_in_a_range_lie_between_its_ends(
    product: JsonV,
    low: u64,
    high: u64,
    bits: u64,
    spelling: Seq<char>,
)
    ensures
        product.field("price"@) == JsonV::Number(NumberV::Real(bits, spelling))
            && double::is_finite(bits) ==> {
            let r = search::in_price_range(product, Some((low, high)));
            &&& r is Some
            &&& double::order(bits) < double::order(low) ==> r == Some(false)
            &&& double::order(bits) > double::order(high) ==> r == Some(false)
            &&& double::order(low) <= double::order(high) && (bits == low || bits
                == high) ==> r == Some(true)
            &&& r == Some(false) ==> double::order(bits) < double::order(low)
                || double::order(bits) > double::order(high)
        },
        search::in_price_range(product, None) is None,
        !(product.field("price"@) is Number) ==> search::in_price_range(
            product,
            Some((low, high)),
        ) is None,
{
}

/// A search item that shows a price has just that one: its amount in kopecks, its kind where
/// that is known, and its label.
pub proof fn search_prices_are_those_shown(item: JsonV, ev: Seq<char>, n: u64)
    requires
        n < 0x40_0000_0000,
    ensures
        item.field("price"@) == JsonV::Number(NumberV::Unsigned(n)) ==> {
            let prices = search_results::search_prices_of(item, ev);
            &&& prices.len() == 1
            &&& prices[0].field("amountMinor"@) == JsonV::unsigned((100 * n) as u64)
            &&& prices[0].field("currency"@) == JsonV::Text("RUB"@)
            &&& prices[0].field("condition"@) == (if item.field("priceLabel"@) is Text {
                item.field("priceLabel"@)
            } else {
                JsonV::Null
            })
            &&& prices[0].field("evidenceRefs"@) == JsonV::Array(seq![JsonV::Text(ev)])
            &&& item.field("priceType"@) == JsonV::Text("ozon_card"@) || item.field("priceType"@)
                == JsonV::Text("regular"@) ==> prices[0].field("type"@) == item.field("priceType"@)
        },
        !(item.field("price"@) is Number) ==> search_results::search_prices_of(item, ev).len()
            == 0,
{
    market_laws::whole_prices_are_counted_in_kopecks(n);
    if let Some(v) = marketplace::minor_units(item.field("price"@)) {
        let known = seq!["ozon_card"@, "regular"@, "unknown"@];
        assert(known[0] == "ozon_card"@ && known[1] == "regular"@);
        marketplace::prices_tell_their_amount(
            v,
            evidence::enum_text(item, "priceType"@, known, "unknown"@),
            item.field("priceLabel"@).as_text(),
            ev,
        );
    }
}

/// Whether a row shows an item of a search under the reference of its product, with evidence of
/// its own that says the same.
pub open spec fn row_shows_item(row: JsonV, item: JsonV, product_ref: Seq<char>, e: JsonV, site: SiteV) -> bool {
    &&& row.field("sku"@) == item.field("sku"@)
    &&& row.field("title"@) == item.field("name"@)
    &&& row.field("rating"@) == item.field("rating"@)
    &&& row.field("reviewCount"@) == item.field("reviews"@)
    &&& row.field("deliveryLabel"@) == item.field("deliveryLabel"@)
    &&& row.field("matchesDisplayedPriceRange"@) == item.field("matchesPriceRange"@)
    &&& row.field("url"@) == JsonV::optional_text(marketplace::canonical_in(item, "url"@))
    &&& row.field("productRef"@) == JsonV::Text(product_ref)
    &&& row.field("seller"@).field("name"@) == (if item.field("seller"@) is Text {
        item.field("seller"@)
    } else {
        JsonV::Null
    })
    &&& (row.field("imageRefs"@).elements().len() == 1) == (item.field("image"@) is Text)
    &&& row.field("evidenceRefs"@) == JsonV::Array(seq![e.field("evidenceRef"@)])
    &&& e.field("sku"@) == item.field("sku"@)
    &&& e.field("observedAt"@) == JsonV::Text(site.observed)
    &&& e.field("contextId"@) == JsonV::Text(site.context_id)
    &&& e.field("facts"@).elements().len() >= 4
    &&& market_laws::says(e.field("facts"@).elements()[0], "/title"@, row.field("title"@))
    &&& market_laws::says(e.field("facts"@).elements()[1], "/rating"@, row.field("rating"@))
    &&& market_laws::says(
        e.field("facts"@).elements()[2],
        "/reviewCount"@,
        row.field("reviewCount"@),
    )
    &&& market_laws::says(
        e.field("facts"@).elements()[3],
        "/deliveryLabel"@,
        row.field("deliveryLabel"@),
    )
}

proof fn lemma_row(acc: ItemsV, item: JsonV, index: nat, site: SiteV)
    ensures
        search_results::with_item(acc, item, index, site) matches Ok(next) ==> {
            &&& next.items.len() == acc.items.len() + 1
            &&& next.items.drop_last() == acc.items
            &&& next.refs.len() == acc.refs.len() + 1
            &&& next.refs.drop_last() == acc.refs
            &&& next.evidence.len() == acc.evidence.len() + 1
            &&& next.evidence.drop_last() == acc.evidence
            &&& row_shows_item(
                next.items.last(),
                item,
                next.refs.last(),
                next.evidence.last(),
                site,
            )
        },
{
    broadcast use json::lemma_get_with;

    reveal(search_results::with_item);
    if let Ok(next) = search_results::with_item(acc, item, index, site) {
        reveal_strlit("evidenceRef");
        reveal_strlit("sourceKind");
        reveal_strlit("sourceUrl");
        reveal_strlit("observedAt");
        reveal_strlit("contextId");
        reveal_strlit("sku");
        reveal_strlit("fieldPaths");
        reveal_strlit("facts");
        reveal_strlit("fieldPath");
        reveal_strlit("value");
        reveal_strlit("name");
        reveal_strlit("rating");
        reveal_strlit("url");
        reveal_strlit("evidenceRefs");
        assert("evidenceRef"@.len() == 11);
        assert("sourceKind"@.len() == 10);
        assert("sourceUrl"@.len() == 9);
        assert("observedAt"@.len() == 10);
        assert("contextId"@.len() == 9);
        assert("sku"@.len() == 3);
        assert("fieldPaths"@.len() == 10);
        assert("facts"@.len() == 5);
        assert("fieldPath"@.len() == 9);
        assert("value"@.len() == 5);
        assert("name"@.len() == 4);
        assert("rating"@.len() == 6);
        assert("url"@.len() == 3);
        assert("evidenceRefs"@.len() == 12);
        assert("sourceKind"@[0] == 's');
        assert("observedAt"@[0] == 'o');
        assert("fieldPaths"@[0] == 'f');
        assert("sourceUrl"@[0] == 's');
        assert("contextId"@[0] == 'c');
        assert("fieldPath"@[0] == 'f');
        assert("sku"@[0] == 's');
        assert("url"@[0] == 'u');
        assert("facts"@[0] == 'f');
        assert("value"@[0] == 'v');
        assert(next.items.drop_last() =~= acc.items);
        assert(next.refs.drop_last() =~= acc.refs);
        assert(next.evidence.drop_last() =~= acc.evidence);
        let sku = item.field("sku"@)->Text_0;
        let url = marketplace::canonical_in(item, "url"@)->Some_0;
        let product_ref = acc.ledger.next_ref();
        let noted = acc.ledger.put(
            site.research_id,
            "product"@,
            search_results::product_value_of(sku, url),
            None,
        );
        let ev = marketplace::evidence_name(noted.next());
        let image = search_results::item_image(noted.drawn(), item, product_ref, sku, url, site);
        search_results::search_rows_show_their_item(item, product_ref, sku, url, image.1, ev);
        let prices = search_results::search_prices_of(item, ev);
        let facts = search_results::item_facts_of(item, prices);
        assert(facts[0] == marketplace::fact_of("/title"@, item.field("name"@)));
        assert(facts[1] == marketplace::fact_of("/rating"@, item.field("rating"@)));
        assert(facts[2] == marketplace::fact_of("/reviewCount"@, item.field("reviews"@)));
        assert(facts[3] == marketplace::fact_of("/deliveryLabel"@, item.field("deliveryLabel"@)));
        let e = next.evidence.last();
        assert(e.field("facts"@) == JsonV::Array(facts));
    }
}

proof fn lemma_items(ledger: LedgerV, items: Seq<JsonV>, site: SiteV)
    ensures
        search_results::items_made(ledger, items, site) matches Ok(made) ==> {
            &&& made.items.len() == items.len()
            &&& made.refs.len() == items.len()
            &&& made.evidence.len() == items.len()
            &&& forall|i: int|
                0 <= i < items.len() ==> row_shows_item(
                    #[trigger] made.items[i],
                    items[i],
                    made.refs[i],
                    made.evidence[i],
                    site,
                )
        },
    decreases items.len(),
{
    if items.len() > 0 {
        let front = items.drop_last();
        lemma_items(ledger, front, site);
        if let Ok(made) = search_results::items_made(ledger, items, site) {
            let acc = search_results::items_made(ledger, front, site)->Ok_0;
            lemma_row(acc, items.last(), (items.len() - 1) as nat, site);
            assert forall|i: int| 0 <= i < items.len() implies row_shows_item(
                #[trigger] made.items[i],
                items[i],
                made.refs[i],
                made.evidence[i],
                site,
            ) by {
                if i < front.len() {
                    assert(made.items.drop_last()[i] == acc.items[i]);
                    assert(made.refs.drop_last()[i] == acc.refs[i]);
                    assert(made.evidence.drop_last()[i] == acc.evidence[i]);
                    assert(front[i] == items[i]);
                }
            }
        }
    }
}

/// An answer to a search shows every item that was observed, each in a row of its own, in order
/// and under its own reference and evidence. It is continued by the source's own cursor, where
/// there is one, and says whether there is more as the source does.
pub proof fn answers_show_every_item(
    raw: JsonV,
    ledger: LedgerV,
    research_id: Seq<char>,
    context_id: Seq<char>,
    region_verified: bool,
    include_facets: bool,
    observed: Seq<char>,
    i: int,
)
    ensures
        search_results::searched(
            raw,
            ledger,
            research_id,
            context_id,
            region_verified,
            include_facets,
            observed,
        ) matches Ok(made) ==> {
            let items = raw.field("items"@).elements();
            let rows = made.1.data.field("items"@).elements();
            let source_url = marketplace::canonical_in(raw, "searchUrl"@)->Some_0;
            let site = SiteV { source_url, research_id, context_id, observed };
            &&& rows.len() == items.len() <= 36
            &&& made.1.product_refs.len() == items.len()
            &&& made.1.evidence.len() == items.len()
            &&& 0 <= i < items.len() ==> row_shows_item(
                rows[i],
                items[i],
                made.1.product_refs[i],
                made.1.evidence[i],
                site,
            )
            &&& made.1.data.field("hasNext"@) == raw.field("hasNext"@)
            &&& (made.1.data.field("nextCursor"@) is Text) == (raw.field("nextCursor"@) is Text)
            &&& raw.field("nextCursor"@) is Text ==> {
                let w = made.0.writes.last();
                &&& made.1.data.field("nextCursor"@) == JsonV::Text(w.id)
                &&& w.kind == "search_cursor"@
                &&& w.research_id == research_id
                &&& w.value.field("cursor"@) == raw.field("nextCursor"@)
            }
            &&& !include_facets ==> made.1.data.field("refinements"@).elements().len() == 0
            &&& made.1.data.field("refinements"@).elements().len() <= 100
            &&& made.1.data.field("refinementsIncluded"@) == JsonV::Bool(include_facets)
            &&& made.1.data.field("coverage"@).field("returned"@) == JsonV::unsigned(
                items.len() as u64,
            )
            &&& made.1.data.field("coverage"@).field("total"@) == raw.field("total"@)
            &&& made.1.data.field("coverage"@).field("completeness"@) == JsonV::Text(
                if raw.field("nextCursor"@) is Text {
                    "partial"@
                } else if raw.field("hasNext"@) == JsonV::Bool(false) {
                    "complete"@
                } else {
                    "unknown"@
                },
            )
            &&& made.1.data.get("priceRangeAssessment"@) == raw.get("priceRangeAssessment"@)
        },
{
    broadcast use json::lemma_get_with;

    reveal_strlit("items");
    reveal_strlit("refinements");
    reveal_strlit("refinementsIncluded");
    reveal_strlit("refinementsTruncated");
    reveal_strlit("nextCursor");
    reveal_strlit("hasNext");
    reveal_strlit("coverage");
    reveal_strlit("priceRangeAssessment");
    reveal_strlit("cursor");
    reveal_strlit("presentation");
    assert("items"@.len() == 5);
    assert("refinements"@.len() == 11);
    assert("refinementsIncluded"@.len() == 19);
    assert("refinementsTruncated"@.len() == 20);
    assert("nextCursor"@.len() == 10);
    assert("hasNext"@.len() == 7);
    assert("coverage"@.len() == 8);
    assert("priceRangeAssessment"@.len() == 20);
    assert("cursor"@.len() == 6);
    assert("presentation"@.len() == 12);
    assert("refinementsTruncated"@[0] == 'r');
    assert("priceRangeAssessment"@[0] == 'p');
    if let Ok(made) = search_results::searched(
        raw,
        ledger,
        research_id,
        context_id,
        region_verified,
        include_facets,
        observed,
    ) {
        let items = raw.field("items"@).elements();
        let source_url = marketplace::canonical_in(raw, "searchUrl"@)->Some_0;
        let site = SiteV { source_url, research_id, context_id, observed };
        lemma_items(ledger, items, site);
        let rows = search_results::items_made(ledger, items, site)->Ok_0;
        lemma_offers(
            rows.ledger,
            marketplace::first_values(search_results::all_offers(raw), 100),
            research_id,
        );
        let seen = match raw.field("coverage"@).field("uniqueSeen"@).as_unsigned() {
            Some(n) => n,
            None => items.len() as u64,
        };
        let cursor = made.1.data.field("nextCursor"@);
        search_results::coverages_tell_what_was_returned(
            items.len(),
            seen,
            raw.field("total"@),
            search_results::completeness_of(
                raw.field("nextCursor"@) is Text,
                raw.field("hasNext"@),
            ),
        );
        assert(made.1.data.field("items"@) == JsonV::Array(rows.items));
    }
}

proof fn lemma_offers(ledger: LedgerV, offers: Seq<OfferV>, research_id: Seq<char>)
    ensures
        ({
            let made = search_results::offers_made(ledger, offers, research_id);
            &&& made.1.len() == offers.len()
            &&& made.0.writes.len() == ledger.writes.len() + offers.len()
            &&& forall|k: int|
                0 <= k < offers.len() ==> leads_to_offer(
                    #[trigger] made.1[k],
                    made.0.writes[ledger.writes.len() + k],
                    offers[k],
                    research_id,
                )
        }),
    decreases offers.len(),
{
    broadcast use json::lemma_get_with;

    reveal_strlit("kind");
    reveal_strlit("label");
    reveal_strlit("groupLabel");
    reveal_strlit("selected");
    reveal_strlit("searchRef");
    assert("kind"@.len() == 4);
    assert("label"@.len() == 5);
    assert("groupLabel"@.len() == 10);
    assert("selected"@.len() == 8);
    assert("searchRef"@.len() == 9);
    if offers.len() > 0 {
        let front = offers.drop_last();
        lemma_offers(ledger, front, research_id);
        let before = search_results::offers_made(ledger, front, research_id);
        let made = search_results::offers_made(ledger, offers, research_id);
        assert forall|k: int| 0 <= k < offers.len() implies leads_to_offer(
            #[trigger] made.1[k],
            made.0.writes[ledger.writes.len() + k],
            offers[k],
            research_id,
        ) by {
            if k < front.len() {
                assert(made.1[k] == before.1[k]);
                assert(made.0.writes[ledger.writes.len() + k] == before.0.writes[
                ledger.writes.len() + k]);
                assert(front[k] == offers[k]);
            }
        }
    }
}

/// Whether a row shows a refinement and names the reference that holds its search.
pub open spec fn leads_to_offer(
    row: JsonV,
    w: RefWriteV,
    offer: OfferV,
    research_id: Seq<char>,
) -> bool {
    &&& row.field("kind"@) == JsonV::Text(offer.kind)
    &&& row.field("label"@) == JsonV::Text(offer.label)
    &&& row.field("groupLabel"@) == offer.group
    &&& row.field("selected"@) == offer.selected
    &&& row.field("searchRef"@) == JsonV::Text(w.id)
    &&& w.kind == "search_ref"@
    &&& w.research_id == research_id
    &&& w.value.field("searchUrl"@) == JsonV::Text(offer.url)
}

/// Each refinement that a search offers has a row, in order, which names the reference under
/// which its search is stored.
pub proof fn refinements_lead_to_their_search(
    ledger: LedgerV,
    raw: JsonV,
    research_id: Seq<char>,
    k: int,
)
    ensures
        ({
            let offers = search_results::all_offers(raw);
            let made = search_results::refinements_made(ledger, raw, research_id);
            &&& made.1.len() <= 100 && made.1.len() <= offers.len()
            &&& made.1.len() == offers.len() || made.1.len() == 100
            &&& 0 <= k < made.1.len() ==> leads_to_offer(
                made.1[k],
                made.0.writes[ledger.writes.len() + k],
                offers[k],
                research_id,
            )
        }),
{
    lemma_offers(
        ledger,
        marketplace::first_values(search_results::all_offers(raw), 100),
        research_id,
    );
}

proof fn lemma_row_offers(
    kind: Seq<char>,
    rows: Seq<JsonV>,
    group: JsonV,
    selected: Option<JsonV>,
    j: int,
)
    requires
        0 <= j < rows.len(),
        rows[j].field("label"@) is Text,
        rows[j].field("searchUrl"@) is Text,
    ensures
        search_results::row_offers(kind, rows, group, selected).contains(
            OfferV {
                kind,
                label: rows[j].field("label"@)->Text_0,
                url: rows[j].field("searchUrl"@)->Text_0,
                group,
                selected: match selected {
                    Some(s) => s,
                    None => rows[j].field("selected"@),
                },
            },
        ),
    decreases rows.len(),
{
    let front = rows.drop_last();
    let before = search_results::row_offers(kind, front, group, selected);
    let all = search_results::row_offers(kind, rows, group, selected);
    let x = OfferV {
        kind,
        label: rows[j].field("label"@)->Text_0,
        url: rows[j].field("searchUrl"@)->Text_0,
        group,
        selected: match selected {
            Some(s) => s,
            None => rows[j].field("selected"@),
        },
    };
    if j < front.len() {
        assert(front[j] == rows[j]);
        lemma_row_offers(kind, front, group, selected, j);
        let k = choose|k: int| 0 <= k < before.len() && before[k] == x;
        assert(all[k] == x);
    } else {
        assert(all[before.len() as int] == x);
    }
}

/// Every option of a filter that has a label and a search is offered, in the group of the filter
/// and as selected as it is; so is every order, and every value that is selected.
pub proof fn options_and_orders_are_offered(raw: JsonV, f: int, j: int)
    ensures
        ({
            let facets = raw.field("facets"@).field("items"@).elements();
            let option = facets[f].field("options"@).elements()[j];
            0 <= f < facets.len() && 0 <= j < facets[f].field("options"@).elements().len()
                && option.field("label"@) is Text && option.field("searchUrl"@) is Text
                ==> search_results::all_offers(raw).contains(
                OfferV {
                    kind: "filter"@,
                    label: option.field("label"@)->Text_0,
                    url: option.field("searchUrl"@)->Text_0,
                    group: facets[f].field("title"@),
                    selected: option.field("selected"@),
                },
            )
        }),
        ({
            let orders = raw.field("sortOptions"@).elements();
            let order = orders[j];
            0 <= j < orders.len() && order.field("label"@) is Text && order.field("searchUrl"@)
                is Text ==> search_results::all_offers(raw).contains(
                OfferV {
                    kind: "sort"@,
                    label: order.field("label"@)->Text_0,
                    url: order.field("searchUrl"@)->Text_0,
                    group: JsonV::Text("Сортировка"@),
                    selected: order.field("selected"@),
                },
            )
        }),
        ({
            let active = raw.field("activeFilters"@).elements();
            let value = active[f].field("values"@).elements()[j];
            0 <= f < active.len() && 0 <= j < active[f].field("values"@).elements().len()
                && value.field("label"@) is Text && value.field("searchUrl"@) is Text
                ==> search_results::all_offers(raw).contains(
                OfferV {
                    kind: "filter"@,
                    label: value.field("label"@)->Text_0,
                    url: value.field("searchUrl"@)->Text_0,
                    group: active[f].field("name"@),
                    selected: JsonV::Bool(true),
                },
            )
        }),
{
    let a = search_results::facet_offers(raw.field("facets"@).field("items"@).elements());
    let b = search_results::row_offers(
        "sort"@,
        raw.field("sortOptions"@).elements(),
        JsonV::Text("Сортировка"@),
        None,
    );
    let c = search_results::active_offers(raw.field("activeFilters"@).elements());
    let facets = raw.field("facets"@).field("items"@).elements();
    if 0 <= f < facets.len() && 0 <= j < facets[f].field("options"@).elements().len() {
        let option = facets[f].field("options"@).elements()[j];
        if option.field("label"@) is Text && option.field("searchUrl"@) is Text {
            lemma_facet_offers(facets, f, j);
            let x = OfferV {
                kind: "filter"@,
                label: option.field("label"@)->Text_0,
                url: option.field("searchUrl"@)->Text_0,
                group: facets[f].field("title"@),
                selected: option.field("selected"@),
            };
            lemma_among(a, b, c, x);
        }
    }
    let orders = raw.field("sortOptions"@).elements();
    if 0 <= j < orders.len() && orders[j].field("label"@) is Text && orders[j].field("searchUrl"@)
        is Text {
        lemma_row_offers("sort"@, orders, JsonV::Text("Сортировка"@), None, j);
        let x = OfferV {
            kind: "sort"@,
            label: orders[j].field("label"@)->Text_0,
            url: orders[j].field("searchUrl"@)->Text_0,
            group: JsonV::Text("Сортировка"@),
            selected: orders[j].field("selected"@),
        };
        lemma_among(a, b, c, x);
    }
    let active = raw.field("activeFilters"@).elements();
    if 0 <= f < active.len() && 0 <= j < active[f].field("values"@).elements().len() {
        let value = active[f].field("values"@).elements()[j];
        if value.field("label"@) is Text && value.field("searchUrl"@) is Text {
            lemma_active_offers(active, f, j);
            let x = OfferV {
                kind: "filter"@,
                label: value.field("label"@)->Text_0,
                url: value.field("searchUrl"@)->Text_0,
                group: active[f].field("name"@),
                selected: JsonV::Bool(true),
            };
            lemma_among(a, b, c, x);
        }
    }
}

proof fn lemma_among(a: Seq<OfferV>, b: Seq<OfferV>, c: Seq<OfferV>, x: OfferV)
    ensures
        a.contains(x) || b.contains(x) || c.contains(x) ==> (a + b + c).contains(x),
{
    let all = a + b + c;
    if a.contains(x) {
        let i = choose|i: int| 0 <= i < a.len() && a[i] == x;
        assert(all[i] == x);
    }
    if b.contains(x) {
        let i = choose|i: int| 0 <= i < b.len() && b[i] == x;
        assert(all[a.len() + i] == x);
    }
    if c.contains(x) {
        let i = choose|i: int| 0 <= i < c.len() && c[i] == x;
        assert(all[a.len() + b.len() + i] == x);
    }
}

proof fn lemma_facet_offers(facets: Seq<JsonV>, f: int, j: int)
    requires
        0 <= f < facets.len(),
        0 <= j < facets[f].field("options"@).elements().len(),
        facets[f].field("options"@).elements()[j].field("label"@) is Text,
        facets[f].field("options"@).elements()[j].field("searchUrl"@) is Text,
    ensures
        search_results::facet_offers(facets).contains(
            OfferV {
                kind: "filter"@,
                label: facets[f].field("options"@).elements()[j].field("label"@)->Text_0,
                url: facets[f].field("options"@).elements()[j].field("searchUrl"@)->Text_0,
                group: facets[f].field("title"@),
                selected: facets[f].field("options"@).elements()[j].field("selected"@),
            },
        ),
    decreases facets.len(),
{
    let front = facets.drop_last();
    let facet = facets.last();
    let a = search_results::facet_offers(front);
    let b = search_results::offer_of(
        "filter"@,
        facet,
        "title"@,
        facet.field("title"@),
        facet.field("selected"@),
    );
    let c = search_results::row_offers(
        "filter"@,
        facet.field("options"@).elements(),
        facet.field("title"@),
        None,
    );
    let x = OfferV {
        kind: "filter"@,
        label: facets[f].field("options"@).elements()[j].field("label"@)->Text_0,
        url: facets[f].field("options"@).elements()[j].field("searchUrl"@)->Text_0,
        group: facets[f].field("title"@),
        selected: facets[f].field("options"@).elements()[j].field("selected"@),
    };
    if f < front.len() {
        assert(front[f] == facets[f]);
        lemma_facet_offers(front, f, j);
    } else {
        lemma_row_offers("filter"@, facet.field("options"@).elements(), facet.field("title"@), None, j);
    }
    lemma_among(a, b, c, x);
}

proof fn lemma_active_offers(active: Seq<JsonV>, f: int, j: int)
    requires
        0 <= f < active.len(),
        0 <= j < active[f].field("values"@).elements().len(),
        active[f].field("values"@).elements()[j].field("label"@) is Text,
        active[f].field("values"@).elements()[j].field("searchUrl"@) is Text,
    ensures
        search_results::active_offers(active).contains(
            OfferV {
                kind: "filter"@,
                label: active[f].field("values"@).elements()[j].field("label"@)->Text_0,
                url: active[f].field("values"@).elements()[j].field("searchUrl"@)->Text_0,
                group: active[f].field("name"@),
                selected: JsonV::Bool(true),
            },
        ),
    decreases active.len(),
{
    let front = active.drop_last();
    let a = search_results::active_offers(front);
    let b = search_results::row_offers(
        "filter"@,
        active.last().field("values"@).elements(),
        active.last().field("name"@),
        Some(JsonV::Bool(true)),
    );
    let x = OfferV {
        kind: "filter"@,
        label: active[f].field("values"@).elements()[j].field("label"@)->Text_0,
        url: active[f].field("values"@).elements()[j].field("searchUrl"@)->Text_0,
        group: active[f].field("name"@),
        selected: JsonV::Bool(true),
    };
    if f < front.len() {
        assert(front[f] == active[f]);
        lemma_active_offers(front, f, j);
    } else {
        lemma_row_offers(
            "filter"@,
            active.last().field("values"@).elements(),
            active.last().field("name"@),
            Some(JsonV::Bool(true)),
            j,
        );
    }
    lemma_among(a, b, Seq::empty(), x);
    assert(a + b + Seq::<OfferV>::empty() =~= a + b);
}

/// A region that was not verified is warned of.
pub proof fn unverified_regions_are_warned_of(raw: JsonV)
    ensures
        search_results::search_warnings(raw, true) == marketplace::source_warnings_of(raw),
        ({
            let v = search_results::search_warnings(raw, false);
            &&& v.len() == marketplace::source_warnings_of(raw).len() + 1
            &&& v.last().field("code"@) == JsonV::Text("REGION_UNVERIFIED"@)
            &&& v.drop_last() == marketplace::source_warnings_of(raw)
        }),
{
    broadcast use json::lemma_get_with;

    reveal_strlit("code");
    reveal_strlit("message");
    reveal_strlit("evidenceRefs");
    assert("code"@.len() == 4);
    assert("message"@.len() == 7);
    assert("evidenceRefs"@.len() == 12);
    let v = search_results::search_warnings(raw, false);
    assert(v.drop_last() =~= marketplace::source_warnings_of(raw));
}

} // verus!
