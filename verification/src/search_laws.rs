//! What holds of every chain of search calls.

use crate::failure::FailureV;
use crate::json::{self, JsonV};
use crate::search::{self, NextPage, RequestV, Scan, SearchArgsV};
use crate::text;
use vstd::prelude::*;

verus! {

/// Whether a walk has taken each article once, each of them new.
pub open spec fn takes_once(all: Seq<JsonV>, limit: nat, known: Seq<Seq<char>>, at: Scan) -> bool {
    &&& at.seen.no_duplicates()
    &&& at.seen.len() == known.len() + at.products.len()
    &&& at.seen.take(known.len() as int) == known
    &&& at.offset <= all.len()
    &&& at.products.len() <= limit
    &&& at.seen.len() <= search::MAX_SEEN
    &&& forall|i: int| 0 <= i < at.seen.len() ==> search::is_sku(#[trigger] at.seen[i])
    &&& forall|i: int|
        0 <= i < at.products.len() ==> search::sku_of(#[trigger] at.products[i]) == Some(
            at.seen[known.len() + i],
        )
}

proof fn lemma_takes_once(all: Seq<JsonV>, limit: nat, known: Seq<Seq<char>>, at: Scan)
    requires
        takes_once(all, limit, known, at),
    ensures
        takes_once(all, limit, known, search::scanned(all, limit, at)),
    decreases all.len() - at.offset,
{
    search::lemma_distinct(at.seen);
    if at.offset < all.len() && at.products.len() < limit && search::distinct(at.seen)
        < search::MAX_SEEN {
        let item = all[at.offset as int];
        match search::sku_of(item) {
            Some(s) => if search::is_sku(s) && !at.seen.contains(s) {
                let next = Scan {
                    products: at.products.push(item),
                    seen: at.seen.push(s),
                    offset: at.offset + 1,
                };
                assert(next.seen.take(known.len() as int) =~= at.seen.take(known.len() as int));
                assert(takes_once(all, limit, known, next));
                lemma_takes_once(all, limit, known, next);
            } else {
                lemma_takes_once(all, limit, known, Scan { offset: at.offset + 1, ..at });
            },
            None => {
                lemma_takes_once(all, limit, known, Scan { offset: at.offset + 1, ..at });
            },
        }
    }
}

/// No article is shown twice in a chain of calls: a call shows at most as many as it may, none
/// of which an earlier call has shown, and remembers all of them.
pub proof fn articles_are_shown_once(all: Seq<JsonV>, limit: nat, request: RequestV)
    requires
        request.valid(),
    ensures
        takes_once(all, limit, request.seen, search::scan_of(all, limit, request)),
{
    let start = Scan {
        products: Seq::empty(),
        seen: request.seen,
        offset: if request.offset <= all.len() {
            request.offset as nat
        } else {
            all.len()
        },
    };
    assert(request.seen.take(request.seen.len() as int) =~= request.seen);
    lemma_takes_once(all, limit, request.seen, start);
}

/// Whether an article with a proper number is known.
pub open spec fn is_consumed(item: JsonV, seen: Seq<Seq<char>>) -> bool {
    match search::sku_of(item) {
        Some(s) => search::is_sku(s) ==> seen.contains(s),
        None => true,
    }
}

proof fn lemma_consumes(all: Seq<JsonV>, limit: nat, from: int, at: Scan)
    requires
        0 <= from <= at.offset <= all.len(),
        forall|i: int| from <= i < at.offset ==> is_consumed(#[trigger] all[i], at.seen),
    ensures
        at.offset <= search::scanned(all, limit, at).offset <= all.len(),
        forall|i: int|
            from <= i < search::scanned(all, limit, at).offset ==> is_consumed(
                #[trigger] all[i],
                search::scanned(all, limit, at).seen,
            ),
        search::scanned(all, limit, at).offset < all.len() ==> search::scanned(
            all,
            limit,
            at,
        ).products.len() >= limit || search::distinct(search::scanned(all, limit, at).seen)
            >= search::MAX_SEEN,
    decreases all.len() - at.offset,
{
    if at.offset < all.len() && at.products.len() < limit && search::distinct(at.seen)
        < search::MAX_SEEN {
        let item = all[at.offset as int];
        let skipped = Scan { offset: at.offset + 1, ..at };
        match search::sku_of(item) {
            Some(s) => if search::is_sku(s) && !at.seen.contains(s) {
                let next = Scan {
                    products: at.products.push(item),
                    seen: at.seen.push(s),
                    offset: at.offset + 1,
                };
                assert forall|i: int| from <= i < next.offset implies is_consumed(
                    #[trigger] all[i],
                    next.seen,
                ) by {
                    if i < at.offset {
                        assert(is_consumed(all[i], at.seen));
                        if let Some(t) = search::sku_of(all[i]) {
                            if search::is_sku(t) {
                                let k = choose|k: int| 0 <= k < at.seen.len() && at.seen[k] == t;
                                assert(next.seen[k] == t);
                            }
                        }
                    } else {
                        assert(next.seen[at.seen.len() as int] == s);
                    }
                }
                lemma_consumes(all, limit, from, next);
            } else {
                lemma_consumes(all, limit, from, skipped);
            },
            None => {
                lemma_consumes(all, limit, from, skipped);
            },
        }
    }
}

/// A call passes over no article that it does not know then, and stops before the end of the
/// page only at its own limit or that of the chain.
pub proof fn calls_advance_over_known_articles(all: Seq<JsonV>, limit: nat, request: RequestV)
    requires
        request.offset <= all.len(),
    ensures
        ({
            let scan = search::scan_of(all, limit, request);
            &&& request.offset <= scan.offset <= all.len()
            &&& forall|i: int|
                request.offset <= i < scan.offset ==> is_consumed(#[trigger] all[i], scan.seen)
            &&& scan.offset < all.len() ==> scan.products.len() >= limit || search::distinct(
                scan.seen,
            ) >= search::MAX_SEEN
        }),
{
    lemma_consumes(
        all,
        limit,
        request.offset as int,
        Scan { products: Seq::empty(), seen: request.seen, offset: request.offset as nat },
    );
}

/// Checking prices against a range moves and drops no product, and changes nothing of it but
/// the note of the check.
pub proof fn checked_products_stay_as_they_are(
    products: Seq<JsonV>,
    bounds: Option<(u64, u64)>,
    i: int,
    key: Seq<char>,
)
    requires
        0 <= i < products.len(),
        products[i] is Object,
        key != "matchesPriceRange"@,
    ensures
        search::annotated(products, bounds).len() == products.len(),
        search::annotated(products, bounds)[i].get(key) == products[i].get(key),
        search::annotated(products, bounds)[i].get("matchesPriceRange"@) == Some(
            search::optional_bool(search::in_price_range(products[i], bounds)),
        ),
{
    broadcast use json::lemma_get_with;

}

proof fn lemma_request_object(r: RequestV)
    ensures
        search::decoded_request(search::request_json(r)) == Some(r),
{
    broadcast use json::lemma_get_with;

    reveal_strlit("version");
    reveal_strlit("url");
    reveal_strlit("offset");
    reveal_strlit("seen");
    reveal_strlit("calls");
    let j = search::request_json(r);
    let seen = JsonV::Array(Seq::new(r.seen.len(), |i: int| JsonV::Text(r.seen[i])));
    assert(j.get("version"@) == Some(JsonV::unsigned(r.version as u64)));
    assert(j.get("url"@) == Some(JsonV::Text(r.url)));
    assert(j.get("offset"@) == Some(JsonV::unsigned(r.offset as u64)));
    assert(j.get("seen"@) == Some(seen));
    assert(j.get("calls"@) == Some(JsonV::unsigned(r.calls as u64)));
    assert(search::as_texts(seen)->Some_0 =~= r.seen);
    let empty = Seq::<(Seq<char>, JsonV)>::empty();
    let a = json::placed(empty, "version"@, JsonV::unsigned(r.version as u64));
    let b = json::placed(a, "url"@, JsonV::Text(r.url));
    let c = json::placed(b, "offset"@, JsonV::unsigned(r.offset as u64));
    let d = json::placed(c, "seen"@, seen);
    let e = json::placed(d, "calls"@, JsonV::unsigned(r.calls as u64));
    lemma_placed_keys(empty, "version"@, JsonV::unsigned(r.version as u64));
    lemma_placed_keys(a, "url"@, JsonV::Text(r.url));
    lemma_placed_keys(b, "offset"@, JsonV::unsigned(r.offset as u64));
    lemma_placed_keys(c, "seen"@, seen);
    lemma_placed_keys(d, "calls"@, JsonV::unsigned(r.calls as u64));
    assert(j == JsonV::Object(e));
}

/// Whether the keys of an object are all those of a request.
pub open spec fn has_request_keys(m: Seq<(Seq<char>, JsonV)>) -> bool {
    forall|i: int| 0 <= i < m.len() ==> search::is_request_key((#[trigger] m[i]).0)
}

proof fn lemma_placed_keys(m: Seq<(Seq<char>, JsonV)>, key: Seq<char>, value: JsonV)
    requires
        has_request_keys(m),
        search::is_request_key(key),
    ensures
        has_request_keys(json::placed(m, key, value)),
    decreases m.len(),
{
    if m.len() > 0 {
        let rest = m.drop_first();
        assert forall|i: int| 0 <= i < rest.len() implies search::is_request_key(
            (#[trigger] rest[i]).0,
        ) by {
            assert(rest[i] == m[i + 1]);
        }
        lemma_placed_keys(rest, key, value);
        assert(search::is_request_key(m[0].0));
    }
}

/// The request behind a call of a chain holds what every request of a chain does.
pub proof fn chains_stay_valid(
    all: Seq<JsonV>,
    limit: nat,
    next: NextPage,
    request: RequestV,
)
    requires
        request.valid(),
    ensures
        ({
            let scan = search::scan_of(all, limit, request);
            !search::capped(scan, request) ==> search::next_request(
                scan,
                all,
                next,
                request,
            ).valid()
        }),
{
    articles_are_shown_once(all, limit, request);
    search::lemma_distinct(search::scan_of(all, limit, request).seen);
}

/// The arguments that continue with a cursor.
pub open spec fn continuing(cursor: Seq<char>, limit: usize, facets: Option<bool>) -> SearchArgsV {
    SearchArgsV {
        query: None,
        search_url: None,
        next_cursor: Some(cursor),
        include_facets: facets,
        sort: None,
        price_min: None,
        price_max: None,
        limit,
    }
}

/// A cursor that a call hands out continues its chain: it is accepted, and read back it is the
/// very request that the call left off at. On a page that is not used up that is the same page
/// from the first article that was not consumed; else it is the start of the page that the
/// paginator names. That request is again one that can be continued.
pub proof fn cursors_are_read_back(
    all: Seq<JsonV>,
    args: SearchArgsV,
    next: NextPage,
    request: RequestV,
    cursor: Seq<char>,
    limit: usize,
    facets: Option<bool>,
)
    requires
        request.valid(),
        search::is_settled(request.url),
        1 <= limit <= 36,
        search::next_cursor_of(
            search::scan_of(all, args.limit as nat, request),
            all,
            next,
            request,
        ) == Some(cursor),
        search::spells_next(
            search::scan_of(all, args.limit as nat, request),
            all,
            next,
            request,
        ),
    ensures
        ({
            let scan = search::scan_of(all, args.limit as nat, request);
            let left = search::next_request(scan, all, next, request);
            &&& search::prepared(continuing(cursor, limit, facets)) == Ok::<RequestV, FailureV>(
                left,
            )
            &&& left.valid()
            &&& search::is_settled(left.url)
            &&& left.seen == scan.seen
            &&& scan.offset < all.len() ==> left.url == request.url && left.offset == scan.offset
            &&& scan.offset >= all.len() ==> Some(left.url) == next.url && left.offset == 0
        }),
{
    let left = search::next_request(
        search::scan_of(all, args.limit as nat, request),
        all,
        next,
        request,
    );
    chains_stay_valid(all, args.limit as nat, next, request);
    lemma_request_object(left);
    search::normalized_urls_stay(left.url);
}

/// The arguments that start at a URL.
pub open spec fn starting_at(url: Seq<char>, limit: usize) -> SearchArgsV {
    SearchArgsV {
        query: None,
        search_url: Some(url),
        next_cursor: None,
        include_facets: None,
        sort: None,
        price_min: None,
        price_max: None,
        limit,
    }
}

/// The path of a request loses nothing but the name of the site: it leads to a search or a
/// category, and a search that starts at the site with that path is the same request again.
pub proof fn paths_are_prepared_again(url: Seq<char>, limit: usize)
    requires
        search::is_settled(url),
        1 <= limit <= 36,
    ensures
        ({
            let path = search::below_site(url);
            &&& text::starts(path, "/search/"@) || text::starts(path, "/category/"@)
            &&& search::prepared(starting_at("https://www.ozon.ru"@ + path, limit)) == Ok::<
                RequestV,
                FailureV,
            >(RequestV { version: 1, url, offset: 0, seen: Seq::empty(), calls: 0 })
        }),
{
    search::normalized_urls_stay(url);
}

/// A chain of calls ends: each call makes one of its limits nearer.
pub proof fn chains_are_bounded(all: Seq<JsonV>, limit: nat, next: NextPage, request: RequestV)
    requires
        request.valid(),
    ensures
        search::next_cursor_of(search::scan_of(all, limit, request), all, next, request) is Some
            ==> request.calls < search::next_request(
            search::scan_of(all, limit, request),
            all,
            next,
            request,
        ).calls < search::MAX_CALLS,
{
}

/// A search in a range of prices asks for just the prices between the bounds that are given. Its
/// range is read back as two amounts, and a price lies between them exactly when it was asked
/// for. Bounds in the wrong order, or too large, are refused, and without bounds the search stays
/// as it is.
pub proof fn price_ranges_hold_what_is_asked(url: Seq<char>, min: Option<u64>, max: Option<u64>)
    ensures
        min is None && max is None ==> search::priced(url, min, max) == Ok::<_, FailureV>(url),
        (min is Some || max is Some) && search::priced(url, min, max) is Ok ==> exists|
            low: nat,
            high: nat,
        |
            search::refined(
                url,
                "currency_price"@,
                Some(#[trigger] search::range_text(low, high)),
            ) == Some(search::priced(url, min, max)->Ok_0) && search::is_asked(low, high, min, max),
        (min matches Some(a) && max matches Some(b) && a > b) ==> search::priced(
            url,
            min,
            max,
        ) is Err,
        (min matches Some(a) && a > search::MAX_PRICE) || (max matches Some(b) && b
            > search::MAX_PRICE) ==> search::priced(url, min, max) is Err,
{
    reveal_strlit(".000;");
    reveal_strlit(".000");
    reveal_strlit(";");
    let low: u64 = if min is Some {
        min->Some_0
    } else {
        0
    };
    let high: u64 = if max is Some {
        max->Some_0
    } else if low > 99_999_999 {
        low
    } else {
        99_999_999
    };
    assert(search::price_range(low, high) =~= search::range_text(low as nat, high as nat));
    if search::priced(url, min, max) is Ok && (min is Some || max is Some) {
        assert(search::is_asked(low as nat, high as nat, min, max));
    }
}

/// Every price up to the highest that is asked for lies within the range of a search that asks
/// for no lowest price.
pub proof fn cheap_products_stay_in_range(low: nat, high: nat, max: u64, price: nat)
    requires
        search::is_asked(low, high, None, Some(max)),
    ensures
        low <= price <= high <==> price <= max,
{
    assert(search::within(price, low, high) <==> price <= max);
}

} // verus!
