//! What a call asks the source for, and what becomes of what the source answers.

use crate::evidence;
use crate::failure::FailureV;
use crate::json::{self, JsonV};
use crate::ledger::StoredRefV;
use crate::marketplace;
use crate::model::{self, Warning};
use crate::operations::{self, FetchedV, OperationResultV, OperationV, PreparedV, ScenarioV, StepV};
use crate::parse;
use crate::presentation;
use crate::review_call::{self, ProgressV, ReviewSourceV, ReviewStart};
use crate::search_call::{self, SearchStartV};
use crate::text;
use vstd::prelude::*;

verus! {

/// A search call starts from what it names: the refinements that it goes on with, else the words
/// that it looks for, else the search that it narrows, else the page that it goes on from.
pub proof fn searches_start_where_they_say(args: JsonV)
    ensures
        ({
            let start = args.field("start"@);
            let r = search_call::start_of(args);
            let more = start.field("refinementsCursor"@);
            let words = start.field("query"@);
            let narrowed = start.field("searchRef"@);
            let page = start.field("cursor"@);
            &&& more is Text ==> r == Ok::<_, FailureV>(SearchStartV::Refinements(more->Text_0))
            &&& more !is Text && words is Text ==> r == Ok::<_, FailureV>(
                SearchStartV::Query(words->Text_0),
            )
            &&& more !is Text && words !is Text && narrowed is Text ==> r == Ok::<_, FailureV>(
                SearchStartV::Refined(narrowed->Text_0),
            )
            &&& more !is Text && words !is Text && narrowed !is Text && page is Text ==> r == Ok::<
                _,
                FailureV,
            >(SearchStartV::Cursor(page->Text_0))
            &&& more !is Text && words !is Text && narrowed !is Text && page !is Text ==> r is Err
        }),
{
}

/// The source is asked for the prices of the call, the lowest as the lowest and the highest as
/// the highest, and for as many products as the call asks for.
pub proof fn searches_ask_for_what_the_call_asks(
    args: JsonV,
    query: Option<Seq<char>>,
    url: Option<Seq<char>>,
    cursor: Option<Seq<char>>,
)
    ensures
        ({
            let asked = search_call::search_args_of(args, query, url, cursor);
            let range = args.field("start"@).field("priceRange"@);
            &&& asked.query == query && asked.search_url == url && asked.next_cursor == cursor
            &&& asked.sort is None
            &&& asked.price_min == range.field("minMinor"@).as_unsigned()
            &&& asked.price_max == range.field("maxMinor"@).as_unsigned()
            &&& args.field("limit"@).as_unsigned() matches Some(n) ==> asked.limit == n as usize
            &&& args.field("limit"@).as_unsigned() is None ==> asked.limit == 12
            &&& asked.include_facets == Some(args.field("includeFacets"@) != JsonV::Bool(false))
        }),
{
}

/// A stored reference serves the context and the research that it was made in, and no other.
pub proof fn references_serve_their_own_context(
    stored: StoredRefV,
    args: JsonV,
    context_id: Seq<char>,
)
    ensures
        search_call::bound_problem(stored, args, context_id) is None <==> stored.context_id
            == context_id && (args.field("researchId"@) is Text ==> args.field("researchId"@)
            == JsonV::Text(stored.research_id)),
{
}

proof fn lemma_before(a: Seq<char>, b: Seq<char>, c: Seq<char>)
    ensures
        !text::before(a, a),
        text::before(a, b) && text::before(b, c) ==> text::before(a, c),
        !text::before(a, b) && !text::before(b, c) ==> !text::before(a, c),
    decreases a.len(),
{
    if a.len() > 0 && b.len() > 0 && c.len() > 0 {
        lemma_before(
            a.subrange(1, a.len() as int),
            b.subrange(1, b.len() as int),
            c.subrange(1, c.len() as int),
        );
    } else if a.len() > 0 {
        lemma_before(
            a.subrange(1, a.len() as int),
            a.subrange(1, a.len() as int),
            a.subrange(1, a.len() as int),
        );
    }
}

/// The oldest time of some evidence is the time of one of them, and none of them is older.
pub proof fn oldest_times_are_oldest(evidence: Seq<JsonV>, i: int)
    requires
        0 <= i < evidence.len(),
        evidence[i].field("observedAt"@) is Text,
    ensures
        ({
            let t = search_call::earliest(evidence);
            &&& t is Some
            &&& !text::before(evidence[i].field("observedAt"@)->Text_0, t->Some_0)
            &&& exists|k: int|
                0 <= k < evidence.len() && (#[trigger] evidence[k]).field("observedAt"@)
                    == JsonV::Text(t->Some_0)
        }),
    decreases evidence.len(),
{
    let rest = evidence.drop_last();
    let last = evidence.last().field("observedAt"@);
    let before = search_call::earliest(rest);
    let t = search_call::earliest(evidence);
    lemma_earliest_is_there(evidence);
    if i < rest.len() {
        assert(rest[i] == evidence[i]);
        oldest_times_are_oldest(rest, i);
        let own = evidence[i].field("observedAt"@)->Text_0;
        lemma_before(own, before->Some_0, t->Some_0);
        if last is Text {
            lemma_before(own, last->Text_0, before->Some_0);
            lemma_before(last->Text_0, own, last->Text_0);
            lemma_before(own, before->Some_0, last->Text_0);
            lemma_asymmetric(last->Text_0, before->Some_0);
        }
    } else {
        lemma_before(last->Text_0, last->Text_0, last->Text_0);
    }
}

proof fn lemma_asymmetric(a: Seq<char>, b: Seq<char>)
    ensures
        !(text::before(a, b) && text::before(b, a)),
{
    lemma_before(a, b, a);
}

proof fn lemma_earliest_is_there(evidence: Seq<JsonV>)
    ensures
        search_call::earliest(evidence) matches Some(t) ==> exists|k: int|
            0 <= k < evidence.len() && (#[trigger] evidence[k]).field("observedAt"@) == JsonV::Text(
                t,
            ),
    decreases evidence.len(),
{
    if evidence.len() > 0 {
        let rest = evidence.drop_last();
        lemma_earliest_is_there(rest);
        let n = evidence.len() - 1;
        assert(evidence[n] == evidence.last());
        if search_call::earliest(rest) is Some {
            let t = search_call::earliest(rest)->Some_0;
            let k = choose|k: int|
                0 <= k < rest.len() && (#[trigger] rest[k]).field("observedAt"@) == JsonV::Text(t);
            assert(evidence[k] == rest[k]);
        }
    }
}

/// A call for reviews starts from the product that it names, else from the search that it
/// narrows, else from the page that it goes on from, each a reference of its own kind.
pub proof fn reviews_start_where_they_say(args: JsonV)
    ensures
        ({
            let start = args.field("start"@);
            let r = review_call::start_of(args);
            let product = start.field("productRef"@);
            &&& product is Text ==> r == Ok::<_, FailureV>((ReviewStart::Product, product->Text_0))
            &&& product !is Text && start.field("reviewSearchRef"@) is Text ==> r == Ok::<
                _,
                FailureV,
            >((ReviewStart::Refined, start.field("reviewSearchRef"@)->Text_0))
            &&& product !is Text && start.get("reviewSearchRef"@) is None && start.field(
                "cursor"@,
            ) is Text ==> r == Ok::<_, FailureV>(
                (ReviewStart::Cursor, start.field("cursor"@)->Text_0),
            )
            &&& product !is Text && start.get("reviewSearchRef"@) is None && start.field(
                "cursor"@,
            ) !is Text ==> r is Err
        }),
{
}

/// A call that goes on knows what was seen before it, as its reference says. A reference that
/// does not say it, or that brought nothing new for too long, is refused, and a call that starts
/// anew has seen nothing.
pub proof fn progress_is_that_of_the_reference(
    start: ReviewStart,
    stored: StoredRefV,
    args: JsonV,
    context_id: Seq<char>,
)
    requires
        search_call::bound_problem(stored, args, context_id) is None,
    ensures
        ({
            let r = review_call::opened(start, stored, args, context_id);
            let pages = stored.value.field("noProgressPages"@).as_unsigned();
            let made = stored.value.field("pageMadeProgress"@);
            &&& start != ReviewStart::Cursor ==> r == Ok::<_, FailureV>(
                ProgressV { seen_ref: None, no_progress_pages: 0, page_made_progress: false },
            )
            &&& start == ReviewStart::Cursor ==> (r is Ok <==> review_call::is_cumulative(stored.value)
                && pages is Some && pages->Some_0 < marketplace::MAX_REVIEW_NO_PROGRESS_PAGES
                && made is Bool)
            &&& start == ReviewStart::Cursor && r is Ok ==> {
                &&& r->Ok_0.no_progress_pages == pages->Some_0
                &&& JsonV::Bool(r->Ok_0.page_made_progress) == made
                &&& r->Ok_0.seen_ref == stored.value.field("seenRef"@).as_text()
            }
        }),
{
}

/// The reviews of a reference are those of its own product: of the product that was named, or of
/// the one that the reference was made for.
pub proof fn reviews_are_of_their_product(
    start: ReviewStart,
    reference: Seq<char>,
    stored: StoredRefV,
)
    ensures
        ({
            let r = review_call::source_of(start, reference, stored);
            let value = stored.value;
            &&& r is Ok ==> r->Ok_0.research_id == stored.research_id && JsonV::Text(r->Ok_0.sku)
                == value.field("sku"@)
            &&& start == ReviewStart::Product ==> (r is Ok <==> value.field("sku"@) is Text)
            &&& start == ReviewStart::Product && r is Ok ==> {
                &&& r->Ok_0.product_ref == reference
                &&& r->Ok_0.cached_raw is None
                &&& value.field("url"@) is Text ==> JsonV::Text(r->Ok_0.source_url) == value.field(
                    "url"@,
                ) && r->Ok_0.path == r->Ok_0.source_url
            }
            &&& start != ReviewStart::Product ==> (r is Ok <==> value.field("productRef"@) is Text
                && value.field("sku"@) is Text && value.field("sourceUrl"@) is Text)
            &&& start != ReviewStart::Product && r is Ok ==> {
                &&& JsonV::Text(r->Ok_0.product_ref) == value.field("productRef"@)
                &&& JsonV::Text(r->Ok_0.source_url) == value.field("sourceUrl"@)
                &&& value.field("path"@) is Text ==> JsonV::Text(r->Ok_0.path) == value.field(
                    "path"@,
                )
                &&& r->Ok_0.cached_raw == value.get("cachedRaw"@)
            }
        }),
{
}

/// A request for reviews carries what the call, its source and its progress say, each in its own
/// place.
pub proof fn review_requests_carry_everything(
    args: JsonV,
    source: ReviewSourceV,
    progress: ProgressV,
    seen: Seq<Seq<char>>,
    depth: nat,
    context_id: Seq<char>,
)
    ensures
        ({
            let q = review_call::request_of(args, source, progress, seen, depth, context_id);
            &&& q.research_id == source.research_id
            &&& q.context_id == context_id
            &&& q.product_ref == source.product_ref
            &&& q.sku == source.sku
            &&& q.source_url == source.source_url
            &&& q.current_path == source.path
            &&& q.prior_seen_review_keys == seen
            &&& q.prior_seen_depth == depth
            &&& q.prior_seen_ref == progress.seen_ref
            &&& q.prior_no_progress_pages == progress.no_progress_pages
            &&& q.prior_page_made_progress == progress.page_made_progress
            &&& args.field("limit"@).as_unsigned() is None ==> q.limit == 10
            &&& args.field("limit"@).as_unsigned() matches Some(n) ==> q.limit == n as usize
        }),
{
}

/// Reviews are shown with their refinements exactly where these were asked for, and say so.
pub proof fn refinements_are_shown_where_asked_for(data: JsonV, args: JsonV, key: Seq<char>)
    requires
        data is Object,
    ensures
        ({
            let shown = review_call::with_refinements(data, args);
            let asked = args.field("includeFacets"@) == JsonV::Bool(true);
            &&& shown.field("refinementsIncluded"@) == JsonV::Bool(asked)
            &&& asked ==> shown.get("refinements"@) == data.get("refinements"@)
            &&& !asked ==> shown.field("refinements"@) == JsonV::Array(Seq::empty())
            &&& key != "refinements"@ && key != "refinementsIncluded"@ ==> shown.get(key)
                == data.get(key)
        }),
{
    broadcast use json::lemma_get_with;

    reveal_strlit("refinements");
    reveal_strlit("refinementsIncluded");
    assert("refinements"@.len() == 11);
    assert("refinementsIncluded"@.len() == 19);
}

/// A request for reviews is prepared for at most as many as it asks for, and leads to the page of
/// reviews of the same product that a request for its details leads to.
pub proof fn operations_lead_to_their_product(product: Seq<char>, limit: usize)
    ensures
        ({
            let details = operations::prepared_operation(OperationV::Details(product));
            let reviews = operations::prepared_operation(OperationV::Reviews(product, limit));
            &&& details is Ok ==> details->Ok_0 is Details
            &&& 1 <= limit <= 30 && details is Ok ==> reviews == Ok::<_, FailureV>(
                PreparedV::Reviews(details->Ok_0->Details_0 + "reviews/"@, limit),
            )
            &&& !(1 <= limit <= 30) ==> reviews is Err
            &&& details is Err ==> reviews is Err
        }),
{
}

/// A product whose first page has a description is shown at once. For any other its second page
/// is fetched, and it is shown whatever comes of that: with what the page adds, or with a warning
/// that it could not be fetched.
pub proof fn products_are_shown_with_their_second_page(
    path: Seq<char>,
    page: JsonV,
    more: JsonV,
    e: FailureV,
)
    ensures
        ({
            let first = ScenarioV { operation: PreparedV::Details(path), base: None };
            let second = ScenarioV { operation: PreparedV::Details(path), base: Some(page) };
            let told = parse::description_of(page).text.len() > 0;
            &&& first.path() == path
            &&& path.is_prefix_of(second.path()) && second.path() != path
            &&& told ==> first.after(FetchedV::Page(page), false) == StepV::Done(
                OperationResultV::Details(operations::finished_details(page, None, false)),
            )
            &&& !told ==> first.after(FetchedV::Page(page), false) == StepV::Fetch(second)
            &&& second.after(FetchedV::Page(more), false) == StepV::Done(
                OperationResultV::Details(operations::finished_details(page, Some(more), false)),
            )
            &&& second.after(FetchedV::Failed(e), false) == StepV::Done(
                OperationResultV::Details(operations::finished_details(page, None, true)),
            )
            &&& first.after(FetchedV::Failed(e), false) == StepV::Failed(e)
        }),
{
    reveal_strlit("?layout_container=pdpPage2column&layout_page_index=2");
    let more = "?layout_container=pdpPage2column&layout_page_index=2"@;
    assert(more.len() > 0);
    assert((path + more).take(path.len() as int) =~= path);
    assert((path + more).len() > path.len());
}

/// A cancelled operation shows nothing.
pub proof fn cancelled_operations_show_nothing(s: ScenarioV, fetched: FetchedV)
    ensures
        s.after(fetched, true) is Failed,
{
}

/// A product is shown as its pages show it, with a warning exactly where something is missing.
pub proof fn finished_products_warn_of_what_is_missing(
    page: JsonV,
    more: Option<JsonV>,
    failed: bool,
)
    ensures
        ({
            let d = parse::details_of(page, more);
            let shown = operations::finished_details(page, more, failed);
            &&& shown.sku == d.sku && shown.name == d.name && shown.price == d.price
            &&& shown.price_regular == d.price_regular && shown.old_price == d.old_price
            &&& shown.seller == d.seller && shown.rating == d.rating && shown.reviews == d.reviews
            &&& shown.images == d.images && shown.description == d.description
            &&& shown.characteristics == d.characteristics && shown.available == d.available
            &&& shown.duty == d.duty && shown.url == d.url
            &&& shown.warnings.contains(Warning::DescriptionFetchFailed) <==> failed
            &&& shown.warnings.contains(Warning::DescriptionEmpty) <==> d.description.text.len() == 0
                && d.description.images.len() == 0
            &&& shown.warnings.contains(Warning::DescriptionTextEmpty)
                <==> d.description.text.len() == 0 && d.description.images.len() > 0
            &&& shown.warnings.contains(Warning::ProductWidgetsMissing) <==> !operations::shows_product(
                page,
            )
        }),
{
    let d = parse::details_of(page, more);
    let a = operations::warned_of(
        d.warnings,
        if failed {
            Some(Warning::DescriptionFetchFailed)
        } else {
            None
        },
    );
    lemma_warned(d.warnings, Warning::DescriptionFetchFailed);
    let b = operations::warned_of(a, operations::description_warning(d.description));
    lemma_warned(a, Warning::DescriptionEmpty);
    lemma_warned(a, Warning::DescriptionTextEmpty);
    lemma_warned(b, Warning::ProductWidgetsMissing);
}

proof fn lemma_warned(v: Seq<Warning>, w: Warning)
    ensures
        forall|x: Warning|
            #![trigger model::warned(v, w).contains(x)]
            model::warned(v, w).contains(x) <==> v.contains(x) || x == w,
{
    let all = model::warned(v, w);
    assert forall|x: Warning|
        #![trigger all.contains(x)]
        all.contains(x) <==> v.contains(x) || x == w by {
        if !v.contains(w) {
            assert(all[v.len() as int] == w);
            if v.contains(x) {
                let i = choose|i: int| 0 <= i < v.len() && v[i] == x;
                assert(all[i] == x);
            }
            if all.contains(x) {
                let i = choose|i: int| 0 <= i < all.len() && all[i] == x;
                if i < v.len() {
                    assert(v[i] == x);
                }
            }
        }
    }
}

/// A page of reviews warns exactly where it shows no list of reviews.
pub proof fn finished_reviews_warn_of_a_missing_list(page: JsonV, limit: usize)
    ensures
        ({
            let shown = operations::finished_reviews(page, limit);
            let read = parse::review_page_of(page, limit);
            &&& shown.reviews == read.reviews && shown.count == read.count
            &&& shown.rating == read.rating && shown.total_reviews == read.total_reviews
            &&& shown.warnings.contains(Warning::ReviewsWidgetMissing) <==> !operations::shows_reviews(
                page,
            )
            &&& !operations::shows_reviews(page) ==> shown.reviews.len() == 0
        }),
{
    lemma_warned(parse::review_page_of(page, limit).warnings, Warning::ReviewsWidgetMissing);
}

proof fn lemma_leading(message: Seq<char>, i: int)
    requires
        0 <= i,
    ensures
        evidence::leading_code(message, i) matches Some(code) ==> evidence::known_codes().contains(
            code,
        ) && text::starts(message, code),
        evidence::leading_code(message, i) is None ==> forall|k: int|
            i <= k < evidence::known_codes().len() ==> !text::starts(
                message,
                #[trigger] evidence::known_codes()[k],
            ),
    decreases evidence::known_codes().len() - i,
{
    if i < evidence::known_codes().len() && !text::starts(message, evidence::known_codes()[i]) {
        lemma_leading(message, i + 1);
    }
}

/// The code of a failure is known to callers. A full storage device has its own, a message that
/// starts with a known code has that one, and all else is a changed source.
pub proof fn failures_have_known_codes(error: FailureV)
    ensures
        ({
            let code = evidence::code_of(error);
            let codes = evidence::known_codes();
            &&& codes.contains(code)
            &&& error is StorageFull ==> code == "STORAGE_FULL"@
            &&& error !is StorageFull ==> text::starts(error.message(), code) || (code
                == "SOURCE_CHANGED"@ && forall|k: int|
                0 <= k < codes.len() ==> !text::starts(error.message(), #[trigger] codes[k]))
        }),
{
    lemma_leading(error.message(), 0);
    assert(evidence::known_codes()[14] == "STORAGE_FULL"@);
    assert(evidence::known_codes()[7] == "SOURCE_CHANGED"@);
}

/// A caller is shown a message that is never empty and not long.
pub proof fn shown_messages_are_short(raw: Seq<char>)
    ensures
        0 < evidence::shown_message(raw).len() <= 2000,
{
    reveal_strlit("The operation failed.");
    assert("The operation failed."@.len() == 21);
}

/// The compact view of a review leaves out who wrote it and an empty row of images, and nothing
/// else.
pub proof fn compact_reviews_keep_what_is_said(review: JsonV, key: Seq<char>)
    requires
        review is Object,
    ensures
        presentation::compact_review(review) is Ok,
        key != "author"@ && key != "authorName"@ && key != "authorDisplayName"@ && key
            != "userName"@ && key != "imageRefs"@ ==> presentation::compact_review(review)->Ok_0.get(
            key,
        ) == review.get(key),
        review.field("imageRefs"@).elements().len() > 0 ==> presentation::compact_review(
            review,
        )->Ok_0.get("imageRefs"@) == review.get("imageRefs"@),
{
    broadcast use json::lemma_get_without;

    reveal(presentation::compact_review);
    reveal_strlit("author");
    reveal_strlit("authorName");
    reveal_strlit("authorDisplayName");
    reveal_strlit("userName");
    reveal_strlit("imageRefs");
    assert("author"@.len() == 6);
    assert("authorName"@.len() == 10);
    assert("authorDisplayName"@.len() == 17);
    assert("userName"@.len() == 8);
    assert("imageRefs"@.len() == 9);
}

/// A view of a search that compares keeps the address, the seller and the delivery of an item,
/// and every view keeps its prices, without the evidence that they rest on.
pub proof fn compared_items_keep_their_offer(item: JsonV, view: Seq<char>)
    requires
        item is Object,
    ensures
        ({
            let shown = presentation::search_item_in(item, view);
            let prices = item.field("prices"@);
            &&& shown is Ok
            &&& view != "compact"@ ==> {
                &&& shown->Ok_0.get("url"@) == item.get("url"@)
                &&& shown->Ok_0.get("seller"@) == item.get("seller"@)
                &&& shown->Ok_0.get("deliveryLabel"@) == item.get("deliveryLabel"@)
            }
            &&& prices is Array ==> {
                let kept = shown->Ok_0.field("prices"@);
                &&& kept is Array
                &&& kept->Array_0.len() == prices->Array_0.len()
                &&& forall|i: int, key: Seq<char>|
                    #![trigger kept->Array_0[i].get(key)]
                    0 <= i < prices->Array_0.len() && key != "evidenceRefs"@ ==> kept->Array_0[i].get(
                        key,
                    ) == prices->Array_0[i].get(key)
            }
            &&& prices !is Array ==> shown->Ok_0.field("prices"@) == prices
        }),
{
    broadcast use json::lemma_get_with;
    broadcast use json::lemma_get_without;

    reveal(presentation::search_item_in);
    reveal_strlit("imageRefs");
    reveal_strlit("url");
    reveal_strlit("seller");
    reveal_strlit("deliveryLabel");
    reveal_strlit("prices");
    assert("imageRefs"@.len() == 9);
    assert("url"@.len() == 3);
    assert("seller"@.len() == 6);
    assert("deliveryLabel"@.len() == 13);
    assert("prices"@.len() == 6);
    assert("seller"@[0] == 's');
    assert("prices"@[0] == 'p');
}

/// A view of a product keeps every field of it but its address and its evidence by field, and the
/// view that compares keeps the address too.
pub proof fn shown_products_keep_their_fields(result: JsonV, view: Seq<char>, key: Seq<char>)
    requires
        result is Object,
    ensures
        ({
            let shown = presentation::product_result_in(result, view);
            let product = result.field("product"@);
            &&& key != "product"@ ==> shown.get(key) == result.get(key)
            &&& product !is Object ==> shown == result
            &&& product is Object && view != "compact"@ && key != "fieldEvidence"@ ==> shown.field(
                "product"@,
            ).get(key) == product.get(key)
        }),
{
    broadcast use json::lemma_get_with;
    broadcast use json::lemma_get_without;

    reveal(presentation::product_result_in);
}

} // verus!
