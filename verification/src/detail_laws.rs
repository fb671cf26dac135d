//! What single parts of a page, a chain and an answer stand for.

use crate::address;
use crate::double;
use crate::evidence;
use crate::failure::FailureV;
use crate::gateway;
use crate::json::{self, JsonV, NumberV};
use crate::ledger::StoredRefV;
use crate::marketplace;
use crate::operations;
use crate::parse;
use crate::product_batch::{self, ProductsV};
use crate::product_details;
use crate::review_pages::{self, PicksV};
use crate::search::{self, SearchArgsV};
use crate::search_results::{self, OfferV};
use crate::text;
use vstd::prelude::*;

verus! {

/// The entities of a text stand for their characters: those with a name, and those with a number
/// of a character. Any other stays as it is written.
pub proof fn entities_stand_for_their_character(whole: Seq<char>, code: Seq<char>)
    ensures
        ({
            let name = text::lowercase(code);
            let shown = parse::entity_text(whole, code);
            &&& name == "amp"@ ==> shown == seq!['&']
            &&& name == "lt"@ ==> shown == seq!['<']
            &&& name == "gt"@ ==> shown == seq!['>']
            &&& name == "quot"@ ==> shown == seq!['"']
            &&& name == "apos"@ ==> shown == seq!['\'']
            &&& name == "nbsp"@ ==> shown == seq![' ']
            &&& shown == whole || shown.len() == 1
        }),
{
    reveal_strlit("&");
    reveal_strlit("<");
    reveal_strlit(">");
    reveal_strlit("\"");
    reveal_strlit("'");
    reveal_strlit(" ");
    assert("&"@ =~= seq!['&']);
    assert("<"@ =~= seq!['<']);
    assert(">"@ =~= seq!['>']);
    assert("\""@ =~= seq!['"']);
    assert("'"@ =~= seq!['\'']);
    assert(" "@ =~= seq![' ']);
    reveal_strlit("amp");
    reveal_strlit("lt");
    reveal_strlit("gt");
    reveal_strlit("quot");
    reveal_strlit("apos");
    reveal_strlit("nbsp");
    assert("amp"@.len() == 3);
    assert("lt"@.len() == 2);
    assert("gt"@.len() == 2);
    assert("quot"@.len() == 4);
    assert("apos"@.len() == 4);
    assert("nbsp"@.len() == 4);
    assert("lt"@[0] == 'l');
    assert("gt"@[0] == 'g');
    assert("quot"@[0] == 'q');
    assert("apos"@[0] == 'a');
    assert("nbsp"@[0] == 'n');
}

/// The article of a value is the number that it is, or the digits that its text holds.
pub proof fn articles_are_read_as_written(v: JsonV, n: u64)
    ensures
        parse::sku_in(Some(JsonV::Number(NumberV::Unsigned(n)))) == Some(text::decimal(n as nat)),
        v matches JsonV::Text(s) ==> (parse::sku_in(Some(v)) is Some <==> text::trimmed(s).len() > 0
            && text::all_digits(text::trimmed(s))),
        v matches JsonV::Text(s) ==> parse::sku_in(Some(v)) is Some ==> parse::sku_in(Some(v))
            == Some(text::trimmed(s)),
        parse::sku_in(None) is None,
{
}

/// The address of an image is its text, or that of its source, else of its link, else of its
/// address.
pub proof fn images_are_named_in_order(s: Seq<char>, v: JsonV)
    ensures
        text::trimmed(s).len() > 0 ==> parse::image_of(JsonV::Text(s)) == Some(text::trimmed(s)),
        text::trimmed(s).len() == 0 ==> parse::image_of(JsonV::Text(s)) is None,
        v is Object ==> {
            let src = parse::image_in(v.get("src"@));
            let link = parse::image_in(v.get("link"@));
            let url = parse::image_in(v.get("url"@));
            &&& src is Some ==> parse::image_of(v) == src
            &&& src is None && link is Some ==> parse::image_of(v) == link
            &&& src is None && link is None ==> parse::image_of(v) == url
        },
{
}

/// The tiles of a page are its products, in order; one that is no product is left out.
pub proof fn tiles_are_products_in_order(v: Seq<JsonV>, w: Seq<JsonV>, x: JsonV)
    ensures
        parse::search_items_in(v + w) == parse::search_items_in(v) + parse::search_items_in(w),
        parse::search_item(x) matches Some(item) ==> parse::search_items_in(seq![x]) == seq![item],
        parse::search_item(x) is None ==> parse::search_items_in(seq![x]).len() == 0,
    decreases w.len(),
{
    assert(seq![x].drop_last() =~= Seq::<JsonV>::empty());
    assert(parse::search_items_in(seq![x].drop_last()).len() == 0);
    if parse::search_item(x) is Some {
        assert(parse::search_items_in(seq![x]) =~= seq![parse::search_item(x)->Some_0]);
    }
    if w.len() == 0 {
        assert(v + w =~= v);
        assert(parse::search_items_in(v) + parse::search_items_in(w) =~= parse::search_items_in(v));
    } else {
        tiles_are_products_in_order(v, w.drop_last(), x);
        assert((v + w).drop_last() =~= v + w.drop_last());
        assert(parse::search_items_in(v + w) =~= parse::search_items_in(v) + parse::search_items_in(
            w,
        ));
    }
}

/// A tree of a description shows the texts of each of its parts, in order: the own text of a node
/// before those inside it.
pub proof fn trees_show_every_text(v: Seq<JsonV>, w: Seq<JsonV>, node: JsonV)
    ensures
        parse::walked_texts(JsonV::Array(v + w)) == parse::walked_texts(JsonV::Array(v))
            + parse::walked_texts(JsonV::Array(w)),
        parse::walked_texts(JsonV::Array(seq![node])) == parse::walked_texts(node),
        node is Object && node.field("type"@) == JsonV::Text("text"@) && parse::words_of(
            node.field("content"@),
        ) is Some ==> parse::walked_texts(node).len() > 0 && parse::walked_texts(node)[0]
            == parse::words_of(node.field("content"@))->Some_0,
    decreases w.len(),
{
    assert(seq![node].drop_last() =~= Seq::<JsonV>::empty());
    assert(parse::walked_item_texts(seq![node].drop_last()).len() == 0);
    assert(parse::walked_item_texts(seq![node]) =~= parse::walked_texts(node));
    if w.len() == 0 {
        assert(v + w =~= v);
        assert(parse::walked_item_texts(v) + parse::walked_item_texts(w)
            =~= parse::walked_item_texts(v));
    } else {
        trees_show_every_text(v, w.drop_last(), node);
        assert((v + w).drop_last() =~= v + w.drop_last());
        assert(parse::walked_item_texts(v + w) =~= parse::walked_item_texts(v)
            + parse::walked_item_texts(w));
    }
}

/// A tree of a description shows the images of each of its parts, in order.
pub proof fn trees_show_every_image(v: Seq<JsonV>, w: Seq<JsonV>, node: JsonV)
    ensures
        parse::walked_images(JsonV::Array(v + w)) == parse::walked_images(JsonV::Array(v))
            + parse::walked_images(JsonV::Array(w)),
        parse::walked_images(JsonV::Array(seq![node])) == parse::walked_images(node),
        node is Object && parse::image_in(node.field("img"@).get("src"@)) is Some
            ==> parse::walked_images(node).len() > 0 && parse::walked_images(node)[0]
            == parse::image_in(node.field("img"@).get("src"@))->Some_0,
    decreases w.len(),
{
    assert(seq![node].drop_last() =~= Seq::<JsonV>::empty());
    assert(parse::walked_item_images(seq![node].drop_last()).len() == 0);
    assert(parse::walked_item_images(seq![node]) =~= parse::walked_images(node));
    if w.len() == 0 {
        assert(v + w =~= v);
        assert(parse::walked_item_images(v) + parse::walked_item_images(w)
            =~= parse::walked_item_images(v));
    } else {
        trees_show_every_image(v, w.drop_last(), node);
        assert((v + w).drop_last() =~= v + w.drop_last());
        assert(parse::walked_item_images(v + w) =~= parse::walked_item_images(v)
            + parse::walked_item_images(w));
    }
}

/// All texts inside a value are found, in order.
pub proof fn every_text_is_found(v: Seq<JsonV>, w: Seq<JsonV>, s: Seq<char>)
    ensures
        parse::strings_in(JsonV::Text(s)) == seq![s],
        parse::strings_in(JsonV::Array(v + w)) == parse::strings_in(JsonV::Array(v))
            + parse::strings_in(JsonV::Array(w)),
    decreases w.len(),
{
    if w.len() == 0 {
        assert(v + w =~= v);
        assert(parse::strings_in_items(v) + parse::strings_in_items(w) =~= parse::strings_in_items(
            v,
        ));
    } else {
        every_text_is_found(v, w.drop_last(), s);
        assert((v + w).drop_last() =~= v + w.drop_last());
        assert(parse::strings_in_items(v + w) =~= parse::strings_in_items(v)
            + parse::strings_in_items(w));
    }
}

/// The seller of a page is that of the first state that names one.
pub proof fn sellers_are_those_first_named(v: Seq<JsonV>, i: int)
    requires
        0 <= i <= v.len(),
    ensures
        parse::first_seller(v, i) matches Some(state) ==> exists|k: int|
            i <= k < v.len() && #[trigger] v[k] == state && forall|j: int|
                i <= j < k ==> (#[trigger] v[j]).get("title"@) is None,
        parse::first_seller(v, i) is None ==> forall|k: int|
            i <= k < v.len() ==> (#[trigger] v[k]).get("title"@) is None,
    decreases v.len() - i,
{
    if i < v.len() && !(v[i].field("sellerCell"@).field("centerBlock"@).get("title"@) is Some
        || v[i].get("title"@) is Some) {
        sellers_are_those_first_named(v, i + 1);
        if parse::first_seller(v, i + 1) is Some {
            let state = parse::first_seller(v, i + 1)->Some_0;
            let k = choose|k: int|
                i < k < v.len() && #[trigger] v[k] == state && forall|j: int|
                    i < j < k ==> (#[trigger] v[j]).get("title"@) is None;
            assert(forall|j: int| i <= j < k ==> (#[trigger] v[j]).get("title"@) is None);
        }
    }
}

/// A subpage of a product names the same product as its main page.
pub proof fn subpages_name_their_product(slug: Seq<char>)
    requires
        !text::ends(slug, "/reviews"@),
        !text::ends(slug, "/questions"@),
    ensures
        operations::main_slug(slug) == slug,
        operations::main_slug(slug + "/reviews"@) == slug,
        operations::main_slug(slug + "/questions"@) == slug,
        gateway::reviewed_slug(slug + "/reviews"@) == slug,
        gateway::reviewed_slug(slug) == slug,
{
    reveal_strlit("/reviews");
    reveal_strlit("/questions");
    let (a, b) = (slug + "/reviews"@, slug + "/questions"@);
    let (r, q) = ("/reviews"@, "/questions"@);
    assert(r.len() == 8 && q.len() == 10);
    assert(a.subrange(a.len() - 8, a.len() as int) =~= r);
    assert(b.subrange(b.len() - 10, b.len() as int) =~= q);
    assert(a.subrange(0, a.len() - 8) =~= slug);
    assert(b.subrange(0, b.len() - 10) =~= slug);
    assert(q[7] == 'o' && r[5] == 'e');
    assert(b[b.len() - 3] == 'o');
    if text::ends(b, r) {
        assert(b.subrange(b.len() - 8, b.len() as int)[5] == r[5]);
    }
}

/// The reviews of a product are asked for below its own page.
pub proof fn reviews_lie_below_their_product(input: Seq<char>)
    requires
        !text::has(input, "/reviews/"@),
    ensures
        gateway::product_path_of(input) matches Ok(p) ==> gateway::reviews_path_of(input) == Ok::<
            _,
            FailureV,
        >(p + "reviews/"@),
        gateway::product_path_of(input) is Err ==> gateway::reviews_path_of(input) is Err,
{
}

/// The name of the order of a search is that of its address; without one, and by score, it is by
/// popularity.
pub proof fn orders_are_named_by_their_address(pairs: Seq<(Seq<char>, Seq<char>)>)
    ensures
        ({
            let value = address::value_of(pairs, "sorting"@);
            let name = search::sort_name(pairs);
            &&& value is None || value == Some("score"@) ==> name == "popular"@
            &&& value is Some && value != Some("score"@) ==> name == value->Some_0
        }),
{
}

/// The facets of a search are told where they are asked for, and where nothing is said, on the
/// first page alone.
pub proof fn facets_are_told_where_asked_for(args: SearchArgsV)
    ensures
        args.include_facets matches Some(b) ==> search::tells_facets(args) == b,
        args.include_facets is None ==> (search::tells_facets(args) <==> args.next_cursor is None),
{
}

/// The price bounds of an address are a lowest and a highest price, in this order, none of them
/// negative.
pub proof fn price_bounds_are_in_order(pairs: Seq<(Seq<char>, Seq<char>)>)
    ensures
        search::price_bounds_of(pairs) matches Some((low, high)) ==> {
            let value = address::value_of(pairs, "currency_price"@);
            &&& 0 <= double::order(low) <= double::order(high)
            &&& value is Some
            &&& text::cut(value->Some_0, ';') is Some
            &&& double::double_of(text::cut(value->Some_0, ';')->Some_0.0) matches Some((x, _)) && x
                == low
            &&& double::double_of(text::cut(value->Some_0, ';')->Some_0.1) matches Some((y, _)) && y
                == high
        },
{
}

/// The selected order of a page is the first that says it is.
pub proof fn selected_options_say_so(v: Seq<JsonV>, i: int)
    requires
        0 <= i <= v.len(),
    ensures
        search::selected_option(v, i) matches Some(o) ==> search::is_set(o, "isSelected"@)
            && exists|k: int|
            i <= k < v.len() && #[trigger] v[k] == o && forall|j: int|
                i <= j < k ==> !search::is_set(#[trigger] v[j], "isSelected"@),
        search::selected_option(v, i) is None ==> forall|k: int|
            i <= k < v.len() ==> !search::is_set(#[trigger] v[k], "isSelected"@),
    decreases v.len() - i,
{
    if i < v.len() && !search::is_set(v[i], "isSelected"@) {
        selected_options_say_so(v, i + 1);
        if search::selected_option(v, i + 1) is Some {
            let o = search::selected_option(v, i + 1)->Some_0;
            let k = choose|k: int|
                i < k < v.len() && #[trigger] v[k] == o && forall|j: int|
                    i < j < k ==> !search::is_set(#[trigger] v[j], "isSelected"@);
            assert(forall|j: int| i <= j < k ==> !search::is_set(#[trigger] v[j], "isSelected"@));
        }
    }
}

/// The parameters of a search are taken exactly where each has a safe name of its own that is not
/// forbidden, and a value that it may have.
pub proof fn parameters_are_safe(pairs: Seq<(Seq<char>, Seq<char>)>, i: int)
    requires
        0 <= i <= pairs.len(),
    ensures
        search::parameter_problem(pairs, i) is None <==> forall|k: int|
            i <= k < pairs.len() ==> {
                &&& search::is_safe_key((#[trigger] pairs[k]).0)
                &&& search::is_parameter_value(pairs[k].0, pairs[k].1)
                &&& !search::is_forbidden_key(pairs[k].0)
                &&& !search::has_key_before(pairs, k, pairs[k].0)
            },
    decreases pairs.len() - i,
{
    if i < pairs.len() {
        parameters_are_safe(pairs, i + 1);
    }
}

/// A filter of ranges tells its title in its range, and its options in its boxes; any other tells
/// both in itself.
pub proof fn filters_hold_their_parts(filter: JsonV, kind: Seq<char>)
    ensures
        kind == "multipleRangesFilter"@ ==> search::title_body_of(filter, kind) == filter.field(
            kind,
        ).field("rangeFilter"@) && search::checks_of(filter, kind) == filter.field(kind).field(
            "checkboxesFilter"@,
        ),
        kind != "multipleRangesFilter"@ ==> search::title_body_of(filter, kind) == filter.field(kind)
            && search::checks_of(filter, kind) == filter.field(kind),
{
}

/// A review that was seen before is passed over. Any other is picked, once, and then counts as
/// seen.
pub proof fn reviews_are_picked_once(p: PicksV, review: JsonV)
    ensures
        ({
            let key = review_pages::identity_of(p.ledger, review).1;
            let next = review_pages::picked_next(p, review);
            &&& next.consumed == p.consumed + 1
            &&& p.seen.contains(key) ==> next.seen == p.seen && next.fresh == p.fresh && next.picked
                == p.picked
            &&& !p.seen.contains(key) ==> next.fresh == p.fresh.push(key) && next.picked
                == p.picked.push(p.consumed as int)
        }),
{
}

/// A page that is left unfinished counts as no page without progress; a finished one counts
/// exactly where nothing on it was new.
pub proof fn pages_without_progress_are_counted(rest: nat, progress: bool, prior: nat)
    requires
        prior < usize::MAX,
    ensures
        ({
            let n = review_pages::pages_without_progress(rest, progress, prior);
            &&& rest > 0 ==> n == prior
            &&& rest == 0 && progress ==> n == 0
            &&& rest == 0 && !progress ==> n == prior + 1
        }),
{
}

/// What was seen is kept as what is new, with a way back to what was seen before, and from time
/// to time as a whole.
pub proof fn seen_reviews_are_kept(
    parent: Option<Seq<char>>,
    depth: nat,
    fresh: Seq<Seq<char>>,
    all: Seq<Seq<char>>,
    i: int,
)
    ensures
        ({
            let shown = review_pages::delta_node(parent, depth, fresh, all.len());
            &&& shown.field("kind"@) == JsonV::Text("delta"@)
            &&& parent matches Some(p) ==> shown.field("parent"@) == JsonV::Text(p)
            &&& parent is None ==> shown.field("parent"@) is Null
            &&& shown.field("keys"@) is Array
            &&& shown.field("keys"@)->Array_0.len() == fresh.len()
            &&& 0 <= i < fresh.len() ==> shown.field("keys"@)->Array_0[i] == JsonV::Text(fresh[i])
            &&& shown.field("count"@) == JsonV::Number(NumberV::Unsigned(all.len() as u64))
            &&& shown.field("depth"@) == JsonV::Number(NumberV::Unsigned(depth as u64))
        }),
        ({
            let shown = review_pages::checkpoint_node(all);
            &&& shown.field("kind"@) == JsonV::Text("checkpoint"@)
            &&& shown.field("keys"@) is Array
            &&& shown.field("keys"@)->Array_0.len() == all.len()
            &&& 0 <= i < all.len() ==> shown.field("keys"@)->Array_0[i] == JsonV::Text(all[i])
            &&& shown.field("count"@) == JsonV::Number(NumberV::Unsigned(all.len() as u64))
            &&& shown.field("depth"@) == JsonV::Number(NumberV::Unsigned(0))
            &&& shown.get("parent"@) is None
        }),
{
    broadcast use json::lemma_get_with;

    reveal_strlit("kind");
    reveal_strlit("parent");
    reveal_strlit("keys");
    reveal_strlit("count");
    reveal_strlit("depth");
    assert("kind"@.len() == 4);
    assert("parent"@.len() == 6);
    assert("keys"@.len() == 4);
    assert("count"@.len() == 5);
    assert("depth"@.len() == 5);
    assert("kind"@[1] == 'i');
    assert("keys"@[1] == 'e');
    assert("count"@[0] == 'c');
    assert("depth"@[0] == 'd');
}

/// Reviews warn of a missing aggregate exactly where the page shows neither a rating nor a total,
/// and of all that the source warns of.
pub proof fn missing_aggregates_are_warned_of(raw: JsonV)
    ensures
        ({
            let shown = review_pages::review_warnings(raw);
            let said = marketplace::source_warnings_of(raw);
            let missing = raw.get("rating"@) is None && raw.get("totalReviews"@) is None;
            &&& shown.take(said.len() as int) == said
            &&& missing ==> shown.len() == said.len() + 1 && shown.last().field("code"@)
                == JsonV::Text("AGGREGATE_UNAVAILABLE"@)
            &&& !missing ==> shown == said
        }),
{
    broadcast use json::lemma_get_with;

    reveal_strlit("code");
    reveal_strlit("message");
    reveal_strlit("evidenceRefs");
    assert("code"@.len() == 4);
    assert("message"@.len() == 7);
    assert("evidenceRefs"@.len() == 12);
    let said = marketplace::source_warnings_of(raw);
    assert(review_pages::review_warnings(raw).take(said.len() as int) =~= said);
}

/// A reference to a product leads to the address that it holds, else to its article, in its own
/// research and context.
pub proof fn product_references_lead_to_their_product(r: StoredRefV)
    ensures
        ({
            let found = product_batch::from_product_ref(r);
            let url = r.value.get("url"@);
            let sku = r.value.get("sku"@);
            &&& found is Ok <==> (url is Some && url->Some_0 is Text) || (url is None && sku is Some
                && sku->Some_0 is Text)
            &&& found matches Ok(p) ==> {
                &&& url is Some ==> JsonV::Text(p.target) == url->Some_0
                &&& url is None ==> JsonV::Text(p.target) == sku->Some_0
                &&& p.research_id == Some(r.research_id)
                &&& p.context_id == Some(r.context_id)
                &&& p.sections is None && p.cached_raw is None && p.presentation is None
            }
        }),
{
}

/// A cursor of a product leads to the path that it holds, with its sections, its view and what was
/// kept for it, in its own research and context.
pub proof fn product_cursors_lead_on(r: StoredRefV)
    ensures
        ({
            let p = product_batch::from_product_cursor(r);
            &&& r.value.field("path"@) is Text ==> JsonV::Text(p.target) == r.value.field("path"@)
            &&& p.research_id == Some(r.research_id)
            &&& p.context_id == Some(r.context_id)
            &&& p.cached_raw == r.value.get("cachedRaw"@)
            &&& p.presentation is Some
            &&& r.value.field("presentation"@) is Object ==> p.presentation == Some(
                r.value.field("presentation"@),
            )
            &&& p.sections is Some <==> r.value.field("include"@) is Array
        }),
{
}

/// Each product of a batch has one result, behind those before it, whatever comes of it; a failed
/// one adds nothing else.
pub proof fn batches_answer_each_product(
    acc: ProductsV,
    selector: JsonV,
    fetched: Result<product_batch::FetchedProductV, FailureV>,
    refused: Option<(Seq<char>, Seq<char>)>,
    research_id: Seq<char>,
    context_id: Seq<char>,
    now: Seq<char>,
)
    ensures
        ({
            let next = product_batch::with_result(
                acc,
                selector,
                fetched,
                refused,
                research_id,
                context_id,
                now,
            );
            let n = acc.results.len();
            &&& next.results.len() == n + 1
            &&& next.results.take(n as int) == acc.results
            &&& next.evidence.take(acc.evidence.len() as int) == acc.evidence
            &&& next.refs.take(acc.refs.len() as int) == acc.refs
            &&& next.warnings.take(acc.warnings.len() as int) == acc.warnings
            &&& fetched matches Err(e) ==> next.results[n as int] == marketplace::item_error_of(
                selector,
                evidence::code_of(e),
                evidence::shown_message(e.message()),
            ) && next.evidence == acc.evidence && next.ledger == acc.ledger
        }),
{
    reveal(product_batch::with_result);
    let next = product_batch::with_result(
        acc,
        selector,
        fetched,
        refused,
        research_id,
        context_id,
        now,
    );
    assert(next.results.take(acc.results.len() as int) =~= acc.results);
    assert(next.evidence.take(acc.evidence.len() as int) =~= acc.evidence);
    assert(next.refs.take(acc.refs.len() as int) =~= acc.refs);
    assert(next.warnings.take(acc.warnings.len() as int) =~= acc.warnings);
}

/// What is offered of a search is shown by kind, label, group and selection, with the reference
/// that leads to it.
pub proof fn offers_are_shown_with_their_reference(o: OfferV, reference: Seq<char>)
    ensures
        ({
            let shown = search_results::offer_shown(o, reference);
            &&& shown.field("kind"@) == JsonV::Text(o.kind)
            &&& shown.field("label"@) == JsonV::Text(o.label)
            &&& shown.field("groupLabel"@) == o.group
            &&& shown.field("selected"@) == o.selected
            &&& shown.field("searchRef"@) == JsonV::Text(reference)
            &&& search_results::search_ref_value(o.url).field("searchUrl"@) == JsonV::Text(o.url)
        }),
{
    broadcast use json::lemma_get_with;

    reveal_strlit("kind");
    reveal_strlit("label");
    reveal_strlit("groupLabel");
    reveal_strlit("selected");
    reveal_strlit("searchRef");
    reveal_strlit("searchUrl");
    assert("kind"@.len() == 4);
    assert("label"@.len() == 5);
    assert("groupLabel"@.len() == 10);
    assert("selected"@.len() == 8);
    assert("searchRef"@.len() == 9);
    assert("searchUrl"@.len() == 9);
    assert("searchRef"@[6] == 'R');
    assert("searchUrl"@[6] == 'U');
}

/// The answer to a search holds its items and its refinements, says whether these were asked for
/// and whether some are missing, and how to go on.
pub proof fn search_answers_hold_their_parts(
    raw: JsonV,
    items: Seq<JsonV>,
    refinements: Seq<JsonV>,
    asked: bool,
    cursor: Option<Seq<char>>,
)
    ensures
        ({
            let shown = search_results::search_data(raw, items, refinements, asked, cursor);
            &&& shown.field("items"@) == JsonV::Array(items)
            &&& shown.field("refinements"@) == JsonV::Array(refinements)
            &&& shown.field("refinementsIncluded"@) == JsonV::Bool(asked)
            &&& shown.field("refinementsTruncated"@) == JsonV::Bool(
                raw.field("facets"@).field("truncated"@) == JsonV::Bool(true) || refinements.len()
                    >= 100,
            )
            &&& cursor matches Some(c) ==> shown.field("nextCursor"@) == JsonV::Text(c)
            &&& cursor is None ==> shown.field("nextCursor"@) is Null
            &&& shown.field("hasNext"@) == raw.field("hasNext"@)
            &&& raw.get("priceRangeAssessment"@) is Some ==> shown.get("priceRangeAssessment"@)
                == raw.get("priceRangeAssessment"@)
            &&& raw.get("priceRangeAssessment"@) is None ==> shown.get("priceRangeAssessment"@) is None
            &&& shown.field("coverage"@).field("returned"@) == JsonV::Number(
                NumberV::Unsigned(items.len() as u64),
            )
            &&& shown.field("coverage"@).field("total"@) == raw.field("total"@)
        }),
{
    broadcast use json::lemma_get_with;

    reveal_strlit("items");
    reveal_strlit("refinements");
    reveal_strlit("refinementsIncluded");
    reveal_strlit("refinementsTruncated");
    reveal_strlit("nextCursor");
    reveal_strlit("hasNext");
    reveal_strlit("coverage");
    reveal_strlit("priceRangeAssessment");
    reveal_strlit("returned");
    reveal_strlit("uniqueSeen");
    reveal_strlit("total");
    reveal_strlit("snapshotGuaranteed");
    reveal_strlit("completeness");
    assert("items"@.len() == 5);
    assert("refinements"@.len() == 11);
    assert("refinementsIncluded"@.len() == 19);
    assert("refinementsTruncated"@.len() == 20);
    assert("nextCursor"@.len() == 10);
    assert("hasNext"@.len() == 7);
    assert("coverage"@.len() == 8);
    assert("priceRangeAssessment"@.len() == 20);
    assert("returned"@.len() == 8);
    assert("uniqueSeen"@.len() == 10);
    assert("total"@.len() == 5);
    assert("snapshotGuaranteed"@.len() == 18);
    assert("completeness"@.len() == 12);
    assert("items"@[0] == 'i');
    assert("total"@[0] == 't');
    assert("refinementsTruncated"@[0] == 'r');
    assert("priceRangeAssessment"@[0] == 'p');
    assert("nextCursor"@[0] == 'n');
    assert("uniqueSeen"@[0] == 'u');
    assert("coverage"@[0] == 'c');
    assert("returned"@[0] == 'r');
}

/// A search is called complete only where the source says that nothing follows and no way on is
/// shown.
pub proof fn complete_searches_have_no_way_on(continues: bool, has_next: JsonV)
    ensures
        ({
            let said = search_results::completeness_of(continues, has_next);
            &&& said == "complete"@ <==> !continues && has_next == JsonV::Bool(false)
            &&& said == "partial"@ <==> continues
        }),
{
    reveal_strlit("partial");
    reveal_strlit("complete");
    reveal_strlit("unknown");
    assert("partial"@.len() == 7);
    assert("complete"@.len() == 8);
    assert("unknown"@.len() == 7);
    assert("partial"@[0] == 'p');
    assert("unknown"@[0] == 'u');
}

/// A product rests on facts about the sections that were asked for: the shown part of its
/// description, and of its images.
pub proof fn facts_are_about_what_is_shown(raw: JsonV, asked: Seq<Seq<char>>, s: Seq<char>)
    requires
        raw.field("description"@).field("text"@) == JsonV::Text(s),
    ensures
        ({
            let facts = product_details::description_facts(raw, asked);
            let offset = product_details::section_offset(raw, "description"@) as int;
            &&& !asked.contains("description"@) ==> facts.len() == 0
            &&& asked.contains("description"@) ==> facts.len() == 1 && facts[0].field("fieldPath"@)
                == JsonV::Text("/description/text"@) && facts[0].field("value"@) == JsonV::Text(
                product_details::window(s, offset, 12000),
            )
            &&& raw.field("_continuation"@).field("section"@) != JsonV::Text("description"@)
                ==> offset == 0
        }),
        !asked.contains("images"@) ==> product_details::image_facts(raw, asked).len() == 0,
{
    broadcast use json::lemma_get_with;

    reveal_strlit("fieldPath");
    reveal_strlit("value");
    assert("fieldPath"@.len() == 9);
    assert("value"@.len() == 5);
}

/// A part of a row starts where it should, is no longer than it may be, and leaves out nothing in
/// between.
pub proof fn windows_show_a_part<A>(v: Seq<A>, offset: int, n: int, i: int)
    requires
        0 <= offset,
        0 <= n,
    ensures
        ({
            let shown = product_details::window(v, offset, n);
            &&& shown.len() <= n
            &&& offset + n <= v.len() ==> shown.len() == n
            &&& offset <= v.len() <= offset + n ==> shown.len() == v.len() - offset
            &&& offset >= v.len() ==> shown.len() == 0
            &&& 0 <= i < shown.len() ==> shown[i] == v[offset + i]
        }),
{
}

/// A section of variants or offers is cut off exactly where it holds more than can be shown.
pub proof fn long_sections_overflow(raw: JsonV, asked: Seq<Seq<char>>, section: Seq<char>)
    ensures
        product_details::overflows(raw, asked, section) <==> asked.contains(section)
            && product_details::listed(raw, section).len() > 20 && !(raw.field(section).field(
            "nextPath"@,
        ) is Text),
{
}

} // verus!
