//! What the JSON of a result shows of it.

use crate::json::{self, JsonV, NumberV};
use crate::model::{
    self, ActiveFilter, ActiveFilterValue, DiscountV, DutyV, ProductDetailsV, ReviewPageV, ReviewV,
    SearchContext, SearchCoverage, SearchItemV, SellerV, SortOption, Warning,
};
use vstd::prelude::*;

verus! {

/// Whether a value is the JSON of a text that may be missing.
pub open spec fn is_text(j: JsonV, s: Option<Seq<char>>) -> bool {
    j == match s {
        Some(t) => JsonV::Text(t),
        None => JsonV::Null,
    }
}

/// Whether a value is the JSON of a number that may be missing, with its spelling.
pub open spec fn is_real(j: JsonV, r: Option<(u64, Seq<char>)>) -> bool {
    j == match r {
        Some(x) => JsonV::Number(NumberV::Real(x.0, x.1)),
        None => JsonV::Null,
    }
}

/// Whether a value is the JSON of a count that may be missing.
pub open spec fn is_count(j: JsonV, n: Option<u64>) -> bool {
    j == match n {
        Some(n) => JsonV::Number(NumberV::Unsigned(n)),
        None => JsonV::Null,
    }
}

/// Whether a value is the JSON of an answer that may be missing.
pub open spec fn is_flag(j: JsonV, b: Option<bool>) -> bool {
    j == match b {
        Some(b) => JsonV::Bool(b),
        None => JsonV::Null,
    }
}

/// Whether a value is the JSON of a row of texts.
pub open spec fn are_texts(j: JsonV, v: Seq<Seq<char>>) -> bool {
    &&& j is Array
    &&& j->Array_0.len() == v.len()
    &&& forall|i: int| 0 <= i < v.len() ==> #[trigger] j->Array_0[i] == JsonV::Text(v[i])
}

/// The coverage of a search call tells each of its numbers.
pub proof fn coverage_is_told_in_full(c: SearchCoverage)
    ensures
        ({
            let shown = c.json();
            &&& shown.field("page"@) == JsonV::Number(NumberV::Unsigned(c.page))
            &&& shown.field("fetchedPagesThisCall"@) == JsonV::Number(NumberV::Unsigned(c.fetched_pages_this_call as u64))
            &&& shown.field("parsedItems"@) == JsonV::Number(NumberV::Unsigned(c.parsed_items as u64))
            &&& shown.field("parsedOffsetStart"@) == JsonV::Number(NumberV::Unsigned(c.parsed_offset_start as u64))
            &&& shown.field("parsedOffsetEnd"@) == JsonV::Number(NumberV::Unsigned(c.parsed_offset_end as u64))
            &&& shown.field("returned"@) == JsonV::Number(NumberV::Unsigned(c.returned as u64))
            &&& shown.field("uniqueSeen"@) == JsonV::Number(NumberV::Unsigned(c.unique_seen as u64))
            &&& shown.field("callsInChain"@) == JsonV::Number(NumberV::Unsigned(c.calls_in_chain as u64))
        }),
{
    broadcast use json::lemma_get_with;

    reveal_strlit("page");
    reveal_strlit("fetchedPagesThisCall");
    reveal_strlit("parsedItems");
    reveal_strlit("parsedOffsetStart");
    reveal_strlit("parsedOffsetEnd");
    reveal_strlit("returned");
    reveal_strlit("uniqueSeen");
    reveal_strlit("callsInChain");
    assert("page"@.len() == 4);
    assert("fetchedPagesThisCall"@.len() == 20);
    assert("parsedItems"@.len() == 11);
    assert("parsedOffsetStart"@.len() == 17);
    assert("parsedOffsetEnd"@.len() == 15);
    assert("returned"@.len() == 8);
    assert("uniqueSeen"@.len() == 10);
    assert("callsInChain"@.len() == 12);
}

/// The context of a search tells the region, and whether a page showed it.
pub proof fn regions_are_told_with_their_proof(c: SearchContext)
    ensures
        ({
            let shown = c.json();
            &&& c.region matches Some(r) ==> shown.field("region"@) == JsonV::Text(r@)
            &&& c.region is None ==> shown.field("region"@) is Null
            &&& shown.field("regionVerified"@) == JsonV::Bool(c.region_verified)
        }),
{
    broadcast use json::lemma_get_with;

    reveal_strlit("region");
    reveal_strlit("regionVerified");
    assert("region"@.len() == 6);
    assert("regionVerified"@.len() == 14);
}

/// An order tells its label, whether it is the chosen one, and its search.
pub proof fn orders_tell_whether_they_are_chosen(o: SortOption)
    ensures
        ({
            let shown = o.json();
            &&& o.label matches Some(s) ==> shown.field("label"@) == JsonV::Text(s@)
            &&& o.label is None ==> shown.field("label"@) is Null
            &&& shown.field("selected"@) == JsonV::Bool(o.selected)
            &&& o.search_url matches Some(s) ==> shown.field("searchUrl"@) == JsonV::Text(s@)
            &&& o.search_url is None ==> shown.field("searchUrl"@) is Null
        }),
{
    broadcast use json::lemma_get_with;

    reveal_strlit("label");
    reveal_strlit("selected");
    reveal_strlit("searchUrl");
    assert("label"@.len() == 5);
    assert("selected"@.len() == 8);
    assert("searchUrl"@.len() == 9);
}

/// A chosen value of a filter tells its label and the search without it.
pub proof fn chosen_values_lead_to_the_search_without_them(v: ActiveFilterValue)
    ensures
        ({
            let shown = v.json();
            &&& v.label matches Some(s) ==> shown.field("label"@) == JsonV::Text(s@)
            &&& v.label is None ==> shown.field("label"@) is Null
            &&& v.search_url matches Some(s) ==> shown.field("searchUrl"@) == JsonV::Text(s@)
            &&& v.search_url is None ==> shown.field("searchUrl"@) is Null
        }),
{
    broadcast use json::lemma_get_with;

    reveal_strlit("label");
    reveal_strlit("searchUrl");
    assert("label"@.len() == 5);
    assert("searchUrl"@.len() == 9);
}

/// A filter in use tells its key, its name and its type, and every chosen value in order.
pub proof fn active_filters_tell_every_value(f: ActiveFilter)
    ensures
        ({
            let shown = f.json();
            &&& f.key matches Some(s) ==> shown.field("key"@) == JsonV::Text(s@)
            &&& f.key is None ==> shown.field("key"@) is Null
            &&& f.name matches Some(s) ==> shown.field("name"@) == JsonV::Text(s@)
            &&& f.name is None ==> shown.field("name"@) is Null
            &&& f.kind matches Some(s) ==> shown.field("type"@) == JsonV::Text(s@)
            &&& f.kind is None ==> shown.field("type"@) is Null
            &&& shown.field("values"@) is Array
            &&& shown.field("values"@)->Array_0.len() == f.values@.len()
            &&& forall|i: int| 0 <= i < f.values@.len() ==> #[trigger] shown.field("values"@)->Array_0[i] == f.values@[i].json()
        }),
{
    broadcast use json::lemma_get_with;

    reveal_strlit("key");
    reveal_strlit("name");
    reveal_strlit("type");
    reveal_strlit("values");
    assert("key"@.len() == 3);
    assert("name"@.len() == 4);
    assert("type"@.len() == 4);
    assert("values"@.len() == 6);
    assert("name"@[0] == 'n');
    assert("type"@[0] == 't');
}

/// The JSON of a product of a search tells everything that was read of it, each thing under its
/// own name.
#[verifier::rlimit(60)]
pub proof fn search_items_are_told_in_full(p: SearchItemV)
    ensures
        ({
            let shown = p.json();
            &&& shown.field("sku"@) == JsonV::Text(p.sku)
            &&& is_text(shown.field("name"@), p.name)
            &&& is_real(shown.field("price"@), p.price)
            &&& shown.field("currency"@) == JsonV::Text(p.currency)
            &&& shown.field("priceType"@) == JsonV::Text(p.price_type.code())
            &&& is_text(shown.field("priceLabel"@), p.price_label)
            &&& is_text(shown.field("deliveryLabel"@), p.delivery_label)
            &&& is_text(shown.field("seller"@), p.seller)
            &&& is_real(shown.field("oldPrice"@), p.old_price)
            &&& is_real(shown.field("rating"@), p.rating)
            &&& is_count(shown.field("reviews"@), p.reviews)
            &&& is_text(shown.field("brand"@), p.brand)
            &&& is_text(shown.field("url"@), p.url)
            &&& is_text(shown.field("image"@), p.image)
            &&& p.discount matches Some(DiscountV::Text(s)) ==> shown.field("discount"@) == JsonV::Text(s)
            &&& p.discount matches Some(DiscountV::Number(n)) ==> shown.field("discount"@) == JsonV::Number(n)
            &&& p.discount is None ==> shown.field("discount"@) is Null
        }),
{
    broadcast use json::lemma_get_with;

    reveal_strlit("sku");
    reveal_strlit("name");
    reveal_strlit("price");
    reveal_strlit("currency");
    reveal_strlit("priceType");
    reveal_strlit("priceLabel");
    reveal_strlit("deliveryLabel");
    reveal_strlit("seller");
    reveal_strlit("oldPrice");
    reveal_strlit("rating");
    reveal_strlit("reviews");
    reveal_strlit("brand");
    reveal_strlit("url");
    reveal_strlit("image");
    reveal_strlit("discount");
    reveal_strlit("matchesPriceRange");
    assert("sku"@.len() == 3);
    assert("name"@.len() == 4);
    assert("price"@.len() == 5);
    assert("currency"@.len() == 8);
    assert("priceType"@.len() == 9);
    assert("priceLabel"@.len() == 10);
    assert("deliveryLabel"@.len() == 13);
    assert("seller"@.len() == 6);
    assert("oldPrice"@.len() == 8);
    assert("rating"@.len() == 6);
    assert("reviews"@.len() == 7);
    assert("brand"@.len() == 5);
    assert("url"@.len() == 3);
    assert("image"@.len() == 5);
    assert("discount"@.len() == 8);
    assert("matchesPriceRange"@.len() == 17);
    assert("sku"@[0] == 's');
    assert("url"@[0] == 'u');
    assert("price"@[0] == 'p');
    assert("brand"@[0] == 'b');
    assert("image"@[0] == 'i');
    assert("currency"@[0] == 'c');
    assert("oldPrice"@[0] == 'o');
    assert("discount"@[0] == 'd');
    assert("seller"@[0] == 's');
    assert("rating"@[0] == 'r');
}

/// Whether the price of a product is in range is told only where that was looked at.
#[verifier::rlimit(60)]
pub proof fn price_matches_are_told_where_looked_at(p: SearchItemV)
    ensures
        ({
            let shown = p.json();
            &&& p.matches_price_range is None ==> shown.get("matchesPriceRange"@) is None
            &&& p.matches_price_range == Some(None::<bool>) ==> shown.get("matchesPriceRange"@) == Some(JsonV::Null)
            &&& p.matches_price_range == Some(Some(true)) ==> shown.get("matchesPriceRange"@) == Some(JsonV::Bool(true))
            &&& p.matches_price_range == Some(Some(false)) ==> shown.get("matchesPriceRange"@) == Some(JsonV::Bool(false))
        }),
{
    broadcast use json::lemma_get_with;

    reveal_strlit("sku");
    reveal_strlit("name");
    reveal_strlit("price");
    reveal_strlit("currency");
    reveal_strlit("priceType");
    reveal_strlit("priceLabel");
    reveal_strlit("deliveryLabel");
    reveal_strlit("seller");
    reveal_strlit("oldPrice");
    reveal_strlit("rating");
    reveal_strlit("reviews");
    reveal_strlit("brand");
    reveal_strlit("url");
    reveal_strlit("image");
    reveal_strlit("discount");
    reveal_strlit("matchesPriceRange");
    assert("sku"@.len() == 3);
    assert("name"@.len() == 4);
    assert("price"@.len() == 5);
    assert("currency"@.len() == 8);
    assert("priceType"@.len() == 9);
    assert("priceLabel"@.len() == 10);
    assert("deliveryLabel"@.len() == 13);
    assert("seller"@.len() == 6);
    assert("oldPrice"@.len() == 8);
    assert("rating"@.len() == 6);
    assert("reviews"@.len() == 7);
    assert("brand"@.len() == 5);
    assert("url"@.len() == 3);
    assert("image"@.len() == 5);
    assert("discount"@.len() == 8);
    assert("matchesPriceRange"@.len() == 17);
    assert("sku"@[0] == 's');
    assert("url"@[0] == 'u');
    assert("price"@[0] == 'p');
    assert("brand"@[0] == 'b');
    assert("image"@[0] == 'i');
    assert("currency"@[0] == 'c');
    assert("oldPrice"@[0] == 'o');
    assert("discount"@[0] == 'd');
    assert("seller"@[0] == 's');
    assert("rating"@[0] == 'r');
}

/// A seller is told by name, rating and address.
pub proof fn sellers_are_told_in_full(s: SellerV)
    ensures
        ({
            let shown = model::seller_json(Some(s));
            &&& shown.field("name"@) == JsonV::Text(s.name)
            &&& is_real(shown.field("rating"@), s.rating)
            &&& is_text(shown.field("url"@), s.url)
            &&& model::seller_json(None) is Null
        }),
{
    broadcast use json::lemma_get_with;

    reveal_strlit("name");
    reveal_strlit("rating");
    reveal_strlit("url");
    assert("name"@.len() == 4);
    assert("rating"@.len() == 6);
    assert("url"@.len() == 3);
}

/// A duty is told by its amount, the total with it, and its note.
pub proof fn duties_are_told_in_full(d: DutyV)
    ensures
        ({
            let shown = model::duty_json(Some(d));
            &&& is_real(shown.field("amount"@), Some(d.amount))
            &&& is_real(shown.field("total"@), d.total)
            &&& shown.field("note"@) == JsonV::Text(d.note)
            &&& model::duty_json(None) is Null
        }),
{
    broadcast use json::lemma_get_with;

    reveal_strlit("amount");
    reveal_strlit("total");
    reveal_strlit("note");
    assert("amount"@.len() == 6);
    assert("total"@.len() == 5);
    assert("note"@.len() == 4);
}

/// Warnings are told by their codes, in order, and only where there are some.
pub proof fn warnings_are_told_by_their_codes(j: JsonV, v: Seq<Warning>)
    requires
        j is Object,
    ensures
        ({
            let shown = model::with_warnings(j, v);
            &&& v.len() == 0 ==> shown == j
            &&& v.len() > 0 ==> shown.field("warnings"@) is Array
            &&& v.len() > 0 ==> shown.field("warnings"@)->Array_0.len() == v.len()
            &&& forall|i: int|
                0 <= i < v.len() ==> #[trigger] shown.field("warnings"@)->Array_0[i] == JsonV::Text(
                    v[i].code(),
                )
        }),
{
    broadcast use json::lemma_get_with;

}

/// The JSON of a product tells everything that was read of it, each thing under its own name.
pub proof fn products_are_told_in_full(p: ProductDetailsV)
    ensures
        ({
            let shown = p.json();
            &&& is_text(shown.field("sku"@), p.sku)
            &&& is_text(shown.field("name"@), p.name)
            &&& is_text(shown.field("url"@), p.url)
            &&& is_real(shown.field("price"@), p.price)
            &&& is_real(shown.field("priceRegular"@), p.price_regular)
            &&& is_real(shown.field("oldPrice"@), p.old_price)
            &&& shown.field("duty"@) == model::duty_json(p.duty)
            &&& is_flag(shown.field("available"@), p.available)
            &&& is_real(shown.field("rating"@), p.rating)
            &&& is_count(shown.field("reviews"@), p.reviews)
            &&& shown.field("seller"@) == model::seller_json(p.seller)
            &&& are_texts(shown.field("images"@), p.images)
            &&& shown.field("characteristics"@) == p.characteristics
            &&& shown.field("description"@).field("text"@) == JsonV::Text(p.description.text)
            &&& are_texts(shown.field("description"@).field("images"@), p.description.images)
            &&& p.warnings.len() == 0 ==> shown.get("warnings"@) is None
            &&& p.warnings.len() > 0 ==> shown.get("warnings"@) == Some(model::codes(p.warnings))
        }),
{
    broadcast use json::lemma_get_with;

    reveal_strlit("sku");
    reveal_strlit("name");
    reveal_strlit("url");
    reveal_strlit("price");
    reveal_strlit("priceRegular");
    reveal_strlit("oldPrice");
    reveal_strlit("duty");
    reveal_strlit("available");
    reveal_strlit("rating");
    reveal_strlit("reviews");
    reveal_strlit("seller");
    reveal_strlit("images");
    reveal_strlit("characteristics");
    reveal_strlit("description");
    reveal_strlit("text");
    reveal_strlit("warnings");
    assert("sku"@.len() == 3);
    assert("name"@.len() == 4);
    assert("url"@.len() == 3);
    assert("price"@.len() == 5);
    assert("priceRegular"@.len() == 12);
    assert("oldPrice"@.len() == 8);
    assert("duty"@.len() == 4);
    assert("available"@.len() == 9);
    assert("rating"@.len() == 6);
    assert("reviews"@.len() == 7);
    assert("seller"@.len() == 6);
    assert("images"@.len() == 6);
    assert("characteristics"@.len() == 15);
    assert("description"@.len() == 11);
    assert("text"@.len() == 4);
    assert("warnings"@.len() == 8);
    assert("sku"@[0] == 's');
    assert("url"@[0] == 'u');
    assert("name"@[0] == 'n');
    assert("duty"@[0] == 'd');
    assert("text"@[0] == 't');
    assert("oldPrice"@[0] == 'o');
    assert("warnings"@[0] == 'w');
    assert("rating"@[0] == 'r');
    assert("seller"@[0] == 's');
    assert("images"@[0] == 'i');
}

/// The JSON of a review tells everything that was read of it, each thing under its own name.
pub proof fn reviews_are_told_in_full(r: ReviewV)
    ensures
        ({
            let shown = r.json();
            &&& is_text(shown.field("author"@), r.author)
            &&& is_real(shown.field("score"@), r.score)
            &&& is_text(shown.field("comment"@), r.comment)
            &&& is_text(shown.field("pros"@), r.pros)
            &&& is_text(shown.field("cons"@), r.cons)
            &&& is_text(shown.field("date"@), r.date)
            &&& is_count(shown.field("useful"@), r.useful)
            &&& is_flag(shown.field("purchased"@), r.purchased)
            &&& is_flag(shown.field("hasPhotos"@), r.has_photos)
        }),
{
    broadcast use json::lemma_get_with;

    reveal_strlit("author");
    reveal_strlit("score");
    reveal_strlit("comment");
    reveal_strlit("pros");
    reveal_strlit("cons");
    reveal_strlit("date");
    reveal_strlit("useful");
    reveal_strlit("purchased");
    reveal_strlit("hasPhotos");
    assert("author"@.len() == 6);
    assert("score"@.len() == 5);
    assert("comment"@.len() == 7);
    assert("pros"@.len() == 4);
    assert("cons"@.len() == 4);
    assert("date"@.len() == 4);
    assert("useful"@.len() == 6);
    assert("purchased"@.len() == 9);
    assert("hasPhotos"@.len() == 9);
    assert("author"@[0] == 'a');
    assert("useful"@[0] == 'u');
    assert("pros"@[0] == 'p');
    assert("cons"@[0] == 'c');
    assert("date"@[0] == 'd');
    assert("purchased"@[0] == 'p');
    assert("hasPhotos"@[0] == 'h');
}

/// The JSON of a page of reviews tells every review in order, and what the page says of them
/// all.
pub proof fn review_pages_are_told_in_full(p: ReviewPageV)
    ensures
        ({
            let shown = p.json();
            &&& is_real(shown.field("rating"@), p.rating)
            &&& is_count(shown.field("totalReviews"@), p.total_reviews)
            &&& shown.field("count"@) == JsonV::Number(NumberV::Unsigned(p.count as u64))
            &&& shown.field("reviews"@) is Array
            &&& shown.field("reviews"@)->Array_0.len() == p.reviews.len()
            &&& forall|i: int| 0 <= i < p.reviews.len() ==> #[trigger] shown.field("reviews"@)->Array_0[i] == p.reviews[i].json()
            &&& p.warnings.len() == 0 ==> shown.get("warnings"@) is None
            &&& p.warnings.len() > 0 ==> shown.get("warnings"@) == Some(model::codes(p.warnings))
        }),
{
    broadcast use json::lemma_get_with;

    reveal_strlit("rating");
    reveal_strlit("totalReviews");
    reveal_strlit("count");
    reveal_strlit("reviews");
    reveal_strlit("warnings");
    assert("rating"@.len() == 6);
    assert("totalReviews"@.len() == 12);
    assert("count"@.len() == 5);
    assert("reviews"@.len() == 7);
    assert("warnings"@.len() == 8);
}

/// A warning is added once, behind those that are there.
pub proof fn warnings_are_added_once(v: Seq<Warning>, w: Warning)
    ensures
        model::warned(v, w).contains(w),
        forall|i: int| 0 <= i < v.len() ==> #[trigger] model::warned(v, w)[i] == v[i],
        model::warned(v, w).len() <= v.len() + 1,
        v.contains(w) ==> model::warned(v, w) == v,
        v.no_duplicates() ==> model::warned(v, w).no_duplicates(),
        model::warned(model::warned(v, w), w) == model::warned(v, w),
{
    if !v.contains(w) {
        assert(v.push(w)[v.len() as int] == w);
    }
}

} // verus!
