//! What holds of everything that is read from the pages of the marketplace.

use crate::double;
use crate::json::{self, JsonV, NumberV};
use crate::model::Warning;
use crate::operations;
use crate::parse;
use crate::pattern;
use crate::text;
use crate::widgets;
use vstd::arithmetic::power2::pow2;
use vstd::prelude::*;

verus! {

/// A price is finite and not negative.
pub proof fn prices_are_not_negative(v: Option<JsonV>)
    ensures
        parse::price_in(v) matches Some(price) ==> double::is_finite(price.0) && double::order(
            price.0,
        ) >= 0,
{
}

proof fn lemma_rounded_is_not_negative(n: nat, e: int)
    ensures
        double::rounded(n, e) >= 0,
{
    if e >= 0 {
        assert(n * pow2(e as nat) >= 0) by (nonlinear_arith)
            requires
                n >= 0,
                pow2(e as nat) >= 0,
        ;
    } else {
        vstd::arithmetic::power2::lemma_pow2_pos((-e) as nat);
        vstd::arithmetic::div_mod::lemma_div_pos_is_pos(
            (n + pow2((-e - 1) as nat)) as int,
            pow2((-e) as nat) as int,
        );
    }
}

proof fn lemma_count_is_safe(bits: u64, multiplier: nat)
    ensures
        parse::count_of(bits, multiplier) matches Some(count) ==> count <= 9_007_199_254_740_991,
{
    let size = double::order(bits) as u64;
    let n = double::mantissa(size) * multiplier;
    let s = double::excess(n);
    lemma_rounded_is_not_negative(double::shifted(n, s), double::exponent(size) - 1075 + s);
}

/// A count is an integer that a double holds exactly.
pub proof fn counts_are_safe_integers(v: Option<JsonV>)
    ensures
        parse::count_in(v) matches Some(count) ==> count <= 9_007_199_254_740_991,
{
    match v {
        Some(JsonV::Number(n)) => {
            lemma_count_is_safe(double::bits_of(n) as u64, 1);
        },
        Some(JsonV::Text(s)) => {
            if let Some(m) = pattern::first_match(parse::count_pattern(), s) {
                if let Some(t) = pattern::group(m, 1) {
                    if let Some((bits, _)) = parse::localized_number(t) {
                        let suffix = match pattern::group(m, 2) {
                            Some(s) => s,
                            None => ""@,
                        };
                        lemma_count_is_safe(bits, parse::multiplier_of(suffix));
                    }
                }
            }
        },
        _ => {},
    }
}

/// A rating is at most five.
pub proof fn ratings_are_at_most_five(v: JsonV)
    ensures
        parse::rating_of(v) matches Some(rating) ==> double::order(rating.0) <= double::order(
            double::FIVE,
        ),
    decreases v,
{
    if let JsonV::Object(m) = v {
        json::lemma_lookup_smaller(m, "text"@);
        json::lemma_lookup_smaller(m, "value"@);
        if let Some(t) = json::lookup(m, "text"@) {
            ratings_are_at_most_five(t);
        }
        if let Some(t) = json::lookup(m, "value"@) {
            ratings_are_at_most_five(t);
        }
    }
}

proof fn lemma_decimal_is_digits(n: nat)
    ensures
        text::decimal(n).len() > 0,
        text::all_digits(text::decimal(n)),
    decreases n,
{
    if n >= 10 {
        lemma_decimal_is_digits(n / 10);
    }
}

/// An article number that a page states is made of digits.
pub proof fn articles_are_digits(v: Option<JsonV>)
    ensures
        parse::sku_in(v) matches Some(sku) ==> sku.len() > 0 && text::all_digits(sku),
{
    if let Some(JsonV::Number(NumberV::Unsigned(n))) = v {
        lemma_decimal_is_digits(n as nat);
    }
}

/// A former price is shown only beside a lower one.
pub proof fn former_prices_are_higher(item: JsonV)
    ensures
        parse::search_item(item) matches Some(shown) ==> match (shown.old_price, shown.price) {
            (Some(old), Some(price)) => double::order(price.0) < double::order(old.0),
            (Some(_), None) => false,
            (None, _) => true,
        },
{
}

/// A page of reviews shows at most as many as were asked for, and says how many.
pub proof fn review_pages_keep_their_limit(page: JsonV, limit: usize)
    ensures
        parse::review_page_of(page, limit).reviews.len() <= limit,
        parse::review_page_of(page, limit).count == parse::review_page_of(page, limit).reviews.len(),
{
}

proof fn lemma_united_is_distinct(known: Seq<Seq<char>>, more: Seq<Seq<char>>)
    requires
        known.no_duplicates(),
    ensures
        text::united(known, more).no_duplicates(),
    decreases more.len(),
{
    if more.len() > 0 {
        lemma_united_is_distinct(known, more.drop_last());
    }
}

/// The gallery of a product holds at most ten images, none of them twice, and its description
/// holds none twice either.
pub proof fn galleries_are_short_and_distinct(page: JsonV, page2: Option<JsonV>)
    ensures
        parse::details_of(page, page2).images.len() <= 10,
        parse::details_of(page, page2).images.no_duplicates(),
        parse::details_of(page, page2).description.images.no_duplicates(),
{
    let gallery = widgets::first_with(
        widgets::states_of(page, "webGallery"@),
        seq!["sku"@, "coverImage"@, "images"@],
        0,
    );
    let cover = match parse::image_in(parse::member_in(gallery, "coverImage"@)) {
        Some(s) => seq![s],
        None => Seq::empty(),
    };
    let entries = match gallery {
        Some(g) => parse::gallery_images(g.field("images"@).elements()),
        None => Seq::empty(),
    };
    lemma_united_is_distinct(Seq::empty(), cover + entries);
    let states = widgets::states_of(page, "webDescription"@);
    lemma_united_is_distinct(Seq::empty(), parse::all_state_images(states));
    if let Some(second) = parse::description_in(page2) {
        lemma_united_is_distinct(parse::description_of(page).images, second.images);
    }
}

/// What could not be read of a product or of reviews is never passed over: a description
/// without text, a product without its heading or price, a second page that failed and a
/// missing list of reviews each bring a warning.
pub proof fn missing_parts_bring_warnings(
    base: JsonV,
    secondary: Option<JsonV>,
    secondary_failed: bool,
    limit: usize,
)
    ensures
        ({
            let shown = operations::finished_details(base, secondary, secondary_failed);
            &&& secondary_failed ==> shown.warnings.contains(Warning::DescriptionFetchFailed)
            &&& shown.description.text.len() == 0 ==> shown.warnings.contains(
                Warning::DescriptionEmpty,
            ) || shown.warnings.contains(Warning::DescriptionTextEmpty)
            &&& !operations::shows_product(base) ==> shown.warnings.contains(
                Warning::ProductWidgetsMissing,
            )
        }),
        !operations::shows_reviews(base) ==> operations::finished_reviews(
            base,
            limit,
        ).warnings.contains(Warning::ReviewsWidgetMissing),
{
    let d = parse::details_of(base, secondary);
    let fetched = if secondary_failed {
        Some(Warning::DescriptionFetchFailed)
    } else {
        None
    };
    let described = operations::description_warning(d.description);
    let first = operations::warned_of(d.warnings, fetched);
    let second = operations::warned_of(first, described);
    let third = if operations::shows_product(base) {
        None
    } else {
        Some(Warning::ProductWidgetsMissing)
    };
    lemma_warnings_stay(d.warnings, fetched, Warning::DescriptionFetchFailed);
    lemma_warnings_stay(first, described, Warning::DescriptionFetchFailed);
    lemma_warnings_stay(second, third, Warning::DescriptionFetchFailed);
    lemma_warnings_stay(first, described, Warning::DescriptionEmpty);
    lemma_warnings_stay(second, third, Warning::DescriptionEmpty);
    lemma_warnings_stay(first, described, Warning::DescriptionTextEmpty);
    lemma_warnings_stay(second, third, Warning::DescriptionTextEmpty);
    lemma_warnings_stay(second, third, Warning::ProductWidgetsMissing);
    lemma_warnings_stay(
        parse::review_page_of(base, limit).warnings,
        Some(Warning::ReviewsWidgetMissing),
        Warning::ReviewsWidgetMissing,
    );
}

proof fn lemma_warnings_stay(warnings: Seq<Warning>, more: Option<Warning>, one: Warning)
    ensures
        warnings.contains(one) || more == Some(one) ==> operations::warned_of(
            warnings,
            more,
        ).contains(one),
{
    if let Some(w) = more {
        if !warnings.contains(w) {
            assert(warnings.push(w).last() == w);
            assert(warnings.push(w).contains(w));
            if warnings.contains(one) {
                let i = choose|i: int| 0 <= i < warnings.len() && warnings[i] == one;
                assert(warnings.push(w)[i] == one);
            }
        }
    }
}

} // verus!
