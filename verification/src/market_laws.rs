//! What prices, reviews and images become.

use crate::double;
use crate::evidence;
use crate::failure::FailureV;
use crate::image_batch::{self, ImageBatchV, ImagePlanV};
use crate::images::FetchedImageV;
use crate::json::{self, JsonV, NumberV};
use crate::ledger::StoredRefV;
use crate::marketplace;
use crate::product_details;
use crate::review_pages;
use crate::text;
use vstd::arithmetic::power2::pow2;
use vstd::prelude::*;

verus! {

proof fn lemma_slack(n: nat)
    requires
        0 < n < double::TWO_53,
    ensures
        double::TWO_52 <= n * pow2(double::slack(n)) < double::TWO_53,
    decreases double::TWO_53 - n,
{
    vstd::arithmetic::power2::lemma2_to64();
    if n < double::TWO_52 {
        lemma_slack(2 * n);
        let s = double::slack(2 * n);
        vstd::arithmetic::power2::lemma_pow2_unfold((s + 1) as nat);
        assert(n * pow2((s + 1) as nat) == 2 * n * pow2(s)) by (nonlinear_arith)
            requires
                pow2((s + 1) as nat) == 2 * pow2(s),
        ;
    } else {
        assert(n * 1 == n);
    }
}

/// The bits of a small integer: its double has that integer for mantissa, filled up.
proof fn lemma_small_integer(n: nat)
    requires
        0 < n < double::TWO_52,
    ensures
        ({
            let bits = double::nearest(n);
            let s = double::slack(n);
            &&& 0 < bits < double::INFINITE
            &&& double::mantissa(bits as u64) == n * pow2(s)
            &&& double::exponent(bits as u64) == 1075 - s
            &&& 0 < s <= 52
        }),
{
    lemma_slack(n);
    let s = double::slack(n);
    let m = n * pow2(s);
    vstd::arithmetic::power2::lemma2_to64();
    vstd::arithmetic::power2::lemma2_to64_rest();
    if s > 52 {
        vstd::arithmetic::power2::lemma_pow2_strictly_increases(52, s);
        assert(n * pow2(s) >= pow2(s)) by (nonlinear_arith)
            requires
                n >= 1,
                pow2(s) > 0,
        ;
        vstd::arithmetic::power2::lemma_pow2_unfold(53);
        if s > 53 {
            vstd::arithmetic::power2::lemma_pow2_strictly_increases(53, s);
        }
    }
    if s == 0 {
        assert(n * 1 == n);
    }
    let bits = double::nearest(n);
    let e = 1075 - s;
    assert(bits == e * double::TWO_52 + (m - double::TWO_52));
    let rest = m - double::TWO_52;
    assert(0 <= rest < double::TWO_52);
    vstd::arithmetic::div_mod::lemma_fundamental_div_mod_converse(
        bits,
        double::TWO_52 as int,
        e,
        rest as int,
    );
    assert(bits <= 1074 * 0x10_0000_0000_0000 + 0x10_0000_0000_0000);
    assert(bits >= 1023 * 0x10_0000_0000_0000);
}

proof fn lemma_excess_of(m: nat)
    requires
        double::TWO_52 <= m < double::TWO_53,
    ensures
        double::excess(100 * m) == 6 || double::excess(100 * m) == 7,
{
    reveal_with_fuel(double::excess, 9);
}

/// An amount of whole roubles has a hundred times as many kopecks.
pub proof fn whole_prices_are_counted_in_kopecks(n: u64)
    requires
        n < 0x40_0000_0000,
    ensures
        marketplace::minor_units(JsonV::Number(NumberV::Unsigned(n))) == Some((100 * n) as u64),
{
    let bits = double::nearest(n as nat);
    if n == 0 {
        vstd::arithmetic::power2::lemma2_to64();
        assert(double::mantissa(0) == 0);
        assert(double::excess(0) == 0);
        assert(double::shifted(0, 0) == 0);
        let half = pow2(1073);
        let whole = pow2(1074);
        vstd::arithmetic::power2::lemma_pow2_pos(1073);
        vstd::arithmetic::power2::lemma_pow2_unfold(1074);
        assert(half as int / whole as int == 0) by (nonlinear_arith)
            requires
                whole == 2 * half,
                half > 0,
        ;
        assert(double::rounded(0, -1074) == 0);
    } else {
        lemma_small_integer(n as nat);
        lemma_slack(n as nat);
        let s = double::slack(n as nat);
        let m = n as nat * pow2(s);
        vstd::arithmetic::power2::lemma2_to64();
        vstd::arithmetic::power2::lemma2_to64_rest();
        if s < 14 {
            vstd::arithmetic::power2::lemma_pow2_strictly_increases(s, 14);
            assert(m < 0x40_0000_0000 * 0x4000) by (nonlinear_arith)
                requires
                    m == n * pow2(s),
                    n < 0x40_0000_0000,
                    pow2(s) < 0x4000,
            ;
        }
        lemma_excess_of(m);
        assert(m * 100 == 100 * m);
        let e = double::excess(100 * m);
        let left = (s - e) as nat;
        vstd::arithmetic::power2::lemma_pow2_adds(e, left);
        let d = pow2(e);
        let f = pow2(left);
        vstd::arithmetic::power2::lemma_pow2_pos(left);
        let q = 100 * n as nat * f;
        assert(100 * m == d * q) by (nonlinear_arith)
            requires
                m == n * (d * f),
                q == 100 * n * f,
        ;
        vstd::arithmetic::power2::lemma_pow2_pos(e);
        assert((100 * m) as int == q as int * d as int + 0) by (nonlinear_arith)
            requires
                100 * m == d * q,
        ;
        vstd::arithmetic::div_mod::lemma_fundamental_div_mod_converse(
            (100 * m) as int,
            d as int,
            q as int,
            0,
        );
        assert(double::shifted(100 * m, e) == q);
        let half = pow2((left - 1) as nat);
        vstd::arithmetic::power2::lemma_pow2_unfold(left);
        assert(f == 2 * half);
        assert(q + half == f * (100 * n) + half) by (nonlinear_arith)
            requires
                q == 100 * n * f,
        ;
        vstd::arithmetic::power2::lemma_pow2_pos((left - 1) as nat);
        vstd::arithmetic::div_mod::lemma_fundamental_div_mod_converse(
            (q + half) as int,
            f as int,
            100 * n as int,
            half as int,
        );
        assert(double::rounded(q, e - s) == 100 * n);
        assert(bits as u64 == bits);
        assert(double::scaled(bits as u64, 100) == 100 * n);
    }
}

/// Only numbers are prices, and none below zero.
pub proof fn prices_are_numbers(v: JsonV)
    ensures
        marketplace::minor_units(v) is Some ==> v is Number,
        v matches JsonV::Number(NumberV::Real(bits, _)) && bits > 0x8000_0000_0000_0000
            ==> marketplace::minor_units(v) is None,
{
}

/// A product is available or not only where the source says so.
pub proof fn availability_is_what_the_source_says(v: JsonV)
    ensures
        (marketplace::availability_of(v) == "available"@) == (v == JsonV::Bool(true)),
        (marketplace::availability_of(v) == "unavailable"@) == (v == JsonV::Bool(false)),
        !(v is Bool) ==> marketplace::availability_of(v) == "unknown"@,
{
    reveal_strlit("available");
    reveal_strlit("unavailable");
    reveal_strlit("unknown");
    assert("available"@.len() == 9);
    assert("unavailable"@.len() == 11);
    assert("unknown"@.len() == 7);
}

/// A seller is shown with the name and the rating that the source gives, and a place of the
/// site; where the source shows none, none is shown.
pub proof fn sellers_are_those_of_the_source(v: JsonV, ev: Seq<char>)
    ensures
        marketplace::seller_of(None, ev) == JsonV::Null,
        ({
            let shown = marketplace::seller_of(Some(v), ev);
            &&& shown.field("name"@) == v.field("name"@)
            &&& shown.field("rating"@) == v.field("rating"@)
            &&& shown.field("url"@) == (match v.field("url"@) {
                JsonV::Text(u) => JsonV::optional_text(evidence::source_url(u)),
                _ => JsonV::Null,
            })
            &&& shown.field("evidenceRefs"@) == JsonV::Array(seq![JsonV::Text(ev)])
        }),
{
    broadcast use json::lemma_get_with;

    reveal_strlit("name");
    reveal_strlit("rating");
    reveal_strlit("url");
    reveal_strlit("evidenceRefs");
    assert("name"@.len() == 4);
    assert("rating"@.len() == 6);
    assert("url"@.len() == 3);
    assert("evidenceRefs"@.len() == 12);
}

/// Each code that a source reports becomes a warning, in order; anything else none.
pub proof fn source_codes_become_warnings(codes: Seq<JsonV>)
    requires
        forall|i: int| 0 <= i < codes.len() ==> (#[trigger] codes[i]) is Text,
    ensures
        marketplace::warnings_in(codes).len() == codes.len(),
        forall|i: int|
            0 <= i < codes.len() ==> (#[trigger] marketplace::warnings_in(codes)[i]).field("code"@)
                == codes[i],
    decreases codes.len(),
{
    broadcast use json::lemma_get_with;

    reveal_strlit("code");
    reveal_strlit("message");
    reveal_strlit("evidenceRefs");
    assert("code"@.len() == 4);
    assert("message"@.len() == 7);
    assert("evidenceRefs"@.len() == 12);
    if codes.len() > 0 {
        let rest = codes.drop_last();
        assert(forall|i: int| 0 <= i < rest.len() ==> #[trigger] rest[i] == codes[i]);
        source_codes_become_warnings(rest);
        assert(codes[codes.len() - 1] is Text);
        let all = marketplace::warnings_in(codes);
        let before = marketplace::warnings_in(rest);
        assert forall|i: int| 0 <= i < codes.len() implies (#[trigger] all[i]).field("code"@)
            == codes[i] by {
            if i < before.len() {
                assert(all[i] == before[i]);
            }
        }
    }
}

/// The text of a review under a key; empty where there is none.
pub open spec fn said(review: JsonV, key: Seq<char>) -> Seq<char> {
    match review.field(key) {
        JsonV::Text(s) => s,
        _ => Seq::empty(),
    }
}

/// An empty line between two texts, where both say something.
pub open spec fn gap(before: Seq<char>, after: Seq<char>) -> Seq<char> {
    if before.len() > 0 && after.len() > 0 {
        seq!['\n', '\n']
    } else {
        Seq::empty()
    }
}

/// The text of a review is its comment, then what is said for it, then what is said against it,
/// all of it, with an empty line between two of them. There is none only where all three are
/// missing.
pub proof fn review_texts_say_everything(review: JsonV)
    ensures
        ({
            let comment = said(review, "comment"@);
            let pros = said(review, "pros"@);
            let cons = said(review, "cons"@);
            let whole = comment + gap(comment, pros + cons) + pros + gap(pros, cons) + cons;
            review_pages::review_text_of(review) == if comment.len() == 0 && pros.len() == 0
                && cons.len() == 0 {
                JsonV::Null
            } else {
                JsonV::Text(whole)
            }
        }),
{
    let comment = said(review, "comment"@);
    let pros = said(review, "pros"@);
    let cons = said(review, "cons"@);
    let whole = comment + gap(comment, pros + cons) + pros + gap(pros, cons) + cons;
    reveal_strlit("\n\n");
    assert("\n\n"@ =~= seq!['\n', '\n']);
    let a = review_pages::part_of(review, "comment"@);
    let b = review_pages::part_of(review, "pros"@);
    let c = review_pages::part_of(review, "cons"@);
    let parts = a + b + c;
    reveal_with_fuel(text::join, 4);
    if parts.len() == 3 {
        assert(parts.drop_last() =~= a + b);
        assert((a + b).drop_last() =~= a);
        assert(text::join(parts, "\n\n"@) =~= whole);
    } else if parts.len() == 2 {
        assert(parts.drop_last() =~= seq![parts[0]]);
        assert(text::join(parts, "\n\n"@) =~= whole);
    } else if parts.len() == 1 {
        assert(text::join(parts, "\n\n"@) =~= whole);
    }
}

/// A rating of a review is one to five stars, those that the source gives.
pub proof fn stars_are_those_given(review: JsonV, k: u64)
    requires
        1 <= k <= 5,
    ensures
        (review_pages::stars_of(review) == JsonV::unsigned(k)) == (review.field("score"@) matches
            JsonV::Number(n) && double::bits_of(n) == double::nearest(k as nat)),
        review.field("score"@) == JsonV::Number(NumberV::Unsigned(k)) ==> review_pages::stars_of(
            review,
        ) == JsonV::unsigned(k),
        !(review.field("score"@) is Number) ==> review_pages::stars_of(review) == JsonV::Null,
{
    lemma_small_doubles();
}

proof fn lemma_small_doubles()
    ensures
        double::nearest(1) == 0x3ff0_0000_0000_0000,
        double::nearest(2) == 0x4000_0000_0000_0000,
        double::nearest(3) == 0x4008_0000_0000_0000,
        double::nearest(4) == 0x4010_0000_0000_0000,
        double::nearest(5) == 0x4014_0000_0000_0000,
{
    vstd::arithmetic::power2::lemma2_to64();
    vstd::arithmetic::power2::lemma2_to64_rest();
    reveal_with_fuel(double::slack, 54);
}

/// A review is dated by the source; that it was bought is claimed only where the source says so.
pub proof fn reviews_claim_what_the_source_says(review: JsonV)
    ensures
        (review_pages::purchase_of(review) == JsonV::Bool(true)) == (review.field("purchased"@)
            == JsonV::Bool(true)),
        review_pages::purchase_of(review) != JsonV::Bool(false),
        review.field("date"@) matches JsonV::Text(s) ==> review_pages::published_at(review)
            == JsonV::optional_text(review_pages::timestamp_of(s)),
        !(review.field("date"@) is Text) ==> review_pages::published_at(review) == JsonV::Null,
{
}

proof fn lemma_texts_in(v: Seq<JsonV>)
    requires
        forall|i: int| 0 <= i < v.len() ==> (#[trigger] v[i]) is Text,
    ensures
        product_details::texts_in(v).len() == v.len(),
        forall|i: int|
            0 <= i < v.len() ==> JsonV::Text(#[trigger] product_details::texts_in(v)[i]) == v[i],
    decreases v.len(),
{
    if v.len() > 0 {
        let rest = v.drop_last();
        assert(forall|i: int| 0 <= i < rest.len() ==> #[trigger] rest[i] == v[i]);
        lemma_texts_in(rest);
        assert(v[v.len() - 1] is Text);
        let all = product_details::texts_in(v);
        let before = product_details::texts_in(rest);
        assert forall|i: int| 0 <= i < v.len() implies JsonV::Text(#[trigger] all[i]) == v[i] by {
            if i < before.len() {
                assert(all[i] == before[i]);
            }
        }
    }
}

/// The photos of a review are those of the source, in order, at most twelve.
pub proof fn photos_are_those_of_the_review(review: JsonV)
    requires
        forall|i: int|
            0 <= i < review.field("photos"@).elements().len() ==> (#[trigger] review.field(
                "photos"@,
            ).elements()[i]) is Text,
    ensures
        ({
            let all = review.field("photos"@).elements();
            let shown = review_pages::photos_of(review);
            &&& shown.len() <= 12 && shown.len() <= all.len()
            &&& shown.len() == all.len() || shown.len() == 12
            &&& forall|i: int|
                0 <= i < shown.len() ==> JsonV::Text(#[trigger] shown[i]) == all[i]
        }),
{
    lemma_texts_in(review.field("photos"@).elements());
}

/// What the evidence of a page of reviews says of all of them is what the source says.
pub proof fn aggregates_are_those_of_the_source(
    raw: JsonV,
    canonical: Seq<char>,
    observed: Seq<char>,
    ev: Seq<char>,
    q: review_pages::ReviewRequestV,
)
    ensures
        ({
            let shown = review_pages::aggregate_evidence(raw, canonical, observed, ev, q);
            let facts = shown.field("facts"@).elements();
            &&& shown.field("evidenceRef"@) == JsonV::Text(ev)
            &&& shown.field("observedAt"@) == JsonV::Text(observed)
            &&& shown.field("sku"@) == JsonV::Text(q.sku)
            &&& shown.field("contextId"@) == JsonV::Text(q.context_id)
            &&& facts.len() == 3
            &&& says(facts[0], "/aggregate/rating"@, raw.field("rating"@))
            &&& says(facts[1], "/aggregate/count"@, raw.field("totalReviews"@))
            &&& says(facts[2], "/aggregationScope"@, raw.field("aggregationScope"@))
        }),
{
    broadcast use json::lemma_get_with;

    reveal_strlit("evidenceRef");
    reveal_strlit("sourceKind");
    reveal_strlit("sourceUrl");
    reveal_strlit("observedAt");
    reveal_strlit("contextId");
    reveal_strlit("sku");
    reveal_strlit("fieldPaths");
    reveal_strlit("facts");
    reveal_strlit("fieldPath");
    reveal_strlit("value");
    assert("evidenceRef"@.len() == 11);
    assert("sourceKind"@.len() == 10);
    assert("sourceUrl"@.len() == 9);
    assert("observedAt"@.len() == 10);
    assert("contextId"@.len() == 9);
    assert("sku"@.len() == 3);
    assert("fieldPaths"@.len() == 10);
    assert("facts"@.len() == 5);
    assert("fieldPath"@.len() == 9);
    assert("value"@.len() == 5);
    assert("sourceKind"@[0] == 's');
    assert("observedAt"@[0] == 'o');
    assert("fieldPaths"@[0] == 'f');
    assert("sourceUrl"@[0] == 's');
    assert("contextId"@[0] == 'c');
    assert("fieldPath"@[0] == 'f');
    assert("facts"@[0] == 'f');
    assert("value"@[0] == 'v');
}

/// Whether a fact says this of a place.
pub open spec fn says(fact: JsonV, place: Seq<char>, value: JsonV) -> bool {
    fact.field("fieldPath"@) == JsonV::Text(place) && fact.field("value"@) == value
}

/// The evidence of a review says of it what its row shows: rating, date, text, variant and
/// whether it was bought, and the photos as the source gives them.
pub proof fn review_evidence_says_what_is_shown(
    review: JsonV,
    path: Seq<char>,
    canonical: Seq<char>,
    observed: Seq<char>,
    ev: Seq<char>,
    q: review_pages::ReviewRequestV,
    review_ref: Seq<char>,
    images: Seq<Seq<char>>,
)
    ensures
        ({
            let shown = review_pages::review_evidence(review, path, canonical, observed, ev, q);
            let row = review_pages::review_shown(review, review_ref, images, ev);
            let facts = shown.field("facts"@).elements();
            &&& shown.field("evidenceRef"@) == JsonV::Text(ev)
            &&& row.field("evidenceRefs"@) == JsonV::Array(seq![JsonV::Text(ev)])
            &&& shown.field("observedAt"@) == JsonV::Text(observed)
            &&& shown.field("sku"@) == JsonV::Text(q.sku)
            &&& facts.len() == 6
            &&& says(facts[0], path + "/rating"@, row.field("rating"@))
            &&& says(facts[1], path + "/publishedAt"@, row.field("publishedAt"@))
            &&& says(facts[2], path + "/text"@, row.field("text"@))
            &&& says(facts[3], path + "/variantLabel"@, row.field("variantLabel"@))
            &&& says(facts[4], path + "/purchaseVerified"@, row.field("purchaseVerified"@))
            &&& facts[5].field("fieldPath"@) == JsonV::Text(path + "/imageRefs"@)
            &&& row.field("variantLabel"@) == review.field("variantLabel"@)
            &&& row.field("reviewRef"@) == JsonV::Text(review_ref)
        }),
{
    broadcast use json::lemma_get_with;

    reveal_strlit("evidenceRef");
    reveal_strlit("sourceKind");
    reveal_strlit("sourceUrl");
    reveal_strlit("observedAt");
    reveal_strlit("contextId");
    reveal_strlit("sku");
    reveal_strlit("fieldPaths");
    reveal_strlit("facts");
    reveal_strlit("fieldPath");
    reveal_strlit("value");
    assert("evidenceRef"@.len() == 11);
    assert("sourceKind"@.len() == 10);
    assert("sourceUrl"@.len() == 9);
    assert("observedAt"@.len() == 10);
    assert("contextId"@.len() == 9);
    assert("sku"@.len() == 3);
    assert("fieldPaths"@.len() == 10);
    assert("facts"@.len() == 5);
    assert("fieldPath"@.len() == 9);
    assert("value"@.len() == 5);
    assert("sourceKind"@[0] == 's');
    assert("observedAt"@[0] == 'o');
    assert("fieldPaths"@[0] == 'f');
    assert("sourceUrl"@[0] == 's');
    assert("contextId"@[0] == 'c');
    assert("fieldPath"@[0] == 'f');
    assert("facts"@[0] == 'f');
    assert("value"@[0] == 'v');
    review_pages::review_rows_show_their_review(review, review_ref, images, ev);
}

/// The row of an image that is shown says of it what its evidence says: its width, its height,
/// its kind, its digest and when it was fetched.
pub proof fn image_rows_agree_with_their_evidence(
    reference: Seq<char>,
    stored: StoredRefV,
    context_id: Seq<char>,
    image: FetchedImageV,
    name: Seq<char>,
    index: nat,
)
    ensures
        ({
            let row = image_batch::image_shown(reference, stored, image, name, index);
            let shown = image_batch::image_evidence(stored, context_id, image, name);
            let facts = shown.field("facts"@).elements();
            &&& row.field("width"@) == JsonV::unsigned(image.width as u64)
            &&& row.field("height"@) == JsonV::unsigned(image.height as u64)
            &&& row.field("mimeType"@) == JsonV::Text(image.mime_type)
            &&& row.field("sha256"@) == JsonV::Text(image.sha256)
            &&& row.field("retrievedAt"@) == JsonV::Text(image.retrieved_at)
            &&& row.field("imageRef"@) == JsonV::Text(reference)
            &&& row.field("evidenceRefs"@) == JsonV::Array(seq![JsonV::Text(name)])
            &&& shown.field("evidenceRef"@) == JsonV::Text(name)
            &&& shown.field("observedAt"@) == JsonV::Text(image.retrieved_at)
            &&& shown.field("contextId"@) == JsonV::Text(context_id)
            &&& facts.len() == 7
            &&& says(facts[0], "/sha256"@, row.field("sha256"@))
            &&& says(facts[1], "/mimeType"@, row.field("mimeType"@))
            &&& says(facts[2], "/width"@, row.field("width"@))
            &&& says(facts[3], "/height"@, row.field("height"@))
            &&& says(facts[4], "/retrievedAt"@, row.field("retrievedAt"@))
            &&& says(facts[5], "/sourceKind"@, row.field("sourceKind"@))
            &&& says(facts[6], "/sourceRef"@, row.field("sourceRef"@))
            &&& row.field("sourceKind"@) == stored.value.field("sourceKind"@)
            &&& row.field("sourceRef"@) == stored.value.field("sourceRef"@)
        }),
{
    broadcast use json::lemma_get_with;

    reveal_strlit("evidenceRef");
    reveal_strlit("sourceKind");
    reveal_strlit("sourceUrl");
    reveal_strlit("observedAt");
    reveal_strlit("contextId");
    reveal_strlit("sku");
    reveal_strlit("fieldPaths");
    reveal_strlit("facts");
    reveal_strlit("fieldPath");
    reveal_strlit("value");
    assert("evidenceRef"@.len() == 11);
    assert("sourceKind"@.len() == 10);
    assert("sourceUrl"@.len() == 9);
    assert("observedAt"@.len() == 10);
    assert("contextId"@.len() == 9);
    assert("sku"@.len() == 3);
    assert("fieldPaths"@.len() == 10);
    assert("facts"@.len() == 5);
    assert("fieldPath"@.len() == 9);
    assert("value"@.len() == 5);
    assert("sourceKind"@[0] == 's');
    assert("observedAt"@[0] == 'o');
    assert("fieldPaths"@[0] == 'f');
    assert("sourceUrl"@[0] == 's');
    assert("contextId"@[0] == 'c');
    assert("fieldPath"@[0] == 'f');
    assert("facts"@[0] == 'f');
    assert("value"@[0] == 'v');
    image_batch::shown_images_tell_of_their_image(reference, stored, image, name, index);
}

/// An image that is added is shown with its own bytes, under the number of its block, unless the
/// answer would hold more than eight mebibytes of them; then it is refused, and nothing of it is
/// shown. What was added before stays.
pub proof fn added_images_are_shown_or_refused(
    batch: ImageBatchV,
    reference: Seq<char>,
    stored: StoredRefV,
    context_id: Seq<char>,
    image: FetchedImageV,
    id: Seq<char>,
)
    ensures
        ({
            let after = batch.with_image(reference, stored, context_id, image, id);
            let size = image_batch::wire_size(batch.blocks) + text::utf8_len(image.data);
            let row = after.results.last();
            &&& after.results.len() == batch.results.len() + 1
            &&& after.results.drop_last() == batch.results
            &&& row.field("imageRef"@) == JsonV::Text(reference)
            &&& size <= 8 * 1024 * 1024 ==> {
                &&& after.blocks == batch.blocks.push((image.mime_type, image.data))
                &&& row.field("status"@) == JsonV::Text("ok"@)
                &&& row.field("contentIndex"@) == JsonV::unsigned(after.blocks.len() as u64)
                &&& row.field("width"@) == JsonV::unsigned(image.width as u64)
                &&& row.field("height"@) == JsonV::unsigned(image.height as u64)
                &&& after.evidence.len() == batch.evidence.len() + 1
                &&& after.evidence.drop_last() == batch.evidence
                &&& row.field("evidenceRefs"@) == JsonV::Array(
                    seq![after.evidence.last().field("evidenceRef"@)],
                )
            }
            &&& size > 8 * 1024 * 1024 ==> {
                &&& after.blocks == batch.blocks
                &&& after.evidence == batch.evidence
                &&& row.field("status"@) == JsonV::Text("error"@)
                &&& row.field("error"@).field("code"@) == JsonV::Text("RESULT_TOO_LARGE"@)
            }
        }),
{
    broadcast use json::lemma_get_with;

    let name = marketplace::evidence_name(id);
    image_rows_agree_with_their_evidence(
        reference,
        stored,
        context_id,
        image,
        name,
        batch.blocks.len() + 1,
    );
    image_batch::shown_images_tell_of_their_image(
        reference,
        stored,
        image,
        name,
        batch.blocks.len() + 1,
    );
    reveal_strlit("imageRef");
    reveal_strlit("status");
    reveal_strlit("error");
    reveal_strlit("code");
    reveal_strlit("message");
    reveal_strlit("retryable");
    assert("imageRef"@.len() == 8);
    assert("status"@.len() == 6);
    assert("error"@.len() == 5);
    assert("code"@.len() == 4);
    assert("message"@.len() == 7);
    assert("retryable"@.len() == 9);
    image_codes_stay_known("RESULT_TOO_LARGE"@);
    let after = batch.with_image(reference, stored, context_id, image, id);
    assert(after.results.drop_last() =~= batch.results);
    if image_batch::wire_size(batch.blocks) + text::utf8_len(image.data) <= 8 * 1024 * 1024 {
        assert(after.evidence.drop_last() =~= batch.evidence);
    }
}

/// A code that an image may fail with is told as it is, any other as a change of the source;
/// another attempt is worth it just where the source was blocked or slow, or this server busy.
pub proof fn image_codes_stay_known(code: Seq<char>)
    ensures
        ({
            let known = seq![
                "INVALID_REFERENCE"@,
                "CONTEXT_CHANGED"@,
                "RESEARCH_EXPIRED"@,
                "SOURCE_BLOCKED"@,
                "SOURCE_CHANGED"@,
                "UPSTREAM_TIMEOUT"@,
                "SERVER_BUSY"@,
                "NOT_FOUND"@,
                "RESULT_TOO_LARGE"@,
            ];
            &&& known.contains(code) ==> image_batch::image_code(code) == code
            &&& !known.contains(code) ==> image_batch::image_code(code) == "SOURCE_CHANGED"@
        }),
        image_batch::image_code("RESULT_TOO_LARGE"@) == "RESULT_TOO_LARGE"@,
        image_batch::worth_a_retry(code) == seq![
            "SOURCE_BLOCKED"@,
            "UPSTREAM_TIMEOUT"@,
            "SERVER_BUSY"@,
        ].contains(code),
{
    let retried = seq!["SOURCE_BLOCKED"@, "UPSTREAM_TIMEOUT"@, "SERVER_BUSY"@];
    assert(retried[0] == "SOURCE_BLOCKED"@ && retried[1] == "UPSTREAM_TIMEOUT"@);
    assert(retried[2] == "SERVER_BUSY"@);
    assert(image_batch::image_codes()[8] == "RESULT_TOO_LARGE"@);
}

/// What is done with an image: one that was found in this context is fetched from its place; one
/// of another context, or one that was not found, is told to be wrong under its reference.
pub proof fn images_are_fetched_from_their_place(
    reference: Seq<char>,
    stored: StoredRefV,
    failure: FailureV,
    context_id: Seq<char>,
)
    ensures
        ({
            let missed = image_batch::plan_of(reference, Err(failure), context_id);
            &&& missed matches Ok(ImagePlanV::Settled(row))
            &&& row.field("imageRef"@) == JsonV::Text(reference)
            &&& row.field("status"@) == JsonV::Text("error"@)
        }),
        stored.value.get("bindingError"@) is None ==> {
            let plan = image_batch::plan_of(reference, Ok(stored), context_id);
            &&& stored.context_id == context_id && stored.value.field("url"@) is Text ==> plan
                == Ok::<ImagePlanV, FailureV>(
                ImagePlanV::Fetch(stored.value.field("url"@)->Text_0),
            )
            &&& stored.context_id != context_id ==> (plan matches Ok(ImagePlanV::Settled(row))
                && row.field("imageRef"@) == JsonV::Text(reference) && row.field("error"@).field(
                "code"@,
            ) == JsonV::Text("CONTEXT_CHANGED"@))
        },
{
    broadcast use json::lemma_get_with;

    reveal_strlit("imageRef");
    reveal_strlit("status");
    reveal_strlit("error");
    reveal_strlit("code");
    reveal_strlit("message");
    reveal_strlit("retryable");
    assert("imageRef"@.len() == 8);
    assert("status"@.len() == 6);
    assert("error"@.len() == 5);
    assert("code"@.len() == 4);
    assert("message"@.len() == 7);
    assert("retryable"@.len() == 9);
    assert(image_batch::image_codes()[1] == "CONTEXT_CHANGED"@);
}

/// The images of one call are of one research: two that are of different ones are refused.
pub proof fn image_batches_are_of_one_research(
    named: Option<Seq<char>>,
    found: Seq<Result<StoredRefV, FailureV>>,
    i: int,
)
    requires
        0 <= i < found.len(),
        found[i] is Ok,
    ensures
        image_batch::shared_research(named, found) matches Ok(id) ==> id == Some(
            found[i]->Ok_0.research_id,
        ) && (named is Some ==> named == id),
    decreases found.len(),
{
    let rest = found.drop_last();
    lemma_named_research(named, rest);
    if i < rest.len() {
        assert(rest[i] == found[i]);
        image_batches_are_of_one_research(named, rest, i);
    }
}

proof fn lemma_named_research(named: Option<Seq<char>>, found: Seq<Result<StoredRefV, FailureV>>)
    ensures
        image_batch::shared_research(named, found) matches Ok(id) ==> (named is Some ==> named
            == id),
    decreases found.len(),
{
    if found.len() > 0 {
        lemma_named_research(named, found.drop_last());
    }
}

} // verus!
