//! What the answers that show reviews of one product add up to.

use crate::digest;
use crate::failure::FailureV;
use crate::json::{self, JsonV};
use crate::keys;
use crate::ledger::LedgerV;
use crate::marketplace::{self, NormalizedV};
use crate::product_details;
use crate::product_laws;
use crate::review_pages::{self, PlanV, ReviewRequestV, ReviewsV};
use crate::seen_chain;
use vstd::prelude::*;

verus! {

/// A call that shows reviews.
pub struct ReviewCallV {
    pub raw: JsonV,
    pub ledger: LedgerV,
    pub q: ReviewRequestV,
    pub now: Seq<char>,
}

impl ReviewCallV {
    #[verifier::opaque]
    pub open spec fn made(self) -> Result<(LedgerV, NormalizedV), (LedgerV, FailureV)> {
        review_pages::reviewed(self.raw, self.ledger, self.q, self.now)
    }

    /// What the call makes of its page.
    #[verifier::opaque]
    pub open spec fn plan(self) -> PlanV {
        review_pages::planned(self.raw, self.ledger, self.q)->Ok_0
    }

    /// The reviews of the page that the call reads.
    pub open spec fn reviews(self) -> Seq<JsonV> {
        self.raw.field("reviews"@).elements()
    }

    /// The identities of the reviews that were seen before the call.
    pub open spec fn seen_before(self) -> Seq<Seq<char>> {
        keys::inserted_all(Seq::empty(), self.q.prior_seen_review_keys)
    }

    /// The identities of the reviews that the call shows.
    pub open spec fn fresh(self) -> Seq<Seq<char>> {
        self.plan().picks.fresh
    }

    /// The rows that the call shows.
    pub open spec fn rows(self) -> Seq<JsonV> {
        self.made()->Ok_0.1.data.field("reviews"@).elements()
    }

    /// The number of reviews that the call says were seen.
    pub open spec fn unique_seen(self) -> JsonV {
        self.made()->Ok_0.1.data.field("coverage"@).field("uniqueSeen"@)
    }
}

/// Whether a row shows a review.
pub open spec fn shows(row: JsonV, review: JsonV) -> bool {
    &&& row.field("text"@) == review_pages::review_text_of(review)
    &&& row.field("rating"@) == review_pages::stars_of(review)
    &&& row.field("publishedAt"@) == review_pages::published_at(review)
}

/// The identity of a review to which the source gives an identifier.
pub open spec fn known_as(review: JsonV) -> Seq<char> {
    "id:"@ + digest::sha256_text(vstd::utf8::encode_utf8(review_pages::review_id(review)->Some_0))
}

proof fn lemma_row(
    acc: ReviewsV,
    review: JsonV,
    index: int,
    canonical: Seq<char>,
    observed: Seq<char>,
    q: ReviewRequestV,
)
    ensures
        ({
            let next = review_pages::with_review(acc, review, index, canonical, observed, q);
            &&& next.reviews.len() == acc.reviews.len() + 1
            &&& next.reviews.drop_last() == acc.reviews
            &&& shows(next.reviews.last(), review)
        }),
{
    broadcast use json::lemma_get_with;

    reveal(review_pages::with_review);
    reveal_strlit("reviewRef");
    reveal_strlit("rating");
    reveal_strlit("publishedAt");
    reveal_strlit("text");
    reveal_strlit("variantLabel");
    reveal_strlit("purchaseVerified");
    reveal_strlit("imageRefs");
    reveal_strlit("evidenceRefs");
    assert("rating"@.len() == 6 && "publishedAt"@.len() == 11 && "text"@.len() == 4);
    assert("variantLabel"@.len() == 12 && "purchaseVerified"@.len() == 16);
    assert("imageRefs"@.len() == 9 && "evidenceRefs"@.len() == 12);
    let next = review_pages::with_review(acc, review, index, canonical, observed, q);
    assert(next.reviews.drop_last() =~= acc.reviews);
}

proof fn lemma_rows(
    ledger: LedgerV,
    reviews: Seq<JsonV>,
    picked: Seq<int>,
    canonical: Seq<char>,
    observed: Seq<char>,
    q: ReviewRequestV,
)
    ensures
        ({
            let rows = review_pages::reviews_made(
                ledger,
                reviews,
                picked,
                canonical,
                observed,
                q,
            ).reviews;
            &&& rows.len() == picked.len()
            &&& forall|k: int|
                0 <= k < rows.len() ==> shows(#[trigger] rows[k], reviews[picked[k]])
        }),
    decreases picked.len(),
{
    if picked.len() > 0 {
        let front = picked.drop_last();
        lemma_rows(ledger, reviews, front, canonical, observed, q);
        let acc = review_pages::reviews_made(ledger, reviews, front, canonical, observed, q);
        lemma_row(acc, reviews[picked.last()], picked.last(), canonical, observed, q);
        let rows = review_pages::reviews_made(
            ledger,
            reviews,
            picked,
            canonical,
            observed,
            q,
        ).reviews;
        assert forall|k: int| 0 <= k < rows.len() implies shows(
            #[trigger] rows[k],
            reviews[picked[k]],
        ) by {
            if k < front.len() {
                assert(rows.drop_last()[k] == rows[k]);
                assert(front[k] == picked[k]);
            }
        }
    }
}

/// What is picked stands in the page, and those with an identifier are known by it.
proof fn lemma_picked(
    ledger: LedgerV,
    seen: Seq<Seq<char>>,
    reviews: Seq<JsonV>,
    limit: nat,
    n: int,
)
    requires
        0 <= n <= reviews.len(),
    ensures
        ({
            let p = review_pages::picks(ledger, seen, reviews, limit, n);
            &&& p.picked.len() == p.fresh.len()
            &&& 0 <= p.consumed <= n
            &&& review_pages::is_full(p, limit) || p.consumed == n
            &&& p.seen.len() == seen.len() + p.fresh.len()
            &&& forall|k: int|
                0 <= k < p.picked.len() ==> {
                    &&& 0 <= #[trigger] p.picked[k] < p.consumed
                    &&& review_pages::review_id(reviews[p.picked[k]]) is Some ==> p.fresh[k]
                        == known_as(reviews[p.picked[k]])
                }
        }),
    decreases n,
{
    if n > 0 {
        lemma_picked(ledger, seen, reviews, limit, n - 1);
        let p = review_pages::picks(ledger, seen, reviews, limit, n - 1);
        if !review_pages::is_full(p, limit) {
            let named = review_pages::identity_of(p.ledger, reviews[n - 1]);
            if !p.seen.contains(named.1) {
                seen_chain::lemma_inserted_len(p.seen, named.1);
            }
        }
    }
}

/// What a call shows of its page.
proof fn lemma_call(c: ReviewCallV)
    requires
        c.made() is Ok,
    ensures
        c.rows().len() == c.fresh().len(),
        c.plan().picks == review_pages::picks(
            c.ledger,
            c.seen_before(),
            c.reviews(),
            c.q.limit,
            c.reviews().len() as int,
        ),
        c.plan().rest == c.reviews().skip(c.plan().picks.consumed),
        c.unique_seen() == JsonV::unsigned(c.plan().picks.seen.len() as u64),
        c.plan().picks.seen.len() <= marketplace::MAX_SEEN_REVIEWS,
        forall|k: int|
            0 <= k < c.rows().len() ==> shows(
                #[trigger] c.rows()[k],
                c.reviews()[c.plan().picks.picked[k]],
            ),
{
    broadcast use json::lemma_get_with;

    reveal(ReviewCallV::made);
    reveal(ReviewCallV::plan);
    reveal_strlit("reviews");
    reveal_strlit("refinements");
    reveal_strlit("refinementsIncluded");
    reveal_strlit("refinementsTruncated");
    reveal_strlit("coverage");
    reveal_strlit("nextCursor");
    reveal_strlit("hasNext");
    reveal_strlit("returned");
    reveal_strlit("uniqueSeen");
    reveal_strlit("total");
    reveal_strlit("snapshotGuaranteed");
    reveal_strlit("completeness");
    assert("reviews"@.len() == 7 && "refinements"@.len() == 11 && "coverage"@.len() == 8);
    assert("refinementsIncluded"@.len() == 19 && "refinementsTruncated"@.len() == 20);
    assert("nextCursor"@.len() == 10 && "hasNext"@.len() == 7 && "hasNext"@[0] == 'h');
    assert("reviews"@[0] == 'r');
    assert("uniqueSeen"@.len() == 10 && "total"@.len() == 5 && "completeness"@.len() == 12);
    assert("snapshotGuaranteed"@.len() == 18);
    let plan = c.plan();
    let observed = product_details::observed_at(c.raw, c.now);
    lemma_rows(plan.picks.ledger, c.reviews(), plan.picks.picked, plan.canonical, observed, c.q);
    review_pages::picked_reviews_are_new(
        c.ledger,
        c.seen_before(),
        c.reviews(),
        c.q.limit,
        c.reviews().len() as int,
    );
    let data = c.made()->Ok_0.1.data;
    let rows = review_pages::reviews_made(
        plan.picks.ledger,
        c.reviews(),
        plan.picks.picked,
        plan.canonical,
        observed,
        c.q,
    );
    assert(data.field("reviews"@) == JsonV::Array(rows.reviews));
    let coverage = data.field("coverage"@);
    assert(coverage.field("uniqueSeen"@) == JsonV::unsigned(plan.picks.seen.len() as u64));
}

/// Whether a call goes on where another one left off: with the reviews that had been seen
/// then, as the chain of them gives them back, and, where the page is not used up, with what
/// is left of it under the continuation that the other call handed out.
pub open spec fn follows(before: ReviewCallV, c: ReviewCallV) -> bool {
    let w = before.made()->Ok_0.0.writes.last();
    &&& before.made()->Ok_0.1.data.field("nextCursor"@) == JsonV::Text(w.id)
    &&& c.seen_before() == before.plan().picks.seen
    &&& w.value.get("cachedRaw"@) is Some ==> product_laws::reads(
        c.raw,
        w.value.field("cachedRaw"@),
    )
}

/// Calls that show reviews one after the other.
pub open spec fn is_chain(calls: Seq<ReviewCallV>) -> bool {
    &&& calls.len() > 0
    &&& forall|i: int| 0 <= i < calls.len() ==> (#[trigger] calls[i]).made() is Ok
    &&& forall|i: int| 1 <= i < calls.len() ==> follows(calls[i - 1], #[trigger] calls[i])
}

/// The identities of the reviews that each call of a chain shows.
pub open spec fn fresh_of(calls: Seq<ReviewCallV>) -> Seq<Seq<Seq<char>>> {
    Seq::new(calls.len(), |i: int| calls[i].fresh())
}

/// Each row of an answer shows a review of the page that the call reads, and each of these
/// reviews once: the identities of those that it shows are as many as its rows, all differ,
/// and were not seen before.
pub proof fn answers_show_what_is_new(c: ReviewCallV, k: int)
    requires
        c.made() is Ok,
        0 <= k < c.rows().len(),
    ensures
        c.rows().len() == c.fresh().len(),
        c.fresh().no_duplicates(),
        !c.seen_before().contains(c.fresh()[k]),
        ({
            let place = c.plan().picks.picked[k];
            &&& 0 <= place < c.reviews().len()
            &&& shows(c.rows()[k], c.reviews()[place])
            &&& review_pages::review_id(c.reviews()[place]) is Some ==> c.fresh()[k] == known_as(
                c.reviews()[place],
            )
        }),
{
    lemma_call(c);
    let n = c.reviews().len() as int;
    lemma_picked(c.ledger, c.seen_before(), c.reviews(), c.q.limit, n);
    review_pages::picked_reviews_are_new(c.ledger, c.seen_before(), c.reviews(), c.q.limit, n);
}

/// However the calls of a chain are limited, and whatever pages they read: no review is shown
/// twice, none is shown that was seen before, and each call says rightly how many have been
/// seen.
pub proof fn reviews_are_shown_once(calls: Seq<ReviewCallV>)
    requires
        is_chain(calls),
    ensures
        ({
            let all = product_laws::all_of(fresh_of(calls));
            &&& all.no_duplicates()
            &&& forall|i: int|
                0 <= i < all.len() ==> !calls[0].seen_before().contains(#[trigger] all[i])
            &&& calls.last().unique_seen() == JsonV::unsigned(
                (calls[0].seen_before().len() + all.len()) as u64,
            )
            &&& forall|key: Seq<char>|
                #[trigger] calls.last().plan().picks.seen.contains(key) == (
                calls[0].seen_before().contains(key) || all.contains(key))
        }),
    decreases calls.len(),
{
    let c = calls.last();
    let n = c.reviews().len() as int;
    assert(c.made() is Ok);
    lemma_call(c);
    lemma_picked(c.ledger, c.seen_before(), c.reviews(), c.q.limit, n);
    review_pages::picked_reviews_are_new(c.ledger, c.seen_before(), c.reviews(), c.q.limit, n);
    let front = calls.drop_last();
    let pages = fresh_of(calls);
    let all = product_laws::all_of(pages);
    let start = calls[0].seen_before();
    assert(pages.drop_last() =~= fresh_of(front));
    let earlier = product_laws::all_of(fresh_of(front));
    assert(all == earlier + c.fresh());
    if front.len() > 0 {
        assert(follows(calls[calls.len() - 2], calls[calls.len() - 1]));
        assert(front.last() == calls[calls.len() - 2]);
        assert forall|i: int| 1 <= i < front.len() implies follows(
            front[i - 1],
            #[trigger] front[i],
        ) by {
            assert(follows(calls[i - 1], calls[i]));
        }
        assert forall|i: int| 0 <= i < front.len() implies (#[trigger] front[i]).made() is Ok by {
            assert(calls[i].made() is Ok);
        }
        reviews_are_shown_once(front);
        lemma_seen_sizes(front);
    } else {
        assert(earlier =~= Seq::empty());
        assert(c == calls[0]);
    }
    assert forall|key: Seq<char>| #[trigger] c.plan().picks.seen.contains(key) == (start.contains(
        key,
    ) || all.contains(key)) by {
        assert(c.plan().picks.seen.contains(key) == (c.seen_before().contains(key)
            || c.fresh().contains(key)));
        lemma_either(earlier, c.fresh(), key);
    }
    assert forall|i: int| 0 <= i < all.len() implies !start.contains(#[trigger] all[i]) by {
        if i >= earlier.len() {
            assert(all[i] == c.fresh()[i - earlier.len()]);
            assert(!c.seen_before().contains(all[i]));
        } else {
            assert(all[i] == earlier[i]);
        }
    }
    assert forall|i: int, k: int| 0 <= i < all.len() && 0 <= k < all.len() && i != k implies all[i]
        != all[k] by {
        lemma_apart(earlier, c.fresh(), c.seen_before(), i, k);
    }
    assert(c.plan().picks.seen.len() == start.len() + all.len());
}

/// The reviews that have been seen after a chain are those before it and those that it showed.
proof fn lemma_seen_sizes(calls: Seq<ReviewCallV>)
    requires
        is_chain(calls),
    ensures
        calls.last().plan().picks.seen.len() == calls[0].seen_before().len()
            + product_laws::all_of(fresh_of(calls)).len(),
    decreases calls.len(),
{
    let c = calls.last();
    assert(c.made() is Ok);
    lemma_call(c);
    lemma_picked(
        c.ledger,
        c.seen_before(),
        c.reviews(),
        c.q.limit,
        c.reviews().len() as int,
    );
    let front = calls.drop_last();
    assert(fresh_of(calls).drop_last() =~= fresh_of(front));
    if front.len() > 0 {
        assert(follows(calls[calls.len() - 2], calls[calls.len() - 1]));
        assert(front.last() == calls[calls.len() - 2]);
        assert forall|i: int| 1 <= i < front.len() implies follows(
            front[i - 1],
            #[trigger] front[i],
        ) by {
            assert(follows(calls[i - 1], calls[i]));
        }
        assert forall|i: int| 0 <= i < front.len() implies (#[trigger] front[i]).made() is Ok by {
            assert(calls[i].made() is Ok);
        }
        lemma_seen_sizes(front);
    } else {
        assert(product_laws::all_of(fresh_of(front)) =~= Seq::empty());
    }
}

proof fn lemma_either(a: Seq<Seq<char>>, b: Seq<Seq<char>>, key: Seq<char>)
    ensures
        (a + b).contains(key) == (a.contains(key) || b.contains(key)),
{
    let all = a + b;
    if a.contains(key) {
        let i = choose|i: int| 0 <= i < a.len() && a[i] == key;
        assert(all[i] == key);
    }
    if b.contains(key) {
        let i = choose|i: int| 0 <= i < b.len() && b[i] == key;
        assert(all[a.len() + i] == key);
    }
    if all.contains(key) {
        let i = choose|i: int| 0 <= i < all.len() && all[i] == key;
        if i < a.len() {
            assert(a[i] == key);
        } else {
            assert(b[i - a.len()] == key);
        }
    }
}

proof fn lemma_apart(
    a: Seq<Seq<char>>,
    b: Seq<Seq<char>>,
    seen: Seq<Seq<char>>,
    i: int,
    k: int,
)
    requires
        a.no_duplicates(),
        b.no_duplicates(),
        forall|j: int| 0 <= j < a.len() ==> seen.contains(#[trigger] a[j]),
        forall|j: int| 0 <= j < b.len() ==> !seen.contains(#[trigger] b[j]),
        0 <= i < (a + b).len(),
        0 <= k < (a + b).len(),
        i != k,
    ensures
        (a + b)[i] != (a + b)[k],
{
    let all = a + b;
    if i < a.len() && k >= a.len() {
        assert(all[i] == a[i] && all[k] == b[k - a.len()]);
    } else if k < a.len() && i >= a.len() {
        assert(all[k] == a[k] && all[i] == b[i - a.len()]);
    } else if i < a.len() {
        assert(all[i] == a[i] && all[k] == a[k]);
    } else {
        assert(all[i] == b[i - a.len()] && all[k] == b[k - a.len()]);
    }
}

/// A call that follows one whose page is not used up reads what is left of that page.
proof fn lemma_left(before: ReviewCallV, c: ReviewCallV)
    requires
        before.made() is Ok,
        before.raw is Object,
        before.plan().rest.len() > 0,
        follows(before, c),
    ensures
        c.reviews() == before.plan().rest,
        c.raw is Object,
{
    broadcast use json::lemma_get_with;

    reveal(ReviewCallV::made);
    reveal(ReviewCallV::plan);
    reveal_strlit("cachedRaw");
    reveal_strlit("capturedAt");
    reveal_strlit("contextId");
    reveal_strlit("reviews");
    reveal_strlit("_continuationObservedAt");
    reveal_strlit("_presentation");
    assert("cachedRaw"@.len() == 9 && "capturedAt"@.len() == 10 && "contextId"@.len() == 9);
    assert("cachedRaw"@[1] == 'a' && "contextId"@[1] == 'o');
    assert("reviews"@.len() == 7 && "_continuationObservedAt"@.len() == 23);
    assert("_presentation"@.len() == 13);
    let plan = before.plan();
    let w = before.made()->Ok_0.0.writes.last();
    let observed = product_details::observed_at(before.raw, before.now);
    let stored = before.raw.with("reviews"@, JsonV::Array(plan.rest)).with(
        "_continuationObservedAt"@,
        JsonV::Text(observed),
    );
    assert(w.value.get("cachedRaw"@) == Some(stored));
    assert(stored.field("reviews"@) == JsonV::Array(plan.rest));
}

/// However the calls that use up a page are limited: together they tell every review of the
/// page that was not seen before once, in the order of the page. The reviews of the page have
/// identifiers; one without is told whenever it is looked at.
pub proof fn pages_are_told_whole(calls: Seq<ReviewCallV>)
    requires
        is_chain(calls),
        calls[0].raw is Object,
        review_pages::all_have_ids(calls[0].reviews()),
        forall|i: int| 0 <= i < calls.len() - 1 ==> (#[trigger] calls[i]).plan().rest.len() > 0,
        calls.last().plan().rest.len() == 0,
    ensures
        product_laws::all_of(fresh_of(calls)) == review_pages::told(
            calls[0].seen_before(),
            calls[0].reviews(),
        ).0,
    decreases calls.len(),
{
    let c = calls[0];
    assert(c.made() is Ok);
    lemma_call(c);
    lemma_picked(c.ledger, c.seen_before(), c.reviews(), c.q.limit, c.reviews().len() as int);
    review_pages::limited_answers_add_up(c.ledger, c.seen_before(), c.reviews(), c.q.limit);
    let pages = fresh_of(calls);
    let rest = calls.drop_first();
    lemma_all_of_first(pages);
    if rest.len() > 0 {
        assert(follows(calls[0], calls[1]));
        assert(calls[0].plan().rest.len() > 0);
        lemma_left(c, calls[1]);
        assert forall|i: int| 0 <= i < rest.len() implies (#[trigger] rest[i]).made() is Ok by {
            assert(calls[i + 1].made() is Ok);
        }
        assert forall|i: int| 1 <= i < rest.len() implies follows(rest[i - 1], #[trigger] rest[i]) by {
            assert(follows(calls[i], calls[i + 1]));
        }
        assert forall|i: int| 0 <= i < rest.len() - 1 implies (#[trigger] rest[i]).plan().rest.len()
            > 0 by {
            assert(calls[i + 1].plan().rest.len() > 0);
        }
        assert(review_pages::all_have_ids(rest[0].reviews())) by {
            assert forall|i: int| 0 <= i < rest[0].reviews().len() implies review_pages::review_id(
                #[trigger] rest[0].reviews()[i],
            ) is Some by {
                let at = i + c.plan().picks.consumed;
                assert(rest[0].reviews()[i] == c.reviews()[at]);
            }
        }
        pages_are_told_whole(rest);
        assert(pages.drop_first() =~= fresh_of(rest));
    } else {
        assert(pages.drop_first() =~= Seq::empty());
        assert(c.reviews().skip(c.plan().picks.consumed) =~= Seq::empty());
        assert(product_laws::all_of(pages) =~= c.fresh());
        let told = review_pages::told(c.plan().picks.seen, Seq::empty());
        assert(c.fresh() + told.0 =~= c.fresh());
    }
}

proof fn lemma_all_of_first<A>(pages: Seq<Seq<A>>)
    requires
        pages.len() > 0,
    ensures
        product_laws::all_of(pages) == pages[0] + product_laws::all_of(pages.drop_first()),
    decreases pages.len(),
{
    if pages.len() == 1 {
        assert(pages.drop_last() =~= Seq::empty());
        assert(pages.drop_first() =~= Seq::empty());
        assert(product_laws::all_of(pages) =~= pages[0]);
        assert(pages[0] + product_laws::all_of(pages.drop_first()) =~= pages[0]);
    } else {
        lemma_all_of_first(pages.drop_last());
        assert(pages.drop_last().drop_first() =~= pages.drop_first().drop_last());
        assert(product_laws::all_of(pages) =~= pages[0] + product_laws::all_of(
            pages.drop_first(),
        ));
    }
}

proof fn lemma_picks_again(one: ReviewCallV, other: ReviewCallV, n: int)
    requires
        one.raw == other.raw,
        one.q == other.q,
        draws_new(one),
        draws_new(other),
        0 <= n <= one.reviews().len(),
    ensures
        ({
            let seen = one.seen_before();
            let p = review_pages::picks(one.ledger, seen, one.reviews(), one.q.limit, n);
            let r = review_pages::picks(other.ledger, seen, one.reviews(), one.q.limit, n);
            &&& p.picked == r.picked
            &&& p.consumed == r.consumed
            &&& p.seen.len() == r.seen.len()
        }),
    decreases n,
{
    lemma_picks_news(one, n);
    lemma_picks_news(other, n);
    lemma_picked(one.ledger, one.seen_before(), one.reviews(), one.q.limit, n);
    lemma_picked(other.ledger, other.seen_before(), other.reviews(), other.q.limit, n);
    if n > 0 {
        lemma_picks_again(one, other, n - 1);
        lemma_picks_news(one, n - 1);
        lemma_picks_news(other, n - 1);
    }
}

/// A continuation that is asked for again shows the same reviews again, in as many rows, and
/// says of as many that they have been seen.
pub proof fn replays_show_the_same_reviews(one: ReviewCallV, other: ReviewCallV)
    requires
        one.made() is Ok,
        other.made() is Ok,
        one.raw == other.raw,
        one.q == other.q,
        draws_new(one),
        draws_new(other),
    ensures
        ({
            let places = one.plan().picks.picked;
            &&& show_places(one.rows(), one.reviews(), places)
            &&& show_places(other.rows(), one.reviews(), places)
        }),
        one.plan().rest == other.plan().rest,
        one.unique_seen() == other.unique_seen(),
{
    let n = one.reviews().len() as int;
    lemma_call(one);
    lemma_call(other);
    lemma_picked(one.ledger, one.seen_before(), one.reviews(), one.q.limit, n);
    lemma_picked(other.ledger, other.seen_before(), other.reviews(), other.q.limit, n);
    lemma_picks_again(one, other, n);
}

proof fn lemma_picks_insert(
    ledger: LedgerV,
    seen: Seq<Seq<char>>,
    reviews: Seq<JsonV>,
    limit: nat,
    n: int,
)
    ensures
        ({
            let p = review_pages::picks(ledger, seen, reviews, limit, n);
            p.seen == keys::inserted_all(seen, p.fresh)
        }),
    decreases n,
{
    if n > 0 {
        lemma_picks_insert(ledger, seen, reviews, limit, n - 1);
        let p = review_pages::picks(ledger, seen, reviews, limit, n - 1);
        let named = review_pages::identity_of(p.ledger, reviews[n - 1]);
        assert(p.fresh.push(named.1).drop_last() =~= p.fresh);
    }
}

/// A call that knows what the answers before it showed, as the chain of them gives it back,
/// has seen just that, and afterwards that and what it shows itself: what the chain gives back
/// once the call has kept it.
pub proof fn kept_reviews_are_those_shown(c: ReviewCallV, h: Seq<Seq<Seq<char>>>)
    requires
        c.made() is Ok,
        c.q.prior_seen_review_keys == seen_chain::all_after(h),
    ensures
        c.seen_before() == seen_chain::all_after(h),
        c.plan().picks.seen == seen_chain::all_after(
            if c.fresh().len() == 0 {
                h
            } else {
                h.push(c.fresh())
            },
        ),
{
    let known = seen_chain::all_after(h);
    seen_chain::lemma_all_after(h);
    seen_chain::lemma_inserted_all(Seq::empty(), known);
    seen_chain::lemma_ascending_unique(c.seen_before(), known);
    lemma_call(c);
    lemma_picks_insert(
        c.ledger,
        c.seen_before(),
        c.reviews(),
        c.q.limit,
        c.reviews().len() as int,
    );
    assert(h.push(c.fresh()).drop_last() =~= h);
}

/// Whether a review among the first ones of a page has this identity by its identifier.
pub open spec fn named_in(reviews: Seq<JsonV>, n: int, key: Seq<char>) -> bool {
    exists|j: int|
        0 <= j < n && review_pages::review_id(#[trigger] reviews[j]) is Some && known_as(reviews[j])
            == key
}

/// Whether a review of a page was seen before, or stands in the page before. One to which the
/// source gives no identifier never was.
pub open spec fn is_known(seen: Seq<Seq<char>>, reviews: Seq<JsonV>, j: int) -> bool {
    review_pages::review_id(reviews[j]) is Some && (seen.contains(known_as(reviews[j])) || named_in(
        reviews,
        j,
        known_as(reviews[j]),
    ))
}

/// The places of the reviews that are new among the first ones of a page.
pub open spec fn news(seen: Seq<Seq<char>>, reviews: Seq<JsonV>, n: int) -> Seq<int>
    decreases n,
{
    if n <= 0 {
        Seq::empty()
    } else if is_known(seen, reviews, n - 1) {
        news(seen, reviews, n - 1)
    } else {
        news(seen, reviews, n - 1).push(n - 1)
    }
}

/// Whether no identifier that is drawn for a review was drawn for one before.
pub open spec fn draws_new(c: ReviewCallV) -> bool {
    forall|n: int|
        0 <= n < c.reviews().len() ==> {
            let p = #[trigger] review_pages::picks(
                c.ledger,
                c.seen_before(),
                c.reviews(),
                c.q.limit,
                n,
            );
            review_pages::is_full(p, c.q.limit) || review_pages::review_id(c.reviews()[n]) is Some
                || !p.seen.contains("anonymous:"@ + p.ledger.next())
        }
}

/// Whether identities by an identifier are those that were seen and those of the first reviews.
pub open spec fn has_seen(
    later: Seq<Seq<char>>,
    seen: Seq<Seq<char>>,
    reviews: Seq<JsonV>,
    n: int,
) -> bool {
    forall|x: JsonV|
        later.contains(#[trigger] known_as(x)) == (seen.contains(known_as(x)) || named_in(
            reviews,
            n,
            known_as(x),
        ))
}

proof fn lemma_seen_one(
    later: Seq<Seq<char>>,
    seen: Seq<Seq<char>>,
    reviews: Seq<JsonV>,
    n: int,
    key: Seq<char>,
)
    requires
        0 <= n < reviews.len(),
        has_seen(later, seen, reviews, n),
        review_pages::review_id(reviews[n]) is Some ==> key == known_as(reviews[n]),
        review_pages::review_id(reviews[n]) is None ==> key.len() > 0 && key[0] == 'a',
    ensures
        has_seen(keys::inserted(later, key), seen, reviews, n + 1),
        later.contains(key) && review_pages::review_id(reviews[n]) is Some ==> has_seen(
            later,
            seen,
            reviews,
            n + 1,
        ),
{
    reveal_strlit("id:");
    assert forall|x: JsonV|
        named_in(reviews, n + 1, known_as(x)) == (named_in(reviews, n, known_as(x)) || (
        review_pages::review_id(reviews[n]) is Some && #[trigger] known_as(x) == key)) by {
        if named_in(reviews, n + 1, known_as(x)) {
            let j = choose|j: int|
                0 <= j < n + 1 && review_pages::review_id(#[trigger] reviews[j]) is Some
                    && known_as(reviews[j]) == known_as(x);
            if j < n {
                assert(named_in(reviews, n, known_as(x)));
            }
        }
        if named_in(reviews, n, known_as(x)) {
            let j = choose|j: int|
                0 <= j < n && review_pages::review_id(#[trigger] reviews[j]) is Some && known_as(
                    reviews[j],
                ) == known_as(x);
            assert(named_in(reviews, n + 1, known_as(x)));
        }
        if review_pages::review_id(reviews[n]) is Some && known_as(x) == key {
            assert(known_as(reviews[n]) == known_as(x));
            assert(named_in(reviews, n + 1, known_as(x)));
        }
    }
    assert forall|x: JsonV|
        keys::inserted(later, key).contains(#[trigger] known_as(x)) == (seen.contains(known_as(x))
            || named_in(reviews, n + 1, known_as(x))) by {
        keys::lemma_inserted_contains(later, key, known_as(x));
        assert(known_as(x)[0] == 'i');
    }
}

proof fn lemma_picks_news(c: ReviewCallV, n: int)
    requires
        draws_new(c),
        0 <= n <= c.reviews().len(),
    ensures
        ({
            let p = review_pages::picks(c.ledger, c.seen_before(), c.reviews(), c.q.limit, n);
            &&& 0 <= p.consumed <= n
            &&& review_pages::is_full(p, c.q.limit) || p.consumed == n
            &&& p.picked == news(c.seen_before(), c.reviews(), p.consumed)
            &&& has_seen(p.seen, c.seen_before(), c.reviews(), p.consumed)
        }),
    decreases n,
{
    let seen = c.seen_before();
    let reviews = c.reviews();
    if n > 0 {
        lemma_picks_news(c, n - 1);
        let p = review_pages::picks(c.ledger, seen, reviews, c.q.limit, n - 1);
        if !review_pages::is_full(p, c.q.limit) {
            let named = review_pages::identity_of(p.ledger, reviews[n - 1]);
            reveal_strlit("anonymous:");
            lemma_seen_one(p.seen, seen, reviews, n - 1, named.1);
            if review_pages::review_id(reviews[n - 1]) is Some {
                assert(named.1 == known_as(reviews[n - 1]));
                assert(p.seen.contains(known_as(reviews[n - 1])) == is_known(seen, reviews, n - 1));
            }
        }
    }
}

/// A review named among the first ones stands before a place or behind it.
proof fn lemma_named_split(reviews: Seq<JsonV>, c: int, m: int, key: Seq<char>)
    requires
        0 <= c,
        0 <= m,
        c + m <= reviews.len(),
    ensures
        named_in(reviews, c + m, key) == (named_in(reviews, c, key) || named_in(
            reviews.skip(c),
            m,
            key,
        )),
{
    let rest = reviews.skip(c);
    if named_in(reviews, c + m, key) {
        let i = choose|i: int|
            0 <= i < c + m && review_pages::review_id(#[trigger] reviews[i]) is Some && known_as(
                reviews[i],
            ) == key;
        if i >= c {
            assert(rest[i - c] == reviews[i]);
            assert(named_in(rest, m, key));
        } else {
            assert(named_in(reviews, c, key));
        }
    }
    if named_in(reviews, c, key) {
        let i = choose|i: int|
            0 <= i < c && review_pages::review_id(#[trigger] reviews[i]) is Some && known_as(
                reviews[i],
            ) == key;
        assert(named_in(reviews, c + m, key));
    }
    if named_in(rest, m, key) {
        let i = choose|i: int|
            0 <= i < m && review_pages::review_id(#[trigger] rest[i]) is Some && known_as(rest[i])
                == key;
        assert(reviews[c + i] == rest[i]);
        assert(named_in(reviews, c + m, key));
    }
}

proof fn lemma_news_split(
    seen: Seq<Seq<char>>,
    later: Seq<Seq<char>>,
    reviews: Seq<JsonV>,
    c: int,
    m: int,
)
    requires
        0 <= c,
        0 <= m,
        c + m <= reviews.len(),
        has_seen(later, seen, reviews, c),
    ensures
        ({
            let first = news(seen, reviews, c);
            let rest = news(later, reviews.skip(c), m);
            let all = news(seen, reviews, c + m);
            &&& all.len() == first.len() + rest.len()
            &&& forall|k: int| 0 <= k < first.len() ==> #[trigger] all[k] == first[k]
            &&& forall|k: int|
                0 <= k < rest.len() ==> #[trigger] all[first.len() + k] == rest[k] + c
        }),
    decreases m,
{
    if m > 0 {
        lemma_news_split(seen, later, reviews, c, m - 1);
        let rest = reviews.skip(c);
        let j = c + m - 1;
        assert(rest[m - 1] == reviews[j]);
        let key = known_as(reviews[j]);
        assert(later.contains(key) == (seen.contains(key) || named_in(reviews, c, key)));
        lemma_named_split(reviews, c, m - 1, key);
        assert(is_known(seen, reviews, j) == is_known(later, rest, m - 1));
    }
}

/// The rows of each call of a chain.
pub open spec fn rows_of(calls: Seq<ReviewCallV>) -> Seq<Seq<JsonV>> {
    Seq::new(calls.len(), |i: int| calls[i].rows())
}

/// Whether rows show just the reviews at these places, in order.
pub open spec fn show_places(rows: Seq<JsonV>, reviews: Seq<JsonV>, places: Seq<int>) -> bool {
    &&& rows.len() == places.len()
    &&& forall|k: int| 0 <= k < rows.len() ==> shows(#[trigger] rows[k], reviews[places[k]])
}

/// However the calls that use up a page are limited: their rows show every review of the page
/// that is new once, in the order of the page, and no other. A review that was seen before, or
/// repeats one of the page, is left out; one to which the source gives no identifier is new, as
/// no identifier is drawn twice. Then just the reviews of the page have been seen that have
/// identifiers, and those before.
pub proof fn pages_are_shown_whole(calls: Seq<ReviewCallV>)
    requires
        is_chain(calls),
        calls[0].raw is Object,
        forall|i: int| 0 <= i < calls.len() ==> draws_new(#[trigger] calls[i]),
        forall|i: int| 0 <= i < calls.len() - 1 ==> (#[trigger] calls[i]).plan().rest.len() > 0,
        calls.last().plan().rest.len() == 0,
    ensures
        show_places(
            product_laws::all_of(rows_of(calls)),
            calls[0].reviews(),
            news(calls[0].seen_before(), calls[0].reviews(), calls[0].reviews().len() as int),
        ),
        has_seen(
            calls.last().plan().picks.seen,
            calls[0].seen_before(),
            calls[0].reviews(),
            calls[0].reviews().len() as int,
        ),
    decreases calls.len(),
{
    let c = calls[0];
    assert(c.made() is Ok);
    assert(draws_new(c));
    let seen = c.seen_before();
    let reviews = c.reviews();
    let total = reviews.len() as int;
    lemma_call(c);
    lemma_picks_news(c, total);
    lemma_picked(c.ledger, seen, reviews, c.q.limit, total);
    let consumed = c.plan().picks.consumed;
    let first = news(seen, reviews, consumed);
    let pages = rows_of(calls);
    let all = product_laws::all_of(pages);
    let wanted = news(seen, reviews, total);
    let rest = calls.drop_first();
    lemma_all_of_first(pages);
    assert(pages.drop_first() =~= rows_of(rest));
    let later = product_laws::all_of(rows_of(rest));
    assert(all == c.rows() + later);
    lemma_news_split(seen, c.plan().picks.seen, reviews, consumed, total - consumed);
    if rest.len() > 0 {
        assert(follows(calls[0], calls[1]));
        assert(calls[0].plan().rest.len() > 0);
        lemma_left(c, calls[1]);
        assert forall|i: int| 0 <= i < rest.len() implies (#[trigger] rest[i]).made() is Ok
            && draws_new(rest[i]) by {
            assert(calls[i + 1].made() is Ok);
            assert(draws_new(calls[i + 1]));
        }
        assert forall|i: int| 1 <= i < rest.len() implies follows(rest[i - 1], #[trigger] rest[i]) by {
            assert(follows(calls[i], calls[i + 1]));
        }
        assert forall|i: int| 0 <= i < rest.len() - 1 implies (#[trigger] rest[i]).plan().rest.len()
            > 0 by {
            assert(calls[i + 1].plan().rest.len() > 0);
        }
        pages_are_shown_whole(rest);
        let left = reviews.skip(consumed);
        assert(rest[0].reviews() == left);
        let behind = news(c.plan().picks.seen, left, left.len() as int);
        assert(show_places(later, left, behind));
        assert(calls.last() == rest.last());
        assert forall|x: JsonV| #[trigger] named_in(reviews, total, known_as(x)) == (named_in(
            reviews,
            consumed,
            known_as(x),
        ) || named_in(left, total - consumed, known_as(x))) by {
            lemma_named_split(reviews, consumed, total - consumed, known_as(x));
        }
        assert forall|k: int| 0 <= k < all.len() implies shows(
            #[trigger] all[k],
            reviews[wanted[k]],
        ) by {
            if k < first.len() {
                assert(wanted[k] == first[k]);
                assert(all[k] == c.rows()[k]);
            } else {
                let m = k - first.len();
                assert(all[k] == later[m]);
                lemma_news_bounds(c.plan().picks.seen, left, left.len() as int);
                assert(wanted[first.len() + m] == behind[m] + consumed);
                assert(left[behind[m]] == reviews[wanted[k]]);
            }
        }
    } else {
        assert(later =~= Seq::empty());
        assert(consumed == total);
        assert(all =~= c.rows());
    }
}

proof fn lemma_news_bounds(seen: Seq<Seq<char>>, reviews: Seq<JsonV>, n: int)
    ensures
        forall|k: int|
            0 <= k < news(seen, reviews, n).len() ==> 0 <= #[trigger] news(seen, reviews, n)[k] < n,
    decreases n,
{
    if n > 0 {
        lemma_news_bounds(seen, reviews, n - 1);
        let before = news(seen, reviews, n - 1);
        let all = news(seen, reviews, n);
        assert forall|k: int| 0 <= k < all.len() implies 0 <= #[trigger] all[k] < n by {
            if k < before.len() {
                assert(all[k] == before[k]);
            }
        }
    }
}

proof fn lemma_all_of_sum<A>(a: Seq<Seq<A>>, b: Seq<Seq<A>>)
    ensures
        product_laws::all_of(a + b) == product_laws::all_of(a) + product_laws::all_of(b),
    decreases b.len(),
{
    if b.len() == 0 {
        assert(a + b =~= a);
        assert(product_laws::all_of(a) + product_laws::all_of(b) =~= product_laws::all_of(a));
    } else {
        lemma_all_of_sum(a, b.drop_last());
        assert((a + b).drop_last() =~= a + b.drop_last());
        assert((a + b).last() == b.last());
        assert(product_laws::all_of(a + b) =~= product_laws::all_of(a) + product_laws::all_of(b));
    }
}

/// Whether calls use up the page that the first of them reads, and read no other.
pub open spec fn use_up_a_page(calls: Seq<ReviewCallV>) -> bool {
    &&& calls.len() > 0
    &&& calls[0].raw is Object
    &&& forall|i: int| 0 <= i < calls.len() ==> draws_new(#[trigger] calls[i])
    &&& forall|i: int| 0 <= i < calls.len() - 1 ==> (#[trigger] calls[i]).plan().rest.len() > 0
    &&& calls.last().plan().rest.len() == 0
}

/// Calls that use up one page of the source, and then calls that use up the next one, show the
/// reviews of both that are new, each once and in order. On the second page those are new that
/// were not seen before the first call, stand neither on the first page nor earlier on the
/// second one, or have no identifier.
pub proof fn pages_follow_each_other(one: Seq<ReviewCallV>, two: Seq<ReviewCallV>)
    requires
        is_chain(one + two),
        use_up_a_page(one),
        use_up_a_page(two),
    ensures
        ({
            let first = product_laws::all_of(rows_of(one));
            let second = product_laws::all_of(rows_of(two));
            let seen = one[0].seen_before();
            let page = one[0].reviews();
            let next = two[0].reviews();
            &&& product_laws::all_of(rows_of(one + two)) == first + second
            &&& show_places(first, page, news(seen, page, page.len() as int))
            &&& show_places(second, next, news(two[0].seen_before(), next, next.len() as int))
            &&& has_seen(two[0].seen_before(), seen, page, page.len() as int)
        }),
{
    let calls = one + two;
    assert forall|i: int| 0 <= i < one.len() implies (#[trigger] one[i]).made() is Ok by {
        assert(calls[i].made() is Ok);
    }
    assert forall|i: int| 1 <= i < one.len() implies follows(one[i - 1], #[trigger] one[i]) by {
        assert(follows(calls[i - 1], calls[i]));
    }
    assert forall|i: int| 0 <= i < two.len() implies (#[trigger] two[i]).made() is Ok by {
        assert(calls[one.len() + i].made() is Ok);
    }
    assert forall|i: int| 1 <= i < two.len() implies follows(two[i - 1], #[trigger] two[i]) by {
        assert(follows(calls[one.len() + i - 1], calls[one.len() + i]));
    }
    let k = one.len() as int;
    assert(follows(calls[k - 1], calls[k]));
    assert(calls[k - 1] == one.last() && calls[k] == two[0]);
    pages_are_shown_whole(one);
    pages_are_shown_whole(two);
    assert(rows_of(calls) =~= rows_of(one) + rows_of(two));
    lemma_all_of_sum(rows_of(one), rows_of(two));
}

/// Each call of a chain says how many reviews have been seen by then: those before the chain,
/// and all that it and the calls before it show.
pub proof fn calls_count_what_was_seen(calls: Seq<ReviewCallV>, n: int)
    requires
        is_chain(calls),
        0 <= n < calls.len(),
    ensures
        calls[n].unique_seen() == JsonV::unsigned(
            (calls[0].seen_before().len() + product_laws::all_of(
                rows_of(calls.take(n + 1)),
            ).len()) as u64,
        ),
{
    let part = calls.take(n + 1);
    assert forall|i: int| 0 <= i < part.len() implies (#[trigger] part[i]).made() is Ok by {
        assert(calls[i].made() is Ok);
    }
    assert forall|i: int| 1 <= i < part.len() implies follows(part[i - 1], #[trigger] part[i]) by {
        assert(follows(calls[i - 1], calls[i]));
    }
    reviews_are_shown_once(part);
    lemma_rows_and_fresh(part);
}

proof fn lemma_rows_and_fresh(calls: Seq<ReviewCallV>)
    requires
        forall|i: int| 0 <= i < calls.len() ==> (#[trigger] calls[i]).made() is Ok,
    ensures
        product_laws::all_of(rows_of(calls)).len() == product_laws::all_of(fresh_of(calls)).len(),
    decreases calls.len(),
{
    if calls.len() > 0 {
        let front = calls.drop_last();
        assert forall|i: int| 0 <= i < front.len() implies (#[trigger] front[i]).made() is Ok by {
            assert(calls[i].made() is Ok);
        }
        lemma_rows_and_fresh(front);
        assert(rows_of(calls).drop_last() =~= rows_of(front));
        assert(fresh_of(calls).drop_last() =~= fresh_of(front));
        assert(calls.last().made() is Ok);
        lemma_call(calls.last());
    }
}

/// A call that leaves reviews of its page shows as many as it may.
pub proof fn answers_that_leave_reviews_are_full(c: ReviewCallV)
    requires
        c.made() is Ok,
        c.plan().rest.len() > 0,
    ensures
        c.rows().len() == review_pages::quota(c.q.limit),
{
    lemma_call(c);
    lemma_picked(
        c.ledger,
        c.seen_before(),
        c.reviews(),
        c.q.limit,
        c.reviews().len() as int,
    );
}

} // verus!
