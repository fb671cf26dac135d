//! Review observations as public data, each review once.

use crate::digest;
use crate::double;
use crate::evidence;
use crate::failure::{Failure, FailureV};
use crate::json::{self, Json, JsonV};
use crate::keys::{self, KeySet};
use crate::ledger::{Ledger, LedgerV};
use crate::marketplace::{self, Normalized, NormalizedV};
use crate::product_details;
use crate::search_results;
use crate::seen_chain;
use crate::text;
use crate::widgets;
use vstd::prelude::*;

verus! {

/// Which reviews are asked for, and what was seen of them before.
#[derive(Debug)]
pub struct ReviewRequest<'a> {
    pub research_id: &'a str,
    pub context_id: &'a str,
    pub product_ref: &'a str,
    pub sku: &'a str,
    pub source_url: &'a str,
    pub limit: usize,
    pub prior_seen_review_keys: &'a [String],
    pub prior_seen_ref: Option<&'a str>,
    pub prior_seen_depth: usize,
    pub current_path: &'a str,
    pub prior_no_progress_pages: usize,
    pub prior_page_made_progress: bool,
}

/// What a [`ReviewRequest`] holds.
pub struct ReviewRequestV {
    pub research_id: Seq<char>,
    pub context_id: Seq<char>,
    pub product_ref: Seq<char>,
    pub sku: Seq<char>,
    pub source_url: Seq<char>,
    pub limit: nat,
    pub prior_seen_review_keys: Seq<Seq<char>>,
    pub prior_seen_ref: Option<Seq<char>>,
    pub prior_seen_depth: nat,
    pub current_path: Seq<char>,
    pub prior_no_progress_pages: nat,
    pub prior_page_made_progress: bool,
}

impl View for ReviewRequest<'_> {
    type V = ReviewRequestV;

    open spec fn view(&self) -> ReviewRequestV {
        ReviewRequestV {
            research_id: self.research_id@,
            context_id: self.context_id@,
            product_ref: self.product_ref@,
            sku: self.sku@,
            source_url: self.source_url@,
            limit: self.limit as nat,
            prior_seen_review_keys: text::texts(self.prior_seen_review_keys@),
            prior_seen_ref: json::str_of(self.prior_seen_ref),
            prior_seen_depth: self.prior_seen_depth as nat,
            current_path: self.current_path@,
            prior_no_progress_pages: self.prior_no_progress_pages as nat,
            prior_page_made_progress: self.prior_page_made_progress,
        }
    }
}

/// The identifier that a source gives a review.
pub open spec fn review_id(review: JsonV) -> Option<Seq<char>> {
    match review.field("reviewId"@) {
        JsonV::Text(id) => if id.len() > 0 {
            Some(id)
        } else {
            None
        },
        _ => None,
    }
}

/// What a review is known by, and the ledger after it was named: one with an identifier by
/// the digest of it, any other by an identifier of its own.
pub open spec fn identity_of(ledger: LedgerV, review: JsonV) -> (LedgerV, Seq<char>) {
    match review_id(review) {
        Some(id) => (ledger, "id:"@ + digest::sha256_text(vstd::utf8::encode_utf8(id))),
        None => (ledger.drawn(), "anonymous:"@ + ledger.next()),
    }
}

/// What a review is known by. It is always something that a review can be known by.
pub fn review_identity(review: &Json, ledger: &mut Ledger) -> (r: String)
    requires
        old(ledger)@.left() > 0,
    ensures
        (final(ledger)@, r@) == identity_of(old(ledger)@, review@),
        final(ledger)@.ids == old(ledger)@.ids,
        final(ledger)@.used <= old(ledger)@.used + 1,
        old(ledger)@.valid() ==> seen_chain::is_identity(r@),
{
    if let Some(id) = review.field("reviewId").as_str() {
        if text::chars_of(id).len() > 0 {
            let hash: String = digest::sha256_hex(id.as_bytes());
            let key: String = text::joined("id:", hash.as_str());
            assert(key@.subrange(0, "id:"@.len() as int) =~= "id:"@);
            assert(key@.subrange("id:"@.len() as int, key@.len() as int) =~= hash@);
            return key;
        }
    }
    let id: String = ledger.draw();
    let key: String = text::joined("anonymous:", id.as_str());
    proof {
        reveal_strlit("anonymous:");
        reveal_strlit("id:");
        assert(key@.subrange(0, "anonymous:"@.len() as int) =~= "anonymous:"@);
        assert(key@.subrange("anonymous:"@.len() as int, key@.len() as int) =~= id@);
        assert(key@[0] == 'a');
        if text::starts(key@, "id:"@) {
            assert(key@.subrange(0, 3)[0] == 'i');
        }
    }
    key
}

/// What was picked from the first reviews of a page.
#[verifier::ext_equal]
pub struct PicksV {
    pub ledger: LedgerV,
    /// All reviews that were seen, in the order of their keys.
    pub seen: Seq<Seq<char>>,
    /// The keys of those that were picked.
    pub fresh: Seq<Seq<char>>,
    /// The places of those that were picked.
    pub picked: Seq<int>,
    /// How many reviews were looked at.
    pub consumed: int,
}

/// How many reviews one answer shows.
pub open spec fn quota(limit: nat) -> int {
    marketplace::at_most(limit as int, 30)
}

/// Whether no more reviews are looked at.
pub open spec fn is_full(p: PicksV, limit: nat) -> bool {
    p.picked.len() > 0 && p.picked.len() == quota(limit)
}

/// What is picked once one more review was looked at.
pub open spec fn picked_next(p: PicksV, review: JsonV) -> PicksV {
    let named = identity_of(p.ledger, review);
    if p.seen.contains(named.1) {
        PicksV { ledger: named.0, consumed: p.consumed + 1, ..p }
    } else {
        PicksV {
            ledger: named.0,
            seen: keys::inserted(p.seen, named.1),
            fresh: p.fresh.push(named.1),
            picked: p.picked.push(p.consumed),
            consumed: p.consumed + 1,
        }
    }
}

/// What is picked from the first `n` reviews of a page: those that were not seen, until
/// there are enough.
pub open spec fn picks(
    ledger: LedgerV,
    seen: Seq<Seq<char>>,
    reviews: Seq<JsonV>,
    limit: nat,
    n: int,
) -> PicksV
    decreases n,
{
    if n <= 0 {
        PicksV { ledger, seen, fresh: Seq::empty(), picked: Seq::empty(), consumed: 0 }
    } else {
        let p = picks(ledger, seen, reviews, limit, n - 1);
        if is_full(p, limit) {
            p
        } else {
            picked_next(p, reviews[n - 1])
        }
    }
}

/// Once there are enough, the rest changes nothing.
proof fn lemma_full_stays(
    ledger: LedgerV,
    seen: Seq<Seq<char>>,
    reviews: Seq<JsonV>,
    limit: nat,
    n: int,
    m: int,
)
    requires
        0 <= n <= m,
        is_full(picks(ledger, seen, reviews, limit, n), limit),
    ensures
        picks(ledger, seen, reviews, limit, m) == picks(ledger, seen, reviews, limit, n),
    decreases m,
{
    if m > n {
        lemma_full_stays(ledger, seen, reviews, limit, n, m - 1);
    }
}

/// What the picks from a page are.
#[verifier::ext_equal]
struct Picks {
    seen: KeySet,
    fresh: Vec<String>,
    picked: Vec<usize>,
    consumed: usize,
}

spec fn places(v: Seq<usize>) -> Seq<int> {
    Seq::new(v.len(), |i: int| v[i] as int)
}

spec fn picks_view(p: Picks, ledger: LedgerV) -> PicksV {
    PicksV {
        ledger,
        seen: p.seen@,
        fresh: text::texts(p.fresh@),
        picked: places(p.picked@),
        consumed: p.consumed as int,
    }
}

fn pick(p: &mut Picks, ledger: &mut Ledger, review: &Json)
    requires
        old(p).seen.valid(),
        old(p).consumed < 30,
        old(ledger)@.left() > 0,
    ensures
        final(p).seen.valid(),
        picks_view(*final(p), final(ledger)@) == picked_next(
            picks_view(*old(p), old(ledger)@),
            review@,
        ),
        final(ledger)@.ids == old(ledger)@.ids,
        final(ledger)@.used <= old(ledger)@.used + 1,
        final(p).picked@.len() <= old(p).picked@.len() + 1,
        forall|i: int|
            0 <= i < final(p).picked@.len() ==> i < old(p).picked@.len() && final(p).picked@[i]
                == old(p).picked@[i] || #[trigger] final(p).picked@[i] == old(p).consumed,
{
    let ghost before = *p;
    let key: String = review_identity(review, ledger);
    if p.seen.insert(key.clone()) {
        proof {
            text::lemma_texts_push(p.fresh@, key);
        }
        p.fresh.push(key);
        p.picked.push(p.consumed);
        assert(places(p.picked@) =~= places(before.picked@).push(before.consumed as int));
    }
    p.consumed = p.consumed + 1;
}

fn pick_reviews(
    reviews: &Vec<&Json>,
    ledger: &mut Ledger,
    seen: KeySet,
    limit: usize,
) -> (r: Picks)
    requires
        seen.valid(),
        reviews@.len() <= 30,
        old(ledger)@.left() >= 30,
    ensures
        r.seen.valid(),
        picks_view(r, final(ledger)@) == picks(
            old(ledger)@,
            seen@,
            json::refs(reviews@),
            limit as nat,
            reviews@.len() as int,
        ),
        final(ledger)@.ids == old(ledger)@.ids,
        final(ledger)@.used <= old(ledger)@.used + 30,
        r.consumed <= reviews@.len(),
        r.picked@.len() <= reviews@.len(),
        forall|i: int| 0 <= i < r.picked@.len() ==> #[trigger] r.picked@[i] < reviews@.len(),
{
    let ghost start = ledger@;
    let ghost all = json::refs(reviews@);
    let ghost prior = seen@;
    let most: usize = if limit < 30 {
        limit
    } else {
        30
    };
    let mut p: Picks = Picks { seen, fresh: Vec::new(), picked: Vec::new(), consumed: 0 };
    assert(picks_view(p, ledger@) =~= picks(start, prior, all, limit as nat, 0));
    let mut i: usize = 0;
    while i < reviews.len() && !(p.picked.len() > 0 && p.picked.len() == most)
        invariant
            0 <= i <= reviews@.len() <= 30,
            all == json::refs(reviews@),
            most == quota(limit as nat),
            p.seen.valid(),
            p.consumed == i,
            p.picked@.len() <= i,
            forall|k: int| 0 <= k < p.picked@.len() ==> #[trigger] p.picked@[k] < i,
            start.left() >= 30,
            ledger@.ids == start.ids,
            ledger@.used <= start.used + i,
            picks_view(p, ledger@) == picks(start, prior, all, limit as nat, i as int),
        decreases reviews@.len() - i,
    {
        assert(all[i as int] == reviews@[i as int]@);
        pick(&mut p, ledger, reviews[i]);
        i = i + 1;
    }
    proof {
        if i < reviews@.len() {
            lemma_full_stays(start, prior, all, limit as nat, i as int, reviews@.len() as int);
        }
    }
    p
}

pub open spec fn coverage_exceeded() -> FailureV {
    FailureV::Message("SOURCE_CHANGED: review cursor coverage exceeds 30000 identities"@)
}

/// What is to be shown of a review page, before anything is written.
pub struct PlanV {
    pub picks: PicksV,
    pub canonical: Seq<char>,
    /// The reviews that are left for a later answer.
    pub rest: Seq<JsonV>,
    pub next_path: Option<Seq<char>>,
    pub page_made_progress: bool,
    pub no_progress_pages: int,
}

impl PlanV {
    pub open spec fn continues(self) -> bool {
        self.rest.len() > 0 || self.next_path is Some
    }
}

/// How many pages in a row have shown nothing new, once a page is done.
pub open spec fn pages_without_progress(rest: nat, progress: bool, prior: nat) -> int {
    if rest > 0 {
        prior as int
    } else if progress {
        0
    } else {
        marketplace::at_most((prior + 1) as int, usize::MAX as int)
    }
}

/// What is to be shown of a review page; a page that leads nowhere is refused.
pub open spec fn planned(raw: JsonV, ledger: LedgerV, q: ReviewRequestV) -> Result<
    PlanV,
    (LedgerV, FailureV),
> {
    let reviews = raw.field("reviews"@).elements();
    match evidence::source_url(q.source_url) {
        None => Err(
            (
                ledger,
                FailureV::Message("SOURCE_CHANGED: review source URL is missing or invalid"@),
            ),
        ),
        Some(canonical) => if reviews.len() > 30 {
            Err(
                (
                    ledger,
                    FailureV::Message(
                        "SOURCE_CHANGED: review result exceeds the bounded source page"@,
                    ),
                ),
            )
        } else {
            let prior = keys::inserted_all(Seq::empty(), q.prior_seen_review_keys);
            if prior.len() > marketplace::MAX_SEEN_REVIEWS {
                Err((ledger, coverage_exceeded()))
            } else {
                let p = picks(ledger, prior, reviews, q.limit, reviews.len() as int);
                let rest = reviews.skip(p.consumed);
                let next_path = if rest.len() > 0 {
                    None
                } else {
                    raw.field("nextPath"@).as_text()
                };
                let progress = q.prior_page_made_progress || p.fresh.len() > 0;
                let idle = pages_without_progress(rest.len(), progress, q.prior_no_progress_pages);
                if p.seen.len() > marketplace::MAX_SEEN_REVIEWS {
                    Err((p.ledger, coverage_exceeded()))
                } else if (rest.len() > 0 || next_path is Some) && (idle
                    >= marketplace::MAX_REVIEW_NO_PROGRESS_PAGES || (rest.len() == 0 && !progress
                    && next_path == Some(q.current_path))) {
                    Err(
                        (
                            p.ledger,
                            FailureV::Message(
                                "SOURCE_CHANGED: review pagination made no progress; restart reviews from productRef"@,
                            ),
                        ),
                    )
                } else {
                    Ok(
                        PlanV {
                            picks: p,
                            canonical,
                            rest,
                            next_path,
                            page_made_progress: progress,
                            no_progress_pages: idle,
                        },
                    )
                }
            }
        },
    }
}

struct Plan<'a> {
    picks: Picks,
    canonical: String,
    next_path: Option<&'a str>,
    page_made_progress: bool,
    no_progress_pages: usize,
}

spec fn plan_view(p: Plan, ledger: LedgerV, reviews: Seq<JsonV>) -> PlanV {
    PlanV {
        picks: picks_view(p.picks, ledger),
        canonical: p.canonical@,
        rest: reviews.skip(p.picks.consumed as int),
        next_path: json::str_of(p.next_path),
        page_made_progress: p.page_made_progress,
        no_progress_pages: p.no_progress_pages as int,
    }
}

fn plan<'a>(raw: &'a Json, reviews: &Vec<&'a Json>, ledger: &mut Ledger, q: &ReviewRequest) -> (r:
    Result<Plan<'a>, Failure>)
    requires
        json::refs(reviews@) == raw@.field("reviews"@).elements(),
        old(ledger)@.left() >= 30,
    ensures
        final(ledger)@.ids == old(ledger)@.ids,
        final(ledger)@.used <= old(ledger)@.used + 30,
        match planned(raw@, old(ledger)@, q@) {
            Ok(v) => {
                &&& r matches Ok(p)
                &&& plan_view(p, final(ledger)@, json::refs(reviews@)) == v
                &&& p.picks.seen.valid()
                &&& p.picks.consumed <= reviews@.len() <= 30
                &&& p.picks.picked@.len() <= reviews@.len()
                &&& forall|i: int|
                    0 <= i < p.picks.picked@.len() ==> #[trigger] p.picks.picked@[i]
                        < reviews@.len()
            },
            Err(e) => r matches Err(f) && e == (final(ledger)@, f@),
        },
{
    let canonical: String = match evidence::canonical_source_url(q.source_url) {
        Some(u) => u,
        None => {
            return Err(Failure::new("SOURCE_CHANGED: review source URL is missing or invalid"));
        },
    };
    if reviews.len() > 30 {
        return Err(
            Failure::new("SOURCE_CHANGED: review result exceeds the bounded source page"),
        );
    }
    let mut seen: KeySet = KeySet::new();
    seen.insert_all(q.prior_seen_review_keys);
    if seen.len() > marketplace::MAX_SEEN_REVIEWS {
        return Err(
            Failure::new("SOURCE_CHANGED: review cursor coverage exceeds 30000 identities"),
        );
    }
    let picks: Picks = pick_reviews(reviews, ledger, seen, q.limit);
    if picks.seen.len() > marketplace::MAX_SEEN_REVIEWS {
        return Err(
            Failure::new("SOURCE_CHANGED: review cursor coverage exceeds 30000 identities"),
        );
    }
    let rest: usize = reviews.len() - picks.consumed;
    let next_path: Option<&str> = if rest > 0 {
        None
    } else {
        raw.field("nextPath").as_str()
    };
    let progress: bool = q.prior_page_made_progress || picks.fresh.len() > 0;
    let idle: usize = if rest > 0 {
        q.prior_no_progress_pages
    } else if progress {
        0
    } else if q.prior_no_progress_pages < usize::MAX {
        q.prior_no_progress_pages + 1
    } else {
        usize::MAX
    };
    let same_path: bool = match next_path {
        Some(p) => text::same(p, q.current_path),
        None => false,
    };
    if (rest > 0 || next_path.is_some()) && (idle >= marketplace::MAX_REVIEW_NO_PROGRESS_PAGES || (
    rest == 0 && !progress && same_path)) {
        return Err(
            Failure::new(
                "SOURCE_CHANGED: review pagination made no progress; restart reviews from productRef",
            ),
        );
    }
    Ok(
        Plan {
            picks,
            canonical,
            next_path,
            page_made_progress: progress,
            no_progress_pages: idle,
        },
    )
}

/// How a text that spells a time is written again, where `chrono` reads it as RFC 3339.
pub uninterp spec fn timestamp_of(input: Seq<char>) -> Option<Seq<char>>;

/// `chrono::DateTime::parse_from_rfc3339` and `to_rfc3339` of what it reads: a function of
/// the text. A text that is no such time has none.
#[verifier::external_body]
pub(crate) fn read_timestamp(input: &str) -> (r: Option<String>)
    ensures
        text::text_of(r) == timestamp_of(input@),
{
    chrono::DateTime::parse_from_rfc3339(input).ok().map(|d| d.to_rfc3339())
}

pub open spec fn published_at(review: JsonV) -> JsonV {
    match review.field("date"@) {
        JsonV::Text(s) => JsonV::optional_text(timestamp_of(s)),
        _ => JsonV::Null,
    }
}

fn publication(review: &Json) -> (r: Json)
    ensures
        r@ == published_at(review@),
{
    match review.field("date").as_str() {
        Some(s) => json::optional(&read_timestamp(s)),
        None => Json::Null,
    }
}

/// The number of stars of a review: a whole number from one to five.
pub open spec fn stars_of(review: JsonV) -> JsonV {
    match review.field("score"@) {
        JsonV::Number(n) => {
            let bits = double::bits_of(n);
            if bits == double::nearest(1) {
                JsonV::unsigned(1)
            } else if bits == double::nearest(2) {
                JsonV::unsigned(2)
            } else if bits == double::nearest(3) {
                JsonV::unsigned(3)
            } else if bits == double::nearest(4) {
                JsonV::unsigned(4)
            } else if bits == double::nearest(5) {
                JsonV::unsigned(5)
            } else {
                JsonV::Null
            }
        },
        _ => JsonV::Null,
    }
}

fn stars(review: &Json) -> (r: Json)
    ensures
        r@ == stars_of(review@),
{
    match review.field("score") {
        Json::Number(n) => {
            let bits: u64 = double::number_bits(n);
            if bits == double::nearest_bits(1) {
                Json::unsigned(1)
            } else if bits == double::nearest_bits(2) {
                Json::unsigned(2)
            } else if bits == double::nearest_bits(3) {
                Json::unsigned(3)
            } else if bits == double::nearest_bits(4) {
                Json::unsigned(4)
            } else if bits == double::nearest_bits(5) {
                Json::unsigned(5)
            } else {
                Json::Null
            }
        },
        _ => Json::Null,
    }
}

/// A text under a key, where it is not empty.
pub open spec fn part_of(review: JsonV, key: Seq<char>) -> Seq<Seq<char>> {
    match review.field(key) {
        JsonV::Text(s) => if s.len() > 0 {
            seq![s]
        } else {
            Seq::empty()
        },
        _ => Seq::empty(),
    }
}

/// The text of a review: its comment, its pros and its cons.
pub open spec fn review_text_of(review: JsonV) -> JsonV {
    let parts = part_of(review, "comment"@) + part_of(review, "pros"@) + part_of(review, "cons"@);
    if parts.len() == 0 {
        JsonV::Null
    } else {
        JsonV::Text(text::join(parts, "\n\n"@))
    }
}

fn add_part(out: &mut Vec<String>, review: &Json, key: &str)
    ensures
        text::texts(final(out)@) == text::texts(old(out)@) + part_of(review@, key@),
{
    if let Some(s) = review.field(key).as_str() {
        if text::chars_of(s).len() > 0 {
            let one: String = s.to_owned();
            proof {
                text::lemma_texts_push(out@, one);
            }
            out.push(one);
            assert(text::texts(out@) =~= text::texts(old(out)@) + seq![s@]);
            return;
        }
    }
    assert(text::texts(out@) =~= text::texts(old(out)@) + Seq::<Seq<char>>::empty());
}

fn review_text(review: &Json) -> (r: Json)
    ensures
        r@ == review_text_of(review@),
{
    let mut parts: Vec<String> = Vec::new();
    assert(text::texts(parts@) =~= Seq::empty());
    add_part(&mut parts, review, "comment");
    add_part(&mut parts, review, "pros");
    add_part(&mut parts, review, "cons");
    assert(text::texts(parts@) =~= part_of(review@, "comment"@) + part_of(review@, "pros"@)
        + part_of(review@, "cons"@));
    if parts.len() == 0 {
        Json::Null
    } else {
        Json::Text(text::join_texts(&parts, "\n\n"))
    }
}

/// Whether a purchase was observed; that it was not is never claimed.
pub open spec fn purchase_of(review: JsonV) -> JsonV {
    if review.field("purchased"@) == JsonV::Bool(true) {
        JsonV::Bool(true)
    } else {
        JsonV::Null
    }
}

fn purchase(review: &Json) -> (r: Json)
    ensures
        r@ == purchase_of(review@),
{
    match review.field("purchased").as_bool() {
        Some(b) => if b {
            Json::Bool(true)
        } else {
            Json::Null
        },
        None => Json::Null,
    }
}

/// The photos of a review, at most twelve.
pub open spec fn photos_of(review: JsonV) -> Seq<Seq<char>> {
    marketplace::first_values(product_details::texts_in(review.field("photos"@).elements()), 12)
}

/// What the photos of a review become: a reference each.
pub open spec fn photo_refs(
    ledger: LedgerV,
    photos: Seq<Seq<char>>,
    path: Seq<char>,
    review_ref: Seq<char>,
    canonical: Seq<char>,
    q: ReviewRequestV,
) -> (LedgerV, Seq<Seq<char>>)
    decreases photos.len(),
{
    if photos.len() == 0 {
        (ledger, Seq::empty())
    } else {
        let before = photo_refs(ledger, photos.drop_last(), path, review_ref, canonical, q);
        (
            before.0.put(
                q.research_id,
                "image"@,
                search_results::image_value_of(
                    photos.last(),
                    "review"@,
                    review_ref,
                    canonical,
                    q.sku,
                    path + "/imageRefs/"@ + text::decimal((photos.len() - 1) as nat),
                ),
                None,
            ),
            before.1.push(before.0.next_ref()),
        )
    }
}

fn note_photos(
    photos: &Vec<&str>,
    ledger: &mut Ledger,
    path: &str,
    review_ref: &str,
    canonical: &str,
    q: &ReviewRequest,
) -> (r: Vec<Json>)
    requires
        photos@.len() <= 12,
        old(ledger)@.left() >= 12,
    ensures
        ({
            let made = photo_refs(
                old(ledger)@,
                product_details::shown_texts(photos@),
                path@,
                review_ref@,
                canonical@,
                q@,
            );
            final(ledger)@ == made.0 && json::values(r@) == evidence::text_values(made.1)
        }),
        final(ledger)@.ids == old(ledger)@.ids,
        final(ledger)@.used == old(ledger)@.used + photos@.len(),
{
    let ghost start = ledger@;
    let ghost all = product_details::shown_texts(photos@);
    let mut out: Vec<Json> = Vec::new();
    let mut i: usize = 0;
    assert(json::values(out@) =~= evidence::text_values(Seq::empty()));
    while i < photos.len()
        invariant
            0 <= i <= photos@.len() <= 12,
            all == product_details::shown_texts(photos@),
            start.left() >= 12,
            ledger@.ids == start.ids,
            ledger@.used == start.used + i,
            ({
                let made = photo_refs(
                    start,
                    all.take(i as int),
                    path@,
                    review_ref@,
                    canonical@,
                    q@,
                );
                ledger@ == made.0 && json::values(out@) == evidence::text_values(made.1)
            }),
        decreases photos@.len() - i,
    {
        let ghost made = photo_refs(start, all.take(i as int), path@, review_ref@, canonical@, q@);
        assert(all.take(i + 1).drop_last() =~= all.take(i as int));
        assert(all.take(i + 1).last() == photos@[i as int]@);
        let place: String = text::joined3(
            path,
            "/imageRefs/",
            text::decimal_text(i as u64).as_str(),
        );
        let value: Json = search_results::image_value(
            photos[i],
            "review",
            review_ref,
            canonical,
            q.sku,
            place.as_str(),
        );
        let name: String = ledger.put(q.research_id, "image", value, None);
        let one: Json = Json::Text(name);
        proof {
            json::lemma_values_push(out@, one);
        }
        out.push(one);
        assert(json::values(out@) =~= evidence::text_values(made.1.push(name@)));
        i = i + 1;
    }
    assert(all.take(i as int) =~= all);
    out
}

fn photo_list<'a>(review: &'a Json) -> (r: Vec<&'a str>)
    ensures
        product_details::shown_texts(r@) == photos_of(review@),
        r@.len() <= 12,
{
    let mut out: Vec<&'a str> = Vec::new();
    assert(product_details::shown_texts(out@) =~= Seq::empty());
    product_details::add_texts(&mut out, &json::elements(review.field("photos")));
    let ghost all = product_details::shown_texts(out@);
    assert(all =~= product_details::texts_in(review@.field("photos"@).elements()));
    if out.len() > 12 {
        out.truncate(12);
        assert(product_details::shown_texts(out@) =~= all.take(12));
    }
    assert(product_details::shown_texts(out@) =~= marketplace::first_values(all, 12));
    out
}

/// What a review reference holds.
pub open spec fn review_value(review: JsonV, canonical: Seq<char>, q: ReviewRequestV) -> JsonV {
    JsonV::object().with("reviewId"@, review.field("reviewId"@)).with(
        "productRef"@,
        JsonV::Text(q.product_ref),
    ).with("sku"@, JsonV::Text(q.sku)).with("sourceUrl"@, JsonV::Text(canonical))
}

/// The reference of a review names it, its product and where it stands.
pub proof fn review_references_name_their_review(
    review: JsonV,
    canonical: Seq<char>,
    q: ReviewRequestV,
)
    ensures
        ({
            let shown = review_value(review, canonical, q);
            &&& shown is Object
            &&& shown.field("reviewId"@) == (review.field("reviewId"@))
            &&& shown.field("productRef"@) == (JsonV::Text(q.product_ref))
            &&& shown.field("sku"@) == (JsonV::Text(q.sku))
            &&& shown.field("sourceUrl"@) == (JsonV::Text(canonical))
        }),
{
    broadcast use json::lemma_get_with;

    reveal_strlit("reviewId");
    reveal_strlit("productRef");
    reveal_strlit("sku");
    reveal_strlit("sourceUrl");
    assert("reviewId"@.len() == 8);
    assert("productRef"@.len() == 10);
    assert("sku"@.len() == 3);
    assert("sourceUrl"@.len() == 9);
}

/// The evidence for a review.
pub open spec fn review_evidence(
    review: JsonV,
    path: Seq<char>,
    canonical: Seq<char>,
    observed: Seq<char>,
    ev: Seq<char>,
    q: ReviewRequestV,
) -> JsonV {
    marketplace::cited_as(
        evidence::observed_evidence_of(
            Some(canonical),
            q.context_id,
            Some(q.sku),
            seq![path],
            JsonV::Array(
                seq![
                    marketplace::fact_of(path + "/rating"@, stars_of(review)),
                    marketplace::fact_of(path + "/publishedAt"@, published_at(review)),
                    marketplace::fact_of(path + "/text"@, review_text_of(review)),
                    marketplace::fact_of(path + "/variantLabel"@, review.field("variantLabel"@)),
                    marketplace::fact_of(path + "/purchaseVerified"@, purchase_of(review)),
                    marketplace::fact_of(
                        path + "/imageRefs"@,
                        JsonV::Array(evidence::text_values(photos_of(review))),
                    ),
                ],
            ),
            observed,
        ),
        ev,
    )
}

/// A review, as it is shown.
pub open spec fn review_shown(
    review: JsonV,
    review_ref: Seq<char>,
    images: Seq<Seq<char>>,
    ev: Seq<char>,
) -> JsonV {
    JsonV::object().with("reviewRef"@, JsonV::Text(review_ref)).with(
        "rating"@,
        stars_of(review),
    ).with("publishedAt"@, published_at(review)).with("text"@, review_text_of(review)).with(
        "variantLabel"@,
        review.field("variantLabel"@),
    ).with("purchaseVerified"@, purchase_of(review)).with(
        "imageRefs"@,
        JsonV::Array(evidence::text_values(images)),
    ).with("evidenceRefs"@, marketplace::only_text(ev))
}

/// The row of a review shows its rating, date and text, its variant, whether it was bought, and its
/// images.
pub proof fn review_rows_show_their_review(
    review: JsonV,
    review_ref: Seq<char>,
    images: Seq<Seq<char>>,
    ev: Seq<char>,
)
    ensures
        ({
            let shown = review_shown(review, review_ref, images, ev);
            &&& shown is Object
            &&& shown.field("reviewRef"@) == (JsonV::Text(review_ref))
            &&& shown.field("rating"@) == (stars_of(review))
            &&& shown.field("publishedAt"@) == (published_at(review))
            &&& shown.field("text"@) == (review_text_of(review))
            &&& shown.field("variantLabel"@) == (review.field("variantLabel"@))
            &&& shown.field("purchaseVerified"@) == (purchase_of(review))
            &&& shown.field("imageRefs"@) == (JsonV::Array(evidence::text_values(images)))
            &&& shown.field("evidenceRefs"@) == (marketplace::only_text(ev))
        }),
{
    broadcast use json::lemma_get_with;

    reveal_strlit("reviewRef");
    reveal_strlit("rating");
    reveal_strlit("publishedAt");
    reveal_strlit("text");
    reveal_strlit("variantLabel");
    reveal_strlit("purchaseVerified");
    reveal_strlit("imageRefs");
    reveal_strlit("evidenceRefs");
    assert("reviewRef"@.len() == 9);
    assert("rating"@.len() == 6);
    assert("publishedAt"@.len() == 11);
    assert("text"@.len() == 4);
    assert("variantLabel"@.len() == 12);
    assert("purchaseVerified"@.len() == 16);
    assert("imageRefs"@.len() == 9);
    assert("evidenceRefs"@.len() == 12);
    assert("reviewRef"@[0] == 'r');
    assert("imageRefs"@[0] == 'i');
    assert("variantLabel"@[0] == 'v');
    assert("evidenceRefs"@[0] == 'e');
}

/// What some reviews became.
#[verifier::ext_equal]
pub struct ReviewsV {
    pub ledger: LedgerV,
    pub evidence: Seq<JsonV>,
    pub reviews: Seq<JsonV>,
}

/// What one more review makes of what the earlier ones became.
#[verifier::opaque]
pub open spec fn with_review(
    acc: ReviewsV,
    review: JsonV,
    index: int,
    canonical: Seq<char>,
    observed: Seq<char>,
    q: ReviewRequestV,
) -> ReviewsV {
    let path = "/reviews/"@ + text::decimal(index as nat);
    let review_ref = acc.ledger.next_ref();
    let noted = acc.ledger.put(
        q.research_id,
        "review"@,
        review_value(review, canonical, q),
        None,
    );
    let images = photo_refs(noted, photos_of(review), path, review_ref, canonical, q);
    let ev = marketplace::evidence_name(images.0.next());
    ReviewsV {
        ledger: images.0.drawn(),
        evidence: acc.evidence.push(review_evidence(review, path, canonical, observed, ev, q)),
        reviews: acc.reviews.push(review_shown(review, review_ref, images.1, ev)),
    }
}

/// What the reviews that were picked become.
pub open spec fn reviews_made(
    ledger: LedgerV,
    reviews: Seq<JsonV>,
    picked: Seq<int>,
    canonical: Seq<char>,
    observed: Seq<char>,
    q: ReviewRequestV,
) -> ReviewsV
    decreases picked.len(),
{
    if picked.len() == 0 {
        ReviewsV { ledger, evidence: Seq::empty(), reviews: Seq::empty() }
    } else {
        with_review(
            reviews_made(ledger, reviews, picked.drop_last(), canonical, observed, q),
            reviews[picked.last()],
            picked.last(),
            canonical,
            observed,
            q,
        )
    }
}

struct ReviewRows {
    evidence: Vec<Json>,
    reviews: Vec<Json>,
}

spec fn rows_view(rows: ReviewRows, ledger: LedgerV) -> ReviewsV {
    ReviewsV {
        ledger,
        evidence: json::values(rows.evidence@),
        reviews: json::values(rows.reviews@),
    }
}

fn review_facts(review: &Json, path: &str, photos: &Vec<&str>) -> (r: Json)
    requires
        product_details::shown_texts(photos@) == photos_of(review@),
    ensures
        r@ == JsonV::Array(
            seq![
                marketplace::fact_of(path@ + "/rating"@, stars_of(review@)),
                marketplace::fact_of(path@ + "/publishedAt"@, published_at(review@)),
                marketplace::fact_of(path@ + "/text"@, review_text_of(review@)),
                marketplace::fact_of(path@ + "/variantLabel"@, review@.field("variantLabel"@)),
                marketplace::fact_of(path@ + "/purchaseVerified"@, purchase_of(review@)),
                marketplace::fact_of(
                    path@ + "/imageRefs"@,
                    JsonV::Array(evidence::text_values(photos_of(review@))),
                ),
            ],
        ),
{
    let mut facts: Vec<Json> = Vec::new();
    facts.push(marketplace::fact(text::joined(path, "/rating").as_str(), stars(review)));
    facts.push(marketplace::fact(text::joined(path, "/publishedAt").as_str(), publication(review)));
    facts.push(marketplace::fact(text::joined(path, "/text").as_str(), review_text(review)));
    facts.push(
        marketplace::fact(
            text::joined(path, "/variantLabel").as_str(),
            review.field("variantLabel").copy(),
        ),
    );
    facts.push(
        marketplace::fact(text::joined(path, "/purchaseVerified").as_str(), purchase(review)),
    );
    let urls: Json = product_details::texts_array(photos, 0, photos.len());
    assert(product_details::shown_texts(photos@).subrange(0, photos@.len() as int)
        =~= photos_of(review@));
    facts.push(marketplace::fact(text::joined(path, "/imageRefs").as_str(), urls));
    let r: Json = Json::array(facts);
    assert(json::values(facts@) =~= seq![
        marketplace::fact_of(path@ + "/rating"@, stars_of(review@)),
        marketplace::fact_of(path@ + "/publishedAt"@, published_at(review@)),
        marketplace::fact_of(path@ + "/text"@, review_text_of(review@)),
        marketplace::fact_of(path@ + "/variantLabel"@, review@.field("variantLabel"@)),
        marketplace::fact_of(path@ + "/purchaseVerified"@, purchase_of(review@)),
        marketplace::fact_of(
            path@ + "/imageRefs"@,
            JsonV::Array(evidence::text_values(photos_of(review@))),
        ),
    ]);
    r
}

fn add_review(
    rows: &mut ReviewRows,
    ledger: &mut Ledger,
    review: &Json,
    index: usize,
    canonical: &str,
    observed: &str,
    q: &ReviewRequest,
)
    requires
        old(ledger)@.left() >= 14,
    ensures
        rows_view(*final(rows), final(ledger)@) == with_review(
            rows_view(*old(rows), old(ledger)@),
            review@,
            index as int,
            canonical@,
            observed@,
            q@,
        ),
        final(ledger)@.ids == old(ledger)@.ids,
        final(ledger)@.used <= old(ledger)@.used + 14,
{
    proof {
        reveal(with_review);
    }
    let path: String = text::joined("/reviews/", text::decimal_text(index as u64).as_str());
    let value: Json = Json::object().with("reviewId", review.field("reviewId").copy()).with(
        "productRef",
        Json::text(q.product_ref),
    ).with("sku", Json::text(q.sku)).with("sourceUrl", Json::text(canonical));
    let review_ref: String = ledger.put(q.research_id, "review", value, None);
    let photos: Vec<&str> = photo_list(review);
    let images: Vec<Json> = note_photos(
        &photos,
        ledger,
        path.as_str(),
        review_ref.as_str(),
        canonical,
        q,
    );
    let ev: String = text::joined("evidence_", ledger.draw().as_str());
    let paths: [&str; 1] = [path.as_str()];
    assert(widgets::slices(paths@) =~= seq![path@]);
    let one: Json = evidence::observed_evidence(
        Some(canonical),
        q.context_id,
        Some(q.sku),
        &paths,
        review_facts(review, path.as_str(), &photos),
        observed,
    ).with("evidenceRef", Json::text(ev.as_str()));
    let shown: Json = Json::object().with("reviewRef", Json::text(review_ref.as_str())).with(
        "rating",
        stars(review),
    ).with("publishedAt", publication(review)).with("text", review_text(review)).with(
        "variantLabel",
        review.field("variantLabel").copy(),
    ).with("purchaseVerified", purchase(review)).with("imageRefs", Json::array(images)).with(
        "evidenceRefs",
        marketplace::only(ev.as_str()),
    );
    proof {
        json::lemma_values_push(rows.evidence@, one);
        json::lemma_values_push(rows.reviews@, shown);
    }
    rows.evidence.push(one);
    rows.reviews.push(shown);
}

fn show_reviews(
    reviews: &Vec<&Json>,
    picked: &Vec<usize>,
    ledger: &mut Ledger,
    canonical: &str,
    observed: &str,
    q: &ReviewRequest,
) -> (r: ReviewRows)
    requires
        picked@.len() <= 30,
        forall|i: int| 0 <= i < picked@.len() ==> #[trigger] picked@[i] < reviews@.len(),
        old(ledger)@.left() >= 420,
    ensures
        rows_view(r, final(ledger)@) == reviews_made(
            old(ledger)@,
            json::refs(reviews@),
            places(picked@),
            canonical@,
            observed@,
            q@,
        ),
        final(ledger)@.ids == old(ledger)@.ids,
        final(ledger)@.used <= old(ledger)@.used + 420,
{
    let ghost start = ledger@;
    let ghost all = places(picked@);
    let mut rows: ReviewRows = ReviewRows { evidence: Vec::new(), reviews: Vec::new() };
    assert(rows_view(rows, ledger@) =~= reviews_made(
        start,
        json::refs(reviews@),
        all.take(0),
        canonical@,
        observed@,
        q@,
    ));
    let mut i: usize = 0;
    while i < picked.len()
        invariant
            0 <= i <= picked@.len() <= 30,
            all == places(picked@),
            forall|k: int| 0 <= k < picked@.len() ==> #[trigger] picked@[k] < reviews@.len(),
            start.left() >= 420,
            ledger@.ids == start.ids,
            ledger@.used <= start.used + 14 * i,
            rows_view(rows, ledger@) == reviews_made(
                start,
                json::refs(reviews@),
                all.take(i as int),
                canonical@,
                observed@,
                q@,
            ),
        decreases picked@.len() - i,
    {
        assert(all.take(i + 1).drop_last() =~= all.take(i as int));
        assert(all.take(i + 1).last() == picked@[i as int]);
        let place: usize = picked[i];
        assert(json::refs(reviews@)[place as int] == reviews@[place as int]@);
        add_review(&mut rows, ledger, reviews[place], place, canonical, observed, q);
        i = i + 1;
    }
    assert(all.take(i as int) =~= all);
    rows
}

/// What a refinement of reviews leads to.
pub open spec fn review_search_value(url: Seq<char>, canonical: Seq<char>, q: ReviewRequestV) -> JsonV {
    JsonV::object().with("path"@, JsonV::Text(url)).with(
        "productRef"@,
        JsonV::Text(q.product_ref),
    ).with("sku"@, JsonV::Text(q.sku)).with("sourceUrl"@, JsonV::Text(canonical))
}

/// The reference of a refinement of reviews names its place and its product.
pub proof fn review_searches_lead_to_their_place(
    url: Seq<char>,
    canonical: Seq<char>,
    q: ReviewRequestV,
)
    ensures
        ({
            let shown = review_search_value(url, canonical, q);
            &&& shown is Object
            &&& shown.field("path"@) == (JsonV::Text(url))
            &&& shown.field("productRef"@) == (JsonV::Text(q.product_ref))
            &&& shown.field("sku"@) == (JsonV::Text(q.sku))
            &&& shown.field("sourceUrl"@) == (JsonV::Text(canonical))
        }),
{
    broadcast use json::lemma_get_with;

    reveal_strlit("path");
    reveal_strlit("productRef");
    reveal_strlit("sku");
    reveal_strlit("sourceUrl");
    assert("path"@.len() == 4);
    assert("productRef"@.len() == 10);
    assert("sku"@.len() == 3);
    assert("sourceUrl"@.len() == 9);
}

/// What refinements of reviews become: those with a label and a place get a reference.
pub open spec fn review_refinements(
    ledger: LedgerV,
    rows: Seq<JsonV>,
    canonical: Seq<char>,
    q: ReviewRequestV,
) -> (LedgerV, Seq<JsonV>)
    decreases rows.len(),
{
    if rows.len() == 0 {
        (ledger, Seq::empty())
    } else {
        let before = review_refinements(ledger, rows.drop_last(), canonical, q);
        let row = rows.last();
        match (row.field("label"@), row.field("url"@)) {
            (JsonV::Text(label), JsonV::Text(url)) => (
                before.0.put(
                    q.research_id,
                    "review_search"@,
                    review_search_value(url, canonical, q),
                    Some(marketplace::CURSOR_TTL_SECONDS),
                ),
                before.1.push(
                    JsonV::object().with(
                        "kind"@,
                        JsonV::Text(
                            evidence::enum_text(
                                row,
                                "kind"@,
                                seq!["filter"@, "sort"@],
                                "filter"@,
                            ),
                        ),
                    ).with("label"@, JsonV::Text(label)).with("groupLabel"@, JsonV::Null).with(
                        "selected"@,
                        row.field("selected"@),
                    ).with("reviewSearchRef"@, JsonV::Text(before.0.next_ref())),
                ),
            ),
            _ => before,
        }
    }
}

fn refine_reviews(rows: &Vec<&Json>, ledger: &mut Ledger, canonical: &str, q: &ReviewRequest) -> (r:
    Vec<Json>)
    requires
        old(ledger)@.left() >= 100,
    ensures
        (final(ledger)@, json::values(r@)) == review_refinements(
            old(ledger)@,
            marketplace::first_values(json::refs(rows@), 100),
            canonical@,
            q@,
        ),
        final(ledger)@.ids == old(ledger)@.ids,
        final(ledger)@.used <= old(ledger)@.used + 100,
{
    let ghost start = ledger@;
    let ghost all = json::refs(rows@);
    let end: usize = if rows.len() < 100 {
        rows.len()
    } else {
        100
    };
    let kinds: [&str; 2] = ["filter", "sort"];
    assert(widgets::slices(kinds@) =~= seq!["filter"@, "sort"@]);
    let mut out: Vec<Json> = Vec::new();
    let mut i: usize = 0;
    assert(json::values(out@) =~= Seq::empty());
    while i < end
        invariant
            0 <= i <= end <= rows@.len(),
            end <= 100,
            all == json::refs(rows@),
            widgets::slices(kinds@) == seq!["filter"@, "sort"@],
            start.left() >= 100,
            ledger@.ids == start.ids,
            ledger@.used <= start.used + i,
            (ledger@, json::values(out@)) == review_refinements(
                start,
                all.take(i as int),
                canonical@,
                q@,
            ),
        decreases end - i,
    {
        assert(all.take(i + 1).drop_last() =~= all.take(i as int));
        assert(all.take(i + 1).last() == rows@[i as int]@);
        let row: &Json = rows[i];
        if let (Some(label), Some(url)) = (row.field("label").as_str(), row.field("url").as_str()) {
            let value: Json = Json::object().with("path", Json::text(url)).with(
                "productRef",
                Json::text(q.product_ref),
            ).with("sku", Json::text(q.sku)).with("sourceUrl", Json::text(canonical));
            let name: String = ledger.put(
                q.research_id,
                "review_search",
                value,
                Some(marketplace::CURSOR_TTL_SECONDS),
            );
            let one: Json = Json::object().with(
                "kind",
                Json::Text(marketplace::enum_or(row, "kind", &kinds, "filter")),
            ).with("label", Json::text(label)).with("groupLabel", Json::Null).with(
                "selected",
                row.field("selected").copy(),
            ).with("reviewSearchRef", Json::Text(name));
            proof {
                json::lemma_values_push(out@, one);
            }
            out.push(one);
        }
        i = i + 1;
    }
    out
}

/// What is kept of the reviews that were seen: mostly those of one answer, behind those of
/// the answers before; now and then all of them.
pub open spec fn seen_node(
    parent: Option<Seq<char>>,
    prior_depth: nat,
    fresh: Seq<Seq<char>>,
    all: Seq<Seq<char>>,
) -> Result<(JsonV, nat), FailureV> {
    if fresh.len() == 0 || fresh.len() > 30 || all.len() > marketplace::MAX_SEEN_REVIEWS {
        Err(FailureV::Message("SOURCE_CHANGED: invalid review coverage chunk"@))
    } else if prior_depth + 1 >= marketplace::REVIEW_SEEN_CHECKPOINT_INTERVAL {
        let value = checkpoint_node(all);
        if text::utf8_len(json::json_text(value)) > marketplace::MAX_REVIEW_SEEN_CHECKPOINT_BYTES {
            Err(FailureV::Message("SOURCE_CHANGED: review coverage checkpoint is too large"@))
        } else {
            Ok((value, 0))
        }
    } else {
        Ok((delta_node(parent, prior_depth + 1, fresh, all.len()), prior_depth + 1))
    }
}

pub open spec fn checkpoint_node(all: Seq<Seq<char>>) -> JsonV {
    JsonV::object().with("kind"@, JsonV::Text("checkpoint"@)).with(
        "keys"@,
        JsonV::Array(evidence::text_values(all)),
    ).with("count"@, JsonV::unsigned(all.len() as u64)).with("depth"@, JsonV::unsigned(0))
}

pub open spec fn delta_node(
    parent: Option<Seq<char>>,
    depth: nat,
    fresh: Seq<Seq<char>>,
    count: nat,
) -> JsonV {
    JsonV::object().with("kind"@, JsonV::Text("delta"@)).with(
        "parent"@,
        JsonV::optional_text(parent),
    ).with("keys"@, JsonV::Array(evidence::text_values(fresh))).with(
        "count"@,
        JsonV::unsigned(count as u64),
    ).with("depth"@, JsonV::unsigned(depth as u64))
}

fn texts_json(v: &Vec<String>) -> (r: Json)
    ensures
        r@ == JsonV::Array(evidence::text_values(text::texts(v@))),
{
    let ghost all = text::texts(v@);
    let mut out: Vec<Json> = Vec::new();
    let mut i: usize = 0;
    while i < v.len()
        invariant
            0 <= i <= v@.len(),
            all == text::texts(v@),
            json::values(out@) =~= evidence::text_values(all).take(i as int),
        decreases v@.len() - i,
    {
        assert(all[i as int] == v@[i as int]@);
        let one: Json = Json::text(v[i].as_str());
        proof {
            json::lemma_values_push(out@, one);
        }
        out.push(one);
        i = i + 1;
    }
    assert(json::values(out@) =~= evidence::text_values(all));
    Json::array(out)
}

/// Keeps the reviews that were seen, and says under which name and how deep.
pub fn store_review_seen_state(
    ledger: &mut Ledger,
    research_id: &str,
    parent: Option<&str>,
    prior_depth: usize,
    new_keys: &Vec<String>,
    all_keys: &KeySet,
) -> (r: Result<(String, usize), Failure>)
    requires
        old(ledger)@.left() > 0,
    ensures
        final(ledger)@.ids == old(ledger)@.ids,
        final(ledger)@.used <= old(ledger)@.used + 1,
        match seen_node(
            json::str_of(parent),
            prior_depth as nat,
            text::texts(new_keys@),
            all_keys@,
        ) {
            Ok(node) => {
                &&& r matches Ok(x)
                &&& x.0@ == old(ledger)@.next_ref()
                &&& x.1 == node.1
                &&& final(ledger)@ == old(ledger)@.put(
                    research_id@,
                    "review_seen"@,
                    node.0,
                    None,
                )
            },
            Err(e) => r matches Err(f) && f@ == e && final(ledger)@ == old(ledger)@,
        },
{
    if new_keys.len() == 0 || new_keys.len() > 30 || all_keys.len()
        > marketplace::MAX_SEEN_REVIEWS {
        return Err(Failure::new("SOURCE_CHANGED: invalid review coverage chunk"));
    }
    if prior_depth >= marketplace::REVIEW_SEEN_CHECKPOINT_INTERVAL - 1 {
        let value: Json = Json::object().with("kind", Json::text("checkpoint")).with(
            "keys",
            texts_json(&all_keys.keys),
        ).with("count", Json::unsigned(all_keys.len() as u64)).with("depth", Json::unsigned(0));
        if text::utf8_length(value.to_text().as_str())
            > marketplace::MAX_REVIEW_SEEN_CHECKPOINT_BYTES {
            return Err(Failure::new("SOURCE_CHANGED: review coverage checkpoint is too large"));
        }
        Ok((ledger.put(research_id, "review_seen", value, None), 0))
    } else {
        let depth: usize = prior_depth + 1;
        let value: Json = Json::object().with("kind", Json::text("delta")).with(
            "parent",
            Json::optional_text(parent),
        ).with("keys", texts_json(new_keys)).with(
            "count",
            Json::unsigned(all_keys.len() as u64),
        ).with("depth", Json::unsigned(depth as u64));
        Ok((ledger.put(research_id, "review_seen", value, None), depth))
    }
}

/// The ledger, and the name under which the reviews that were seen are kept.
pub open spec fn seen_kept(ledger: LedgerV, plan: PlanV, q: ReviewRequestV) -> Result<
    (LedgerV, Option<Seq<char>>),
    (LedgerV, FailureV),
> {
    if plan.continues() && plan.picks.fresh.len() > 0 {
        match seen_node(q.prior_seen_ref, q.prior_seen_depth, plan.picks.fresh, plan.picks.seen) {
            Ok(node) => Ok(
                (
                    ledger.put(q.research_id, "review_seen"@, node.0, None),
                    Some(ledger.next_ref()),
                ),
            ),
            Err(e) => Err((ledger, e)),
        }
    } else {
        Ok((ledger, q.prior_seen_ref))
    }
}

/// What a continuation of reviews holds beside where it goes on.
pub open spec fn cursor_base(
    raw: JsonV,
    canonical: Seq<char>,
    seen_ref: Option<Seq<char>>,
    idle: int,
    progress: bool,
    q: ReviewRequestV,
) -> JsonV {
    JsonV::object().with("productRef"@, JsonV::Text(q.product_ref)).with(
        "sku"@,
        JsonV::Text(q.sku),
    ).with("sourceUrl"@, JsonV::Text(canonical)).with(
        "seenRef"@,
        JsonV::optional_text(seen_ref),
    ).with("noProgressPages"@, JsonV::unsigned(idle as u64)).with(
        "pageMadeProgress"@,
        JsonV::Bool(progress),
    ).with("presentation"@, raw.field("_presentation"@))
}

/// A continuation of reviews keeps the product, the reviews that were seen and the progress made.
pub proof fn review_cursors_keep_their_product(
    raw: JsonV,
    canonical: Seq<char>,
    seen_ref: Option<Seq<char>>,
    idle: int,
    progress: bool,
    q: ReviewRequestV,
)
    ensures
        ({
            let shown = cursor_base(raw, canonical, seen_ref, idle, progress, q);
            &&& shown is Object
            &&& shown.field("productRef"@) == (JsonV::Text(q.product_ref))
            &&& shown.field("sku"@) == (JsonV::Text(q.sku))
            &&& shown.field("sourceUrl"@) == (JsonV::Text(canonical))
            &&& shown.field("seenRef"@) == (JsonV::optional_text(seen_ref))
            &&& shown.field("noProgressPages"@) == (JsonV::unsigned(idle as u64))
            &&& shown.field("pageMadeProgress"@) == (JsonV::Bool(progress))
            &&& shown.field("presentation"@) == (raw.field("_presentation"@))
        }),
{
    broadcast use json::lemma_get_with;

    reveal_strlit("productRef");
    reveal_strlit("sku");
    reveal_strlit("sourceUrl");
    reveal_strlit("seenRef");
    reveal_strlit("noProgressPages");
    reveal_strlit("pageMadeProgress");
    reveal_strlit("presentation");
    assert("productRef"@.len() == 10);
    assert("sku"@.len() == 3);
    assert("sourceUrl"@.len() == 9);
    assert("seenRef"@.len() == 7);
    assert("noProgressPages"@.len() == 15);
    assert("pageMadeProgress"@.len() == 16);
    assert("presentation"@.len() == 12);
}

/// The continuation of a page that is not used up: what is left of the observation itself.
pub open spec fn cached_review_cursor(
    raw: JsonV,
    plan: PlanV,
    seen_ref: Option<Seq<char>>,
    observed: Seq<char>,
    q: ReviewRequestV,
) -> JsonV {
    cursor_base(
        raw,
        plan.canonical,
        seen_ref,
        plan.no_progress_pages,
        plan.page_made_progress,
        q,
    ).with(
        "cachedRaw"@,
        raw.with("reviews"@, JsonV::Array(plan.rest)).with(
            "_continuationObservedAt"@,
            JsonV::Text(observed),
        ),
    ).with("capturedAt"@, JsonV::Text(observed)).with("contextId"@, JsonV::Text(q.context_id))
}

/// The continuation of a page that is used up: the place of the next one.
pub open spec fn next_review_cursor(
    raw: JsonV,
    path: Seq<char>,
    plan: PlanV,
    seen_ref: Option<Seq<char>>,
    q: ReviewRequestV,
) -> JsonV {
    cursor_base(raw, plan.canonical, seen_ref, plan.no_progress_pages, false, q).with(
        "path"@,
        JsonV::Text(path),
    )
}

/// The ledger and the continuation of a review page. What is left of a page comes first.
pub open spec fn reviews_continued(
    ledger: LedgerV,
    raw: JsonV,
    plan: PlanV,
    seen_ref: Option<Seq<char>>,
    observed: Seq<char>,
    q: ReviewRequestV,
) -> (LedgerV, Option<Seq<char>>) {
    let value = if plan.rest.len() > 0 {
        Some(cached_review_cursor(raw, plan, seen_ref, observed, q))
    } else {
        match plan.next_path {
            Some(path) => Some(next_review_cursor(raw, path, plan, seen_ref, q)),
            None => None,
        }
    };
    match value {
        Some(v) => (
            ledger.put(
                q.research_id,
                "review_cursor"@,
                v,
                Some(marketplace::CURSOR_TTL_SECONDS),
            ),
            Some(ledger.next_ref()),
        ),
        None => (ledger, None),
    }
}

/// The evidence for what a review page says of all reviews.
pub open spec fn aggregate_evidence(
    raw: JsonV,
    canonical: Seq<char>,
    observed: Seq<char>,
    ev: Seq<char>,
    q: ReviewRequestV,
) -> JsonV {
    marketplace::cited_as(
        evidence::observed_evidence_of(
            Some(canonical),
            q.context_id,
            Some(q.sku),
            seq!["/reviews"@, "/aggregate"@, "/refinements"@],
            JsonV::Array(
                seq![
                    marketplace::fact_of("/aggregate/rating"@, raw.field("rating"@)),
                    marketplace::fact_of("/aggregate/count"@, raw.field("totalReviews"@)),
                    marketplace::fact_of("/aggregationScope"@, raw.field("aggregationScope"@)),
                ],
            ),
            observed,
        ),
        ev,
    )
}

pub open spec fn review_warnings(raw: JsonV) -> Seq<JsonV> {
    if raw.get("rating"@) is None && raw.get("totalReviews"@) is None {
        marketplace::source_warnings_of(raw).push(
            marketplace::warning_of(
                "AGGREGATE_UNAVAILABLE"@,
                "Review aggregate was not observed on this page."@,
                Seq::empty(),
            ),
        )
    } else {
        marketplace::source_warnings_of(raw)
    }
}

/// The data of a review page.
pub open spec fn review_data(
    raw: JsonV,
    reviews: Seq<JsonV>,
    refinements: Seq<JsonV>,
    seen: nat,
    left: bool,
    cursor: Option<Seq<char>>,
    sku: Seq<char>,
) -> JsonV {
    let offered = raw.field("refinements"@).elements().len();
    let has_next = if left {
        JsonV::Bool(true)
    } else {
        raw.field("hasNext"@)
    };
    JsonV::object().with("subjectSku"@, JsonV::Text(sku)).with(
        "aggregationScope"@,
        JsonV::Text(
            evidence::enum_text(
                raw,
                "aggregationScope"@,
                seq!["specific_sku"@, "multiple_variants"@, "unknown"@],
                "unknown"@,
            ),
        ),
    ).with(
        "aggregate"@,
        JsonV::object().with("rating"@, raw.field("rating"@)).with(
            "count"@,
            raw.field("totalReviews"@),
        ),
    ).with("reviews"@, JsonV::Array(reviews)).with("refinements"@, JsonV::Array(refinements)).with(
        "refinementsIncluded"@,
        JsonV::Bool(offered > 0),
    ).with("refinementsTruncated"@, JsonV::Bool(offered > 100)).with(
        "coverage"@,
        search_results::coverage_of(
            reviews.len(),
            seen as u64,
            raw.field("totalReviews"@),
            search_results::completeness_of(cursor is Some, has_next),
        ),
    ).with("nextCursor"@, JsonV::optional_text(cursor)).with("hasNext"@, has_next)
}

/// The data of a page of reviews holds the article, what the source says of all reviews, the rows
/// and refinements, the coverage, and how to go on.
pub proof fn review_answers_hold_their_parts(
    raw: JsonV,
    reviews: Seq<JsonV>,
    refinements: Seq<JsonV>,
    seen: nat,
    left: bool,
    cursor: Option<Seq<char>>,
    sku: Seq<char>,
)
    ensures
        ({
            let shown = review_data(raw, reviews, refinements, seen, left, cursor, sku);
            let offered = raw.field("refinements"@).elements().len();
            let has_next = if left {
        JsonV::Bool(true)
    } else {
        raw.field("hasNext"@)
    };
            &&& shown is Object
            &&& shown.field("subjectSku"@) == (JsonV::Text(sku))
            &&& shown.field("aggregationScope"@) == (JsonV::Text(
            evidence::enum_text(
                raw,
                "aggregationScope"@,
                seq!["specific_sku"@, "multiple_variants"@, "unknown"@],
                "unknown"@,
            ),
        ))
            &&& shown.field("aggregate"@) == (JsonV::object().with("rating"@, raw.field("rating"@)).with(
            "count"@,
            raw.field("totalReviews"@),
        ))
            &&& shown.field("reviews"@) == (JsonV::Array(reviews))
            &&& shown.field("refinements"@) == (JsonV::Array(refinements))
            &&& shown.field("refinementsIncluded"@) == (JsonV::Bool(offered > 0))
            &&& shown.field("refinementsTruncated"@) == (JsonV::Bool(offered > 100))
            &&& shown.field("coverage"@) == (search_results::coverage_of(
            reviews.len(),
            seen as u64,
            raw.field("totalReviews"@),
            search_results::completeness_of(cursor is Some, has_next),
        ))
            &&& shown.field("nextCursor"@) == (JsonV::optional_text(cursor))
            &&& shown.field("hasNext"@) == (has_next)
        }),
{
    broadcast use json::lemma_get_with;

    reveal_strlit("subjectSku");
    reveal_strlit("aggregationScope");
    reveal_strlit("aggregate");
    reveal_strlit("reviews");
    reveal_strlit("refinements");
    reveal_strlit("refinementsIncluded");
    reveal_strlit("refinementsTruncated");
    reveal_strlit("coverage");
    reveal_strlit("nextCursor");
    reveal_strlit("hasNext");
    assert("subjectSku"@.len() == 10);
    assert("aggregationScope"@.len() == 16);
    assert("aggregate"@.len() == 9);
    assert("reviews"@.len() == 7);
    assert("refinements"@.len() == 11);
    assert("refinementsIncluded"@.len() == 19);
    assert("refinementsTruncated"@.len() == 20);
    assert("coverage"@.len() == 8);
    assert("nextCursor"@.len() == 10);
    assert("hasNext"@.len() == 7);
    assert("subjectSku"@[0] == 's');
    assert("nextCursor"@[0] == 'n');
    assert("reviews"@[0] == 'r');
    assert("hasNext"@[0] == 'h');
}

/// What a review observation becomes.
pub open spec fn reviewed(raw: JsonV, ledger: LedgerV, q: ReviewRequestV, now: Seq<char>) -> Result<
    (LedgerV, NormalizedV),
    (LedgerV, FailureV),
> {
    match planned(raw, ledger, q) {
        Err(e) => Err(e),
        Ok(plan) => {
            let observed = product_details::observed_at(raw, now);
            let rows = reviews_made(
                plan.picks.ledger,
                raw.field("reviews"@).elements(),
                plan.picks.picked,
                plan.canonical,
                observed,
                q,
            );
            let refined = review_refinements(
                rows.ledger,
                marketplace::first_values(raw.field("refinements"@).elements(), 100),
                plan.canonical,
                q,
            );
            match seen_kept(refined.0, plan, q) {
                Err(e) => Err(e),
                Ok(kept) => {
                    let next = reviews_continued(kept.0, raw, plan, kept.1, observed, q);
                    let ev = marketplace::evidence_name(next.0.next());
                    Ok(
                        (
                            next.0.drawn(),
                            NormalizedV {
                                data: review_data(
                                    raw,
                                    rows.reviews,
                                    refined.1,
                                    plan.picks.seen.len(),
                                    plan.rest.len() > 0,
                                    next.1,
                                    q.sku,
                                ),
                                evidence: rows.evidence.push(
                                    aggregate_evidence(raw, plan.canonical, observed, ev, q),
                                ),
                                warnings: review_warnings(raw),
                                product_refs: seq![q.product_ref],
                            },
                        ),
                    )
                },
            }
        },
    }
}

fn rest_json(reviews: &Vec<&Json>, start: usize) -> (r: Json)
    requires
        start <= reviews@.len(),
    ensures
        r@ == JsonV::Array(json::refs(reviews@).skip(start as int)),
{
    let ghost all = json::refs(reviews@).skip(start as int);
    let mut out: Vec<Json> = Vec::new();
    let mut i: usize = start;
    while i < reviews.len()
        invariant
            start <= i <= reviews@.len(),
            all == json::refs(reviews@).skip(start as int),
            json::values(out@) =~= all.take(i - start),
        decreases reviews@.len() - i,
    {
        assert(all[i - start] == reviews@[i as int]@);
        let one: Json = reviews[i].copy();
        proof {
            json::lemma_values_push(out@, one);
        }
        out.push(one);
        i = i + 1;
    }
    assert(json::values(out@) =~= all);
    Json::array(out)
}

fn base_cursor(
    raw: &Json,
    canonical: &str,
    seen_ref: &Option<String>,
    idle: usize,
    progress: bool,
    q: &ReviewRequest,
) -> (r: Json)
    ensures
        r@ == cursor_base(
            raw@,
            canonical@,
            text::text_of(*seen_ref),
            idle as int,
            progress,
            q@,
        ),
{
    Json::object().with("productRef", Json::text(q.product_ref)).with(
        "sku",
        Json::text(q.sku),
    ).with("sourceUrl", Json::text(canonical)).with("seenRef", json::optional(seen_ref)).with(
        "noProgressPages",
        Json::unsigned(idle as u64),
    ).with("pageMadeProgress", Json::Bool(progress)).with(
        "presentation",
        raw.field("_presentation").copy(),
    )
}

fn continue_reviews(
    raw: &Json,
    reviews: &Vec<&Json>,
    plan: &Plan,
    ledger: &mut Ledger,
    seen_ref: &Option<String>,
    observed: &str,
    q: &ReviewRequest,
    Ghost(v): Ghost<PlanV>,
) -> (r: Option<String>)
    requires
        old(ledger)@.left() > 0,
        plan.picks.consumed <= reviews@.len(),
        v.rest == json::refs(reviews@).skip(plan.picks.consumed as int),
        v.canonical == plan.canonical@,
        v.next_path == json::str_of(plan.next_path),
        v.page_made_progress == plan.page_made_progress,
        v.no_progress_pages == plan.no_progress_pages,
    ensures
        (final(ledger)@, text::text_of(r)) == reviews_continued(
            old(ledger)@,
            raw@,
            v,
            text::text_of(*seen_ref),
            observed@,
            q@,
        ),
        final(ledger)@.ids == old(ledger)@.ids,
        final(ledger)@.used <= old(ledger)@.used + 1,
{
    let value: Json = if plan.picks.consumed < reviews.len() {
        let cached: Json = raw.copy().with(
            "reviews",
            rest_json(reviews, plan.picks.consumed),
        ).with("_continuationObservedAt", Json::text(observed));
        base_cursor(
            raw,
            plan.canonical.as_str(),
            seen_ref,
            plan.no_progress_pages,
            plan.page_made_progress,
            q,
        ).with("cachedRaw", cached).with("capturedAt", Json::text(observed)).with(
            "contextId",
            Json::text(q.context_id),
        )
    } else {
        match plan.next_path {
            Some(path) => base_cursor(
                raw,
                plan.canonical.as_str(),
                seen_ref,
                plan.no_progress_pages,
                false,
                q,
            ).with("path", Json::text(path)),
            None => return None,
        }
    };
    Some(
        ledger.put(
            q.research_id,
            "review_cursor",
            value,
            Some(marketplace::CURSOR_TTL_SECONDS),
        ),
    )
}

fn evidence_for_all(raw: &Json, canonical: &str, observed: &str, ev: &str, q: &ReviewRequest) -> (r:
    Json)
    ensures
        r@ == aggregate_evidence(raw@, canonical@, observed@, ev@, q@),
{
    let paths: [&str; 3] = ["/reviews", "/aggregate", "/refinements"];
    assert(widgets::slices(paths@) =~= seq!["/reviews"@, "/aggregate"@, "/refinements"@]);
    let mut facts: Vec<Json> = Vec::new();
    facts.push(marketplace::fact("/aggregate/rating", raw.field("rating").copy()));
    facts.push(marketplace::fact("/aggregate/count", raw.field("totalReviews").copy()));
    facts.push(marketplace::fact("/aggregationScope", raw.field("aggregationScope").copy()));
    assert(json::values(facts@) =~= seq![
        marketplace::fact_of("/aggregate/rating"@, raw@.field("rating"@)),
        marketplace::fact_of("/aggregate/count"@, raw@.field("totalReviews"@)),
        marketplace::fact_of("/aggregationScope"@, raw@.field("aggregationScope"@)),
    ]);
    evidence::observed_evidence(
        Some(canonical),
        q.context_id,
        Some(q.sku),
        &paths,
        Json::array(facts),
        observed,
    ).with("evidenceRef", Json::text(ev))
}

fn warning_list(raw: &Json) -> (r: Vec<Json>)
    ensures
        json::values(r@) == review_warnings(raw@),
{
    let mut out: Vec<Json> = marketplace::source_warnings(raw);
    if raw.get("rating").is_none() && raw.get("totalReviews").is_none() {
        let one: Json = marketplace::bare_warning(
            "AGGREGATE_UNAVAILABLE",
            "Review aggregate was not observed on this page.",
        );
        proof {
            json::lemma_values_push(out@, one);
        }
        out.push(one);
    }
    out
}

fn data_of(
    raw: &Json,
    reviews: Vec<Json>,
    refinements: Vec<Json>,
    seen: usize,
    left: bool,
    cursor: &Option<String>,
    sku: &str,
) -> (r: Json)
    ensures
        r@ == review_data(
            raw@,
            json::values(reviews@),
            json::values(refinements@),
            seen as nat,
            left,
            text::text_of(*cursor),
            sku@,
        ),
{
    let offered: usize = json::elements(raw.field("refinements")).len();
    let has_next: Json = if left {
        Json::Bool(true)
    } else {
        raw.field("hasNext").copy()
    };
    let scopes: [&str; 3] = ["specific_sku", "multiple_variants", "unknown"];
    assert(widgets::slices(scopes@) =~= seq!["specific_sku"@, "multiple_variants"@, "unknown"@]);
    let complete: &str = search_results::completeness(cursor.is_some(), &has_next);
    let coverage: Json = search_results::coverage(
        reviews.len(),
        seen as u64,
        raw.field("totalReviews").copy(),
        complete,
    );
    let aggregate: Json = Json::object().with("rating", raw.field("rating").copy()).with(
        "count",
        raw.field("totalReviews").copy(),
    );
    Json::object().with("subjectSku", Json::text(sku)).with(
        "aggregationScope",
        Json::Text(marketplace::enum_or(raw, "aggregationScope", &scopes, "unknown")),
    ).with("aggregate", aggregate).with("reviews", Json::array(reviews)).with(
        "refinements",
        Json::array(refinements),
    ).with("refinementsIncluded", Json::Bool(offered > 0)).with(
        "refinementsTruncated",
        Json::Bool(offered > 100),
    ).with("coverage", coverage).with("nextCursor", json::optional(cursor)).with(
        "hasNext",
        has_next,
    )
}

/// What a review observation becomes, with identifiers that are there.
pub(crate) fn normalize_reviews_in(
    raw: &Json,
    ledger: &mut Ledger,
    request: &ReviewRequest,
    now: &str,
) -> (r: Result<Normalized, Failure>)
    requires
        old(ledger)@.left() >= 600,
    ensures
        final(ledger)@.ids == old(ledger)@.ids,
        final(ledger)@.used <= old(ledger)@.used + 600,
        marketplace::made(r, final(ledger)@) == reviewed(raw@, old(ledger)@, request@, now@),
{
    let reviews: Vec<&Json> = json::elements(raw.field("reviews"));
    let plan: Plan = match plan(raw, &reviews, ledger, request) {
        Ok(p) => p,
        Err(e) => return Err(e),
    };
    let ghost v = plan_view(plan, ledger@, json::refs(reviews@));
    let observed: &str = product_details::observation_time(raw, now);
    let rows: ReviewRows = show_reviews(
        &reviews,
        &plan.picks.picked,
        ledger,
        plan.canonical.as_str(),
        observed,
        request,
    );
    let refinements: Vec<Json> = refine_reviews(
        &json::elements(raw.field("refinements")),
        ledger,
        plan.canonical.as_str(),
        request,
    );
    let left: bool = plan.picks.consumed < reviews.len();
    let continues: bool = left || plan.next_path.is_some();
    let seen_ref: Option<String> = if continues && plan.picks.fresh.len() > 0 {
        match store_review_seen_state(
            ledger,
            request.research_id,
            request.prior_seen_ref,
            request.prior_seen_depth,
            &plan.picks.fresh,
            &plan.picks.seen,
        ) {
            Ok(x) => Some(x.0),
            Err(e) => return Err(e),
        }
    } else {
        match request.prior_seen_ref {
            Some(s) => Some(s.to_owned()),
            None => None,
        }
    };
    let cursor: Option<String> = continue_reviews(
        raw,
        &reviews,
        &plan,
        ledger,
        &seen_ref,
        observed,
        request,
        Ghost(v),
    );
    let ev: String = text::joined("evidence_", ledger.draw().as_str());
    let aggregate: Json = evidence_for_all(
        raw,
        plan.canonical.as_str(),
        observed,
        ev.as_str(),
        request,
    );
    let mut evidence: Vec<Json> = rows.evidence;
    proof {
        json::lemma_values_push(evidence@, aggregate);
    }
    evidence.push(aggregate);
    let mut refs: Vec<String> = Vec::new();
    refs.push(request.product_ref.to_owned());
    assert(text::texts(refs@) =~= seq![request.product_ref@]);
    Ok(
        Normalized {
            data: data_of(
                raw,
                rows.reviews,
                refinements,
                plan.picks.seen.len(),
                left,
                &cursor,
                request.sku,
            ),
            evidence,
            warnings: warning_list(raw),
            product_refs: refs,
        },
    )
}

/// What a review observation becomes, where it was not captured before, at a given time.
pub fn normalize_reviews_at(raw: &Json, ledger: &mut Ledger, request: &ReviewRequest, now: &str) -> (r:
    Result<Normalized, Failure>)
    requires
        old(ledger)@.valid(),
    ensures
        final(ledger)@.valid(),
        final(ledger)@.ids.take(old(ledger)@.ids.len() as int) == old(ledger)@.ids,
        marketplace::made(r, final(ledger)@) == reviewed(
            raw@,
            old(ledger)@.supplied(final(ledger)@),
            request@,
            now@,
        ),
{
    let ghost origin = ledger@;
    ledger.stock(1, 600);
    assert(ledger@ == origin.supplied(ledger@));
    normalize_reviews_in(raw, ledger, request, now)
}

/// What a review observation becomes, at the present time. Each review is shown once; what
/// an answer has no room for is left to the next one.
pub fn normalize_reviews(raw: &Json, ledger: &mut Ledger, request: ReviewRequest) -> (r: Result<
    Normalized,
    Failure,
>)
    requires
        old(ledger)@.valid(),
    ensures
        final(ledger)@.valid(),
        final(ledger)@.ids.take(old(ledger)@.ids.len() as int) == old(ledger)@.ids,
        exists|now: Seq<char>|
            marketplace::made(r, final(ledger)@) == #[trigger] reviewed(
                raw@,
                old(ledger)@.supplied(final(ledger)@),
                request@,
                now,
            ),
{
    let now: String = evidence::now();
    normalize_reviews_at(raw, ledger, &request, now.as_str())
}

proof fn lemma_picks_write_nothing(
    ledger: LedgerV,
    seen: Seq<Seq<char>>,
    reviews: Seq<JsonV>,
    limit: nat,
    n: int,
)
    ensures
        picks(ledger, seen, reviews, limit, n).ledger.writes == ledger.writes,
    decreases n,
{
    if n > 0 {
        lemma_picks_write_nothing(ledger, seen, reviews, limit, n - 1);
    }
}

/// A review page that is refused, because of its place, its size, the number of reviews
/// that were seen or because it leads nowhere, leaves no reference behind.
pub proof fn refused_pages_write_nothing(raw: JsonV, ledger: LedgerV, q: ReviewRequestV)
    ensures
        planned(raw, ledger, q) matches Err(e) ==> e.0.writes == ledger.writes,
{
    let reviews = raw.field("reviews"@).elements();
    let prior = keys::inserted_all(Seq::empty(), q.prior_seen_review_keys);
    lemma_picks_write_nothing(ledger, prior, reviews, q.limit, reviews.len() as int);
}

/// What is picked was not seen before and is picked once; afterwards exactly that and what
/// was seen before has been seen.
pub proof fn picked_reviews_are_new(
    ledger: LedgerV,
    seen: Seq<Seq<char>>,
    reviews: Seq<JsonV>,
    limit: nat,
    n: int,
)
    ensures
        ({
            let p = picks(ledger, seen, reviews, limit, n);
            &&& forall|i: int| 0 <= i < p.fresh.len() ==> !seen.contains(#[trigger] p.fresh[i])
            &&& p.fresh.no_duplicates()
            &&& forall|key: Seq<char>| #[trigger]
                p.seen.contains(key) == (seen.contains(key) || p.fresh.contains(key))
            &&& p.picked.len() == p.fresh.len()
        }),
    decreases n,
{
    if n > 0 {
        picked_reviews_are_new(ledger, seen, reviews, limit, n - 1);
        let p = picks(ledger, seen, reviews, limit, n - 1);
        if !is_full(p, limit) {
            let named = identity_of(p.ledger, reviews[n - 1]);
            if !p.seen.contains(named.1) {
                let fresh = p.fresh.push(named.1);
                assert forall|key: Seq<char>| #[trigger]
                    keys::inserted(p.seen, named.1).contains(key) == (seen.contains(key)
                        || fresh.contains(key)) by {
                    keys::lemma_inserted_contains(p.seen, named.1, key);
                    if p.fresh.contains(key) {
                        let i = choose|i: int| 0 <= i < p.fresh.len() && p.fresh[i] == key;
                        assert(fresh[i] == key);
                    }
                    if fresh.contains(key) && key != named.1 {
                        let i = choose|i: int| 0 <= i < fresh.len() && fresh[i] == key;
                        assert(p.fresh[i] == key);
                    }
                    assert(fresh[p.fresh.len() as int] == named.1);
                }
                assert forall|i: int, k: int|
                    0 <= i < fresh.len() && 0 <= k < fresh.len() && i != k implies fresh[i]
                    != fresh[k] by {
                    assert(forall|j: int|
                        0 <= j < p.fresh.len() ==> p.fresh.contains(#[trigger] p.fresh[j]));
                }
            }
        }
    } else {
        let p = picks(ledger, seen, reviews, limit, n);
        assert(p.fresh =~= Seq::empty());
    }
}

/// The reviews of a page that were not seen, each told once, and all that was seen then.
pub open spec fn told(seen: Seq<Seq<char>>, reviews: Seq<JsonV>) -> (
    Seq<Seq<char>>,
    Seq<Seq<char>>,
)
    decreases reviews.len(),
{
    if reviews.len() == 0 {
        (Seq::empty(), seen)
    } else {
        let before = told(seen, reviews.drop_last());
        let key = "id:"@ + digest::sha256_text(
            vstd::utf8::encode_utf8(review_id(reviews.last())->Some_0),
        );
        if before.1.contains(key) {
            before
        } else {
            (before.0.push(key), keys::inserted(before.1, key))
        }
    }
}

pub open spec fn all_have_ids(reviews: Seq<JsonV>) -> bool {
    forall|i: int| 0 <= i < reviews.len() ==> review_id(#[trigger] reviews[i]) is Some
}

proof fn lemma_picks_tell(
    ledger: LedgerV,
    seen: Seq<Seq<char>>,
    reviews: Seq<JsonV>,
    limit: nat,
    n: int,
)
    requires
        0 <= n <= reviews.len(),
        all_have_ids(reviews),
    ensures
        ({
            let p = picks(ledger, seen, reviews, limit, n);
            &&& 0 <= p.consumed <= n
            &&& (!is_full(p, limit) ==> p.consumed == n)
            &&& told(seen, reviews.take(p.consumed)) == (p.fresh, p.seen)
        }),
    decreases n,
{
    if n > 0 {
        lemma_picks_tell(ledger, seen, reviews, limit, n - 1);
        let p = picks(ledger, seen, reviews, limit, n - 1);
        if !is_full(p, limit) {
            assert(reviews.take(n).drop_last() =~= reviews.take(n - 1));
            assert(reviews.take(n).last() == reviews[n - 1]);
        }
    } else {
        assert(reviews.take(0) =~= Seq::empty());
    }
}

proof fn lemma_told_split(seen: Seq<Seq<char>>, reviews: Seq<JsonV>, c: int)
    requires
        0 <= c <= reviews.len(),
    ensures
        ({
            let first = told(seen, reviews.take(c));
            let then = told(first.1, reviews.skip(c));
            told(seen, reviews) == (first.0 + then.0, then.1)
        }),
    decreases reviews.len(),
{
    let first = told(seen, reviews.take(c));
    if c == reviews.len() {
        assert(reviews.take(c) =~= reviews);
        assert(reviews.skip(c) =~= Seq::empty());
        assert(first.0 + Seq::<Seq<char>>::empty() =~= first.0);
    } else {
        let shorter = reviews.drop_last();
        lemma_told_split(seen, shorter, c);
        assert(shorter.take(c) =~= reviews.take(c));
        assert(shorter.skip(c) =~= reviews.skip(c).drop_last());
        assert(reviews.skip(c).last() == reviews.last());
        let before = told(first.1, shorter.skip(c));
        let key = "id:"@ + digest::sha256_text(
            vstd::utf8::encode_utf8(review_id(reviews.last())->Some_0),
        );
        if !before.1.contains(key) {
            assert((first.0 + before.0).push(key) =~= first.0 + before.0.push(key));
        }
    }
}

/// However an answer is limited, what it shows of a page and what the rest of the page then
/// tells add up to the page: no review is skipped and none is told twice. The reviews of
/// the page have identifiers; one without is told whenever it is looked at.
pub proof fn limited_answers_add_up(
    ledger: LedgerV,
    seen: Seq<Seq<char>>,
    reviews: Seq<JsonV>,
    limit: nat,
)
    requires
        all_have_ids(reviews),
    ensures
        ({
            let p = picks(ledger, seen, reviews, limit, reviews.len() as int);
            let rest = told(p.seen, reviews.skip(p.consumed));
            told(seen, reviews) == (p.fresh + rest.0, rest.1)
        }),
{
    let p = picks(ledger, seen, reviews, limit, reviews.len() as int);
    lemma_picks_tell(ledger, seen, reviews, limit, reviews.len() as int);
    lemma_told_split(seen, reviews, p.consumed);
}

/// An answer never shows more reviews than it was limited to.
pub proof fn answers_keep_their_limit(
    ledger: LedgerV,
    seen: Seq<Seq<char>>,
    reviews: Seq<JsonV>,
    limit: nat,
    n: int,
)
    requires
        limit > 0,
    ensures
        picks(ledger, seen, reviews, limit, n).picked.len() <= quota(limit),
    decreases n,
{
    if n > 0 {
        answers_keep_their_limit(ledger, seen, reviews, limit, n - 1);
    }
}

} // verus!
