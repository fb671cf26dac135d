//! What a call for reviews starts from, and what becomes of what the source brings.

use crate::failure::{self, Failure, FailureV};
use crate::json::{self, Json, JsonV};
use crate::ledger::{Ledger, LedgerV, StoredRef, StoredRefV};
use crate::marketplace::{self, Normalized, NormalizedV};
use crate::review_pages::{self, ReviewRequest, ReviewRequestV};
use crate::search_call;
use crate::seen_chain::LoadedReviewSeen;
use crate::service;
use crate::text;
use vstd::prelude::*;

verus! {

/// What a call for reviews starts from.
#[derive(Clone, Copy, Debug, PartialEq, Eq, Structural)]
pub enum ReviewStart {
    Product,
    Refined,
    Cursor,
}

impl ReviewStart {
    pub open spec fn kind(self) -> Seq<char> {
        match self {
            ReviewStart::Product => "product"@,
            ReviewStart::Refined => "review_search"@,
            ReviewStart::Cursor => "review_cursor"@,
        }
    }

    /// The kind of the stored reference.
    pub fn stored_kind(self) -> (r: &'static str)
        ensures
            r@ == self.kind(),
    {
        match self {
            ReviewStart::Product => "product",
            ReviewStart::Refined => "review_search",
            ReviewStart::Cursor => "review_cursor",
        }
    }
}

/// What a call for reviews starts from, and the stored reference that it names.
pub open spec fn start_of(args: JsonV) -> Result<(ReviewStart, Seq<char>), FailureV> {
    let start = args.field("start"@);
    match start.field("productRef"@) {
        JsonV::Text(name) => Ok((ReviewStart::Product, name)),
        _ => if start.get("reviewSearchRef"@) is Some {
            match service::required(start, "reviewSearchRef"@) {
                Ok(name) => Ok((ReviewStart::Refined, name)),
                Err(e) => Err(e),
            }
        } else {
            match service::required(start, "cursor"@) {
                Ok(name) => Ok((ReviewStart::Cursor, name)),
                Err(e) => Err(e),
            }
        },
    }
}

pub open spec fn start_outcome(r: Result<(ReviewStart, &str), Failure>) -> Result<
    (ReviewStart, Seq<char>),
    FailureV,
> {
    match r {
        Ok(x) => Ok((x.0, x.1@)),
        Err(e) => Err(e@),
    }
}

pub fn review_start<'a>(args: &'a Json) -> (r: Result<(ReviewStart, &'a str), Failure>)
    ensures
        start_outcome(r) == start_of(args@),
{
    let start: &Json = args.field("start");
    if let Some(name) = start.field("productRef").as_str() {
        return Ok((ReviewStart::Product, name));
    }
    if start.get("reviewSearchRef").is_some() {
        match service::required_text(start, "reviewSearchRef") {
            Ok(name) => Ok((ReviewStart::Refined, name)),
            Err(e) => Err(e),
        }
    } else {
        match service::required_text(start, "cursor") {
            Ok(name) => Ok((ReviewStart::Cursor, name)),
            Err(e) => Err(e),
        }
    }
}

/// What a continuation says of the pages before it.
#[derive(Debug)]
pub struct Progress {
    pub seen_ref: Option<String>,
    pub no_progress_pages: usize,
    pub page_made_progress: bool,
}

/// What a [`Progress`] holds.
pub struct ProgressV {
    pub seen_ref: Option<Seq<char>>,
    pub no_progress_pages: usize,
    pub page_made_progress: bool,
}

impl View for Progress {
    type V = ProgressV;

    open spec fn view(&self) -> ProgressV {
        ProgressV {
            seen_ref: text::text_of(self.seen_ref),
            no_progress_pages: self.no_progress_pages,
            page_made_progress: self.page_made_progress,
        }
    }
}

/// Whether a continuation says what was seen before it.
pub open spec fn is_cumulative(value: JsonV) -> bool {
    &&& value is Object
    &&& value.get("seenRef"@) is Some
    &&& value.get("noProgressPages"@) is Some
    &&& value.get("pageMadeProgress"@) is Some
}

pub open spec fn progress_problem() -> FailureV {
    FailureV::Message("INVALID_REFERENCE: invalid review cursor progress"@)
}

/// What a stored reference says of the pages before it, or what is wrong with it for a call.
pub open spec fn opened(start: ReviewStart, stored: StoredRefV, args: JsonV, context_id: Seq<char>) -> Result<
    ProgressV,
    FailureV,
> {
    match search_call::bound_problem(stored, args, context_id) {
        Some(e) => Err(e),
        None => if start != ReviewStart::Cursor {
            Ok(ProgressV { seen_ref: None, no_progress_pages: 0, page_made_progress: false })
        } else if !is_cumulative(stored.value) {
            Err(
                FailureV::Message(
                    "INVALID_REFERENCE: review cursor predates cumulative coverage; restart reviews from productRef"@,
                ),
            )
        } else {
            match (
                stored.value.field("noProgressPages"@).as_unsigned(),
                stored.value.field("pageMadeProgress"@).as_bool(),
            ) {
                (Some(pages), Some(progress)) => if pages
                    < marketplace::MAX_REVIEW_NO_PROGRESS_PAGES {
                    Ok(
                        ProgressV {
                            seen_ref: stored.value.field("seenRef"@).as_text(),
                            no_progress_pages: pages as usize,
                            page_made_progress: progress,
                        },
                    )
                } else {
                    Err(progress_problem())
                },
                _ => Err(progress_problem()),
            }
        },
    }
}

/// Opens a stored reference for a call. A continuation that does not say what was seen
/// before it is refused: the reviews are then read from the start.
pub fn open_reviews(start: ReviewStart, stored: &StoredRef, args: &Json, context_id: &str) -> (r:
    Result<Progress, Failure>)
    ensures
        failure::outcome(r) == opened(start, stored@, args@, context_id@),
{
    match search_call::verify_bound(stored, args, context_id) {
        Ok(_) => {},
        Err(e) => return Err(e),
    }
    if start != ReviewStart::Cursor {
        return Ok(Progress { seen_ref: None, no_progress_pages: 0, page_made_progress: false });
    }
    let value: &Json = &stored.value;
    if !(value.is_object() && value.get("seenRef").is_some() && value.get(
        "noProgressPages",
    ).is_some() && value.get("pageMadeProgress").is_some()) {
        return Err(
            Failure::new(
                "INVALID_REFERENCE: review cursor predates cumulative coverage; restart reviews from productRef",
            ),
        );
    }
    let pages: u64 = match value.field("noProgressPages").as_u64() {
        Some(n) => n,
        None => return Err(Failure::new("INVALID_REFERENCE: invalid review cursor progress")),
    };
    if pages >= marketplace::MAX_REVIEW_NO_PROGRESS_PAGES as u64 {
        return Err(Failure::new("INVALID_REFERENCE: invalid review cursor progress"));
    }
    let progress: bool = match value.field("pageMadeProgress").as_bool() {
        Some(b) => b,
        None => return Err(Failure::new("INVALID_REFERENCE: invalid review cursor progress")),
    };
    let seen_ref: Option<String> = match value.field("seenRef").as_str() {
        Some(s) => Some(s.to_owned()),
        None => None,
    };
    Ok(
        Progress {
            seen_ref,
            no_progress_pages: pages as usize,
            page_made_progress: progress,
        },
    )
}

/// Which reviews are read, and from where.
#[derive(Debug)]
pub struct ReviewSource {
    pub research_id: String,
    pub product_ref: String,
    pub sku: String,
    pub path: String,
    pub source_url: String,
    pub cached_raw: Option<Json>,
}

/// What a [`ReviewSource`] holds.
pub struct ReviewSourceV {
    pub research_id: Seq<char>,
    pub product_ref: Seq<char>,
    pub sku: Seq<char>,
    pub path: Seq<char>,
    pub source_url: Seq<char>,
    pub cached_raw: Option<JsonV>,
}

impl View for ReviewSource {
    type V = ReviewSourceV;

    open spec fn view(&self) -> ReviewSourceV {
        ReviewSourceV {
            research_id: self.research_id@,
            product_ref: self.product_ref@,
            sku: self.sku@,
            path: self.path@,
            source_url: self.source_url@,
            cached_raw: json::read_of(self.cached_raw),
        }
    }
}

/// Which reviews a stored reference stands for.
pub open spec fn source_of(start: ReviewStart, reference: Seq<char>, stored: StoredRefV) -> Result<
    ReviewSourceV,
    FailureV,
> {
    let value = stored.value;
    if start == ReviewStart::Product {
        match service::required(value, "sku"@) {
            Err(e) => Err(e),
            Ok(sku) => Ok(
                ReviewSourceV {
                    research_id: stored.research_id,
                    product_ref: reference,
                    sku,
                    path: search_call::text_or(value.field("url"@), ""@),
                    source_url: search_call::text_or(value.field("url"@), ""@),
                    cached_raw: None,
                },
            ),
        }
    } else {
        match (
            service::required(value, "productRef"@),
            service::required(value, "sku"@),
            service::required(value, "sourceUrl"@),
        ) {
            (Err(e), _, _) => Err(e),
            (_, Err(e), _) => Err(e),
            (_, _, Err(e)) => Err(e),
            (Ok(product_ref), Ok(sku), Ok(source_url)) => Ok(
                ReviewSourceV {
                    research_id: stored.research_id,
                    product_ref,
                    sku,
                    path: search_call::text_or(value.field("path"@), ""@),
                    source_url,
                    cached_raw: value.get("cachedRaw"@),
                },
            ),
        }
    }
}

fn text_or_empty(v: &Json) -> (r: String)
    ensures
        r@ == search_call::text_or(v@, ""@),
{
    match v.as_str() {
        Some(s) => s.to_owned(),
        None => "".to_owned(),
    }
}

/// Which reviews a stored reference stands for.
pub fn review_source(start: ReviewStart, reference: &str, stored: StoredRef) -> (r: Result<
    ReviewSource,
    Failure,
>)
    ensures
        failure::outcome(r) == source_of(start, reference@, stored@),
{
    if start == ReviewStart::Product {
        let sku: String = match service::required_text(&stored.value, "sku") {
            Ok(s) => s.to_owned(),
            Err(e) => return Err(e),
        };
        return Ok(
            ReviewSource {
                product_ref: reference.to_owned(),
                sku,
                path: text_or_empty(stored.value.field("url")),
                source_url: text_or_empty(stored.value.field("url")),
                cached_raw: None,
                research_id: stored.research_id,
            },
        );
    }
    let product_ref: String = match service::required_text(&stored.value, "productRef") {
        Ok(s) => s.to_owned(),
        Err(e) => return Err(e),
    };
    let sku: String = match service::required_text(&stored.value, "sku") {
        Ok(s) => s.to_owned(),
        Err(e) => return Err(e),
    };
    let source_url: String = match service::required_text(&stored.value, "sourceUrl") {
        Ok(s) => s.to_owned(),
        Err(e) => return Err(e),
    };
    let cached_raw: Option<Json> = match stored.value.get("cachedRaw") {
        Some(c) => Some(c.copy()),
        None => None,
    };
    Ok(
        ReviewSource {
            product_ref,
            sku,
            path: text_or_empty(stored.value.field("path")),
            source_url,
            cached_raw,
            research_id: stored.research_id,
        },
    )
}

/// How many reviews a call asks for.
pub open spec fn limit_of(args: JsonV) -> usize {
    match args.field("limit"@).as_unsigned() {
        Some(n) => n as usize,
        None => 10,
    }
}

pub fn review_limit(args: &Json) -> (r: usize)
    ensures
        r == limit_of(args@),
{
    match args.field("limit").as_u64() {
        Some(n) => n as usize,
        None => 10,
    }
}

/// What is asked of a page of reviews.
pub open spec fn request_of(
    args: JsonV,
    source: ReviewSourceV,
    progress: ProgressV,
    seen: Seq<Seq<char>>,
    depth: nat,
    context_id: Seq<char>,
) -> ReviewRequestV {
    ReviewRequestV {
        research_id: source.research_id,
        context_id,
        product_ref: source.product_ref,
        sku: source.sku,
        source_url: source.source_url,
        limit: limit_of(args) as nat,
        prior_seen_review_keys: seen,
        prior_seen_ref: progress.seen_ref,
        prior_seen_depth: depth,
        current_path: source.path,
        prior_no_progress_pages: progress.no_progress_pages as nat,
        prior_page_made_progress: progress.page_made_progress,
    }
}

/// The data of reviews, with their refinements only where they were asked for.
pub open spec fn with_refinements(data: JsonV, args: JsonV) -> JsonV {
    let asked = args.field("includeFacets"@) == JsonV::Bool(true);
    (if asked {
        data
    } else {
        data.with("refinements"@, JsonV::Array(Seq::empty()))
    }).with("refinementsIncluded"@, JsonV::Bool(asked))
}

/// What a review observation becomes for a call.
pub open spec fn reviews_finished(
    raw: JsonV,
    args: JsonV,
    ledger: LedgerV,
    q: ReviewRequestV,
    now: Seq<char>,
) -> Result<(LedgerV, NormalizedV), (LedgerV, FailureV)> {
    match review_pages::reviewed(
        raw.with("_presentation"@, service::presentation_binding_of(args)),
        ledger,
        q,
        now,
    ) {
        Err(e) => Err(e),
        Ok(made) => Ok(
            (made.0, NormalizedV { data: with_refinements(made.1.data, args), ..made.1 }),
        ),
    }
}

/// What a review observation becomes for a call, at a given time.
pub fn finish_reviews_at(
    raw: Json,
    args: &Json,
    ledger: &mut Ledger,
    source: &ReviewSource,
    progress: &Progress,
    seen: &LoadedReviewSeen,
    context_id: &str,
    now: &str,
) -> (r: Result<Normalized, Failure>)
    requires
        old(ledger)@.valid(),
    ensures
        final(ledger)@.valid(),
        final(ledger)@.ids.take(old(ledger)@.ids.len() as int) == old(ledger)@.ids,
        marketplace::made(r, final(ledger)@) == reviews_finished(
            raw@,
            args@,
            old(ledger)@.supplied(final(ledger)@),
            request_of(
                args@,
                source@,
                progress@,
                text::texts(seen.keys@),
                seen.depth as nat,
                context_id@,
            ),
            now@,
        ),
{
    let bound: Json = raw.with("_presentation", service::presentation_binding(args));
    let prior: Option<&str> = match &progress.seen_ref {
        Some(s) => Some(s.as_str()),
        None => None,
    };
    let request: ReviewRequest = ReviewRequest {
        research_id: source.research_id.as_str(),
        context_id,
        product_ref: source.product_ref.as_str(),
        sku: source.sku.as_str(),
        source_url: source.source_url.as_str(),
        limit: review_limit(args),
        prior_seen_review_keys: seen.keys.as_slice(),
        prior_seen_ref: prior,
        prior_seen_depth: seen.depth,
        current_path: source.path.as_str(),
        prior_no_progress_pages: progress.no_progress_pages,
        prior_page_made_progress: progress.page_made_progress,
    };
    let made: Normalized = match review_pages::normalize_reviews_at(
        &bound,
        ledger,
        &request,
        now,
    ) {
        Ok(n) => n,
        Err(e) => return Err(e),
    };
    let asked: bool = match args.field("includeFacets").as_bool() {
        Some(b) => b,
        None => false,
    };
    let mut data: Json = made.data;
    if !asked {
        let none: Vec<Json> = Vec::new();
        assert(json::values(none@) =~= Seq::empty());
        data.set("refinements", Json::array(none));
    }
    data.set("refinementsIncluded", Json::Bool(asked));
    Ok(
        Normalized {
            data,
            evidence: made.evidence,
            warnings: made.warnings,
            product_refs: made.product_refs,
        },
    )
}

} // verus!
