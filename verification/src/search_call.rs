//! What a search call starts from, and what becomes of what the source brings.

use crate::evidence;
use crate::failure::{self, Failure, FailureV};
use crate::json::{self, Json, JsonV};
use crate::ledger::{Ledger, LedgerV, StoredRef, StoredRefV};
use crate::marketplace::{self, Normalized, NormalizedV};
use crate::refinements::{self, ShownV};
use crate::search::{SearchArgs, SearchArgsV};
use crate::search_results;
use crate::service;
use crate::text;
use vstd::prelude::*;

verus! {

/// What a search call starts from.
#[derive(Debug)]
pub enum SearchStart<'a> {
    /// More of the refinements that were captured.
    Refinements(&'a str),
    Query(&'a str),
    /// A refinement that a search offered.
    Refined(&'a str),
    Cursor(&'a str),
}

/// What a [`SearchStart`] holds.
pub enum SearchStartV {
    Refinements(Seq<char>),
    Query(Seq<char>),
    Refined(Seq<char>),
    Cursor(Seq<char>),
}

impl View for SearchStart<'_> {
    type V = SearchStartV;

    open spec fn view(&self) -> SearchStartV {
        match self {
            SearchStart::Refinements(s) => SearchStartV::Refinements(s@),
            SearchStart::Query(s) => SearchStartV::Query(s@),
            SearchStart::Refined(s) => SearchStartV::Refined(s@),
            SearchStart::Cursor(s) => SearchStartV::Cursor(s@),
        }
    }
}

/// What a search call starts from.
pub open spec fn start_of(args: JsonV) -> Result<SearchStartV, FailureV> {
    let start = args.field("start"@);
    match (
        start.field("refinementsCursor"@),
        start.field("query"@),
        start.field("searchRef"@),
        service::required(start, "cursor"@),
    ) {
        (JsonV::Text(c), _, _, _) => Ok(SearchStartV::Refinements(c)),
        (_, JsonV::Text(q), _, _) => Ok(SearchStartV::Query(q)),
        (_, _, JsonV::Text(s), _) => Ok(SearchStartV::Refined(s)),
        (_, _, _, Ok(c)) => Ok(SearchStartV::Cursor(c)),
        (_, _, _, Err(e)) => Err(e),
    }
}

pub fn search_start<'a>(args: &'a Json) -> (r: Result<SearchStart<'a>, Failure>)
    ensures
        failure::outcome(r) == start_of(args@),
{
    let start: &Json = args.field("start");
    if let Some(c) = start.field("refinementsCursor").as_str() {
        return Ok(SearchStart::Refinements(c));
    }
    if let Some(q) = start.field("query").as_str() {
        return Ok(SearchStart::Query(q));
    }
    if let Some(s) = start.field("searchRef").as_str() {
        return Ok(SearchStart::Refined(s));
    }
    match service::required_text(start, "cursor") {
        Ok(c) => Ok(SearchStart::Cursor(c)),
        Err(e) => Err(e),
    }
}

/// What the journal says of a search.
pub open spec fn summary_of(start: SearchStartV) -> Seq<char> {
    match start {
        SearchStartV::Query(q) => "Search: "@ + q,
        SearchStartV::Refined(_) => "Applied observed search refinement"@,
        _ => "Continued search"@,
    }
}

pub fn search_summary(start: &SearchStart) -> (r: String)
    ensures
        r@ == summary_of(start@),
{
    match start {
        SearchStart::Query(q) => text::joined("Search: ", q),
        SearchStart::Refined(_) => "Applied observed search refinement".to_owned(),
        _ => "Continued search".to_owned(),
    }
}

/// What is wrong with a stored reference for a call.
pub open spec fn bound_problem(stored: StoredRefV, args: JsonV, context_id: Seq<char>) -> Option<
    FailureV,
> {
    if stored.context_id != context_id {
        Some(FailureV::Message("CONTEXT_CHANGED: reference belongs to another context"@))
    } else if service::research_of(args) is Some && service::research_of(args) != Some(
        stored.research_id,
    ) {
        Some(FailureV::Message("INVALID_REFERENCE: reference belongs to another research"@))
    } else {
        None
    }
}

/// Holds a stored reference to the context and the research of a call.
pub fn verify_bound(stored: &StoredRef, args: &Json, context_id: &str) -> (r: Result<(), Failure>)
    ensures
        service::problem(r) == bound_problem(stored@, args@, context_id@),
{
    if !text::same(stored.context_id.as_str(), context_id) {
        return Err(Failure::new("CONTEXT_CHANGED: reference belongs to another context"));
    }
    if let Some(id) = service::research_arg(args) {
        if !text::same(id, stored.research_id.as_str()) {
            return Err(Failure::new("INVALID_REFERENCE: reference belongs to another research"));
        }
    }
    Ok(())
}

/// What the source is asked for.
pub open spec fn search_args_of(
    args: JsonV,
    query: Option<Seq<char>>,
    url: Option<Seq<char>>,
    cursor: Option<Seq<char>>,
) -> SearchArgsV {
    let range = args.field("start"@).field("priceRange"@);
    SearchArgsV {
        query,
        search_url: url,
        next_cursor: cursor,
        include_facets: Some(
            match args.field("includeFacets"@).as_bool() {
                Some(b) => b,
                None => true,
            },
        ),
        sort: None,
        price_min: range.field("minMinor"@).as_unsigned(),
        price_max: range.field("maxMinor"@).as_unsigned(),
        limit: match args.field("limit"@).as_unsigned() {
            Some(n) => n as usize,
            None => 12,
        },
    }
}

fn owned(s: Option<&str>) -> (r: Option<String>)
    ensures
        text::text_of(r) == json::str_of(s),
{
    match s {
        Some(t) => Some(t.to_owned()),
        None => None,
    }
}

fn make_search_args(args: &Json, query: Option<&str>, url: Option<&str>, cursor: Option<&str>) -> (r:
    SearchArgs)
    ensures
        r@ == search_args_of(
            args@,
            json::str_of(query),
            json::str_of(url),
            json::str_of(cursor),
        ),
{
    let range: &Json = args.field("start").field("priceRange");
    let facets: bool = match args.field("includeFacets").as_bool() {
        Some(b) => b,
        None => true,
    };
    let limit: usize = match args.field("limit").as_u64() {
        Some(n) => n as usize,
        None => 12,
    };
    SearchArgs {
        query: owned(query),
        search_url: owned(url),
        next_cursor: owned(cursor),
        include_facets: Some(facets),
        sort: None,
        price_min: range.field("minMinor").as_u64(),
        price_max: range.field("maxMinor").as_u64(),
        limit,
    }
}

/// What the source is asked for with a query.
pub fn query_args(args: &Json, query: &str) -> (r: SearchArgs)
    ensures
        r@ == search_args_of(args@, Some(query@), None, None),
{
    make_search_args(args, Some(query), None, None)
}

/// What the source is asked for with a stored reference: a place or a cursor of its own. The
/// reference must be bound to the context and the research of the call.
pub fn stored_args(args: &Json, start: &SearchStart, stored: &StoredRef, context_id: &str) -> (r:
    Result<SearchArgs, Failure>)
    ensures
        failure::outcome(r) == (match bound_problem(stored@, args@, context_id@) {
            Some(e) => Err(e),
            None => Ok(
                if start@ is Refined {
                    search_args_of(
                        args@,
                        None,
                        stored@.value.field("searchUrl"@).as_text(),
                        None,
                    )
                } else {
                    search_args_of(args@, None, None, stored@.value.field("cursor"@).as_text())
                },
            ),
        }),
{
    match verify_bound(stored, args, context_id) {
        Ok(_) => {},
        Err(e) => return Err(e),
    }
    match start {
        SearchStart::Refined(_) => Ok(
            make_search_args(args, None, stored.value.field("searchUrl").as_str(), None),
        ),
        _ => Ok(make_search_args(args, None, None, stored.value.field("cursor").as_str())),
    }
}

/// The earliest time that evidence was observed at; none where no evidence has a time.
pub open spec fn earliest(evidence: Seq<JsonV>) -> Option<Seq<char>>
    decreases evidence.len(),
{
    if evidence.len() == 0 {
        None
    } else {
        let before = earliest(evidence.drop_last());
        match (evidence.last().field("observedAt"@), before) {
            (JsonV::Text(t), Some(b)) => if text::before(t, b) {
                Some(t)
            } else {
                Some(b)
            },
            (JsonV::Text(t), None) => Some(t),
            (_, b) => b,
        }
    }
}

/// When the oldest of some evidence was observed; now, where there is none.
pub open spec fn oldest(evidence: Seq<JsonV>, now: Seq<char>) -> Seq<char> {
    match earliest(evidence) {
        Some(t) => t,
        None => now,
    }
}

pub fn oldest_observation(evidence: &Vec<Json>, now: &str) -> (r: String)
    ensures
        r@ == oldest(json::values(evidence@), now@),
{
    let ghost all = json::values(evidence@);
    let mut best: Option<String> = None;
    let mut i: usize = 0;
    while i < evidence.len()
        invariant
            0 <= i <= evidence@.len(),
            all == json::values(evidence@),
            text::text_of(best) == earliest(all.take(i as int)),
        decreases evidence@.len() - i,
    {
        assert(all.take(i + 1).drop_last() =~= all.take(i as int));
        assert(all.take(i + 1).last() == evidence@[i as int]@);
        if let Some(t) = evidence[i].field("observedAt").as_str() {
            let earlier: bool = match &best {
                Some(b) => text::precedes(t, b.as_str()),
                None => true,
            };
            if earlier {
                best = Some(t.to_owned());
            }
        }
        i = i + 1;
    }
    assert(all.take(i as int) =~= all);
    match best {
        Some(t) => t,
        None => now.to_owned(),
    }
}

pub open spec fn text_or(v: JsonV, fallback: Seq<char>) -> Seq<char> {
    match v {
        JsonV::Text(s) => s,
        _ => fallback,
    }
}

/// How the refinements of a search are shown.
pub open spec fn shown_of(args: JsonV) -> ShownV {
    ShownV {
        view: text_or(args.field("view"@), "compact"@),
        repeat_mode: text_or(args.field("repeatMode"@), "full"@),
        limit: match args.field("refinementLimit"@).as_unsigned() {
            Some(n) => n as usize as nat,
            None => 12,
        },
    }
}

/// What a search observation becomes, with its refinements in pages.
pub open spec fn search_finished(
    raw: JsonV,
    args: JsonV,
    ledger: LedgerV,
    research_id: Seq<char>,
    context: JsonV,
    context_id: Seq<char>,
    now: Seq<char>,
) -> Result<(LedgerV, NormalizedV), (LedgerV, FailureV)> {
    match search_results::searched(
        raw.with("_presentation"@, service::presentation_binding_of(args)),
        ledger,
        research_id,
        context_id,
        context.field("regionVerification"@) == JsonV::Text("verified"@),
        match args.field("includeFacets"@).as_bool() {
            Some(b) => b,
            None => true,
        },
        now,
    ) {
        Err(e) => Err(e),
        Ok(made) => match refinements::first_paged(
            made.0,
            research_id,
            made.1.data,
            context,
            oldest(made.1.evidence, now),
            shown_of(args),
        ) {
            Err(e) => Err((made.0, e)),
            Ok(paged) => Ok((paged.0, NormalizedV { data: paged.1, ..made.1 })),
        },
    }
}

/// What a search observation becomes at a given time, with its refinements in pages. Where
/// they cannot be, nothing of the search counts as seen.
pub fn finish_search_at(
    raw: Json,
    args: &Json,
    ledger: &mut Ledger,
    research_id: &str,
    context: &Json,
    context_id: &str,
    now: &str,
) -> (r: Result<Normalized, Failure>)
    requires
        old(ledger)@.valid(),
    ensures
        final(ledger)@.valid(),
        final(ledger)@.ids.take(old(ledger)@.ids.len() as int) == old(ledger)@.ids,
        marketplace::made(r, final(ledger)@) == search_finished(
            raw@,
            args@,
            old(ledger)@.supplied(final(ledger)@),
            research_id@,
            context@,
            context_id@,
            now@,
        ),
{
    let ghost origin = ledger@;
    ledger.stock(1, 257);
    assert(ledger@ == origin.supplied(ledger@));
    let bound: Json = raw.with("_presentation", service::presentation_binding(args));
    let verified: bool = match context.field("regionVerification").as_str() {
        Some(s) => text::same(s, "verified"),
        None => false,
    };
    let facets: bool = match args.field("includeFacets").as_bool() {
        Some(b) => b,
        None => true,
    };
    let made: Normalized = match search_results::normalize_search_in(
        &bound,
        ledger,
        research_id,
        context_id,
        verified,
        facets,
        now,
    ) {
        Ok(n) => n,
        Err(e) => return Err(e),
    };
    let observed: String = oldest_observation(&made.evidence, now);
    let view: &str = match args.field("view").as_str() {
        Some(s) => s,
        None => "compact",
    };
    let repeat_mode: &str = match args.field("repeatMode").as_str() {
        Some(s) => s,
        None => "full",
    };
    let limit: usize = match args.field("refinementLimit").as_u64() {
        Some(n) => n as usize,
        None => 12,
    };
    let mut data: Json = made.data;
    match refinements::first_page_in(
        ledger,
        research_id,
        &mut data,
        context,
        observed.as_str(),
        view,
        repeat_mode,
        limit,
    ) {
        Ok(_) => {},
        Err(e) => return Err(e),
    }
    Ok(
        Normalized {
            data,
            evidence: made.evidence,
            warnings: made.warnings,
            product_refs: made.product_refs,
        },
    )
}

/// What a search observation becomes at the present time, with its refinements in pages.
pub fn finish_search(
    raw: Json,
    args: &Json,
    ledger: &mut Ledger,
    research_id: &str,
    context: &Json,
    context_id: &str,
) -> (r: Result<Normalized, Failure>)
    requires
        old(ledger)@.valid(),
    ensures
        final(ledger)@.valid(),
        exists|now: Seq<char>|
            marketplace::made(r, final(ledger)@) == #[trigger] search_finished(
                raw@,
                args@,
                old(ledger)@.supplied(final(ledger)@),
                research_id@,
                context@,
                context_id@,
                now,
            ),
{
    let now: String = evidence::now();
    finish_search_at(raw, args, ledger, research_id, context, context_id, now.as_str())
}

/// The answer to a call that made public data.
pub fn envelope_at(n: Normalized, research_id: &str, context: &Json, now: &str) -> (r: Json)
    ensures
        r@ == evidence::envelope_of(
            Some(research_id@),
            n@.data,
            context@,
            n@.evidence,
            n@.warnings,
            oldest(n@.evidence, now@),
        ),
{
    let observed: String = oldest_observation(&n.evidence, now);
    evidence::envelope(
        Some(research_id),
        n.data,
        context,
        n.evidence,
        n.warnings,
        observed.as_str(),
    )
}

} // verus!
