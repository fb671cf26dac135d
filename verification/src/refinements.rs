//! Local, bounded pages of refinements that a search already captured.

use crate::evidence;
use crate::failure::{Failure, FailureV};
use crate::json::{self, Json, JsonV};
use crate::ledger::{Ledger, LedgerV, StoredRef, StoredRefV};
use crate::marketplace;
use crate::response;
use crate::text;
use vstd::prelude::*;

verus! {

pub const MAX_REFINEMENT_LIMIT: usize = 100;

pub const MAX_REFINEMENT_PAGE_UTF16: u128 = 8_000;

pub const REFINEMENT_CURSOR_TTL_SECONDS: u64 = 1_800;

pub open spec fn message(s: Seq<char>) -> FailureV {
    FailureV::Message(s)
}

/// Whether the first rows of what is left fit a page.
pub open spec fn fits(rest: Seq<JsonV>, n: int) -> bool {
    text::utf16_len(json::json_text(JsonV::Array(rest.take(n)))) <= MAX_REFINEMENT_PAGE_UTF16
}

/// How many of the first `n` rows of what is left make a page: as many as fit.
pub open spec fn taken(rest: Seq<JsonV>, i: int, n: int) -> int
    decreases n - i,
{
    if i >= n || !fits(rest, i + 1) {
        i
    } else {
        taken(rest, i + 1, n)
    }
}

/// Where the page that starts at a row ends; a row that fits no page is an error.
pub open spec fn page_end_of(rows: Seq<JsonV>, offset: nat, limit: nat) -> Result<nat, FailureV> {
    let rest = rows.skip(marketplace::at_most(offset as int, rows.len() as int));
    let most = marketplace::at_most(rest.len() as int, limit as int);
    let n = taken(rest, 0, most);
    if n == 0 && most > 0 {
        Err(message("RESULT_TOO_LARGE: one refinement exceeds the page size limit"@))
    } else {
        Ok((offset + n) as nat)
    }
}

proof fn lemma_taken_bounds(rest: Seq<JsonV>, i: int, n: int)
    requires
        0 <= i <= n,
    ensures
        i <= taken(rest, i, n) <= n,
        taken(rest, i, n) > i ==> fits(rest, taken(rest, i, n)),
    decreases n - i,
{
    if i < n && fits(rest, i + 1) {
        lemma_taken_bounds(rest, i + 1, n);
    }
}

/// The number that a result holds.
pub open spec fn count_outcome(r: Result<usize, Failure>) -> Result<nat, FailureV> {
    match r {
        Ok(n) => Ok(n as nat),
        Err(e) => Err(e@),
    }
}

fn page_end(rows: &Vec<Json>, offset: usize, limit: usize) -> (r: Result<usize, Failure>)
    requires
        offset <= rows@.len(),
    ensures
        count_outcome(r) == page_end_of(json::values(rows@), offset as nat, limit as nat),
        r matches Ok(end) ==> offset <= end <= rows@.len() && end - offset <= limit,
{
    let ghost rest = json::values(rows@).skip(offset as int);
    let total: usize = rows.len();
    let most: usize = if total - offset < limit {
        total - offset
    } else {
        limit
    };
    let mut page: Vec<Json> = Vec::new();
    let mut i: usize = 0;
    assert(json::values(page@) =~= rest.take(0));
    while i < most
        invariant
            0 <= i <= most,
            total == rows@.len(),
            offset + most <= total,
            most == marketplace::at_most(rest.len() as int, limit as int),
            offset <= rows@.len(),
            rest == json::values(rows@).skip(offset as int),
            json::values(page@) == rest.take(i as int),
            taken(rest, 0, most as int) == taken(rest, i as int, most as int),
        decreases most - i,
    {
        let one: Json = rows[offset + i].copy();
        proof {
            json::lemma_values_push(page@, one);
            assert(rest[i as int] == one@);
            assert(json::values(page@).push(one@) =~= rest.take(i + 1));
        }
        page.push(one);
        let whole: Json = Json::array(page);
        if response::serialized_utf16_len(&whole) > MAX_REFINEMENT_PAGE_UTF16 {
            if i == 0 {
                return Err(
                    Failure::new("RESULT_TOO_LARGE: one refinement exceeds the page size limit"),
                );
            }
            return Ok(offset + i);
        }
        page = match whole {
            Json::Array(v) => {
                assert(contents_are(v@, rest.take(i + 1))) by {
                    assert(whole@->Array_0 =~= json::values(v@));
                }
                v
            },
            _ => Vec::new(),
        };
        i = i + 1;
    }
    Ok(offset + i)
}

spec fn contents_are(v: Seq<Json>, values: Seq<JsonV>) -> bool {
    json::values(v) == values
}

/// The rows that pages of a size show, from a row on, while every row fits a page.
pub open spec fn pages_from(rows: Seq<JsonV>, offset: nat, limit: nat) -> Seq<JsonV>
    decreases rows.len() - offset,
{
    if offset >= rows.len() {
        Seq::empty()
    } else {
        match page_end_of(rows, offset, limit) {
            Ok(end) => if offset < end <= rows.len() {
                rows.subrange(offset as int, end as int) + pages_from(rows, end, limit)
            } else {
                Seq::empty()
            },
            Err(_) => Seq::empty(),
        }
    }
}

/// A page never is empty, never runs past the rows, never shows more than its limit, and
/// fits.
pub proof fn pages_are_bounded(rows: Seq<JsonV>, offset: nat, limit: nat)
    requires
        offset < rows.len(),
        limit > 0,
    ensures
        page_end_of(rows, offset, limit) matches Ok(end) ==> {
            &&& offset < end <= rows.len()
            &&& end <= offset + limit
            &&& text::utf16_len(
                json::json_text(JsonV::Array(rows.subrange(offset as int, end as int))),
            ) <= MAX_REFINEMENT_PAGE_UTF16
        },
{
    let rest = rows.skip(offset as int);
    let most = marketplace::at_most(rest.len() as int, limit as int);
    lemma_taken_bounds(rest, 0, most);
    let n = taken(rest, 0, most);
    assert(rest.take(n) =~= rows.subrange(offset as int, offset + n));
}

/// Where no row is too large for a page, the pages show every row that was captured, in
/// order and once.
pub proof fn pages_show_every_row(rows: Seq<JsonV>, offset: nat, limit: nat)
    requires
        offset <= rows.len(),
        limit > 0,
        forall|k: nat| offset <= k < rows.len() ==> #[trigger] page_end_of(rows, k, limit) is Ok,
    ensures
        pages_from(rows, offset, limit) == rows.skip(offset as int),
    decreases rows.len() - offset,
{
    if offset < rows.len() {
        pages_are_bounded(rows, offset, limit);
        assert(page_end_of(rows, offset, limit) is Ok);
        let end = page_end_of(rows, offset, limit)->Ok_0;
        pages_show_every_row(rows, end, limit);
        assert(rows.subrange(offset as int, end as int) + rows.skip(end as int) =~= rows.skip(
            offset as int,
        ));
    } else {
        assert(rows.skip(offset as int) =~= Seq::empty());
    }
}

/// How refinements are shown.
pub struct ShownV {
    pub view: Seq<char>,
    pub repeat_mode: Seq<char>,
    pub limit: nat,
}

/// What a continuation of refinements holds.
pub open spec fn cursor_state_of(
    rows: Seq<JsonV>,
    offset: nat,
    source_truncated: bool,
    context: JsonV,
    observed: Seq<char>,
    shown: ShownV,
) -> JsonV {
    JsonV::object().with("rows"@, JsonV::Array(rows)).with(
        "offset"@,
        JsonV::unsigned(offset as u64),
    ).with("sourceTruncated"@, JsonV::Bool(source_truncated)).with("context"@, context).with(
        "observedAt"@,
        JsonV::Text(observed),
    ).with("view"@, JsonV::Text(shown.view)).with(
        "repeatMode"@,
        JsonV::Text(shown.repeat_mode),
    ).with("limit"@, JsonV::unsigned(shown.limit as u64))
}

fn copies(rows: &Vec<Json>, start: usize, end: usize) -> (r: Vec<Json>)
    requires
        start <= end <= rows@.len(),
    ensures
        json::values(r@) == json::values(rows@).subrange(start as int, end as int),
{
    let ghost all = json::values(rows@).subrange(start as int, end as int);
    let mut out: Vec<Json> = Vec::new();
    let mut i: usize = start;
    while i < end
        invariant
            start <= i <= end <= rows@.len(),
            all == json::values(rows@).subrange(start as int, end as int),
            json::values(out@) =~= all.take(i - start),
        decreases end - i,
    {
        assert(all[i - start] == rows@[i as int]@);
        let one: Json = rows[i].copy();
        proof {
            json::lemma_values_push(out@, one);
        }
        out.push(one);
        i = i + 1;
    }
    assert(json::values(out@) =~= all);
    out
}

/// What a continuation of refinements holds.
pub fn cursor_state(
    rows: &Vec<Json>,
    offset: usize,
    source_truncated: bool,
    context: &Json,
    observed: &str,
    view: &str,
    repeat_mode: &str,
    limit: usize,
) -> (r: Json)
    ensures
        r@ == cursor_state_of(
            json::values(rows@),
            offset as nat,
            source_truncated,
            context@,
            observed@,
            (ShownV { view: view@, repeat_mode: repeat_mode@, limit: limit as nat }),
        ),
{
    let all: Vec<Json> = copies(rows, 0, rows.len());
    assert(json::values(rows@).subrange(0, rows@.len() as int) =~= json::values(rows@));
    Json::object().with("rows", Json::array(all)).with(
        "offset",
        Json::unsigned(offset as u64),
    ).with("sourceTruncated", Json::Bool(source_truncated)).with("context", context.copy()).with(
        "observedAt",
        Json::text(observed),
    ).with("view", Json::text(view)).with("repeatMode", Json::text(repeat_mode)).with(
        "limit",
        Json::unsigned(limit as u64),
    )
}

pub open spec fn limit_problem(limit: nat) -> Option<FailureV> {
    if 1 <= limit <= MAX_REFINEMENT_LIMIT {
        None
    } else {
        Some(message("INVALID_ARGUMENT: refinement limit must be between 1 and 100"@))
    }
}

/// What is wrong with how refinements are to be shown.
pub open spec fn shown_problem(shown: ShownV) -> Option<FailureV> {
    match limit_problem(shown.limit) {
        Some(e) => Some(e),
        None => if shown.view.len() == 0 {
            Some(message("INVALID_ARGUMENT: refinement view must not be empty"@))
        } else if shown.repeat_mode.len() == 0 {
            Some(message("INVALID_ARGUMENT: refinement repeatMode must not be empty"@))
        } else {
            None
        },
    }
}

pub open spec fn problem(r: Result<(), Failure>) -> Option<FailureV> {
    match r {
        Ok(_) => None,
        Err(e) => Some(e@),
    }
}

fn validate_limit(limit: usize) -> (r: Result<(), Failure>)
    ensures
        problem(r) == limit_problem(limit as nat),
{
    if 1 <= limit && limit <= MAX_REFINEMENT_LIMIT {
        Ok(())
    } else {
        Err(Failure::new("INVALID_ARGUMENT: refinement limit must be between 1 and 100"))
    }
}

fn validate_shown(view: &str, repeat_mode: &str, limit: usize) -> (r: Result<(), Failure>)
    ensures
        problem(r) == shown_problem(
            (ShownV { view: view@, repeat_mode: repeat_mode@, limit: limit as nat }),
        ),
{
    match validate_limit(limit) {
        Ok(_) => {},
        Err(e) => return Err(e),
    }
    if text::chars_of(view).len() == 0 {
        return Err(Failure::new("INVALID_ARGUMENT: refinement view must not be empty"));
    }
    if text::chars_of(repeat_mode).len() == 0 {
        return Err(Failure::new("INVALID_ARGUMENT: refinement repeatMode must not be empty"));
    }
    Ok(())
}

/// What the first page of refinements makes of search data.
pub open spec fn first_paged(
    ledger: LedgerV,
    research_id: Seq<char>,
    data: JsonV,
    context: JsonV,
    observed: Seq<char>,
    shown: ShownV,
) -> Result<(LedgerV, JsonV), FailureV> {
    match shown_problem(shown) {
        Some(e) => Err(e),
        None => match data {
            JsonV::Object(_) => match data.field("refinements"@) {
                JsonV::Array(found) => {
                    let rows = marketplace::first_values(found, MAX_REFINEMENT_LIMIT as int);
                    let source_truncated = data.field("refinementsTruncated"@) == JsonV::Bool(true)
                        || found.len() > MAX_REFINEMENT_LIMIT;
                    match page_end_of(rows, 0, shown.limit) {
                        Err(e) => Err(e),
                        Ok(end) => {
                            let more = end < rows.len();
                            Ok(
                                (
                                    if more {
                                        ledger.put(
                                            research_id,
                                            "search_refinements"@,
                                            cursor_state_of(
                                                rows,
                                                end,
                                                source_truncated,
                                                context,
                                                observed,
                                                shown,
                                            ),
                                            Some(REFINEMENT_CURSOR_TTL_SECONDS),
                                        )
                                    } else {
                                        ledger
                                    },
                                    data.with(
                                        "refinements"@,
                                        JsonV::Array(rows.subrange(0, end as int)),
                                    ).with(
                                        "refinementsNextCursor"@,
                                        if more {
                                            JsonV::Text(ledger.next_ref())
                                        } else {
                                            JsonV::Null
                                        },
                                    ).with(
                                        "refinementsTotal"@,
                                        JsonV::unsigned(rows.len() as u64),
                                    ).with(
                                        "refinementsSourceTruncated"@,
                                        JsonV::Bool(source_truncated),
                                    ).with(
                                        "refinementsTruncated"@,
                                        JsonV::Bool(more || source_truncated),
                                    ),
                                ),
                            )
                        },
                    }
                },
                _ => Err(message("SOURCE_CHANGED: normalized refinements must be an array"@)),
            },
            _ => Err(message("SOURCE_CHANGED: normalized search data must be an object"@)),
        },
    }
}

/// Replaces the refinements of search data by their first page, with an identifier that is
/// there.
pub(crate) fn first_page_in(
    ledger: &mut Ledger,
    research_id: &str,
    data: &mut Json,
    context: &Json,
    observed: &str,
    view: &str,
    repeat_mode: &str,
    limit: usize,
) -> (r: Result<(), Failure>)
    requires
        old(ledger)@.left() >= 1,
    ensures
        final(ledger)@.ids == old(ledger)@.ids,
        final(ledger)@.used <= old(ledger)@.used + 1,
        match first_paged(
            old(ledger)@,
            research_id@,
            old(data)@,
            context@,
            observed@,
            (ShownV { view: view@, repeat_mode: repeat_mode@, limit: limit as nat }),
        ) {
            Ok(v) => r is Ok && (final(ledger)@, final(data)@) == v,
            Err(e) => {
                &&& r matches Err(f)
                &&& f@ == e
                &&& final(data)@ == old(data)@
                &&& final(ledger)@ == old(ledger)@
            },
        },
{
    match validate_shown(view, repeat_mode, limit) {
        Ok(_) => {},
        Err(e) => return Err(e),
    }
    if !data.is_object() {
        return Err(
            Failure::new("SOURCE_CHANGED: normalized search data must be an object"),
        );
    }
    let rows: Vec<Json>;
    let found: usize;
    match data.field("refinements").as_array() {
        Some(v) => {
            found = v.len();
            let end: usize = if v.len() < MAX_REFINEMENT_LIMIT {
                v.len()
            } else {
                MAX_REFINEMENT_LIMIT
            };
            rows = copies(v, 0, end);
            assert(json::values(rows@) =~= marketplace::first_values(json::values(v@), 100));
        },
        None => {
            return Err(
                Failure::new("SOURCE_CHANGED: normalized refinements must be an array"),
            );
        },
    }
    let source_truncated: bool = (match data.field("refinementsTruncated").as_bool() {
        Some(b) => b,
        None => false,
    }) || found > MAX_REFINEMENT_LIMIT;
    let total: usize = rows.len();
    let end: usize = match page_end(&rows, 0, limit) {
        Ok(n) => n,
        Err(e) => return Err(e),
    };
    let more: bool = end < total;
    let next: Json = if more {
        let state: Json = cursor_state(
            &rows,
            end,
            source_truncated,
            context,
            observed,
            view,
            repeat_mode,
            limit,
        );
        Json::Text(
            ledger.put(
                research_id,
                "search_refinements",
                state,
                Some(REFINEMENT_CURSOR_TTL_SECONDS),
            ),
        )
    } else {
        Json::Null
    };
    let page: Json = Json::array(copies(&rows, 0, end));
    data.set("refinements", page);
    data.set("refinementsNextCursor", next);
    data.set("refinementsTotal", Json::unsigned(total as u64));
    data.set("refinementsSourceTruncated", Json::Bool(source_truncated));
    data.set("refinementsTruncated", Json::Bool(more || source_truncated));
    Ok(())
}

/// Replaces the refinements of search data by their first page. The rest is captured in a
/// continuation; all other data stays as it is, and where it fails nothing changes.
pub fn first_page(
    ledger: &mut Ledger,
    research_id: &str,
    data: &mut Json,
    context: &Json,
    observed: &str,
    view: &str,
    repeat_mode: &str,
    limit: usize,
) -> (r: Result<(), Failure>)
    requires
        old(ledger)@.valid(),
    ensures
        final(ledger)@.valid(),
        final(ledger)@.ids.take(old(ledger)@.ids.len() as int) == old(ledger)@.ids,
        match first_paged(
            old(ledger)@.supplied(final(ledger)@),
            research_id@,
            old(data)@,
            context@,
            observed@,
            (ShownV { view: view@, repeat_mode: repeat_mode@, limit: limit as nat }),
        ) {
            Ok(v) => r is Ok && (final(ledger)@, final(data)@) == v,
            Err(e) => {
                &&& r matches Err(f)
                &&& f@ == e
                &&& final(data)@ == old(data)@
                &&& final(ledger)@ == old(ledger)@.supplied(final(ledger)@)
            },
        },
{
    let ghost origin = ledger@;
    ledger.stock(1, 1);
    assert(ledger@ == origin.supplied(ledger@));
    first_page_in(ledger, research_id, data, context, observed, view, repeat_mode, limit)
}

/// How a continuation of refinements is asked for.
pub struct AskedV {
    pub research: Option<Seq<char>>,
    pub context_id: Seq<char>,
    pub view: Option<Seq<char>>,
    pub repeat_mode: Option<Seq<char>>,
    pub limit: Option<nat>,
}

/// Whether something that is asked for differs from what is bound.
pub open spec fn unlike(asked: Option<Seq<char>>, bound: Option<Seq<char>>) -> bool {
    asked is Some && asked != bound
}

/// What is wrong with a continuation of refinements, for the one who asks.
pub open spec fn binding_problem(stored: StoredRefV, q: AskedV) -> Option<FailureV> {
    if stored.context_id != q.context_id {
        Some(message("CONTEXT_CHANGED: refinement cursor belongs to another context"@))
    } else if unlike(q.research, Some(stored.research_id)) {
        Some(message("INVALID_REFERENCE: refinement cursor belongs to another research"@))
    } else if unlike(q.view, stored.value.field("view"@).as_text()) {
        Some(message("INVALID_REFERENCE: refinement cursor view does not match"@))
    } else if unlike(q.repeat_mode, stored.value.field("repeatMode"@).as_text()) {
        Some(message("INVALID_REFERENCE: refinement cursor repeatMode does not match"@))
    } else {
        match q.limit {
            Some(n) => if stored.value.field("limit"@).as_unsigned() == Some(n as u64) {
                None
            } else {
                Some(message("INVALID_REFERENCE: refinement cursor limit does not match"@))
            },
            None => None,
        }
    }
}

fn differs(asked: Option<&str>, bound: Option<&str>) -> (r: bool)
    ensures
        r == unlike(json::str_of(asked), json::str_of(bound)),
{
    match (asked, bound) {
        (Some(a), Some(b)) => !text::same(a, b),
        (Some(_), None) => true,
        (None, _) => false,
    }
}

fn validate_stored_binding(
    stored: &StoredRef,
    research: Option<&str>,
    context_id: &str,
    view: Option<&str>,
    repeat_mode: Option<&str>,
    limit: Option<usize>,
) -> (r: Result<(), Failure>)
    ensures
        problem(r) == binding_problem(
            stored@,
            asked_for(research, context_id, view, repeat_mode, limit),
        ),
{
    if !text::same(stored.context_id.as_str(), context_id) {
        return Err(
            Failure::new("CONTEXT_CHANGED: refinement cursor belongs to another context"),
        );
    }
    if differs(research, Some(stored.research_id.as_str())) {
        return Err(
            Failure::new("INVALID_REFERENCE: refinement cursor belongs to another research"),
        );
    }
    if differs(view, stored.value.field("view").as_str()) {
        return Err(Failure::new("INVALID_REFERENCE: refinement cursor view does not match"));
    }
    if differs(repeat_mode, stored.value.field("repeatMode").as_str()) {
        return Err(
            Failure::new("INVALID_REFERENCE: refinement cursor repeatMode does not match"),
        );
    }
    if let Some(n) = limit {
        let same: bool = match stored.value.field("limit").as_u64() {
            Some(m) => m == n as u64,
            None => false,
        };
        if !same {
            return Err(
                Failure::new("INVALID_REFERENCE: refinement cursor limit does not match"),
            );
        }
    }
    Ok(())
}

/// How a continuation of refinements is asked for.
pub open spec fn asked_for(
    research: Option<&str>,
    context_id: &str,
    view: Option<&str>,
    repeat_mode: Option<&str>,
    limit: Option<usize>,
) -> AskedV {
    AskedV {
        research: json::str_of(research),
        context_id: context_id@,
        view: json::str_of(view),
        repeat_mode: json::str_of(repeat_mode),
        limit: match limit {
            Some(n) => Some(n as nat),
            None => None,
        },
    }
}

pub open spec fn invalid_field(field: Seq<char>) -> FailureV {
    message("SOURCE_CHANGED: invalid refinement cursor "@ + field)
}

/// A text that a continuation must hold.
pub open spec fn held_text(value: JsonV, field: Seq<char>) -> Option<Seq<char>> {
    match value.field(field) {
        JsonV::Text(s) => if s.len() > 0 {
            Some(s)
        } else {
            None
        },
        _ => None,
    }
}

/// A number that a continuation must hold.
pub open spec fn held_number(value: JsonV, field: Seq<char>) -> Option<nat> {
    match value.field(field).as_unsigned() {
        Some(n) => if n <= usize::MAX {
            Some(n as nat)
        } else {
            None
        },
        None => None,
    }
}

/// What a sound continuation of refinements holds.
pub struct HeldV {
    pub rows: Seq<JsonV>,
    pub offset: nat,
    pub source_truncated: bool,
    pub observed: Seq<char>,
    pub context: JsonV,
    pub shown: ShownV,
}

/// What a continuation of refinements holds, or what is wrong with it.
pub open spec fn held(value: JsonV, context_id: Seq<char>) -> Result<HeldV, FailureV> {
    match value.field("rows"@).as_array() {
        None => Err(invalid_field("rows"@)),
        Some(rows) => if rows.len() > MAX_REFINEMENT_LIMIT {
            Err(message("SOURCE_CHANGED: refinement cursor exceeds its row bound"@))
        } else {
            match held_number(value, "offset"@) {
                None => Err(invalid_field("offset"@)),
                Some(offset) => if offset >= rows.len() {
                    Err(message("INVALID_REFERENCE: refinement cursor has no remaining rows"@))
                } else {
                    match held_number(value, "limit"@) {
                        None => Err(invalid_field("limit"@)),
                        Some(limit) => match (
                            limit_problem(limit),
                            value.field("sourceTruncated"@).as_bool(),
                            held_text(value, "observedAt"@),
                            held_text(value, "view"@),
                            held_text(value, "repeatMode"@),
                            value.get("context"@),
                        ) {
                            (Some(e), _, _, _, _, _) => Err(e),
                            (_, None, _, _, _, _) => Err(invalid_field("sourceTruncated"@)),
                            (_, _, None, _, _, _) => Err(invalid_field("observedAt"@)),
                            (_, _, _, None, _, _) => Err(invalid_field("view"@)),
                            (_, _, _, _, None, _) => Err(invalid_field("repeatMode"@)),
                            (_, _, _, _, _, None) => Err(
                                message("SOURCE_CHANGED: refinement cursor has no context"@),
                            ),
                            (
                                None,
                                Some(source_truncated),
                                Some(observed),
                                Some(view),
                                Some(repeat_mode),
                                Some(context),
                            ) => if context.field("contextId"@) != JsonV::Text(context_id) {
                                Err(
                                    message(
                                        "SOURCE_CHANGED: refinement cursor context is inconsistent"@,
                                    ),
                                )
                            } else {
                                Ok(
                                    HeldV {
                                        rows,
                                        offset,
                                        source_truncated,
                                        observed,
                                        context,
                                        shown: ShownV { view, repeat_mode, limit },
                                    },
                                )
                            },
                        },
                    }
                },
            }
        },
    }
}

struct Held<'a> {
    rows: &'a Vec<Json>,
    offset: usize,
    source_truncated: bool,
    observed: &'a str,
    context: &'a Json,
    view: &'a str,
    repeat_mode: &'a str,
    limit: usize,
}

spec fn held_view(h: Held) -> HeldV {
    HeldV {
        rows: json::values(h.rows@),
        offset: h.offset as nat,
        source_truncated: h.source_truncated,
        observed: h.observed@,
        context: h.context@,
        shown: ShownV {
            view: h.view@,
            repeat_mode: h.repeat_mode@,
            limit: h.limit as nat,
        },
    }
}

fn invalid(field: &str) -> (r: Failure)
    ensures
        r@ == invalid_field(field@),
{
    Failure::Message(text::joined("SOURCE_CHANGED: invalid refinement cursor ", field))
}

fn text_in<'a>(value: &'a Json, field: &str) -> (r: Option<&'a str>)
    ensures
        json::str_of(r) == held_text(value@, field@),
{
    match value.field(field).as_str() {
        Some(s) => if text::chars_of(s).len() > 0 {
            Some(s)
        } else {
            None
        },
        None => None,
    }
}

fn number_in(value: &Json, field: &str) -> (r: Option<usize>)
    ensures
        (match r {
            Some(n) => Some(n as nat),
            None => None,
        }) == held_number(value@, field@),
{
    match value.field(field).as_u64() {
        Some(n) => if n <= usize::MAX as u64 {
            Some(n as usize)
        } else {
            None
        },
        None => None,
    }
}

fn read_held<'a>(value: &'a Json, context_id: &str) -> (r: Result<Held<'a>, Failure>)
    ensures
        match held(value@, context_id@) {
            Ok(v) => r matches Ok(h) && held_view(h) == v && v.offset < v.rows.len()
                && v.rows.len() <= 100 && 1 <= v.shown.limit <= 100,
            Err(e) => r matches Err(f) && f@ == e,
        },
{
    let rows: &Vec<Json> = match value.field("rows").as_array() {
        Some(v) => v,
        None => return Err(invalid("rows")),
    };
    if rows.len() > MAX_REFINEMENT_LIMIT {
        return Err(
            Failure::new("SOURCE_CHANGED: refinement cursor exceeds its row bound"),
        );
    }
    let offset: usize = match number_in(value, "offset") {
        Some(n) => n,
        None => return Err(invalid("offset")),
    };
    if offset >= rows.len() {
        return Err(
            Failure::new("INVALID_REFERENCE: refinement cursor has no remaining rows"),
        );
    }
    let limit: usize = match number_in(value, "limit") {
        Some(n) => n,
        None => return Err(invalid("limit")),
    };
    match validate_limit(limit) {
        Ok(_) => {},
        Err(e) => return Err(e),
    }
    let source_truncated: bool = match value.field("sourceTruncated").as_bool() {
        Some(b) => b,
        None => return Err(invalid("sourceTruncated")),
    };
    let observed: &str = match text_in(value, "observedAt") {
        Some(s) => s,
        None => return Err(invalid("observedAt")),
    };
    let view: &str = match text_in(value, "view") {
        Some(s) => s,
        None => return Err(invalid("view")),
    };
    let repeat_mode: &str = match text_in(value, "repeatMode") {
        Some(s) => s,
        None => return Err(invalid("repeatMode")),
    };
    let context: &Json = match value.get("context") {
        Some(c) => c,
        None => return Err(Failure::new("SOURCE_CHANGED: refinement cursor has no context")),
    };
    let own: bool = match context.field("contextId").as_str() {
        Some(s) => text::same(s, context_id),
        None => false,
    };
    if !own {
        return Err(
            Failure::new("SOURCE_CHANGED: refinement cursor context is inconsistent"),
        );
    }
    Ok(Held { rows, offset, source_truncated, observed, context, view, repeat_mode, limit })
}

/// A continuation that was made for some of the rows that were captured holds just that.
pub proof fn continuations_are_read_back(
    rows: Seq<JsonV>,
    offset: nat,
    source_truncated: bool,
    context: JsonV,
    observed: Seq<char>,
    shown: ShownV,
    context_id: Seq<char>,
)
    requires
        offset < rows.len() <= MAX_REFINEMENT_LIMIT,
        shown_problem(shown) is None,
        observed.len() > 0,
        context.field("contextId"@) == JsonV::Text(context_id),
    ensures
        held(
            cursor_state_of(rows, offset, source_truncated, context, observed, shown),
            context_id,
        ) == Ok::<HeldV, FailureV>(
            HeldV { rows, offset, source_truncated, observed, context, shown },
        ),
{
    broadcast use json::lemma_get_with;

    reveal_strlit("rows");
    reveal_strlit("offset");
    reveal_strlit("sourceTruncated");
    reveal_strlit("context");
    reveal_strlit("observedAt");
    reveal_strlit("view");
    reveal_strlit("repeatMode");
    reveal_strlit("limit");
    assert("rows"@[0] != "view"@[0]);
    assert("observedAt"@[0] != "repeatMode"@[0]);
    let v = cursor_state_of(rows, offset, source_truncated, context, observed, shown);
    assert(v.get("rows"@) == Some(JsonV::Array(rows)));
    assert(v.get("offset"@) == Some(JsonV::unsigned(offset as u64)));
    assert(v.get("limit"@) == Some(JsonV::unsigned(shown.limit as u64)));
    assert(v.get("sourceTruncated"@) == Some(JsonV::Bool(source_truncated)));
    assert(v.get("observedAt"@) == Some(JsonV::Text(observed)));
    assert(v.get("view"@) == Some(JsonV::Text(shown.view)));
    assert(v.get("repeatMode"@) == Some(JsonV::Text(shown.repeat_mode)));
    assert(v.get("context"@) == Some(context));
}

/// The data of a page of refinements.
pub open spec fn page_data(h: HeldV, end: nat, next: JsonV) -> JsonV {
    JsonV::object().with("items"@, JsonV::Array(Seq::empty())).with(
        "refinements"@,
        JsonV::Array(h.rows.subrange(h.offset as int, end as int)),
    ).with("refinementsIncluded"@, JsonV::Bool(true)).with(
        "refinementsTruncated"@,
        JsonV::Bool(end < h.rows.len() || h.source_truncated),
    ).with("refinementsNextCursor"@, next).with(
        "refinementsTotal"@,
        JsonV::unsigned(h.rows.len() as u64),
    ).with("refinementsSourceTruncated"@, JsonV::Bool(h.source_truncated)).with(
        "nextCursor"@,
        JsonV::Null,
    ).with("hasNext"@, JsonV::Null).with(
        "coverage"@,
        crate::search_results::coverage_of(0, 0, JsonV::Null, "unknown"@),
    )
}

/// A page of refinements shows its rows, and no items; it tells how many there are in all and how to
/// go on.
pub proof fn refinement_pages_show_their_rows(
    h: HeldV,
    end: nat,
    next: JsonV,
)
    ensures
        ({
            let shown = page_data(h, end, next);
            &&& shown is Object
            &&& shown.field("items"@) == (JsonV::Array(Seq::empty()))
            &&& shown.field("refinements"@) == (JsonV::Array(h.rows.subrange(h.offset as int, end as int)))
            &&& shown.field("refinementsIncluded"@) == (JsonV::Bool(true))
            &&& shown.field("refinementsTruncated"@) == (JsonV::Bool(end < h.rows.len() || h.source_truncated))
            &&& shown.field("refinementsNextCursor"@) == (next)
            &&& shown.field("refinementsTotal"@) == (JsonV::unsigned(h.rows.len() as u64))
            &&& shown.field("refinementsSourceTruncated"@) == (JsonV::Bool(h.source_truncated))
            &&& shown.field("nextCursor"@) == (JsonV::Null)
            &&& shown.field("hasNext"@) == (JsonV::Null)
            &&& shown.field("coverage"@) == (crate::search_results::coverage_of(0, 0, JsonV::Null, "unknown"@))
        }),
{
    broadcast use json::lemma_get_with;

    reveal_strlit("items");
    reveal_strlit("refinements");
    reveal_strlit("refinementsIncluded");
    reveal_strlit("refinementsTruncated");
    reveal_strlit("refinementsNextCursor");
    reveal_strlit("refinementsTotal");
    reveal_strlit("refinementsSourceTruncated");
    reveal_strlit("nextCursor");
    reveal_strlit("hasNext");
    reveal_strlit("coverage");
    assert("items"@.len() == 5);
    assert("refinements"@.len() == 11);
    assert("refinementsIncluded"@.len() == 19);
    assert("refinementsTruncated"@.len() == 20);
    assert("refinementsNextCursor"@.len() == 21);
    assert("refinementsTotal"@.len() == 16);
    assert("refinementsSourceTruncated"@.len() == 26);
    assert("nextCursor"@.len() == 10);
    assert("hasNext"@.len() == 7);
    assert("coverage"@.len() == 8);
}

/// What the next page of refinements is, and the ledger then.
pub open spec fn next_paged(ledger: LedgerV, stored: StoredRefV, q: AskedV) -> Result<
    (LedgerV, JsonV),
    FailureV,
> {
    match binding_problem(stored, q) {
        Some(e) => Err(e),
        None => match held(stored.value, q.context_id) {
            Err(e) => Err(e),
            Ok(h) => match page_end_of(h.rows, h.offset, h.shown.limit) {
                Err(e) => Err(e),
                Ok(end) => {
                    let more = end < h.rows.len();
                    Ok(
                        (
                            if more {
                                ledger.put(
                                    stored.research_id,
                                    "search_refinements"@,
                                    cursor_state_of(
                                        h.rows,
                                        end,
                                        h.source_truncated,
                                        h.context,
                                        h.observed,
                                        h.shown,
                                    ),
                                    Some(REFINEMENT_CURSOR_TTL_SECONDS),
                                )
                            } else {
                                ledger
                            },
                            evidence::envelope_of(
                                Some(stored.research_id),
                                page_data(
                                    h,
                                    end,
                                    if more {
                                        JsonV::Text(ledger.next_ref())
                                    } else {
                                        JsonV::Null
                                    },
                                ),
                                h.context,
                                Seq::empty(),
                                if h.source_truncated {
                                    seq![
                                        marketplace::warning_of(
                                            "REFINEMENTS_SOURCE_TRUNCATED"@,
                                            "The source truncated the captured refinement list."@,
                                            Seq::empty(),
                                        ),
                                    ]
                                } else {
                                    Seq::empty()
                                },
                                h.observed,
                            ),
                        ),
                    )
                },
            },
        },
    }
}

fn data_of(h: &Held, end: usize, next: Json) -> (r: Json)
    requires
        h.offset <= end <= h.rows@.len(),
    ensures
        r@ == page_data(held_view(*h), end as nat, next@),
{
    let none: Vec<Json> = Vec::new();
    assert(json::values(none@) =~= Seq::empty());
    let total: usize = h.rows.len();
    Json::object().with("items", Json::array(none)).with(
        "refinements",
        Json::array(copies(h.rows, h.offset, end)),
    ).with("refinementsIncluded", Json::Bool(true)).with(
        "refinementsTruncated",
        Json::Bool(end < total || h.source_truncated),
    ).with("refinementsNextCursor", next).with(
        "refinementsTotal",
        Json::unsigned(total as u64),
    ).with("refinementsSourceTruncated", Json::Bool(h.source_truncated)).with(
        "nextCursor",
        Json::Null,
    ).with("hasNext", Json::Null).with(
        "coverage",
        crate::search_results::coverage(0, 0, Json::Null, "unknown"),
    )
}

/// The next page of refinements, from the captured ones alone. A continuation answers only
/// those who ask in the context, the research and the form that it was made in.
pub fn continue_page(
    ledger: &mut Ledger,
    stored: &StoredRef,
    research: Option<&str>,
    context_id: &str,
    view: Option<&str>,
    repeat_mode: Option<&str>,
    limit: Option<usize>,
) -> (r: Result<Json, Failure>)
    requires
        old(ledger)@.valid(),
    ensures
        final(ledger)@.valid(),
        final(ledger)@.ids.take(old(ledger)@.ids.len() as int) == old(ledger)@.ids,
        match next_paged(
            old(ledger)@.supplied(final(ledger)@),
            stored@,
            asked_for(research, context_id, view, repeat_mode, limit),
        ) {
            Ok(v) => r matches Ok(j) && (final(ledger)@, j@) == v,
            Err(e) => {
                &&& r matches Err(f)
                &&& f@ == e
                &&& final(ledger)@ == old(ledger)@.supplied(final(ledger)@)
            },
        },
{
    let ghost origin = ledger@;
    ledger.stock(1, 1);
    assert(ledger@ == origin.supplied(ledger@));
    match validate_stored_binding(stored, research, context_id, view, repeat_mode, limit) {
        Ok(_) => {},
        Err(e) => return Err(e),
    }
    let h: Held = match read_held(&stored.value, context_id) {
        Ok(h) => h,
        Err(e) => return Err(e),
    };
    let end: usize = match page_end(h.rows, h.offset, h.limit) {
        Ok(n) => n,
        Err(e) => return Err(e),
    };
    let next: Json = if end < h.rows.len() {
        let state: Json = cursor_state(
            h.rows,
            end,
            h.source_truncated,
            h.context,
            h.observed,
            h.view,
            h.repeat_mode,
            h.limit,
        );
        Json::Text(
            ledger.put(
                stored.research_id.as_str(),
                "search_refinements",
                state,
                Some(REFINEMENT_CURSOR_TTL_SECONDS),
            ),
        )
    } else {
        Json::Null
    };
    let mut warnings: Vec<Json> = Vec::new();
    assert(json::values(warnings@) =~= Seq::empty());
    if h.source_truncated {
        let one: Json = marketplace::bare_warning(
            "REFINEMENTS_SOURCE_TRUNCATED",
            "The source truncated the captured refinement list.",
        );
        warnings.push(one);
        assert(json::values(warnings@) =~= seq![one@]);
    }
    let none: Vec<Json> = Vec::new();
    assert(json::values(none@) =~= Seq::empty());
    Ok(
        evidence::envelope(
            Some(stored.research_id.as_str()),
            data_of(&h, end, next),
            h.context,
            none,
            warnings,
            h.observed,
        ),
    )
}

} // verus!
