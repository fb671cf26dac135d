//! What the pages of captured refinements add up to.

use crate::failure::FailureV;
use crate::json::{self, JsonV};
use crate::ledger::{LedgerV, RefWriteV, StoredRefV};
use crate::marketplace;
use crate::product_laws;
use crate::refinements::{self, AskedV, ShownV};
use vstd::prelude::*;

verus! {

/// A search that shows the first page of its refinements.
pub struct FirstCallV {
    pub ledger: LedgerV,
    pub research_id: Seq<char>,
    pub data: JsonV,
    pub context: JsonV,
    pub observed: Seq<char>,
    pub shown: ShownV,
}

impl FirstCallV {
    #[verifier::opaque]
    pub open spec fn made(self) -> Result<(LedgerV, JsonV), FailureV> {
        refinements::first_paged(
            self.ledger,
            self.research_id,
            self.data,
            self.context,
            self.observed,
            self.shown,
        )
    }

    /// The data that the search shows.
    pub open spec fn page(self) -> JsonV {
        self.made()->Ok_0.1
    }

    /// The refinements that are captured.
    pub open spec fn rows(self) -> Seq<JsonV> {
        marketplace::first_values(
            self.data.field("refinements"@).elements(),
            refinements::MAX_REFINEMENT_LIMIT as int,
        )
    }
}

/// A call that continues refinements.
pub struct NextCallV {
    pub ledger: LedgerV,
    pub stored: StoredRefV,
    pub asked: AskedV,
}

impl NextCallV {
    #[verifier::opaque]
    pub open spec fn made(self) -> Result<(LedgerV, JsonV), FailureV> {
        refinements::next_paged(self.ledger, self.stored, self.asked)
    }

    /// The data that the call shows.
    pub open spec fn page(self) -> JsonV {
        self.made()->Ok_0.1.field("data"@)
    }
}

/// The refinements that a page shows.
pub open spec fn page_rows(page: JsonV) -> Seq<JsonV> {
    page.field("refinements"@).elements()
}

/// Whether what a call reads is what was stored under the continuation that a page handed
/// out: the last reference of the ledger after that page.
pub open spec fn follows(page: JsonV, after: LedgerV, c: NextCallV) -> bool {
    let w: RefWriteV = after.writes.last();
    &&& page.field("refinementsNextCursor"@) == JsonV::Text(w.id)
    &&& c.stored.value == w.value
    &&& c.stored.research_id == w.research_id
}

/// A search and the calls that continue its refinements, to their end.
pub open spec fn is_chain(first: FirstCallV, rest: Seq<NextCallV>) -> bool {
    &&& first.made() is Ok
    &&& forall|i: int| 0 <= i < rest.len() ==> (#[trigger] rest[i]).made() is Ok
    &&& rest.len() > 0 ==> follows(first.page(), first.made()->Ok_0.0, rest[0])
    &&& forall|i: int|
        1 <= i < rest.len() ==> follows(
            rest[i - 1].page(),
            rest[i - 1].made()->Ok_0.0,
            #[trigger] rest[i],
        )
    &&& last_page(first, rest).field("refinementsNextCursor"@) == JsonV::Null
}

/// The page that a chain ends with.
pub open spec fn last_page(first: FirstCallV, rest: Seq<NextCallV>) -> JsonV {
    if rest.len() == 0 {
        first.page()
    } else {
        rest.last().page()
    }
}

/// The pages of a chain, one after the other.
pub open spec fn pages_of(first: FirstCallV, rest: Seq<NextCallV>) -> Seq<Seq<JsonV>> {
    Seq::new(
        rest.len() + 1,
        |i: int|
            if i == 0 {
                page_rows(first.page())
            } else {
                page_rows(rest[i - 1].page())
            },
    )
}

/// The state that a continuation of captured refinements holds.
spec fn state(first: FirstCallV, offset: nat) -> JsonV {
    refinements::cursor_state_of(
        first.rows(),
        offset,
        first.data.field("refinementsTruncated"@) == JsonV::Bool(true)
            || first.data.field("refinements"@).elements().len()
            > refinements::MAX_REFINEMENT_LIMIT,
        first.context,
        first.observed,
        first.shown,
    )
}

proof fn lemma_page_keys()
    ensures
        "refinementsNextCursor"@ != "refinements"@,
        "refinementsNextCursor"@ != "refinementsTotal"@,
        "refinementsNextCursor"@ != "refinementsSourceTruncated"@,
        "refinementsNextCursor"@ != "refinementsTruncated"@,
        "refinementsNextCursor"@ != "nextCursor"@,
        "refinementsNextCursor"@ != "hasNext"@,
        "refinementsNextCursor"@ != "coverage"@,
        "refinements"@ != "refinementsTotal"@,
        "refinements"@ != "refinementsSourceTruncated"@,
        "refinements"@ != "refinementsTruncated"@,
        "refinements"@ != "refinementsIncluded"@,
        "refinements"@ != "nextCursor"@,
        "refinements"@ != "hasNext"@,
        "refinements"@ != "coverage"@,
        "data"@ != "context"@,
        "context"@ != "observedAt"@,
        "context"@ != "evidence"@,
        "context"@ != "warnings"@,
        "data"@ != "observedAt"@,
        "data"@ != "evidence"@,
        "data"@ != "warnings"@,
        "observedAt"@ != "evidence"@,
        "observedAt"@ != "warnings"@,
{
    reveal_strlit("refinements");
    reveal_strlit("refinementsNextCursor");
    reveal_strlit("refinementsTotal");
    reveal_strlit("refinementsSourceTruncated");
    reveal_strlit("refinementsTruncated");
    reveal_strlit("refinementsIncluded");
    reveal_strlit("nextCursor");
    reveal_strlit("hasNext");
    reveal_strlit("coverage");
    reveal_strlit("data");
    reveal_strlit("context");
    reveal_strlit("observedAt");
    reveal_strlit("evidence");
    reveal_strlit("warnings");
    assert("refinements"@.len() == 11 && "refinementsNextCursor"@.len() == 21);
    assert("refinementsTotal"@.len() == 16 && "refinementsSourceTruncated"@.len() == 26);
    assert("refinementsTruncated"@.len() == 20 && "refinementsIncluded"@.len() == 19);
    assert("nextCursor"@.len() == 10 && "hasNext"@.len() == 7 && "coverage"@.len() == 8);
    assert("data"@.len() == 4 && "context"@.len() == 7 && "observedAt"@.len() == 10);
    assert("evidence"@.len() == 8 && "warnings"@.len() == 8);
}

/// What the first page shows, and where the rest goes on.
proof fn lemma_first(first: FirstCallV) -> (end: nat)
    requires
        first.made() is Ok,
    ensures
        end <= first.rows().len(),
        page_rows(first.page()) == first.rows().take(end as int),
        first.page().field("refinementsNextCursor"@) == JsonV::Null ==> end == first.rows().len(),
        first.page().field("refinementsNextCursor"@) is Text ==> {
            &&& end < first.rows().len()
            &&& first.made()->Ok_0.0.writes.last().value == state(first, end)
        },
        0 < first.shown.limit <= refinements::MAX_REFINEMENT_LIMIT,
        page_rows(first.page()).len() <= first.shown.limit,
{
    broadcast use json::lemma_get_with;

    lemma_page_keys();
    reveal(FirstCallV::made);
    let rows = first.rows();
    let end = refinements::page_end_of(rows, 0, first.shown.limit)->Ok_0;
    if rows.len() > 0 {
        refinements::pages_are_bounded(rows, 0, first.shown.limit);
    } else {
        assert(end == 0);
    }
    assert(rows.subrange(0, end as int) =~= rows.take(end as int));
    end
}

/// What a continuation holds is what it was made with.
proof fn lemma_held(first: FirstCallV, offset: nat, context_id: Seq<char>)
    requires
        offset < first.rows().len(),
        first.shown.limit <= refinements::MAX_REFINEMENT_LIMIT,
        refinements::held(state(first, offset), context_id) is Ok,
    ensures
        ({
            let h = refinements::held(state(first, offset), context_id)->Ok_0;
            &&& h.rows == first.rows()
            &&& h.offset == offset
            &&& h.shown.limit == first.shown.limit
            &&& h.shown.limit > 0
            &&& h.observed == first.observed
            &&& refinements::cursor_state_of(
                h.rows,
                offset,
                h.source_truncated,
                h.context,
                h.observed,
                h.shown,
            ) == state(first, offset)
            &&& forall|end: nat|
                #[trigger] refinements::cursor_state_of(
                    h.rows,
                    end,
                    h.source_truncated,
                    h.context,
                    h.observed,
                    h.shown,
                ) == state(first, end)
        }),
{
    broadcast use json::lemma_get_with;

    reveal_strlit("rows");
    reveal_strlit("offset");
    reveal_strlit("sourceTruncated");
    reveal_strlit("context");
    reveal_strlit("observedAt");
    reveal_strlit("view");
    reveal_strlit("repeatMode");
    reveal_strlit("limit");
    assert("rows"@[0] != "view"@[0]);
    assert("observedAt"@[0] != "repeatMode"@[0]);
    let v = state(first, offset);
    assert(v.get("rows"@) == Some(JsonV::Array(first.rows())));
    assert(v.get("offset"@) == Some(JsonV::unsigned(offset as u64)));
    assert(v.get("limit"@) == Some(JsonV::unsigned(first.shown.limit as u64)));
    assert(v.get("sourceTruncated"@) is Some);
    assert(v.get("observedAt"@) == Some(JsonV::Text(first.observed)));
    assert(v.get("view"@) == Some(JsonV::Text(first.shown.view)));
    assert(v.get("repeatMode"@) == Some(JsonV::Text(first.shown.repeat_mode)));
    assert(v.get("context"@) == Some(first.context));
    let h = refinements::held(v, context_id)->Ok_0;
    assert(h.context == first.context && h.observed == first.observed);
    assert(h.shown.view == first.shown.view && h.shown.repeat_mode == first.shown.repeat_mode);
    assert(h.shown.limit as u64 == first.shown.limit as u64);
}

/// What a continued page shows, and where the rest goes on.
proof fn lemma_next(first: FirstCallV, offset: nat, c: NextCallV) -> (end: nat)
    requires
        first.made() is Ok,
        offset < first.rows().len(),
        c.stored.value == state(first, offset),
        c.made() is Ok,
    ensures
        offset < end <= first.rows().len(),
        page_rows(c.page()) == first.rows().subrange(offset as int, end as int),
        page_rows(c.page()).len() <= first.shown.limit,
        c.page().field("refinementsNextCursor"@) == JsonV::Null ==> end == first.rows().len(),
        c.page().field("refinementsNextCursor"@) is Text ==> {
            &&& end < first.rows().len()
            &&& c.made()->Ok_0.0.writes.last().value == state(first, end)
        },
        c.made()->Ok_0.1.field("observedAt"@) == JsonV::Text(first.observed),
{
    broadcast use json::lemma_get_with;

    lemma_page_keys();
    reveal(NextCallV::made);
    reveal(FirstCallV::made);
    lemma_held(first, offset, c.asked.context_id);
    let h = refinements::held(c.stored.value, c.asked.context_id)->Ok_0;
    refinements::pages_are_bounded(h.rows, h.offset, h.shown.limit);
    let end = refinements::page_end_of(h.rows, h.offset, h.shown.limit)->Ok_0;
    assert(c.page().field("refinements"@) == JsonV::Array(
        h.rows.subrange(offset as int, end as int),
    ));
    assert(refinements::cursor_state_of(
        h.rows,
        end,
        h.source_truncated,
        h.context,
        h.observed,
        h.shown,
    ) == state(first, end));
    end
}

/// What the pages of a chain have shown after some of them.
proof fn lemma_so_far(first: FirstCallV, rest: Seq<NextCallV>, n: nat) -> (end: nat)
    requires
        first.made() is Ok,
        n <= rest.len(),
        forall|i: int| 0 <= i < rest.len() ==> (#[trigger] rest[i]).made() is Ok,
        rest.len() > 0 ==> follows(first.page(), first.made()->Ok_0.0, rest[0]),
        forall|i: int|
            1 <= i < rest.len() ==> follows(
                rest[i - 1].page(),
                rest[i - 1].made()->Ok_0.0,
                #[trigger] rest[i],
            ),
    ensures
        end <= first.rows().len(),
        product_laws::all_of(pages_of(first, rest).take((n + 1) as int)) == first.rows().take(end as int),
        ({
            let page = if n == 0 {
                first.page()
            } else {
                rest[n - 1].page()
            };
            let after = if n == 0 {
                first.made()->Ok_0.0
            } else {
                rest[n - 1].made()->Ok_0.0
            };
            &&& page.field("refinementsNextCursor"@) == JsonV::Null ==> end == first.rows().len()
            &&& page.field("refinementsNextCursor"@) is Text ==> {
                &&& end < first.rows().len()
                &&& after.writes.last().value == state(first, end)
            }
        }),
        forall|i: int|
            0 <= i < n ==> (#[trigger] rest[i]).made()->Ok_0.1.field("observedAt"@) == JsonV::Text(
                first.observed,
            ),
        forall|i: int|
            0 <= i <= n ==> (#[trigger] pages_of(first, rest)[i]).len() <= first.shown.limit,
    decreases n,
{
    let pages = pages_of(first, rest);
    if n == 0 {
        let end = lemma_first(first);
        assert(pages.take(1).drop_last() =~= Seq::empty());
        assert(product_laws::all_of(Seq::<Seq<JsonV>>::empty()) =~= Seq::empty());
        assert(product_laws::all_of(pages.take(1)) =~= first.rows().take(end as int));
        end
    } else {
        let before = lemma_so_far(first, rest, (n - 1) as nat);
        let c = rest[n - 1];
        assert(c.made() is Ok);
        let end = lemma_next(first, before, c);
        assert(pages.take((n + 1) as int).drop_last() =~= pages.take(n as int));
        assert(pages.take((n + 1) as int).last() == page_rows(c.page()));
        assert(product_laws::all_of(pages.take((n + 1) as int)) =~= first.rows().take(end as int));
        end
    }
}

/// The first page of the refinements of a search and the pages that continue it show every
/// refinement that was captured once, in order, no more on a page than the limit, and all of
/// them as observed at one time.
pub proof fn refinements_are_shown_once(first: FirstCallV, rest: Seq<NextCallV>)
    requires
        is_chain(first, rest),
    ensures
        product_laws::all_of(pages_of(first, rest)) == first.rows(),
        forall|i: int|
            0 <= i < pages_of(first, rest).len() ==> (#[trigger] pages_of(first, rest)[i]).len()
                <= first.shown.limit,
        forall|i: int|
            0 <= i < rest.len() ==> (#[trigger] rest[i]).made()->Ok_0.1.field("observedAt"@)
                == JsonV::Text(first.observed),
{
    let pages = pages_of(first, rest);
    let end = lemma_so_far(first, rest, rest.len());
    assert(pages.take((rest.len() + 1) as int) =~= pages);
    assert(first.rows().take(first.rows().len() as int) =~= first.rows());
}

/// A continuation that is asked for again shows the same refinements again, of the same context
/// and time.
pub proof fn replays_show_the_same_rows(one: NextCallV, other: NextCallV)
    requires
        one.stored == other.stored,
        one.asked == other.asked,
    ensures
        one.made() is Ok == other.made() is Ok,
        one.made() is Ok ==> page_rows(one.page()) == page_rows(other.page()),
        one.made() is Ok ==> one.made()->Ok_0.1.field("context"@) == other.made()->Ok_0.1.field(
            "context"@,
        ),
        one.made() is Ok ==> one.made()->Ok_0.1.field("observedAt"@)
            == other.made()->Ok_0.1.field("observedAt"@),
        one.made() is Err ==> one.made() == other.made(),
{
    broadcast use json::lemma_get_with;

    lemma_page_keys();
    reveal(NextCallV::made);
}

/// A continuation that was handed out answers everyone who asks in the context and in the
/// form that it was made in, where the next row fits a page.
pub proof fn matching_requests_are_answered(
    first: FirstCallV,
    offset: nat,
    truncated: bool,
    c: NextCallV,
)
    requires
        first.made() is Ok,
        first.observed.len() > 0,
        first.context.field("contextId"@) == JsonV::Text(c.asked.context_id),
        offset < first.rows().len(),
        refinements::page_end_of(first.rows(), offset, first.shown.limit) is Ok,
        c.stored.value == refinements::cursor_state_of(
            first.rows(),
            offset,
            truncated,
            first.context,
            first.observed,
            first.shown,
        ),
        c.stored.context_id == c.asked.context_id,
        c.asked.research is Some ==> c.asked.research == Some(c.stored.research_id),
        c.asked.view is Some ==> c.asked.view == Some(first.shown.view),
        c.asked.repeat_mode is Some ==> c.asked.repeat_mode == Some(first.shown.repeat_mode),
        c.asked.limit is Some ==> c.asked.limit == Some(first.shown.limit),
    ensures
        c.made() is Ok,
{
    broadcast use json::lemma_get_with;

    reveal_strlit("rows");
    reveal_strlit("offset");
    reveal_strlit("sourceTruncated");
    reveal_strlit("context");
    reveal_strlit("observedAt");
    reveal_strlit("view");
    reveal_strlit("repeatMode");
    reveal_strlit("limit");
    assert("rows"@[0] != "view"@[0]);
    assert("observedAt"@[0] != "repeatMode"@[0]);
    reveal(NextCallV::made);
    reveal(FirstCallV::made);
    let v = c.stored.value;
    assert(v.get("view"@) == Some(JsonV::Text(first.shown.view)));
    assert(v.get("repeatMode"@) == Some(JsonV::Text(first.shown.repeat_mode)));
    assert(v.get("limit"@) == Some(JsonV::unsigned(first.shown.limit as u64)));
    refinements::continuations_are_read_back(
        first.rows(),
        offset,
        truncated,
        first.context,
        first.observed,
        first.shown,
        c.asked.context_id,
    );
}

} // verus!
