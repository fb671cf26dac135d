//! What holds of every answer of the service.

use crate::contracts;
use crate::evidence;
use crate::failure::FailureV;
use crate::gateway::ObservationsV;
use crate::json::{self, JsonV};
use crate::response;
use crate::review_pages::{self, PlanV, ReviewRequestV};
use crate::search_results;
use crate::service;
use crate::text;
use vstd::prelude::*;

verus! {

/// Whether no two members of an object have the same key.
pub open spec fn keys_differ(j: JsonV) -> bool {
    j matches JsonV::Object(m) ==> forall|a: int, b: int|
        0 <= a < b < m.len() ==> (#[trigger] m[a]).0 != (#[trigger] m[b]).0
}

proof fn lemma_absent(m: Seq<(Seq<char>, JsonV)>, key: Seq<char>)
    requires
        forall|i: int| 0 <= i < m.len() ==> (#[trigger] m[i]).0 != key,
    ensures
        json::lookup(m, key) is None,
    decreases m.len(),
{
    if m.len() > 0 {
        let rest = m.drop_first();
        assert forall|i: int| 0 <= i < rest.len() implies (#[trigger] rest[i]).0 != key by {
            assert(rest[i] == m[i + 1]);
        }
        lemma_absent(rest, key);
        assert(m[0].0 != key);
    }
}

proof fn lemma_dropped(m: Seq<(Seq<char>, JsonV)>, key: Seq<char>)
    requires
        forall|a: int, b: int|
            0 <= a < b < m.len() ==> (#[trigger] m[a]).0 != (#[trigger] m[b]).0,
    ensures
        forall|i: int|
            0 <= i < json::dropped(m, key).len() ==> (#[trigger] json::dropped(m, key)[i]).0 != key,
    decreases m.len(),
{
    if m.len() > 0 {
        let rest = m.drop_first();
        assert forall|a: int, b: int| 0 <= a < b < rest.len() implies (#[trigger] rest[a]).0 != (
        #[trigger] rest[b]).0 by {
            assert(rest[a] == m[a + 1] && rest[b] == m[b + 1]);
        }
        if m[0].0 == key {
            assert forall|i: int| 0 <= i < rest.len() implies (#[trigger] rest[i]).0 != key by {
                assert(rest[i] == m[i + 1]);
                assert(m[0].0 != m[i + 1].0);
            }
        } else {
            lemma_dropped(rest, key);
            let d = json::dropped(m, key);
            assert forall|i: int| 0 <= i < d.len() implies (#[trigger] d[i]).0 != key by {
                if i > 0 {
                    assert(d[i] == json::dropped(rest, key)[i - 1]);
                }
            }
        }
    }
}

/// An answer shows its evidence in order and whole, but for the facts, which stay in the
/// research.
pub proof fn answers_hide_the_facts(
    research_id: Option<Seq<char>>,
    data: JsonV,
    context: JsonV,
    found: Seq<JsonV>,
    warnings: Seq<JsonV>,
    observed_at: Seq<char>,
    i: int,
    key: Seq<char>,
)
    requires
        0 <= i < found.len(),
        keys_differ(found[i]),
        key != "facts"@,
    ensures
        ({
            let shown = evidence::envelope_of(
                research_id,
                data,
                context,
                found,
                warnings,
                observed_at,
            ).field("evidence"@).elements();
            &&& shown.len() == found.len()
            &&& shown[i].get("facts"@) is None
            &&& shown[i].get(key) == found[i].get(key)
        }),
{
    broadcast use json::lemma_get_with;
    broadcast use json::lemma_get_without;

    reveal_strlit("schemaVersion");
    reveal_strlit("researchId");
    reveal_strlit("data");
    reveal_strlit("context");
    reveal_strlit("observedAt");
    reveal_strlit("evidence");
    reveal_strlit("warnings");
    assert("evidence"@[0] != "warnings"@[0]);
    let shown = evidence::envelope_of(research_id, data, context, found, warnings, observed_at);
    assert(shown.get("evidence"@) == Some(JsonV::Array(evidence::without_facts(found))));
    if let JsonV::Object(m) = found[i] {
        lemma_dropped(m, "facts"@);
        lemma_absent(json::dropped(m, "facts"@), "facts"@);
    }
}

/// Image content that was observed in one context is not reported of another.
pub proof fn contexts_share_no_image_content(o: ObservationsV, signature: JsonV)
    ensures
        o.context_signature matches Some(known) && known != signature ==> !o.signed(
            signature,
        ).observed.image_content,
        o.context_signature == Some(signature) ==> o.signed(signature).observed.image_content
            == o.observed.image_content,
        o.signed(signature).context_signature == Some(signature),
{
}

/// A value that fits an answer is handed out as it is; nothing of it is cut off.
pub proof fn bounded_values_are_whole(value: JsonV)
    ensures
        response::bounded(value) matches Ok(shown) ==> shown == value && text::utf16_len(
            json::json_text(shown),
        ) <= response::MAX_RESULT_UNITS,
{
}

/// A result that is shown fits an answer and keeps the contract of its tool.
pub proof fn shown_results_keep_their_contract(
    known: Seq<contracts::ContractV>,
    name: Seq<char>,
    value: JsonV,
)
    requires
        service::result_problem(known, name, value) is None,
    ensures
        text::utf16_len(json::json_text(value)) <= service::MAX_JSON_UTF16,
        contracts::contract_named(known, name, 0) matches Some(c) && contracts::output_problem(
            contracts::violation_of(c.output, value),
        ) is None,
{
}

/// What continues a stored answer is presented as that answer was: a call that asks for
/// another view is refused, and any other gets the view that is stored.
pub proof fn continuations_keep_their_view(name: Seq<char>, args: JsonV, value: JsonV)
    requires
        name == "ozon_search"@ || name == "ozon_get_reviews"@,
        args is Object,
        !(service::binding_of(name, args, value).field("view"@) is Null),
    ensures
        service::presentation_of(name, args, Some(value)) matches Ok(bound) ==> bound.get("view"@)
            == Some(service::binding_of(name, args, value).field("view"@)),
        args.get("view"@) matches Some(given) && given != service::binding_of(
            name,
            args,
            value,
        ).field("view"@) ==> service::presentation_of(name, args, Some(value)) == Err::<
            JsonV,
            FailureV,
        >(
            FailureV::Message("INVALID_ARGUMENT: continuation presentation cannot be changed"@),
        ),
{
    broadcast use json::lemma_get_with;

    reveal_strlit("ozon_search");
    reveal_strlit("ozon_get_reviews");
    reveal_strlit("ozon_get_products");
    reveal_strlit("view");
    reveal_strlit("includeFacets");
    reveal_strlit("repeatMode");
    reveal_strlit("refinementLimit");
    let binding = service::binding_of(name, args, value);
    assert(name != "ozon_get_products"@) by {
        assert("ozon_get_products"@.len() == 17 && "ozon_get_reviews"@.len() == 16
            && "ozon_search"@.len() == 11);
    }
    assert(service::presentation_of(name, args, Some(value)) == match service::all_bound(
        name,
        args,
        binding,
    ) {
        Ok(bound) => Ok(service::with_defaults(name, bound)),
        Err(e) => Err(e),
    });
    if let Ok(viewed) = service::bound_to(args, binding, "view"@) {
        let second = if name == "ozon_get_reviews"@ {
            "includeFacets"@
        } else {
            "repeatMode"@
        };
        assert(viewed.get("view"@) == Some(binding.field("view"@)));
        if let Ok(both) = service::bound_to(viewed, binding, second) {
            assert(both.get("view"@) == Some(binding.field("view"@)));
            if let Ok(limited) = service::limited_to(both, binding) {
                assert(limited.get("view"@) == Some(binding.field("view"@)));
                lemma_defaults(name, limited);
            }
        }
    }
}

proof fn lemma_defaults(name: Seq<char>, args: JsonV)
    requires
        args is Object,
        args.get("view"@) is Some,
    ensures
        service::with_defaults(name, args).get("view"@) == args.get("view"@),
{
    broadcast use json::lemma_get_with;

    reveal_strlit("view");
    reveal_strlit("repeatMode");
    reveal_strlit("includeFacets");
    reveal_strlit("refinementLimit");
}

/// A continuation under which the presentation of a call is stored binds the calls that use
/// it to the view of that call: one that asks for another view is refused, and any other is
/// shown in the view of that call.
pub proof fn stored_presentations_bind(
    name: Seq<char>,
    first: JsonV,
    next: JsonV,
    value: JsonV,
)
    requires
        name == "ozon_search"@ || name == "ozon_get_reviews"@,
        !(first.field("view"@) is Null),
        value.field("presentation"@) == service::presentation_binding_of(first),
        next is Object,
        next.field("start"@).field("cursor"@) is Text,
    ensures
        service::presentation_of(name, next, Some(value)) matches Ok(bound) ==> bound.get("view"@)
            == Some(first.field("view"@)),
        next.get("view"@) is Some && next.get("view"@) != Some(first.field("view"@))
            ==> service::presentation_of(name, next, Some(value)) == Err::<JsonV, FailureV>(
            FailureV::Message("INVALID_ARGUMENT: continuation presentation cannot be changed"@),
        ),
{
    broadcast use json::lemma_get_with;

    reveal_strlit("view");
    reveal_strlit("includeFacets");
    reveal_strlit("repeatMode");
    assert("view"@.len() == 4 && "includeFacets"@.len() == 13 && "repeatMode"@.len() == 10);
    assert(service::presentation_binding_of(first).field("view"@) == first.field("view"@));
    continuations_keep_their_view(name, next, value);
}

/// What a search stores to be continued binds the view of its continuations to its own.
pub proof fn search_cursors_bind_the_view(
    cursor: Seq<char>,
    raw: JsonV,
    first: JsonV,
    next: JsonV,
)
    requires
        raw is Object,
        !(first.field("view"@) is Null),
        next is Object,
        next.field("start"@).field("cursor"@) is Text,
    ensures
        ({
            let value = search_results::search_cursor_value(
                cursor,
                raw.with("_presentation"@, service::presentation_binding_of(first)),
            );
            &&& service::presentation_of("ozon_search"@, next, Some(value)) matches Ok(bound)
                ==> bound.get("view"@) == Some(first.field("view"@))
            &&& next.get("view"@) is Some && next.get("view"@) != Some(first.field("view"@))
                ==> service::presentation_of("ozon_search"@, next, Some(value)) == Err::<
                JsonV,
                FailureV,
            >(
                FailureV::Message(
                    "INVALID_ARGUMENT: continuation presentation cannot be changed"@,
                ),
            )
        }),
{
    broadcast use json::lemma_get_with;

    let value = search_results::search_cursor_value(
        cursor,
        raw.with("_presentation"@, service::presentation_binding_of(first)),
    );
    stored_presentations_bind("ozon_search"@, first, next, value);
}

/// What a page of reviews stores to be continued binds the view of its continuations to its
/// own, whether the page is used up or not.
pub proof fn review_cursors_bind_the_view(
    raw: JsonV,
    path: Seq<char>,
    plan: PlanV,
    seen_ref: Option<Seq<char>>,
    observed: Seq<char>,
    q: ReviewRequestV,
    first: JsonV,
    next: JsonV,
)
    requires
        raw is Object,
        !(first.field("view"@) is Null),
        next is Object,
        next.field("start"@).field("cursor"@) is Text,
    ensures
        ({
            let own = raw.with("_presentation"@, service::presentation_binding_of(first));
            let refused = Err::<JsonV, FailureV>(
                FailureV::Message(
                    "INVALID_ARGUMENT: continuation presentation cannot be changed"@,
                ),
            );
            let cached = service::presentation_of(
                "ozon_get_reviews"@,
                next,
                Some(review_pages::cached_review_cursor(own, plan, seen_ref, observed, q)),
            );
            let used_up = service::presentation_of(
                "ozon_get_reviews"@,
                next,
                Some(review_pages::next_review_cursor(own, path, plan, seen_ref, q)),
            );
            &&& cached matches Ok(bound) ==> bound.get("view"@) == Some(first.field("view"@))
            &&& used_up matches Ok(bound) ==> bound.get("view"@) == Some(first.field("view"@))
            &&& next.get("view"@) is Some && next.get("view"@) != Some(first.field("view"@)) ==> cached
                == refused && used_up == refused
        }),
{
    broadcast use json::lemma_get_with;

    reveal_strlit("presentation");
    reveal_strlit("cachedRaw");
    reveal_strlit("capturedAt");
    reveal_strlit("contextId");
    reveal_strlit("path");
    assert("presentation"@.len() == 12 && "cachedRaw"@.len() == 9 && "capturedAt"@.len() == 10);
    assert("contextId"@.len() == 9 && "path"@.len() == 4);
    let own = raw.with("_presentation"@, service::presentation_binding_of(first));
    stored_presentations_bind(
        "ozon_get_reviews"@,
        first,
        next,
        review_pages::cached_review_cursor(own, plan, seen_ref, observed, q),
    );
    stored_presentations_bind(
        "ozon_get_reviews"@,
        first,
        next,
        review_pages::next_review_cursor(own, path, plan, seen_ref, q),
    );
}

} // verus!
