//! Which context a call is bound to.

use crate::evidence;
use crate::failure::{Failure, FailureV};
use crate::json::{self, Json, JsonV};
use crate::ledger;
use crate::service;
use crate::text;
use vstd::prelude::*;

verus! {

/// What tells one context from another.
pub open spec fn signature_of(raw: JsonV) -> JsonV {
    match raw.field("signature"@) {
        JsonV::Null => JsonV::object().with("regionLabel"@, raw.field("regionLabel"@)).with(
            "regionVerification"@,
            raw.field("regionVerification"@),
        ).with("accountState"@, raw.field("accountState"@)),
        s => s,
    }
}

/// The identifier of a context: the one that it had, while nothing tells it from then.
pub open spec fn context_id_of(raw: JsonV, previous: Option<JsonV>, fresh: Seq<char>) -> Seq<char> {
    match previous {
        Some(p) => if p.get("signature"@) == Some(signature_of(raw)) {
            match p.field("contextId"@) {
                JsonV::Text(id) => id,
                _ => "context_"@ + fresh,
            }
        } else {
            "context_"@ + fresh
        },
        None => "context_"@ + fresh,
    }
}

/// An observation under the identifier of a context.
pub open spec fn with_id(raw: JsonV, context: JsonV) -> JsonV {
    raw.with(
        "contextId"@,
        match context.get("contextId"@) {
            Some(id) => id,
            None => JsonV::Text("context-unknown"@),
        },
    )
}

pub fn with_context_id(raw: Json, context: &Json) -> (r: Json)
    ensures
        r@ == with_id(raw@, context@),
{
    let id: Json = match context.get("contextId") {
        Some(id) => id.copy(),
        None => Json::text("context-unknown"),
    };
    raw.with("contextId", id)
}

/// The context that is shown, under an identifier.
pub open spec fn bound_context(raw: JsonV, id: Seq<char>) -> JsonV {
    evidence::public_context_of(
        with_id(raw, JsonV::object().with("contextId"@, JsonV::Text(id))),
    ).with("contextId"@, JsonV::Text(id))
}

/// What is remembered of a context.
pub open spec fn remembered(raw: JsonV, id: Seq<char>) -> JsonV {
    JsonV::object().with("signature"@, signature_of(raw)).with("contextId"@, JsonV::Text(id)).with(
        "context"@,
        bound_context(raw, id),
    )
}

/// A context that is bound, and what is remembered of it.
#[derive(Debug)]
pub struct Bound {
    pub context: Json,
    pub remembered: Json,
}

/// Binds an observation to a context, given what is remembered and a fresh identifier.
pub fn bind_context_as(raw: &Json, previous: Option<&Json>, fresh: &str) -> (r: Bound)
    ensures
        r.context@ == bound_context(
            raw@,
            context_id_of(raw@, json::view_of(previous), fresh@),
        ),
        r.remembered@ == remembered(raw@, context_id_of(raw@, json::view_of(previous), fresh@)),
{
    let own: &Json = raw.field("signature");
    let signature: Json = if own.is_null() {
        Json::object().with("regionLabel", raw.field("regionLabel").copy()).with(
            "regionVerification",
            raw.field("regionVerification").copy(),
        ).with("accountState", raw.field("accountState").copy())
    } else {
        own.copy()
    };
    let kept: Option<String> = match previous {
        Some(p) => {
            let same: bool = match p.get("signature") {
                Some(s) => s.equals(&signature),
                None => false,
            };
            if same {
                match p.field("contextId").as_str() {
                    Some(id) => Some(id.to_owned()),
                    None => None,
                }
            } else {
                None
            }
        },
        None => None,
    };
    let id: String = match kept {
        Some(id) => id,
        None => text::joined("context_", fresh),
    };
    let named: Json = Json::object().with("contextId", Json::text(id.as_str()));
    let context: Json = evidence::public_context(&with_context_id(raw.copy(), &named)).with(
        "contextId",
        Json::text(id.as_str()),
    );
    let remembered: Json = Json::object().with("signature", signature).with(
        "contextId",
        Json::text(id.as_str()),
    ).with("context", context.copy());
    Bound { context, remembered }
}

/// Binds an observation to a context, given what is remembered.
pub fn bind_context(raw: &Json, previous: Option<&Json>) -> (r: Bound)
    ensures
        exists|fresh: Seq<char>|
            r.remembered@ == #[trigger] remembered(
                raw@,
                context_id_of(raw@, json::view_of(previous), fresh),
            ) && r.context@ == bound_context(
                raw@,
                context_id_of(raw@, json::view_of(previous), fresh),
            ),
{
    let fresh: String = ledger::fresh_id();
    bind_context_as(raw, previous, fresh.as_str())
}

/// While nothing tells a context from the one that is remembered, it keeps its identifier.
pub proof fn contexts_keep_their_identifier(
    raw: JsonV,
    again: JsonV,
    id: Seq<char>,
    fresh: Seq<char>,
)
    requires
        signature_of(again) == signature_of(raw),
    ensures
        context_id_of(again, Some(remembered(raw, id)), fresh) == id,
{
    broadcast use json::lemma_get_with;

    reveal_strlit("signature");
    reveal_strlit("contextId");
    reveal_strlit("context");
    assert("signature"@[0] != "contextId"@[0]);
}

/// A context that differs from the one that is remembered gets a new identifier.
pub proof fn changed_contexts_are_renamed(raw: JsonV, again: JsonV, id: Seq<char>, fresh: Seq<char>)
    requires
        signature_of(again) != signature_of(raw),
    ensures
        context_id_of(again, Some(remembered(raw, id)), fresh) == "context_"@ + fresh,
{
    broadcast use json::lemma_get_with;

    reveal_strlit("signature");
    reveal_strlit("contextId");
    reveal_strlit("context");
    assert("signature"@[0] != "contextId"@[0]);
}

/// The context that is shown while none was observed.
pub open spec fn cached_context_of(remembered: Option<JsonV>) -> JsonV {
    match remembered {
        Some(m) => match m.get("context"@) {
            Some(c) => c,
            None => unobserved_context(),
        },
        None => unobserved_context(),
    }
}

pub open spec fn unobserved_context() -> JsonV {
    JsonV::object().with("contextId"@, JsonV::Text("context_unobserved"@)).with(
        "regionLabel"@,
        JsonV::Null,
    ).with("regionVerification"@, JsonV::Text("unverified"@)).with(
        "accountState"@,
        JsonV::Text("unknown"@),
    ).with("accessState"@, JsonV::Text("unknown"@))
}

/// A context that was not observed claims nothing.
pub proof fn unobserved_contexts_claim_nothing(
)
    ensures
        ({
            let shown = unobserved_context();
            &&& shown is Object
            &&& shown.field("contextId"@) == (JsonV::Text("context_unobserved"@))
            &&& shown.field("regionLabel"@) == (JsonV::Null)
            &&& shown.field("regionVerification"@) == (JsonV::Text("unverified"@))
            &&& shown.field("accountState"@) == (JsonV::Text("unknown"@))
            &&& shown.field("accessState"@) == (JsonV::Text("unknown"@))
        }),
{
    broadcast use json::lemma_get_with;

    reveal_strlit("contextId");
    reveal_strlit("regionLabel");
    reveal_strlit("regionVerification");
    reveal_strlit("accountState");
    reveal_strlit("accessState");
    assert("contextId"@.len() == 9);
    assert("regionLabel"@.len() == 11);
    assert("regionVerification"@.len() == 18);
    assert("accountState"@.len() == 12);
    assert("accessState"@.len() == 11);
    assert("regionLabel"@[0] == 'r');
    assert("accessState"@[0] == 'a');
}

pub fn cached_context(remembered: Option<&Json>) -> (r: Json)
    ensures
        r@ == cached_context_of(json::view_of(remembered)),
{
    let known: Option<&Json> = match remembered {
        Some(m) => m.get("context"),
        None => None,
    };
    match known {
        Some(c) => c.copy(),
        None => Json::object().with("contextId", Json::text("context_unobserved")).with(
            "regionLabel",
            Json::Null,
        ).with("regionVerification", Json::text("unverified")).with(
            "accountState",
            Json::text("unknown"),
        ).with("accessState", Json::text("unknown")),
    }
}

/// What is wrong with the context that is found at the end of an operation.
pub open spec fn context_problem(current: JsonV, expected: Seq<char>) -> Option<FailureV> {
    match service::required(current, "contextId"@) {
        Err(e) => Some(e),
        Ok(id) => if id == expected {
            None
        } else {
            Some(
                FailureV::Message(
                    "CONTEXT_CHANGED: marketplace context changed during the operation"@,
                ),
            )
        },
    }
}

/// Holds the context at the end of an operation to the one at its start.
pub fn confirm_context(current: &Json, expected: &str) -> (r: Result<(), Failure>)
    ensures
        service::problem(r) == context_problem(current@, expected@),
{
    match service::required_text(current, "contextId") {
        Err(e) => Err(e),
        Ok(id) => if text::same(id, expected) {
            Ok(())
        } else {
            Err(
                Failure::new("CONTEXT_CHANGED: marketplace context changed during the operation"),
            )
        },
    }
}

} // verus!
