//! The marketplace context as public data.

use crate::evidence;
use crate::json::{self, Json, JsonV};
use crate::ledger;
use crate::marketplace::{self, Normalized, NormalizedV};
use crate::text;
use crate::widgets;
use vstd::prelude::*;

verus! {

/// The capabilities, each by its name and by the key that older sources use.
pub open spec fn capability_names() -> Seq<(Seq<char>, Seq<char>)> {
    seq![
        ("search"@, "search"@),
        ("search_refinements"@, "searchRefinements"@),
        ("search_pagination"@, "searchPagination"@),
        ("card_prices"@, "cardPrices"@),
        ("products"@, "products"@),
        ("characteristics"@, "characteristics"@),
        ("description"@, "description"@),
        ("variants"@, "variants"@),
        ("offers"@, "offers"@),
        ("review_text"@, "reviewText"@),
        ("review_refinements"@, "reviewRefinements"@),
        ("review_pagination"@, "reviewPagination"@),
        ("review_images"@, "reviewImages"@),
        ("product_images"@, "productImages"@),
        ("image_content"@, "imageContent"@),
        ("region_verification"@, "regionVerification"@),
        ("account_observation"@, "accountObservation"@),
    ]
}

pub open spec fn capability_states() -> Seq<Seq<char>> {
    seq!["available"@, "unsupported"@, "unverified"@]
}

/// A state that is known; else `unverified`.
pub open spec fn known_state(v: JsonV) -> Seq<char> {
    match v {
        JsonV::Text(s) => if capability_states().contains(s) {
            s
        } else {
            "unverified"@
        },
        _ => "unverified"@,
    }
}

/// What a source reports of a capability: its state and the reason for it.
pub open spec fn reported(v: Option<JsonV>) -> (Seq<char>, JsonV) {
    match v {
        Some(JsonV::Text(s)) => (known_state(JsonV::Text(s)), JsonV::Null),
        Some(JsonV::Object(m)) => (
            known_state(JsonV::Object(m).field("status"@)),
            JsonV::Object(m).field("reason"@),
        ),
        _ => ("unverified"@, JsonV::Text("Capability was not reported by the source."@)),
    }
}

/// A capability: every one that is not available has a reason.
pub open spec fn capability_of(capabilities: JsonV, name: Seq<char>, key: Seq<char>) -> JsonV {
    let said = reported(
        match capabilities.get(name) {
            Some(v) => Some(v),
            None => capabilities.get(key),
        },
    );
    let reason = if said.1 is Null && said.0 != "available"@ {
        if said.0 == "unsupported"@ {
            JsonV::Text("The source does not expose this capability."@)
        } else {
            JsonV::Text("The capability has not yet been verified in this context."@)
        }
    } else {
        said.1
    };
    JsonV::object().with("name"@, JsonV::Text(name)).with("status"@, JsonV::Text(said.0)).with(
        "reason"@,
        reason,
    )
}

/// All capabilities.
pub open spec fn registry_of(capabilities: JsonV) -> Seq<JsonV> {
    Seq::new(
        capability_names().len(),
        |i: int|
            capability_of(capabilities, capability_names()[i].0, capability_names()[i].1),
    )
}

fn state(v: &Json) -> (r: String)
    ensures
        r@ == known_state(v@),
{
    let states: [&str; 3] = ["available", "unsupported", "unverified"];
    assert(widgets::slices(states@) =~= capability_states());
    match v.as_str() {
        Some(s) => if marketplace::is_among(s, &states) {
            s.to_owned()
        } else {
            "unverified".to_owned()
        },
        None => "unverified".to_owned(),
    }
}

fn capability(capabilities: &Json, name: &str, key: &str) -> (r: Json)
    ensures
        r@ == capability_of(capabilities@, name@, key@),
{
    let v: Option<&Json> = match capabilities.get(name) {
        Some(v) => Some(v),
        None => capabilities.get(key),
    };
    let said: (String, Json) = match v {
        Some(j) => if j.as_str().is_some() {
            (state(j), Json::Null)
        } else if j.is_object() {
            (state(j.field("status")), j.field("reason").copy())
        } else {
            ("unverified".to_owned(), Json::text("Capability was not reported by the source."))
        },
        None => (
            "unverified".to_owned(),
            Json::text("Capability was not reported by the source."),
        ),
    };
    let reason: Json = if said.1.is_null() && !text::same(said.0.as_str(), "available") {
        if text::same(said.0.as_str(), "unsupported") {
            Json::text("The source does not expose this capability.")
        } else {
            Json::text("The capability has not yet been verified in this context.")
        }
    } else {
        said.1
    };
    Json::object().with("name", Json::text(name)).with("status", Json::Text(said.0)).with(
        "reason",
        reason,
    )
}

fn capability_registry(capabilities: &Json) -> (r: Vec<Json>)
    ensures
        json::values(r@) == registry_of(capabilities@),
{
    let names: [(&str, &str); 17] = [
        ("search", "search"),
        ("search_refinements", "searchRefinements"),
        ("search_pagination", "searchPagination"),
        ("card_prices", "cardPrices"),
        ("products", "products"),
        ("characteristics", "characteristics"),
        ("description", "description"),
        ("variants", "variants"),
        ("offers", "offers"),
        ("review_text", "reviewText"),
        ("review_refinements", "reviewRefinements"),
        ("review_pagination", "reviewPagination"),
        ("review_images", "reviewImages"),
        ("product_images", "productImages"),
        ("image_content", "imageContent"),
        ("region_verification", "regionVerification"),
        ("account_observation", "accountObservation"),
    ];
    let ghost all = capability_names();
    assert(forall|k: int|
        0 <= k < 17 ==> #[trigger] all[k] == (names@[k].0@, names@[k].1@));
    let mut out: Vec<Json> = Vec::new();
    let mut i: usize = 0;
    while i < 17
        invariant
            0 <= i <= 17,
            all == capability_names(),
            names@.len() == 17,
            all.len() == 17,
            forall|k: int| 0 <= k < 17 ==> #[trigger] all[k] == (names@[k].0@, names@[k].1@),
            json::values(out@) =~= registry_of(capabilities@).take(i as int),
        decreases 17 - i,
    {
        assert(all[i as int] == (names@[i as int].0@, names@[i as int].1@));
        let one: Json = capability(capabilities, names[i].0, names[i].1);
        proof {
            json::lemma_values_push(out@, one);
        }
        out.push(one);
        i = i + 1;
    }
    assert(json::values(out@) =~= registry_of(capabilities@));
    out
}

/// Whether the region was read among the saved addresses.
pub open spec fn from_address_book(raw: JsonV) -> bool {
    raw.field("regionSourceUrl"@) == JsonV::Text("https://www.ozon.ru/modal/addressbook"@)
}

/// Evidence for parts of the context.
pub open spec fn context_evidence(
    url: Seq<char>,
    context_id: Seq<char>,
    paths: Seq<Seq<char>>,
    observed: Seq<char>,
    id: Seq<char>,
) -> JsonV {
    marketplace::cited_as(
        evidence::observed_evidence_of(
            Some(url),
            context_id,
            None,
            paths,
            JsonV::Array(Seq::empty()),
            observed,
        ),
        id,
    )
}

pub open spec fn text_or(v: JsonV, fallback: Seq<char>) -> Seq<char> {
    match v {
        JsonV::Text(s) => s,
        _ => fallback,
    }
}

/// The context, as it is shown; a region that was read among the saved addresses rests on
/// evidence of its own.
pub open spec fn context_shown(
    raw: JsonV,
    observed: Seq<char>,
    first: Seq<char>,
    second: Seq<char>,
) -> NormalizedV {
    let context_id = text_or(raw.field("contextId"@), "context-unknown"@);
    let source_url = text_or(raw.field("sourceUrl"@), "https://www.ozon.ru/"@);
    let own = marketplace::evidence_name(first);
    let region = if from_address_book(raw) {
        marketplace::evidence_name(second)
    } else {
        own
    };
    let verification = evidence::enum_text(
        raw,
        "regionVerification"@,
        seq!["verified"@, "unverified"@],
        "unverified"@,
    );
    NormalizedV {
        data: JsonV::object().with("contextId"@, JsonV::Text(context_id)).with(
            "observedAt"@,
            JsonV::Text(observed),
        ).with(
            "region"@,
            JsonV::object().with("label"@, raw.field("regionLabel"@)).with(
                "verification"@,
                JsonV::Text(verification),
            ).with("evidenceRefs"@, marketplace::only_text(region)),
        ).with(
            "accountState"@,
            JsonV::Text(
                evidence::enum_text(
                    raw,
                    "accountState"@,
                    seq!["authenticated"@, "anonymous"@, "unknown"@],
                    "unknown"@,
                ),
            ),
        ).with(
            "accessState"@,
            JsonV::Text(
                evidence::enum_text(
                    raw,
                    "accessState"@,
                    seq!["available"@, "blocked"@, "unknown"@],
                    "unknown"@,
                ),
            ),
        ).with("capabilities"@, JsonV::Array(registry_of(raw.field("capabilities"@)))),
        evidence: if from_address_book(raw) {
            seq![
                context_evidence(
                    source_url,
                    context_id,
                    seq!["/accountState"@, "/accessState"@],
                    observed,
                    own,
                ),
                context_evidence(
                    "https://www.ozon.ru/modal/addressbook"@,
                    context_id,
                    seq!["/region/label"@],
                    observed,
                    region,
                ),
            ]
        } else {
            seq![
                context_evidence(
                    source_url,
                    context_id,
                    seq!["/region/label"@, "/accountState"@, "/accessState"@],
                    observed,
                    own,
                ),
            ]
        },
        warnings: if verification == "unverified"@ {
            seq![
                marketplace::warning_of(
                    "REGION_UNVERIFIED"@,
                    "The current region could not be verified."@,
                    seq![region],
                ),
            ]
        } else {
            Seq::empty()
        },
        product_refs: Seq::empty(),
    }
}

fn evidence_for(url: &str, context_id: &str, paths: &[&str], observed: &str, id: &str) -> (r: Json)
    ensures
        r@ == context_evidence(url@, context_id@, widgets::slices(paths@), observed@, id@),
{
    let facts: Vec<Json> = Vec::new();
    assert(json::values(facts@) =~= Seq::empty());
    evidence::observed_evidence(Some(url), context_id, None, paths, Json::array(facts), observed).with(
        "evidenceRef",
        Json::text(id),
    )
}

fn text_of<'a>(v: &'a Json, fallback: &'a str) -> (r: &'a str)
    ensures
        r@ == text_or(v@, fallback@),
{
    match v.as_str() {
        Some(s) => s,
        None => fallback,
    }
}

fn evidence_list(raw: &Json, observed: &str, own: &str, region: &str) -> (r: Vec<Json>)
    ensures
        json::values(r@) == (if from_address_book(raw@) {
            seq![
                context_evidence(
                    text_or(raw@.field("sourceUrl"@), "https://www.ozon.ru/"@),
                    text_or(raw@.field("contextId"@), "context-unknown"@),
                    seq!["/accountState"@, "/accessState"@],
                    observed@,
                    own@,
                ),
                context_evidence(
                    "https://www.ozon.ru/modal/addressbook"@,
                    text_or(raw@.field("contextId"@), "context-unknown"@),
                    seq!["/region/label"@],
                    observed@,
                    region@,
                ),
            ]
        } else {
            seq![
                context_evidence(
                    text_or(raw@.field("sourceUrl"@), "https://www.ozon.ru/"@),
                    text_or(raw@.field("contextId"@), "context-unknown"@),
                    seq!["/region/label"@, "/accountState"@, "/accessState"@],
                    observed@,
                    own@,
                ),
            ]
        }),
{
    let context_id: &str = text_of(raw.field("contextId"), "context-unknown");
    let source_url: &str = text_of(raw.field("sourceUrl"), "https://www.ozon.ru/");
    let mut out: Vec<Json> = Vec::new();
    if is_from_address_book(raw) {
        let states: [&str; 2] = ["/accountState", "/accessState"];
        let label: [&str; 1] = ["/region/label"];
        assert(widgets::slices(states@) =~= seq!["/accountState"@, "/accessState"@]);
        assert(widgets::slices(label@) =~= seq!["/region/label"@]);
        let first: Json = evidence_for(source_url, context_id, &states, observed, own);
        let second: Json = evidence_for(
            "https://www.ozon.ru/modal/addressbook",
            context_id,
            &label,
            observed,
            region,
        );
        out.push(first);
        out.push(second);
        assert(json::values(out@) =~= seq![first@, second@]);
    } else {
        let paths: [&str; 3] = ["/region/label", "/accountState", "/accessState"];
        assert(widgets::slices(paths@) =~= seq![
            "/region/label"@,
            "/accountState"@,
            "/accessState"@,
        ]);
        let first: Json = evidence_for(source_url, context_id, &paths, observed, own);
        out.push(first);
        assert(json::values(out@) =~= seq![first@]);
    }
    out
}

fn is_from_address_book(raw: &Json) -> (r: bool)
    ensures
        r == from_address_book(raw@),
{
    match raw.field("regionSourceUrl").as_str() {
        Some(u) => text::same(u, "https://www.ozon.ru/modal/addressbook"),
        None => false,
    }
}

/// The context, as it is shown, at a given time and with given identifiers.
pub fn normalize_context_at(raw: &Json, observed: &str, first: &str, second: &str) -> (r:
    Normalized)
    ensures
        r@ == context_shown(raw@, observed@, first@, second@),
{
    let own: String = text::joined("evidence_", first);
    let region: String = if is_from_address_book(raw) {
        text::joined("evidence_", second)
    } else {
        own.clone()
    };
    let verifications: [&str; 2] = ["verified", "unverified"];
    let accounts: [&str; 3] = ["authenticated", "anonymous", "unknown"];
    let accesses: [&str; 3] = ["available", "blocked", "unknown"];
    assert(widgets::slices(verifications@) =~= seq!["verified"@, "unverified"@]);
    assert(widgets::slices(accounts@) =~= seq!["authenticated"@, "anonymous"@, "unknown"@]);
    assert(widgets::slices(accesses@) =~= seq!["available"@, "blocked"@, "unknown"@]);
    let verification: String = marketplace::enum_or(
        raw,
        "regionVerification",
        &verifications,
        "unverified",
    );
    let mut warnings: Vec<Json> = Vec::new();
    assert(json::values(warnings@) =~= Seq::empty());
    if text::same(verification.as_str(), "unverified") {
        let refs: [&str; 1] = [region.as_str()];
        assert(widgets::slices(refs@) =~= seq![region@]);
        let one: Json = marketplace::warning(
            "REGION_UNVERIFIED",
            "The current region could not be verified.",
            &refs,
        );
        warnings.push(one);
        assert(json::values(warnings@) =~= seq![one@]);
    }
    let shown: Json = Json::object().with("label", raw.field("regionLabel").copy()).with(
        "verification",
        Json::text(verification.as_str()),
    ).with("evidenceRefs", marketplace::only(region.as_str()));
    let data: Json = Json::object().with(
        "contextId",
        Json::text(text_of(raw.field("contextId"), "context-unknown")),
    ).with("observedAt", Json::text(observed)).with("region", shown).with(
        "accountState",
        Json::Text(marketplace::enum_or(raw, "accountState", &accounts, "unknown")),
    ).with(
        "accessState",
        Json::Text(marketplace::enum_or(raw, "accessState", &accesses, "unknown")),
    ).with("capabilities", Json::array(capability_registry(raw.field("capabilities"))));
    let refs: Vec<String> = Vec::new();
    assert(text::texts(refs@) =~= Seq::empty());
    Normalized {
        data,
        evidence: evidence_list(raw, observed, own.as_str(), region.as_str()),
        warnings,
        product_refs: refs,
    }
}

/// The context, as it is shown, at the present time.
pub fn normalize_context(raw: &Json) -> (r: Normalized)
    ensures
        exists|observed: Seq<char>, first: Seq<char>, second: Seq<char>|
            r@ == #[trigger] context_shown(raw@, observed, first, second),
{
    let observed: String = evidence::now();
    let first: String = ledger::fresh_id();
    let second: String = ledger::fresh_id();
    normalize_context_at(raw, observed.as_str(), first.as_str(), second.as_str())
}

} // verus!
