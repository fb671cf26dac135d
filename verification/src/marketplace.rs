//! Source observations as public data, with evidence and durable references.

use crate::double;
use crate::evidence;
use crate::failure::{Failure, FailureV};
use crate::json::{self, Json, JsonV};
use crate::ledger::LedgerV;
use crate::text;
use crate::widgets;
use vstd::prelude::*;

pub use crate::context_report::normalize_context;
pub use crate::product_details::{normalize_product, ProductNormalized};
pub use crate::review_pages::{normalize_reviews, ReviewRequest};
pub use crate::search_results::normalize_search;

verus! {

pub const MAX_SEEN_REVIEWS: usize = 30_000;

pub const REVIEW_SEEN_CHECKPOINT_INTERVAL: usize = 256;

pub const MAX_REVIEW_SEEN_CHECKPOINT_BYTES: usize = 2_500_000;

pub const MAX_REVIEW_NO_PROGRESS_PAGES: usize = 3;

/// How long a continuation is kept, in seconds.
pub const CURSOR_TTL_SECONDS: u64 = 1_800;

/// Public data, with its evidence, its warnings and the products it names.
#[derive(Debug)]
pub struct Normalized {
    pub data: Json,
    pub evidence: Vec<Json>,
    pub warnings: Vec<Json>,
    pub product_refs: Vec<String>,
}

/// What a [`Normalized`] holds.
#[verifier::ext_equal]
pub struct NormalizedV {
    pub data: JsonV,
    pub evidence: Seq<JsonV>,
    pub warnings: Seq<JsonV>,
    pub product_refs: Seq<Seq<char>>,
}

impl View for Normalized {
    type V = NormalizedV;

    open spec fn view(&self) -> NormalizedV {
        NormalizedV {
            data: self.data@,
            evidence: json::values(self.evidence@),
            warnings: json::values(self.warnings@),
            product_refs: text::texts(self.product_refs@),
        }
    }
}

/// What an operation made, beside the ledger that it left.
pub open spec fn made<T: View>(r: Result<T, Failure>, ledger: LedgerV) -> Result<
    (LedgerV, T::V),
    (LedgerV, FailureV),
> {
    match r {
        Ok(v) => Ok((ledger, v@)),
        Err(e) => Err((ledger, e@)),
    }
}

/// An array of one text.
pub open spec fn only_text(s: Seq<char>) -> JsonV {
    JsonV::Array(seq![JsonV::Text(s)])
}

pub(crate) fn only(s: &str) -> (r: Json)
    ensures
        r@ == only_text(s@),
{
    let mut v: Vec<Json> = Vec::new();
    v.push(Json::text(s));
    assert(json::values(v@) =~= seq![JsonV::Text(s@)]);
    Json::array(v)
}

/// A warning, with the evidence that it rests on.
pub open spec fn warning_of(code: Seq<char>, message: Seq<char>, refs: Seq<Seq<char>>) -> JsonV {
    JsonV::object().with("code"@, JsonV::Text(code)).with("message"@, JsonV::Text(message)).with(
        "evidenceRefs"@,
        JsonV::Array(evidence::text_values(refs)),
    )
}

/// A warning tells its code, its message and the evidence that it rests on.
pub proof fn warnings_tell_what_they_are_of(
    code: Seq<char>,
    message: Seq<char>,
    refs: Seq<Seq<char>>,
)
    ensures
        ({
            let shown = warning_of(code, message, refs);
            &&& shown is Object
            &&& shown.field("code"@) == (JsonV::Text(code))
            &&& shown.field("message"@) == (JsonV::Text(message))
            &&& shown.field("evidenceRefs"@) == (JsonV::Array(evidence::text_values(refs)))
        }),
{
    broadcast use json::lemma_get_with;

    reveal_strlit("code");
    reveal_strlit("message");
    reveal_strlit("evidenceRefs");
    assert("code"@.len() == 4);
    assert("message"@.len() == 7);
    assert("evidenceRefs"@.len() == 12);
}

pub fn warning(code: &str, message: &str, refs: &[&str]) -> (r: Json)
    ensures
        r@ == warning_of(code@, message@, widgets::slices(refs@)),
{
    let ghost all = widgets::slices(refs@);
    let mut shown: Vec<Json> = Vec::new();
    let mut i: usize = 0;
    while i < refs.len()
        invariant
            0 <= i <= refs@.len(),
            all == widgets::slices(refs@),
            json::values(shown@) =~= evidence::text_values(all).take(i as int),
        decreases refs@.len() - i,
    {
        assert(all[i as int] == refs@[i as int]@);
        let one: Json = Json::text(refs[i]);
        proof {
            json::lemma_values_push(shown@, one);
        }
        shown.push(one);
        i = i + 1;
    }
    assert(json::values(shown@) =~= evidence::text_values(all));
    Json::object().with("code", Json::text(code)).with("message", Json::text(message)).with(
        "evidenceRefs",
        Json::array(shown),
    )
}

/// A warning that rests on no evidence.
pub(crate) fn bare_warning(code: &str, message: &str) -> (r: Json)
    ensures
        r@ == warning_of(code@, message@, Seq::empty()),
{
    let none: [&str; 0] = [];
    assert(widgets::slices(none@) =~= Seq::empty());
    warning(code, message, &none)
}

/// A text under a key, where it is one of the allowed ones; else a fallback.
pub(crate) fn enum_or(raw: &Json, key: &str, allowed: &[&str], fallback: &str) -> (r: String)
    ensures
        r@ == evidence::enum_text(raw@, key@, widgets::slices(allowed@), fallback@),
{
    match evidence::enum_value(raw, key, allowed, fallback) {
        Json::Text(s) => s,
        _ => fallback.to_owned(),
    }
}

/// An amount in hundredths.
pub open spec fn minor_units(v: JsonV) -> Option<u64> {
    match v {
        JsonV::Number(n) => {
            let place = double::order(double::bits_of(n) as u64);
            if 0 <= place < double::INFINITE {
                Some(double::scaled(place as u64, 100) as u64)
            } else {
                None
            }
        },
        _ => None,
    }
}

pub(crate) fn money(v: &Json) -> (r: Option<u64>)
    ensures
        r == minor_units(v@),
{
    match v {
        Json::Number(n) => {
            let place: i128 = double::order_of(double::number_bits(n));
            if 0 <= place && place < double::INFINITE as i128 {
                Some(double::scaled_to_integer(place as u64, 100))
            } else {
                None
            }
        },
        _ => None,
    }
}

/// A price that was shown, with the condition it holds under.
pub open spec fn price_of(
    amount: u64,
    kind: Seq<char>,
    condition: Option<Seq<char>>,
    ev: Seq<char>,
) -> JsonV {
    JsonV::object().with("amountMinor"@, JsonV::unsigned(amount)).with(
        "currency"@,
        JsonV::Text("RUB"@),
    ).with("type"@, JsonV::Text(kind)).with("condition"@, JsonV::optional_text(condition)).with(
        "evidenceRefs"@,
        only_text(ev),
    )
}

/// A price tells its kind, its label, its amount in the smallest unit and its currency.
pub proof fn prices_tell_their_amount(
    amount: u64,
    kind: Seq<char>,
    condition: Option<Seq<char>>,
    ev: Seq<char>,
)
    ensures
        ({
            let shown = price_of(amount, kind, condition, ev);
            &&& shown is Object
            &&& shown.field("amountMinor"@) == (JsonV::unsigned(amount))
            &&& shown.field("currency"@) == (JsonV::Text("RUB"@))
            &&& shown.field("type"@) == (JsonV::Text(kind))
            &&& shown.field("condition"@) == (JsonV::optional_text(condition))
            &&& shown.field("evidenceRefs"@) == (only_text(ev))
        }),
{
    broadcast use json::lemma_get_with;

    reveal_strlit("amountMinor");
    reveal_strlit("currency");
    reveal_strlit("type");
    reveal_strlit("condition");
    reveal_strlit("evidenceRefs");
    assert("amountMinor"@.len() == 11);
    assert("currency"@.len() == 8);
    assert("type"@.len() == 4);
    assert("condition"@.len() == 9);
    assert("evidenceRefs"@.len() == 12);
}

pub(crate) fn price(amount: u64, kind: &str, condition: Option<&str>, ev: &str) -> (r: Json)
    ensures
        r@ == price_of(amount, kind@, json::str_of(condition), ev@),
{
    Json::object().with("amountMinor", Json::unsigned(amount)).with(
        "currency",
        Json::text("RUB"),
    ).with("type", Json::text(kind)).with("condition", Json::optional_text(condition)).with(
        "evidenceRefs",
        only(ev),
    )
}

pub open spec fn availability_of(v: JsonV) -> Seq<char> {
    match v {
        JsonV::Bool(true) => "available"@,
        JsonV::Bool(false) => "unavailable"@,
        _ => "unknown"@,
    }
}

pub(crate) fn availability(v: &Json) -> (r: &'static str)
    ensures
        r@ == availability_of(v@),
{
    match v {
        Json::Bool(b) => if *b {
            "available"
        } else {
            "unavailable"
        },
        _ => "unknown",
    }
}

/// The canonical URL under a key.
pub open spec fn canonical_in(v: JsonV, key: Seq<char>) -> Option<Seq<char>> {
    match v.field(key).as_text() {
        Some(u) => evidence::source_url(u),
        None => None,
    }
}

pub(crate) fn canonical(v: &Json, key: &str) -> (r: Option<String>)
    ensures
        text::text_of(r) == canonical_in(v@, key@),
{
    match v.field(key).as_str() {
        Some(u) => evidence::canonical_source_url(u),
        None => None,
    }
}

/// A seller that a page shows; null where it shows none at all.
pub open spec fn seller_of(v: Option<JsonV>, ev: Seq<char>) -> JsonV {
    match v {
        None => JsonV::Null,
        Some(s) => JsonV::object().with("name"@, s.field("name"@)).with(
            "rating"@,
            s.field("rating"@),
        ).with("url"@, JsonV::optional_text(canonical_in(s, "url"@))).with(
            "evidenceRefs"@,
            only_text(ev),
        ),
    }
}

pub(crate) fn seller(v: Option<&Json>, ev: &str) -> (r: Json)
    ensures
        r@ == seller_of(json::view_of(v), ev@),
{
    match v {
        None => Json::Null,
        Some(s) => Json::object().with("name", s.field("name").copy()).with(
            "rating",
            s.field("rating").copy(),
        ).with("url", json::optional(&canonical(s, "url"))).with("evidenceRefs", only(ev)),
    }
}

/// One observed fact.
pub open spec fn fact_of(path: Seq<char>, value: JsonV) -> JsonV {
    JsonV::object().with("fieldPath"@, JsonV::Text(path)).with("value"@, value)
}

/// A fact tells where it stands and its value.
pub proof fn facts_tell_where_they_stand(
    path: Seq<char>,
    value: JsonV,
)
    ensures
        ({
            let shown = fact_of(path, value);
            &&& shown is Object
            &&& shown.field("fieldPath"@) == (JsonV::Text(path))
            &&& shown.field("value"@) == (value)
        }),
{
    broadcast use json::lemma_get_with;

    reveal_strlit("fieldPath");
    reveal_strlit("value");
    assert("fieldPath"@.len() == 9);
    assert("value"@.len() == 5);
}

pub(crate) fn fact(path: &str, value: Json) -> (r: Json)
    ensures
        r@ == fact_of(path@, value@),
{
    Json::object().with("fieldPath", Json::text(path)).with("value", value)
}

/// Evidence under its own name.
pub open spec fn cited_as(evidence: JsonV, id: Seq<char>) -> JsonV {
    evidence.with("evidenceRef"@, JsonV::Text(id))
}

pub open spec fn evidence_name(id: Seq<char>) -> Seq<char> {
    "evidence_"@ + id
}

/// What the warnings of a source say.
pub open spec fn source_message(code: Seq<char>) -> Seq<char> {
    if code == "PRICE_OUTSIDE_REQUESTED_RANGE"@ {
        "Returned displayed search prices do not all match the requested range. Ozon's source filter price basis is unknown; results were preserved."@
    } else {
        "The source reported incomplete or unstable data."@
    }
}

pub open spec fn warnings_in(codes: Seq<JsonV>) -> Seq<JsonV>
    decreases codes.len(),
{
    if codes.len() == 0 {
        Seq::empty()
    } else {
        match codes.last() {
            JsonV::Text(code) => warnings_in(codes.drop_last()).push(
                warning_of(code, source_message(code), Seq::empty()),
            ),
            _ => warnings_in(codes.drop_last()),
        }
    }
}

/// The smaller of two sizes.
pub open spec fn at_most(n: int, most: int) -> int {
    if n < most {
        n
    } else {
        most
    }
}

/// The first values of a row.
pub open spec fn first_values<A>(v: Seq<A>, n: int) -> Seq<A> {
    v.take(at_most(v.len() as int, n))
}

/// The warnings that a source gave, at most thirty of them looked at.
pub open spec fn source_warnings_of(raw: JsonV) -> Seq<JsonV> {
    warnings_in(first_values(raw.field("warnings"@).elements(), 30))
}

pub(crate) fn source_warnings(raw: &Json) -> (r: Vec<Json>)
    ensures
        json::values(r@) == source_warnings_of(raw@),
{
    let codes: Vec<&Json> = json::elements(raw.field("warnings"));
    let ghost all = json::refs(codes@);
    let end: usize = if codes.len() < 30 {
        codes.len()
    } else {
        30
    };
    let mut out: Vec<Json> = Vec::new();
    let mut i: usize = 0;
    assert(json::values(out@) =~= Seq::empty());
    while i < end
        invariant
            0 <= i <= end <= codes@.len(),
            all == json::refs(codes@),
            json::values(out@) == warnings_in(all.take(i as int)),
        decreases end - i,
    {
        assert(all.take(i + 1).drop_last() =~= all.take(i as int));
        assert(all.take(i + 1).last() == codes@[i as int]@);
        if let Some(code) = codes[i].as_str() {
            let message: &str = if text::same(code, "PRICE_OUTSIDE_REQUESTED_RANGE") {
                "Returned displayed search prices do not all match the requested range. Ozon's source filter price basis is unknown; results were preserved."
            } else {
                "The source reported incomplete or unstable data."
            };
            let one: Json = bare_warning(code, message);
            proof {
                json::lemma_values_push(out@, one);
            }
            out.push(one);
        }
        i = i + 1;
    }
    out
}

/// The codes that one item of a batch can fail with.
pub open spec fn item_codes() -> Seq<Seq<char>> {
    seq![
        "INVALID_REFERENCE"@,
        "CONTEXT_CHANGED"@,
        "CONTEXT_UNVERIFIED"@,
        "RESEARCH_EXPIRED"@,
        "SOURCE_BLOCKED"@,
        "SOURCE_CHANGED"@,
        "UPSTREAM_TIMEOUT"@,
        "NOT_FOUND"@,
        "RESULT_TOO_LARGE"@,
        "UNSUPPORTED_CAPABILITY"@,
    ]
}

pub open spec fn item_code(code: Seq<char>) -> Seq<char> {
    if item_codes().contains(code) {
        code
    } else {
        "SOURCE_CHANGED"@
    }
}

fn item_error_code<'a>(code: &'a str) -> (r: &'a str)
    ensures
        r@ == item_code(code@),
{
    let known: [&str; 10] = [
        "INVALID_REFERENCE",
        "CONTEXT_CHANGED",
        "CONTEXT_UNVERIFIED",
        "RESEARCH_EXPIRED",
        "SOURCE_BLOCKED",
        "SOURCE_CHANGED",
        "UPSTREAM_TIMEOUT",
        "NOT_FOUND",
        "RESULT_TOO_LARGE",
        "UNSUPPORTED_CAPABILITY",
    ];
    assert(widgets::slices(known@) =~= item_codes());
    if is_among(code, &known) {
        code
    } else {
        "SOURCE_CHANGED"
    }
}

/// Whether a text is one of some others.
pub(crate) fn is_among(s: &str, known: &[&str]) -> (r: bool)
    ensures
        r == widgets::slices(known@).contains(s@),
{
    let ghost all = widgets::slices(known@);
    let mut i: usize = 0;
    while i < known.len()
        invariant
            0 <= i <= known@.len(),
            all == widgets::slices(known@),
            forall|k: int| 0 <= k < i ==> all[k] != s@,
        decreases known@.len() - i,
    {
        assert(all[i as int] == known@[i as int]@);
        if text::same(known[i], s) {
            assert(all.contains(s@));
            return true;
        }
        i = i + 1;
    }
    false
}

/// The result of a batch item that failed.
pub open spec fn item_error_of(requested: JsonV, code: Seq<char>, message: Seq<char>) -> JsonV {
    JsonV::object().with("status"@, JsonV::Text("error"@)).with("requested"@, requested).with(
        "error"@,
        JsonV::object().with("code"@, JsonV::Text(item_code(code))).with(
            "message"@,
            JsonV::Text(text::first(message, 2000)),
        ).with(
            "retryable"@,
            JsonV::Bool(code == "SOURCE_BLOCKED"@ || code == "UPSTREAM_TIMEOUT"@),
        ),
    )
}

/// The row of a product that is not shown tells what was asked for and what is wrong.
pub proof fn item_errors_tell_what_is_wrong(
    requested: JsonV,
    code: Seq<char>,
    message: Seq<char>,
)
    ensures
        ({
            let shown = item_error_of(requested, code, message);
            &&& shown is Object
            &&& shown.field("status"@) == (JsonV::Text("error"@))
            &&& shown.field("requested"@) == (requested)
            &&& shown.field("error"@) == (JsonV::object().with("code"@, JsonV::Text(item_code(code))).with(
            "message"@,
            JsonV::Text(text::first(message, 2000)),
        ).with(
            "retryable"@,
            JsonV::Bool(code == "SOURCE_BLOCKED"@ || code == "UPSTREAM_TIMEOUT"@),
        ))
        }),
{
    broadcast use json::lemma_get_with;

    reveal_strlit("status");
    reveal_strlit("requested");
    reveal_strlit("error");
    assert("status"@.len() == 6);
    assert("requested"@.len() == 9);
    assert("error"@.len() == 5);
}

pub fn item_error(requested: &Json, code: &str, message: &str) -> (r: Json)
    ensures
        r@ == item_error_of(requested@, code@, message@),
{
    let retryable: bool = text::same(code, "SOURCE_BLOCKED") || text::same(
        code,
        "UPSTREAM_TIMEOUT",
    );
    Json::object().with("status", Json::text("error")).with("requested", requested.copy()).with(
        "error",
        Json::object().with("code", Json::text(item_error_code(code))).with(
            "message",
            Json::Text(text::first_chars(message, 2000)),
        ).with("retryable", Json::Bool(retryable)),
    )
}

} // verus!
