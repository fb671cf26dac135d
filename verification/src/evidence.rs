//! What every answer carries: its context, its evidence and its error codes.

use crate::address::{self, Address, AddressV};
use crate::failure::{Failure, FailureV};
use crate::json::{self, Json, JsonV};
use crate::text;
use crate::widgets;
use vstd::prelude::*;

verus! {

pub const MAX_JSON_UTF16: usize = 60_000;

pub const MAX_IMAGE_WIRE_BYTES: usize = 8_388_608;

/// `chrono::Utc::now`, written by `to_rfc3339_opts` with milliseconds: the present time, of
/// which nothing can be said.
#[verifier::external_body]
pub fn now() -> String {
    chrono::Utc::now().to_rfc3339_opts(chrono::SecondsFormat::Millis, true)
}

/// A text under a key, where it is one of the allowed ones; else a fallback.
pub open spec fn enum_text(
    raw: JsonV,
    key: Seq<char>,
    allowed: Seq<Seq<char>>,
    fallback: Seq<char>,
) -> Seq<char> {
    match raw.field(key) {
        JsonV::Text(s) => if allowed.contains(s) {
            s
        } else {
            fallback
        },
        _ => fallback,
    }
}

pub fn enum_value(raw: &Json, key: &str, allowed: &[&str], fallback: &str) -> (r: Json)
    ensures
        r@ == JsonV::Text(enum_text(raw@, key@, widgets::slices(allowed@), fallback@)),
{
    if let Some(s) = raw.field(key).as_str() {
        let ghost all = widgets::slices(allowed@);
        let mut i: usize = 0;
        while i < allowed.len()
            invariant
                0 <= i <= allowed@.len(),
                all == widgets::slices(allowed@),
                raw@.field(key@) == JsonV::Text(s@),
                forall|k: int| 0 <= k < i ==> all[k] != s@,
            decreases allowed@.len() - i,
        {
            assert(all[i as int] == allowed@[i as int]@);
            if text::same(allowed[i], s) {
                assert(all.contains(s@));
                return Json::text(s);
            }
            i = i + 1;
        }
        assert(!all.contains(s@));
    }
    Json::text(fallback)
}

/// The part of a context that an answer shows.
pub open spec fn public_context_of(raw: JsonV) -> JsonV {
    JsonV::object().with(
        "contextId"@,
        JsonV::Text(
            match raw.field("contextId"@) {
                JsonV::Text(s) => s,
                _ => "context-unknown"@,
            },
        ),
    ).with("regionLabel"@, raw.field("regionLabel"@)).with(
        "regionVerification"@,
        JsonV::Text(
            enum_text(
                raw,
                "regionVerification"@,
                seq!["verified"@, "unverified"@],
                "unverified"@,
            ),
        ),
    ).with(
        "accountState"@,
        JsonV::Text(
            enum_text(
                raw,
                "accountState"@,
                seq!["authenticated"@, "anonymous"@, "unknown"@],
                "unknown"@,
            ),
        ),
    ).with(
        "accessState"@,
        JsonV::Text(
            enum_text(raw, "accessState"@, seq!["available"@, "blocked"@, "unknown"@], "unknown"@),
        ),
    )
}

pub fn public_context(raw: &Json) -> (r: Json)
    ensures
        r@ == public_context_of(raw@),
{
    let id: Json = match raw.field("contextId").as_str() {
        Some(s) => Json::text(s),
        None => Json::text("context-unknown"),
    };
    let verification: [&str; 2] = ["verified", "unverified"];
    let account: [&str; 3] = ["authenticated", "anonymous", "unknown"];
    let access: [&str; 3] = ["available", "blocked", "unknown"];
    assert(widgets::slices(verification@) =~= seq!["verified"@, "unverified"@]);
    assert(widgets::slices(account@) =~= seq!["authenticated"@, "anonymous"@, "unknown"@]);
    assert(widgets::slices(access@) =~= seq!["available"@, "blocked"@, "unknown"@]);
    Json::object().with("contextId", id).with(
        "regionLabel",
        raw.field("regionLabel").copy(),
    ).with(
        "regionVerification",
        enum_value(raw, "regionVerification", &verification, "unverified"),
    ).with("accountState", enum_value(raw, "accountState", &account, "unknown")).with(
        "accessState",
        enum_value(raw, "accessState", &access, "unknown"),
    )
}

/// Evidence as an answer shows it: without the facts, which stay in the research.
pub open spec fn without_facts(v: Seq<JsonV>) -> Seq<JsonV> {
    Seq::new(v.len(), |i: int| v[i].without("facts"@))
}

/// An answer: data with its context, evidence and warnings.
pub open spec fn envelope_of(
    research_id: Option<Seq<char>>,
    data: JsonV,
    context: JsonV,
    evidence: Seq<JsonV>,
    warnings: Seq<JsonV>,
    observed_at: Seq<char>,
) -> JsonV {
    JsonV::object().with("schemaVersion"@, JsonV::Text("1"@)).with(
        "researchId"@,
        JsonV::optional_text(research_id),
    ).with("data"@, data).with("context"@, public_context_of(context)).with(
        "observedAt"@,
        JsonV::Text(observed_at),
    ).with("evidence"@, JsonV::Array(without_facts(evidence))).with(
        "warnings"@,
        JsonV::Array(warnings),
    )
}

/// An answer holds its research, its data, its context, its time, its evidence and its warnings.
pub proof fn envelopes_hold_their_parts(
    research_id: Option<Seq<char>>,
    data: JsonV,
    context: JsonV,
    evidence: Seq<JsonV>,
    warnings: Seq<JsonV>,
    observed_at: Seq<char>,
)
    ensures
        ({
            let shown = envelope_of(research_id, data, context, evidence, warnings, observed_at);
            &&& shown is Object
            &&& shown.field("schemaVersion"@) == (JsonV::Text("1"@))
            &&& shown.field("researchId"@) == (JsonV::optional_text(research_id))
            &&& shown.field("data"@) == (data)
            &&& shown.field("context"@) == (public_context_of(context))
            &&& shown.field("observedAt"@) == (JsonV::Text(observed_at))
            &&& shown.field("evidence"@) == (JsonV::Array(without_facts(evidence)))
            &&& shown.field("warnings"@) == (JsonV::Array(warnings))
        }),
{
    broadcast use json::lemma_get_with;

    reveal_strlit("schemaVersion");
    reveal_strlit("researchId");
    reveal_strlit("data");
    reveal_strlit("context");
    reveal_strlit("observedAt");
    reveal_strlit("evidence");
    reveal_strlit("warnings");
    assert("schemaVersion"@.len() == 13);
    assert("researchId"@.len() == 10);
    assert("data"@.len() == 4);
    assert("context"@.len() == 7);
    assert("observedAt"@.len() == 10);
    assert("evidence"@.len() == 8);
    assert("warnings"@.len() == 8);
    assert("researchId"@[0] == 'r');
    assert("observedAt"@[0] == 'o');
    assert("evidence"@[0] == 'e');
    assert("warnings"@[0] == 'w');
}

pub fn envelope(
    research_id: Option<&str>,
    data: Json,
    context: &Json,
    evidence: Vec<Json>,
    warnings: Vec<Json>,
    observed_at: &str,
) -> (r: Json)
    ensures
        r@ == envelope_of(
            json::str_of(research_id),
            data@,
            context@,
            json::values(evidence@),
            json::values(warnings@),
            observed_at@,
        ),
{
    let ghost all = json::values(evidence@);
    let mut shown: Vec<Json> = Vec::new();
    let mut i: usize = 0;
    while i < evidence.len()
        invariant
            0 <= i <= evidence@.len(),
            all == json::values(evidence@),
            json::values(shown@) =~= without_facts(all).take(i as int),
        decreases evidence@.len() - i,
    {
        assert(all[i as int] == evidence@[i as int]@);
        let one: Json = envelope_evidence(evidence[i].copy());
        proof {
            json::lemma_values_push(shown@, one);
        }
        shown.push(one);
        i = i + 1;
    }
    assert(json::values(shown@) =~= without_facts(all));
    Json::object().with("schemaVersion", Json::text("1")).with(
        "researchId",
        Json::optional_text(research_id),
    ).with("data", data).with("context", public_context(context)).with(
        "observedAt",
        Json::text(observed_at),
    ).with("evidence", Json::array(shown)).with("warnings", Json::array(warnings))
}

/// The texts of a row, as JSON.
pub open spec fn text_values(v: Seq<Seq<char>>) -> Seq<JsonV> {
    Seq::new(v.len(), |i: int| JsonV::Text(v[i]))
}

/// A canonical URL of the site that a source may be named by.
pub open spec fn source_url(input: Seq<char>) -> Option<Seq<char>> {
    match address::parsed_url(input) {
        Err(_) => None,
        Ok(a) => if a.scheme != "https"@ || a.port is Some || !(a.host == Some("ozon.ru"@)
            || a.host == Some("www.ozon.ru"@)) {
            None
        } else {
            match address::url_without_fragment(address::url_without_query(input)) {
                None => None,
                Some(t) => match address::url_without_username(t) {
                    None => None,
                    Some(t) => address::url_without_password(t),
                },
            }
        },
    }
}

/// Whether a URL shows nothing but its place: no query, no fragment and no user.
pub open spec fn is_bare(a: AddressV) -> bool {
    &&& a.pairs.len() == 0
    &&& a.query is None
    &&& a.fragment is None
    &&& a.username.len() == 0
    &&& a.password is None
}

/// A canonical URL of the site that a source may be named by. It keeps the place and drops
/// all private navigation state.
pub fn canonical_source_url(input: &str) -> (r: Option<String>)
    ensures
        text::text_of(r) == source_url(input@),
        r matches Some(u) ==> {
            &&& address::parsed_url(u@) matches Ok(a)
            &&& is_bare(a)
            &&& a.scheme == address::parsed_url(input@)->Ok_0.scheme
            &&& a.host == address::parsed_url(input@)->Ok_0.host
            &&& a.path == address::parsed_url(input@)->Ok_0.path
        },
{
    let a: Address = match address::parse_url(input) {
        Ok(a) => a,
        Err(_) => return None,
    };
    let own: bool = match &a.host {
        Some(h) => text::same(h.as_str(), "ozon.ru") || text::same(h.as_str(), "www.ozon.ru"),
        None => false,
    };
    if !text::same(a.scheme.as_str(), "https") || a.port.is_some() || !own {
        return None;
    }
    let t: String = address::without_query(input);
    let t: String = match address::without_fragment(t.as_str()) {
        Some(t) => t,
        None => return None,
    };
    let t: String = match address::without_username(t.as_str()) {
        Some(t) => t,
        None => return None,
    };
    address::without_password(t.as_str())
}

/// A piece of evidence: what was observed, where and when.
pub open spec fn observed_evidence_of(
    url: Option<Seq<char>>,
    context_id: Seq<char>,
    sku: Option<Seq<char>>,
    field_paths: Seq<Seq<char>>,
    facts: JsonV,
    observed_at: Seq<char>,
) -> JsonV {
    JsonV::object().with("sourceKind"@, JsonV::Text("ozon_page"@)).with(
        "sourceUrl"@,
        match url {
            Some(u) => JsonV::optional_text(source_url(u)),
            None => JsonV::Null,
        },
    ).with("observedAt"@, JsonV::Text(observed_at)).with(
        "contextId"@,
        JsonV::Text(context_id),
    ).with("sku"@, JsonV::optional_text(sku)).with(
        "fieldPaths"@,
        JsonV::Array(text_values(field_paths)),
    ).with("facts"@, facts)
}

/// Evidence of an observation tells its source, its context, its article and its time, the fields
/// that it is for and the facts.
pub proof fn observations_tell_their_source(
    url: Option<Seq<char>>,
    context_id: Seq<char>,
    sku: Option<Seq<char>>,
    field_paths: Seq<Seq<char>>,
    facts: JsonV,
    observed_at: Seq<char>,
)
    ensures
        ({
            let shown = observed_evidence_of(url, context_id, sku, field_paths, facts, observed_at);
            &&& shown is Object
            &&& shown.field("sourceKind"@) == (JsonV::Text("ozon_page"@))
            &&& shown.field("sourceUrl"@) == (match url {
            Some(u) => JsonV::optional_text(source_url(u)),
            None => JsonV::Null,
        })
            &&& shown.field("observedAt"@) == (JsonV::Text(observed_at))
            &&& shown.field("contextId"@) == (JsonV::Text(context_id))
            &&& shown.field("sku"@) == (JsonV::optional_text(sku))
            &&& shown.field("fieldPaths"@) == (JsonV::Array(text_values(field_paths)))
            &&& shown.field("facts"@) == (facts)
        }),
{
    broadcast use json::lemma_get_with;

    reveal_strlit("sourceKind");
    reveal_strlit("sourceUrl");
    reveal_strlit("observedAt");
    reveal_strlit("contextId");
    reveal_strlit("sku");
    reveal_strlit("fieldPaths");
    reveal_strlit("facts");
    assert("sourceKind"@.len() == 10);
    assert("sourceUrl"@.len() == 9);
    assert("observedAt"@.len() == 10);
    assert("contextId"@.len() == 9);
    assert("sku"@.len() == 3);
    assert("fieldPaths"@.len() == 10);
    assert("facts"@.len() == 5);
    assert("sourceKind"@[0] == 's');
    assert("observedAt"@[0] == 'o');
    assert("fieldPaths"@[0] == 'f');
    assert("sourceUrl"@[0] == 's');
    assert("contextId"@[0] == 'c');
}

pub fn observed_evidence(
    source_url: Option<&str>,
    context_id: &str,
    sku: Option<&str>,
    field_paths: &[&str],
    facts: Json,
    observed_at: &str,
) -> (r: Json)
    ensures
        r@ == observed_evidence_of(
            json::str_of(source_url),
            context_id@,
            json::str_of(sku),
            widgets::slices(field_paths@),
            facts@,
            observed_at@,
        ),
{
    let mut paths: Vec<Json> = Vec::new();
    let ghost all = widgets::slices(field_paths@);
    let mut i: usize = 0;
    while i < field_paths.len()
        invariant
            0 <= i <= field_paths@.len(),
            all == widgets::slices(field_paths@),
            json::values(paths@) =~= text_values(all).take(i as int),
        decreases field_paths@.len() - i,
    {
        assert(all[i as int] == field_paths@[i as int]@);
        let one: Json = Json::text(field_paths[i]);
        proof {
            json::lemma_values_push(paths@, one);
        }
        paths.push(one);
        i = i + 1;
    }
    assert(json::values(paths@) =~= text_values(all));
    let url: Json = match source_url {
        Some(u) => json::optional(&canonical_source_url(u)),
        None => Json::Null,
    };
    Json::object().with("sourceKind", Json::text("ozon_page")).with("sourceUrl", url).with(
        "observedAt",
        Json::text(observed_at),
    ).with("contextId", Json::text(context_id)).with("sku", Json::optional_text(sku)).with(
        "fieldPaths",
        Json::array(paths),
    ).with("facts", facts)
}

/// Evidence as an answer shows it.
pub fn envelope_evidence(value: Json) -> (r: Json)
    ensures
        r@ == value@.without("facts"@),
{
    value.without("facts")
}

/// The size of a value on the wire, in UTF-16 code units.
pub fn utf16_len(value: &Json) -> (r: u128)
    ensures
        r == text::utf16_len(json::json_text(value@)),
{
    text::utf16_length(value.to_text().as_str())
}

/// The codes that a message may start with.
pub open spec fn known_codes() -> Seq<Seq<char>> {
    seq![
        "INVALID_ARGUMENT"@,
        "INVALID_REFERENCE"@,
        "CONTEXT_CHANGED"@,
        "CONTEXT_UNVERIFIED"@,
        "RESEARCH_EXPIRED"@,
        "UNSUPPORTED_CAPABILITY"@,
        "SOURCE_BLOCKED"@,
        "SOURCE_CHANGED"@,
        "UPSTREAM_TIMEOUT"@,
        "SERVER_BUSY"@,
        "RESULT_TOO_LARGE"@,
        "PARTIAL_RESULT"@,
        "NOT_FOUND"@,
        "CONFLICT"@,
        "STORAGE_FULL"@,
        "CANCELLED"@,
    ]
}

/// The first code, from the `i`-th on, that a message starts with.
pub open spec fn leading_code(message: Seq<char>, i: int) -> Option<Seq<char>>
    decreases known_codes().len() - i,
{
    if i < 0 || i >= known_codes().len() {
        None
    } else if text::starts(message, known_codes()[i]) {
        Some(known_codes()[i])
    } else {
        leading_code(message, i + 1)
    }
}

/// The code of a failure.
pub open spec fn code_of(error: FailureV) -> Seq<char> {
    if error is StorageFull {
        "STORAGE_FULL"@
    } else {
        match leading_code(error.message(), 0) {
            Some(code) => code,
            None => "SOURCE_CHANGED"@,
        }
    }
}

/// The code of a failure: that of a full storage device, the one that its message starts
/// with, or that of a changed source.
pub fn error_code(error: &Failure) -> (r: &'static str)
    ensures
        r@ == code_of(error@),
{
    if let Failure::StorageFull(_) = error {
        return "STORAGE_FULL";
    }
    let codes: [&'static str; 16] = [
        "INVALID_ARGUMENT",
        "INVALID_REFERENCE",
        "CONTEXT_CHANGED",
        "CONTEXT_UNVERIFIED",
        "RESEARCH_EXPIRED",
        "UNSUPPORTED_CAPABILITY",
        "SOURCE_BLOCKED",
        "SOURCE_CHANGED",
        "UPSTREAM_TIMEOUT",
        "SERVER_BUSY",
        "RESULT_TOO_LARGE",
        "PARTIAL_RESULT",
        "NOT_FOUND",
        "CONFLICT",
        "STORAGE_FULL",
        "CANCELLED",
    ];
    assert(widgets::slices(codes@) =~= known_codes());
    let message: String = error.message();
    let mut i: usize = 0;
    while i < 16
        invariant
            0 <= i <= 16,
            widgets::slices(codes@) == known_codes(),
            known_codes().len() == 16,
            codes@.len() == 16,
            error@ !is StorageFull,
            message@ == error@.message(),
            leading_code(message@, 0) == leading_code(message@, i as int),
        decreases 16 - i,
    {
        assert(known_codes()[i as int] == codes@[i as int]@);
        if text::starts_with(message.as_str(), codes[i]) {
            return codes[i];
        }
        i = i + 1;
    }
    "SOURCE_CHANGED"
}

/// An error behind a failed operation, as far as a full storage device shows in it.
#[derive(Clone, Copy, Debug)]
pub enum Cause {
    Sqlite { disk_full: bool },
    Io { os_error: Option<i32> },
    Other,
}

/// The number by which the system reports that no space is left on a device.
pub const NO_SPACE_LEFT: i32 = 28;

impl Cause {
    pub open spec fn fills_storage(self) -> bool {
        match self {
            Cause::Sqlite { disk_full } => disk_full,
            Cause::Io { os_error } => os_error == Some(NO_SPACE_LEFT),
            Cause::Other => false,
        }
    }
}

fn is_storage_full(error: &Cause) -> (r: bool)
    ensures
        r == error.fills_storage(),
{
    match error {
        Cause::Sqlite { disk_full } => *disk_full,
        Cause::Io { os_error } => match os_error {
            Some(n) => *n == NO_SPACE_LEFT,
            None => false,
        },
        Cause::Other => false,
    }
}

/// The failure of an operation with this message and this chain of causes.
pub fn failure_from_chain(message: &str, chain: &Vec<Cause>) -> (r: Failure)
    ensures
        r@ == (if exists|i: int| 0 <= i < chain@.len() && (#[trigger] chain@[i]).fills_storage() {
            FailureV::StorageFull(message@)
        } else {
            FailureV::Message(message@)
        }),
{
    let mut i: usize = 0;
    while i < chain.len()
        invariant
            0 <= i <= chain@.len(),
            forall|k: int| 0 <= k < i ==> !(#[trigger] chain@[k]).fills_storage(),
        decreases chain@.len() - i,
    {
        if is_storage_full(&chain[i]) {
            return Failure::StorageFull(message.to_owned());
        }
        i = i + 1;
    }
    Failure::Message(message.to_owned())
}

/// The part of a message that a caller is shown: what stands behind its code.
pub open spec fn shown_message(raw: Seq<char>) -> Seq<char> {
    let message = text::trimmed(
        match text::cut(raw, ':') {
            Some((_, rest)) => rest,
            None => raw,
        },
    );
    if message.len() == 0 {
        "The operation failed."@
    } else {
        text::first(message, 2000)
    }
}

pub fn safe_message(error: &Failure) -> (r: String)
    ensures
        r@ == shown_message(error@.message()),
{
    let raw: String = error.message();
    let rest: String = match text::split_once(raw.as_str(), ':') {
        Some((_, rest)) => rest,
        None => raw,
    };
    let message: String = text::trim(rest.as_str());
    if message.as_str().is_empty() {
        "The operation failed.".to_owned()
    } else {
        text::first_chars(message.as_str(), 2000)
    }
}

/// Every code is one of the known ones.
pub proof fn codes_are_known(error: FailureV)
    ensures
        known_codes().contains(code_of(error)),
{
    lemma_leading_code_is_known(error.message(), 0);
    assert(known_codes()[14] == "STORAGE_FULL"@);
    assert(known_codes()[7] == "SOURCE_CHANGED"@);
}

proof fn lemma_leading_code_is_known(message: Seq<char>, i: int)
    ensures
        leading_code(message, i) matches Some(code) ==> known_codes().contains(code),
    decreases known_codes().len() - i,
{
    if 0 <= i < known_codes().len() {
        lemma_leading_code_is_known(message, i + 1);
    }
}

} // verus!
