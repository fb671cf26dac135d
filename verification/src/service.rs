//! What a tool call is answered, from what the source, the journal and the clock bring.

use crate::contracts::{self, Contract, ImagePayload, ToolReply};
use crate::evidence;
use crate::failure::{self, Failure, FailureV};
use crate::json::{self, Json, JsonV};
use crate::marketplace;
use crate::presentation;
use crate::text;
use vstd::prelude::*;

verus! {

pub const MAX_JSON_UTF16: u128 = 60_000;

pub const ADMITTED_CALLS: usize = 8;

pub const DEADLINE_SECONDS: u64 = 55;

/// Whether a reply says that a call failed, and how.
pub open spec fn fails_with(
    r: ToolReply,
    code: Seq<char>,
    message: Seq<char>,
    research: Option<Seq<char>>,
) -> bool {
    &&& r.structured is None
    &&& r.error
    &&& text::text_of(r.text) == Some(
        json::json_text(contracts::failure_json(code, message, research)),
    )
    &&& r.images@.len() == 0
}

/// Whether a reply says that a call failed in some way.
pub open spec fn fails(r: ToolReply, e: FailureV, research: Option<Seq<char>>) -> bool {
    fails_with(r, evidence::code_of(e), evidence::shown_message(e.message()), research)
}

fn fail(e: &Failure, research: Option<&str>) -> (r: ToolReply)
    ensures
        fails(r, e@, json::str_of(research)),
{
    let message: String = evidence::safe_message(e);
    contracts::failure(evidence::error_code(e), message.as_str(), research)
}

/// The research that a call names.
pub open spec fn research_of(args: JsonV) -> Option<Seq<char>> {
    args.field("researchId"@).as_text()
}

pub fn research_arg<'a>(args: &'a Json) -> (r: Option<&'a str>)
    ensures
        json::str_of(r) == research_of(args@),
{
    args.field("researchId").as_str()
}

/// A text that must be there.
pub open spec fn required(v: JsonV, key: Seq<char>) -> Result<Seq<char>, FailureV> {
    match v.field(key) {
        JsonV::Text(s) => Ok(s),
        _ => Err(FailureV::Message("SOURCE_CHANGED: missing "@ + key)),
    }
}

pub open spec fn str_outcome(r: Result<&str, Failure>) -> Result<Seq<char>, FailureV> {
    match r {
        Ok(s) => Ok(s@),
        Err(e) => Err(e@),
    }
}

pub fn required_text<'a>(v: &'a Json, key: &str) -> (r: Result<&'a str, Failure>)
    ensures
        str_outcome(r) == required(v@, key@),
{
    match v.field(key).as_str() {
        Some(s) => Ok(s),
        None => Err(Failure::Message(text::joined("SOURCE_CHANGED: missing ", key))),
    }
}

/// Whether the lower price of a search is above the upper one.
pub open spec fn range_inverted(args: JsonV) -> bool {
    let range = args.field("start"@).field("priceRange"@);
    match (range.field("minMinor"@).as_unsigned(), range.field("maxMinor"@).as_unsigned()) {
        (Some(a), Some(b)) => a > b,
        _ => false,
    }
}

pub fn price_range_inverted(args: &Json) -> (r: bool)
    ensures
        r == range_inverted(args@),
{
    let range: &Json = args.field("start").field("priceRange");
    match (range.field("minMinor").as_u64(), range.field("maxMinor").as_u64()) {
        (Some(a), Some(b)) => a > b,
        _ => false,
    }
}

/// What is wrong with a call before it does anything: a code and a message.
pub open spec fn call_problem(
    contracts: Seq<contracts::ContractV>,
    name: Seq<char>,
    args: JsonV,
) -> Option<(Seq<char>, Seq<char>)> {
    if !contracts::names().contains(name) {
        Some(("INVALID_ARGUMENT"@, "Unknown tool."@))
    } else {
        match (match contracts::contract_named(contracts, name, 0) {
            None => Some("INVALID_ARGUMENT: unknown tool"@),
            Some(c) => contracts::input_problem(
                name,
                args,
                contracts::violation_of(c.input, args),
            ),
        }) {
            Some(message) => Some(("INVALID_ARGUMENT"@, evidence::shown_message(message))),
            None => if range_inverted(args) {
                Some(("INVALID_ARGUMENT"@, "priceRange.minMinor must not exceed maxMinor."@))
            } else {
                None
            },
        }
    }
}

/// Whether a call is let in. A call that is not valid is refused before it takes a place,
/// and one that finds no place is refused too.
pub fn refuse_call(contracts: &Vec<Contract>, name: &str, args: &Json, place_free: bool) -> (r: Option<
    ToolReply,
>)
    ensures
        match call_problem(contracts::contracts_view(contracts@), name@, args@) {
            Some(p) => r matches Some(reply) && fails_with(reply, p.0, p.1, research_of(args@)),
            None => if place_free {
                r is None
            } else {
                r matches Some(reply) && fails_with(
                    reply,
                    "SERVER_BUSY"@,
                    "Eight requests are already active or waiting."@,
                    research_of(args@),
                )
            },
        },
{
    let names: [&str; 8] = contracts::tool_names();
    if !marketplace::is_among(name, &names) {
        return Some(contracts::failure("INVALID_ARGUMENT", "Unknown tool.", research_arg(args)));
    }
    if let Err(e) = contracts::validate_input(contracts, name, args) {
        let message: String = evidence::safe_message(&e);
        return Some(
            contracts::failure("INVALID_ARGUMENT", message.as_str(), research_arg(args)),
        );
    }
    if price_range_inverted(args) {
        return Some(
            contracts::failure(
                "INVALID_ARGUMENT",
                "priceRange.minMinor must not exceed maxMinor.",
                research_arg(args),
            ),
        );
    }
    if !place_free {
        return Some(
            contracts::failure(
                "SERVER_BUSY",
                "Eight requests are already active or waiting.",
                research_arg(args),
            ),
        );
    }
    None
}

/// What ended a call before its work did.
#[derive(Clone, Copy, Debug, PartialEq, Eq, Structural)]
pub enum Interruption {
    Cancelled,
    ShuttingDown,
    DeadlineExpired,
    TaskFailed,
    ReplyLost,
}

/// The code and the message of an interruption.
pub open spec fn interruption(i: Interruption) -> (Seq<char>, Seq<char>) {
    match i {
        Interruption::Cancelled => ("CANCELLED"@, "The request was cancelled."@),
        Interruption::ShuttingDown => ("CANCELLED"@, "The server is shutting down."@),
        Interruption::DeadlineExpired => (
            "UPSTREAM_TIMEOUT"@,
            "The request deadline expired and cleanup is still completing."@,
        ),
        Interruption::TaskFailed => ("SOURCE_CHANGED"@, "The server task failed."@),
        Interruption::ReplyLost => (
            "CANCELLED"@,
            "The request ended before a result was available."@,
        ),
    }
}

pub fn interrupted(i: Interruption, research: Option<&str>) -> (r: ToolReply)
    ensures
        fails_with(r, interruption(i).0, interruption(i).1, json::str_of(research)),
{
    match i {
        Interruption::Cancelled => contracts::failure(
            "CANCELLED",
            "The request was cancelled.",
            research,
        ),
        Interruption::ShuttingDown => contracts::failure(
            "CANCELLED",
            "The server is shutting down.",
            research,
        ),
        Interruption::DeadlineExpired => contracts::failure(
            "UPSTREAM_TIMEOUT",
            "The request deadline expired and cleanup is still completing.",
            research,
        ),
        Interruption::TaskFailed => contracts::failure(
            "SOURCE_CHANGED",
            "The server task failed.",
            research,
        ),
        Interruption::ReplyLost => contracts::failure(
            "CANCELLED",
            "The request ended before a result was available.",
            research,
        ),
    }
}

/// Whether an operation on the source may start, or has just ended, in time.
pub open spec fn gate_problem(cancelled: bool, expired: bool, active: bool) -> Option<FailureV> {
    if cancelled {
        Some(FailureV::Message("CANCELLED: request cancelled"@))
    } else if expired {
        Some(
            FailureV::Message(
                if active {
                    "UPSTREAM_TIMEOUT: active browser operation deadline expired"@
                } else {
                    "UPSTREAM_TIMEOUT: browser queue budget expired before the operation started"@
                },
            ),
        )
    } else {
        None
    }
}

pub open spec fn problem(r: Result<(), Failure>) -> Option<FailureV> {
    match r {
        Ok(_) => None,
        Err(e) => Some(e@),
    }
}

pub fn gate(cancelled: bool, expired: bool, active: bool) -> (r: Result<(), Failure>)
    ensures
        problem(r) == gate_problem(cancelled, expired, active),
{
    if cancelled {
        Err(Failure::new("CANCELLED: request cancelled"))
    } else if expired {
        if active {
            Err(Failure::new("UPSTREAM_TIMEOUT: active browser operation deadline expired"))
        } else {
            Err(
                Failure::new(
                    "UPSTREAM_TIMEOUT: browser queue budget expired before the operation started",
                ),
            )
        }
    } else {
        Ok(())
    }
}

/// Whether the answers of a tool have views.
pub open spec fn has_views(name: Seq<char>) -> bool {
    name == "ozon_search"@ || name == "ozon_get_products"@ || name == "ozon_get_reviews"@
}

fn is_viewed(name: &str) -> (r: bool)
    ensures
        r == has_views(name@),
{
    text::same(name, "ozon_search") || text::same(name, "ozon_get_products") || text::same(
        name,
        "ozon_get_reviews",
    )
}

/// The stored reference that a call continues: its name and its kind.
pub open spec fn continued_ref(name: Seq<char>, args: JsonV) -> Option<(Seq<char>, Seq<char>)> {
    if name != "ozon_search"@ && name != "ozon_get_reviews"@ {
        None
    } else {
        match (args.field("start"@).field("cursor"@), args.field("start"@).field(
            "refinementsCursor"@,
        )) {
            (JsonV::Text(cursor), _) => Some(
                (
                    cursor,
                    if name == "ozon_search"@ {
                        "search_cursor"@
                    } else {
                        "review_cursor"@
                    },
                ),
            ),
            (_, JsonV::Text(cursor)) => Some((cursor, "search_refinements"@)),
            _ => None,
        }
    }
}

/// The stored reference that a call continues: its name and its kind.
pub fn presentation_lookup<'a>(name: &str, args: &'a Json) -> (r: Option<(&'a str, &'static str)>)
    ensures
        (match r {
            Some(x) => Some((x.0@, x.1@)),
            None => None,
        }) == continued_ref(name@, args@),
{
    let search: bool = text::same(name, "ozon_search");
    if !search && !text::same(name, "ozon_get_reviews") {
        return None;
    }
    let start: &Json = args.field("start");
    match start.field("cursor").as_str() {
        Some(cursor) => if search {
            Some((cursor, "search_cursor"))
        } else {
            Some((cursor, "review_cursor"))
        },
        None => match start.field("refinementsCursor").as_str() {
            Some(cursor) => Some((cursor, "search_refinements")),
            None => None,
        },
    }
}

/// How a stored reference binds the presentation of what continues it.
pub open spec fn binding_of(name: Seq<char>, args: JsonV, value: JsonV) -> JsonV {
    if args.field("start"@).field("cursor"@) is Text {
        match value.field("presentation"@) {
            JsonV::Object(m) => JsonV::Object(m),
            _ => JsonV::object().with("view"@, JsonV::Text("full"@)),
        }
    } else {
        value
    }
}

/// Arguments with one that a binding fixes; one that was given differently is an error.
pub open spec fn bound_to(args: JsonV, binding: JsonV, key: Seq<char>) -> Result<JsonV, FailureV> {
    match binding.field(key) {
        JsonV::Null => Ok(args),
        value => match args.get(key) {
            Some(given) => if given == value {
                Ok(args.with(key, value))
            } else {
                Err(
                    FailureV::Message(
                        "INVALID_ARGUMENT: continuation presentation cannot be changed"@,
                    ),
                )
            },
            None => Ok(args.with(key, value)),
        },
    }
}

fn bind(args: Json, binding: &Json, key: &str) -> (r: Result<Json, Failure>)
    ensures
        failure::outcome(r) == bound_to(args@, binding@, key@),
{
    let value: &Json = binding.field(key);
    if value.is_null() {
        return Ok(args);
    }
    let same: bool = match args.get(key) {
        Some(given) => given.equals(value),
        None => true,
    };
    if same {
        Ok(args.with(key, value.copy()))
    } else {
        Err(Failure::new("INVALID_ARGUMENT: continuation presentation cannot be changed"))
    }
}

/// Arguments with the size of a page of refinements that a binding fixes.
pub open spec fn limited_to(args: JsonV, binding: JsonV) -> Result<JsonV, FailureV> {
    if args.field("start"@).get("refinementsCursor"@) is None {
        Ok(args)
    } else {
        match binding.get("limit"@) {
            None => Ok(args),
            Some(limit) => match args.get("refinementLimit"@) {
                Some(given) => if given == limit {
                    Ok(args.with("refinementLimit"@, limit))
                } else {
                    Err(
                        FailureV::Message(
                            "INVALID_ARGUMENT: refinement page limit cannot be changed"@,
                        ),
                    )
                },
                None => Ok(args.with("refinementLimit"@, limit)),
            },
        }
    }
}

fn limit_page(args: Json, binding: &Json) -> (r: Result<Json, Failure>)
    ensures
        failure::outcome(r) == limited_to(args@, binding@),
{
    if args.field("start").get("refinementsCursor").is_none() {
        return Ok(args);
    }
    match binding.get("limit") {
        None => Ok(args),
        Some(limit) => {
            let same: bool = match args.get("refinementLimit") {
                Some(given) => given.equals(limit),
                None => true,
            };
            if same {
                Ok(args.with("refinementLimit", limit.copy()))
            } else {
                Err(Failure::new("INVALID_ARGUMENT: refinement page limit cannot be changed"))
            }
        },
    }
}

/// Arguments with all that a binding fixes.
pub open spec fn all_bound(name: Seq<char>, args: JsonV, binding: JsonV) -> Result<JsonV, FailureV> {
    match bound_to(args, binding, "view"@) {
        Err(e) => Err(e),
        Ok(viewed) => match bound_to(
            viewed,
            binding,
            if name == "ozon_get_reviews"@ {
                "includeFacets"@
            } else {
                "repeatMode"@
            },
        ) {
            Err(e) => Err(e),
            Ok(both) => limited_to(both, binding),
        },
    }
}

/// Arguments with one that was not given.
pub open spec fn or_else(args: JsonV, key: Seq<char>, value: JsonV) -> JsonV {
    match args.get(key) {
        Some(_) => args,
        None => args.with(key, value),
    }
}

fn fill(args: Json, key: &str, value: Json) -> (r: Json)
    ensures
        r@ == or_else(args@, key@, value@),
{
    match args.get(key) {
        Some(_) => args,
        None => args.with(key, value),
    }
}

/// Arguments with what is used where nothing was given.
pub open spec fn with_defaults(name: Seq<char>, args: JsonV) -> JsonV {
    let viewed = or_else(args, "view"@, JsonV::Text("compact"@));
    let searched = if name == "ozon_search"@ {
        or_else(
            or_else(viewed, "repeatMode"@, JsonV::Text("full"@)),
            "refinementLimit"@,
            JsonV::unsigned(12),
        )
    } else {
        viewed
    };
    if name == "ozon_search"@ || name == "ozon_get_reviews"@ {
        or_else(
            searched,
            "includeFacets"@,
            JsonV::Bool(
                searched.field("view"@) == JsonV::Text("full"@) && searched.field("start"@).get(
                    "cursor"@,
                ) is None,
            ),
        )
    } else {
        searched
    }
}

fn fill_defaults(name: &str, args: Json) -> (r: Json)
    ensures
        r@ == with_defaults(name@, args@),
{
    let viewed: Json = fill(args, "view", Json::text("compact"));
    let search: bool = text::same(name, "ozon_search");
    let searched: Json = if search {
        fill(
            fill(viewed, "repeatMode", Json::text("full")),
            "refinementLimit",
            Json::unsigned(12),
        )
    } else {
        viewed
    };
    if search || text::same(name, "ozon_get_reviews") {
        let full: bool = match searched.field("view").as_str() {
            Some(s) => text::same(s, "full"),
            None => false,
        };
        let fresh: bool = searched.field("start").get("cursor").is_none();
        fill(searched, "includeFacets", Json::Bool(full && fresh))
    } else {
        searched
    }
}

/// The arguments of a call with how its answer is presented: bound by what it continues,
/// then by default.
pub open spec fn presentation_of(name: Seq<char>, args: JsonV, stored: Option<JsonV>) -> Result<
    JsonV,
    FailureV,
> {
    if !has_views(name) {
        Ok(args)
    } else if name == "ozon_get_products"@ {
        Ok(
            with_defaults(
                name,
                args.with("_viewExplicit"@, JsonV::Bool(args.get("view"@) is Some)),
            ),
        )
    } else {
        match stored {
            None => Ok(with_defaults(name, args)),
            Some(value) => match all_bound(name, args, binding_of(name, args, value)) {
                Ok(bound) => Ok(with_defaults(name, bound)),
                Err(e) => Err(e),
            },
        }
    }
}

/// The arguments of a call with how its answer is presented, given the value of the stored
/// reference that it continues.
pub fn presentation_args(name: &str, args: Json, stored: Option<&Json>) -> (r: Result<
    Json,
    Failure,
>)
    ensures
        failure::outcome(r) == presentation_of(name@, args@, json::view_of(stored)),
{
    if !is_viewed(name) {
        return Ok(args);
    }
    if text::same(name, "ozon_get_products") {
        let explicit: bool = args.get("view").is_some();
        return Ok(fill_defaults(name, args.with("_viewExplicit", Json::Bool(explicit))));
    }
    let value: &Json = match stored {
        None => return Ok(fill_defaults(name, args)),
        Some(v) => v,
    };
    let binding: Json = if args.field("start").field("cursor").as_str().is_some() {
        let own: &Json = value.field("presentation");
        if own.is_object() {
            own.copy()
        } else {
            Json::object().with("view", Json::text("full"))
        }
    } else {
        value.copy()
    };
    let viewed: Json = match bind(args, &binding, "view") {
        Ok(a) => a,
        Err(e) => return Err(e),
    };
    let key: &str = if text::same(name, "ozon_get_reviews") {
        "includeFacets"
    } else {
        "repeatMode"
    };
    let both: Json = match bind(viewed, &binding, key) {
        Ok(a) => a,
        Err(e) => return Err(e),
    };
    match limit_page(both, &binding) {
        Ok(a) => Ok(fill_defaults(name, a)),
        Err(e) => Err(e),
    }
}

/// How the continuations of a call are bound.
pub open spec fn presentation_binding_of(args: JsonV) -> JsonV {
    JsonV::object().with("view"@, args.field("view"@)).with(
        "repeatMode"@,
        match args.get("repeatMode"@) {
            Some(m) => m,
            None => JsonV::Text("full"@),
        },
    ).with(
        "includeFacets"@,
        match args.get("includeFacets"@) {
            Some(f) => f,
            None => JsonV::Bool(false),
        },
    )
}

/// What a continuation is bound to is the view, the repeat mode and the facets of the call.
pub proof fn bindings_hold_the_presentation(
    args: JsonV,
)
    ensures
        ({
            let shown = presentation_binding_of(args);
            &&& shown is Object
            &&& shown.field("view"@) == (args.field("view"@))
            &&& shown.field("repeatMode"@) == (match args.get("repeatMode"@) {
            Some(m) => m,
            None => JsonV::Text("full"@),
        })
            &&& shown.field("includeFacets"@) == (match args.get("includeFacets"@) {
            Some(f) => f,
            None => JsonV::Bool(false),
        })
        }),
{
    broadcast use json::lemma_get_with;

    reveal_strlit("view");
    reveal_strlit("repeatMode");
    reveal_strlit("includeFacets");
    assert("view"@.len() == 4);
    assert("repeatMode"@.len() == 10);
    assert("includeFacets"@.len() == 13);
}

pub fn presentation_binding(args: &Json) -> (r: Json)
    ensures
        r@ == presentation_binding_of(args@),
{
    let repeat_mode: Json = match args.get("repeatMode") {
        Some(m) => m.copy(),
        None => Json::text("full"),
    };
    let facets: Json = match args.get("includeFacets") {
        Some(f) => f.copy(),
        None => Json::Bool(false),
    };
    Json::object().with("view", args.field("view").copy()).with("repeatMode", repeat_mode).with(
        "includeFacets",
        facets,
    )
}

/// Whether a reply shows a value and images, in order.
pub open spec fn succeeds_with(r: ToolReply, value: JsonV, images: Seq<ImagePayload>) -> bool {
    &&& json::read_of(r.structured) == Some(value)
    &&& !r.error
    &&& r.text is None
    &&& r.images@ == images
}

/// The problem with a value that is to be shown: a code and a message.
pub open spec fn result_problem(
    contracts: Seq<contracts::ContractV>,
    name: Seq<char>,
    value: JsonV,
) -> Option<(Seq<char>, Seq<char>)> {
    if text::utf16_len(json::json_text(value)) > MAX_JSON_UTF16 {
        Some(("RESULT_TOO_LARGE"@, "The structured result exceeds 60000 UTF-16 units."@))
    } else {
        match (match contracts::contract_named(contracts, name, 0) {
            None => Some("INVALID_ARGUMENT: unknown tool"@),
            Some(c) => contracts::output_problem(contracts::violation_of(c.output, value)),
        }) {
            Some(message) => Some(
                (
                    "SOURCE_CHANGED"@,
                    "Generated result failed its contract: "@ + evidence::shown_message(message),
                ),
            ),
            None => None,
        }
    }
}

/// A reply that shows a value: it fits, and it keeps the contract of its tool.
pub fn success(
    contracts: &Vec<Contract>,
    name: &str,
    value: Json,
    images: Vec<ImagePayload>,
    research: Option<&str>,
) -> (r: ToolReply)
    ensures
        match result_problem(contracts::contracts_view(contracts@), name@, value@) {
            Some(p) => fails_with(r, p.0, p.1, json::str_of(research)),
            None => succeeds_with(r, value@, images@),
        },
{
    if evidence::utf16_len(&value) > MAX_JSON_UTF16 {
        return contracts::failure(
            "RESULT_TOO_LARGE",
            "The structured result exceeds 60000 UTF-16 units.",
            research,
        );
    }
    if let Err(e) = contracts::validate_output(contracts, name, &value) {
        let message: String = text::joined(
            "Generated result failed its contract: ",
            evidence::safe_message(&e).as_str(),
        );
        return contracts::failure("SOURCE_CHANGED", message.as_str(), research);
    }
    ToolReply { structured: Some(value), error: false, text: None, images }
}

/// The value of a call in its repeat mode and its view.
pub open spec fn projected(name: Seq<char>, value: JsonV, args: JsonV) -> Result<JsonV, FailureV> {
    let repeated = if name == "ozon_search"@ {
        presentation::repeated(
            value,
            match args.field("repeatMode"@) {
                JsonV::Text(m) => m,
                _ => "full"@,
            },
        )
    } else {
        (value, None)
    };
    match repeated.1 {
        Some(e) => Err(e),
        None => if has_views(name) {
            presentation::presented(
                name,
                repeated.0,
                match repeated.0.field("view"@) {
                    JsonV::Text(v) => v,
                    _ => match args.field("view"@) {
                        JsonV::Text(v) => v,
                        _ => "compact"@,
                    },
                },
            )
        } else {
            Ok(repeated.0)
        },
    }
}

fn project(name: &str, value: Json, args: &Json) -> (r: Result<Json, Failure>)
    ensures
        failure::outcome(r) == projected(name@, value@, args@),
{
    let mut value: Json = value;
    if text::same(name, "ozon_search") {
        let mode: &str = match args.field("repeatMode").as_str() {
            Some(m) => m,
            None => "full",
        };
        match presentation::apply_repeat_mode(&mut value, mode) {
            Ok(_) => {},
            Err(e) => return Err(e),
        }
    }
    if !is_viewed(name) {
        return Ok(value);
    }
    let view: String = match value.field("view").as_str() {
        Some(v) => v.to_owned(),
        None => match args.field("view").as_str() {
            Some(v) => v.to_owned(),
            None => "compact".to_owned(),
        },
    };
    presentation::apply(name, value, view.as_str())
}

/// The reply to a call whose work is done. `args` are the arguments with their presentation.
pub fn reply(
    contracts: &Vec<Contract>,
    name: &str,
    args: &Json,
    result: Result<(Json, Vec<ImagePayload>), Failure>,
) -> (r: ToolReply)
    ensures
        match result {
            Err(e) => fails(r, e@, research_of(args@)),
            Ok(x) => match projected(name@, x.0@, args@) {
                Err(e) => fails(r, e, research_of(args@)),
                Ok(value) => match result_problem(
                    contracts::contracts_view(contracts@),
                    name@,
                    value,
                ) {
                    Some(p) => fails_with(r, p.0, p.1, research_of(args@)),
                    None => succeeds_with(r, value, x.1@),
                },
            },
        },
{
    match result {
        Err(e) => fail(&e, research_arg(args)),
        Ok((value, images)) => match project(name, value, args) {
            Err(e) => fail(&e, research_arg(args)),
            Ok(value) => success(contracts, name, value, images, research_arg(args)),
        },
    }
}

/// The reply to a call whose presentation cannot be bound.
pub fn reply_unbound(e: &Failure) -> (r: ToolReply)
    ensures
        fails(r, e@, None),
{
    fail(e, None)
}

/// Whether a failure is a cancellation, which the research records.
pub fn is_cancellation(e: &Failure) -> (r: bool)
    ensures
        r == (evidence::code_of(e@) == "CANCELLED"@),
{
    text::same(evidence::error_code(e), "CANCELLED")
}

} // verus!
