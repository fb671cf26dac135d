//! Answers that need no page: the present context, and what the journal of researches holds.

use crate::context_binding;
use crate::context_report;
use crate::evidence;
use crate::failure::{Failure, FailureV};
use crate::json::{self, Json, JsonV};
use crate::ledger;
use crate::marketplace;
use crate::service;
use crate::text;
use vstd::prelude::*;

verus! {

/// The answer to a call for the context: the observation under the identifier of its context.
pub open spec fn context_answer_of(
    raw: JsonV,
    context: JsonV,
    observed: Seq<char>,
    first: Seq<char>,
    second: Seq<char>,
) -> JsonV {
    let n = context_report::context_shown(
        context_binding::with_id(raw, context),
        observed,
        first,
        second,
    );
    evidence::envelope_of(
        None,
        n.data,
        context,
        n.evidence,
        n.warnings,
        match n.data.field("observedAt"@) {
            JsonV::Text(s) => s,
            _ => ""@,
        },
    )
}

/// The answer to a call for the context, at a given time and with given identifiers.
pub fn context_answer_at(raw: Json, context: &Json, observed: &str, first: &str, second: &str) -> (r:
    Json)
    ensures
        r@ == context_answer_of(raw@, context@, observed@, first@, second@),
{
    let named: Json = context_binding::with_context_id(raw, context);
    let n = context_report::normalize_context_at(&named, observed, first, second);
    let shown: String = match n.data.field("observedAt").as_str() {
        Some(s) => s.to_owned(),
        None => "".to_owned(),
    };
    evidence::envelope(None, n.data, context, n.evidence, n.warnings, shown.as_str())
}

/// The answer to a call for the context, at the present time.
pub fn context_answer(raw: Json, context: &Json) -> (r: Json)
    ensures
        exists|observed: Seq<char>, first: Seq<char>, second: Seq<char>|
            r@ == #[trigger] context_answer_of(raw@, context@, observed, first, second),
{
    let observed: String = evidence::now();
    let first: String = ledger::fresh_id();
    let second: String = ledger::fresh_id();
    context_answer_at(raw, context, observed.as_str(), first.as_str(), second.as_str())
}

/// What is asked of the journal.
#[derive(Clone, Copy, Debug, PartialEq, Eq, Structural)]
pub enum JournalCall {
    List,
    Read,
    AppendNote,
}

pub open spec fn journal_call_of(name: Seq<char>) -> Option<JournalCall> {
    if name == "ozon_list_research"@ {
        Some(JournalCall::List)
    } else if name == "ozon_get_research"@ {
        Some(JournalCall::Read)
    } else if name == "ozon_append_research_note"@ {
        Some(JournalCall::AppendNote)
    } else {
        None
    }
}

/// A call of the journal, with the research that it is about.
pub open spec fn journal_start_of(name: Seq<char>, args: JsonV) -> Result<
    (JournalCall, Option<Seq<char>>),
    FailureV,
> {
    match journal_call_of(name) {
        None => Err(FailureV::Message("INVALID_ARGUMENT: unknown journal method"@)),
        Some(JournalCall::List) => Ok((JournalCall::List, None)),
        Some(call) => match service::required(args, "researchId"@) {
            Ok(id) => Ok((call, Some(id))),
            Err(e) => Err(e),
        },
    }
}

pub open spec fn start_view(r: Result<(JournalCall, Option<String>), Failure>) -> Result<
    (JournalCall, Option<Seq<char>>),
    FailureV,
> {
    match r {
        Ok((call, id)) => Ok((call, text::text_of(id))),
        Err(e) => Err(e@),
    }
}

/// What a call asks of the journal, and of which research.
pub fn journal_start(name: &str, args: &Json) -> (r: Result<
    (JournalCall, Option<String>),
    Failure,
>)
    ensures
        start_view(r) == journal_start_of(name@, args@),
{
    let call: JournalCall = if text::same(name, "ozon_list_research") {
        return Ok((JournalCall::List, None));
    } else if text::same(name, "ozon_get_research") {
        JournalCall::Read
    } else if text::same(name, "ozon_append_research_note") {
        JournalCall::AppendNote
    } else {
        return Err(Failure::new("INVALID_ARGUMENT: unknown journal method"));
    };
    match service::required_text(args, "researchId") {
        Ok(id) => Ok((call, Some(id.to_owned()))),
        Err(e) => Err(e),
    }
}

/// What an answer of the journal warns of: what it lists was captured at another time.
pub open spec fn journal_warnings(call: JournalCall) -> Seq<JsonV> {
    match call {
        JournalCall::List => seq![
            marketplace::warning_of(
                "HISTORICAL_CONTEXT"@,
                "Listed research may belong to a different captured context."@,
                Seq::empty(),
            ),
        ],
        JournalCall::Read => seq![
            marketplace::warning_of(
                "HISTORICAL_CONTEXT"@,
                "Journal data retains its original captured context."@,
                Seq::empty(),
            ),
        ],
        JournalCall::AppendNote => Seq::empty(),
    }
}

/// The answer of the journal, at a given time.
pub fn journal_answer_at(
    call: JournalCall,
    research_id: Option<&str>,
    data: Json,
    context: &Json,
    now: &str,
) -> (r: Json)
    ensures
        r@ == evidence::envelope_of(
            json::str_of(research_id),
            data@,
            context@,
            Seq::empty(),
            journal_warnings(call),
            now@,
        ),
{
    let mut warnings: Vec<Json> = Vec::new();
    match call {
        JournalCall::List => {
            warnings.push(
                marketplace::bare_warning(
                    "HISTORICAL_CONTEXT",
                    "Listed research may belong to a different captured context.",
                ),
            );
        },
        JournalCall::Read => {
            warnings.push(
                marketplace::bare_warning(
                    "HISTORICAL_CONTEXT",
                    "Journal data retains its original captured context.",
                ),
            );
        },
        JournalCall::AppendNote => {},
    }
    assert(json::values(warnings@) =~= journal_warnings(call));
    let none: Vec<Json> = Vec::new();
    assert(json::values(none@) =~= Seq::empty());
    evidence::envelope(research_id, data, context, none, warnings, now)
}

/// The answer of the journal, at the present time.
pub fn journal_answer(
    call: JournalCall,
    research_id: Option<&str>,
    data: Json,
    context: &Json,
) -> (r: Json)
    ensures
        exists|now: Seq<char>|
            r@ == #[trigger] evidence::envelope_of(
                json::str_of(research_id),
                data@,
                context@,
                Seq::empty(),
                journal_warnings(call),
                now,
            ),
{
    let now: String = evidence::now();
    journal_answer_at(call, research_id, data, context, now.as_str())
}

} // verus!
