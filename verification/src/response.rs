//! One measurement for public JSON and optional search metadata.

use crate::failure::{self, Failure, FailureV};
use crate::json::{self, Json, JsonV};
use crate::text;
use vstd::prelude::*;

verus! {

pub const MAX_RESULT_UNITS: usize = 60_000;

pub const METADATA_BUDGET_UNITS: usize = 58_000;

/// The size of a value on the wire, in UTF-16 code units.
pub fn serialized_utf16_len(value: &Json) -> (r: u128)
    ensures
        r == text::utf16_len(json::json_text(value@)),
{
    text::utf16_length(value.to_text().as_str())
}

/// A value that fits an answer; nothing is cut off.
pub open spec fn bounded(value: JsonV) -> Result<JsonV, FailureV> {
    if text::utf16_len(json::json_text(value)) > MAX_RESULT_UNITS {
        Err(FailureV::Message("RESULT_TOO_LARGE: response exceeds size limit"@))
    } else {
        Ok(value)
    }
}

pub fn bounded_value(value: &Json) -> (r: Result<Json, Failure>)
    ensures
        failure::outcome(r) == bounded(value@),
{
    if serialized_utf16_len(value) > MAX_RESULT_UNITS as u128 {
        return Err(Failure::new("RESULT_TOO_LARGE: response exceeds size limit"));
    }
    Ok(value.copy())
}

} // verus!
