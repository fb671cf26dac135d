//! The widgets of a page, whose states may be spelled as text.

use crate::json::{self, Json, JsonV};
use crate::text;
use vstd::prelude::*;

verus! {

/// A value as it is, or the value that its text spells.
pub open spec fn decoded(v: JsonV) -> Option<JsonV> {
    match v {
        JsonV::Object(_) => Some(v),
        JsonV::Array(_) => Some(v),
        JsonV::Text(s) => json::json_value(s),
        _ => None,
    }
}

pub fn decode(v: &Json) -> (r: Option<Json>)
    ensures
        json::read_of(r) == decoded(v@),
{
    match v {
        Json::Object(_) | Json::Array(_) => Some(v.copy()),
        Json::Text(s) => Json::parse(s.as_str()),
        _ => None,
    }
}

/// Whether a key names a widget: the name stands before the first hyphen.
pub open spec fn names(key: Seq<char>, name: Seq<char>) -> bool {
    text::split(key, '-')[0] == name
}

/// The states of the widgets with this name, in order, as far as they can be read.
pub open spec fn states_in(m: Seq<(Seq<char>, JsonV)>, name: Seq<char>) -> Seq<JsonV>
    decreases m.len(),
{
    if m.len() == 0 {
        Seq::empty()
    } else if names(m.last().0, name) && decoded(m.last().1) is Some {
        states_in(m.drop_last(), name).push(decoded(m.last().1)->Some_0)
    } else {
        states_in(m.drop_last(), name)
    }
}

/// The states of the widgets of a page with this name.
pub open spec fn states_of(page: JsonV, name: Seq<char>) -> Seq<JsonV> {
    match page.field("widgetStates"@) {
        JsonV::Object(m) => states_in(m, name),
        _ => Seq::empty(),
    }
}

/// The states of the widgets of a page with this name, in order.
pub fn all_valid(page: &Json, name: &str) -> (r: Vec<Json>)
    ensures
        json::values(r@) == states_of(page@, name@),
{
    let mut out: Vec<Json> = Vec::new();
    assert(json::values(out@) =~= Seq::empty());
    if let Some(m) = page.field("widgetStates").as_object() {
        let ghost all = json::members(m@);
        let mut i: usize = 0;
        assert(all.take(0) =~= Seq::empty());
        while i < m.len()
            invariant
                0 <= i <= m@.len(),
                all == json::members(m@),
                json::values(out@) == states_in(all.take(i as int), name@),
            decreases m@.len() - i,
        {
            assert(all.take(i + 1).drop_last() =~= all.take(i as int));
            assert(all.take(i + 1).last() == (m@[i as int].0@, m@[i as int].1@));
            let pieces: Vec<String> = text::split_at_char(m[i].0.as_str(), '-');
            assert(text::texts(pieces@)[0] == pieces@[0]@);
            if text::same(pieces[0].as_str(), name) {
                if let Some(state) = decode(&m[i].1) {
                    proof {
                        json::lemma_values_push(out@, state);
                    }
                    out.push(state);
                }
            }
            i = i + 1;
        }
        assert(all.take(i as int) =~= all);
    }
    out
}

/// Whether a value has a member with one of these keys.
pub open spec fn has_any(v: JsonV, keys: Seq<Seq<char>>) -> bool {
    exists|i: int| 0 <= i < keys.len() && v.get(#[trigger] keys[i]) is Some
}

/// The first state, from the `i`-th on, that has a member with one of these keys.
pub open spec fn first_with(v: Seq<JsonV>, keys: Seq<Seq<char>>, i: int) -> Option<JsonV>
    decreases v.len() - i,
{
    if i < 0 || i >= v.len() {
        None
    } else if has_any(v[i], keys) {
        Some(v[i])
    } else {
        first_with(v, keys, i + 1)
    }
}

/// The texts of a row of string slices.
pub open spec fn slices(v: Seq<&str>) -> Seq<Seq<char>> {
    Seq::new(v.len(), |i: int| v[i]@)
}

fn has_one(v: &Json, keys: &[&str]) -> (r: bool)
    ensures
        r == has_any(v@, slices(keys@)),
{
    let ghost all = slices(keys@);
    let mut i: usize = 0;
    while i < keys.len()
        invariant
            0 <= i <= keys@.len(),
            all == slices(keys@),
            forall|k: int| 0 <= k < i ==> v@.get(#[trigger] all[k]) is None,
        decreases keys@.len() - i,
    {
        assert(all[i as int] == keys@[i as int]@);
        if v.get(keys[i]).is_some() {
            return true;
        }
        i = i + 1;
    }
    false
}

/// The first state of a widget of a page with this name that has a member with one of
/// these keys.
pub fn first_having(page: &Json, name: &str, keys: &[&str]) -> (r: Option<Json>)
    ensures
        json::read_of(r) == first_with(states_of(page@, name@), slices(keys@), 0),
{
    let states: Vec<Json> = all_valid(page, name);
    let ghost all = json::values(states@);
    let mut i: usize = 0;
    while i < states.len()
        invariant
            0 <= i <= states@.len(),
            all == json::values(states@),
            all == states_of(page@, name@),
            first_with(all, slices(keys@), 0) == first_with(all, slices(keys@), i as int),
        decreases states@.len() - i,
    {
        assert(all[i as int] == states@[i as int]@);
        if has_one(&states[i], keys) {
            return Some(states[i].copy());
        }
        i = i + 1;
    }
    None
}

/// Whether a value has an array under one of these keys.
pub open spec fn has_array(v: JsonV, keys: Seq<Seq<char>>) -> bool {
    exists|i: int| 0 <= i < keys.len() && v.field(#[trigger] keys[i]) is Array
}

/// The first state, from the `i`-th on, that has an array under one of these keys.
pub open spec fn first_with_array(v: Seq<JsonV>, keys: Seq<Seq<char>>, i: int) -> Option<JsonV>
    decreases v.len() - i,
{
    if i < 0 || i >= v.len() {
        None
    } else if has_array(v[i], keys) {
        Some(v[i])
    } else {
        first_with_array(v, keys, i + 1)
    }
}

fn has_one_array(v: &Json, keys: &[&str]) -> (r: bool)
    ensures
        r == has_array(v@, slices(keys@)),
{
    let ghost all = slices(keys@);
    let mut i: usize = 0;
    while i < keys.len()
        invariant
            0 <= i <= keys@.len(),
            all == slices(keys@),
            forall|k: int| 0 <= k < i ==> v@.field(#[trigger] all[k]) !is Array,
        decreases keys@.len() - i,
    {
        assert(all[i as int] == keys@[i as int]@);
        if v.field(keys[i]).as_array().is_some() {
            return true;
        }
        i = i + 1;
    }
    false
}

/// The first state of a widget of a page with this name that has an array under one of
/// these keys.
pub fn first_having_array(page: &Json, name: &str, keys: &[&str]) -> (r: Option<Json>)
    ensures
        json::read_of(r) == first_with_array(states_of(page@, name@), slices(keys@), 0),
{
    let states: Vec<Json> = all_valid(page, name);
    let ghost all = json::values(states@);
    let mut i: usize = 0;
    while i < states.len()
        invariant
            0 <= i <= states@.len(),
            all == json::values(states@),
            all == states_of(page@, name@),
            first_with_array(all, slices(keys@), 0) == first_with_array(
                all,
                slices(keys@),
                i as int,
            ),
        decreases states@.len() - i,
    {
        assert(all[i as int] == states@[i as int]@);
        if has_one_array(&states[i], keys) {
            return Some(states[i].copy());
        }
        i = i + 1;
    }
    None
}

} // verus!
