//! The members of JSON text as they are written. A reader of records refuses a field that
//! occurs twice, and passes over what is no field.

use crate::json::{self, Json, JsonV};
use crate::keys;
use crate::pieces;
use crate::text;
use crate::widgets;
use vstd::prelude::*;

verus! {

/// The name and the value of a member, as they are written; one piece alone where there is no
/// colon.
pub open spec fn halves(member: Seq<char>) -> Seq<Seq<char>> {
    pieces::pieces(member, ':', 0)
}

/// The name of a member; none where the text is no member.
pub open spec fn name_of(member: Seq<char>) -> Option<Seq<char>> {
    if halves(member).len() != 2 {
        None
    } else {
        match json::json_value(halves(member)[0]) {
            Some(JsonV::Text(name)) => Some(name),
            _ => None,
        }
    }
}

/// The members or the elements of an object or a list, as they are written.
pub open spec fn parts_of(s: Seq<char>) -> Seq<Seq<char>> {
    pieces::pieces(s, ',', 1)
}

/// Whether two members of an object have the same one of these names.
pub open spec fn repeats(s: Seq<char>, names: Seq<Seq<char>>) -> bool {
    exists|i: int, k: int|
        0 <= i < k < parts_of(s).len() && (#[trigger] name_of(parts_of(s)[i]) matches Some(name)
            && names.contains(name) && #[trigger] name_of(parts_of(s)[k]) == Some(name))
}

/// Whether a text is a list.
pub open spec fn is_list(s: Seq<char>) -> bool {
    text::trim_start(s).len() > 0 && text::trim_start(s)[0] == '['
}

/// The value, as it is written, of the first member with this name, from the `i`-th on.
pub open spec fn value_under(members: Seq<Seq<char>>, name: Seq<char>, i: int) -> Option<Seq<char>>
    decreases members.len() - i,
{
    if i < 0 || i >= members.len() {
        None
    } else if name_of(members[i]) == Some(name) {
        Some(halves(members[i])[1])
    } else {
        value_under(members, name, i + 1)
    }
}

/// A field of a record, as it is written: the member under its name, or, where the record is
/// written as a list, the element in its place.
pub open spec fn field_text(s: Seq<char>, name: Seq<char>, place: int) -> Option<Seq<char>> {
    let parts = parts_of(s);
    if is_list(s) {
        if place < parts.len() {
            Some(parts[place])
        } else {
            None
        }
    } else {
        value_under(parts, name, 0)
    }
}

/// Whether a field of a record is itself a record in which one of these names occurs twice.
pub open spec fn field_repeats(
    s: Seq<char>,
    name: Seq<char>,
    place: int,
    names: Seq<Seq<char>>,
) -> bool {
    field_text(s, name, place) matches Some(t) && repeats(t, names)
}

/// Whether some element of a field of a record is a record in which one of these names occurs
/// twice.
pub open spec fn elements_repeat(
    s: Seq<char>,
    name: Seq<char>,
    place: int,
    names: Seq<Seq<char>>,
) -> bool {
    field_text(s, name, place) matches Some(t) && (is_list(t) && exists|i: int|
        0 <= i < parts_of(t).len() && repeats(#[trigger] parts_of(t)[i], names))
}

/// Whether a text writes the members of an object one behind the other, each with its name
/// and, down to a depth, its value in the same way; any other value is written without members.
pub open spec fn is_spelled(s: Seq<char>, value: JsonV, depth: nat) -> bool
    decreases depth,
{
    match value {
        JsonV::Object(m) => {
            &&& !is_list(s)
            &&& m.len() > 0 ==> parts_of(s).len() == m.len()
            &&& m.len() == 0 ==> forall|i: int|
                0 <= i < parts_of(s).len() ==> name_of(#[trigger] parts_of(s)[i]) is None
            &&& forall|i: int|
                0 <= i < m.len() ==> name_of(#[trigger] parts_of(s)[i]) == Some(m[i].0) && (depth
                    > 0 ==> is_spelled(halves(parts_of(s)[i])[1], m[i].1, (depth - 1) as nat))
        },
        _ => forall|i: int|
            0 <= i < parts_of(s).len() ==> name_of(#[trigger] parts_of(s)[i]) is None,
    }
}

proof fn lemma_before_differs(a: Seq<char>, b: Seq<char>)
    requires
        text::before(a, b),
    ensures
        a != b,
    decreases a.len(),
{
    if a.len() > 0 && a[0] == b[0] {
        lemma_before_differs(a.subrange(1, a.len() as int), b.subrange(1, b.len() as int));
    }
}

proof fn lemma_names_ascend(m: Seq<(Seq<char>, JsonV)>, i: int, k: int)
    requires
        json::in_order(m),
        0 <= i < k < m.len(),
    ensures
        text::before(m[i].0, m[k].0),
    decreases k - i,
{
    assert(text::before(m[k - 1].0, m[k - 1 + 1].0));
    if i < k - 1 {
        lemma_names_ascend(m, i, k - 1);
        keys::lemma_before_transitive(m[i].0, m[k - 1].0, m[k].0);
    }
}

/// An object that is written in the order of its names repeats none of them.
pub proof fn lemma_spelled_once(
    s: Seq<char>,
    m: Seq<(Seq<char>, JsonV)>,
    depth: nat,
    names: Seq<Seq<char>>,
)
    requires
        json::in_order(m),
        is_spelled(s, JsonV::Object(m), depth),
    ensures
        !repeats(s, names),
{
    if repeats(s, names) {
        let parts = parts_of(s);
        let (i, k) = choose|i: int, k: int|
            0 <= i < k < parts.len() && (#[trigger] name_of(parts[i]) matches Some(name)
                && names.contains(name) && #[trigger] name_of(parts[k]) == Some(name));
        if m.len() == 0 {
            assert(name_of(parts[i]) is None);
        } else {
            assert(name_of(parts[i]) == Some(m[i].0));
            assert(name_of(parts[k]) == Some(m[k].0));
            lemma_names_ascend(m, i, k);
            lemma_before_differs(m[i].0, m[k].0);
        }
    }
}

proof fn lemma_value_under(s: Seq<char>, m: Seq<(Seq<char>, JsonV)>, depth: nat, name: Seq<char>, i: int)
    requires
        depth > 0,
        0 <= i <= m.len(),
        m.len() > 0,
        is_spelled(s, JsonV::Object(m), depth),
    ensures
        value_under(parts_of(s), name, i) matches Some(t) ==> exists|k: int|
            i <= k < m.len() && (#[trigger] m[k]).0 == name && is_spelled(
                t,
                m[k].1,
                (depth - 1) as nat,
            ),
    decreases m.len() - i,
{
    if i < m.len() {
        assert(name_of(parts_of(s)[i]) == Some(m[i].0));
        if m[i].0 != name {
            lemma_value_under(s, m, depth, name, i + 1);
        } else {
            assert(m[i].0 == name);
        }
    }
}

/// A member that is an object, too, repeats none of its names where it is written in order.
pub proof fn lemma_field_spelled_once(
    s: Seq<char>,
    m: Seq<(Seq<char>, JsonV)>,
    depth: nat,
    name: Seq<char>,
    place: int,
    names: Seq<Seq<char>>,
)
    requires
        depth > 0,
        is_spelled(s, JsonV::Object(m), depth),
        m.len() > 0,
        forall|k: int|
            0 <= k < m.len() && (#[trigger] m[k]).0 == name ==> match m[k].1 {
                JsonV::Object(inner) => json::in_order(inner),
                _ => true,
            },
    ensures
        !field_repeats(s, name, place, names),
{
    lemma_value_under(s, m, depth, name, 0);
    if let Some(t) = value_under(parts_of(s), name, 0) {
        let k = choose|k: int|
            0 <= k < m.len() && (#[trigger] m[k]).0 == name && is_spelled(
                t,
                m[k].1,
                (depth - 1) as nat,
            );
        match m[k].1 {
            JsonV::Object(inner) => {
                lemma_spelled_once(t, inner, (depth - 1) as nat, names);
            },
            _ => {},
        }
    }
}

fn member_name(member: &str) -> (r: Option<String>)
    ensures
        text::text_of(r) == name_of(member@),
{
    let parts: Vec<String> = pieces::cut_pieces(member, ':', 0);
    assert(text::texts(parts@).len() == parts@.len());
    if parts.len() != 2 {
        return None;
    }
    assert(text::texts(parts@)[0] == parts@[0]@);
    match Json::parse(parts[0].as_str()) {
        Some(Json::Text(name)) => Some(name),
        _ => None,
    }
}

fn member_names(s: &str) -> (r: Vec<Option<String>>)
    ensures
        r@.len() == parts_of(s@).len(),
        forall|i: int| 0 <= i < r@.len() ==> text::text_of(#[trigger] r@[i]) == name_of(parts_of(s@)[i]),
{
    let parts: Vec<String> = pieces::cut_pieces(s, ',', 1);
    let ghost all = parts_of(s@);
    let mut out: Vec<Option<String>> = Vec::new();
    let mut i: usize = 0;
    while i < parts.len()
        invariant
            0 <= i <= parts@.len(),
            all == text::texts(parts@),
            out@.len() == i,
            forall|k: int| 0 <= k < i ==> text::text_of(#[trigger] out@[k]) == name_of(all[k]),
        decreases parts@.len() - i,
    {
        assert(all[i as int] == parts@[i as int]@);
        out.push(member_name(parts[i].as_str()));
        i = i + 1;
    }
    out
}

fn is_listed(name: &str, names: &[&str]) -> (r: bool)
    ensures
        r == widgets::slices(names@).contains(name@),
{
    let ghost all = widgets::slices(names@);
    let mut i: usize = 0;
    while i < names.len()
        invariant
            0 <= i <= names@.len(),
            all == widgets::slices(names@),
            forall|k: int| 0 <= k < i ==> all[k] != name@,
        decreases names@.len() - i,
    {
        assert(all[i as int] == names@[i as int]@);
        if text::same(names[i], name) {
            return true;
        }
        i = i + 1;
    }
    false
}

fn has_name(v: &Option<String>, name: &str) -> (r: bool)
    ensures
        r == (text::text_of(*v) == Some(name@)),
{
    match v {
        Some(n) => text::same(n.as_str(), name),
        None => false,
    }
}

/// Whether two members of an object have the same one of these names.
pub fn has_repeats(s: &str, names: &[&str]) -> (r: bool)
    ensures
        r == repeats(s@, widgets::slices(names@)),
{
    let found: Vec<Option<String>> = member_names(s);
    let ghost all = parts_of(s@);
    let ghost wanted = widgets::slices(names@);
    let mut i: usize = 0;
    while i < found.len()
        invariant
            0 <= i <= found@.len(),
            all == parts_of(s@),
            wanted == widgets::slices(names@),
            found@.len() == all.len(),
            forall|k: int| 0 <= k < found@.len() ==> text::text_of(#[trigger] found@[k]) == name_of(all[k]),
            forall|a: int, b: int|
                0 <= a < i && a < b < all.len() ==> !(#[trigger] name_of(all[a]) matches Some(name)
                    && wanted.contains(name) && #[trigger] name_of(all[b]) == Some(name)),
        decreases found@.len() - i,
    {
        if let Some(name) = &found[i] {
            assert(name_of(all[i as int]) == Some(name@));
            if is_listed(name.as_str(), names) {
                let mut k: usize = i + 1;
                while k < found.len()
                    invariant
                        i < k <= found@.len(),
                        0 <= i < found@.len(),
                        all == parts_of(s@),
                        wanted == widgets::slices(names@),
                        wanted.contains(name@),
                        found@.len() == all.len(),
                        name_of(all[i as int]) == Some(name@),
                        forall|j: int|
                            0 <= j < found@.len() ==> text::text_of(#[trigger] found@[j])
                                == name_of(all[j]),
                        forall|b: int| i < b < k ==> #[trigger] name_of(all[b]) != Some(name@),
                    decreases found@.len() - k,
                {
                    assert(text::text_of(found@[k as int]) == name_of(all[k as int]));
                    if has_name(&found[k], name.as_str()) {
                        assert(name_of(all[i as int]) == name_of(all[k as int]));
                        return true;
                    }
                    k = k + 1;
                }
            }
        } else {
            assert(name_of(all[i as int]) is None);
        }
        i = i + 1;
    }
    false
}

fn begins_with(s: &str, c: char) -> (r: bool)
    ensures
        r == (text::trim_start(s@).len() > 0 && text::trim_start(s@)[0] == c),
{
    let v: Vec<char> = text::chars_of(s);
    let mut i: usize = 0;
    assert(s@.skip(0) =~= s@);
    while i < v.len() && text::is_white_space(v[i])
        invariant
            0 <= i <= v@.len(),
            v@ == s@,
            text::trim_start(s@) == text::trim_start(s@.skip(i as int)),
        decreases v@.len() - i,
    {
        let ghost rest = s@.skip(i as int);
        assert(rest[0] == v@[i as int]);
        assert(rest.subrange(1, rest.len() as int) =~= s@.skip(i + 1));
        i = i + 1;
    }
    let ghost rest = s@.skip(i as int);
    if i < v.len() {
        assert(rest[0] == v@[i as int]);
        v[i] == c
    } else {
        false
    }
}

/// A field of a record, as it is written.
pub fn find_field_text(s: &str, name: &str, place: usize) -> (r: Option<String>)
    ensures
        text::text_of(r) == field_text(s@, name@, place as int),
{
    let parts: Vec<String> = pieces::cut_pieces(s, ',', 1);
    let ghost all = parts_of(s@);
    if begins_with(s, '[') {
        assert(all.len() == parts@.len());
        if place < parts.len() {
            assert(all[place as int] == parts@[place as int]@);
            return Some(parts[place].clone());
        }
        return None;
    }
    let mut i: usize = 0;
    while i < parts.len()
        invariant
            0 <= i <= parts@.len(),
            all == text::texts(parts@),
            all == parts_of(s@),
            !is_list(s@),
            value_under(all, name@, 0) == value_under(all, name@, i as int),
        decreases parts@.len() - i,
    {
        assert(all[i as int] == parts@[i as int]@);
        if has_name(&member_name(parts[i].as_str()), name) {
            let both: Vec<String> = pieces::cut_pieces(parts[i].as_str(), ':', 0);
            assert(text::texts(both@).len() == both@.len());
            assert(text::texts(both@)[1] == both@[1]@);
            return Some(both[1].clone());
        }
        i = i + 1;
    }
    None
}

/// Whether a field of a record is itself a record in which one of these names occurs twice.
pub fn has_field_repeats(s: &str, name: &str, place: usize, names: &[&str]) -> (r: bool)
    ensures
        r == field_repeats(s@, name@, place as int, widgets::slices(names@)),
{
    match find_field_text(s, name, place) {
        Some(t) => has_repeats(t.as_str(), names),
        None => false,
    }
}

/// Whether some element of a field of a record is a record in which one of these names occurs
/// twice.
pub fn has_element_repeats(s: &str, name: &str, place: usize, names: &[&str]) -> (r: bool)
    ensures
        r == elements_repeat(s@, name@, place as int, widgets::slices(names@)),
{
    let t: String = match find_field_text(s, name, place) {
        Some(t) => t,
        None => return false,
    };
    if !begins_with(t.as_str(), '[') {
        return false;
    }
    let parts: Vec<String> = pieces::cut_pieces(t.as_str(), ',', 1);
    let ghost all = parts_of(t@);
    let mut i: usize = 0;
    while i < parts.len()
        invariant
            0 <= i <= parts@.len(),
            all == text::texts(parts@),
            all == parts_of(t@),
            is_list(t@),
            field_text(s@, name@, place as int) == Some(t@),
            forall|k: int| 0 <= k < i ==> !repeats(#[trigger] all[k], widgets::slices(names@)),
        decreases parts@.len() - i,
    {
        assert(all[i as int] == parts@[i as int]@);
        if has_repeats(parts[i].as_str(), names) {
            return true;
        }
        i = i + 1;
    }
    false
}

/// Whether a text is an object.
pub open spec fn is_object(s: Seq<char>) -> bool {
    text::trim_start(s).len() > 0 && text::trim_start(s)[0] == '{'
}

/// The members with these names among the first ones, in order; nothing where one of those has
/// no name or such a member no value.
pub open spec fn plain_members(parts: Seq<Seq<char>>, names: Seq<Seq<char>>, n: int) -> Option<
    Seq<(Seq<char>, JsonV)>,
>
    decreases n,
{
    if n <= 0 {
        Some(Seq::empty())
    } else {
        match (plain_members(parts, names, n - 1), name_of(parts[n - 1])) {
            (Some(before), Some(name)) => if names.contains(name) {
                match json::json_value(halves(parts[n - 1])[1]) {
                    Some(value) => Some(before.push((name, value))),
                    None => None,
                }
            } else {
                Some(before)
            },
            _ => None,
        }
    }
}

/// The value of a record with these fields. What stands under other names is passed over.
pub open spec fn plain_record(s: Seq<char>, names: Seq<Seq<char>>) -> Option<JsonV> {
    match json::json_value(s) {
        Some(j) => Some(j),
        None => if is_object(s) {
            match plain_members(parts_of(s), names, parts_of(s).len() as int) {
                Some(m) => Some(JsonV::Object(m)),
                None => None,
            }
        } else {
            None
        },
    }
}

/// The values of the first records of a row.
pub open spec fn plain_records(parts: Seq<Seq<char>>, names: Seq<Seq<char>>, n: int) -> Option<
    Seq<JsonV>,
>
    decreases n,
{
    if n <= 0 {
        Some(Seq::empty())
    } else {
        match (plain_records(parts, names, n - 1), plain_record(parts[n - 1], names)) {
            (Some(before), Some(value)) => Some(before.push(value)),
            _ => None,
        }
    }
}

/// What a field of a record holds: a value, a record with some fields, or a row of such records.
#[derive(Debug)]
pub enum Inner<'a> {
    Plain,
    Record(&'a [&'a str]),
    Records(&'a [&'a str]),
}

/// What an [`Inner`] says.
pub enum InnerV {
    Plain,
    Record(Seq<Seq<char>>),
    Records(Seq<Seq<char>>),
}

impl View for Inner<'_> {
    type V = InnerV;

    open spec fn view(&self) -> InnerV {
        match self {
            Inner::Plain => InnerV::Plain,
            Inner::Record(names) => InnerV::Record(widgets::slices(names@)),
            Inner::Records(names) => InnerV::Records(widgets::slices(names@)),
        }
    }
}

/// The fields of a record, each with what it holds.
pub open spec fn fields_of(v: Seq<(&str, Inner<'_>)>) -> Seq<(Seq<char>, InnerV)> {
    Seq::new(v.len(), |i: int| (v[i].0@, v[i].1@))
}

/// The value of a field.
pub open spec fn inner_value(s: Seq<char>, inner: InnerV) -> Option<JsonV> {
    match inner {
        InnerV::Plain => json::json_value(s),
        InnerV::Record(names) => plain_record(s, names),
        InnerV::Records(names) => match json::json_value(s) {
            Some(j) => Some(j),
            None => if is_list(s) {
                match plain_records(parts_of(s), names, parts_of(s).len() as int) {
                    Some(v) => Some(JsonV::Array(v)),
                    None => None,
                }
            } else {
                None
            },
        },
    }
}

/// What a field holds, from the `i`-th on.
pub open spec fn inner_of(fields: Seq<(Seq<char>, InnerV)>, name: Seq<char>, i: int) -> Option<InnerV>
    decreases fields.len() - i,
{
    if i < 0 || i >= fields.len() {
        None
    } else if fields[i].0 == name {
        Some(fields[i].1)
    } else {
        inner_of(fields, name, i + 1)
    }
}

/// The members that are fields among the first ones, in order.
pub open spec fn record_members(
    parts: Seq<Seq<char>>,
    fields: Seq<(Seq<char>, InnerV)>,
    n: int,
) -> Option<Seq<(Seq<char>, JsonV)>>
    decreases n,
{
    if n <= 0 {
        Some(Seq::empty())
    } else {
        match (record_members(parts, fields, n - 1), name_of(parts[n - 1])) {
            (Some(before), Some(name)) => match inner_of(fields, name, 0) {
                Some(inner) => match inner_value(halves(parts[n - 1])[1], inner) {
                    Some(value) => Some(before.push((name, value))),
                    None => None,
                },
                None => Some(before),
            },
            _ => None,
        }
    }
}

/// The fields that the first elements of a list stand for.
pub open spec fn record_elements(
    parts: Seq<Seq<char>>,
    fields: Seq<(Seq<char>, InnerV)>,
    n: int,
) -> Option<Seq<JsonV>>
    decreases n,
{
    if n <= 0 {
        Some(Seq::empty())
    } else if n > fields.len() {
        None
    } else {
        match (record_elements(parts, fields, n - 1), inner_value(parts[n - 1], fields[n - 1].1)) {
            (Some(before), Some(value)) => Some(before.push(value)),
            _ => None,
        }
    }
}

/// The value of a record as it is written, an object or a list of its fields. Where the text as
/// a whole is no value, it is one of the fields alone: what stands under other names is passed
/// over, however deep it is and whatever its numbers are.
pub open spec fn record_value(s: Seq<char>, fields: Seq<(Seq<char>, InnerV)>) -> Option<JsonV> {
    match json::json_value(s) {
        Some(j) => Some(j),
        None => if !json::is_json_text(s) {
            None
        } else if is_list(s) {
            match record_elements(parts_of(s), fields, parts_of(s).len() as int) {
                Some(v) => Some(JsonV::Array(v)),
                None => None,
            }
        } else if is_object(s) {
            match record_members(parts_of(s), fields, parts_of(s).len() as int) {
                Some(m) => Some(JsonV::Object(m)),
                None => None,
            }
        } else {
            None
        },
    }
}

/// The value of a member, as it is written.
fn member_value(member: &str) -> (r: String)
    requires
        name_of(member@) is Some,
    ensures
        r@ == halves(member@)[1],
{
    let parts: Vec<String> = pieces::cut_pieces(member, ':', 0);
    assert(text::texts(parts@).len() == parts@.len());
    assert(text::texts(parts@)[1] == parts@[1]@);
    parts[1].clone()
}

proof fn lemma_plain_members_stop(parts: Seq<Seq<char>>, names: Seq<Seq<char>>, i: int, n: int)
    requires
        i <= n,
        plain_members(parts, names, i) is None,
    ensures
        plain_members(parts, names, n) is None,
    decreases n - i,
{
    if i < n {
        lemma_plain_members_stop(parts, names, i, n - 1);
    }
}

fn read_plain_record(s: &str, names: &[&str]) -> (r: Option<Json>)
    ensures
        json::read_of(r) == plain_record(s@, widgets::slices(names@)),
{
    if let Some(j) = Json::parse(s) {
        return Some(j);
    }
    if !begins_with(s, '{') {
        return None;
    }
    let parts: Vec<String> = pieces::cut_pieces(s, ',', 1);
    let ghost all = parts_of(s@);
    let ghost wanted = widgets::slices(names@);
    let mut out: Vec<(String, Json)> = Vec::new();
    assert(json::members(out@) =~= Seq::empty());
    let mut i: usize = 0;
    while i < parts.len()
        invariant
            0 <= i <= parts@.len(),
            all == text::texts(parts@),
            all == parts_of(s@),
            wanted == widgets::slices(names@),
            json::json_value(s@) is None,
            is_object(s@),
            plain_members(all, wanted, i as int) == Some(json::members(out@)),
        decreases parts@.len() - i,
    {
        assert(all[i as int] == parts@[i as int]@);
        let name: Option<String> = member_name(parts[i].as_str());
        if let Some(name) = name {
            if is_listed(name.as_str(), names) {
                match Json::parse(member_value(parts[i].as_str()).as_str()) {
                    Some(value) => {
                        proof {
                            json::lemma_members_push(out@, (name, value));
                        }
                        out.push((name, value));
                    },
                    None => {
                        proof {
                            lemma_plain_members_stop(all, wanted, i + 1, all.len() as int);
                        }
                        return None;
                    },
                }
            }
        } else {
            proof {
                lemma_plain_members_stop(all, wanted, i + 1, all.len() as int);
            }
            return None;
        }
        i = i + 1;
    }
    let r: Json = Json::Object(out);
    assert(r@->Object_0 =~= json::members(out@));
    Some(r)
}

proof fn lemma_plain_records_stop(parts: Seq<Seq<char>>, names: Seq<Seq<char>>, i: int, n: int)
    requires
        i <= n,
        plain_records(parts, names, i) is None,
    ensures
        plain_records(parts, names, n) is None,
    decreases n - i,
{
    if i < n {
        lemma_plain_records_stop(parts, names, i, n - 1);
    }
}

fn read_plain_records(s: &str, names: &[&str]) -> (r: Option<Json>)
    ensures
        json::read_of(r) == inner_value(s@, InnerV::Records(widgets::slices(names@))),
{
    if let Some(j) = Json::parse(s) {
        return Some(j);
    }
    if !begins_with(s, '[') {
        return None;
    }
    let parts: Vec<String> = pieces::cut_pieces(s, ',', 1);
    let ghost all = parts_of(s@);
    let ghost wanted = widgets::slices(names@);
    let mut out: Vec<Json> = Vec::new();
    assert(json::values(out@) =~= Seq::empty());
    let mut i: usize = 0;
    while i < parts.len()
        invariant
            0 <= i <= parts@.len(),
            all == text::texts(parts@),
            all == parts_of(s@),
            wanted == widgets::slices(names@),
            json::json_value(s@) is None,
            is_list(s@),
            plain_records(all, wanted, i as int) == Some(json::values(out@)),
        decreases parts@.len() - i,
    {
        assert(all[i as int] == parts@[i as int]@);
        match read_plain_record(parts[i].as_str(), names) {
            Some(value) => {
                proof {
                    json::lemma_values_push(out@, value);
                }
                out.push(value);
            },
            None => {
                proof {
                    lemma_plain_records_stop(all, wanted, i + 1, all.len() as int);
                }
                return None;
            },
        }
        i = i + 1;
    }
    Some(Json::array(out))
}

fn read_inner(s: &str, inner: &Inner) -> (r: Option<Json>)
    ensures
        json::read_of(r) == inner_value(s@, inner@),
{
    match inner {
        Inner::Plain => Json::parse(s),
        Inner::Record(names) => read_plain_record(s, names),
        Inner::Records(names) => read_plain_records(s, names),
    }
}

/// The place of a field; the number of fields where there is no such field.
fn find_field(fields: &[(&str, Inner)], name: &str) -> (r: usize)
    ensures
        r <= fields@.len(),
        inner_of(fields_of(fields@), name@, 0) == if r < fields@.len() {
            Some(fields@[r as int].1@)
        } else {
            None
        },
{
    let ghost all = fields_of(fields@);
    let mut i: usize = 0;
    while i < fields.len()
        invariant
            0 <= i <= fields@.len(),
            all == fields_of(fields@),
            inner_of(all, name@, 0) == inner_of(all, name@, i as int),
        decreases fields@.len() - i,
    {
        assert(all[i as int] == (fields@[i as int].0@, fields@[i as int].1@));
        if text::same(fields[i].0, name) {
            return i;
        }
        i = i + 1;
    }
    i
}

proof fn lemma_record_stops(
    parts: Seq<Seq<char>>,
    fields: Seq<(Seq<char>, InnerV)>,
    i: int,
    n: int,
)
    requires
        i <= n,
    ensures
        record_members(parts, fields, i) is None ==> record_members(parts, fields, n) is None,
        record_elements(parts, fields, i) is None ==> record_elements(parts, fields, n) is None,
    decreases n - i,
{
    if i < n {
        lemma_record_stops(parts, fields, i, n - 1);
    }
}

fn read_members(s: &str, fields: &[(&str, Inner)]) -> (r: Option<Json>)
    ensures
        json::read_of(r) == (match record_members(
            parts_of(s@),
            fields_of(fields@),
            parts_of(s@).len() as int,
        ) {
            Some(m) => Some(JsonV::Object(m)),
            None => None,
        }),
{
    let parts: Vec<String> = pieces::cut_pieces(s, ',', 1);
    let ghost all = parts_of(s@);
    let ghost known = fields_of(fields@);
    let mut out: Vec<(String, Json)> = Vec::new();
    assert(json::members(out@) =~= Seq::empty());
    let mut i: usize = 0;
    while i < parts.len()
        invariant
            0 <= i <= parts@.len(),
            all == text::texts(parts@),
            all == parts_of(s@),
            known == fields_of(fields@),
            record_members(all, known, i as int) == Some(json::members(out@)),
        decreases parts@.len() - i,
    {
        assert(all[i as int] == parts@[i as int]@);
        proof {
            lemma_record_stops(all, known, i + 1, all.len() as int);
        }
        let name: Option<String> = member_name(parts[i].as_str());
        if let Some(name) = name {
            let place: usize = find_field(fields, name.as_str());
            if place < fields.len() {
                match read_inner(member_value(parts[i].as_str()).as_str(), &fields[place].1) {
                    Some(value) => {
                        proof {
                            json::lemma_members_push(out@, (name, value));
                        }
                        out.push((name, value));
                    },
                    None => return None,
                }
            }
        } else {
            return None;
        }
        i = i + 1;
    }
    let r: Json = Json::Object(out);
    assert(r@->Object_0 =~= json::members(out@));
    Some(r)
}

fn read_elements(s: &str, fields: &[(&str, Inner)]) -> (r: Option<Json>)
    ensures
        json::read_of(r) == (match record_elements(
            parts_of(s@),
            fields_of(fields@),
            parts_of(s@).len() as int,
        ) {
            Some(v) => Some(JsonV::Array(v)),
            None => None,
        }),
{
    let parts: Vec<String> = pieces::cut_pieces(s, ',', 1);
    let ghost all = parts_of(s@);
    let ghost known = fields_of(fields@);
    let mut out: Vec<Json> = Vec::new();
    assert(json::values(out@) =~= Seq::empty());
    let mut i: usize = 0;
    while i < parts.len()
        invariant
            0 <= i <= parts@.len(),
            i <= fields@.len(),
            all == text::texts(parts@),
            all == parts_of(s@),
            known == fields_of(fields@),
            record_elements(all, known, i as int) == Some(json::values(out@)),
        decreases parts@.len() - i,
    {
        assert(all[i as int] == parts@[i as int]@);
        proof {
            lemma_record_stops(all, known, i + 1, all.len() as int);
        }
        if i >= fields.len() {
            return None;
        }
        assert(known[i as int].1 == fields@[i as int].1@);
        match read_inner(parts[i].as_str(), &fields[i].1) {
            Some(value) => {
                proof {
                    json::lemma_values_push(out@, value);
                }
                out.push(value);
            },
            None => return None,
        }
        i = i + 1;
    }
    Some(Json::array(out))
}

/// Reads a record with these fields.
pub fn read_record(s: &str, fields: &[(&str, Inner)]) -> (r: Option<Json>)
    ensures
        json::read_of(r) == record_value(s@, fields_of(fields@)),
{
    if let Some(j) = Json::parse(s) {
        return Some(j);
    }
    if !json::json_skipped(s) {
        None
    } else if begins_with(s, '[') {
        read_elements(s, fields)
    } else if begins_with(s, '{') {
        read_members(s, fields)
    } else {
        None
    }
}

} // verus!
