//! JSON values: the data that pages, tools and stored references are made of.

use crate::members;
use crate::text;
use vstd::prelude::*;

verus! {

/// A JSON number. A number that is no integer keeps the bits of the double
/// nearest to it and the shortest decimal spelling of that double.
#[derive(Debug)]
pub enum Number {
    Unsigned(u64),
    Negative(i64),
    Real { bits: u64, spelling: String },
}

/// A JSON value. The keys of an object stand in ascending order, each once.
#[derive(Debug)]
pub enum Json {
    Null,
    Bool(bool),
    Number(Number),
    Text(String),
    Array(Vec<Json>),
    Object(Vec<(String, Json)>),
}

/// What a [`Number`] holds.
pub enum NumberV {
    Unsigned(u64),
    Negative(i64),
    Real(u64, Seq<char>),
}

/// What a [`Json`] value holds.
pub enum JsonV {
    Null,
    Bool(bool),
    Number(NumberV),
    Text(Seq<char>),
    Array(Seq<JsonV>),
    Object(Seq<(Seq<char>, JsonV)>),
}

impl View for Number {
    type V = NumberV;

    open spec fn view(&self) -> NumberV {
        match self {
            Number::Unsigned(n) => NumberV::Unsigned(*n),
            Number::Negative(n) => NumberV::Negative(*n),
            Number::Real { bits, spelling } => NumberV::Real(*bits, spelling@),
        }
    }
}

/// The contents of a value.
pub open spec fn contents(j: Json) -> JsonV
    decreases j,
{
    match j {
        Json::Null => JsonV::Null,
        Json::Bool(b) => JsonV::Bool(b),
        Json::Number(n) => JsonV::Number(n@),
        Json::Text(s) => JsonV::Text(s@),
        Json::Array(v) => JsonV::Array(
            Seq::new(
                v@.len(),
                |i: int|
                    if 0 <= i < v@.len() {
                        contents(v@[i])
                    } else {
                        JsonV::Null
                    },
            ),
        ),
        Json::Object(v) => JsonV::Object(
            Seq::new(
                v@.len(),
                |i: int|
                    if 0 <= i < v@.len() {
                        (v@[i].0@, contents(v@[i].1))
                    } else {
                        (Seq::empty(), JsonV::Null)
                    },
            ),
        ),
    }
}

impl View for Json {
    type V = JsonV;

    open spec fn view(&self) -> JsonV {
        contents(*self)
    }
}

/// The contents of a row of values.
pub open spec fn values(v: Seq<Json>) -> Seq<JsonV> {
    Seq::new(v.len(), |i: int| v[i]@)
}

/// The contents of the members of an object.
pub open spec fn members(v: Seq<(String, Json)>) -> Seq<(Seq<char>, JsonV)> {
    Seq::new(v.len(), |i: int| (v[i].0@, v[i].1@))
}

pub proof fn lemma_values_push(v: Seq<Json>, j: Json)
    ensures
        values(v.push(j)) == values(v).push(j@),
{
    assert(values(v.push(j)) =~= values(v).push(j@));
}

pub proof fn lemma_members_push(v: Seq<(String, Json)>, member: (String, Json))
    ensures
        members(v.push(member)) == members(v).push((member.0@, member.1@)),
{
    assert(members(v.push(member)) =~= members(v).push((member.0@, member.1@)));
}

/// The value of the first member with this key.
pub open spec fn lookup(m: Seq<(Seq<char>, JsonV)>, key: Seq<char>) -> Option<JsonV>
    decreases m.len(),
{
    if m.len() == 0 {
        None
    } else if m[0].0 == key {
        Some(m[0].1)
    } else {
        lookup(m.drop_first(), key)
    }
}

/// What an object holds is smaller than the object.
pub proof fn lemma_lookup_smaller(m: Seq<(Seq<char>, JsonV)>, key: Seq<char>)
    ensures
        lookup(m, key) matches Some(v) ==> decreases_to!(m => v),
    decreases m.len(),
{
    if m.len() > 0 {
        if m[0].0 == key {
            assert(decreases_to!(m => m[0]));
            assert(decreases_to!(m[0] => m[0].1));
        } else {
            lemma_lookup_smaller(m.drop_first(), key);
            assert(decreases_to!(m => m.drop_first()));
        }
    }
}

/// The members with one put in its place, instead of one with the same key.
pub open spec fn placed(
    m: Seq<(Seq<char>, JsonV)>,
    key: Seq<char>,
    value: JsonV,
) -> Seq<(Seq<char>, JsonV)>
    decreases m.len(),
{
    if m.len() == 0 {
        seq![(key, value)]
    } else if m[0].0 == key {
        seq![(key, value)] + m.drop_first()
    } else if text::before(key, m[0].0) {
        seq![(key, value)] + m
    } else {
        seq![m[0]] + placed(m.drop_first(), key, value)
    }
}

/// The members without the first one with this key.
pub open spec fn dropped(m: Seq<(Seq<char>, JsonV)>, key: Seq<char>) -> Seq<(Seq<char>, JsonV)>
    decreases m.len(),
{
    if m.len() == 0 {
        m
    } else if m[0].0 == key {
        m.drop_first()
    } else {
        seq![m[0]] + dropped(m.drop_first(), key)
    }
}

impl JsonV {
    /// An object without members.
    pub open spec fn object() -> JsonV {
        JsonV::Object(Seq::empty())
    }

    /// The member of an object with this key.
    pub open spec fn get(self, key: Seq<char>) -> Option<JsonV> {
        match self {
            JsonV::Object(m) => lookup(m, key),
            _ => None,
        }
    }

    /// The member of an object with this key; null where there is none.
    pub open spec fn field(self, key: Seq<char>) -> JsonV {
        match self.get(key) {
            Some(v) => v,
            None => JsonV::Null,
        }
    }

    /// An object with one member set.
    pub open spec fn with(self, key: Seq<char>, value: JsonV) -> JsonV {
        match self {
            JsonV::Object(m) => JsonV::Object(placed(m, key, value)),
            _ => self,
        }
    }

    /// An object without one member.
    pub open spec fn without(self, key: Seq<char>) -> JsonV {
        match self {
            JsonV::Object(m) => JsonV::Object(dropped(m, key)),
            _ => self,
        }
    }

    pub open spec fn as_text(self) -> Option<Seq<char>> {
        match self {
            JsonV::Text(s) => Some(s),
            _ => None,
        }
    }

    pub open spec fn as_bool(self) -> Option<bool> {
        match self {
            JsonV::Bool(b) => Some(b),
            _ => None,
        }
    }

    pub open spec fn as_unsigned(self) -> Option<u64> {
        match self {
            JsonV::Number(NumberV::Unsigned(n)) => Some(n),
            _ => None,
        }
    }

    pub open spec fn as_array(self) -> Option<Seq<JsonV>> {
        match self {
            JsonV::Array(v) => Some(v),
            _ => None,
        }
    }

    pub open spec fn as_object(self) -> Option<Seq<(Seq<char>, JsonV)>> {
        match self {
            JsonV::Object(m) => Some(m),
            _ => None,
        }
    }

    /// The elements of an array; none for any other value.
    pub open spec fn elements(self) -> Seq<JsonV> {
        match self {
            JsonV::Array(v) => v,
            _ => Seq::empty(),
        }
    }

    pub open spec fn unsigned(n: u64) -> JsonV {
        JsonV::Number(NumberV::Unsigned(n))
    }

    /// Text, or null where there is none.
    pub open spec fn optional_text(s: Option<Seq<char>>) -> JsonV {
        match s {
            Some(t) => JsonV::Text(t),
            None => JsonV::Null,
        }
    }

    /// A number, or null where there is none.
    pub open spec fn optional_unsigned(n: Option<u64>) -> JsonV {
        match n {
            Some(v) => JsonV::unsigned(v),
            None => JsonV::Null,
        }
    }
}

/// The contents of a value that may be missing.
pub open spec fn view_of(o: Option<&Json>) -> Option<JsonV> {
    match o {
        Some(j) => Some(j@),
        None => None,
    }
}

/// The text of a string slice that may be missing.
pub open spec fn str_of(o: Option<&str>) -> Option<Seq<char>> {
    match o {
        Some(s) => Some(s@),
        None => None,
    }
}

impl Number {
    pub fn copy(&self) -> (r: Number)
        ensures
            r@ == self@,
    {
        match self {
            Number::Unsigned(n) => Number::Unsigned(*n),
            Number::Negative(n) => Number::Negative(*n),
            Number::Real { bits, spelling } => Number::Real {
                bits: *bits,
                spelling: spelling.clone(),
            },
        }
    }

    pub fn equals(&self, other: &Number) -> (r: bool)
        ensures
            r == (self@ == other@),
    {
        match (self, other) {
            (Number::Unsigned(a), Number::Unsigned(b)) => *a == *b,
            (Number::Negative(a), Number::Negative(b)) => *a == *b,
            (Number::Real { bits: a, spelling: s }, Number::Real { bits: b, spelling: t }) => *a
                == *b && text::same(s.as_str(), t.as_str()),
            _ => false,
        }
    }
}

impl Json {
    /// An object without members.
    pub fn object() -> (r: Json)
        ensures
            r@ == JsonV::object(),
    {
        let r: Json = Json::Object(Vec::new());
        assert(r@->Object_0 =~= Seq::empty());
        r
    }

    pub fn text(s: &str) -> (r: Json)
        ensures
            r@ == JsonV::Text(s@),
    {
        Json::Text(s.to_owned())
    }

    pub fn unsigned(n: u64) -> (r: Json)
        ensures
            r@ == JsonV::unsigned(n),
    {
        Json::Number(Number::Unsigned(n))
    }

    pub fn optional_text(s: Option<&str>) -> (r: Json)
        ensures
            r@ == JsonV::optional_text(str_of(s)),
    {
        match s {
            Some(t) => Json::text(t),
            None => Json::Null,
        }
    }

    pub fn optional_unsigned(n: Option<u64>) -> (r: Json)
        ensures
            r@ == JsonV::optional_unsigned(n),
    {
        match n {
            Some(v) => Json::unsigned(v),
            None => Json::Null,
        }
    }

    pub fn array(items: Vec<Json>) -> (r: Json)
        ensures
            r@ == JsonV::Array(values(items@)),
    {
        let r: Json = Json::Array(items);
        assert(r@->Array_0 =~= values(items@));
        r
    }

    /// The member of an object with this key.
    pub fn get(&self, key: &str) -> (r: Option<&Json>)
        ensures
            view_of(r) == self@.get(key@),
            r matches Some(j) ==> decreases_to!(self => j),
    {
        match self {
            Json::Object(m) => {
                let mut i: usize = 0;
                assert(members(m@) =~= self@->Object_0);
                assert(members(m@).skip(0) =~= members(m@));
                while i < m.len()
                    invariant
                        0 <= i <= m@.len(),
                        self@ == JsonV::Object(members(m@)),
                        decreases_to!(self => m@),
                        lookup(members(m@), key@) == lookup(members(m@).skip(i as int), key@),
                    decreases m@.len() - i,
                {
                    assert(members(m@).skip(i as int)[0] == (m@[i as int].0@, m@[i as int].1@));
                    assert(members(m@).skip(i as int).drop_first() =~= members(m@).skip(i + 1));
                    if text::same(m[i].0.as_str(), key) {
                        assert(decreases_to!(m@ => m@[i as int]));
                        assert(decreases_to!(m@[i as int] => m@[i as int].1));
                        return Some(&m[i].1);
                    }
                    i = i + 1;
                }
                None
            },
            _ => None,
        }
    }

    /// The member of an object with this key; null where there is none.
    pub fn field(&self, key: &str) -> (r: &Json)
        ensures
            r@ == self@.field(key@),
    {
        match self.get(key) {
            Some(j) => j,
            None => &Json::Null,
        }
    }

    pub fn as_str(&self) -> (r: Option<&str>)
        ensures
            str_of(r) == self@.as_text(),
    {
        match self {
            Json::Text(s) => Some(s.as_str()),
            _ => None,
        }
    }

    pub fn as_bool(&self) -> (r: Option<bool>)
        ensures
            r == self@.as_bool(),
    {
        match self {
            Json::Bool(b) => Some(*b),
            _ => None,
        }
    }

    pub fn as_u64(&self) -> (r: Option<u64>)
        ensures
            r == self@.as_unsigned(),
    {
        match self {
            Json::Number(Number::Unsigned(n)) => Some(*n),
            _ => None,
        }
    }

    pub fn as_array(&self) -> (r: Option<&Vec<Json>>)
        ensures
            match r {
                Some(v) => self@ == JsonV::Array(values(v@)),
                None => self@.as_array() is None,
            },
    {
        match self {
            Json::Array(v) => {
                assert(self@->Array_0 =~= values(v@));
                Some(v)
            },
            _ => None,
        }
    }

    pub fn as_object(&self) -> (r: Option<&Vec<(String, Json)>>)
        ensures
            match r {
                Some(m) => self@ == JsonV::Object(members(m@)),
                None => self@.as_object() is None,
            },
    {
        match self {
            Json::Object(m) => {
                assert(self@->Object_0 =~= members(m@));
                Some(m)
            },
            _ => None,
        }
    }

    pub fn is_null(&self) -> (r: bool)
        ensures
            r == (self@ is Null),
    {
        matches!(self, Json::Null)
    }

    pub fn is_object(&self) -> (r: bool)
        ensures
            r == (self@ is Object),
    {
        matches!(self, Json::Object(_))
    }

    /// A copy with the same contents.
    pub fn copy(&self) -> (r: Json)
        ensures
            r@ == self@,
        decreases self,
    {
        match self {
            Json::Null => Json::Null,
            Json::Bool(b) => Json::Bool(*b),
            Json::Number(n) => Json::Number(n.copy()),
            Json::Text(s) => Json::Text(s.clone()),
            Json::Array(v) => {
                let mut out: Vec<Json> = Vec::new();
                let mut i: usize = 0;
                while i < v.len()
                    invariant
                        0 <= i <= v@.len(),
                        decreases_to!(self => v@),
                        values(out@) == values(v@).take(i as int),
                    decreases v@.len() - i,
                {
                    assert(decreases_to!(v@ => v@[i as int]));
                    let item: Json = v[i].copy();
                    proof {
                        lemma_values_push(out@, item);
                    }
                    out.push(item);
                    assert(values(out@) =~= values(v@).take(i + 1));
                    i = i + 1;
                }
                assert(values(out@) =~= values(v@));
                let r: Json = Json::Array(out);
                assert(r@->Array_0 =~= values(out@));
                assert(self@->Array_0 =~= values(v@));
                r
            },
            Json::Object(m) => {
                let mut out: Vec<(String, Json)> = Vec::new();
                let mut i: usize = 0;
                while i < m.len()
                    invariant
                        0 <= i <= m@.len(),
                        decreases_to!(self => m@),
                        members(out@) == members(m@).take(i as int),
                    decreases m@.len() - i,
                {
                    assert(decreases_to!(m@ => m@[i as int]));
                    assert(decreases_to!(m@[i as int] => m@[i as int].1));
                    let member: (String, Json) = (m[i].0.clone(), m[i].1.copy());
                    proof {
                        lemma_members_push(out@, member);
                    }
                    out.push(member);
                    assert(members(out@) =~= members(m@).take(i + 1));
                    i = i + 1;
                }
                assert(members(out@) =~= members(m@));
                let r: Json = Json::Object(out);
                assert(r@->Object_0 =~= members(out@));
                assert(self@->Object_0 =~= members(m@));
                r
            },
        }
    }

    /// Whether two values hold the same.
    pub fn equals(&self, other: &Json) -> (r: bool)
        ensures
            r == (self@ == other@),
        decreases self,
    {
        match (self, other) {
            (Json::Null, Json::Null) => true,
            (Json::Bool(a), Json::Bool(b)) => *a == *b,
            (Json::Number(a), Json::Number(b)) => a.equals(b),
            (Json::Text(a), Json::Text(b)) => text::same(a.as_str(), b.as_str()),
            (Json::Array(a), Json::Array(b)) => {
                assert(self@->Array_0 =~= values(a@));
                assert(other@->Array_0 =~= values(b@));
                if a.len() != b.len() {
                    return false;
                }
                let mut i: usize = 0;
                while i < a.len()
                    invariant
                        0 <= i <= a@.len(),
                        a@.len() == b@.len(),
                        self@ == JsonV::Array(values(a@)),
                        other@ == JsonV::Array(values(b@)),
                        decreases_to!(self => a@),
                        forall|k: int| 0 <= k < i ==> values(a@)[k] == values(b@)[k],
                    decreases a@.len() - i,
                {
                    assert(decreases_to!(a@ => a@[i as int]));
                    if !a[i].equals(&b[i]) {
                        assert(values(a@)[i as int] != values(b@)[i as int]);
                        return false;
                    }
                    i = i + 1;
                }
                assert(values(a@) =~= values(b@));
                true
            },
            (Json::Object(a), Json::Object(b)) => {
                assert(self@->Object_0 =~= members(a@));
                assert(other@->Object_0 =~= members(b@));
                if a.len() != b.len() {
                    return false;
                }
                let mut i: usize = 0;
                while i < a.len()
                    invariant
                        0 <= i <= a@.len(),
                        a@.len() == b@.len(),
                        self@ == JsonV::Object(members(a@)),
                        other@ == JsonV::Object(members(b@)),
                        decreases_to!(self => a@),
                        forall|k: int| 0 <= k < i ==> members(a@)[k] == members(b@)[k],
                    decreases a@.len() - i,
                {
                    assert(decreases_to!(a@ => a@[i as int]));
                    assert(decreases_to!(a@[i as int] => a@[i as int].1));
                    if !text::same(a[i].0.as_str(), b[i].0.as_str()) || !a[i].1.equals(&b[i].1) {
                        assert(members(a@)[i as int] != members(b@)[i as int]);
                        return false;
                    }
                    i = i + 1;
                }
                assert(members(a@) =~= members(b@));
                true
            },
            _ => false,
        }
    }

    /// An object with one member set; any other value is left as it is.
    pub fn with(self, key: &str, value: Json) -> (r: Json)
        ensures
            r@ == self@.with(key@, value@),
    {
        match self {
            Json::Object(m) => {
                assert(contents(Json::Object(m))->Object_0 =~= members(m@));
                let m: Vec<(String, Json)> = place(m, key, value);
                let r: Json = Json::Object(m);
                assert(r@->Object_0 =~= members(m@));
                r
            },
            other => other,
        }
    }

    /// An object without one member; any other value is left as it is.
    pub fn without(self, key: &str) -> (r: Json)
        ensures
            r@ == self@.without(key@),
    {
        match self {
            Json::Object(m) => {
                assert(contents(Json::Object(m))->Object_0 =~= members(m@));
                let m: Vec<(String, Json)> = drop_member(m, key);
                let r: Json = Json::Object(m);
                assert(r@->Object_0 =~= members(m@));
                r
            },
            other => other,
        }
    }

    /// Sets one member of an object.
    pub fn set(&mut self, key: &str, value: Json)
        ensures
            final(self)@ == old(self)@.with(key@, value@),
    {
        let mut current: Json = Json::Null;
        std::mem::swap(self, &mut current);
        *self = current.with(key, value);
    }

    /// Takes one member out of an object.
    pub fn remove(&mut self, key: &str)
        ensures
            final(self)@ == old(self)@.without(key@),
    {
        let mut current: Json = Json::Null;
        std::mem::swap(self, &mut current);
        *self = current.without(key);
    }
}

fn place(m: Vec<(String, Json)>, key: &str, value: Json) -> (r: Vec<(String, Json)>)
    ensures
        members(r@) == placed(members(m@), key@, value@),
{
    let mut m: Vec<(String, Json)> = m;
    let ghost all = members(m@);
    let ghost member = (key@, value@);
    let mut i: usize = 0;
    assert(all.skip(0) =~= all);
    assert(all.take(0) + placed(all, key@, value@) =~= placed(all, key@, value@));
    while i < m.len() && !text::same(m[i].0.as_str(), key) && !text::precedes(key, m[i].0.as_str())
        invariant
            0 <= i <= m@.len(),
            all == members(m@),
            placed(all, key@, value@) == all.take(i as int) + placed(
                all.skip(i as int),
                key@,
                value@,
            ),
        decreases m@.len() - i,
    {
        proof {
            let rest = all.skip(i as int);
            assert(rest[0] == all[i as int]);
            assert(rest.drop_first() =~= all.skip(i + 1));
            assert(all.take(i as int) + (seq![rest[0]] + placed(all.skip(i + 1), key@, value@))
                =~= all.take(i + 1) + placed(all.skip(i + 1), key@, value@));
        }
        i = i + 1;
    }
    let ghost rest = all.skip(i as int);
    let ghost before = m@;
    if i < m.len() && text::same(m[i].0.as_str(), key) {
        let pair: (String, Json) = (key.to_owned(), value);
        m.set(i, pair);
        assert(rest[0] == all[i as int]);
        assert(members(m@) =~= all.take(i as int) + (seq![member] + rest.drop_first()));
    } else {
        let pair: (String, Json) = (key.to_owned(), value);
        m.insert(i, pair);
        proof {
            if i < all.len() {
                assert(rest[0] == all[i as int]);
            } else {
                assert(rest =~= Seq::empty());
            }
            assert(placed(rest, key@, value@) =~= seq![member] + rest);
        }
        assert(members(m@) =~= all.take(i as int) + (seq![member] + rest));
    }
    m
}

fn drop_member(m: Vec<(String, Json)>, key: &str) -> (r: Vec<(String, Json)>)
    ensures
        members(r@) == dropped(members(m@), key@),
{
    let mut m: Vec<(String, Json)> = m;
    let ghost all = members(m@);
    let mut i: usize = 0;
    assert(all.skip(0) =~= all);
    assert(all.take(0) + dropped(all, key@) =~= dropped(all, key@));
    while i < m.len() && !text::same(m[i].0.as_str(), key)
        invariant
            0 <= i <= m@.len(),
            all == members(m@),
            dropped(all, key@) == all.take(i as int) + dropped(all.skip(i as int), key@),
        decreases m@.len() - i,
    {
        proof {
            let rest = all.skip(i as int);
            assert(rest[0] == all[i as int]);
            assert(rest.drop_first() =~= all.skip(i + 1));
            assert(all.take(i as int) + (seq![rest[0]] + dropped(all.skip(i + 1), key@))
                =~= all.take(i + 1) + dropped(all.skip(i + 1), key@));
        }
        i = i + 1;
    }
    let ghost rest = all.skip(i as int);
    if i < m.len() {
        assert(rest[0] == all[i as int]);
        let removed: (String, Json) = m.remove(i);
        assert(members(m@) =~= all.take(i as int) + rest.drop_first());
    } else {
        assert(rest =~= Seq::empty());
        assert(all.take(i as int) + rest =~= all);
    }
    m
}

/// Setting a member gives it back, and leaves the others.
pub broadcast proof fn lemma_get_with(j: JsonV, key: Seq<char>, value: JsonV, other: Seq<char>)
    requires
        j is Object,
    ensures
        #[trigger] j.with(key, value).get(other) == if key == other {
            Some(value)
        } else {
            j.get(other)
        },
{
    lemma_lookup_placed(j->Object_0, key, value, other);
}

proof fn lemma_lookup_placed(
    m: Seq<(Seq<char>, JsonV)>,
    key: Seq<char>,
    value: JsonV,
    other: Seq<char>,
)
    ensures
        lookup(placed(m, key, value), other) == if key == other {
            Some(value)
        } else {
            lookup(m, other)
        },
    decreases m.len(),
{
    let p = placed(m, key, value);
    if m.len() == 0 {
        assert(p.drop_first() =~= Seq::empty());
    } else if m[0].0 == key {
        assert(p.drop_first() =~= m.drop_first());
    } else if text::before(key, m[0].0) {
        assert(p.drop_first() =~= m);
    } else {
        assert(p.drop_first() =~= placed(m.drop_first(), key, value));
        lemma_lookup_placed(m.drop_first(), key, value, other);
    }
}

/// Taking a member out leaves the others.
pub broadcast proof fn lemma_get_without(j: JsonV, key: Seq<char>, other: Seq<char>)
    requires
        key != other,
    ensures
        #[trigger] j.without(key).get(other) == j.get(other),
{
    if j is Object {
        lemma_lookup_dropped(j->Object_0, key, other);
    }
}

proof fn lemma_lookup_dropped(m: Seq<(Seq<char>, JsonV)>, key: Seq<char>, other: Seq<char>)
    requires
        key != other,
    ensures
        lookup(dropped(m, key), other) == lookup(m, other),
    decreases m.len(),
{
    if m.len() > 0 {
        let d = dropped(m, key);
        if m[0].0 != key {
            assert(d.drop_first() =~= dropped(m.drop_first(), key));
            lemma_lookup_dropped(m.drop_first(), key, other);
        }
    }
}

/// Whether the members of an object stand in the order of their names, each name once.
pub open spec fn in_order(m: Seq<(Seq<char>, JsonV)>) -> bool {
    forall|i: int| 0 <= i < m.len() - 1 ==> text::before((#[trigger] m[i]).0, m[i + 1].0)
}

/// Whether a value is nested at most so deep, with its members in order and no number in it
/// but integers, each held as what it is.
pub open spec fn is_plain(value: JsonV, depth: nat) -> bool
    decreases depth,
{
    match value {
        JsonV::Number(NumberV::Unsigned(_)) => true,
        JsonV::Number(NumberV::Negative(n)) => n < 0,
        JsonV::Number(_) => false,
        JsonV::Array(v) => depth > 0 && forall|i: int|
            0 <= i < v.len() ==> is_plain(#[trigger] v[i], (depth - 1) as nat),
        JsonV::Object(m) => depth > 0 && in_order(m) && forall|i: int|
            0 <= i < m.len() ==> is_plain((#[trigger] m[i]).1, (depth - 1) as nat),
        _ => true,
    }
}

/// How deep a value may be nested that is read back.
pub const PLAIN_DEPTH: u32 = 100;

proof fn lemma_before_is_total(a: Seq<char>, b: Seq<char>)
    requires
        a != b,
        !text::before(a, b),
    ensures
        text::before(b, a),
    decreases a.len(),
{
    if a.len() > 0 && b.len() > 0 {
        if a[0] == b[0] {
            let rest = a.subrange(1, a.len() as int);
            let other = b.subrange(1, b.len() as int);
            if rest == other {
                assert(a =~= seq![a[0]] + rest);
                assert(b =~= seq![b[0]] + other);
            }
            lemma_before_is_total(rest, other);
        }
    } else if a.len() == 0 && b.len() == 0 {
        assert(a =~= b);
    }
}

proof fn lemma_placed_in_order(m: Seq<(Seq<char>, JsonV)>, key: Seq<char>, value: JsonV)
    requires
        in_order(m),
    ensures
        in_order(placed(m, key, value)),
        placed(m, key, value).len() > 0,
        placed(m, key, value)[0].0 == key || (m.len() > 0 && placed(m, key, value)[0].0 == m[0].0),
        forall|i: int|
            0 <= i < placed(m, key, value).len() ==> (#[trigger] placed(m, key, value)[i]).1 == value
                || exists|j: int| 0 <= j < m.len() && m[j].1 == placed(m, key, value)[i].1,
    decreases m.len(),
{
    let p = placed(m, key, value);
    if m.len() > 0 {
        let rest = m.drop_first();
        assert forall|i: int| 0 <= i < rest.len() - 1 implies text::before(
            (#[trigger] rest[i]).0,
            rest[i + 1].0,
        ) by {
            assert(text::before(m[i + 1].0, m[i + 2].0));
        }
        if m[0].0 == key {
            assert(p =~= seq![(key, value)] + rest);
            assert forall|i: int| 0 <= i < p.len() - 1 implies text::before(
                (#[trigger] p[i]).0,
                p[i + 1].0,
            ) by {
                assert(text::before(m[i].0, m[i + 1].0));
            }
            assert forall|i: int| 0 <= i < p.len() implies (#[trigger] p[i]).1 == value || exists|
                j: int,
            | 0 <= j < m.len() && m[j].1 == p[i].1 by {
                if i > 0 {
                    assert(m[i].1 == p[i].1);
                }
            }
        } else if text::before(key, m[0].0) {
            assert(p =~= seq![(key, value)] + m);
            assert forall|i: int| 0 <= i < p.len() - 1 implies text::before(
                (#[trigger] p[i]).0,
                p[i + 1].0,
            ) by {
                if i > 0 {
                    assert(text::before(m[i - 1].0, m[i].0));
                }
            }
            assert forall|i: int| 0 <= i < p.len() implies (#[trigger] p[i]).1 == value || exists|
                j: int,
            | 0 <= j < m.len() && m[j].1 == p[i].1 by {
                if i > 0 {
                    assert(m[i - 1].1 == p[i].1);
                }
            }
        } else {
            lemma_before_is_total(key, m[0].0);
            lemma_placed_in_order(rest, key, value);
            let q = placed(rest, key, value);
            assert(p =~= seq![m[0]] + q);
            if rest.len() > 0 {
                assert(text::before(m[0].0, m[1].0));
            }
            assert forall|i: int| 0 <= i < p.len() - 1 implies text::before(
                (#[trigger] p[i]).0,
                p[i + 1].0,
            ) by {
                if i > 0 {
                    assert(text::before(q[i - 1].0, q[i].0));
                }
            }
            assert forall|i: int| 0 <= i < p.len() implies (#[trigger] p[i]).1 == value || exists|
                j: int,
            | 0 <= j < m.len() && m[j].1 == p[i].1 by {
                if i == 0 {
                    assert(m[0].1 == p[0].1);
                } else {
                    assert(p[i] == q[i - 1]);
                    if q[i - 1].1 != value {
                        let j = choose|j: int| 0 <= j < rest.len() && rest[j].1 == q[i - 1].1;
                        assert(m[j + 1].1 == p[i].1);
                    }
                }
            }
        }
    }
}

/// An object stays plain with a plain member.
pub proof fn lemma_plain_with(object: JsonV, key: Seq<char>, value: JsonV, depth: nat)
    requires
        object is Object,
        depth > 0,
        is_plain(object, depth),
        is_plain(value, (depth - 1) as nat),
    ensures
        object.with(key, value) is Object,
        is_plain(object.with(key, value), depth),
{
    let m = object->Object_0;
    lemma_placed_in_order(m, key, value);
    let p = placed(m, key, value);
    assert forall|i: int| 0 <= i < p.len() implies is_plain(
        (#[trigger] p[i]).1,
        (depth - 1) as nat,
    ) by {
        if p[i].1 != value {
            let j = choose|j: int| 0 <= j < m.len() && m[j].1 == p[i].1;
            assert(is_plain(m[j].1, (depth - 1) as nat));
        }
    }
}

/// The value type of `serde_json`.
#[verifier::external_type_specification]
#[verifier::external_body]
pub struct ExValue(serde_json::Value);

/// The compact text that `serde_json::to_string` writes of a value.
pub uninterp spec fn json_text(value: JsonV) -> Seq<char>;

/// The value that `serde_json::from_str` reads in a text, where it reads one.
pub uninterp spec fn json_value(input: Seq<char>) -> Option<JsonV>;

/// The value as `serde_json` holds it, one variant for each.
#[verifier::external_body]
pub(crate) fn to_value(json: &Json) -> serde_json::Value {
    match json {
        Json::Null => serde_json::Value::Null,
        Json::Bool(b) => (*b).into(),
        Json::Number(Number::Unsigned(n)) => serde_json::Value::from(*n),
        Json::Number(Number::Negative(n)) => serde_json::Value::from(*n),
        Json::Number(Number::Real { spelling, .. }) => serde_json::Number::from_f64(
            spelling.parse().unwrap_or_default(),
        ).into(),
        Json::Text(s) => serde_json::Value::from(s.as_str()),
        Json::Array(v) => serde_json::Value::Array(v.iter().map(to_value).collect()),
        Json::Object(m) => m.iter().map(|p| (p.0.clone(), to_value(&p.1))).collect(),
    }
}

/// A number by what can be read of it: the first of three kinds that it is.
fn number_of(
    unsigned: Option<u64>,
    signed: Option<i64>,
    bits: Option<u64>,
    spelling: String,
) -> (r: Number)
    ensures
        r@ == (match (unsigned, signed, bits) {
            (Some(n), _, _) => NumberV::Unsigned(n),
            (None, Some(n), _) => NumberV::Negative(n),
            (None, None, Some(b)) => NumberV::Real(b, spelling@),
            (None, None, None) => NumberV::Real(0, spelling@),
        }),
{
    match (unsigned, signed, bits) {
        (Some(n), _, _) => Number::Unsigned(n),
        (None, Some(n), _) => Number::Negative(n),
        (None, None, Some(b)) => Number::Real { bits: b, spelling },
        (None, None, None) => Number::Real { bits: 0, spelling },
    }
}

/// The value that `serde_json` holds, one variant for each. The text of a number that is no
/// integer is the shortest one that spells its double.
#[verifier::external_body]
pub(crate) fn from_value(value: &serde_json::Value) -> Json {
    match value {
        serde_json::Value::Null => Json::Null,
        serde_json::Value::Bool(b) => Json::Bool(*b),
        serde_json::Value::Number(n) => Json::Number(
            number_of(n.as_u64(), n.as_i64(), n.as_f64().map(|x| x.to_bits()), n.to_string()),
        ),
        serde_json::Value::String(s) => Json::Text(s.clone()),
        serde_json::Value::Array(v) => Json::Array(v.iter().map(from_value).collect()),
        serde_json::Value::Object(m) => Json::Object(
            m.iter().map(|p| (p.0.clone(), from_value(p.1))).collect(),
        ),
    }
}

/// `serde_json::to_string`: the compact text of a value, a function of the value. What it
/// writes of a plain value, `serde_json::from_str` reads back as that value; it writes the
/// members of an object one behind the other.
#[verifier::external_body]
pub(crate) fn json_string(value: &Json) -> (r: String)
    ensures
        r@ == json_text(value@),
        is_plain(value@, PLAIN_DEPTH as nat) ==> json_value(r@) == Some(value@)
            && members::is_spelled(r@, value@, PLAIN_DEPTH as nat),
{
    serde_json::to_string(&to_value(value)).unwrap_or_default()
}

/// What a read returned.
pub open spec fn read_of(r: Option<Json>) -> Option<JsonV> {
    match r {
        Some(j) => Some(j@),
        None => None,
    }
}

/// `serde_json::from_str`: the value that a text spells, a function of the text.
#[verifier::external_body]
pub(crate) fn json_read(input: &str) -> (r: Option<Json>)
    ensures
        read_of(r) == json_value(input@),
{
    serde_json::from_str(input).ok().map(|v| from_value(&v))
}

/// Whether `serde_json::from_str` reads a text whose value is ignored.
pub uninterp spec fn is_json_text(input: Seq<char>) -> bool;

/// `serde_json::from_str` into `serde::de::IgnoredAny`, which passes over a value: whether it
/// succeeds is a function of the text. It holds neither the depth of the value nor the size of
/// its numbers to a limit.
#[verifier::external_body]
pub(crate) fn json_skipped(input: &str) -> (r: bool)
    ensures
        r == is_json_text(input@),
{
    serde_json::from_str::<serde::de::IgnoredAny>(input).is_ok()
}

impl Json {
    /// The value that a text spells.
    pub fn parse(input: &str) -> (r: Option<Json>)
        ensures
            read_of(r) == json_value(input@),
    {
        json_read(input)
    }

    /// The compact text of a value.
    pub fn to_text(&self) -> (r: String)
        ensures
            r@ == json_text(self@),
            is_plain(self@, PLAIN_DEPTH as nat) ==> json_value(r@) == Some(self@)
                && members::is_spelled(r@, self@, PLAIN_DEPTH as nat),
    {
        json_string(self)
    }
}

/// Text, or null where there is none.
pub fn optional(s: &Option<String>) -> (r: Json)
    ensures
        r@ == JsonV::optional_text(text::text_of(*s)),
{
    match s {
        Some(t) => Json::text(t.as_str()),
        None => Json::Null,
    }
}

/// The contents of a row of borrowed values.
pub open spec fn refs(v: Seq<&Json>) -> Seq<JsonV> {
    Seq::new(v.len(), |i: int| v[i]@)
}

/// The elements of the arrays that the objects of a row hold under a key, in order.
pub open spec fn flat(v: Seq<JsonV>, key: Seq<char>) -> Seq<JsonV>
    decreases v.len(),
{
    if v.len() == 0 {
        Seq::empty()
    } else {
        flat(v.drop_last(), key) + v.last().field(key).elements()
    }
}

/// The elements of an array; none for any other value.
pub fn elements(j: &Json) -> (r: Vec<&Json>)
    ensures
        refs(r@) == j@.elements(),
{
    let mut out: Vec<&Json> = Vec::new();
    append_elements(&mut out, j);
    assert(refs(out@) =~= j@.elements());
    out
}

/// Adds the elements of an array behind others.
pub fn append_elements<'a>(out: &mut Vec<&'a Json>, j: &'a Json)
    ensures
        refs(final(out)@) == refs(old(out)@) + j@.elements(),
{
    if let Some(v) = j.as_array() {
        let ghost start = out@;
        let ghost all = values(v@);
        let mut i: usize = 0;
        assert(refs(start) + all.take(0) =~= refs(start));
        while i < v.len()
            invariant
                0 <= i <= v@.len(),
                all == values(v@),
                refs(out@) =~= refs(start) + all.take(i as int),
            decreases v@.len() - i,
        {
            let ghost before = out@;
            out.push(&v[i]);
            assert(refs(out@) =~= refs(before).push(all[i as int]));
            assert(refs(start) + all.take(i + 1) =~= (refs(start) + all.take(i as int)).push(
                all[i as int],
            ));
            i = i + 1;
        }
        assert(all.take(i as int) =~= all);
    } else {
        assert(refs(out@) + Seq::<JsonV>::empty() =~= refs(out@));
    }
}

/// The elements of the arrays that the objects of a row hold under a key, in order.
pub fn flatten<'a>(v: &Vec<&'a Json>, key: &str) -> (r: Vec<&'a Json>)
    ensures
        refs(r@) == flat(refs(v@), key@),
{
    let mut out: Vec<&'a Json> = Vec::new();
    let ghost all = refs(v@);
    let mut i: usize = 0;
    assert(refs(out@) =~= Seq::empty());
    assert(all.take(0) =~= Seq::empty());
    while i < v.len()
        invariant
            0 <= i <= v@.len(),
            all == refs(v@),
            refs(out@) == flat(all.take(i as int), key@),
        decreases v@.len() - i,
    {
        assert(all.take(i + 1).drop_last() =~= all.take(i as int));
        assert(all.take(i + 1).last() == v@[i as int]@);
        append_elements(&mut out, v[i].field(key));
        i = i + 1;
    }
    assert(all.take(i as int) =~= all);
    out
}

/// A field of a record of `count` fields: the member under its name, or, where the record is
/// written as a list, the element in its place.
pub open spec fn part(j: JsonV, key: Seq<char>, place: int, count: int) -> Option<JsonV> {
    match j {
        JsonV::Array(v) => if place < v.len() <= count {
            Some(v[place])
        } else {
            None
        },
        _ => j.get(key),
    }
}

pub fn find_part<'a>(j: &'a Json, key: &str, place: usize, count: usize) -> (r: Option<&'a Json>)
    ensures
        view_of(r) == part(j@, key@, place as int, count as int),
{
    match j {
        Json::Array(v) => {
            assert(j@ == JsonV::Array(values(v@))) by {
                assert(j@->Array_0 =~= values(v@));
            }
            if place < v.len() && v.len() <= count {
                Some(&v[place])
            } else {
                None
            }
        },
        _ => j.get(key),
    }
}

} // verus!
