//! Product observations as public data.

use crate::evidence;
use crate::failure::{Failure, FailureV};
use crate::json::{self, Json, JsonV};
use crate::ledger::{Ledger, LedgerV};
use crate::marketplace;
use crate::search_results;
use crate::text;
use crate::widgets;
use vstd::prelude::*;

verus! {

/// A product as public data, with its evidence, its warnings and its reference.
#[derive(Debug)]
pub struct ProductNormalized {
    pub result: Json,
    pub evidence: Vec<Json>,
    pub product_refs: Vec<String>,
    pub warnings: Vec<Json>,
}

/// What a [`ProductNormalized`] holds.
#[verifier::ext_equal]
pub struct ProductNormalizedV {
    pub result: JsonV,
    pub evidence: Seq<JsonV>,
    pub product_refs: Seq<Seq<char>>,
    pub warnings: Seq<JsonV>,
}

impl View for ProductNormalized {
    type V = ProductNormalizedV;

    open spec fn view(&self) -> ProductNormalizedV {
        ProductNormalizedV {
            result: self.result@,
            evidence: json::values(self.evidence@),
            product_refs: text::texts(self.product_refs@),
            warnings: json::values(self.warnings@),
        }
    }
}

/// A page of a row: what is left after some values, up to a number of them.
pub open spec fn window<A>(v: Seq<A>, offset: int, n: int) -> Seq<A> {
    let start = marketplace::at_most(offset, v.len() as int);
    v.subrange(start, marketplace::at_most(start + n, v.len() as int))
}

/// How many values are left after some of them.
pub open spec fn remaining_of(count: nat, offset: u64) -> nat {
    if offset < count {
        (count - offset) as nat
    } else {
        0
    }
}

/// Where a page of a row starts and ends.
fn window_bounds(len: usize, offset: u64, n: usize) -> (r: (usize, usize))
    ensures
        r.0 == marketplace::at_most(offset as int, len as int),
        r.1 == marketplace::at_most(r.0 + n, len as int),
        r.0 <= r.1 <= len,
        r.1 - r.0 <= n,
{
    let start: usize = if offset < len as u64 {
        offset as usize
    } else {
        len
    };
    let end: usize = if len - start < n {
        len
    } else {
        start + n
    };
    (start, end)
}

fn remaining(count: usize, offset: u64) -> (r: u64)
    ensures
        r == remaining_of(count as nat, offset),
{
    if offset < count as u64 {
        count as u64 - offset
    } else {
        0
    }
}

/// The texts of a row.
pub open spec fn texts_in(v: Seq<JsonV>) -> Seq<Seq<char>>
    decreases v.len(),
{
    if v.len() == 0 {
        Seq::empty()
    } else {
        match v.last() {
            JsonV::Text(s) => texts_in(v.drop_last()).push(s),
            _ => texts_in(v.drop_last()),
        }
    }
}

/// Borrowed texts by their contents.
pub open spec fn shown_texts(v: Seq<&str>) -> Seq<Seq<char>> {
    widgets::slices(v)
}

pub(crate) fn add_texts<'a>(out: &mut Vec<&'a str>, values: &Vec<&'a Json>)
    ensures
        shown_texts(final(out)@) == shown_texts(old(out)@) + texts_in(json::refs(values@)),
{
    let ghost head = shown_texts(out@);
    let ghost all = json::refs(values@);
    let mut i: usize = 0;
    assert(head + texts_in(all.take(0)) =~= head);
    while i < values.len()
        invariant
            0 <= i <= values@.len(),
            all == json::refs(values@),
            shown_texts(out@) == head + texts_in(all.take(i as int)),
        decreases values@.len() - i,
    {
        assert(all.take(i + 1).drop_last() =~= all.take(i as int));
        assert(all.take(i + 1).last() == values@[i as int]@);
        if let Some(s) = values[i].as_str() {
            let ghost before = out@;
            out.push(s);
            assert(shown_texts(out@) =~= shown_texts(before).push(s@));
        }
        assert(shown_texts(out@) =~= head + texts_in(all.take(i + 1)));
        i = i + 1;
    }
    assert(all.take(i as int) =~= all);
}

pub(crate) fn texts_array(v: &Vec<&str>, start: usize, end: usize) -> (r: Json)
    requires
        start <= end <= v@.len(),
    ensures
        r@ == JsonV::Array(
            evidence::text_values(shown_texts(v@).subrange(start as int, end as int)),
        ),
{
    let ghost all = shown_texts(v@).subrange(start as int, end as int);
    let mut out: Vec<Json> = Vec::new();
    let mut i: usize = start;
    while i < end
        invariant
            start <= i <= end <= v@.len(),
            all == shown_texts(v@).subrange(start as int, end as int),
            json::values(out@) =~= evidence::text_values(all).take(i - start),
        decreases end - i,
    {
        assert(all[i - start] == v@[i as int]@);
        let one: Json = Json::text(v[i]);
        proof {
            json::lemma_values_push(out@, one);
        }
        out.push(one);
        i = i + 1;
    }
    assert(json::values(out@) =~= evidence::text_values(all));
    Json::array(out)
}

/// A name as one part of a path within a document.
pub open spec fn escaped(name: Seq<char>) -> Seq<char>
    decreases name.len(),
{
    if name.len() == 0 {
        Seq::empty()
    } else {
        escaped(name.drop_last()) + (if name.last() == '~' {
            seq!['~', '0']
        } else if name.last() == '/' {
            seq!['~', '1']
        } else {
            seq![name.last()]
        })
    }
}

/// The name that one part of a path stands for.
pub open spec fn unescaped(part: Seq<char>) -> Seq<char>
    decreases part.len(),
{
    if part.len() == 0 {
        Seq::empty()
    } else if part.len() >= 2 && part[part.len() - 2] == '~' && part.last() == '0' {
        unescaped(part.take(part.len() - 2)).push('~')
    } else if part.len() >= 2 && part[part.len() - 2] == '~' && part.last() == '1' {
        unescaped(part.take(part.len() - 2)).push('/')
    } else {
        unescaped(part.drop_last()).push(part.last())
    }
}

/// A part of a path holds no separator, and every tilde in it starts an escape.
proof fn lemma_escaped_form(name: Seq<char>)
    ensures
        escaped(name).len() > 0 ==> escaped(name).last() != '~',
        !escaped(name).contains('/'),
    decreases name.len(),
{
    if name.len() > 0 {
        lemma_escaped_form(name.drop_last());
        let head = escaped(name.drop_last());
        let tail = if name.last() == '~' {
            seq!['~', '0']
        } else if name.last() == '/' {
            seq!['~', '1']
        } else {
            seq![name.last()]
        };
        assert(escaped(name) == head + tail);
        assert(escaped(name).last() == tail.last());
        assert forall|i: int| 0 <= i < escaped(name).len() implies escaped(name)[i] != '/' by {
            if i < head.len() {
                assert(head.contains(head[i]));
            }
        }
    }
}

/// A part of a path never holds a separator, and the name can be read back from it.
pub proof fn escaped_names_are_recovered(name: Seq<char>)
    ensures
        !escaped(name).contains('/'),
        unescaped(escaped(name)) == name,
    decreases name.len(),
{
    lemma_escaped_form(name);
    if name.len() > 0 {
        escaped_names_are_recovered(name.drop_last());
        lemma_escaped_form(name.drop_last());
        let head = escaped(name.drop_last());
        let whole = escaped(name);
        if name.last() == '~' || name.last() == '/' {
            assert(whole.take(whole.len() - 2) =~= head);
        } else {
            assert(whole.drop_last() =~= head);
            if whole.len() >= 2 {
                assert(whole[whole.len() - 2] == head.last());
            }
        }
        assert(unescaped(whole) =~= name);
    } else {
        assert(unescaped(escaped(name)) =~= name);
    }
}

/// Names that differ become parts of a path that differ.
pub proof fn escaped_names_differ(one: Seq<char>, other: Seq<char>)
    requires
        one != other,
    ensures
        escaped(one) != escaped(other),
{
    escaped_names_are_recovered(one);
    escaped_names_are_recovered(other);
}

/// A name as one part of a path within a document: the name can be read back from it, and it
/// holds no separator.
pub fn pointer_escape(value: &str) -> (r: String)
    ensures
        r@ == escaped(value@),
        unescaped(r@) == value@,
        !r@.contains('/'),
{
    proof {
        escaped_names_are_recovered(value@);
    }
    let mut out: Vec<char> = Vec::new();
    let ghost all = value@;
    assert(escaped(all.take(0)) =~= out@);
    for c in it: value.chars()
        invariant
            it.seq() == value@,
            all == value@,
            out@ == escaped(all.take(it.index() as int)),
    {
        assert(all.take(it.index() + 1).drop_last() =~= all.take(it.index() as int));
        assert(all.take(it.index() + 1).last() == c);
        let ghost before = out@;
        if c == '~' {
            out.push('~');
            out.push('0');
            assert(out@ =~= before + seq!['~', '0']);
        } else if c == '/' {
            out.push('~');
            out.push('1');
            assert(out@ =~= before + seq!['~', '1']);
        } else {
            out.push(c);
            assert(out@ =~= before + seq![c]);
        }
    }
    assert(all.take(all.len() as int) =~= all);
    text::string_of(out.as_slice())
}

/// The parts of a product that can be asked for.
pub open spec fn sections() -> Seq<Seq<char>> {
    seq!["characteristics"@, "description"@, "variants"@, "offers"@, "images"@]
}

/// Where a continuation of a product stands.
pub open spec fn continued_at(raw: JsonV) -> u64 {
    match raw.field("_continuation"@).field("offset"@).as_unsigned() {
        Some(n) => n,
        None => 0,
    }
}

/// Where the continuation of one section stands.
pub open spec fn section_offset(raw: JsonV, section: Seq<char>) -> u64 {
    if raw.field("_continuation"@).field("section"@) == JsonV::Text(section) {
        continued_at(raw)
    } else {
        0
    }
}

fn offset_in(raw: &Json) -> (r: u64)
    ensures
        r == continued_at(raw@),
{
    match raw.field("_continuation").field("offset").as_u64() {
        Some(n) => n,
        None => 0,
    }
}

fn offset_of(raw: &Json, section: &str) -> (r: u64)
    ensures
        r == section_offset(raw@, section@),
{
    let own: bool = match raw.field("_continuation").field("section").as_str() {
        Some(s) => text::same(s, section),
        None => false,
    };
    if own {
        offset_in(raw)
    } else {
        0
    }
}

/// The rows of a section with a list of its own.
pub open spec fn listed(raw: JsonV, section: Seq<char>) -> Seq<JsonV> {
    raw.field(section).field("items"@).elements()
}

/// Whether a section was asked for, is too long, and cannot be continued.
pub open spec fn overflows(raw: JsonV, asked: Seq<Seq<char>>, section: Seq<char>) -> bool {
    asked.contains(section) && listed(raw, section).len() > 20 && raw.field(section).field(
        "nextPath"@,
    ).as_text() is None
}

fn too_long(raw: &Json, asked: &Vec<String>, section: &str) -> (r: bool)
    ensures
        r == overflows(raw@, text::texts(asked@), section@),
{
    text::contains_text(asked, section) && json::elements(
        raw.field(section).field("items"),
    ).len() > 20 && raw.field(section).field("nextPath").as_str().is_none()
}

/// The texts of all images of a product: those of the gallery, then those of the
/// description.
pub open spec fn image_texts(raw: JsonV) -> Seq<Seq<char>> {
    texts_in(raw.field("images"@).elements()) + texts_in(
        raw.field("description"@).field("images"@).elements(),
    )
}

fn all_images<'a>(raw: &'a Json) -> (r: Vec<&'a str>)
    ensures
        shown_texts(r@) == image_texts(raw@),
{
    let mut out: Vec<&'a str> = Vec::new();
    assert(shown_texts(out@) =~= Seq::empty());
    add_texts(&mut out, &json::elements(raw.field("images")));
    assert(shown_texts(out@) =~= texts_in(raw@.field("images"@).elements()));
    add_texts(&mut out, &json::elements(raw.field("description").field("images")));
    out
}

/// The values of a path through the rows of a list, where they are texts.
pub open spec fn texts_at(v: Seq<JsonV>, outer: Option<Seq<char>>, key: Seq<char>) -> Seq<Seq<char>>
    decreases v.len(),
{
    if v.len() == 0 {
        Seq::empty()
    } else {
        let row = match outer {
            Some(k) => v.last().field(k),
            None => v.last(),
        };
        match row.field(key) {
            JsonV::Text(s) => texts_at(v.drop_last(), outer, key).push(s),
            _ => texts_at(v.drop_last(), outer, key),
        }
    }
}

fn collect_texts<'a>(rows: &Vec<&'a Json>, outer: Option<&str>, key: &str) -> (r: Vec<&'a str>)
    ensures
        shown_texts(r@) == texts_at(json::refs(rows@), json::str_of(outer), key@),
{
    let ghost all = json::refs(rows@);
    let mut out: Vec<&'a str> = Vec::new();
    let mut i: usize = 0;
    assert(shown_texts(out@) =~= Seq::empty());
    while i < rows.len()
        invariant
            0 <= i <= rows@.len(),
            all == json::refs(rows@),
            shown_texts(out@) == texts_at(all.take(i as int), json::str_of(outer), key@),
        decreases rows@.len() - i,
    {
        assert(all.take(i + 1).drop_last() =~= all.take(i as int));
        assert(all.take(i + 1).last() == rows@[i as int]@);
        let row: &'a Json = match outer {
            Some(k) => rows[i].field(k),
            None => rows[i],
        };
        if let Some(s) = row.field(key).as_str() {
            let ghost before = out@;
            out.push(s);
            assert(shown_texts(out@) =~= shown_texts(before).push(s@));
        }
        i = i + 1;
    }
    assert(all.take(i as int) =~= all);
    out
}

/// The members of an object; none of another value.
pub open spec fn members_of(v: JsonV) -> Seq<(Seq<char>, JsonV)> {
    match v.as_object() {
        Some(m) => m,
        None => Seq::empty(),
    }
}

/// The facts about characteristics.
pub open spec fn characteristic_facts(pairs: Seq<(Seq<char>, JsonV)>) -> Seq<JsonV> {
    Seq::new(
        pairs.len(),
        |i: int|
            marketplace::fact_of("/characteristics/"@ + escaped(pairs[i].0), pairs[i].1),
    )
}

/// The facts about a description, where it is asked for and there is one.
pub open spec fn description_facts(raw: JsonV, asked: Seq<Seq<char>>) -> Seq<JsonV> {
    match raw.field("description"@).field("text"@) {
        JsonV::Text(s) => if asked.contains("description"@) {
            seq![
                marketplace::fact_of(
                    "/description/text"@,
                    JsonV::Text(window(s, section_offset(raw, "description"@) as int, 12000)),
                ),
            ]
        } else {
            Seq::empty()
        },
        _ => Seq::empty(),
    }
}

/// The facts about images, where they are asked for and there are any.
pub open spec fn image_facts(raw: JsonV, asked: Seq<Seq<char>>) -> Seq<JsonV> {
    let images = window(image_texts(raw), section_offset(raw, "images"@) as int, 12);
    if asked.contains("images"@) && images.len() > 0 {
        seq![marketplace::fact_of("/images"@, JsonV::Array(evidence::text_values(images)))]
    } else {
        Seq::empty()
    }
}

/// The facts about the first rows of a section, where it is asked for.
pub open spec fn row_facts(
    raw: JsonV,
    asked: Seq<Seq<char>>,
    section: Seq<char>,
    outer: Option<Seq<char>>,
    key: Seq<char>,
    path: Seq<char>,
) -> Seq<JsonV> {
    if asked.contains(section) {
        seq![
            marketplace::fact_of(
                path,
                JsonV::Array(
                    evidence::text_values(window(texts_at(listed(raw, section), outer, key), 0, 20)),
                ),
            ),
        ]
    } else {
        Seq::empty()
    }
}

/// The facts about the parts of a product that were asked for.
pub open spec fn section_facts(raw: JsonV, asked: Seq<Seq<char>>) -> Seq<JsonV> {
    (if asked.contains("characteristics"@) {
        characteristic_facts(
            window(
                members_of(raw.field("characteristics"@)),
                section_offset(raw, "characteristics"@) as int,
                50,
            ),
        )
    } else {
        Seq::empty()
    }) + description_facts(raw, asked) + image_facts(raw, asked) + row_facts(
        raw,
        asked,
        "variants"@,
        None,
        "sku"@,
        "/variants/items"@,
    ) + row_facts(raw, asked, "offers"@, Some("seller"@), "name"@, "/offers/sellers"@)
}

/// The facts about a product itself.
pub open spec fn base_facts(raw: JsonV) -> Seq<JsonV> {
    seq![
        marketplace::fact_of("/title"@, raw.field("name"@)),
        marketplace::fact_of(
            "/prices/ozonCard/amountMinor"@,
            JsonV::optional_unsigned(marketplace::minor_units(raw.field("cardPrice"@))),
        ),
        marketplace::fact_of(
            "/prices/regular/amountMinor"@,
            JsonV::optional_unsigned(marketplace::minor_units(raw.field("priceRegular"@))),
        ),
        marketplace::fact_of(
            "/availability"@,
            JsonV::Text(marketplace::availability_of(raw.field("available"@))),
        ),
        marketplace::fact_of("/rating"@, raw.field("rating"@)),
        marketplace::fact_of("/reviewCount"@, raw.field("reviews"@)),
    ]
}

/// The facts about a product, at most a hundred of them.
pub open spec fn product_facts(raw: JsonV, asked: Seq<Seq<char>>) -> Seq<JsonV> {
    marketplace::first_values(base_facts(raw) + section_facts(raw, asked), 100)
}

fn base_fact_list(raw: &Json) -> (r: Vec<Json>)
    ensures
        json::values(r@) == base_facts(raw@),
{
    let mut out: Vec<Json> = Vec::new();
    out.push(marketplace::fact("/title", raw.field("name").copy()));
    out.push(
        marketplace::fact(
            "/prices/ozonCard/amountMinor",
            Json::optional_unsigned(marketplace::money(raw.field("cardPrice"))),
        ),
    );
    out.push(
        marketplace::fact(
            "/prices/regular/amountMinor",
            Json::optional_unsigned(marketplace::money(raw.field("priceRegular"))),
        ),
    );
    out.push(
        marketplace::fact(
            "/availability",
            Json::text(marketplace::availability(raw.field("available"))),
        ),
    );
    out.push(marketplace::fact("/rating", raw.field("rating").copy()));
    out.push(marketplace::fact("/reviewCount", raw.field("reviews").copy()));
    assert(json::values(out@) =~= base_facts(raw@));
    out
}

fn push_fact(out: &mut Vec<Json>, one: Json)
    ensures
        json::values(final(out)@) == json::values(old(out)@) + seq![one@],
{
    proof {
        json::lemma_values_push(out@, one);
    }
    out.push(one);
    assert(json::values(out@) =~= json::values(old(out)@) + seq![one@]);
}

fn add_characteristic_facts(out: &mut Vec<Json>, raw: &Json)
    ensures
        json::values(final(out)@) == json::values(old(out)@) + characteristic_facts(
            window(
                members_of(raw@.field("characteristics"@)),
                section_offset(raw@, "characteristics"@) as int,
                50,
            ),
        ),
{
    let ghost head = json::values(out@);
    match raw.field("characteristics").as_object() {
        None => {
            assert(window(Seq::<(Seq<char>, JsonV)>::empty(), section_offset(
                raw@,
                "characteristics"@,
            ) as int, 50) =~= Seq::empty());
            assert(characteristic_facts(Seq::empty()) =~= Seq::empty());
            assert(head + Seq::<JsonV>::empty() =~= head);
        },
        Some(m) => {
            let bounds: (usize, usize) = window_bounds(
                m.len(),
                offset_of(raw, "characteristics"),
                50,
            );
            let ghost pairs = json::members(m@).subrange(bounds.0 as int, bounds.1 as int);
            let ghost all = characteristic_facts(pairs);
            let mut i: usize = bounds.0;
            assert(head + all.take(0) =~= head);
            while i < bounds.1
                invariant
                    bounds.0 <= i <= bounds.1 <= m@.len(),
                    pairs == json::members(m@).subrange(bounds.0 as int, bounds.1 as int),
                    all == characteristic_facts(pairs),
                    json::values(out@) == head + all.take(i - bounds.0),
                decreases bounds.1 - i,
            {
                assert(pairs[i - bounds.0] == (m@[i as int].0@, m@[i as int].1@));
                let path: String = text::joined(
                    "/characteristics/",
                    pointer_escape(m[i].0.as_str()).as_str(),
                );
                let one: Json = marketplace::fact(path.as_str(), m[i].1.copy());
                push_fact(out, one);
                assert(json::values(out@) =~= head + all.take(i + 1 - bounds.0));
                i = i + 1;
            }
            assert(all.take(i - bounds.0) =~= all);
        },
    }
}

/// The part of a text that a page shows.
fn text_window(s: &str, offset: u64, n: usize) -> (r: String)
    ensures
        r@ == window(s@, offset as int, n as int),
{
    let v: Vec<char> = text::chars_of(s);
    let bounds: (usize, usize) = window_bounds(v.len(), offset, n);
    let r: String = text::substring(&v, bounds.0, bounds.1);
    r
}

fn add_description_facts(out: &mut Vec<Json>, raw: &Json, asked: &Vec<String>)
    ensures
        json::values(final(out)@) == json::values(old(out)@) + description_facts(
            raw@,
            text::texts(asked@),
        ),
{
    if let Some(s) = raw.field("description").field("text").as_str() {
        if text::contains_text(asked, "description") {
            let shown: String = text_window(s, offset_of(raw, "description"), 12000);
            push_fact(out, marketplace::fact("/description/text", Json::Text(shown)));
            return;
        }
    }
    assert(json::values(out@) + Seq::<JsonV>::empty() =~= json::values(out@));
}

fn add_image_facts(out: &mut Vec<Json>, raw: &Json, asked: &Vec<String>)
    ensures
        json::values(final(out)@) == json::values(old(out)@) + image_facts(
            raw@,
            text::texts(asked@),
        ),
{
    if text::contains_text(asked, "images") {
        let images: Vec<&str> = all_images(raw);
        let bounds: (usize, usize) = window_bounds(images.len(), offset_of(raw, "images"), 12);
        if bounds.0 < bounds.1 {
            push_fact(out, marketplace::fact("/images", texts_array(&images, bounds.0, bounds.1)));
            return;
        }
    }
    assert(json::values(out@) + Seq::<JsonV>::empty() =~= json::values(out@));
}

fn add_variant_facts(out: &mut Vec<Json>, raw: &Json, asked: &Vec<String>)
    ensures
        json::values(final(out)@) == json::values(old(out)@) + row_facts(
            raw@,
            text::texts(asked@),
            "variants"@,
            None,
            "sku"@,
            "/variants/items"@,
        ),
{
    if text::contains_text(asked, "variants") {
        let rows: Vec<&Json> = json::elements(raw.field("variants").field("items"));
        let skus: Vec<&str> = collect_texts(&rows, None, "sku");
        let bounds: (usize, usize) = window_bounds(skus.len(), 0, 20);
        push_fact(
            out,
            marketplace::fact("/variants/items", texts_array(&skus, bounds.0, bounds.1)),
        );
    } else {
        assert(json::values(out@) + Seq::<JsonV>::empty() =~= json::values(out@));
    }
}

fn add_offer_facts(out: &mut Vec<Json>, raw: &Json, asked: &Vec<String>)
    ensures
        json::values(final(out)@) == json::values(old(out)@) + row_facts(
            raw@,
            text::texts(asked@),
            "offers"@,
            Some("seller"@),
            "name"@,
            "/offers/sellers"@,
        ),
{
    if text::contains_text(asked, "offers") {
        let rows: Vec<&Json> = json::elements(raw.field("offers").field("items"));
        let sellers: Vec<&str> = collect_texts(&rows, Some("seller"), "name");
        let bounds: (usize, usize) = window_bounds(sellers.len(), 0, 20);
        push_fact(
            out,
            marketplace::fact("/offers/sellers", texts_array(&sellers, bounds.0, bounds.1)),
        );
    } else {
        assert(json::values(out@) + Seq::<JsonV>::empty() =~= json::values(out@));
    }
}

fn add_section_facts(out: &mut Vec<Json>, raw: &Json, asked: &Vec<String>)
    ensures
        json::values(final(out)@) == json::values(old(out)@) + section_facts(
            raw@,
            text::texts(asked@),
        ),
{
    let ghost head = json::values(out@);
    let ghost wanted = text::texts(asked@);
    if text::contains_text(asked, "characteristics") {
        add_characteristic_facts(out, raw);
    } else {
        assert(head + Seq::<JsonV>::empty() =~= head);
    }
    add_description_facts(out, raw, asked);
    add_image_facts(out, raw, asked);
    add_variant_facts(out, raw, asked);
    add_offer_facts(out, raw, asked);
    assert(json::values(out@) =~= head + section_facts(raw@, wanted));
}

fn fact_list(raw: &Json, asked: &Vec<String>) -> (r: Vec<Json>)
    ensures
        json::values(r@) == product_facts(raw@, text::texts(asked@)),
{
    let mut out: Vec<Json> = base_fact_list(raw);
    add_section_facts(&mut out, raw, asked);
    let ghost all = json::values(out@);
    if out.len() > 100 {
        out.truncate(100);
        assert(json::values(out@) =~= all.take(100));
    }
    assert(json::values(out@) =~= marketplace::first_values(all, 100));
    out
}

/// The paths that the evidence for a product speaks of.
pub open spec fn product_paths(asked: Seq<Seq<char>>) -> Seq<Seq<char>>
    decreases asked.len(),
{
    if asked.len() == 0 {
        seq!["/title"@, "/prices"@, "/availability"@, "/rating"@, "/reviewCount"@]
    } else {
        let before = product_paths(asked.drop_last());
        if sections().contains(asked.last()) {
            before.push("/"@ + asked.last())
        } else {
            before
        }
    }
}

fn path_list(asked: &Vec<String>) -> (r: Vec<String>)
    ensures
        text::texts(r@) == product_paths(text::texts(asked@)),
{
    let mut out: Vec<String> = Vec::new();
    out.push("/title".to_owned());
    out.push("/prices".to_owned());
    out.push("/availability".to_owned());
    out.push("/rating".to_owned());
    out.push("/reviewCount".to_owned());
    let ghost all = text::texts(asked@);
    assert(text::texts(out@) =~= product_paths(all.take(0)));
    let known: [&str; 5] = ["characteristics", "description", "variants", "offers", "images"];
    assert(widgets::slices(known@) =~= sections());
    let mut i: usize = 0;
    while i < asked.len()
        invariant
            0 <= i <= asked@.len(),
            all == text::texts(asked@),
            widgets::slices(known@) == sections(),
            text::texts(out@) == product_paths(all.take(i as int)),
        decreases asked@.len() - i,
    {
        assert(all.take(i + 1).drop_last() =~= all.take(i as int));
        assert(all.take(i + 1).last() == asked@[i as int]@);
        if marketplace::is_among(asked[i].as_str(), &known) {
            let one: String = text::joined("/", asked[i].as_str());
            proof {
                text::lemma_texts_push(out@, one);
            }
            out.push(one);
        }
        i = i + 1;
    }
    assert(all.take(i as int) =~= all);
    out
}

/// The prices of a product: that with the Ozon card, then the regular one.
pub open spec fn product_prices_of(raw: JsonV, ev: Seq<char>) -> Seq<JsonV> {
    (match marketplace::minor_units(raw.field("cardPrice"@)) {
        Some(v) => seq![marketplace::price_of(v, "ozon_card"@, Some("с Ozon Картой"@), ev)],
        None => Seq::empty(),
    }) + (match marketplace::minor_units(raw.field("priceRegular"@)) {
        Some(v) => seq![marketplace::price_of(v, "regular"@, None, ev)],
        None => Seq::empty(),
    })
}

/// The prices of a product. A price with the card is shown only where the source shows one.
pub fn product_prices(raw: &Json, ev: &str) -> (r: Vec<Json>)
    ensures
        json::values(r@) == product_prices_of(raw@, ev@),
{
    let mut out: Vec<Json> = Vec::new();
    assert(json::values(out@) =~= Seq::empty());
    if let Some(v) = marketplace::money(raw.field("cardPrice")) {
        push_fact(&mut out, marketplace::price(v, "ozon_card", Some("с Ozon Картой"), ev));
    }
    if let Some(v) = marketplace::money(raw.field("priceRegular")) {
        push_fact(&mut out, marketplace::price(v, "regular", None, ev));
    }
    assert(json::values(out@) =~= product_prices_of(raw@, ev@));
    out
}

/// What every section says of itself.
pub open spec fn section_base_of(
    status: Seq<char>,
    truncated: bool,
    next: Option<Seq<char>>,
    has_next: JsonV,
) -> JsonV {
    JsonV::object().with("status"@, JsonV::Text(status)).with(
        "truncated"@,
        JsonV::Bool(truncated),
    ).with("nextCursor"@, JsonV::optional_text(next)).with("hasNext"@, has_next)
}

/// A section tells its state, whether it was cut off, whether there is more and how to go on.
pub proof fn sections_tell_of_themselves(
    status: Seq<char>,
    truncated: bool,
    next: Option<Seq<char>>,
    has_next: JsonV,
)
    ensures
        ({
            let shown = section_base_of(status, truncated, next, has_next);
            &&& shown is Object
            &&& shown.field("status"@) == (JsonV::Text(status))
            &&& shown.field("truncated"@) == (JsonV::Bool(truncated))
            &&& shown.field("nextCursor"@) == (JsonV::optional_text(next))
            &&& shown.field("hasNext"@) == (has_next)
        }),
{
    broadcast use json::lemma_get_with;

    reveal_strlit("status");
    reveal_strlit("truncated");
    reveal_strlit("nextCursor");
    reveal_strlit("hasNext");
    assert("status"@.len() == 6);
    assert("truncated"@.len() == 9);
    assert("nextCursor"@.len() == 10);
    assert("hasNext"@.len() == 7);
}

fn section_base(status: &str, truncated: bool, next: &Option<String>, has_next: Json) -> (r: Json)
    ensures
        r@ == section_base_of(status@, truncated, text::text_of(*next), has_next@),
{
    Json::object().with("status", Json::text(status)).with("truncated", Json::Bool(truncated)).with(
        "nextCursor",
        json::optional(next),
    ).with("hasNext", has_next)
}

/// What is observed of a product, and for whom.
pub struct SubjectV {
    pub research_id: Seq<char>,
    pub product_ref: Seq<char>,
    pub source_url: Seq<char>,
    pub sku: Seq<char>,
    pub ev: Seq<char>,
    pub observed: Seq<char>,
}

pub struct Subject<'a> {
    pub research_id: &'a str,
    pub product_ref: &'a str,
    pub source_url: &'a str,
    pub sku: &'a str,
    pub ev: &'a str,
    pub observed: &'a str,
}

impl View for Subject<'_> {
    type V = SubjectV;

    open spec fn view(&self) -> SubjectV {
        SubjectV {
            research_id: self.research_id@,
            product_ref: self.product_ref@,
            source_url: self.source_url@,
            sku: self.sku@,
            ev: self.ev@,
            observed: self.observed@,
        }
    }
}

/// An observation with the place where a section goes on, the reference of the product and
/// the time of the observation.
pub open spec fn captured_raw(raw: JsonV, section: Seq<char>, offset: u64, s: SubjectV) -> JsonV {
    raw.with(
        "_continuation"@,
        JsonV::object().with("section"@, JsonV::Text(section)).with(
            "offset"@,
            JsonV::unsigned(offset),
        ),
    ).with("_continuationProductRef"@, JsonV::Text(s.product_ref)).with(
        "_continuationObservedAt"@,
        JsonV::Text(s.observed),
    )
}

/// A capture keeps the product's reference and the time of its observation, and where to go on.
pub proof fn captures_keep_reference_and_time(
    raw: JsonV,
    section: Seq<char>,
    offset: u64,
    s: SubjectV,
)
    requires
        raw is Object,
    ensures
        ({
            let shown = captured_raw(raw, section, offset, s);
            &&& shown is Object
            &&& shown.field("_continuation"@) == (JsonV::object().with("section"@, JsonV::Text(section)).with(
            "offset"@,
            JsonV::unsigned(offset),
        ))
            &&& shown.field("_continuationProductRef"@) == (JsonV::Text(s.product_ref))
            &&& shown.field("_continuationObservedAt"@) == (JsonV::Text(s.observed))
        }),
{
    broadcast use json::lemma_get_with;

    reveal_strlit("_continuation");
    reveal_strlit("_continuationProductRef");
    reveal_strlit("_continuationObservedAt");
    assert("_continuation"@.len() == 13);
    assert("_continuationProductRef"@.len() == 23);
    assert("_continuationObservedAt"@.len() == 23);
    assert("_continuationProductRef"@[13] == 'P');
    assert("_continuationObservedAt"@[13] == 'O');
}

/// What the continuation of a section holds: the observation itself, and where to go on.
pub open spec fn cached_cursor_value(
    ledger: LedgerV,
    raw: JsonV,
    section: Seq<char>,
    offset: u64,
    s: SubjectV,
) -> JsonV {
    JsonV::object().with("cachedRaw"@, captured_raw(raw, section, offset, s)).with(
        "include"@,
        marketplace::only_text(section),
    ).with("capturedAt"@, JsonV::Text(s.observed)).with("contextId"@, ledger.context)
}

/// The ledger and the continuation of a section that shows some of its values.
pub open spec fn cached_continuation(
    ledger: LedgerV,
    raw: JsonV,
    section: Seq<char>,
    count: nat,
    shown: u64,
    s: SubjectV,
) -> (LedgerV, Option<Seq<char>>) {
    let offset = continued_at(raw);
    if remaining_of(count, offset) > shown {
        (
            ledger.put(
                s.research_id,
                "product_cursor"@,
                cached_cursor_value(ledger, raw, section, (offset + shown) as u64, s),
                Some(marketplace::CURSOR_TTL_SECONDS),
            ),
            Some(ledger.next_ref()),
        )
    } else {
        (ledger, None)
    }
}

fn continue_cached(
    raw: &Json,
    ledger: &mut Ledger,
    section: &str,
    count: usize,
    shown: u64,
    s: &Subject,
) -> (r: Option<String>)
    requires
        old(ledger)@.left() >= 1,
    ensures
        (final(ledger)@, text::text_of(r)) == cached_continuation(
            old(ledger)@,
            raw@,
            section@,
            count as nat,
            shown,
            s@,
        ),
{
    let offset: u64 = offset_in(raw);
    if remaining(count, offset) > shown {
        let place: Json = Json::object().with("section", Json::text(section)).with(
            "offset",
            Json::unsigned(offset + shown),
        );
        let cached: Json = raw.copy().with("_continuation", place).with(
            "_continuationProductRef",
            Json::text(s.product_ref),
        ).with("_continuationObservedAt", Json::text(s.observed));
        let value: Json = Json::object().with("cachedRaw", cached).with(
            "include",
            marketplace::only(section),
        ).with("capturedAt", Json::text(s.observed)).with("contextId", ledger.context.copy());
        Some(
            ledger.put(
                s.research_id,
                "product_cursor",
                value,
                Some(marketplace::CURSOR_TTL_SECONDS),
            ),
        )
    } else {
        None
    }
}

/// Characteristics, as they are shown.
pub open spec fn characteristic_rows(pairs: Seq<(Seq<char>, JsonV)>, ev: Seq<char>) -> Seq<JsonV> {
    Seq::new(
        pairs.len(),
        |i: int|
            JsonV::object().with("name"@, JsonV::Text(pairs[i].0)).with(
                "value"@,
                JsonV::optional_text(pairs[i].1.as_text()),
            ).with("evidenceRefs"@, marketplace::only_text(ev)),
    )
}

/// The characteristics of a product, a page of them.
pub open spec fn characteristics_of(ledger: LedgerV, raw: JsonV, s: SubjectV) -> (LedgerV, JsonV) {
    let pairs = raw.field("characteristics"@);
    let count = members_of(pairs).len();
    let more = remaining_of(count, continued_at(raw)) > 50;
    let next = cached_continuation(ledger, raw, "characteristics"@, count, 50, s);
    (
        next.0,
        section_base_of(
            if pairs.as_object() is None {
                "unknown"@
            } else if more {
                "partial"@
            } else {
                "available"@
            },
            more,
            next.1,
            JsonV::Bool(more),
        ).with(
            "items"@,
            JsonV::Array(
                characteristic_rows(window(members_of(pairs), continued_at(raw) as int, 50), s.ev),
            ),
        ),
    )
}

fn characteristic_list(m: &Vec<(String, Json)>, start: usize, end: usize, ev: &str) -> (r: Vec<
    Json,
>)
    requires
        start <= end <= m@.len(),
    ensures
        json::values(r@) == characteristic_rows(
            json::members(m@).subrange(start as int, end as int),
            ev@,
        ),
{
    let ghost pairs = json::members(m@).subrange(start as int, end as int);
    let ghost all = characteristic_rows(pairs, ev@);
    let mut out: Vec<Json> = Vec::new();
    let mut i: usize = start;
    while i < end
        invariant
            start <= i <= end <= m@.len(),
            pairs == json::members(m@).subrange(start as int, end as int),
            all == characteristic_rows(pairs, ev@),
            json::values(out@) =~= all.take(i - start),
        decreases end - i,
    {
        assert(pairs[i - start] == (m@[i as int].0@, m@[i as int].1@));
        let one: Json = Json::object().with("name", Json::text(m[i].0.as_str())).with(
            "value",
            Json::optional_text(m[i].1.as_str()),
        ).with("evidenceRefs", marketplace::only(ev));
        proof {
            json::lemma_values_push(out@, one);
        }
        out.push(one);
        i = i + 1;
    }
    assert(json::values(out@) =~= all);
    out
}

fn characteristics(raw: &Json, ledger: &mut Ledger, s: &Subject) -> (r: Json)
    requires
        old(ledger)@.left() >= 1,
    ensures
        (final(ledger)@, r@) == characteristics_of(old(ledger)@, raw@, s@),
{
    let pairs: Option<&Vec<(String, Json)>> = raw.field("characteristics").as_object();
    let count: usize = match pairs {
        Some(m) => m.len(),
        None => 0,
    };
    let offset: u64 = offset_in(raw);
    let more: bool = remaining(count, offset) > 50;
    let next: Option<String> = continue_cached(raw, ledger, "characteristics", count, 50, s);
    let status: &str = match pairs {
        Some(_) => if more {
            "partial"
        } else {
            "available"
        },
        None => "unknown",
    };
    let items: Vec<Json> = match pairs {
        Some(m) => {
            let bounds: (usize, usize) = window_bounds(m.len(), offset, 50);
            characteristic_list(m, bounds.0, bounds.1, s.ev)
        },
        None => Vec::new(),
    };
    proof {
        if pairs is None {
            assert(window(Seq::<(Seq<char>, JsonV)>::empty(), offset as int, 50) =~= Seq::empty());
            assert(json::values(items@) =~= characteristic_rows(Seq::empty(), s.ev@));
        }
    }
    section_base(status, more, &next, Json::Bool(more)).with("items", Json::array(items))
}

/// The text of a description, where it is not blank.
pub open spec fn description_text(raw: JsonV) -> Option<Seq<char>> {
    match raw.field("description"@).field("text"@) {
        JsonV::Text(s) => if text::trimmed(s).len() > 0 {
            Some(s)
        } else {
            None
        },
        _ => None,
    }
}

/// The description of a product, a page of its text.
pub open spec fn description_of(ledger: LedgerV, raw: JsonV, s: SubjectV) -> (LedgerV, JsonV) {
    let shown = description_text(raw);
    let count = match shown {
        Some(t) => t.len(),
        None => 0,
    };
    let more = remaining_of(count, continued_at(raw)) > 12000;
    let next = cached_continuation(ledger, raw, "description"@, count, 12000, s);
    (
        next.0,
        section_base_of(
            if shown is None {
                "unknown"@
            } else if more {
                "partial"@
            } else {
                "available"@
            },
            more,
            next.1,
            if shown is None {
                JsonV::Null
            } else {
                JsonV::Bool(more)
            },
        ).with(
            "text"@,
            match shown {
                Some(t) => JsonV::Text(window(t, continued_at(raw) as int, 12000)),
                None => JsonV::Null,
            },
        ).with("evidenceRefs"@, marketplace::only_text(s.ev)),
    )
}

fn description(raw: &Json, ledger: &mut Ledger, s: &Subject) -> (r: Json)
    requires
        old(ledger)@.left() >= 1,
    ensures
        (final(ledger)@, r@) == description_of(old(ledger)@, raw@, s@),
{
    let shown: Option<&str> = match raw.field("description").field("text").as_str() {
        Some(t) => {
            let blank: String = text::trim(t);
            if text::chars_of(blank.as_str()).len() > 0 {
                Some(t)
            } else {
                None
            }
        },
        None => None,
    };
    let count: usize = match shown {
        Some(t) => text::chars_of(t).len(),
        None => 0,
    };
    let offset: u64 = offset_in(raw);
    let more: bool = remaining(count, offset) > 12000;
    let next: Option<String> = continue_cached(raw, ledger, "description", count, 12000, s);
    let status: &str = match shown {
        Some(_) => if more {
            "partial"
        } else {
            "available"
        },
        None => "unknown",
    };
    let has_next: Json = match shown {
        Some(_) => Json::Bool(more),
        None => Json::Null,
    };
    let page: Json = match shown {
        Some(t) => Json::Text(text_window(t, offset, 12000)),
        None => Json::Null,
    };
    section_base(status, more, &next, has_next).with("text", page).with(
        "evidenceRefs",
        marketplace::only(s.ev),
    )
}

/// The states of a section that the source lists.
pub open spec fn listed_states() -> Seq<Seq<char>> {
    seq!["available"@, "partial"@, "unknown"@, "unsupported"@]
}

/// The ledger and the continuation of a section that the source continues itself.
pub open spec fn listed_continuation(ledger: LedgerV, raw: JsonV, section: Seq<char>, rid: Seq<char>) -> (
    LedgerV,
    Option<Seq<char>>,
) {
    match raw.field(section).field("nextPath"@) {
        JsonV::Text(path) => (
            ledger.put(
                rid,
                "product_cursor"@,
                JsonV::object().with("path"@, JsonV::Text(path)).with(
                    "include"@,
                    marketplace::only_text(section),
                ),
                Some(marketplace::CURSOR_TTL_SECONDS),
            ),
            Some(ledger.next_ref()),
        ),
        _ => (ledger, None),
    }
}

/// A section that the source lists, with the rows that it shows.
pub open spec fn listed_section(
    ledger: LedgerV,
    raw: JsonV,
    section: Seq<char>,
    rows: Seq<JsonV>,
    rid: Seq<char>,
) -> (LedgerV, JsonV) {
    let next = listed_continuation(ledger, raw, section, rid);
    (
        next.0,
        section_base_of(
            evidence::enum_text(raw.field(section), "status"@, listed_states(), "unknown"@),
            listed(raw, section).len() > 20,
            next.1,
            raw.field(section).field("hasNext"@),
        ).with("items"@, JsonV::Array(rows)),
    )
}

fn close_listed(
    raw: &Json,
    ledger: &mut Ledger,
    section: &str,
    count: usize,
    rows: Vec<Json>,
    rid: &str,
) -> (r: Json)
    requires
        old(ledger)@.left() >= 1,
        count == listed(raw@, section@).len(),
    ensures
        (final(ledger)@, r@) == listed_section(
            old(ledger)@,
            raw@,
            section@,
            json::values(rows@),
            rid@,
        ),
{
    let source: &Json = raw.field(section);
    let next: Option<String> = match source.field("nextPath").as_str() {
        Some(path) => {
            let value: Json = Json::object().with("path", Json::text(path)).with(
                "include",
                marketplace::only(section),
            );
            Some(
                ledger.put(rid, "product_cursor", value, Some(marketplace::CURSOR_TTL_SECONDS)),
            )
        },
        None => None,
    };
    let states: [&str; 4] = ["available", "partial", "unknown", "unsupported"];
    assert(widgets::slices(states@) =~= listed_states());
    let status: String = marketplace::enum_or(source, "status", &states, "unknown");
    section_base(status.as_str(), count > 20, &next, source.field("hasNext").copy()).with(
        "items",
        Json::array(rows),
    )
}

/// The variants of a product, as they are shown: those that name their SKU.
pub open spec fn variant_rows(ledger: LedgerV, rows: Seq<JsonV>, s: SubjectV) -> (LedgerV, Seq<JsonV>)
    decreases rows.len(),
{
    if rows.len() == 0 {
        (ledger, Seq::empty())
    } else {
        let before = variant_rows(ledger, rows.drop_last(), s);
        let v = rows.last();
        match v.field("sku"@) {
            JsonV::Text(sku) => (
                before.0.put(
                    s.research_id,
                    "product"@,
                    JsonV::object().with("sku"@, JsonV::Text(sku)).with("url"@, v.field("url"@)),
                    None,
                ),
                before.1.push(
                    JsonV::object().with("productRef"@, JsonV::Text(before.0.next_ref())).with(
                        "sku"@,
                        JsonV::Text(sku),
                    ).with("title"@, v.field("title"@)).with(
                        "evidenceRefs"@,
                        marketplace::only_text(s.ev),
                    ),
                ),
            ),
            _ => before,
        }
    }
}

/// The variants of a product.
pub open spec fn variants_of(ledger: LedgerV, raw: JsonV, s: SubjectV) -> (LedgerV, JsonV) {
    let rows = variant_rows(
        ledger,
        marketplace::first_values(listed(raw, "variants"@), 20),
        s,
    );
    listed_section(rows.0, raw, "variants"@, rows.1, s.research_id)
}

fn variants(raw: &Json, ledger: &mut Ledger, s: &Subject) -> (r: Json)
    requires
        old(ledger)@.left() >= 21,
    ensures
        (final(ledger)@, r@) == variants_of(old(ledger)@, raw@, s@),
        final(ledger)@.ids == old(ledger)@.ids,
        final(ledger)@.used <= old(ledger)@.used + 21,
{
    let ghost start = ledger@;
    let values: Vec<&Json> = json::elements(raw.field("variants").field("items"));
    let ghost all = json::refs(values@);
    let end: usize = if values.len() < 20 {
        values.len()
    } else {
        20
    };
    let mut out: Vec<Json> = Vec::new();
    let mut i: usize = 0;
    assert(json::values(out@) =~= Seq::empty());
    while i < end
        invariant
            0 <= i <= end <= values@.len(),
            end <= 20,
            all == json::refs(values@),
            start.left() >= 21,
            ledger@.ids == start.ids,
            ledger@.used <= start.used + i,
            (ledger@, json::values(out@)) == variant_rows(start, all.take(i as int), s@),
        decreases end - i,
    {
        assert(all.take(i + 1).drop_last() =~= all.take(i as int));
        assert(all.take(i + 1).last() == values@[i as int]@);
        let v: &Json = values[i];
        if let Some(sku) = v.field("sku").as_str() {
            let value: Json = Json::object().with("sku", Json::text(sku)).with(
                "url",
                v.field("url").copy(),
            );
            let name: String = ledger.put(s.research_id, "product", value, None);
            let one: Json = Json::object().with("productRef", Json::Text(name)).with(
                "sku",
                Json::text(sku),
            ).with("title", v.field("title").copy()).with("evidenceRefs", marketplace::only(s.ev));
            proof {
                json::lemma_values_push(out@, one);
            }
            out.push(one);
        }
        i = i + 1;
    }
    close_listed(raw, ledger, "variants", values.len(), out, s.research_id)
}

/// The amounts of a row that are amounts.
pub open spec fn amounts_in(v: Seq<JsonV>) -> Seq<u64>
    decreases v.len(),
{
    if v.len() == 0 {
        Seq::empty()
    } else {
        match marketplace::minor_units(v.last()) {
            Some(n) => amounts_in(v.drop_last()).push(n),
            None => amounts_in(v.drop_last()),
        }
    }
}

/// The prices of an offer, at most three of them.
pub open spec fn offer_prices_of(v: JsonV, ev: Seq<char>) -> Seq<JsonV> {
    let amounts = marketplace::first_values(amounts_in(v.field("prices"@).elements()), 3);
    Seq::new(amounts.len(), |i: int| marketplace::price_of(amounts[i], "unknown"@, None, ev))
}

fn offer_prices(v: &Json, ev: &str) -> (r: Vec<Json>)
    ensures
        json::values(r@) == offer_prices_of(v@, ev@),
{
    let rows: Vec<&Json> = json::elements(v.field("prices"));
    let ghost all = json::refs(rows@);
    let mut amounts: Vec<u64> = Vec::new();
    let mut i: usize = 0;
    while i < rows.len()
        invariant
            0 <= i <= rows@.len(),
            all == json::refs(rows@),
            amounts@ == amounts_in(all.take(i as int)),
        decreases rows@.len() - i,
    {
        assert(all.take(i + 1).drop_last() =~= all.take(i as int));
        assert(all.take(i + 1).last() == rows@[i as int]@);
        if let Some(n) = marketplace::money(rows[i]) {
            amounts.push(n);
        }
        i = i + 1;
    }
    assert(all.take(i as int) =~= all);
    let mut out: Vec<Json> = Vec::new();
    let mut k: usize = 0;
    let end: usize = if amounts.len() < 3 {
        amounts.len()
    } else {
        3
    };
    let ghost shown = offer_prices_of(v@, ev@);
    while k < end
        invariant
            0 <= k <= end <= amounts@.len(),
            end == marketplace::at_most(amounts@.len() as int, 3),
            amounts@ == amounts_in(v@.field("prices"@).elements()),
            shown == offer_prices_of(v@, ev@),
            json::values(out@) =~= shown.take(k as int),
        decreases end - k,
    {
        let one: Json = marketplace::price(amounts[k], "unknown", None, ev);
        assert(shown[k as int] == one@);
        proof {
            json::lemma_values_push(out@, one);
        }
        out.push(one);
        k = k + 1;
    }
    assert(json::values(out@) =~= shown);
    out
}

/// An offer of a product, as it is shown.
pub open spec fn offer_row(v: JsonV, ev: Seq<char>) -> JsonV {
    JsonV::object().with("offerRef"@, JsonV::Null).with(
        "url"@,
        JsonV::optional_text(marketplace::canonical_in(v, "url"@)),
    ).with(
        "availability"@,
        JsonV::Text(marketplace::availability_of(v.field("available"@))),
    ).with("seller"@, marketplace::seller_of(v.get("seller"@), ev)).with(
        "prices"@,
        JsonV::Array(offer_prices_of(v, ev)),
    ).with(
        "delivery"@,
        match v.field("deliveryLabel"@) {
            JsonV::Text(label) => JsonV::object().with("label"@, JsonV::Text(label)).with(
                "dateFrom"@,
                JsonV::Null,
            ).with("dateTo"@, JsonV::Null),
            _ => JsonV::Null,
        },
    ).with("evidenceRefs"@, marketplace::only_text(ev))
}

/// An offer shows its place, its seller, its availability, its prices and its delivery.
pub proof fn offers_show_their_terms(
    v: JsonV,
    ev: Seq<char>,
)
    ensures
        ({
            let shown = offer_row(v, ev);
            &&& shown is Object
            &&& shown.field("offerRef"@) == (JsonV::Null)
            &&& shown.field("url"@) == (JsonV::optional_text(marketplace::canonical_in(v, "url"@)))
            &&& shown.field("availability"@) == (JsonV::Text(marketplace::availability_of(v.field("available"@))))
            &&& shown.field("seller"@) == (marketplace::seller_of(v.get("seller"@), ev))
            &&& shown.field("prices"@) == (JsonV::Array(offer_prices_of(v, ev)))
            &&& shown.field("delivery"@) == (match v.field("deliveryLabel"@) {
            JsonV::Text(label) => JsonV::object().with("label"@, JsonV::Text(label)).with(
                "dateFrom"@,
                JsonV::Null,
            ).with("dateTo"@, JsonV::Null),
            _ => JsonV::Null,
        })
            &&& shown.field("evidenceRefs"@) == (marketplace::only_text(ev))
        }),
{
    broadcast use json::lemma_get_with;

    reveal_strlit("offerRef");
    reveal_strlit("url");
    reveal_strlit("availability");
    reveal_strlit("seller");
    reveal_strlit("prices");
    reveal_strlit("delivery");
    reveal_strlit("evidenceRefs");
    assert("offerRef"@.len() == 8);
    assert("url"@.len() == 3);
    assert("availability"@.len() == 12);
    assert("seller"@.len() == 6);
    assert("prices"@.len() == 6);
    assert("delivery"@.len() == 8);
    assert("evidenceRefs"@.len() == 12);
    assert("offerRef"@[0] == 'o');
    assert("delivery"@[0] == 'd');
    assert("availability"@[0] == 'a');
    assert("evidenceRefs"@[0] == 'e');
    assert("seller"@[0] == 's');
    assert("prices"@[0] == 'p');
}

pub open spec fn offer_rows(rows: Seq<JsonV>, ev: Seq<char>) -> Seq<JsonV> {
    Seq::new(rows.len(), |i: int| offer_row(rows[i], ev))
}

/// The offers of a product.
pub open spec fn offers_of(ledger: LedgerV, raw: JsonV, s: SubjectV) -> (LedgerV, JsonV) {
    listed_section(
        ledger,
        raw,
        "offers"@,
        offer_rows(marketplace::first_values(listed(raw, "offers"@), 20), s.ev),
        s.research_id,
    )
}

fn offer(v: &Json, ev: &str) -> (r: Json)
    ensures
        r@ == offer_row(v@, ev@),
{
    let delivery: Json = match v.field("deliveryLabel").as_str() {
        Some(label) => Json::object().with("label", Json::text(label)).with(
            "dateFrom",
            Json::Null,
        ).with("dateTo", Json::Null),
        None => Json::Null,
    };
    Json::object().with("offerRef", Json::Null).with(
        "url",
        json::optional(&marketplace::canonical(v, "url")),
    ).with("availability", Json::text(marketplace::availability(v.field("available")))).with(
        "seller",
        marketplace::seller(v.get("seller"), ev),
    ).with("prices", Json::array(offer_prices(v, ev))).with("delivery", delivery).with(
        "evidenceRefs",
        marketplace::only(ev),
    )
}

fn offers(raw: &Json, ledger: &mut Ledger, s: &Subject) -> (r: Json)
    requires
        old(ledger)@.left() >= 1,
    ensures
        (final(ledger)@, r@) == offers_of(old(ledger)@, raw@, s@),
{
    let values: Vec<&Json> = json::elements(raw.field("offers").field("items"));
    let ghost all = json::refs(values@);
    let end: usize = if values.len() < 20 {
        values.len()
    } else {
        20
    };
    let ghost shown = offer_rows(marketplace::first_values(all, 20), s.ev@);
    let mut out: Vec<Json> = Vec::new();
    let mut i: usize = 0;
    while i < end
        invariant
            0 <= i <= end <= values@.len(),
            end == marketplace::at_most(values@.len() as int, 20),
            all == json::refs(values@),
            shown == offer_rows(marketplace::first_values(all, 20), s.ev@),
            json::values(out@) =~= shown.take(i as int),
        decreases end - i,
    {
        let one: Json = offer(values[i], s.ev);
        assert(shown[i as int] == one@);
        proof {
            json::lemma_values_push(out@, one);
        }
        out.push(one);
        i = i + 1;
    }
    assert(json::values(out@) =~= shown);
    close_listed(raw, ledger, "offers", values.len(), out, s.research_id)
}

/// The images of a product with the place that each comes from; none occurs twice.
pub open spec fn image_candidates(
    known: Seq<(Seq<char>, Seq<char>)>,
    urls: Seq<Seq<char>>,
    place: Seq<char>,
) -> Seq<(Seq<char>, Seq<char>)>
    decreases urls.len(),
{
    if urls.len() == 0 {
        known
    } else {
        let before = image_candidates(known, urls.drop_last(), place);
        if exists|i: int| 0 <= i < before.len() && (#[trigger] before[i]).0 == urls.last() {
            before
        } else {
            before.push((urls.last(), place))
        }
    }
}

/// The images of a product: those of the gallery, then those of the description.
pub open spec fn product_images(raw: JsonV) -> Seq<(Seq<char>, Seq<char>)> {
    image_candidates(
        image_candidates(Seq::empty(), texts_in(raw.field("images"@).elements()), "/images"@),
        texts_in(raw.field("description"@).field("images"@).elements()),
        "/description/images"@,
    )
}

pub open spec fn placed_texts(v: Seq<(&str, &'static str)>) -> Seq<(Seq<char>, Seq<char>)> {
    Seq::new(v.len(), |i: int| (v[i].0@, v[i].1@))
}

/// The candidates so far all differ.
proof fn lemma_candidates_differ(
    known: Seq<(Seq<char>, Seq<char>)>,
    urls: Seq<Seq<char>>,
    place: Seq<char>,
)
    requires
        forall|i: int, k: int|
            0 <= i < k < known.len() ==> (#[trigger] known[i]).0 != (#[trigger] known[k]).0,
    ensures
        ({
            let v = image_candidates(known, urls, place);
            forall|i: int, k: int|
                0 <= i < k < v.len() ==> (#[trigger] v[i]).0 != (#[trigger] v[k]).0
        }),
    decreases urls.len(),
{
    if urls.len() > 0 {
        lemma_candidates_differ(known, urls.drop_last(), place);
        let before = image_candidates(known, urls.drop_last(), place);
        let v = image_candidates(known, urls, place);
        assert forall|i: int, k: int| 0 <= i < k < v.len() implies (#[trigger] v[i]).0 != (
        #[trigger] v[k]).0 by {
            assert(before[i] == v[i]);
            if k < before.len() {
                assert(before[k] == v[k]);
            }
        }
    }
}

/// No image of a product is shown twice.
pub proof fn product_images_differ(raw: JsonV)
    ensures
        forall|i: int, k: int|
            0 <= i < k < product_images(raw).len() ==> (#[trigger] product_images(raw)[i]).0 != (
            #[trigger] product_images(raw)[k]).0,
{
    let gallery = texts_in(raw.field("images"@).elements());
    lemma_candidates_differ(Seq::empty(), gallery, "/images"@);
    lemma_candidates_differ(
        image_candidates(Seq::empty(), gallery, "/images"@),
        texts_in(raw.field("description"@).field("images"@).elements()),
        "/description/images"@,
    );
}

fn is_candidate(v: &Vec<(&str, &'static str)>, url: &str) -> (r: bool)
    ensures
        r == exists|i: int|
            0 <= i < placed_texts(v@).len() && (#[trigger] placed_texts(v@)[i]).0 == url@,
{
    let ghost all = placed_texts(v@);
    let mut i: usize = 0;
    while i < v.len()
        invariant
            0 <= i <= v@.len(),
            all == placed_texts(v@),
            forall|k: int| 0 <= k < i ==> (#[trigger] all[k]).0 != url@,
        decreases v@.len() - i,
    {
        assert(all[i as int] == (v@[i as int].0@, v@[i as int].1@));
        if text::same(v[i].0, url) {
            return true;
        }
        i = i + 1;
    }
    false
}

fn add_candidates<'a>(
    out: &mut Vec<(&'a str, &'static str)>,
    values: &Vec<&'a Json>,
    place: &'static str,
)
    ensures
        placed_texts(final(out)@) == image_candidates(
            placed_texts(old(out)@),
            texts_in(json::refs(values@)),
            place@,
        ),
{
    let mut urls: Vec<&'a str> = Vec::new();
    assert(shown_texts(urls@) =~= Seq::empty());
    add_texts(&mut urls, values);
    let ghost all = shown_texts(urls@);
    assert(all =~= texts_in(json::refs(values@)));
    let ghost known = placed_texts(out@);
    let mut i: usize = 0;
    while i < urls.len()
        invariant
            0 <= i <= urls@.len(),
            all == shown_texts(urls@),
            placed_texts(out@) == image_candidates(known, all.take(i as int), place@),
        decreases urls@.len() - i,
    {
        assert(all.take(i + 1).drop_last() =~= all.take(i as int));
        assert(all.take(i + 1).last() == urls@[i as int]@);
        if !is_candidate(out, urls[i]) {
            let ghost before = out@;
            out.push((urls[i], place));
            assert(placed_texts(out@) =~= placed_texts(before).push((urls@[i as int]@, place@)));
        }
        i = i + 1;
    }
    assert(all.take(i as int) =~= all);
}

/// What images become: a reference each, and the row that names it.
pub open spec fn image_rows(
    ledger: LedgerV,
    images: Seq<(Seq<char>, Seq<char>)>,
    first: int,
    s: SubjectV,
) -> (LedgerV, Seq<JsonV>)
    decreases images.len(),
{
    if images.len() == 0 {
        (ledger, Seq::empty())
    } else {
        let before = image_rows(ledger, images.drop_last(), first, s);
        let image = images.last();
        let place = image.1 + "/"@ + text::decimal((first + images.len() - 1) as nat);
        (
            before.0.put(
                s.research_id,
                "image"@,
                search_results::image_value_of(
                    image.0,
                    "product"@,
                    s.product_ref,
                    s.source_url,
                    s.sku,
                    place,
                ),
                None,
            ),
            before.1.push(
                JsonV::object().with("imageRef"@, JsonV::Text(before.0.next_ref())).with(
                    "altText"@,
                    JsonV::Null,
                ).with("evidenceRefs"@, marketplace::only_text(s.ev)),
            ),
        )
    }
}

/// The images of a product, a page of them.
pub open spec fn images_of(ledger: LedgerV, raw: JsonV, s: SubjectV) -> (LedgerV, JsonV) {
    let all = product_images(raw);
    let offset = continued_at(raw);
    let more = remaining_of(all.len(), offset) > 12;
    let next = cached_continuation(ledger, raw, "images"@, all.len(), 12, s);
    let rows = image_rows(next.0, window(all, offset as int, 12), offset as int, s);
    (
        rows.0,
        section_base_of(
            if more {
                "partial"@
            } else {
                "available"@
            },
            more,
            next.1,
            JsonV::Bool(more),
        ).with("items"@, JsonV::Array(rows.1)),
    )
}

fn image_list(
    all: &Vec<(&str, &'static str)>,
    start: usize,
    end: usize,
    ledger: &mut Ledger,
    s: &Subject,
) -> (r: Vec<Json>)
    requires
        start <= end <= all@.len(),
        old(ledger)@.left() >= end - start,
    ensures
        (final(ledger)@, json::values(r@)) == image_rows(
            old(ledger)@,
            placed_texts(all@).subrange(start as int, end as int),
            start as int,
            s@,
        ),
        final(ledger)@.used == old(ledger)@.used + (end - start),
        final(ledger)@.ids == old(ledger)@.ids,
{
    let ghost begin = ledger@;
    let ghost shown = placed_texts(all@).subrange(start as int, end as int);
    let mut out: Vec<Json> = Vec::new();
    let mut i: usize = start;
    assert(json::values(out@) =~= Seq::empty());
    while i < end
        invariant
            start <= i <= end <= all@.len(),
            shown == placed_texts(all@).subrange(start as int, end as int),
            begin.left() >= end - start,
            ledger@.ids == begin.ids,
            ledger@.used == begin.used + (i - start),
            (ledger@, json::values(out@)) == image_rows(
                begin,
                shown.take(i - start),
                start as int,
                s@,
            ),
        decreases end - i,
    {
        assert(shown.take(i + 1 - start).drop_last() =~= shown.take(i - start));
        assert(shown.take(i + 1 - start).last() == (all@[i as int].0@, all@[i as int].1@));
        let place: String = text::joined3(all[i].1, "/", text::decimal_text(i as u64).as_str());
        let value: Json = search_results::image_value(
            all[i].0,
            "product",
            s.product_ref,
            s.source_url,
            s.sku,
            place.as_str(),
        );
        let name: String = ledger.put(s.research_id, "image", value, None);
        let one: Json = Json::object().with("imageRef", Json::Text(name)).with(
            "altText",
            Json::Null,
        ).with("evidenceRefs", marketplace::only(s.ev));
        proof {
            json::lemma_values_push(out@, one);
        }
        out.push(one);
        i = i + 1;
    }
    assert(shown.take(i - start) =~= shown);
    out
}

fn images(raw: &Json, ledger: &mut Ledger, s: &Subject) -> (r: Json)
    requires
        old(ledger)@.left() >= 13,
    ensures
        (final(ledger)@, r@) == images_of(old(ledger)@, raw@, s@),
        final(ledger)@.ids == old(ledger)@.ids,
        final(ledger)@.used <= old(ledger)@.used + 13,
{
    let mut all: Vec<(&str, &'static str)> = Vec::new();
    assert(placed_texts(all@) =~= Seq::empty());
    add_candidates(&mut all, &json::elements(raw.field("images")), "/images");
    add_candidates(
        &mut all,
        &json::elements(raw.field("description").field("images")),
        "/description/images",
    );
    let offset: u64 = offset_in(raw);
    let more: bool = remaining(all.len(), offset) > 12;
    let next: Option<String> = continue_cached(raw, ledger, "images", all.len(), 12, s);
    let bounds: (usize, usize) = window_bounds(all.len(), offset, 12);
    let ghost middle = ledger@;
    let rows: Vec<Json> = image_list(&all, bounds.0, bounds.1, ledger, s);
    proof {
        if offset >= all@.len() {
            assert(placed_texts(all@).subrange(bounds.0 as int, bounds.1 as int) =~= Seq::empty());
        }
    }
    let status: &str = if more {
        "partial"
    } else {
        "available"
    };
    section_base(status, more, &next, Json::Bool(more)).with("items", Json::array(rows))
}

/// One section of a product; none that is not known.
pub open spec fn section_of(ledger: LedgerV, raw: JsonV, section: Seq<char>, s: SubjectV) -> Option<
    (LedgerV, JsonV),
> {
    if section == "characteristics"@ {
        Some(characteristics_of(ledger, raw, s))
    } else if section == "description"@ {
        Some(description_of(ledger, raw, s))
    } else if section == "variants"@ {
        Some(variants_of(ledger, raw, s))
    } else if section == "offers"@ {
        Some(offers_of(ledger, raw, s))
    } else if section == "images"@ {
        Some(images_of(ledger, raw, s))
    } else {
        None
    }
}

/// A product with the sections that were asked for, one after the other.
pub open spec fn with_sections(
    ledger: LedgerV,
    raw: JsonV,
    product: JsonV,
    asked: Seq<Seq<char>>,
    s: SubjectV,
) -> (LedgerV, JsonV)
    decreases asked.len(),
{
    if asked.len() == 0 {
        (ledger, product)
    } else {
        let before = with_sections(ledger, raw, product, asked.drop_last(), s);
        match section_of(before.0, raw, asked.last(), s) {
            Some(made) => (made.0, before.1.with(asked.last(), made.1)),
            None => before,
        }
    }
}

fn one_section(raw: &Json, ledger: &mut Ledger, section: &str, s: &Subject) -> (r: Option<Json>)
    requires
        old(ledger)@.left() >= 21,
    ensures
        final(ledger)@.ids == old(ledger)@.ids,
        final(ledger)@.used <= old(ledger)@.used + 21,
        match section_of(old(ledger)@, raw@, section@, s@) {
            Some(made) => r matches Some(j) && made == (final(ledger)@, j@),
            None => r is None && final(ledger)@ == old(ledger)@,
        },
{
    if text::same(section, "characteristics") {
        Some(characteristics(raw, ledger, s))
    } else if text::same(section, "description") {
        Some(description(raw, ledger, s))
    } else if text::same(section, "variants") {
        Some(variants(raw, ledger, s))
    } else if text::same(section, "offers") {
        Some(offers(raw, ledger, s))
    } else if text::same(section, "images") {
        Some(images(raw, ledger, s))
    } else {
        None
    }
}

fn add_sections(raw: &Json, ledger: &mut Ledger, product: Json, asked: &Vec<String>, s: &Subject) -> (r:
    Json)
    requires
        old(ledger)@.left() >= 21 * asked@.len(),
    ensures
        (final(ledger)@, r@) == with_sections(
            old(ledger)@,
            raw@,
            product@,
            text::texts(asked@),
            s@,
        ),
        final(ledger)@.ids == old(ledger)@.ids,
        final(ledger)@.used <= old(ledger)@.used + 21 * asked@.len(),
{
    let ghost start = ledger@;
    let ghost all = text::texts(asked@);
    let ghost plain = product@;
    let mut product: Json = product;
    let mut i: usize = 0;
    while i < asked.len()
        invariant
            0 <= i <= asked@.len(),
            all == text::texts(asked@),
            start.left() >= 21 * asked@.len(),
            ledger@.ids == start.ids,
            ledger@.used <= start.used + 21 * i,
            (ledger@, product@) == with_sections(start, raw@, plain, all.take(i as int), s@),
        decreases asked@.len() - i,
    {
        assert(all.take(i + 1).drop_last() =~= all.take(i as int));
        assert(all.take(i + 1).last() == asked@[i as int]@);
        if let Some(value) = one_section(raw, ledger, asked[i].as_str(), s) {
            product.set(asked[i].as_str(), value);
        }
        i = i + 1;
    }
    assert(all.take(i as int) =~= all);
    product
}

/// The product itself, without the parts that were asked for.
pub open spec fn product_base(raw: JsonV, s: SubjectV) -> JsonV {
    JsonV::object().with("productRef"@, JsonV::Text(s.product_ref)).with(
        "sku"@,
        JsonV::Text(s.sku),
    ).with("title"@, raw.field("name"@)).with("url"@, JsonV::Text(s.source_url)).with(
        "availability"@,
        JsonV::Text(marketplace::availability_of(raw.field("available"@))),
    ).with("prices"@, JsonV::Array(product_prices_of(raw, s.ev))).with(
        "seller"@,
        marketplace::seller_of(raw.get("seller"@), s.ev),
    ).with("rating"@, raw.field("rating"@)).with("reviewCount"@, raw.field("reviews"@)).with(
        "fieldEvidence"@,
        JsonV::Array(
            seq![
                JsonV::object().with("fieldPath"@, JsonV::Text(""@)).with(
                    "evidenceRefs"@,
                    marketplace::only_text(s.ev),
                ),
            ],
        ),
    ).with("evidenceRefs"@, marketplace::only_text(s.ev))
}

/// A product shows its reference and number, its title and place, its availability, prices and
/// seller, its rating and the number of its reviews.
pub proof fn products_show_their_terms(
    raw: JsonV,
    s: SubjectV,
)
    ensures
        ({
            let shown = product_base(raw, s);
            &&& shown is Object
            &&& shown.field("productRef"@) == (JsonV::Text(s.product_ref))
            &&& shown.field("sku"@) == (JsonV::Text(s.sku))
            &&& shown.field("title"@) == (raw.field("name"@))
            &&& shown.field("url"@) == (JsonV::Text(s.source_url))
            &&& shown.field("availability"@) == (JsonV::Text(marketplace::availability_of(raw.field("available"@))))
            &&& shown.field("prices"@) == (JsonV::Array(product_prices_of(raw, s.ev)))
            &&& shown.field("seller"@) == (marketplace::seller_of(raw.get("seller"@), s.ev))
            &&& shown.field("rating"@) == (raw.field("rating"@))
            &&& shown.field("reviewCount"@) == (raw.field("reviews"@))
            &&& shown.field("fieldEvidence"@) == (JsonV::Array(
            seq![
                JsonV::object().with("fieldPath"@, JsonV::Text(""@)).with(
                    "evidenceRefs"@,
                    marketplace::only_text(s.ev),
                ),
            ],
        ))
            &&& shown.field("evidenceRefs"@) == (marketplace::only_text(s.ev))
        }),
{
    broadcast use json::lemma_get_with;

    reveal_strlit("productRef");
    reveal_strlit("sku");
    reveal_strlit("title");
    reveal_strlit("url");
    reveal_strlit("availability");
    reveal_strlit("prices");
    reveal_strlit("seller");
    reveal_strlit("rating");
    reveal_strlit("reviewCount");
    reveal_strlit("fieldEvidence");
    reveal_strlit("evidenceRefs");
    assert("productRef"@.len() == 10);
    assert("sku"@.len() == 3);
    assert("title"@.len() == 5);
    assert("url"@.len() == 3);
    assert("availability"@.len() == 12);
    assert("prices"@.len() == 6);
    assert("seller"@.len() == 6);
    assert("rating"@.len() == 6);
    assert("reviewCount"@.len() == 11);
    assert("fieldEvidence"@.len() == 13);
    assert("evidenceRefs"@.len() == 12);
    assert("sku"@[0] == 's');
    assert("url"@[0] == 'u');
    assert("availability"@[0] == 'a');
    assert("evidenceRefs"@[0] == 'e');
    assert("prices"@[0] == 'p');
    assert("seller"@[0] == 's');
    assert("rating"@[0] == 'r');
}

fn product_object(raw: &Json, s: &Subject) -> (r: Json)
    ensures
        r@ == product_base(raw@, s@),
{
    let mut own: Vec<Json> = Vec::new();
    own.push(
        Json::object().with("fieldPath", Json::text("")).with(
            "evidenceRefs",
            marketplace::only(s.ev),
        ),
    );
    assert(json::values(own@) =~= seq![
        JsonV::object().with("fieldPath"@, JsonV::Text(""@)).with(
            "evidenceRefs"@,
            marketplace::only_text(s.ev@),
        ),
    ]);
    Json::object().with("productRef", Json::text(s.product_ref)).with(
        "sku",
        Json::text(s.sku),
    ).with("title", raw.field("name").copy()).with("url", Json::text(s.source_url)).with(
        "availability",
        Json::text(marketplace::availability(raw.field("available"))),
    ).with("prices", Json::array(product_prices(raw, s.ev))).with(
        "seller",
        marketplace::seller(raw.get("seller"), s.ev),
    ).with("rating", raw.field("rating").copy()).with(
        "reviewCount",
        raw.field("reviews").copy(),
    ).with("fieldEvidence", Json::array(own)).with("evidenceRefs", marketplace::only(s.ev))
}

/// The evidence for a product.
pub open spec fn product_evidence(
    raw: JsonV,
    asked: Seq<Seq<char>>,
    context_id: Seq<char>,
    s: SubjectV,
) -> JsonV {
    marketplace::cited_as(
        evidence::observed_evidence_of(
            Some(s.source_url),
            context_id,
            Some(s.sku),
            product_paths(asked),
            JsonV::Array(product_facts(raw, asked)),
            s.observed,
        ),
        s.ev,
    )
}

/// When an observation was made: when it was captured, or now.
pub open spec fn observed_at(raw: JsonV, now: Seq<char>) -> Seq<char> {
    match raw.field("_continuationObservedAt"@) {
        JsonV::Text(s) => s,
        _ => now,
    }
}

pub(crate) fn observation_time<'a>(raw: &'a Json, now: &'a str) -> (r: &'a str)
    ensures
        r@ == observed_at(raw@, now@),
{
    match raw.field("_continuationObservedAt").as_str() {
        Some(s) => s,
        None => now,
    }
}

/// The ledger and the reference of a product: the one it was captured under, or a new one.
pub open spec fn product_named(
    ledger: LedgerV,
    raw: JsonV,
    research_id: Seq<char>,
    sku: Seq<char>,
    url: Seq<char>,
) -> (LedgerV, Seq<char>) {
    match raw.field("_continuationProductRef"@) {
        JsonV::Text(name) => (ledger, name),
        _ => (
            ledger.put(research_id, "product"@, search_results::product_value_of(sku, url), None),
            ledger.next_ref(),
        ),
    }
}

/// What a product observation becomes.
pub open spec fn product_made(
    raw: JsonV,
    requested: JsonV,
    ledger: LedgerV,
    research_id: Seq<char>,
    context_id: Seq<char>,
    asked: Seq<Seq<char>>,
    now: Seq<char>,
) -> Result<(LedgerV, ProductNormalizedV), (LedgerV, FailureV)> {
    if overflows(raw, asked, "variants"@) || overflows(raw, asked, "offers"@) {
        Err(
            (
                ledger,
                FailureV::Message(
                    "RESULT_TOO_LARGE: marketplace section exceeds its bounded page"@,
                ),
            ),
        )
    } else {
        match (raw.field("sku"@), marketplace::canonical_in(raw, "url"@)) {
            (JsonV::Text(sku), Some(url)) => {
                let named = product_named(ledger, raw, research_id, sku, url);
                let s = SubjectV {
                    research_id,
                    product_ref: named.1,
                    source_url: url,
                    sku,
                    ev: marketplace::evidence_name(named.0.next()),
                    observed: observed_at(raw, now),
                };
                let made = with_sections(named.0.drawn(), raw, product_base(raw, s), asked, s);
                Ok(
                    (
                        made.0,
                        ProductNormalizedV {
                            result: JsonV::object().with("status"@, JsonV::Text("ok"@)).with(
                                "requested"@,
                                requested,
                            ).with("product"@, made.1),
                            evidence: seq![product_evidence(raw, asked, context_id, s)],
                            product_refs: seq![s.product_ref],
                            warnings: marketplace::source_warnings_of(raw),
                        },
                    ),
                )
            },
            (JsonV::Text(_), None) => Err(
                (
                    ledger,
                    FailureV::Message("SOURCE_CHANGED: product source URL is missing or invalid"@),
                ),
            ),
            _ => Err((ledger, FailureV::Message("SOURCE_CHANGED: product page has no SKU"@))),
        }
    }
}

fn evidence_of(raw: &Json, asked: &Vec<String>, context_id: &str, s: &Subject) -> (r: Vec<Json>)
    ensures
        json::values(r@) == seq![
            product_evidence(raw@, text::texts(asked@), context_id@, s@),
        ],
{
    let paths: Vec<String> = path_list(asked);
    let mut shown: Vec<&str> = Vec::new();
    let ghost all = text::texts(paths@);
    let mut i: usize = 0;
    while i < paths.len()
        invariant
            0 <= i <= paths@.len(),
            all == text::texts(paths@),
            widgets::slices(shown@) =~= all.take(i as int),
        decreases paths@.len() - i,
    {
        let ghost before = shown@;
        shown.push(paths[i].as_str());
        assert(widgets::slices(shown@) =~= widgets::slices(before).push(paths@[i as int]@));
        i = i + 1;
    }
    assert(widgets::slices(shown@) =~= all);
    let one: Json = evidence::observed_evidence(
        Some(s.source_url),
        context_id,
        Some(s.sku),
        shown.as_slice(),
        Json::array(fact_list(raw, asked)),
        s.observed,
    ).with("evidenceRef", Json::text(s.ev));
    let mut out: Vec<Json> = Vec::new();
    out.push(one);
    assert(json::values(out@) =~= seq![one@]);
    out
}

/// What a product observation becomes, with identifiers that are there.
pub(crate) fn normalize_product_in(
    raw: &Json,
    requested: &Json,
    ledger: &mut Ledger,
    research_id: &str,
    context_id: &str,
    asked: &Vec<String>,
    now: &str,
) -> (r: Result<ProductNormalized, Failure>)
    requires
        old(ledger)@.left() >= 2 + 21 * asked@.len(),
    ensures
        final(ledger)@.ids == old(ledger)@.ids,
        final(ledger)@.used <= old(ledger)@.used + 2 + 21 * asked@.len(),
        marketplace::made(r, final(ledger)@) == product_made(
            raw@,
            requested@,
            old(ledger)@,
            research_id@,
            context_id@,
            text::texts(asked@),
            now@,
        ),
{
    if too_long(raw, asked, "variants") || too_long(raw, asked, "offers") {
        return Err(
            Failure::new("RESULT_TOO_LARGE: marketplace section exceeds its bounded page"),
        );
    }
    let sku: &str = match raw.field("sku").as_str() {
        Some(s) => s,
        None => return Err(Failure::new("SOURCE_CHANGED: product page has no SKU")),
    };
    let url: String = match marketplace::canonical(raw, "url") {
        Some(u) => u,
        None => {
            return Err(Failure::new("SOURCE_CHANGED: product source URL is missing or invalid"));
        },
    };
    let product_ref: String = match raw.field("_continuationProductRef").as_str() {
        Some(name) => name.to_owned(),
        None => ledger.put(
            research_id,
            "product",
            search_results::product_value(sku, url.as_str()),
            None,
        ),
    };
    let ev: String = text::joined("evidence_", ledger.draw().as_str());
    let s: Subject = Subject {
        research_id,
        product_ref: product_ref.as_str(),
        source_url: url.as_str(),
        sku,
        ev: ev.as_str(),
        observed: observation_time(raw, now),
    };
    let product: Json = add_sections(raw, ledger, product_object(raw, &s), asked, &s);
    let evidence: Vec<Json> = evidence_of(raw, asked, context_id, &s);
    let result: Json = Json::object().with("status", Json::text("ok")).with(
        "requested",
        requested.copy(),
    ).with("product", product);
    let mut refs: Vec<String> = Vec::new();
    refs.push(product_ref.clone());
    assert(text::texts(refs@) =~= seq![product_ref@]);
    Ok(
        ProductNormalized {
            result,
            evidence,
            product_refs: refs,
            warnings: marketplace::source_warnings(raw),
        },
    )
}

/// What a product observation becomes, where it was not captured before, at a given time.
pub fn normalize_product_at(
    raw: &Json,
    requested: &Json,
    ledger: &mut Ledger,
    research_id: &str,
    context_id: &str,
    asked: &Vec<String>,
    now: &str,
) -> (r: Result<ProductNormalized, Failure>)
    requires
        old(ledger)@.valid(),
    ensures
        final(ledger)@.valid(),
        final(ledger)@.ids.take(old(ledger)@.ids.len() as int) == old(ledger)@.ids,
        marketplace::made(r, final(ledger)@) == product_made(
            raw@,
            requested@,
            old(ledger)@.supplied(final(ledger)@),
            research_id@,
            context_id@,
            text::texts(asked@),
            now@,
        ),
{
    let ghost origin = ledger@;
    ledger.stock(1, 2);
    ledger.stock(asked.len(), 21);
    assert(ledger@ =~= origin.supplied(ledger@));
    assert(ledger@.ids.take(origin.ids.len() as int) =~= origin.ids);
    normalize_product_in(raw, requested, ledger, research_id, context_id, asked, now)
}

/// What a product observation becomes, at the present time. A section that shows more than
/// a page of its values is continued from the observation itself.
pub fn normalize_product(
    raw: &Json,
    requested: &Json,
    ledger: &mut Ledger,
    research_id: &str,
    context_id: &str,
    asked: &Vec<String>,
) -> (r: Result<ProductNormalized, Failure>)
    requires
        old(ledger)@.valid(),
    ensures
        final(ledger)@.valid(),
        final(ledger)@.ids.take(old(ledger)@.ids.len() as int) == old(ledger)@.ids,
        exists|now: Seq<char>|
            marketplace::made(r, final(ledger)@) == #[trigger] product_made(
                raw@,
                requested@,
                old(ledger)@.supplied(final(ledger)@),
                research_id@,
                context_id@,
                text::texts(asked@),
                now,
            ),
{
    let now: String = evidence::now();
    normalize_product_at(raw, requested, ledger, research_id, context_id, asked, now.as_str())
}

} // verus!
