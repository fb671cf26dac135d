//! View-specific presentation of public envelopes that are already journaled.

use crate::failure::{self, Failure, FailureV};
use crate::json::{self, Json, JsonV};
use crate::product_details;
use crate::text;
use crate::widgets;
use vstd::prelude::*;

verus! {

pub open spec fn message(s: Seq<char>) -> FailureV {
    FailureV::Message(s)
}

/// The tools whose answers have views.
pub open spec fn viewed_tools() -> Seq<Seq<char>> {
    seq!["ozon_search"@, "ozon_get_products"@, "ozon_get_reviews"@]
}

/// The views.
pub open spec fn views() -> Seq<Seq<char>> {
    seq!["compact"@, "comparison"@, "full"@]
}

/// A value without the evidence that it or any part of it refers to.
pub open spec fn stripped(v: JsonV) -> JsonV
    decreases v,
{
    match v {
        JsonV::Array(a) => JsonV::Array(stripped_rows(a)),
        JsonV::Object(m) => JsonV::Object(json::dropped(stripped_members(m), "evidenceRefs"@)),
        other => other,
    }
}

pub open spec fn stripped_rows(a: Seq<JsonV>) -> Seq<JsonV>
    decreases a,
{
    Seq::new(
        a.len(),
        |i: int|
            if 0 <= i < a.len() {
                stripped(a[i])
            } else {
                JsonV::Null
            },
    )
}

pub open spec fn stripped_members(m: Seq<(Seq<char>, JsonV)>) -> Seq<(Seq<char>, JsonV)>
    decreases m,
{
    Seq::new(
        m.len(),
        |i: int|
            if 0 <= i < m.len() {
                (m[i].0, stripped(m[i].1))
            } else {
                (Seq::empty(), JsonV::Null)
            },
    )
}

/// Takes the evidence that a value or any part of it refers to out of it.
pub fn remove_evidence_refs(value: &Json) -> (r: Json)
    ensures
        r@ == stripped(value@),
    decreases value,
{
    match value {
        Json::Array(v) => {
            let mut out: Vec<Json> = Vec::new();
            let mut i: usize = 0;
            let ghost all = json::values(v@);
            while i < v.len()
                invariant
                    0 <= i <= v@.len(),
                    all == json::values(v@),
                    decreases_to!(value => v@),
                    json::values(out@).len() == i,
                    forall|k: int| 0 <= k < i ==> json::values(out@)[k] == stripped(all[k]),
                decreases v@.len() - i,
            {
                assert(decreases_to!(v@ => v@[i as int]));
                let one: Json = remove_evidence_refs(&v[i]);
                assert(all[i as int] == v@[i as int]@);
                proof {
                    json::lemma_values_push(out@, one);
                }
                out.push(one);
                i = i + 1;
            }
            assert(value@->Array_0 =~= all);
            assert(value@ == JsonV::Array(all));
            assert(json::values(out@) =~= stripped_rows(all));
            Json::array(out)
        },
        Json::Object(m) => {
            let mut out: Vec<(String, Json)> = Vec::new();
            let mut i: usize = 0;
            let ghost all = json::members(m@);
            while i < m.len()
                invariant
                    0 <= i <= m@.len(),
                    all == json::members(m@),
                    decreases_to!(value => m@),
                    json::members(out@).len() == i,
                    forall|k: int|
                        0 <= k < i ==> #[trigger] json::members(out@)[k] == (
                            all[k].0,
                            stripped(all[k].1),
                        ),
                decreases m@.len() - i,
            {
                assert(decreases_to!(m@ => m@[i as int]));
                assert(decreases_to!(m@[i as int] => m@[i as int].1));
                let one: (String, Json) = (m[i].0.clone(), remove_evidence_refs(&m[i].1));
                assert(all[i as int] == (m@[i as int].0@, m@[i as int].1@));
                proof {
                    json::lemma_members_push(out@, one);
                }
                out.push(one);
                i = i + 1;
            }
            assert(value@->Object_0 =~= all);
            let whole: Json = Json::Object(out);
            let ghost mapped = stripped_members(all);
            assert(value@ == JsonV::Object(all));
            assert(json::members(out@) =~= mapped);
            assert(whole@->Object_0 =~= mapped);
            whole.without("evidenceRefs")
        },
        other => other.copy(),
    }
}

/// Whether a value, or any part of it, is an object with this key.
pub open spec fn mentions(v: JsonV, key: Seq<char>) -> bool
    decreases v,
{
    match v {
        JsonV::Array(a) => exists|i: int| 0 <= i < a.len() && mentions(#[trigger] a[i], key),
        JsonV::Object(m) => exists|i: int|
            0 <= i < m.len() && ((#[trigger] m[i]).0 == key || mentions(m[i].1, key)),
        _ => false,
    }
}

/// Whether no object in a value holds a key twice.
pub open spec fn keys_differ(v: JsonV) -> bool
    decreases v,
{
    match v {
        JsonV::Array(a) => forall|i: int| 0 <= i < a.len() ==> keys_differ(#[trigger] a[i]),
        JsonV::Object(m) => {
            &&& forall|i: int| 0 <= i < m.len() ==> keys_differ((#[trigger] m[i]).1)
            &&& forall|i: int, k: int|
                0 <= i < k < m.len() ==> (#[trigger] m[i]).0 != (#[trigger] m[k]).0
        },
        _ => true,
    }
}

proof fn lemma_dropped_members(m: Seq<(Seq<char>, JsonV)>, key: Seq<char>)
    requires
        forall|i: int, k: int| 0 <= i < k < m.len() ==> (#[trigger] m[i]).0 != (#[trigger] m[k]).0,
    ensures
        forall|i: int|
            0 <= i < json::dropped(m, key).len() ==> {
                &&& (#[trigger] json::dropped(m, key)[i]).0 != key
                &&& m.contains(json::dropped(m, key)[i])
            },
    decreases m.len(),
{
    let d = json::dropped(m, key);
    if m.len() > 0 {
        let rest = m.drop_first();
        assert(forall|i: int| 0 <= i < rest.len() ==> rest[i] == m[i + 1]);
        lemma_dropped_members(rest, key);
        if m[0].0 == key {
            assert forall|i: int| 0 <= i < d.len() implies (#[trigger] d[i]).0 != key && m.contains(
                d[i],
            ) by {
                assert(d[i] == m[i + 1]);
                assert(m[0].0 != m[i + 1].0);
            }
        } else {
            let tail = json::dropped(rest, key);
            assert(d =~= seq![m[0]] + tail);
            assert forall|i: int| 0 <= i < d.len() implies (#[trigger] d[i]).0 != key && m.contains(
                d[i],
            ) by {
                if i > 0 {
                    assert(d[i] == tail[i - 1]);
                    let k = choose|k: int| 0 <= k < rest.len() && rest[k] == tail[i - 1];
                    assert(m[k + 1] == d[i]);
                } else {
                    assert(m[0] == d[0]);
                }
            }
        }
    }
}

/// Once the evidence is taken out of a value, no part of it refers to evidence.
pub proof fn stripped_values_cite_nothing(v: JsonV)
    requires
        keys_differ(v),
    ensures
        !mentions(stripped(v), "evidenceRefs"@),
    decreases v,
{
    match v {
        JsonV::Array(a) => {
            assert forall|i: int| 0 <= i < a.len() implies !mentions(
                #[trigger] stripped(v)->Array_0[i],
                "evidenceRefs"@,
            ) by {
                assert(keys_differ(a[i]));
                stripped_values_cite_nothing(a[i]);
            }
        },
        JsonV::Object(m) => {
            let mapped = stripped_members(m);
            assert forall|i: int| 0 <= i < m.len() implies !mentions(
                (#[trigger] mapped[i]).1,
                "evidenceRefs"@,
            ) by {
                assert(keys_differ(m[i].1));
                assert(decreases_to!(m => m[i]));
                assert(decreases_to!(m[i] => m[i].1));
                stripped_values_cite_nothing(m[i].1);
            }
            assert forall|i: int, k: int| 0 <= i < k < mapped.len() implies (
            #[trigger] mapped[i]).0 != (#[trigger] mapped[k]).0 by {
                assert(m[i].0 != m[k].0);
            }
            lemma_dropped_members(mapped, "evidenceRefs"@);
            let d = json::dropped(mapped, "evidenceRefs"@);
            assert(stripped(v) == JsonV::Object(d));
            assert forall|i: int| 0 <= i < d.len() implies (#[trigger] d[i]).0 != "evidenceRefs"@
                && !mentions(d[i].1, "evidenceRefs"@) by {
                let k = choose|k: int| 0 <= k < mapped.len() && mapped[k] == d[i];
                assert(!mentions(mapped[k].1, "evidenceRefs"@));
            }
        },
        _ => {},
    }
}

/// The rows under a key of the data of an answer.
pub open spec fn rows_at(root: JsonV, key: Seq<char>) -> Result<Seq<JsonV>, FailureV> {
    match root.field("data"@) {
        JsonV::Object(_) => match root.field("data"@).field(key) {
            JsonV::Array(rows) => Ok(rows),
            _ => Err(message("SOURCE_CHANGED: expected array at /data/"@ + key)),
        },
        _ => Err(message("SOURCE_CHANGED: expected object at /data"@)),
    }
}

/// An answer with other rows under a key of its data.
pub open spec fn with_rows(root: JsonV, key: Seq<char>, rows: Seq<JsonV>) -> JsonV {
    root.with("data"@, root.field("data"@).with(key, JsonV::Array(rows)))
}

fn find_rows<'a>(root: &'a Json, key: &str) -> (r: Result<&'a Vec<Json>, Failure>)
    ensures
        match rows_at(root@, key@) {
            Ok(rows) => r matches Ok(v) && json::values(v@) == rows,
            Err(e) => r matches Err(f) && f@ == e,
        },
{
    let data: &Json = root.field("data");
    if !data.is_object() {
        return Err(Failure::new("SOURCE_CHANGED: expected object at /data"));
    }
    match data.field(key).as_array() {
        Some(v) => Ok(v),
        None => Err(
            Failure::Message(text::joined("SOURCE_CHANGED: expected array at /data/", key)),
        ),
    }
}

fn put_rows(root: Json, key: &str, rows: Vec<Json>) -> (r: Json)
    ensures
        r@ == with_rows(root@, key@, json::values(rows@)),
{
    let data: Json = root.field("data").copy().with(key, Json::array(rows));
    root.with("data", data)
}

/// The fields of a search item that changed since it was seen before.
pub open spec fn changed_fields(item: JsonV) -> Seq<Seq<char>> {
    product_details::texts_in(item.field("novelty"@).field("changedFields"@).elements())
}

pub open spec fn is_delta(item: JsonV) -> bool {
    item.field("representation"@) == JsonV::Text("delta"@)
}

/// Whether a field of a search item stays although the view leaves it out.
pub open spec fn stays(item: JsonV, key: Seq<char>) -> bool {
    is_delta(item) && changed_fields(item).contains(key)
}

/// An item without a field that the view leaves out, unless it stays.
pub open spec fn left_out(shown: JsonV, item: JsonV, key: Seq<char>) -> JsonV {
    if stays(item, key) {
        shown
    } else {
        shown.without(key)
    }
}

/// Prices without the evidence that they refer to.
pub open spec fn plain_prices(v: Seq<JsonV>) -> Seq<JsonV> {
    Seq::new(v.len(), |i: int| v[i].without("evidenceRefs"@))
}

/// A search item in a view that is not full.
#[verifier::opaque]
pub open spec fn search_item_in(item: JsonV, view: Seq<char>) -> Result<JsonV, FailureV> {
    match item {
        JsonV::Object(_) => {
            let plain = left_out(item, item, "imageRefs"@);
            let shown = if view == "compact"@ {
                left_out(
                    left_out(left_out(plain, item, "url"@), item, "seller"@),
                    item,
                    "deliveryLabel"@,
                )
            } else {
                plain
            };
            match shown.field("prices"@) {
                JsonV::Array(prices) => Ok(
                    shown.with("prices"@, JsonV::Array(plain_prices(prices))),
                ),
                _ => Ok(shown),
            }
        },
        _ => Err(message("SOURCE_CHANGED: search item is not an object"@)),
    }
}

fn field_stays(delta: bool, changed: &Vec<String>, key: &str) -> (r: bool)
    ensures
        r == (delta && text::texts(changed@).contains(key@)),
{
    delta && text::contains_text(changed, key)
}

fn changed_list(item: &Json) -> (r: Vec<String>)
    ensures
        text::texts(r@) == changed_fields(item@),
{
    let rows: Vec<&Json> = json::elements(item.field("novelty").field("changedFields"));
    let ghost all = json::refs(rows@);
    let mut out: Vec<String> = Vec::new();
    let mut i: usize = 0;
    assert(text::texts(out@) =~= Seq::empty());
    while i < rows.len()
        invariant
            0 <= i <= rows@.len(),
            all == json::refs(rows@),
            text::texts(out@) == product_details::texts_in(all.take(i as int)),
        decreases rows@.len() - i,
    {
        assert(all.take(i + 1).drop_last() =~= all.take(i as int));
        assert(all.take(i + 1).last() == rows@[i as int]@);
        if let Some(s) = rows[i].as_str() {
            let one: String = s.to_owned();
            proof {
                text::lemma_texts_push(out@, one);
            }
            out.push(one);
        }
        i = i + 1;
    }
    assert(all.take(i as int) =~= all);
    out
}

fn price_list(v: &Vec<Json>) -> (r: Vec<Json>)
    ensures
        json::values(r@) == plain_prices(json::values(v@)),
{
    let ghost all = json::values(v@);
    let mut out: Vec<Json> = Vec::new();
    let mut i: usize = 0;
    while i < v.len()
        invariant
            0 <= i <= v@.len(),
            all == json::values(v@),
            json::values(out@) =~= plain_prices(all).take(i as int),
        decreases v@.len() - i,
    {
        assert(all[i as int] == v@[i as int]@);
        let one: Json = v[i].copy().without("evidenceRefs");
        proof {
            json::lemma_values_push(out@, one);
        }
        out.push(one);
        i = i + 1;
    }
    assert(json::values(out@) =~= plain_prices(all));
    out
}

fn search_item(item: &Json, view: &str) -> (r: Result<Json, Failure>)
    ensures
        failure::outcome(r) == search_item_in(item@, view@),
{
    proof {
        reveal(search_item_in);
    }
    if !item.is_object() {
        return Err(Failure::new("SOURCE_CHANGED: search item is not an object"));
    }
    let changed: Vec<String> = changed_list(item);
    let delta: bool = match item.field("representation").as_str() {
        Some(s) => text::same(s, "delta"),
        None => false,
    };
    let mut shown: Json = item.copy();
    if !field_stays(delta, &changed, "imageRefs") {
        shown.remove("imageRefs");
    }
    if text::same(view, "compact") {
        if !field_stays(delta, &changed, "url") {
            shown.remove("url");
        }
        if !field_stays(delta, &changed, "seller") {
            shown.remove("seller");
        }
        if !field_stays(delta, &changed, "deliveryLabel") {
            shown.remove("deliveryLabel");
        }
    }
    let prices: Option<Vec<Json>> = match shown.field("prices").as_array() {
        Some(v) => Some(price_list(v)),
        None => None,
    };
    match prices {
        Some(v) => Ok(shown.with("prices", Json::array(v))),
        None => Ok(shown),
    }
}

/// The result of a product batch in a view that is not full.
#[verifier::opaque]
pub open spec fn product_result_in(result: JsonV, view: Seq<char>) -> JsonV {
    match result.field("product"@) {
        JsonV::Object(_) => {
            let plain = result.field("product"@).without("fieldEvidence"@);
            result.with(
                "product"@,
                if view == "compact"@ {
                    nested_stripped(plain.without("url"@))
                } else {
                    plain
                },
            )
        },
        _ => result,
    }
}

/// An object that keeps its own evidence, but no part of it does.
pub open spec fn nested_stripped(product: JsonV) -> JsonV {
    match product {
        JsonV::Object(m) => JsonV::Object(
            Seq::new(
                m.len(),
                |i: int|
                    if m[i].0 == "evidenceRefs"@ {
                        m[i]
                    } else {
                        (m[i].0, stripped(m[i].1))
                    },
            ),
        ),
        other => other,
    }
}

fn remove_nested_evidence_refs(product: Json) -> (r: Json)
    ensures
        r@ == nested_stripped(product@),
{
    match product {
        Json::Object(m) => {
            let ghost all = json::members(m@);
            assert(json::contents(Json::Object(m))->Object_0 =~= all);
            let ghost mapped = nested_stripped(JsonV::Object(all))->Object_0;
            let mut out: Vec<(String, Json)> = Vec::new();
            let mut i: usize = 0;
            while i < m.len()
                invariant
                    0 <= i <= m@.len(),
                    all == json::members(m@),
                    mapped == nested_stripped(JsonV::Object(all))->Object_0,
                    json::members(out@) =~= mapped.take(i as int),
                decreases m@.len() - i,
            {
                assert(all[i as int] == (m@[i as int].0@, m@[i as int].1@));
                let value: Json = if text::same(m[i].0.as_str(), "evidenceRefs") {
                    m[i].1.copy()
                } else {
                    remove_evidence_refs(&m[i].1)
                };
                let one: (String, Json) = (m[i].0.clone(), value);
                proof {
                    json::lemma_members_push(out@, one);
                }
                out.push(one);
                i = i + 1;
            }
            assert(json::members(out@) =~= mapped);
            let r: Json = Json::Object(out);
            assert(r@->Object_0 =~= mapped);
            r
        },
        other => other,
    }
}

fn product_result(result: &Json, view: &str) -> (r: Json)
    ensures
        r@ == product_result_in(result@, view@),
{
    proof {
        reveal(product_result_in);
    }
    let product: &Json = result.field("product");
    if !product.is_object() {
        return result.copy();
    }
    let plain: Json = product.copy().without("fieldEvidence");
    let shown: Json = if text::same(view, "compact") {
        remove_nested_evidence_refs(plain.without("url"))
    } else {
        plain
    };
    result.copy().with("product", shown)
}

/// A review in the compact view: without who wrote it, and without an empty row of images.
#[verifier::opaque]
pub open spec fn compact_review(review: JsonV) -> Result<JsonV, FailureV> {
    match review {
        JsonV::Object(_) => {
            let plain = review.without("author"@).without("authorName"@).without(
                "authorDisplayName"@,
            ).without("userName"@);
            match plain.field("imageRefs"@) {
                JsonV::Array(images) => if images.len() == 0 {
                    Ok(plain.without("imageRefs"@))
                } else {
                    Ok(plain)
                },
                _ => Ok(plain),
            }
        },
        _ => Err(message("SOURCE_CHANGED: review is not an object"@)),
    }
}

fn compact_review_of(review: &Json) -> (r: Result<Json, Failure>)
    ensures
        failure::outcome(r) == compact_review(review@),
{
    proof {
        reveal(compact_review);
    }
    if !review.is_object() {
        return Err(Failure::new("SOURCE_CHANGED: review is not an object"));
    }
    let plain: Json = review.copy().without("author").without("authorName").without(
        "authorDisplayName",
    ).without("userName");
    let empty: bool = match plain.field("imageRefs").as_array() {
        Some(v) => v.len() == 0,
        None => false,
    };
    if empty {
        Ok(plain.without("imageRefs"))
    } else {
        Ok(plain)
    }
}

/// A row of an answer in a view that is not full.
pub open spec fn row_in(tool: Seq<char>, row: JsonV, view: Seq<char>) -> Result<JsonV, FailureV> {
    if tool == "ozon_search"@ {
        search_item_in(row, view)
    } else if tool == "ozon_get_products"@ {
        Ok(product_result_in(row, view))
    } else {
        compact_review(row)
    }
}

/// The rows of an answer in a view that is not full, all of them, in their order.
pub open spec fn rows_in(tool: Seq<char>, rows: Seq<JsonV>, view: Seq<char>) -> Result<
    Seq<JsonV>,
    FailureV,
>
    decreases rows.len(),
{
    if rows.len() == 0 {
        Ok(Seq::empty())
    } else {
        match rows_in(tool, rows.drop_last(), view) {
            Err(e) => Err(e),
            Ok(shown) => match row_in(tool, rows.last(), view) {
                Err(e) => Err(e),
                Ok(row) => Ok(shown.push(row)),
            },
        }
    }
}

proof fn lemma_rows_stop(tool: Seq<char>, rows: Seq<JsonV>, view: Seq<char>, i: int)
    requires
        0 <= i <= rows.len(),
        rows_in(tool, rows.take(i), view) is Err,
    ensures
        rows_in(tool, rows, view) == rows_in(tool, rows.take(i), view),
    decreases rows.len() - i,
{
    if i < rows.len() {
        assert(rows.take(i + 1).drop_last() =~= rows.take(i));
        lemma_rows_stop(tool, rows, view, i + 1);
    } else {
        assert(rows.take(i) =~= rows);
    }
}

fn show_rows(tool: &str, rows: &Vec<Json>, view: &str) -> (r: Result<Vec<Json>, Failure>)
    ensures
        match rows_in(tool@, json::values(rows@), view@) {
            Ok(v) => r matches Ok(out) && json::values(out@) == v,
            Err(e) => r matches Err(f) && f@ == e,
        },
{
    let ghost all = json::values(rows@);
    let mut out: Vec<Json> = Vec::new();
    let mut i: usize = 0;
    assert(json::values(out@) =~= Seq::empty());
    while i < rows.len()
        invariant
            0 <= i <= rows@.len(),
            all == json::values(rows@),
            rows_in(tool@, all.take(i as int), view@) == Ok::<Seq<JsonV>, FailureV>(
                json::values(out@),
            ),
        decreases rows@.len() - i,
    {
        assert(all.take(i + 1).drop_last() =~= all.take(i as int));
        assert(all.take(i + 1).last() == rows@[i as int]@);
        let one: Result<Json, Failure> = if text::same(tool, "ozon_search") {
            search_item(&rows[i], view)
        } else if text::same(tool, "ozon_get_products") {
            Ok(product_result(&rows[i], view))
        } else {
            compact_review_of(&rows[i])
        };
        match one {
            Ok(j) => {
                proof {
                    json::lemma_values_push(out@, j);
                }
                out.push(j);
            },
            Err(e) => {
                proof {
                    lemma_rows_stop(tool@, all, view@, i + 1);
                }
                return Err(e);
            },
        }
        i = i + 1;
    }
    assert(all.take(i as int) =~= all);
    Ok(out)
}

/// Where the rows of an answer stand in its data.
pub open spec fn rows_key(tool: Seq<char>) -> Seq<char> {
    if tool == "ozon_search"@ {
        "items"@
    } else if tool == "ozon_get_products"@ {
        "results"@
    } else {
        "reviews"@
    }
}

/// An answer with what it says of its own view.
pub open spec fn labelled(tool: Seq<char>, value: JsonV, view: Seq<char>) -> JsonV {
    let named = value.with("view"@, JsonV::Text(view)).with(
        "evidenceDetail"@,
        JsonV::Text(
            if view == "full"@ {
                "inline"@
            } else {
                "journal"@
            },
        ),
    );
    if tool == "ozon_search"@ && named.get("repeatMode"@) is None {
        named.with("repeatMode"@, JsonV::Text("full"@))
    } else {
        named
    }
}

/// An answer in a view.
pub open spec fn presented(tool: Seq<char>, value: JsonV, view: Seq<char>) -> Result<
    JsonV,
    FailureV,
> {
    if !viewed_tools().contains(tool) {
        Err(message("INVALID_ARGUMENT: unsupported presentation tool"@))
    } else if !views().contains(view) {
        Err(message("INVALID_ARGUMENT: view must be compact, comparison, or full"@))
    } else {
        match value {
            JsonV::Object(_) => {
                let root = labelled(tool, value, view);
                if view == "full"@ {
                    Ok(root)
                } else {
                    match root.field("evidence"@) {
                        JsonV::Array(_) => {
                            let bare = root.with("evidence"@, JsonV::Array(Seq::empty()));
                            if tool == "ozon_get_reviews"@ && view != "compact"@ {
                                Ok(bare)
                            } else {
                                match rows_at(bare, rows_key(tool)) {
                                    Err(e) => Err(e),
                                    Ok(rows) => match rows_in(tool, rows, view) {
                                        Err(e) => Err(e),
                                        Ok(shown) => Ok(with_rows(bare, rows_key(tool), shown)),
                                    },
                                }
                            }
                        },
                        _ => Err(message("SOURCE_CHANGED: response evidence is not an array"@)),
                    }
                }
            },
            _ => Err(message("SOURCE_CHANGED: response envelope is not an object"@)),
        }
    }
}

/// An answer in a view. The evidence that a view leaves out stays in the research.
pub fn apply(tool: &str, value: Json, view: &str) -> (r: Result<Json, Failure>)
    ensures
        failure::outcome(r) == presented(tool@, value@, view@),
{
    let tools: [&str; 3] = ["ozon_search", "ozon_get_products", "ozon_get_reviews"];
    assert(widgets::slices(tools@) =~= viewed_tools());
    if !crate::marketplace::is_among(tool, &tools) {
        return Err(Failure::new("INVALID_ARGUMENT: unsupported presentation tool"));
    }
    let known: [&str; 3] = ["compact", "comparison", "full"];
    assert(widgets::slices(known@) =~= views());
    if !crate::marketplace::is_among(view, &known) {
        return Err(Failure::new("INVALID_ARGUMENT: view must be compact, comparison, or full"));
    }
    if !value.is_object() {
        return Err(Failure::new("SOURCE_CHANGED: response envelope is not an object"));
    }
    let full: bool = text::same(view, "full");
    let search: bool = text::same(tool, "ozon_search");
    let detail: &str = if full {
        "inline"
    } else {
        "journal"
    };
    let named: Json = value.with("view", Json::text(view)).with(
        "evidenceDetail",
        Json::text(detail),
    );
    let root: Json = if search && named.get("repeatMode").is_none() {
        named.with("repeatMode", Json::text("full"))
    } else {
        named
    };
    if full {
        return Ok(root);
    }
    if root.field("evidence").as_array().is_none() {
        return Err(Failure::new("SOURCE_CHANGED: response evidence is not an array"));
    }
    let none: Vec<Json> = Vec::new();
    assert(json::values(none@) =~= Seq::empty());
    let bare: Json = root.with("evidence", Json::array(none));
    if text::same(tool, "ozon_get_reviews") && !text::same(view, "compact") {
        return Ok(bare);
    }
    let key: &str = if search {
        "items"
    } else if text::same(tool, "ozon_get_products") {
        "results"
    } else {
        "reviews"
    };
    let shown: Vec<Json> = match find_rows(&bare, key) {
        Ok(rows) => match show_rows(tool, rows, view) {
            Ok(v) => v,
            Err(e) => return Err(e),
        },
        Err(e) => return Err(e),
    };
    Ok(put_rows(bare, key, shown))
}

/// Whether a text can name a field that changed.
pub open spec fn names_field(s: Seq<char>) -> bool {
    s.len() > 0 && !s.contains('/') && !s.contains('~')
}

/// The fields that a delta row says have changed.
pub open spec fn delta_fields(v: Seq<JsonV>) -> Result<Seq<Seq<char>>, FailureV>
    decreases v.len(),
{
    if v.len() == 0 {
        Ok(Seq::empty())
    } else {
        match delta_fields(v.drop_last()) {
            Err(e) => Err(e),
            Ok(before) => match v.last() {
                JsonV::Text(s) => if names_field(s) {
                    Ok(before.push(s))
                } else {
                    Err(message("SOURCE_CHANGED: invalid changed field"@))
                },
                _ => Err(message("SOURCE_CHANGED: invalid changed field"@)),
            },
        }
    }
}

/// The fields that a delta row always keeps.
pub open spec fn kept_fields() -> Seq<Seq<char>> {
    seq![
        "productRef"@,
        "sku"@,
        "evidenceRefs"@,
        "novelty"@,
        "prices"@,
        "availability"@,
        "matchesDisplayedPriceRange"@,
    ]
}

/// The members with some keys.
pub open spec fn retained(m: Seq<(Seq<char>, JsonV)>, keep: Seq<Seq<char>>) -> Seq<
    (Seq<char>, JsonV),
>
    decreases m.len(),
{
    if m.len() == 0 {
        Seq::empty()
    } else if keep.contains(m.last().0) {
        retained(m.drop_last(), keep).push(m.last())
    } else {
        retained(m.drop_last(), keep)
    }
}

/// A search item that was seen before, as a delta to what it was then; any other item as it
/// is.
#[verifier::opaque]
pub open spec fn delta_item_of(item: JsonV) -> Result<JsonV, FailureV> {
    match item {
        JsonV::Object(m) => match item.field("novelty"@) {
            JsonV::Object(_) => {
                let novelty = item.field("novelty"@);
                if novelty.field("status"@) == JsonV::Text("unchanged"@) || novelty.field(
                    "status"@,
                ) == JsonV::Text("changed"@) {
                    match (novelty.field("previousProductRef"@), novelty.field("changedFields"@)) {
                        (JsonV::Text(baseline), changed) => if baseline.len() == 0 {
                            Err(message("SOURCE_CHANGED: delta row has no previousProductRef"@))
                        } else {
                            match changed {
                                JsonV::Array(fields) => match delta_fields(fields) {
                                    Err(e) => Err(e),
                                    Ok(names) => Ok(
                                        JsonV::Object(retained(m, kept_fields() + names)).with(
                                            "representation"@,
                                            JsonV::Text("delta"@),
                                        ).with("baselineProductRef"@, JsonV::Text(baseline)),
                                    ),
                                },
                                _ => Err(message("SOURCE_CHANGED: delta row has no changedFields"@)),
                            }
                        },
                        _ => Err(message("SOURCE_CHANGED: delta row has no previousProductRef"@)),
                    }
                } else {
                    Ok(item)
                }
            },
            _ => Ok(item),
        },
        _ => Err(message("SOURCE_CHANGED: search item is not an object"@)),
    }
}

/// What search items are as deltas, up to the first that cannot be one; what is wrong with
/// that one.
pub open spec fn delta_items(items: Seq<JsonV>) -> (Seq<JsonV>, Option<FailureV>)
    decreases items.len(),
{
    if items.len() == 0 {
        (Seq::empty(), None)
    } else {
        let before = delta_items(items.drop_last());
        match before.1 {
            Some(e) => (before.0.push(items.last()), Some(e)),
            None => match delta_item_of(items.last()) {
                Ok(j) => (before.0.push(j), None),
                Err(e) => (before.0.push(items.last()), Some(e)),
            },
        }
    }
}

fn field_names(v: &Vec<Json>) -> (r: Result<Vec<String>, Failure>)
    ensures
        match delta_fields(json::values(v@)) {
            Ok(names) => r matches Ok(out) && text::texts(out@) == names,
            Err(e) => r matches Err(f) && f@ == e,
        },
{
    let ghost all = json::values(v@);
    let mut out: Vec<String> = Vec::new();
    let mut i: usize = 0;
    assert(text::texts(out@) =~= Seq::empty());
    while i < v.len()
        invariant
            0 <= i <= v@.len(),
            all == json::values(v@),
            delta_fields(all.take(i as int)) == Ok::<Seq<Seq<char>>, FailureV>(
                text::texts(out@),
            ),
        decreases v@.len() - i,
    {
        assert(all.take(i + 1).drop_last() =~= all.take(i as int));
        assert(all.take(i + 1).last() == v@[i as int]@);
        let name: Option<&str> = match v[i].as_str() {
            Some(s) => if is_field_name(s) {
                Some(s)
            } else {
                None
            },
            None => None,
        };
        match name {
            Some(s) => {
                let one: String = s.to_owned();
                proof {
                    text::lemma_texts_push(out@, one);
                }
                out.push(one);
            },
            None => {
                proof {
                    lemma_fields_stop(all, i + 1);
                }
                return Err(Failure::new("SOURCE_CHANGED: invalid changed field"));
            },
        }
        i = i + 1;
    }
    assert(all.take(i as int) =~= all);
    Ok(out)
}

proof fn lemma_fields_stop(v: Seq<JsonV>, i: int)
    requires
        0 <= i <= v.len(),
        delta_fields(v.take(i)) is Err,
    ensures
        delta_fields(v) == delta_fields(v.take(i)),
    decreases v.len() - i,
{
    if i < v.len() {
        assert(v.take(i + 1).drop_last() =~= v.take(i));
        lemma_fields_stop(v, i + 1);
    } else {
        assert(v.take(i) =~= v);
    }
}

fn is_field_name(s: &str) -> (r: bool)
    ensures
        r == names_field(s@),
{
    let v: Vec<char> = text::chars_of(s);
    let mut i: usize = 0;
    while i < v.len()
        invariant
            0 <= i <= v@.len(),
            v@ == s@,
            forall|k: int| 0 <= k < i ==> s@[k] != '/' && s@[k] != '~',
        decreases v@.len() - i,
    {
        if v[i] == '/' || v[i] == '~' {
            assert(s@.contains(s@[i as int]));
            return false;
        }
        i = i + 1;
    }
    v.len() > 0
}

fn retain(m: &Vec<(String, Json)>, keep: &Vec<String>) -> (r: Json)
    ensures
        r@ == JsonV::Object(retained(json::members(m@), text::texts(keep@))),
{
    let ghost all = json::members(m@);
    let mut out: Vec<(String, Json)> = Vec::new();
    let mut i: usize = 0;
    assert(json::members(out@) =~= Seq::empty());
    while i < m.len()
        invariant
            0 <= i <= m@.len(),
            all == json::members(m@),
            json::members(out@) == retained(all.take(i as int), text::texts(keep@)),
        decreases m@.len() - i,
    {
        assert(all.take(i + 1).drop_last() =~= all.take(i as int));
        assert(all.take(i + 1).last() == (m@[i as int].0@, m@[i as int].1@));
        if text::contains_text(keep, m[i].0.as_str()) {
            let one: (String, Json) = (m[i].0.clone(), m[i].1.copy());
            proof {
                json::lemma_members_push(out@, one);
            }
            out.push(one);
        }
        i = i + 1;
    }
    assert(all.take(i as int) =~= all);
    let r: Json = Json::Object(out);
    assert(r@->Object_0 =~= json::members(out@));
    r
}

fn keep_list(names: Vec<String>) -> (r: Vec<String>)
    ensures
        text::texts(r@) == kept_fields() + text::texts(names@),
{
    let mut out: Vec<String> = Vec::new();
    out.push("productRef".to_owned());
    out.push("sku".to_owned());
    out.push("evidenceRefs".to_owned());
    out.push("novelty".to_owned());
    out.push("prices".to_owned());
    out.push("availability".to_owned());
    out.push("matchesDisplayedPriceRange".to_owned());
    assert(text::texts(out@) =~= kept_fields());
    let ghost head = out@;
    let mut names: Vec<String> = names;
    let ghost tail = names@;
    out.append(&mut names);
    assert(text::texts(out@) =~= kept_fields() + text::texts(tail));
    out
}

fn delta_item(item: &Json) -> (r: Result<Json, Failure>)
    ensures
        failure::outcome(r) == delta_item_of(item@),
{
    proof {
        reveal(delta_item_of);
    }
    let m: &Vec<(String, Json)> = match item.as_object() {
        Some(m) => m,
        None => return Err(Failure::new("SOURCE_CHANGED: search item is not an object")),
    };
    let novelty: &Json = item.field("novelty");
    if !novelty.is_object() {
        return Ok(item.copy());
    }
    let known: bool = match novelty.field("status").as_str() {
        Some(s) => text::same(s, "unchanged") || text::same(s, "changed"),
        None => false,
    };
    if !known {
        return Ok(item.copy());
    }
    let baseline: &str = match novelty.field("previousProductRef").as_str() {
        Some(s) => s,
        None => {
            return Err(Failure::new("SOURCE_CHANGED: delta row has no previousProductRef"));
        },
    };
    if text::chars_of(baseline).len() == 0 {
        return Err(Failure::new("SOURCE_CHANGED: delta row has no previousProductRef"));
    }
    let fields: &Vec<Json> = match novelty.field("changedFields").as_array() {
        Some(v) => v,
        None => return Err(Failure::new("SOURCE_CHANGED: delta row has no changedFields")),
    };
    let names: Vec<String> = match field_names(fields) {
        Ok(v) => v,
        Err(e) => return Err(e),
    };
    Ok(
        retain(m, &keep_list(names)).with("representation", Json::text("delta")).with(
            "baselineProductRef",
            Json::text(baseline),
        ),
    )
}

fn delta_rows(items: &Vec<Json>) -> (r: (Vec<Json>, Result<(), Failure>))
    ensures
        json::values(r.0@) == delta_items(json::values(items@)).0,
        crate::refinements::problem(r.1) == delta_items(json::values(items@)).1,
{
    let ghost all = json::values(items@);
    let mut out: Vec<Json> = Vec::new();
    let mut problem: Result<(), Failure> = Ok(());
    let mut i: usize = 0;
    assert(json::values(out@) =~= Seq::empty());
    while i < items.len()
        invariant
            0 <= i <= items@.len(),
            all == json::values(items@),
            json::values(out@) == delta_items(all.take(i as int)).0,
            crate::refinements::problem(problem) == delta_items(all.take(i as int)).1,
        decreases items@.len() - i,
    {
        assert(all.take(i + 1).drop_last() =~= all.take(i as int));
        assert(all.take(i + 1).last() == items@[i as int]@);
        let one: Json = if problem.is_err() {
            items[i].copy()
        } else {
            match delta_item(&items[i]) {
                Ok(j) => j,
                Err(e) => {
                    problem = Err(e);
                    items[i].copy()
                },
            }
        };
        proof {
            json::lemma_values_push(out@, one);
        }
        out.push(one);
        i = i + 1;
    }
    assert(all.take(i as int) =~= all);
    (out, problem)
}

/// An answer in a repeat mode, and what is wrong with it.
pub open spec fn repeated(value: JsonV, mode: Seq<char>) -> (JsonV, Option<FailureV>) {
    if mode != "full"@ && mode != "delta"@ {
        (value, Some(message("INVALID_ARGUMENT: repeatMode must be full or delta"@)))
    } else {
        match value {
            JsonV::Object(_) => {
                let root = value.with("repeatMode"@, JsonV::Text(mode));
                if mode == "full"@ {
                    (root, None)
                } else {
                    match rows_at(root, "items"@) {
                        Err(e) => (root, Some(e)),
                        Ok(items) => {
                            let rows = delta_items(items);
                            (with_rows(root, "items"@, rows.0), rows.1)
                        },
                    }
                }
            },
            _ => (value, Some(message("SOURCE_CHANGED: response envelope is not an object"@))),
        }
    }
}

/// Shows the items of a search that were seen before as deltas, where this is asked for. New
/// items stay complete; the others keep who they are, what they rest on, the price and the
/// availability, and every field that changed.
pub fn apply_repeat_mode(value: &mut Json, mode: &str) -> (r: Result<(), Failure>)
    ensures
        final(value)@ == repeated(old(value)@, mode@).0,
        crate::refinements::problem(r) == repeated(old(value)@, mode@).1,
{
    let full: bool = text::same(mode, "full");
    if !full && !text::same(mode, "delta") {
        return Err(Failure::new("INVALID_ARGUMENT: repeatMode must be full or delta"));
    }
    if !value.is_object() {
        return Err(Failure::new("SOURCE_CHANGED: response envelope is not an object"));
    }
    value.set("repeatMode", Json::text(mode));
    if full {
        return Ok(());
    }
    let rows: (Vec<Json>, Result<(), Failure>) = match find_rows(value, "items") {
        Ok(items) => delta_rows(items),
        Err(e) => return Err(e),
    };
    let mut current: Json = Json::Null;
    std::mem::swap(value, &mut current);
    *value = put_rows(current, "items", rows.0);
    rows.1
}

/// The parts of an answer in which a view speaks of itself.
pub open spec fn is_view_label(key: Seq<char>) -> bool {
    key == "view"@ || key == "evidenceDetail"@ || key == "repeatMode"@
}

proof fn lemma_labelled_keeps(tool: Seq<char>, value: JsonV, view: Seq<char>, key: Seq<char>)
    requires
        value is Object,
        !is_view_label(key),
    ensures
        labelled(tool, value, view) is Object,
        labelled(tool, value, view).get(key) == value.get(key),
{
    broadcast use json::lemma_get_with;

}

/// The full view adds what it says of itself, and changes nothing else.
pub proof fn full_view_adds_labels_only(tool: Seq<char>, value: JsonV, key: Seq<char>)
    requires
        viewed_tools().contains(tool),
        value is Object,
        !is_view_label(key),
    ensures
        presented(tool, value, "full"@) matches Ok(v) && v.get(key) == value.get(key),
{
    lemma_labelled_keeps(tool, value, "full"@, key);
    assert(views()[2] == "full"@);
}

/// Every view keeps the context, the time, the warnings and all else of an answer but its
/// evidence and its data.
pub proof fn views_keep_the_rest(tool: Seq<char>, value: JsonV, view: Seq<char>, key: Seq<char>)
    requires
        !is_view_label(key),
        key != "evidence"@,
        key != "data"@,
    ensures
        presented(tool, value, view) matches Ok(v) ==> v.get(key) == value.get(key),
{
    broadcast use json::lemma_get_with;

    if value is Object {
        lemma_labelled_keeps(tool, value, view, key);
    }
}

/// A view that is not full shows no evidence inline.
pub proof fn short_views_show_no_evidence(tool: Seq<char>, value: JsonV, view: Seq<char>)
    requires
        view != "full"@,
    ensures
        presented(tool, value, view) matches Ok(v) ==> v.field("evidence"@) == JsonV::Array(
            Seq::empty(),
        ),
{
    broadcast use json::lemma_get_with;

    reveal_strlit("evidence");
    reveal_strlit("data");
}

/// A view keeps every row.
pub proof fn views_keep_every_row(tool: Seq<char>, rows: Seq<JsonV>, view: Seq<char>)
    ensures
        rows_in(tool, rows, view) matches Ok(shown) ==> shown.len() == rows.len(),
    decreases rows.len(),
{
    if rows.len() > 0 {
        views_keep_every_row(tool, rows.drop_last(), view);
    }
}

/// The fields that a view of a search can leave out of an item.
pub open spec fn is_optional_field(key: Seq<char>) -> bool {
    key == "imageRefs"@ || key == "url"@ || key == "seller"@ || key == "deliveryLabel"@
}

/// A view of a search keeps every field of an item that decisions rest on, and of the
/// others those that a delta says have changed.
pub proof fn views_keep_item_fields(item: JsonV, view: Seq<char>, key: Seq<char>)
    requires
        key != "prices"@,
        !is_optional_field(key) || stays(item, key),
    ensures
        search_item_in(item, view) matches Ok(j) ==> j.get(key) == item.get(key),
{
    broadcast use json::lemma_get_with;
    broadcast use json::lemma_get_without;

    reveal(search_item_in);
}

proof fn lemma_retained(m: Seq<(Seq<char>, JsonV)>, keep: Seq<Seq<char>>, key: Seq<char>)
    requires
        keep.contains(key),
    ensures
        json::lookup(retained(m, keep), key) == json::lookup(m, key),
    decreases m.len(),
{
    if m.len() > 0 {
        lemma_retained(m.drop_last(), keep, key);
        lemma_lookup_push(m.drop_last(), m.last(), key);
        assert(m.drop_last().push(m.last()) =~= m);
        if keep.contains(m.last().0) {
            lemma_lookup_push(retained(m.drop_last(), keep), m.last(), key);
        }
    }
}

proof fn lemma_lookup_push(m: Seq<(Seq<char>, JsonV)>, member: (Seq<char>, JsonV), key: Seq<char>)
    ensures
        json::lookup(m.push(member), key) == (match json::lookup(m, key) {
            Some(v) => Some(v),
            None => if member.0 == key {
                Some(member.1)
            } else {
                None
            },
        }),
    decreases m.len(),
{
    reveal_with_fuel(json::lookup, 2);
    let w = m.push(member);
    if m.len() > 0 {
        assert(w[0] == m[0]);
        assert(w.drop_first() =~= m.drop_first().push(member));
        lemma_lookup_push(m.drop_first(), member, key);
    } else {
        assert(w.drop_first() =~= Seq::empty());
    }
}

/// A delta keeps who an item is, what it rests on, its prices and its availability.
pub proof fn deltas_keep_decision_fields(item: JsonV, key: Seq<char>)
    requires
        kept_fields().contains(key),
    ensures
        delta_item_of(item) matches Ok(j) ==> j.get(key) == item.get(key),
{
    broadcast use json::lemma_get_with;

    reveal(delta_item_of);
    lemma_kept_are_not_labels(key);
    if item is Object {
        let m = item->Object_0;
        let fields = delta_fields(
            item.field("novelty"@).field("changedFields"@)->Array_0,
        );
        if fields is Ok {
            let keep = kept_fields() + fields->Ok_0;
            let i = choose|i: int| 0 <= i < kept_fields().len() && kept_fields()[i] == key;
            assert(keep[i] == key);
            lemma_retained(m, keep, key);
        }
    }
}

proof fn lemma_kept_are_not_labels(key: Seq<char>)
    requires
        kept_fields().contains(key),
    ensures
        key != "representation"@,
        key != "baselineProductRef"@,
{
    reveal_strlit("productRef");
    reveal_strlit("sku");
    reveal_strlit("evidenceRefs");
    reveal_strlit("novelty");
    reveal_strlit("prices");
    reveal_strlit("availability");
    reveal_strlit("matchesDisplayedPriceRange");
    reveal_strlit("representation");
    reveal_strlit("baselineProductRef");
    let i = choose|i: int| 0 <= i < kept_fields().len() && kept_fields()[i] == key;
    assert(i == 0 || i == 1 || i == 2 || i == 3 || i == 4 || i == 5 || i == 6);
    assert(key.len() != 14 && key.len() != 18);
}

/// A delta keeps every field that changed.
pub proof fn deltas_keep_changed_fields(item: JsonV, names: Seq<Seq<char>>, key: Seq<char>)
    requires
        item.field("novelty"@).field("changedFields"@) is Array,
        delta_fields(item.field("novelty"@).field("changedFields"@)->Array_0) == Ok::<
            Seq<Seq<char>>,
            FailureV,
        >(names),
        names.contains(key),
        key != "representation"@,
        key != "baselineProductRef"@,
    ensures
        delta_item_of(item) matches Ok(j) ==> j.get(key) == item.get(key),
{
    broadcast use json::lemma_get_with;

    reveal(delta_item_of);
    if item is Object {
        let keep = kept_fields() + names;
        let i = choose|i: int| 0 <= i < names.len() && names[i] == key;
        assert(keep[kept_fields().len() + i] == key);
        lemma_retained(item->Object_0, keep, key);
    }
}

/// Deltas keep every row.
pub proof fn deltas_keep_every_row(items: Seq<JsonV>)
    ensures
        delta_items(items).0.len() == items.len(),
    decreases items.len(),
{
    if items.len() > 0 {
        deltas_keep_every_row(items.drop_last());
    }
}

} // verus!
