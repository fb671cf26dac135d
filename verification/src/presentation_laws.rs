//! What presenting an answer a second time does.

use crate::failure::FailureV;
use crate::json::{self, JsonV};
use crate::keys;
use crate::presentation;
use crate::text;
use vstd::prelude::*;

verus! {

/// Whether setting a member changes nothing.
pub open spec fn holds(j: JsonV, key: Seq<char>, value: JsonV) -> bool {
    j.with(key, value) == j
}

/// Whether no two members have one key.
pub open spec fn distinct(m: Seq<(Seq<char>, JsonV)>) -> bool {
    forall|i: int, k: int| 0 <= i < k < m.len() ==> (#[trigger] m[i]).0 != (#[trigger] m[k]).0
}

/// Whether a member has this key.
pub open spec fn named(m: Seq<(Seq<char>, JsonV)>, key: Seq<char>) -> bool {
    exists|i: int| 0 <= i < m.len() && (#[trigger] m[i]).0 == key
}

proof fn lemma_placed_twice(
    m: Seq<(Seq<char>, JsonV)>,
    key: Seq<char>,
    first: JsonV,
    second: JsonV,
)
    ensures
        json::placed(json::placed(m, key, first), key, second) == json::placed(m, key, second),
    decreases m.len(),
{
    let p = json::placed(m, key, first);
    if m.len() > 0 {
        if m[0].0 == key {
            assert(p.drop_first() =~= m.drop_first());
        } else if text::before(key, m[0].0) {
            assert(p.drop_first() =~= m);
        } else {
            lemma_placed_twice(m.drop_first(), key, first, second);
            assert(p.drop_first() =~= json::placed(m.drop_first(), key, first));
        }
    } else {
        assert(p.drop_first() =~= Seq::empty());
        assert(json::placed(p, key, second) =~= seq![(key, second)]);
    }
}

/// What was just set is set.
proof fn lemma_with_holds(j: JsonV, key: Seq<char>, value: JsonV)
    ensures
        holds(j.with(key, value), key, value),
{
    if j is Object {
        lemma_placed_twice(j->Object_0, key, value, value);
    }
}

proof fn lemma_placed_apart(
    m: Seq<(Seq<char>, JsonV)>,
    key: Seq<char>,
    value: JsonV,
    other: Seq<char>,
    another: JsonV,
)
    requires
        json::placed(m, key, value) == m,
        key != other,
    ensures
        json::placed(json::placed(m, other, another), key, value) == json::placed(
            m,
            other,
            another,
        ),
    decreases m.len(),
{
    let p = json::placed(m, other, another);
    let rest = m.drop_first();
    assert(m.len() > 0);
    if m[0].0 == key {
        assert(m[0] == (key, value)) by {
            assert((seq![(key, value)] + rest)[0] == (key, value));
        }
        if text::before(other, key) {
            assert(p.drop_first() =~= m);
            if text::before(key, other) {
                keys::lemma_before_transitive(key, other, key);
                keys::lemma_before_irreflexive(key);
            }
            assert(json::placed(p, key, value) =~= p);
        } else {
            assert(json::placed(p, key, value) =~= p);
        }
    } else {
        if text::before(key, m[0].0) {
            assert((seq![(key, value)] + m).len() == m.len() + 1);
        }
        let inner = json::placed(rest, key, value);
        assert((seq![m[0]] + inner).drop_first() =~= inner);
        assert(inner == rest);
        if m[0].0 == other {
            assert(p.drop_first() =~= rest);
            assert(json::placed(p, key, value) =~= p);
        } else if text::before(other, m[0].0) {
            if text::before(key, other) {
                keys::lemma_before_transitive(key, other, m[0].0);
            }
            assert(p.drop_first() =~= m);
            assert(json::placed(p, key, value) =~= p);
        } else {
            lemma_placed_apart(rest, key, value, other, another);
            assert(p.drop_first() =~= json::placed(rest, other, another));
            assert(json::placed(p, key, value) =~= p);
        }
    }
}

/// What is set stays set when another member is set.
proof fn lemma_holds_with(
    j: JsonV,
    key: Seq<char>,
    value: JsonV,
    other: Seq<char>,
    another: JsonV,
)
    requires
        holds(j, key, value),
        key != other,
    ensures
        holds(j.with(other, another), key, value),
{
    if j is Object {
        lemma_placed_apart(j->Object_0, key, value, other, another);
    }
}

proof fn lemma_lacking_dropped(m: Seq<(Seq<char>, JsonV)>, key: Seq<char>)
    requires
        json::lookup(m, key) is None,
    ensures
        json::dropped(m, key) == m,
    decreases m.len(),
{
    if m.len() > 0 {
        lemma_lacking_dropped(m.drop_first(), key);
        assert(json::dropped(m, key) =~= m);
    }
}

/// What an object lacks cannot be taken out.
proof fn lemma_lacking_without(j: JsonV, key: Seq<char>)
    requires
        j.get(key) is None,
    ensures
        j.without(key) == j,
{
    if j is Object {
        lemma_lacking_dropped(j->Object_0, key);
    }
}

proof fn lemma_lookup_absent(m: Seq<(Seq<char>, JsonV)>, key: Seq<char>)
    requires
        forall|i: int| 0 <= i < m.len() ==> (#[trigger] m[i]).0 != key,
    ensures
        json::lookup(m, key) is None,
    decreases m.len(),
{
    if m.len() > 0 {
        let rest = m.drop_first();
        assert(forall|i: int| 0 <= i < rest.len() ==> #[trigger] rest[i] == m[i + 1]);
        lemma_lookup_absent(rest, key);
    }
}

proof fn lemma_dropped_distinct(m: Seq<(Seq<char>, JsonV)>, key: Seq<char>)
    requires
        distinct(m),
    ensures
        distinct(json::dropped(m, key)),
        json::lookup(json::dropped(m, key), key) is None,
        forall|x: Seq<char>| #[trigger] named(json::dropped(m, key), x) ==> named(m, x),
    decreases m.len(),
{
    let d = json::dropped(m, key);
    if m.len() > 0 {
        let rest = m.drop_first();
        assert(forall|i: int| 0 <= i < rest.len() ==> #[trigger] rest[i] == m[i + 1]);
        lemma_dropped_distinct(rest, key);
        if m[0].0 == key {
            assert forall|i: int| 0 <= i < rest.len() implies (#[trigger] rest[i]).0 != key by {
                assert(m[0].0 != m[i + 1].0);
            }
            lemma_lookup_absent(rest, key);
            assert forall|x: Seq<char>| #[trigger] named(d, x) implies named(m, x) by {
                let i = choose|i: int| 0 <= i < d.len() && (#[trigger] d[i]).0 == x;
                assert(m[i + 1].0 == x);
            }
        } else {
            let tail = json::dropped(rest, key);
            assert(d.drop_first() =~= tail);
            assert(forall|i: int| 0 <= i < tail.len() ==> #[trigger] d[i + 1] == tail[i]);
            assert forall|i: int| 0 <= i < rest.len() implies (#[trigger] rest[i]).0 != m[0].0 by {
                assert(m[0].0 != m[i + 1].0);
            }
            assert forall|i: int, k: int| 0 <= i < k < d.len() implies (#[trigger] d[i]).0 != (
            #[trigger] d[k]).0 by {
                assert(d[k] == tail[k - 1]);
                if i > 0 {
                    assert(d[i] == tail[i - 1]);
                } else if d[k].0 == m[0].0 {
                    assert(named(tail, m[0].0));
                    assert(named(rest, m[0].0));
                }
            }
            assert forall|x: Seq<char>| #[trigger] named(d, x) implies named(m, x) by {
                let i = choose|i: int| 0 <= i < d.len() && (#[trigger] d[i]).0 == x;
                if i > 0 {
                    assert(d[i] == tail[i - 1]);
                    assert(named(tail, x));
                    let k = choose|k: int| 0 <= k < rest.len() && (#[trigger] rest[k]).0 == x;
                    assert(m[k + 1].0 == x);
                } else {
                    assert(m[0].0 == x);
                }
            }
        }
    }
}

/// An object whose keys differ, without one member.
proof fn lemma_without(j: JsonV, key: Seq<char>)
    requires
        j is Object,
        distinct(j->Object_0),
    ensures
        j.without(key) is Object,
        distinct(j.without(key)->Object_0),
        j.without(key).get(key) is None,
{
    lemma_dropped_distinct(j->Object_0, key);
}

proof fn lemma_member_keys(m: Seq<(Seq<char>, JsonV)>, key: Seq<char>)
    requires
        forall|i: int| 0 <= i < m.len() ==> presentation::keys_differ((#[trigger] m[i]).1),
    ensures
        json::lookup(m, key) matches Some(v) ==> presentation::keys_differ(v),
    decreases m.len(),
{
    if m.len() > 0 {
        let rest = m.drop_first();
        assert(forall|i: int| 0 <= i < rest.len() ==> #[trigger] rest[i] == m[i + 1]);
        lemma_member_keys(rest, key);
    }
}

/// Where no key occurs twice in a value, none does in a member of it.
proof fn lemma_field_keys(v: JsonV, key: Seq<char>)
    requires
        presentation::keys_differ(v),
    ensures
        presentation::keys_differ(v.field(key)),
{
    if v is Object {
        lemma_member_keys(v->Object_0, key);
    }
}

/// Prices without evidence have none to lose.
proof fn lemma_prices_twice(prices: Seq<JsonV>)
    requires
        forall|i: int| 0 <= i < prices.len() ==> presentation::keys_differ(#[trigger] prices[i]),
    ensures
        presentation::plain_prices(presentation::plain_prices(prices))
            == presentation::plain_prices(prices),
{
    let once = presentation::plain_prices(prices);
    assert forall|i: int| 0 <= i < once.len() implies #[trigger] once[i].without("evidenceRefs"@)
        == once[i] by {
        assert(presentation::keys_differ(prices[i]));
        if prices[i] is Object {
            lemma_without(prices[i], "evidenceRefs"@);
        }
        lemma_lacking_without(once[i], "evidenceRefs"@);
    }
    assert(presentation::plain_prices(once) =~= once);
}

proof fn lemma_left_out(shown: JsonV, item: JsonV, key: Seq<char>)
    requires
        shown is Object,
        distinct(shown->Object_0),
    ensures
        presentation::left_out(shown, item, key) is Object,
        distinct(presentation::left_out(shown, item, key)->Object_0),
        presentation::stays(item, key) || presentation::left_out(shown, item, key).get(key) is None,
        forall|other: Seq<char>|
            other != key ==> #[trigger] presentation::left_out(shown, item, key).get(other)
                == shown.get(other),
{
    broadcast use json::lemma_get_without;

    lemma_without(shown, key);
}

/// A field that is left out or stays is dealt with.
proof fn lemma_left_out_again(shown: JsonV, key: Seq<char>)
    requires
        presentation::stays(shown, key) || shown.get(key) is None,
    ensures
        presentation::left_out(shown, shown, key) == shown,
{
    if !presentation::stays(shown, key) {
        lemma_lacking_without(shown, key);
    }
}

/// The keys that the view of an item speaks of differ.
proof fn lemma_item_keys()
    ensures
        "imageRefs"@ != "url"@,
        "imageRefs"@ != "seller"@,
        "imageRefs"@ != "deliveryLabel"@,
        "imageRefs"@ != "prices"@,
        "imageRefs"@ != "novelty"@,
        "imageRefs"@ != "representation"@,
        "url"@ != "seller"@,
        "url"@ != "deliveryLabel"@,
        "url"@ != "prices"@,
        "url"@ != "novelty"@,
        "url"@ != "representation"@,
        "seller"@ != "deliveryLabel"@,
        "seller"@ != "prices"@,
        "seller"@ != "novelty"@,
        "seller"@ != "representation"@,
        "deliveryLabel"@ != "prices"@,
        "deliveryLabel"@ != "novelty"@,
        "deliveryLabel"@ != "representation"@,
        "prices"@ != "novelty"@,
        "prices"@ != "representation"@,
{
    reveal_strlit("imageRefs");
    reveal_strlit("url");
    reveal_strlit("seller");
    reveal_strlit("deliveryLabel");
    reveal_strlit("prices");
    reveal_strlit("novelty");
    reveal_strlit("representation");
    assert("imageRefs"@.len() == 9 && "url"@.len() == 3 && "seller"@.len() == 6);
    assert("deliveryLabel"@.len() == 13 && "prices"@.len() == 6 && "novelty"@.len() == 7);
    assert("representation"@.len() == 14);
    assert("seller"@[0] == 's' && "prices"@[0] == 'p');
}

proof fn lemma_search_item_twice(item: JsonV, view: Seq<char>)
    requires
        presentation::keys_differ(item),
    ensures
        presentation::search_item_in(item, view) matches Ok(r)
            ==> presentation::search_item_in(r, view) == Ok::<JsonV, FailureV>(r),
{
    broadcast use json::lemma_get_with;
    broadcast use json::lemma_get_without;

    reveal(presentation::search_item_in);
    lemma_item_keys();
    if let Ok(r) = presentation::search_item_in(item, view) {
        let plain = presentation::left_out(item, item, "imageRefs"@);
        lemma_left_out(item, item, "imageRefs"@);
        let a = presentation::left_out(plain, item, "url"@);
        lemma_left_out(plain, item, "url"@);
        let b = presentation::left_out(a, item, "seller"@);
        lemma_left_out(a, item, "seller"@);
        let c = presentation::left_out(b, item, "deliveryLabel"@);
        lemma_left_out(b, item, "deliveryLabel"@);
        let shown = if view == "compact"@ {
            c
        } else {
            plain
        };
        assert(r is Object);
        assert(r.get("novelty"@) == shown.get("novelty"@));
        assert(r.get("novelty"@) == item.get("novelty"@));
        assert(r.get("representation"@) == item.get("representation"@));
        assert(forall|key: Seq<char>|
            #[trigger] presentation::stays(r, key) == presentation::stays(item, key));
        assert(r.get("imageRefs"@) == plain.get("imageRefs"@));
        lemma_left_out_again(r, "imageRefs"@);
        if view == "compact"@ {
            assert(r.get("url"@) == a.get("url"@));
            assert(r.get("seller"@) == b.get("seller"@));
            assert(r.get("deliveryLabel"@) == c.get("deliveryLabel"@));
            lemma_left_out_again(r, "url"@);
            lemma_left_out_again(r, "seller"@);
            lemma_left_out_again(r, "deliveryLabel"@);
        }
        assert(shown.field("prices"@) == item.field("prices"@));
        match shown.field("prices"@) {
            JsonV::Array(prices) => {
                lemma_field_keys(item, "prices"@);
                lemma_prices_twice(prices);
                let once = JsonV::Array(presentation::plain_prices(prices));
                lemma_with_holds(shown, "prices"@, once);
                assert(r.field("prices"@) == once);
            },
            _ => {},
        }
    }
}

/// A value that does not mention evidence has none to lose.
proof fn lemma_stripped_bare(v: JsonV)
    requires
        !presentation::mentions(v, "evidenceRefs"@),
    ensures
        presentation::stripped(v) == v,
    decreases v,
{
    match v {
        JsonV::Array(a) => {
            assert forall|i: int| 0 <= i < a.len() implies presentation::stripped_rows(a)[i]
                == a[i] by {
                assert(!presentation::mentions(a[i], "evidenceRefs"@));
                lemma_stripped_bare(a[i]);
            }
            assert(presentation::stripped_rows(a) =~= a);
        },
        JsonV::Object(m) => {
            let mapped = presentation::stripped_members(m);
            assert forall|i: int| 0 <= i < m.len() implies mapped[i] == m[i] && m[i].0
                != "evidenceRefs"@ by {
                assert(decreases_to!(m => m[i]));
                assert(decreases_to!(m[i] => m[i].1));
                lemma_stripped_bare(m[i].1);
            }
            assert(mapped =~= m);
            lemma_lookup_absent(m, "evidenceRefs"@);
            lemma_lacking_dropped(m, "evidenceRefs"@);
        },
        _ => {},
    }
}

proof fn lemma_stripped_twice(v: JsonV)
    requires
        presentation::keys_differ(v),
    ensures
        presentation::stripped(presentation::stripped(v)) == presentation::stripped(v),
{
    presentation::stripped_values_cite_nothing(v);
    lemma_stripped_bare(presentation::stripped(v));
}

proof fn lemma_dropped_keys(m: Seq<(Seq<char>, JsonV)>, key: Seq<char>)
    requires
        forall|i: int| 0 <= i < m.len() ==> presentation::keys_differ((#[trigger] m[i]).1),
    ensures
        forall|i: int|
            0 <= i < json::dropped(m, key).len() ==> presentation::keys_differ(
                (#[trigger] json::dropped(m, key)[i]).1,
            ),
    decreases m.len(),
{
    if m.len() > 0 {
        let rest = m.drop_first();
        assert(forall|i: int| 0 <= i < rest.len() ==> #[trigger] rest[i] == m[i + 1]);
        lemma_dropped_keys(rest, key);
        let tail = json::dropped(rest, key);
        let d = json::dropped(m, key);
        assert forall|i: int| 0 <= i < d.len() implies presentation::keys_differ(
            (#[trigger] d[i]).1,
        ) by {
            if m[0].0 == key {
                assert(d[i] == m[i + 1]);
            } else if i > 0 {
                assert(d[i] == tail[i - 1]);
            } else {
                assert(d[0] == m[0]);
            }
        }
    }
}

/// A member less takes no key twice.
proof fn lemma_without_keys(j: JsonV, key: Seq<char>)
    requires
        presentation::keys_differ(j),
    ensures
        presentation::keys_differ(j.without(key)),
{
    if j is Object {
        lemma_dropped_keys(j->Object_0, key);
        lemma_dropped_distinct(j->Object_0, key);
    }
}

proof fn lemma_nested_lookup(m: Seq<(Seq<char>, JsonV)>, n: Seq<(Seq<char>, JsonV)>, key: Seq<char>)
    requires
        m.len() == n.len(),
        forall|i: int| 0 <= i < m.len() ==> (#[trigger] m[i]).0 == n[i].0,
    ensures
        json::lookup(m, key) is None ==> json::lookup(n, key) is None,
    decreases m.len(),
{
    if m.len() > 0 {
        let a = m.drop_first();
        let b = n.drop_first();
        assert forall|i: int| 0 <= i < a.len() implies (#[trigger] a[i]).0 == b[i].0 by {
            assert(m[i + 1].0 == n[i + 1].0);
        }
        lemma_nested_lookup(a, b, key);
    }
}

proof fn lemma_nested_twice(product: JsonV)
    requires
        product is Object,
        presentation::keys_differ(product),
    ensures
        presentation::nested_stripped(product) is Object,
        presentation::nested_stripped(presentation::nested_stripped(product))
            == presentation::nested_stripped(product),
        forall|key: Seq<char>|
            product.get(key) is None ==> #[trigger] presentation::nested_stripped(product).get(key)
                is None,
{
    let m = product->Object_0;
    let once = presentation::nested_stripped(product)->Object_0;
    let twice = presentation::nested_stripped(presentation::nested_stripped(product))->Object_0;
    assert forall|i: int| 0 <= i < m.len() implies twice[i] == once[i] by {
        assert(presentation::keys_differ(m[i].1));
        lemma_stripped_twice(m[i].1);
    }
    assert(twice =~= once);
    assert forall|key: Seq<char>| product.get(key) is None implies
        #[trigger] presentation::nested_stripped(product).get(key) is None by {
        lemma_nested_lookup(m, once, key);
    }
}

proof fn lemma_product_result_twice(result: JsonV, view: Seq<char>)
    requires
        presentation::keys_differ(result),
    ensures
        presentation::product_result_in(presentation::product_result_in(result, view), view)
            == presentation::product_result_in(result, view),
{
    broadcast use json::lemma_get_with;
    broadcast use json::lemma_get_without;

    reveal(presentation::product_result_in);
    reveal_strlit("url");
    reveal_strlit("fieldEvidence");
    let product = result.field("product"@);
    if product is Object {
        lemma_field_keys(result, "product"@);
        let plain = product.without("fieldEvidence"@);
        lemma_without(product, "fieldEvidence"@);
        lemma_without_keys(product, "fieldEvidence"@);
        let bare = plain.without("url"@);
        lemma_without(plain, "url"@);
        lemma_without_keys(plain, "url"@);
        lemma_nested_twice(bare);
        let shown = if view == "compact"@ {
            presentation::nested_stripped(bare)
        } else {
            plain
        };
        let r = result.with("product"@, shown);
        assert(bare.get("fieldEvidence"@) is None);
        assert(shown is Object);
        assert(shown.get("fieldEvidence"@) is None);
        lemma_lacking_without(shown, "fieldEvidence"@);
        if view == "compact"@ {
            lemma_lacking_without(shown, "url"@);
        }
        lemma_with_holds(result, "product"@, shown);
        assert(r.field("product"@) == shown);
    }
}

proof fn lemma_review_twice(review: JsonV)
    requires
        presentation::keys_differ(review),
    ensures
        presentation::compact_review(review) matches Ok(r) ==> presentation::compact_review(r)
            == Ok::<JsonV, FailureV>(r),
{
    broadcast use json::lemma_get_without;

    reveal(presentation::compact_review);
    reveal_strlit("author");
    reveal_strlit("authorName");
    reveal_strlit("authorDisplayName");
    reveal_strlit("userName");
    reveal_strlit("imageRefs");
    assert("author"@.len() == 6 && "authorName"@.len() == 10 && "authorDisplayName"@.len() == 17);
    assert("userName"@.len() == 8 && "imageRefs"@.len() == 9);
    if let Ok(r) = presentation::compact_review(review) {
        let a = review.without("author"@);
        lemma_without(review, "author"@);
        let b = a.without("authorName"@);
        lemma_without(a, "authorName"@);
        let c = b.without("authorDisplayName"@);
        lemma_without(b, "authorDisplayName"@);
        let d = c.without("userName"@);
        lemma_without(c, "userName"@);
        lemma_without(d, "imageRefs"@);
        assert(r == d || r == d.without("imageRefs"@));
        assert(r.get("author"@) is None);
        assert(r.get("authorName"@) is None);
        assert(r.get("authorDisplayName"@) is None);
        assert(r.get("userName"@) is None);
        lemma_lacking_without(r, "author"@);
        lemma_lacking_without(r, "authorName"@);
        lemma_lacking_without(r, "authorDisplayName"@);
        lemma_lacking_without(r, "userName"@);
    }
}

proof fn lemma_rows_twice(tool: Seq<char>, rows: Seq<JsonV>, view: Seq<char>)
    requires
        forall|i: int| 0 <= i < rows.len() ==> presentation::keys_differ(#[trigger] rows[i]),
    ensures
        presentation::rows_in(tool, rows, view) matches Ok(shown) ==> presentation::rows_in(
            tool,
            shown,
            view,
        ) == Ok::<Seq<JsonV>, FailureV>(shown),
    decreases rows.len(),
{
    if rows.len() > 0 {
        lemma_rows_twice(tool, rows.drop_last(), view);
        lemma_search_item_twice(rows.last(), view);
        lemma_product_result_twice(rows.last(), view);
        lemma_review_twice(rows.last());
        if let Ok(shown) = presentation::rows_in(tool, rows, view) {
            let before = presentation::rows_in(tool, rows.drop_last(), view)->Ok_0;
            assert(shown.drop_last() =~= before);
        }
    }
}

/// An answer in a view says which view it is in, and where its evidence stands. Presenting
/// it in the same view again changes nothing. Of an answer that holds a key twice this is not
/// said: only the first member with a key is taken out.
pub proof fn presenting_again_changes_nothing(tool: Seq<char>, value: JsonV, view: Seq<char>)
    requires
        presentation::keys_differ(value),
    ensures
        presentation::presented(tool, value, view) matches Ok(shown) ==> {
            &&& presentation::presented(tool, shown, view) == Ok::<JsonV, FailureV>(shown)
            &&& shown.field("view"@) == JsonV::Text(view)
            &&& shown.field("evidenceDetail"@) == JsonV::Text(
                if view == "full"@ {
                    "inline"@
                } else {
                    "journal"@
                },
            )
        },
{
    broadcast use json::lemma_get_with;

    if let Ok(shown) = presentation::presented(tool, value, view) {
        reveal_strlit("view");
        reveal_strlit("evidenceDetail");
        reveal_strlit("repeatMode");
        reveal_strlit("evidence");
        reveal_strlit("data");
        assert("view"@[0] == 'v' && "data"@[0] == 'd');
        assert("evidenceDetail"@.len() == 14 && "repeatMode"@.len() == 10);
        assert("evidence"@.len() == 8);
        let view_text = JsonV::Text(view);
        let detail = JsonV::Text(
            if view == "full"@ {
                "inline"@
            } else {
                "journal"@
            },
        );
        let one = value.with("view"@, view_text);
        let named = one.with("evidenceDetail"@, detail);
        lemma_with_holds(value, "view"@, view_text);
        lemma_holds_with(one, "view"@, view_text, "evidenceDetail"@, detail);
        lemma_with_holds(one, "evidenceDetail"@, detail);
        let root = presentation::labelled(tool, value, view);
        let full = JsonV::Text("full"@);
        lemma_holds_with(named, "view"@, view_text, "repeatMode"@, full);
        lemma_holds_with(named, "evidenceDetail"@, detail, "repeatMode"@, full);
        assert(holds(root, "view"@, view_text) && holds(root, "evidenceDetail"@, detail));
        assert(tool == "ozon_search"@ ==> root.get("repeatMode"@) is Some);
        if view != "full"@ {
            let none = JsonV::Array(Seq::empty());
            let bare = root.with("evidence"@, none);
            lemma_with_holds(root, "evidence"@, none);
            lemma_holds_with(root, "view"@, view_text, "evidence"@, none);
            lemma_holds_with(root, "evidenceDetail"@, detail, "evidence"@, none);
            if !(tool == "ozon_get_reviews"@ && view != "compact"@) {
                let key = presentation::rows_key(tool);
                let rows = presentation::rows_at(bare, key)->Ok_0;
                let data = bare.field("data"@);
                assert(data == value.field("data"@));
                lemma_field_keys(value, "data"@);
                lemma_field_keys(data, key);
                lemma_rows_twice(tool, rows, view);
                let out = presentation::rows_in(tool, rows, view)->Ok_0;
                let inner = data.with(key, JsonV::Array(out));
                lemma_with_holds(data, key, JsonV::Array(out));
                lemma_with_holds(bare, "data"@, inner);
                lemma_holds_with(bare, "view"@, view_text, "data"@, inner);
                lemma_holds_with(bare, "evidenceDetail"@, detail, "data"@, inner);
                lemma_holds_with(bare, "evidence"@, none, "data"@, inner);
                assert(shown == bare.with("data"@, inner));
                assert(shown.field("data"@) == inner);
                assert(inner.field(key) == JsonV::Array(out));
                assert(presentation::rows_at(shown, key) == Ok::<Seq<JsonV>, FailureV>(out));
            }
        }
        assert(presentation::labelled(tool, shown, view) == shown);
    }
}

proof fn lemma_each_row(tool: Seq<char>, rows: Seq<JsonV>, view: Seq<char>)
    ensures
        presentation::rows_in(tool, rows, view) matches Ok(shown) ==> {
            &&& shown.len() == rows.len()
            &&& forall|i: int|
                0 <= i < rows.len() ==> presentation::row_in(tool, #[trigger] rows[i], view) == Ok::<
                    JsonV,
                    FailureV,
                >(shown[i])
        },
    decreases rows.len(),
{
    if rows.len() > 0 {
        let front = rows.drop_last();
        lemma_each_row(tool, front, view);
        if let Ok(shown) = presentation::rows_in(tool, rows, view) {
            assert forall|i: int| 0 <= i < rows.len() implies presentation::row_in(
                tool,
                #[trigger] rows[i],
                view,
            ) == Ok::<JsonV, FailureV>(shown[i]) by {
                if i < front.len() {
                    assert(front[i] == rows[i]);
                }
            }
        }
    }
}

/// Whether rows are those of an answer in a view, each in its place.
pub open spec fn are_shown(
    tool: Seq<char>,
    rows: Seq<JsonV>,
    shown: Seq<JsonV>,
    view: Seq<char>,
) -> bool {
    &&& shown.len() == rows.len()
    &&& forall|i: int|
        0 <= i < rows.len() ==> presentation::row_in(tool, #[trigger] rows[i], view) == Ok::<
            JsonV,
            FailureV,
        >(shown[i])
}

/// The full view is the answer with what it says of itself. The other views show no evidence,
/// keep the context, the time, the warnings and all else, and show every row of the answer in
/// its place; of reviews, the comparison keeps the data as it is.
pub proof fn views_change_rows_and_evidence_alone(
    tool: Seq<char>,
    value: JsonV,
    view: Seq<char>,
    key: Seq<char>,
)
    ensures
        presentation::presented(tool, value, view) matches Ok(shown) ==> {
            &&& view == "full"@ && !presentation::is_view_label(key) ==> shown.get(key)
                == value.get(key)
            &&& shown.get("repeatMode"@) == if tool == "ozon_search"@ && value.get("repeatMode"@)
                is None {
                Some(JsonV::Text("full"@))
            } else {
                value.get("repeatMode"@)
            }
            &&& view != "full"@ ==> {
                &&& shown.field("evidence"@) == JsonV::Array(Seq::empty())
                &&& !presentation::is_view_label(key) && key != "evidence"@ && key != "data"@
                    ==> shown.get(key) == value.get(key)
                &&& if tool == "ozon_get_reviews"@ && view != "compact"@ {
                    shown.get("data"@) == value.get("data"@)
                } else {
                    let rows = presentation::rows_key(tool);
                    &&& presentation::rows_at(value, rows) is Ok
                    &&& presentation::rows_at(shown, rows) is Ok
                    &&& are_shown(
                        tool,
                        presentation::rows_at(value, rows)->Ok_0,
                        presentation::rows_at(shown, rows)->Ok_0,
                        view,
                    )
                    &&& key != rows ==> shown.field("data"@).get(key) == value.field("data"@).get(
                        key,
                    )
                }
            }
        },
{
    broadcast use json::lemma_get_with;

    if let Ok(shown) = presentation::presented(tool, value, view) {
        reveal_strlit("view");
        reveal_strlit("evidenceDetail");
        reveal_strlit("repeatMode");
        reveal_strlit("evidence");
        reveal_strlit("data");
        assert("view"@[0] == 'v' && "data"@[0] == 'd');
        assert("evidenceDetail"@.len() == 14 && "repeatMode"@.len() == 10);
        assert("evidence"@.len() == 8 && "view"@.len() == 4 && "data"@.len() == 4);
        let root = presentation::labelled(tool, value, view);
        assert(root is Object);
        assert(root.get("data"@) == value.get("data"@));
        if view != "full"@ && !(tool == "ozon_get_reviews"@ && view != "compact"@) {
            let bare = root.with("evidence"@, JsonV::Array(Seq::empty()));
            let rows_key = presentation::rows_key(tool);
            assert(bare.field("data"@) == value.field("data"@));
            let rows = presentation::rows_at(bare, rows_key)->Ok_0;
            lemma_each_row(tool, rows, view);
        }
    }
}

} // verus!
