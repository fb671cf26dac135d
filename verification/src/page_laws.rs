//! What holds of every page that the page script hands back.

use crate::json::{self, JsonV};
use crate::page_outcome::{
    self, ContextObservationV, FilteredPageV, NavigationProbe, PageOutcomeV, RegionProbeV, SeoV,
};
use vstd::prelude::*;

verus! {

/// Whether a value is an object with no other keys than these.
pub open spec fn is_limited(j: JsonV, keys: Seq<Seq<char>>) -> bool {
    j matches JsonV::Object(m) && page_outcome::only_keys(m, keys)
}

proof fn lemma_placed(
    m: Seq<(Seq<char>, JsonV)>,
    keys: Seq<Seq<char>>,
    key: Seq<char>,
    value: JsonV,
)
    requires
        page_outcome::only_keys(m, keys),
        keys.contains(key),
    ensures
        page_outcome::only_keys(json::placed(m, key, value), keys),
    decreases m.len(),
{
    if m.len() > 0 {
        let rest = m.drop_first();
        assert forall|i: int| 0 <= i < rest.len() implies keys.contains((#[trigger] rest[i]).0) by {
            assert(rest[i] == m[i + 1]);
        }
        lemma_placed(rest, keys, key, value);
        assert(keys.contains(m[0].0));
    }
}

proof fn lemma_with(j: JsonV, keys: Seq<Seq<char>>, i: int, value: JsonV)
    requires
        is_limited(j, keys),
        0 <= i < keys.len(),
    ensures
        is_limited(j.with(keys[i], value), keys),
{
    lemma_placed(j->Object_0, keys, keys[i], value);
}

proof fn lemma_links(v: Seq<Seq<char>>)
    ensures
        page_outcome::links_in(page_outcome::link_values(v)) == Some(v),
    decreases v.len(),
{
    if v.len() > 0 {
        let all = page_outcome::link_values(v);
        assert(all.drop_last() =~= page_outcome::link_values(v.drop_last()));
        lemma_links(v.drop_last());
        assert(v.drop_last().push(v.last()) =~= v);
    } else {
        assert(page_outcome::link_values(v) =~= Seq::empty());
        assert(v =~= Seq::empty());
    }
}

/// The value of the search information that a page gives about itself.
pub open spec fn seo_json(s: SeoV) -> JsonV {
    JsonV::object().with("title"@, JsonV::optional_text(s.title)).with(
        "link"@,
        JsonV::Array(page_outcome::link_values(s.link)),
    )
}

proof fn lemma_seo(s: SeoV)
    ensures
        page_outcome::seo_in(seo_json(s)) == Some(s),
{
    broadcast use json::lemma_get_with;

    reveal_strlit("title");
    reveal_strlit("link");
    let keys = seq!["title"@, "link"@];
    let a = JsonV::object().with("title"@, JsonV::optional_text(s.title));
    assert(is_limited(JsonV::object(), keys));
    assert(keys[0] == "title"@ && keys[1] == "link"@);
    lemma_with(JsonV::object(), keys, 0, JsonV::optional_text(s.title));
    lemma_with(a, keys, 1, JsonV::Array(page_outcome::link_values(s.link)));
    lemma_links(s.link);
    let j = seo_json(s);
    assert("title"@.len() != "link"@.len());
    assert(a.get("title"@) == Some(JsonV::optional_text(s.title)));
    assert(j.get("title"@) == Some(JsonV::optional_text(s.title)));
    assert(j.get("link"@) == Some(JsonV::Array(page_outcome::link_values(s.link))));
}

proof fn lemma_context(c: ContextObservationV)
    ensures
        page_outcome::context_in(c.json()) == Some(c),
{
    broadcast use json::lemma_get_with;

    reveal_strlit("regionLabel");
    reveal_strlit("regionVerified");
    reveal_strlit("regionSourceUrl");
    reveal_strlit("accountState");
    reveal_strlit("accessState");
    reveal_strlit("signature");
    assert("regionLabel"@[0] != "accessState"@[0]);
    let keys = page_outcome::context_keys();
    let a = JsonV::object().with(keys[0], JsonV::optional_text(c.region_label));
    let b = a.with(keys[1], JsonV::Bool(c.region_verified));
    let d = b.with(keys[2], JsonV::optional_text(c.region_source_url));
    let e = d.with(keys[3], JsonV::Text(c.account_state));
    let f = e.with(keys[4], JsonV::Text(c.access_state));
    assert(is_limited(JsonV::object(), keys));
    lemma_with(JsonV::object(), keys, 0, JsonV::optional_text(c.region_label));
    lemma_with(a, keys, 1, JsonV::Bool(c.region_verified));
    lemma_with(b, keys, 2, JsonV::optional_text(c.region_source_url));
    lemma_with(d, keys, 3, JsonV::Text(c.account_state));
    lemma_with(e, keys, 4, JsonV::Text(c.access_state));
    lemma_with(f, keys, 5, JsonV::optional_text(c.signature));
    let j = c.json();
    assert(j == f.with(keys[5], JsonV::optional_text(c.signature)));
    assert(j.get("regionLabel"@) == Some(JsonV::optional_text(c.region_label)));
    assert(j.get("regionVerified"@) == Some(JsonV::Bool(c.region_verified)));
    assert(j.get("regionSourceUrl"@) == Some(JsonV::optional_text(c.region_source_url)));
    assert(j.get("accountState"@) == Some(JsonV::Text(c.account_state)));
    assert(j.get("accessState"@) == Some(JsonV::Text(c.access_state)));
    assert(j.get("signature"@) == Some(JsonV::optional_text(c.signature)));
}

proof fn lemma_region(p: RegionProbeV)
    ensures
        page_outcome::region_in(p.json()) == Some(p),
{
    broadcast use json::lemma_get_with;

    reveal_strlit("addressBookModalAvailable");
    reveal_strlit("selectedRegionLabel");
    let keys = seq!["addressBookModalAvailable"@, "selectedRegionLabel"@];
    let a = JsonV::object().with(keys[0], JsonV::Bool(p.address_book_modal_available));
    assert(is_limited(JsonV::object(), keys));
    lemma_with(JsonV::object(), keys, 0, JsonV::Bool(p.address_book_modal_available));
    lemma_with(a, keys, 1, JsonV::optional_text(p.selected_region_label));
    let j = p.json();
    assert(keys[0].len() != keys[1].len());
    assert(a.get(keys[0]) == Some(JsonV::Bool(p.address_book_modal_available)));
    assert(j.get(keys[0]) == Some(JsonV::Bool(p.address_book_modal_available)));
    assert(j.get(keys[1]) == Some(JsonV::optional_text(p.selected_region_label)));
}

/// The value of what a page shows of its navigation.
pub open spec fn navigation_json(n: NavigationProbe) -> JsonV {
    JsonV::object().with("routeValid"@, JsonV::Bool(n.route_valid)).with(
        "status"@,
        JsonV::optional_unsigned(n.status),
    )
}

proof fn lemma_navigation(n: NavigationProbe)
    ensures
        page_outcome::navigation_in(navigation_json(n)) == Some(n),
{
    broadcast use json::lemma_get_with;

    reveal_strlit("routeValid");
    reveal_strlit("status");
    let keys = seq!["routeValid"@, "status"@];
    let a = JsonV::object().with(keys[0], JsonV::Bool(n.route_valid));
    assert(is_limited(JsonV::object(), keys));
    lemma_with(JsonV::object(), keys, 0, JsonV::Bool(n.route_valid));
    lemma_with(a, keys, 1, JsonV::optional_unsigned(n.status));
    let j = navigation_json(n);
    assert(keys[0].len() != keys[1].len());
    assert(a.get(keys[0]) == Some(JsonV::Bool(n.route_valid)));
    assert(j.get(keys[0]) == Some(JsonV::Bool(n.route_valid)));
    assert(j.get(keys[1]) == Some(JsonV::optional_unsigned(n.status)));
}

/// A value with a part, where there is one.
pub open spec fn with_part(j: JsonV, key: Seq<char>, part: Option<JsonV>) -> JsonV {
    match part {
        Some(v) => j.with(key, v),
        None => j,
    }
}

proof fn lemma_with_part(j: JsonV, keys: Seq<Seq<char>>, i: int, part: Option<JsonV>)
    requires
        is_limited(j, keys),
        0 <= i < keys.len(),
    ensures
        is_limited(with_part(j, keys[i], part), keys),
        forall|k: Seq<char>|
            #[trigger] with_part(j, keys[i], part).get(k) == if k == keys[i] && part is Some {
                part
            } else {
                j.get(k)
            },
{
    broadcast use json::lemma_get_with;

    if let Some(v) = part {
        lemma_with(j, keys, i, v);
    }
}

/// The parts of a page, in order.
pub open spec fn parts_of(p: FilteredPageV) -> Seq<Option<JsonV>> {
    seq![
        Some(p.widget_states),
        match p.seo {
            Some(s) => Some(seo_json(s)),
            None => None,
        },
        match p.sku {
            Some(sku) => Some(JsonV::object().with("sku"@, sku)),
            None => None,
        },
        match p.context_observation {
            Some(c) => Some(c.json()),
            None => None,
        },
        match p.region_probe {
            Some(r) => Some(r.json()),
            None => None,
        },
        match p.navigation_probe {
            Some(n) => Some(navigation_json(n)),
            None => None,
        },
    ]
}

proof fn lemma_parts(p: FilteredPageV)
    ensures
        page_outcome::parts(p.json(), page_outcome::page_keys()) == Some(parts_of(p)),
{
    reveal_strlit("widgetStates");
    reveal_strlit("seo");
    reveal_strlit("layoutTrackingInfo");
    reveal_strlit("contextObservation");
    reveal_strlit("regionProbe");
    reveal_strlit("navigationProbe");
    assert("layoutTrackingInfo"@[0] != "contextObservation"@[0]);
    let keys = page_outcome::page_keys();
    let v = parts_of(p);
    let j0 = JsonV::object();
    let j1 = with_part(j0, keys[0], v[0]);
    let j2 = with_part(j1, keys[1], v[1]);
    let j3 = with_part(j2, keys[2], v[2]);
    let j4 = with_part(j3, keys[3], v[3]);
    let j5 = with_part(j4, keys[4], v[4]);
    let j6 = with_part(j5, keys[5], v[5]);
    assert(is_limited(j0, keys));
    lemma_with_part(j0, keys, 0, v[0]);
    lemma_with_part(j1, keys, 1, v[1]);
    lemma_with_part(j2, keys, 2, v[2]);
    lemma_with_part(j3, keys, 3, v[3]);
    lemma_with_part(j4, keys, 4, v[4]);
    lemma_with_part(j5, keys, 5, v[5]);
    assert(p.json() == j6);
    assert forall|i: int| 0 <= i < 6 implies j6.get(#[trigger] keys[i]) == v[i] by {
        assert(j0.get(keys[i]) is None);
    }
    assert(page_outcome::parts(j6, keys)->Some_0 =~= v);
}

/// A page that is written as one value is read back as it was.
pub proof fn pages_are_read_back(p: FilteredPageV)
    requires
        p.widget_states is Object,
    ensures
        page_outcome::page_in(p.json()) == Some(p),
        page_outcome::outcome_in(JsonV::object().with("page"@, p.json())) == Some(
            PageOutcomeV::Page(p),
        ),
{
    lemma_parts(p);
    if let Some(s) = p.seo {
        lemma_seo(s);
    }
    if let Some(c) = p.context_observation {
        lemma_context(c);
    }
    if let Some(r) = p.region_probe {
        lemma_region(r);
    }
    if let Some(n) = p.navigation_probe {
        lemma_navigation(n);
    }
    if let Some(sku) = p.sku {
        assert(JsonV::object().with("sku"@, sku) == JsonV::Object(seq![("sku"@, sku)]));
    }
    let v = parts_of(p);
    assert(page_outcome::page_of(v) == Some(p));
    assert(JsonV::object().with("page"@, p.json()) == JsonV::Object(seq![("page"@, p.json())]));
}

/// An outcome is refused where its one member has another name.
pub proof fn unknown_outcomes_are_refused(key: Seq<char>, value: JsonV)
    requires
        key != "page"@,
        key != "error"@,
        key != "status"@,
    ensures
        page_outcome::outcome_in(JsonV::object().with(key, value)) is None,
{
    assert(JsonV::object().with(key, value) == JsonV::Object(seq![(key, value)]));
}

} // verus!
