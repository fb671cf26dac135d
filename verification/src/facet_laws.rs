//! What the filters of a search lead to.

use crate::json::{self, JsonV};
use crate::search;
use crate::text;
use vstd::prelude::*;

verus! {

proof fn lemma_others(v: Seq<Seq<char>>, x: Seq<char>, w: Seq<char>)
    ensures
        search::others(v, x).contains(w) == (v.contains(w) && w != x),
    decreases v.len(),
{
    if v.len() > 0 {
        let rest = v.drop_last();
        lemma_others(rest, x, w);
        let before = search::others(rest, x);
        let after = search::others(v, x);
        if rest.contains(w) {
            let i = choose|i: int| 0 <= i < rest.len() && rest[i] == w;
            assert(v[i] == w);
        }
        if v.contains(w) && w != v.last() {
            let i = choose|i: int| 0 <= i < v.len() && v[i] == w;
            assert(rest[i] == w);
        }
        assert(v[v.len() - 1] == v.last());
        if v.last() != x {
            assert(after[before.len() as int] == v.last());
            if before.contains(w) {
                let i = choose|i: int| 0 <= i < before.len() && before[i] == w;
                assert(after[i] == w);
            }
            if after.contains(w) && w != v.last() {
                let i = choose|i: int| 0 <= i < after.len() && after[i] == w;
                assert(before[i] == w);
            }
        }
    }
}

proof fn lemma_pushed(v: Seq<Seq<char>>, x: Seq<char>, w: Seq<char>)
    ensures
        v.push(x).contains(w) == (v.contains(w) || w == x),
{
    let all = v.push(x);
    assert(all[v.len() as int] == x);
    if v.contains(w) {
        let i = choose|i: int| 0 <= i < v.len() && v[i] == w;
        assert(all[i] == w);
    }
    if all.contains(w) && w != x {
        let i = choose|i: int| 0 <= i < all.len() && all[i] == w;
        assert(v[i] == w);
    }
}

/// The values behind an option: one that is selected is taken back, one that is not is added.
/// The other values of the filter stay as they are, unless only one can be chosen.
pub proof fn options_add_or_take_back_their_value(
    selected: Seq<Seq<char>>,
    radio: bool,
    active: bool,
    value: Seq<char>,
    other: Seq<char>,
)
    requires
        other != value,
    ensures
        search::toggled(selected, radio, active, value).contains(value) == !active,
        search::toggled(selected, radio, active, value).contains(other) == (!radio
            && selected.contains(other)),
{
    let values = if radio {
        Seq::empty()
    } else {
        selected
    };
    lemma_others(values, value, value);
    lemma_others(values, value, other);
    lemma_pushed(values, value, value);
    lemma_pushed(values, value, other);
}

/// To choose an option and then take it back leads to the values that were selected before.
pub proof fn options_are_undone(selected: Seq<Seq<char>>, value: Seq<char>)
    requires
        !selected.contains(value),
    ensures
        search::toggled(
            search::toggled(selected, false, false, value),
            false,
            true,
            value,
        ) == selected,
{
    let all = selected.push(value);
    assert(all.drop_last() =~= selected);
    lemma_nothing_taken(selected, value);
}

proof fn lemma_nothing_taken(v: Seq<Seq<char>>, x: Seq<char>)
    requires
        !v.contains(x),
    ensures
        search::others(v, x) == v,
    decreases v.len(),
{
    if v.len() > 0 {
        let rest = v.drop_last();
        if rest.contains(x) {
            let i = choose|i: int| 0 <= i < rest.len() && rest[i] == x;
            assert(v[i] == x);
        }
        assert(v[v.len() - 1] == v.last());
        lemma_nothing_taken(rest, x);
        assert(rest.push(v.last()) =~= v);
    }
}

/// Whether values are those that a filter has once one is added or taken back.
pub open spec fn are_toggled(
    values: Seq<Seq<char>>,
    selected: Seq<Seq<char>>,
    radio: bool,
    active: bool,
    value: Seq<char>,
) -> bool {
    forall|w: Seq<char>|
        #[trigger] values.contains(w) == if w == value {
            !active
        } else {
            !radio && selected.contains(w)
        }
}

/// An option leads to the search in which its filter has its value, where it is not selected,
/// and has it no more, where it is; the other values of the filter stay. Where none is left, the
/// filter is taken out of the search. A link of the page for taking the value back is preferred.
pub proof fn options_lead_to_their_search(
    page: JsonV,
    item: JsonV,
    key: Seq<char>,
    base: Seq<char>,
    selected: Seq<Seq<char>>,
    radio: bool,
)
    requires
        item.field("key"@) is Text,
    ensures
        ({
            let value = item.field("key"@)->Text_0;
            let active = item.field("isSelected"@) == JsonV::Bool(true);
            let title = if item.get("title"@) is Some {
                item.field("title"@)
            } else {
                item.field("description"@)
            };
            let offered = search::disable_link_of(page, key, title);
            let target = search::item_target(page, item, key, base, selected, radio);
            &&& active && offered is Some ==> target == offered
            &&& !active || offered is None ==> exists|values: Seq<Seq<char>>| #[trigger]
                are_toggled(values, selected, radio, active, value) && target == search::refined(
                    base,
                    key,
                    if text::join(values, ","@).len() == 0 {
                        None
                    } else {
                        Some(text::join(values, ","@))
                    },
                )
        }),
{
    let value = item.field("key"@)->Text_0;
    let active = item.field("isSelected"@) == JsonV::Bool(true);
    let values = search::toggled(selected, radio, active, value);
    assert forall|w: Seq<char>| #[trigger] values.contains(w) == if w == value {
        !active
    } else {
        !radio && selected.contains(w)
    } by {
        if w == value {
            assert(value.push('x').len() != value.len());
            options_add_or_take_back_their_value(selected, radio, active, value, value.push('x'));
        } else {
            options_add_or_take_back_their_value(selected, radio, active, value, w);
        }
    }
    assert(are_toggled(values, selected, radio, active, value));
    assert(search::is_set(item, "isSelected"@) == active);
}

/// Where the link that takes a value back comes from: a selected value of a filter with this
/// key, with the same label.
pub proof fn links_back_are_those_of_the_page(page: JsonV, key: Seq<char>, title: JsonV)
    ensures
        search::disable_link_of(page, key, title) is Some ==> exists|f: int, v: int|
            is_offered(page, key, title, f, v),
{
    if let Some(w) = search::widget_of(page, "searchResultsFiltersActive"@) {
        let filters = w.field("activeFilters"@).elements();
        let wanted = search::filters_with(filters, key);
        let values = json::flat(wanted, "activeValues"@);
        if search::disable_link_of(page, key, title) is Some {
            let at = lemma_labelled(values, search::label_of(title), 0);
            let (i, k) = lemma_flat(wanted, "activeValues"@, at);
            let f = lemma_filters(filters, key, i);
            assert(is_offered(page, key, title, f, k));
        }
    }
}

/// Whether a selected value of a filter has this key and this label, and its link is offered.
pub open spec fn is_offered(page: JsonV, key: Seq<char>, title: JsonV, f: int, v: int) -> bool {
    search::widget_of(page, "searchResultsFiltersActive"@) matches Some(w) && {
        let filters = w.field("activeFilters"@).elements();
        let values = filters[f].field("activeValues"@).elements();
        &&& 0 <= f < filters.len()
        &&& 0 <= v < values.len()
        &&& filters[f].field("key"@) == JsonV::Text(key)
        &&& search::label_of(values[v].field("title"@)) == search::label_of(title)
        &&& search::disable_link_of(page, key, title) == search::link_of(
            values[v].field("disableUri"@),
        )
    }
}

proof fn lemma_labelled(v: Seq<JsonV>, target: Option<Seq<char>>, i: int) -> (at: int)
    requires
        search::value_labelled(v, target, i) is Some,
    ensures
        0 <= at < v.len(),
        search::value_labelled(v, target, i) == Some(v[at]),
        search::label_of(v[at].field("title"@)) == target,
    decreases v.len() - i,
{
    if search::label_of(v[i].field("title"@)) == target {
        i
    } else {
        lemma_labelled(v, target, i + 1)
    }
}

proof fn lemma_flat(v: Seq<JsonV>, key: Seq<char>, at: int) -> (r: (int, int))
    requires
        0 <= at < json::flat(v, key).len(),
    ensures
        0 <= r.0 < v.len(),
        0 <= r.1 < v[r.0].field(key).elements().len(),
        json::flat(v, key)[at] == v[r.0].field(key).elements()[r.1],
    decreases v.len(),
{
    let rest = json::flat(v.drop_last(), key);
    if at < rest.len() {
        let r = lemma_flat(v.drop_last(), key, at);
        assert(v.drop_last()[r.0] == v[r.0]);
        r
    } else {
        (v.len() - 1, at - rest.len())
    }
}

proof fn lemma_filters(v: Seq<JsonV>, key: Seq<char>, i: int) -> (r: int)
    requires
        0 <= i < search::filters_with(v, key).len(),
    ensures
        0 <= r < v.len(),
        v[r] == search::filters_with(v, key)[i],
        v[r].field("key"@) == JsonV::Text(key),
    decreases v.len(),
{
    let rest = search::filters_with(v.drop_last(), key);
    if i < rest.len() {
        let r = lemma_filters(v.drop_last(), key, i);
        assert(v.drop_last()[r] == v[r]);
        r
    } else {
        v.len() - 1
    }
}

/// A label is a text, or the text of an object, cut to its first five hundred characters.
pub proof fn labels_are_texts(v: JsonV)
    ensures
        search::label_of(v) matches Some(label) ==> {
            &&& label.len() <= 500
            &&& v matches JsonV::Text(s) ==> label == s.take(label.len() as int) && (label.len()
                == s.len() || label.len() == 500)
            &&& !(v is Text) ==> (v.field("text"@) matches JsonV::Text(s) && label == s.take(
                label.len() as int,
            ) && (label.len() == s.len() || label.len() == 500))
        },
        search::label_of(v) is None == (!(v is Text) && !(v.field("text"@) is Text)),
{
    if let JsonV::Text(s) = v {
        assert(s.take(s.len() as int) =~= s);
        assert(v.field("text"@) == JsonV::Null);
    }
    if let JsonV::Text(s) = v.field("text"@) {
        assert(s.take(s.len() as int) =~= s);
    }
}

/// An option shows its value, its label and whether it is selected, and where it leads.
pub proof fn options_show_their_item(
    page: JsonV,
    item: JsonV,
    key: Seq<char>,
    base: Seq<char>,
    selected: Seq<Seq<char>>,
    radio: bool,
)
    ensures
        ({
            let shown = search::item_option(page, item, key, base, selected, radio);
            let title = if item.get("title"@) is Some {
                item.field("title"@)
            } else {
                item.field("description"@)
            };
            &&& shown.field("value"@) == item.field("key"@)
            &&& shown.field("label"@) == JsonV::optional_text(search::label_of(title))
            &&& shown.field("selected"@) == JsonV::Bool(
                item.field("isSelected"@) == JsonV::Bool(true),
            )
            &&& shown.field("searchUrl"@) == JsonV::optional_text(
                search::item_target(page, item, key, base, selected, radio),
            )
        }),
{
    broadcast use json::lemma_get_with;

    reveal_strlit("value");
    reveal_strlit("label");
    reveal_strlit("selected");
    reveal_strlit("searchUrl");
    assert("value"@.len() == 5);
    assert("label"@.len() == 5);
    assert("selected"@.len() == 8);
    assert("searchUrl"@.len() == 9);
    assert("value"@[0] == 'v');
    assert("label"@[0] == 'l');
}

/// A filter that is on or off leads to the search with the other of both: it is taken out where
/// it is on, and set where it is off.
pub proof fn switches_lead_to_their_other_side(f: JsonV, body: JsonV, base: Seq<char>, key: Seq<char>)
    requires
        f is Object,
    ensures
        ({
            let shown = search::switch_facet(f, body, base, key);
            let on = body.field("isSelected"@) == JsonV::Bool(true);
            &&& shown.field("selected"@) == JsonV::Bool(on)
            &&& on ==> shown.field("searchUrl"@) == JsonV::optional_text(
                search::refined(base, key, None),
            )
            &&& !on ==> shown.field("searchUrl"@) == JsonV::optional_text(
                search::refined(base, key, Some("true"@)),
            )
        }),
{
    broadcast use json::lemma_get_with;

    reveal_strlit("selected");
    reveal_strlit("searchUrl");
    assert("selected"@.len() == 8);
    assert("searchUrl"@.len() == 9);
}

/// A category is shown with its label and level, whether it is the current one, and the first
/// page of the search that it links to.
pub proof fn categories_show_their_link(c: JsonV)
    ensures
        ({
            let shown = search::category_option(c);
            &&& shown.field("label"@) == JsonV::optional_text(search::label_of(c.field("title"@)))
            &&& shown.field("selected"@) == JsonV::Bool(c.field("isActive"@) == JsonV::Bool(true))
            &&& shown.field("level"@) == c.field("level"@)
            &&& shown.field("searchUrl"@) == JsonV::optional_text(
                search::link_of(c.field("urlValue"@)),
            )
        }),
{
    broadcast use json::lemma_get_with;

    reveal_strlit("label");
    reveal_strlit("selected");
    reveal_strlit("level");
    reveal_strlit("searchUrl");
    assert("label"@.len() == 5);
    assert("selected"@.len() == 8);
    assert("level"@.len() == 5);
    assert("searchUrl"@.len() == 9);
    assert("label"@[1] == 'a');
    assert("level"@[1] == 'e');
}

/// A filter of categories shows the first twenty of them, in order, and says whether there are
/// more.
pub proof fn category_filters_show_twenty(f: JsonV, body: JsonV, i: int)
    requires
        f is Object,
    ensures
        ({
            let shown = search::category_facet(f, body);
            let all = body.field("categories"@).elements();
            let options = shown.field("options"@).elements();
            &&& options.len() <= 20 && options.len() <= all.len()
            &&& options.len() == all.len() || options.len() == 20
            &&& shown.field("optionsTruncated"@) == JsonV::Bool(options.len() < all.len())
            &&& 0 <= i < options.len() ==> options[i] == search::category_option(all[i])
        }),
{
    broadcast use json::lemma_get_with;

    reveal_strlit("options");
    reveal_strlit("optionsTruncated");
    assert("options"@.len() == 7);
    assert("optionsTruncated"@.len() == 16);
}

/// Whether two rows show the same in the same order, but for what is left out.
proof fn lemma_keyed(v: Seq<JsonV>)
    ensures
        search::keyed(v).len() <= v.len(),
        forall|i: int|
            0 <= i < search::keyed(v).len() ==> (#[trigger] search::keyed(v)[i]).field("key"@)
                is Text,
        (forall|i: int| 0 <= i < v.len() ==> (#[trigger] v[i]).field("key"@) is Text)
            ==> search::keyed(v) == v,
    decreases v.len(),
{
    if v.len() > 0 {
        let rest = v.drop_last();
        lemma_keyed(rest);
        assert(forall|i: int| 0 <= i < rest.len() ==> #[trigger] rest[i] == v[i]);
        let all = search::keyed(v);
        let before = search::keyed(rest);
        assert forall|i: int| 0 <= i < all.len() implies (#[trigger] all[i]).field("key"@) is Text by {
            if i < before.len() {
                assert(all[i] == before[i]);
            }
        }
        if forall|i: int| 0 <= i < v.len() ==> (#[trigger] v[i]).field("key"@) is Text {
            assert(v[v.len() - 1].field("key"@) is Text);
            assert(rest.push(v.last()) =~= v);
        }
    }
}

/// A filter of values shows whether one or more can be chosen, and its first twenty options, one
/// for each item that has a key, in order; it says whether there are more.
pub proof fn choices_show_their_options(
    page: JsonV,
    f: JsonV,
    checks: JsonV,
    base: Seq<char>,
    key: Seq<char>,
    i: int,
)
    requires
        f is Object,
    ensures
        ({
            let shown = search::choice_facet(page, f, checks, base, key);
            let all = json::flat(checks.field("sections"@).elements(), "items"@)
                + checks.field("colorIcons"@).elements();
            let radio = checks.field("isRadio"@) == JsonV::Bool(true);
            let options = shown.field("options"@).elements();
            let selected = search::selection(all, base, key);
            &&& shown.field("isRadio"@) == JsonV::Bool(radio)
            &&& shown.field("hasMoreValues"@) == JsonV::Bool(
                checks.field("hasManyValues"@) == JsonV::Bool(true) || checks.field(
                    "openingButtons"@,
                ).get("showAllButton"@) is Some,
            )
            &&& options.len() <= 20
            &&& shown.field("optionsTruncated"@) == JsonV::Bool(
                search::keyed(all).len() > options.len(),
            )
            &&& (forall|k: int| 0 <= k < all.len() ==> (#[trigger] all[k]).field("key"@) is Text)
                && 0 <= i < options.len() ==> options[i] == search::item_option(
                page,
                all[i],
                key,
                search::refinement_base_of(base, key, selected),
                selected,
                radio,
            )
            &&& 0 <= i < options.len() ==> options[i].field("value"@) is Text
        }),
{
    broadcast use json::lemma_get_with;

    reveal_strlit("isRadio");
    reveal_strlit("hasMoreValues");
    reveal_strlit("options");
    reveal_strlit("optionsTruncated");
    assert("isRadio"@.len() == 7);
    assert("hasMoreValues"@.len() == 13);
    assert("options"@.len() == 7);
    assert("optionsTruncated"@.len() == 16);
    assert("isRadio"@[0] == 'i');
    assert("options"@[0] == 'o');
    let all = search::items_of(checks) + checks.field("colorIcons"@).elements();
    lemma_keyed(all);
    let selected = search::selection(all, base, key);
    let shown = search::choice_facet(page, f, checks, base, key);
    let options = shown.field("options"@).elements();
    assert(options.len() == if search::keyed(all).len() < 20 {
        search::keyed(all).len()
    } else {
        20
    });
    if 0 <= i < options.len() {
        options_show_their_item(
            page,
            search::keyed(all)[i],
            key,
            search::refinement_base_of(base, key, selected),
            selected,
            checks.field("isRadio"@) == JsonV::Bool(true),
        );
        assert(search::keyed(all)[i].field("key"@) is Text);
    }
}

proof fn lemma_selected(v: Seq<JsonV>, w: Seq<char>)
    ensures
        search::selected_keys(v).contains(w) == exists|i: int|
            0 <= i < v.len() && (#[trigger] v[i]).field("isSelected"@) == JsonV::Bool(true)
                && v[i].field("key"@) == JsonV::Text(w),
    decreases v.len(),
{
    if v.len() > 0 {
        let rest = v.drop_last();
        lemma_selected(rest, w);
        let before = search::selected_keys(rest);
        let all = search::selected_keys(v);
        let last = v.len() - 1;
        if exists|i: int|
            0 <= i < rest.len() && (#[trigger] rest[i]).field("isSelected"@) == JsonV::Bool(true)
                && rest[i].field("key"@) == JsonV::Text(w) {
            let i = choose|i: int|
                0 <= i < rest.len() && (#[trigger] rest[i]).field("isSelected"@) == JsonV::Bool(
                    true,
                ) && rest[i].field("key"@) == JsonV::Text(w);
            assert(v[i].field("isSelected"@) == JsonV::Bool(true));
        }
        if exists|i: int|
            0 <= i < v.len() && (#[trigger] v[i]).field("isSelected"@) == JsonV::Bool(true)
                && v[i].field("key"@) == JsonV::Text(w) {
            let i = choose|i: int|
                0 <= i < v.len() && (#[trigger] v[i]).field("isSelected"@) == JsonV::Bool(true)
                    && v[i].field("key"@) == JsonV::Text(w);
            if i < last {
                assert(rest[i].field("isSelected"@) == JsonV::Bool(true));
            }
        }
        if search::is_set(v.last(), "isSelected"@) && v.last().field("key"@) is Text {
            lemma_pushed(before, v.last().field("key"@)->Text_0, w);
            assert(v[last].field("isSelected"@) == JsonV::Bool(true));
        }
    } else {
        assert(search::selected_keys(v) =~= Seq::empty());
    }
}

/// A value of a filter is selected where an item of the page shows it so.
pub proof fn shown_selections_count(all: Seq<JsonV>, base: Seq<char>, key: Seq<char>, i: int)
    requires
        0 <= i < all.len(),
        all[i].field("isSelected"@) == JsonV::Bool(true),
        all[i].field("key"@) is Text,
    ensures
        search::selection(all, base, key).contains(all[i].field("key"@)->Text_0),
{
    let w = all[i].field("key"@)->Text_0;
    lemma_selected(all, w);
    if let Ok(a) = crate::address::parsed_url(base) {
        lemma_united(search::selected_keys(all), search::listed_values(a.pairs, key), w);
    }
}

/// A value of a filter is selected where the URL of the search names it, alone or among others.
pub proof fn named_selections_count(
    all: Seq<JsonV>,
    base: Seq<char>,
    key: Seq<char>,
    i: int,
    value: Seq<char>,
)
    requires
        crate::address::parsed_url(base) matches Ok(a) && 0 <= i < a.pairs.len() && a.pairs[i].0
            == key && text::split(a.pairs[i].1, ',').contains(value),
    ensures
        search::selection(all, base, key).contains(value),
{
    let a = crate::address::parsed_url(base)->Ok_0;
    lemma_listed(a.pairs, key, i, value);
    lemma_united(search::selected_keys(all), search::listed_values(a.pairs, key), value);
}

proof fn lemma_listed(
    pairs: Seq<(Seq<char>, Seq<char>)>,
    key: Seq<char>,
    i: int,
    value: Seq<char>,
)
    requires
        0 <= i < pairs.len(),
        pairs[i].0 == key,
        text::split(pairs[i].1, ',').contains(value),
    ensures
        search::listed_values(pairs, key).contains(value),
    decreases pairs.len(),
{
    let rest = pairs.drop_last();
    let before = search::listed_values(rest, key);
    let all = search::listed_values(pairs, key);
    if i == pairs.len() - 1 {
        let last = text::split(pairs[i].1, ',');
        let k = choose|k: int| 0 <= k < last.len() && last[k] == value;
        assert(all[before.len() + k] == value);
    } else {
        assert(rest[i] == pairs[i]);
        lemma_listed(rest, key, i, value);
        let k = choose|k: int| 0 <= k < before.len() && before[k] == value;
        assert(all[k] == value);
    }
}

proof fn lemma_united(a: Seq<Seq<char>>, b: Seq<Seq<char>>, w: Seq<char>)
    ensures
        text::united(a, b).contains(w) == (a.contains(w) || b.contains(w)),
    decreases b.len(),
{
    if b.len() > 0 {
        let rest = b.drop_last();
        lemma_united(a, rest, w);
        if rest.contains(w) {
            let i = choose|i: int| 0 <= i < rest.len() && rest[i] == w;
            assert(b[i] == w);
        }
        if b.contains(w) && w != b.last() {
            let i = choose|i: int| 0 <= i < b.len() && b[i] == w;
            assert(rest[i] == w);
        }
        assert(b[b.len() - 1] == b.last());
        lemma_pushed(text::united(a, rest), b.last(), w);
    }
}

/// A filter is shown with its kind, its key, its title and its description; one of ranges with
/// the ends of its range.
pub proof fn filters_show_their_head(filter: JsonV, kind: Seq<char>, key: Seq<char>)
    ensures
        ({
            let shown = search::facet_head(filter, kind, key);
            let body = if kind == "multipleRangesFilter"@ {
                filter.field(kind).field("rangeFilter"@)
            } else {
                filter.field(kind)
            };
            &&& shown is Object
            &&& shown.field("type"@) == JsonV::Text(kind)
            &&& shown.field("key"@) == JsonV::Text(key)
            &&& shown.field("title"@) == JsonV::optional_text(search::label_of(body.field("title"@)))
            &&& shown.field("description"@) == JsonV::optional_text(
                search::label_of(body.field("description"@)),
            )
            &&& shown.get("range"@) is Some == (kind == "multipleRangesFilter"@ || kind
                == "rangeFilter"@)
        }),
{
    broadcast use json::lemma_get_with;

    reveal_strlit("type");
    reveal_strlit("key");
    reveal_strlit("title");
    reveal_strlit("description");
    reveal_strlit("range");
    assert("type"@.len() == 4);
    assert("key"@.len() == 3);
    assert("title"@.len() == 5);
    assert("description"@.len() == 11);
    assert("range"@.len() == 5);
    assert("title"@[0] == 't');
    assert("range"@[0] == 'r');
}

/// The ends of a range are shown under their own names, where the filter gives a number.
pub proof fn ranges_show_their_ends(body: JsonV)
    ensures
        ({
            let r = search::range_of(body);
            &&& r.get("minValue"@) == if body.field("minValue"@) is Number {
                Some(body.field("minValue"@))
            } else {
                None
            }
            &&& r.get("maxValue"@) == if body.field("maxValue"@) is Number {
                Some(body.field("maxValue"@))
            } else {
                None
            }
            &&& r.get("fromValue"@) == if body.field("fromValue"@) is Number {
                Some(body.field("fromValue"@))
            } else {
                None
            }
            &&& r.get("toValue"@) == if body.field("toValue"@) is Number {
                Some(body.field("toValue"@))
            } else {
                None
            }
        }),
{
    broadcast use json::lemma_get_with;

    reveal_strlit("minValue");
    reveal_strlit("maxValue");
    reveal_strlit("fromValue");
    reveal_strlit("toValue");
    assert("minValue"@.len() == 8);
    assert("maxValue"@.len() == 8);
    assert("fromValue"@.len() == 9);
    assert("toValue"@.len() == 7);
    assert("minValue"@[1] == 'i');
    assert("maxValue"@[1] == 'a');
}

/// A filter is understood where it has a kind that is known and a proper key, and in no other
/// case; each kind is shown in its own way.
pub proof fn filters_are_shown_by_kind(page: JsonV, base: Seq<char>, filter: JsonV)
    ensures
        ({
            let kind = filter.field("type"@);
            let key = filter.field("key"@);
            let known = seq![
                "categoryFilter"@,
                "boolFilter"@,
                "checkboxesFilter"@,
                "multipleRangesFilter"@,
                "rangeFilter"@,
                "colorFilter"@,
            ];
            &&& search::facet_of(page, base, filter) is Some == (kind is Text && key is Text
                && known.contains(kind->Text_0) && search::is_safe_key(key->Text_0))
            &&& search::facet_of(page, base, filter) matches Some(f) ==> {
                &&& kind == JsonV::Text("boolFilter"@) ==> f == search::switch_facet(
                    search::facet_head(filter, "boolFilter"@, key->Text_0),
                    filter.field("boolFilter"@),
                    base,
                    key->Text_0,
                )
                &&& kind == JsonV::Text("categoryFilter"@) ==> f == search::category_facet(
                    search::facet_head(filter, "categoryFilter"@, key->Text_0),
                    filter.field("categoryFilter"@),
                )
                &&& kind == JsonV::Text("checkboxesFilter"@) ==> f == search::choice_facet(
                    page,
                    search::facet_head(filter, "checkboxesFilter"@, key->Text_0),
                    filter.field("checkboxesFilter"@),
                    base,
                    key->Text_0,
                )
                &&& kind == JsonV::Text("multipleRangesFilter"@) ==> f == search::choice_facet(
                    page,
                    search::facet_head(filter, "multipleRangesFilter"@, key->Text_0),
                    filter.field("multipleRangesFilter"@).field("checkboxesFilter"@),
                    base,
                    key->Text_0,
                )
            }
        }),
{
    reveal_strlit("categoryFilter");
    reveal_strlit("boolFilter");
    reveal_strlit("checkboxesFilter");
    reveal_strlit("multipleRangesFilter");
    reveal_strlit("rangeFilter");
    reveal_strlit("colorFilter");
    assert("categoryFilter"@.len() == 14);
    assert("boolFilter"@.len() == 10);
    assert("checkboxesFilter"@.len() == 16);
    assert("multipleRangesFilter"@.len() == 20);
    assert("rangeFilter"@.len() == 11);
    assert("colorFilter"@.len() == 11);
    assert("rangeFilter"@[0] == 'r');
    assert("colorFilter"@[0] == 'c');
    let known = seq![
        "categoryFilter"@,
        "boolFilter"@,
        "checkboxesFilter"@,
        "multipleRangesFilter"@,
        "rangeFilter"@,
        "colorFilter"@,
    ];
    assert(known[0] == "categoryFilter"@ && known[1] == "boolFilter"@);
    assert(known[2] == "checkboxesFilter"@ && known[3] == "multipleRangesFilter"@);
    assert(known[4] == "rangeFilter"@ && known[5] == "colorFilter"@);
}

/// Whether a row of facets is that of some filters: each is that of a filter, in the order of
/// the filters.
pub open spec fn are_facets(
    found: Seq<JsonV>,
    page: JsonV,
    base: Seq<char>,
    filters: Seq<JsonV>,
    places: Seq<int>,
) -> bool {
    &&& places.len() == found.len()
    &&& forall|k: int|
        0 <= k < places.len() ==> 0 <= #[trigger] places[k] < filters.len() && search::facet_of(
            page,
            base,
            filters[places[k]],
        ) == Some(found[k])
    &&& forall|k: int, m: int| 0 <= k < m < places.len() ==> places[k] < places[m]
}

proof fn lemma_gathered(
    page: JsonV,
    base: Seq<char>,
    filters: Seq<JsonV>,
    i: int,
    out: Seq<JsonV>,
    bytes: nat,
    places: Seq<int>,
) -> (r: Seq<int>)
    requires
        0 <= i <= filters.len(),
        are_facets(out, page, base, filters, places),
        forall|k: int| 0 <= k < places.len() ==> #[trigger] places[k] < i,
        forall|j: int|
            0 <= j < i && search::facet_of(page, base, #[trigger] filters[j]) is Some
                ==> places.contains(j),
        out.len() <= search::MAX_FACETS,
    ensures
        are_facets(
            search::gathered(page, base, filters, i, out, bytes).0,
            page,
            base,
            filters,
            r,
        ),
        search::gathered(page, base, filters, i, out, bytes).0.len() <= search::MAX_FACETS,
        !search::gathered(page, base, filters, i, out, bytes).1 ==> forall|j: int|
            0 <= j < filters.len() && search::facet_of(page, base, #[trigger] filters[j]) is Some
                ==> r.contains(j),
    decreases filters.len() - i,
{
    if i >= filters.len() {
        places
    } else {
        match search::facet_of(page, base, filters[i]) {
            None => lemma_gathered(page, base, filters, i + 1, out, bytes, places),
            Some(f) => {
                let size = text::utf8_len(json::json_text(f));
                if out.len() >= search::MAX_FACETS || bytes + size > search::MAX_FACET_BYTES {
                    places
                } else {
                    let more = places.push(i);
                    assert(more[places.len() as int] == i);
                    assert forall|j: int|
                        0 <= j < i + 1 && search::facet_of(page, base, #[trigger] filters[j])
                            is Some implies more.contains(j) by {
                        if j < i {
                            assert(places.contains(j));
                            let k = choose|k: int| 0 <= k < places.len() && places[k] == j;
                            assert(more[k] == j);
                        }
                    }
                    lemma_gathered(page, base, filters, i + 1, out.push(f), bytes + size, more)
                }
            },
        }
    }
}

/// The facets of a page are those of its filters, in order; where they are not cut off, every
/// filter that is understood is among them.
pub proof fn facets_are_those_of_the_filters(page: JsonV, base: Seq<char>) -> (places: Seq<int>)
    requires
        search::widget_of(page, "filtersDesktop"@) is Some,
    ensures
        ({
            let filters = json::flat(
                search::widget_of(page, "filtersDesktop"@)->Some_0.field("sections"@).elements(),
                "filters"@,
            );
            let shown = search::facets_of(page, base);
            &&& are_facets(shown.field("items"@).elements(), page, base, filters, places)
            &&& shown.field("items"@).elements().len() <= 40
            &&& shown.field("truncated"@) is Bool
            &&& shown.field("truncated"@) == JsonV::Bool(false) ==> forall|j: int|
                0 <= j < filters.len() && search::facet_of(page, base, #[trigger] filters[j])
                    is Some ==> places.contains(j)
        }),
{
    broadcast use json::lemma_get_with;

    reveal_strlit("items");
    reveal_strlit("truncated");
    assert("items"@.len() == 5);
    assert("truncated"@.len() == 9);
    let filters = json::flat(
        search::widget_of(page, "filtersDesktop"@)->Some_0.field("sections"@).elements(),
        "filters"@,
    );
    lemma_gathered(page, base, filters, 0, Seq::empty(), 0, Seq::empty())
}

/// The orders that a page offers are shown with their label, whether they are the current one,
/// and the first page of the search that they link to; the selected values of a filter with
/// their label and the first page of the search without them.
pub proof fn orders_and_active_values_show_their_link(v: Seq<JsonV>, i: int, n: int)
    requires
        0 <= i < v.len(),
        i < n,
    ensures
        ({
            let order = search::sort_rows(v, n)[i];
            &&& order.field("label"@) == JsonV::optional_text(
                search::label_of(v[i].field("name"@)),
            )
            &&& order.field("selected"@) == JsonV::Bool(
                v[i].field("isSelected"@) == JsonV::Bool(true),
            )
            &&& order.field("searchUrl"@) == JsonV::optional_text(
                search::link_of(v[i].field("action"@).field("link"@)),
            )
            &&& search::sort_rows(v, n).len() <= n
        }),
        ({
            let value = search::active_value_rows(v, n)[i];
            &&& value.field("label"@) == JsonV::optional_text(
                search::label_of(v[i].field("title"@)),
            )
            &&& value.field("searchUrl"@) == JsonV::optional_text(
                search::link_of(v[i].field("disableUri"@)),
            )
        }),
        ({
            let filter = search::active_rows(v, n)[i];
            &&& filter.field("key"@) == JsonV::optional_text(search::label_of(v[i].field("key"@)))
            &&& filter.field("name"@) == JsonV::optional_text(
                search::label_of(v[i].field("name"@)),
            )
            &&& filter.field("type"@) == JsonV::optional_text(
                search::label_of(v[i].field("ftype"@)),
            )
            &&& filter.field("values"@) == JsonV::Array(
                search::active_value_rows(v[i].field("activeValues"@).elements(), 20),
            )
        }),
{
    broadcast use json::lemma_get_with;

    reveal_strlit("label");
    reveal_strlit("selected");
    reveal_strlit("searchUrl");
    reveal_strlit("key");
    reveal_strlit("name");
    reveal_strlit("type");
    reveal_strlit("values");
    assert("label"@.len() == 5);
    assert("selected"@.len() == 8);
    assert("searchUrl"@.len() == 9);
    assert("key"@.len() == 3);
    assert("name"@.len() == 4);
    assert("type"@.len() == 4);
    assert("values"@.len() == 6);
    assert("name"@[0] == 'n');
    assert("type"@[0] == 't');
}

} // verus!
