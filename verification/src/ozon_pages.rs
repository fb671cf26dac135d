//! Which pages are observed, in what order, and which of them are taken.
//!
//! The browser is driven elsewhere. Here stands what is decided between its commands: what
//! an outcome means, when a step is repeated, and whether a page is the one asked for.

use crate::address::{self, Address, AddressV};
use crate::browser_error::{BrowserError, BrowserErrorV};
use crate::digest;
use crate::failure::{self, Failure, FailureV};
use crate::json::{Json, JsonV};
use crate::page_outcome::{
    ContextObservation, ContextObservationV, FilteredPage, FilteredPageV, NavigationProbe, PageError, PageOutcome, PageOutcomeV,
};
use crate::pattern;
use crate::text;
use vstd::multiset::Multiset;
use vstd::prelude::*;

verus! {

/// Whether a parameter only tells how a page was reached.
pub open spec fn is_metadata(key: Seq<char>) -> bool {
    ||| key == "__rr"@
    ||| key == "category_was_predicted"@
    ||| key == "deny_category_prediction"@
    ||| key == "from_global"@
    ||| key == "at"@
}

fn is_navigation_metadata(key: &str) -> (r: bool)
    ensures
        r == is_metadata(key@),
{
    text::same(key, "__rr") || text::same(key, "category_was_predicted") || text::same(
        key,
        "deny_category_prediction",
    ) || text::same(key, "from_global") || text::same(key, "at")
}

/// Whether a parameter says which results are asked for. The order that is used by default
/// says nothing.
pub open spec fn is_semantic() -> spec_fn((Seq<char>, Seq<char>)) -> bool {
    |p: (Seq<char>, Seq<char>)|
        !is_metadata(p.0) && !(p.0 == "sorting"@ && (p.1 == "score"@ || p.1 == "popular"@))
}

pub open spec fn has_name(key: Seq<char>) -> spec_fn((Seq<char>, Seq<char>)) -> bool {
    |p: (Seq<char>, Seq<char>)| p.0 == key
}

pub open spec fn has_other_name(key: Seq<char>) -> spec_fn((Seq<char>, Seq<char>)) -> bool {
    |p: (Seq<char>, Seq<char>)| p.0 != key
}

/// The parameters of a URL, with no regard to their order.
pub open spec fn parameters(a: AddressV) -> Multiset<(Seq<char>, Seq<char>)> {
    a.pairs.to_multiset()
}

/// The value of the only parameter of a row of one.
pub open spec fn sole_value(q: Multiset<(Seq<char>, Seq<char>)>) -> Option<Seq<char>> {
    if q.len() == 1 {
        Some(q.choose().1)
    } else {
        None
    }
}

pub open spec fn is_number(s: Seq<char>) -> bool {
    s.len() > 0 && text::all_digits(s)
}

/// Parameters without the mark that a brand was predicted, and whether it was there. It may
/// stand there once, and be true.
pub open spec fn unmarked(q: Multiset<(Seq<char>, Seq<char>)>) -> Option<
    (Multiset<(Seq<char>, Seq<char>)>, bool),
> {
    let marks = q.filter(has_name("brand_was_predicted"@));
    if marks.len() == 0 {
        Some((q, false))
    } else if sole_value(marks) == Some("true"@) {
        Some((q.filter(has_other_name("brand_was_predicted"@)), true))
    } else {
        None
    }
}

/// Parameters asked for and observed, without what a predicted brand adds to them. A brand
/// may be added only to a search that names none, and must be one number.
pub open spec fn without_prediction(
    requested: Multiset<(Seq<char>, Seq<char>)>,
    actual: Multiset<(Seq<char>, Seq<char>)>,
    allow_inferred_brand: bool,
) -> Option<(Multiset<(Seq<char>, Seq<char>)>, Multiset<(Seq<char>, Seq<char>)>)> {
    match (unmarked(requested), unmarked(actual)) {
        (Some((r, _)), Some((a, predicted))) => {
            let brands = a.filter(has_name("brand"@));
            if !predicted || !allow_inferred_brand || r.filter(has_name("brand"@)).len() > 0
                || brands.len() == 0 {
                Some((r, a))
            } else if sole_value(brands) matches Some(b) && is_number(b) {
                Some((r, a.filter(has_other_name("brand"@))))
            } else {
                None
            }
        },
        _ => None,
    }
}

/// The brand that parameters name, where it is one number.
pub open spec fn numeric_brand(q: Multiset<(Seq<char>, Seq<char>)>) -> Option<Seq<char>> {
    match sole_value(q.filter(has_name("brand"@))) {
        Some(b) => if is_number(b) {
            Some(b)
        } else {
            None
        },
        None => None,
    }
}

/// The last segment of a path.
pub open spec fn last_segment(path: Seq<char>) -> Seq<char> {
    let p = text::without_slashes(path);
    match text::last_slash(p) {
        Some(i) => p.skip(i + 1),
        None => p,
    }
}

/// Whether the last segment of a path is a brand, or ends with it behind a hyphen.
pub open spec fn path_has_brand(path: Seq<char>, brand: Seq<char>) -> bool {
    let segment = last_segment(path);
    segment == brand || (text::without_suffix(segment, brand) matches Some(prefix) && text::ends(
        prefix,
        "-"@,
    ))
}

/// Whether a path leads from another one down to a brand.
pub open spec fn leads_to_brand(from: Seq<char>, to: Seq<char>, brand: Seq<char>) -> bool {
    match text::without_suffix(text::without_slashes(to), "-"@ + brand) {
        None => false,
        Some(p) => match text::last_slash(p) {
            None => false,
            Some(i) => p.take(i) == text::without_slashes(from),
        },
    }
}

/// Whether a category that a search was sent to was predicted.
pub open spec fn is_predicted_category(target: AddressV, found: AddressV) -> bool {
    &&& target.path == "/search/"@
    &&& text::starts(found.path, "/category/"@)
    &&& parameters(found).count(("category_was_predicted"@, "true"@)) > 0
}

/// Whether a page shows the results that another URL asks for. A single brand that is a
/// number may have moved from the parameters to the end of the category path.
pub open spec fn is_same_search(target: AddressV, found: AddressV) -> bool {
    let searching = target.path == "/search/"@;
    let predicted = is_predicted_category(target, found);
    if parameters(target).filter(has_name("sorting"@)).len() > 1 || parameters(found).filter(
        has_name("sorting"@),
    ).len() > 1 {
        false
    } else {
        match without_prediction(
            parameters(target).filter(is_semantic()),
            parameters(found).filter(is_semantic()),
            searching,
        ) {
            None => false,
            Some((r, a)) => {
                ||| {
                    &&& if searching {
                        found.path == "/search/"@ || predicted
                    } else {
                        target.path == found.path
                    }
                    &&& r == a
                }
                ||| {
                    &&& numeric_brand(r) matches Some(brand)
                    &&& if searching {
                        predicted
                    } else {
                        target.path == found.path || leads_to_brand(target.path, found.path, brand)
                    }
                    &&& path_has_brand(found.path, brand)
                    &&& r.filter(has_other_name("brand"@)) == a
                }
            },
        }
    }
}

pub open spec fn product_path_pattern() -> Seq<char> {
    r"^/product/(?:[^/]*-)?([0-9]+)/(reviews/)?$"@
}

/// Whether two paths lead to the same product and the same of its pages.
pub open spec fn is_same_product(target: Seq<char>, found: Seq<char>) -> bool {
    match (
        pattern::first_match(product_path_pattern(), target),
        pattern::first_match(product_path_pattern(), found),
    ) {
        (Some(a), Some(b)) => pattern::group(a, 1) == pattern::group(b, 1) && pattern::group(a, 2)
            == pattern::group(b, 2),
        _ => target == found,
    }
}

/// Whether a page is the one that was asked for.
pub open spec fn is_requested(target: AddressV, found: AddressV) -> bool {
    &&& target.origin == found.origin
    &&& target.origin != "null"@
    &&& if target.path == "/search/"@ || text::starts(target.path, "/category/"@) {
        is_same_search(target, found)
    } else {
        is_same_product(target.path, found.path)
    }
}

/// The pairs that are wanted, in order.
pub open spec fn picked(
    v: Seq<(Seq<char>, Seq<char>)>,
    wanted: spec_fn((Seq<char>, Seq<char>)) -> bool,
) -> Seq<(Seq<char>, Seq<char>)>
    decreases v.len(),
{
    if v.len() == 0 {
        v
    } else if wanted(v.last()) {
        picked(v.drop_last(), wanted).push(v.last())
    } else {
        picked(v.drop_last(), wanted)
    }
}

proof fn lemma_picked(
    v: Seq<(Seq<char>, Seq<char>)>,
    wanted: spec_fn((Seq<char>, Seq<char>)) -> bool,
)
    ensures
        picked(v, wanted).to_multiset() == v.to_multiset().filter(wanted),
    decreases v.len(),
{
    broadcast use vstd::seq_lib::group_to_multiset_ensures;
    broadcast use vstd::multiset::group_multiset_axioms;

    if v.len() == 0 {
        assert(v.to_multiset() =~= Multiset::empty());
        assert(v.to_multiset().filter(wanted) =~= Multiset::empty());
    } else {
        lemma_picked(v.drop_last(), wanted);
        assert(v =~= v.drop_last().push(v.last()));
        let rest = picked(v.drop_last(), wanted);
        assert(v.to_multiset() =~= v.drop_last().to_multiset().insert(v.last()));
        if wanted(v.last()) {
            assert(rest.push(v.last()).to_multiset() =~= rest.to_multiset().insert(v.last()));
            assert(v.to_multiset().filter(wanted) =~= v.drop_last().to_multiset().filter(
                wanted,
            ).insert(v.last()));
        } else {
            assert(v.to_multiset().filter(wanted) =~= v.drop_last().to_multiset().filter(wanted));
        }
    }
}

/// The parameters that a row of pairs holds.
pub open spec fn bag(v: Seq<(String, String)>) -> Multiset<(Seq<char>, Seq<char>)> {
    address::pairs_of(v).to_multiset()
}

fn semantic_query(url: &Address) -> (r: Vec<(String, String)>)
    ensures
        bag(r@) == parameters(url@).filter(is_semantic()),
{
    let ghost all = address::pairs_of(url.pairs@);
    let mut out: Vec<(String, String)> = Vec::new();
    let mut i: usize = 0;
    assert(all.take(0) =~= Seq::empty());
    assert(address::pairs_of(out@) =~= Seq::empty());
    while i < url.pairs.len()
        invariant
            0 <= i <= url.pairs@.len(),
            all == address::pairs_of(url.pairs@),
            address::pairs_of(out@) == picked(all.take(i as int), is_semantic()),
        decreases url.pairs@.len() - i,
    {
        assert(all.take(i + 1).drop_last() =~= all.take(i as int));
        assert(all.take(i + 1).last() == (url.pairs@[i as int].0@, url.pairs@[i as int].1@));
        let key: &str = url.pairs[i].0.as_str();
        let value: &str = url.pairs[i].1.as_str();
        let default_sort: bool = text::same(key, "sorting") && (text::same(value, "score")
            || text::same(value, "popular"));
        if !is_navigation_metadata(key) && !default_sort {
            let pair: (String, String) = (key.to_owned(), value.to_owned());
            proof {
                address::lemma_pairs_push(out@, pair);
            }
            out.push(pair);
        }
        i = i + 1;
    }
    assert(all.take(i as int) =~= all);
    proof {
        lemma_picked(all, is_semantic());
    }
    out
}

fn with_name(v: &Vec<(String, String)>, name: &str) -> (r: Vec<(String, String)>)
    ensures
        bag(r@) == bag(v@).filter(has_name(name@)),
{
    let ghost all = address::pairs_of(v@);
    let mut out: Vec<(String, String)> = Vec::new();
    let mut i: usize = 0;
    assert(all.take(0) =~= Seq::empty());
    assert(address::pairs_of(out@) =~= Seq::empty());
    while i < v.len()
        invariant
            0 <= i <= v@.len(),
            all == address::pairs_of(v@),
            address::pairs_of(out@) == picked(all.take(i as int), has_name(name@)),
        decreases v@.len() - i,
    {
        assert(all.take(i + 1).drop_last() =~= all.take(i as int));
        assert(all.take(i + 1).last() == (v@[i as int].0@, v@[i as int].1@));
        if text::same(v[i].0.as_str(), name) {
            let pair: (String, String) = (v[i].0.clone(), v[i].1.clone());
            proof {
                address::lemma_pairs_push(out@, pair);
            }
            out.push(pair);
        }
        i = i + 1;
    }
    assert(all.take(i as int) =~= all);
    proof {
        lemma_picked(all, has_name(name@));
    }
    out
}

fn with_other_name(v: &Vec<(String, String)>, name: &str) -> (r: Vec<(String, String)>)
    ensures
        bag(r@) == bag(v@).filter(has_other_name(name@)),
{
    let ghost all = address::pairs_of(v@);
    let mut out: Vec<(String, String)> = Vec::new();
    let mut i: usize = 0;
    assert(all.take(0) =~= Seq::empty());
    assert(address::pairs_of(out@) =~= Seq::empty());
    while i < v.len()
        invariant
            0 <= i <= v@.len(),
            all == address::pairs_of(v@),
            address::pairs_of(out@) == picked(all.take(i as int), has_other_name(name@)),
        decreases v@.len() - i,
    {
        assert(all.take(i + 1).drop_last() =~= all.take(i as int));
        assert(all.take(i + 1).last() == (v@[i as int].0@, v@[i as int].1@));
        if !text::same(v[i].0.as_str(), name) {
            let pair: (String, String) = (v[i].0.clone(), v[i].1.clone());
            proof {
                address::lemma_pairs_push(out@, pair);
            }
            out.push(pair);
        }
        i = i + 1;
    }
    assert(all.take(i as int) =~= all);
    proof {
        lemma_picked(all, has_other_name(name@));
    }
    out
}

proof fn lemma_bag_len(v: Seq<(String, String)>)
    ensures
        bag(v).len() == v.len(),
{
    broadcast use vstd::seq_lib::group_to_multiset_ensures;

    assert(address::pairs_of(v).to_multiset().len() == address::pairs_of(v).len());
}

fn only_value(v: &Vec<(String, String)>) -> (r: Option<String>)
    ensures
        text::text_of(r) == sole_value(bag(v@)),
{
    proof {
        lemma_bag_len(v@);
    }
    if v.len() == 1 {
        proof {
            broadcast use vstd::seq_lib::group_to_multiset_ensures;
            broadcast use vstd::multiset::group_multiset_axioms;

            let all = address::pairs_of(v@);
            let q = bag(v@);
            let p = all[0];
            assert(all.contains(p));
            assert(q.count(p) > 0);
            let c = q.choose();
            assert(q.count(c) > 0);
            assert(all.contains(c));
            assert(c == p);
        }
        Some(v[0].1.clone())
    } else {
        None
    }
}

fn how_many(v: &Vec<(String, String)>, key: &str, value: &str) -> (r: usize)
    ensures
        r == bag(v@).count((key@, value@)),
{
    broadcast use vstd::seq_lib::group_to_multiset_ensures;
    broadcast use vstd::multiset::group_multiset_axioms;

    let ghost all = address::pairs_of(v@);
    let ghost wanted = (key@, value@);
    let mut n: usize = 0;
    let mut i: usize = 0;
    assert(all.take(0) =~= Seq::empty());
    assert(all.take(0).to_multiset() =~= Multiset::empty());
    while i < v.len()
        invariant
            0 <= n <= i <= v@.len(),
            all == address::pairs_of(v@),
            wanted == (key@, value@),
            n == all.take(i as int).to_multiset().count(wanted),
        decreases v@.len() - i,
    {
        assert(all.take(i + 1) =~= all.take(i as int).push(all[i as int]));
        assert(all[i as int] == (v@[i as int].0@, v@[i as int].1@));
        proof {
            broadcast use vstd::multiset::group_multiset_axioms;

            vstd::seq_lib::to_multiset_build(all.take(i as int), all[i as int]);
        }
        if text::same(v[i].0.as_str(), key) && text::same(v[i].1.as_str(), value) {
            n = n + 1;
        }
        i = i + 1;
    }
    assert(all.take(i as int) =~= all);
    n
}

fn covers(a: &Vec<(String, String)>, b: &Vec<(String, String)>) -> (r: bool)
    ensures
        r == (forall|i: int|
            0 <= i < a@.len() ==> bag(a@).count(#[trigger] address::pairs_of(a@)[i]) == bag(
                b@,
            ).count(address::pairs_of(a@)[i])),
{
    let ghost all = address::pairs_of(a@);
    let mut i: usize = 0;
    while i < a.len()
        invariant
            0 <= i <= a@.len(),
            all == address::pairs_of(a@),
            forall|k: int|
                0 <= k < i ==> bag(a@).count(#[trigger] all[k]) == bag(b@).count(all[k]),
        decreases a@.len() - i,
    {
        assert(all[i as int] == (a@[i as int].0@, a@[i as int].1@));
        let key: &str = a[i].0.as_str();
        let value: &str = a[i].1.as_str();
        if how_many(a, key, value) != how_many(b, key, value) {
            return false;
        }
        i = i + 1;
    }
    true
}

/// Whether two rows hold the same pairs, each as often, in any order.
fn same_pairs(a: &Vec<(String, String)>, b: &Vec<(String, String)>) -> (r: bool)
    ensures
        r == (bag(a@) == bag(b@)),
{
    let r: bool = covers(a, b) && covers(b, a);
    proof {
        broadcast use vstd::seq_lib::group_to_multiset_ensures;

        if r {
            assert forall|p: (Seq<char>, Seq<char>)| bag(a@).count(p) == bag(b@).count(p) by {
                let x = address::pairs_of(a@);
                let y = address::pairs_of(b@);
                if x.contains(p) {
                    let i = choose|i: int| 0 <= i < x.len() && x[i] == p;
                    assert(bag(a@).count(x[i]) == bag(b@).count(x[i]));
                } else if y.contains(p) {
                    let i = choose|i: int| 0 <= i < y.len() && y[i] == p;
                    assert(bag(b@).count(y[i]) == bag(a@).count(y[i]));
                } else {
                    assert(bag(a@).count(p) == 0);
                    assert(bag(b@).count(p) == 0);
                }
            }
            assert(bag(a@) =~= bag(b@));
        }
    }
    r
}

fn numeric(s: &str) -> (r: bool)
    ensures
        r == is_number(s@),
{
    !s.is_empty() && text::only_digits(s)
}

fn remove_valid_brand_prediction_marker(query: Vec<(String, String)>) -> (r: Option<
    (Vec<(String, String)>, bool),
>)
    ensures
        match r {
            Some(x) => unmarked(bag(query@)) == Some((bag(x.0@), x.1)),
            None => unmarked(bag(query@)) is None,
        },
{
    let marks: Vec<(String, String)> = with_name(&query, "brand_was_predicted");
    proof {
        lemma_bag_len(marks@);
    }
    if marks.len() == 0 {
        return Some((query, false));
    }
    match only_value(&marks) {
        Some(v) => if text::same(v.as_str(), "true") {
            Some((with_other_name(&query, "brand_was_predicted"), true))
        } else {
            None
        },
        None => None,
    }
}

fn normalize_observed_brand_prediction(
    requested: Vec<(String, String)>,
    actual: Vec<(String, String)>,
    allow_inferred_brand: bool,
) -> (r: Option<(Vec<(String, String)>, Vec<(String, String)>)>)
    ensures
        match r {
            Some(x) => without_prediction(bag(requested@), bag(actual@), allow_inferred_brand)
                == Some((bag(x.0@), bag(x.1@))),
            None => without_prediction(bag(requested@), bag(actual@), allow_inferred_brand) is None,
        },
{
    let asked: (Vec<(String, String)>, bool) = match remove_valid_brand_prediction_marker(
        requested,
    ) {
        Some(x) => x,
        None => return None,
    };
    let found: (Vec<(String, String)>, bool) = match remove_valid_brand_prediction_marker(actual) {
        Some(x) => x,
        None => return None,
    };
    let named: Vec<(String, String)> = with_name(&asked.0, "brand");
    let brands: Vec<(String, String)> = with_name(&found.0, "brand");
    proof {
        lemma_bag_len(named@);
        lemma_bag_len(brands@);
    }
    if !found.1 || !allow_inferred_brand || named.len() > 0 || brands.len() == 0 {
        return Some((asked.0, found.0));
    }
    match only_value(&brands) {
        Some(b) => if numeric(b.as_str()) {
            Some((asked.0, with_other_name(&found.0, "brand")))
        } else {
            None
        },
        None => None,
    }
}

fn single_numeric_brand(query: &Vec<(String, String)>) -> (r: Option<String>)
    ensures
        text::text_of(r) == numeric_brand(bag(query@)),
{
    match only_value(&with_name(query, "brand")) {
        Some(b) => if numeric(b.as_str()) {
            Some(b)
        } else {
            None
        },
        None => None,
    }
}

fn category_path_has_brand(path: &str, brand: &str) -> (r: bool)
    ensures
        r == path_has_brand(path@, brand@),
{
    let p: Vec<char> = text::trim_slashes(path);
    let end: usize = p.len();
    let segment: String = match text::find_last_slash(&p) {
        Some(i) => {
            let s: String = text::substring(&p, i + 1, end);
            assert(s@ =~= p@.skip(i + 1));
            s
        },
        None => text::string_of(p.as_slice()),
    };
    text::same(segment.as_str(), brand) || (match text::strip_suffix(segment.as_str(), brand) {
        Some(prefix) => text::ends_with(prefix.as_str(), "-"),
        None => false,
    })
}

fn moved_to_brand(from: &str, to: &str, brand: &str) -> (r: bool)
    ensures
        r == leads_to_brand(from@, to@, brand@),
{
    let trimmed: Vec<char> = text::trim_slashes(to);
    let trimmed: String = text::string_of(trimmed.as_slice());
    let suffix: String = text::joined("-", brand);
    let p: Vec<char> = match text::strip_suffix(trimmed.as_str(), suffix.as_str()) {
        Some(p) => text::chars_of(p.as_str()),
        None => return false,
    };
    match text::find_last_slash(&p) {
        Some(i) => {
            let parent: String = text::substring(&p, 0, i);
            assert(parent@ =~= p@.take(i as int));
            let above: Vec<char> = text::trim_slashes(from);
            let above: String = text::string_of(above.as_slice());
            text::same(parent.as_str(), above.as_str())
        },
        None => false,
    }
}

fn has_duplicate_query_key(url: &Address, expected: &str) -> (r: bool)
    ensures
        r == (parameters(url@).filter(has_name(expected@)).len() > 1),
{
    let named: Vec<(String, String)> = with_name(&url.pairs, expected);
    proof {
        lemma_bag_len(named@);
    }
    named.len() > 1
}

fn same_search(target: &Address, found: &Address) -> (r: bool)
    ensures
        r == is_same_search(target@, found@),
{
    if has_duplicate_query_key(target, "sorting") || has_duplicate_query_key(found, "sorting") {
        return false;
    }
    let target_path: &str = target.path.as_str();
    let found_path: &str = found.path.as_str();
    let searching: bool = text::same(target_path, "/search/");
    let predicted: bool = searching && text::starts_with(found_path, "/category/") && how_many(
        &found.pairs,
        "category_was_predicted",
        "true",
    ) > 0;
    let same_path: bool = text::same(target_path, found_path);
    let allowed_path: bool = if searching {
        text::same(found_path, "/search/") || predicted
    } else {
        same_path
    };
    let queries: (Vec<(String, String)>, Vec<(String, String)>) =
        match normalize_observed_brand_prediction(
        semantic_query(target),
        semantic_query(found),
        searching,
    ) {
        Some(q) => q,
        None => return false,
    };
    if allowed_path && same_pairs(&queries.0, &queries.1) {
        return true;
    }
    let brand: String = match single_numeric_brand(&queries.0) {
        Some(b) => b,
        None => return false,
    };
    let rest: Vec<(String, String)> = with_other_name(&queries.0, "brand");
    let category_path_matches: bool = if searching {
        predicted
    } else {
        same_path || moved_to_brand(target_path, found_path, brand.as_str())
    };
    category_path_matches && category_path_has_brand(found_path, brand.as_str()) && same_pairs(
        &rest,
        &queries.1,
    )
}

fn same_group(a: &Option<String>, b: &Option<String>) -> (r: bool)
    ensures
        r == (text::text_of(*a) == text::text_of(*b)),
{
    match (a, b) {
        (Some(a), Some(b)) => text::same(a.as_str(), b.as_str()),
        (None, None) => true,
        _ => false,
    }
}

fn same_product(target: &str, found: &str) -> (r: bool)
    ensures
        r == is_same_product(target@, found@),
{
    match (
        pattern::captures(r"^/product/(?:[^/]*-)?([0-9]+)/(reviews/)?$", target),
        pattern::captures(r"^/product/(?:[^/]*-)?([0-9]+)/(reviews/)?$", found),
    ) {
        (Some(a), Some(b)) => same_group(
            &pattern::group_text(&a, 1),
            &pattern::group_text(&b, 1),
        ) && same_group(&pattern::group_text(&a, 2), &pattern::group_text(&b, 2)),
        _ => text::same(target, found),
    }
}

/// Whether a page is the one that was asked for.
pub fn is_requested_page(requested: &str, actual: &str) -> (r: bool)
    ensures
        r == (match (address::parsed_url(requested@), address::parsed_url(actual@)) {
            (Ok(target), Ok(found)) => is_requested(target, found),
            _ => false,
        }),
{
    let target: Address = match address::parse_url(requested) {
        Ok(a) => a,
        Err(_) => return false,
    };
    let found: Address = match address::parse_url(actual) {
        Ok(a) => a,
        Err(_) => return false,
    };
    if !text::same(target.origin.as_str(), found.origin.as_str()) || text::same(
        target.origin.as_str(),
        "null",
    ) {
        return false;
    }
    if text::same(target.path.as_str(), "/search/") || text::starts_with(
        target.path.as_str(),
        "/category/",
    ) {
        same_search(&target, &found)
    } else {
        same_product(target.path.as_str(), found.path.as_str())
    }
}

/// The order of the parameters plays no part in whether a page is the one that was asked for.
pub proof fn parameter_order_is_irrelevant(target: AddressV, found: AddressV, other: AddressV)
    requires
        other.origin == found.origin,
        other.path == found.path,
        parameters(other) == parameters(found),
    ensures
        is_requested(target, found) == is_requested(target, other),
        is_requested(found, target) == is_requested(other, target),
{
}

/// The address of the home page.
pub fn home() -> (r: &'static str)
    ensures
        r@ == "https://www.ozon.ru/"@,
{
    "https://www.ozon.ru/"
}

/// The address of the saved addresses.
pub fn address_book() -> (r: &'static str)
    ensures
        r@ == "https://www.ozon.ru/modal/addressbook"@,
{
    "https://www.ozon.ru/modal/addressbook"
}

pub open spec fn changed(detail: Seq<char>) -> FailureV {
    FailureV::Message("CONTEXT_CHANGED: "@ + detail)
}

/// Whether a region that the header showed differs from the selected one.
pub open spec fn differs(shown: Option<Seq<char>>, selected: Seq<char>) -> bool {
    shown matches Some(s) && s != selected
}

/// Whether the account and the header were the same before and after.
pub open spec fn is_stable(before: ContextObservationV, after: ContextObservationV) -> bool {
    &&& before.account_state == "authenticated"@
    &&& after.account_state == before.account_state
    &&& after.access_state == before.access_state
    &&& after.signature == before.signature
}

/// The context after the saved addresses were read: with the region that is selected there,
/// and a new signature of the account and this region.
pub open spec fn merged_context(
    after: ContextObservationV,
    selected: Seq<char>,
) -> ContextObservationV {
    ContextObservationV {
        region_label: Some(selected),
        region_verified: true,
        region_source_url: Some("https://www.ozon.ru/modal/addressbook"@),
        signature: Some(
            digest::sha256_text(
                vstd::utf8::encode_utf8(after.account_state + "\n"@ + selected),
            ),
        ),
        ..after
    }
}

/// The page after the saved addresses were read, where the context stayed the same.
pub open spec fn merged_page(
    before: FilteredPageV,
    after: FilteredPageV,
    selected: Option<Seq<char>>,
) -> Result<FilteredPageV, FailureV> {
    match (before.context_observation, after.context_observation) {
        (None, _) => Err(changed("context disappeared before region observation"@)),
        (Some(_), None) => Err(changed("context disappeared after region observation"@)),
        (Some(b), Some(a)) => if !is_stable(b, a) {
            Err(changed("account or header changed during region observation"@))
        } else {
            match selected {
                None => Ok(FilteredPageV { region_probe: None, ..after }),
                Some(s) => if differs(b.region_label, s) || differs(a.region_label, s) {
                    Err(changed("header region changed during region observation"@))
                } else {
                    Ok(
                        FilteredPageV {
                            region_probe: None,
                            context_observation: Some(merged_context(a, s)),
                            ..after
                        },
                    )
                },
            }
        },
    }
}

fn same_optional(a: &Option<String>, b: &Option<String>) -> (r: bool)
    ensures
        r == (text::text_of(*a) == text::text_of(*b)),
{
    same_group(a, b)
}

fn other_region(shown: &Option<String>, selected: &str) -> (r: bool)
    ensures
        r == differs(text::text_of(*shown), selected@),
{
    match shown {
        Some(s) => !text::same(s.as_str(), selected),
        None => false,
    }
}

fn context_changed(detail: &str) -> (r: Failure)
    ensures
        r@ == changed(detail@),
{
    Failure::Message(text::joined("CONTEXT_CHANGED: ", detail))
}

/// The page after the saved addresses were read. The account and the header must be the
/// same before and after, or nothing is taken.
pub fn merge_context_region(
    before: FilteredPage,
    after: FilteredPage,
    selected_region: Option<String>,
) -> (r: Result<FilteredPage, Failure>)
    ensures
        failure::outcome(r) == merged_page(before@, after@, text::text_of(selected_region)),
{
    let mut after: FilteredPage = after;
    after.region_probe = None;
    let earlier: &ContextObservation = match &before.context_observation {
        Some(c) => c,
        None => return Err(context_changed("context disappeared before region observation")),
    };
    let mut later: ContextObservation = match after.context_observation {
        Some(c) => c,
        None => return Err(context_changed("context disappeared after region observation")),
    };
    if !text::same(earlier.account_state.as_str(), "authenticated") || !text::same(
        later.account_state.as_str(),
        earlier.account_state.as_str(),
    ) || !text::same(later.access_state.as_str(), earlier.access_state.as_str()) || !same_optional(
        &later.signature,
        &earlier.signature,
    ) {
        return Err(context_changed("account or header changed during region observation"));
    }
    if let Some(selected) = selected_region {
        if other_region(&earlier.region_label, selected.as_str()) || other_region(
            &later.region_label,
            selected.as_str(),
        ) {
            return Err(context_changed("header region changed during region observation"));
        }
        let signed: String = text::joined3(
            later.account_state.as_str(),
            "\n",
            selected.as_str(),
        );
        later.signature = Some(digest::sha256_hex(signed.as_str().as_bytes()));
        later.region_label = Some(selected);
        later.region_verified = true;
        later.region_source_url = Some(address_book().to_owned());
    }
    Ok(
        FilteredPage {
            widget_states: after.widget_states,
            seo: after.seo,
            layout_tracking_info: after.layout_tracking_info,
            context_observation: Some(later),
            region_probe: None,
            navigation_probe: after.navigation_probe,
        },
    )
}

/// Whether the saved addresses are looked at: only for a signed-in account whose header
/// shows no region, and only where the page offers them.
pub open spec fn probes_region(page: FilteredPageV) -> bool {
    &&& page.context_observation matches Some(c)
    &&& c.account_state == "authenticated"@
    &&& c.region_label is None
    &&& page.region_probe matches Some(p)
    &&& p.address_book_modal_available
}

pub fn should_probe_region(page: &FilteredPage) -> (r: bool)
    ensures
        r == probes_region(page@),
{
    match (&page.context_observation, &page.region_probe) {
        (Some(c), Some(p)) => text::same(c.account_state.as_str(), "authenticated")
            && c.region_label.is_none() && p.address_book_modal_available,
        _ => false,
    }
}

pub open spec fn browser_failure(e: BrowserErrorV) -> FailureV {
    FailureV::Browser(e)
}

/// What is made of an outcome that is no page: only an answer that is too large is told
/// apart.
pub open spec fn refused(o: PageOutcomeV, otherwise: BrowserErrorV) -> FailureV {
    if o == PageOutcomeV::Error(PageError::ResponseTooLarge) {
        browser_failure(BrowserErrorV::ResponseTooLarge)
    } else {
        browser_failure(otherwise)
    }
}

fn too_large(o: &PageOutcome) -> (r: bool)
    ensures
        r == (o@ == PageOutcomeV::Error(PageError::ResponseTooLarge)),
{
    match o {
        PageOutcome::Error(e) => matches!(e.error, PageError::ResponseTooLarge),
        _ => false,
    }
}

/// What an outcome shows of a navigation.
pub open spec fn navigation_of(o: PageOutcomeV) -> Result<NavigationProbe, FailureV> {
    match o {
        PageOutcomeV::Page(p) => match p.navigation_probe {
            Some(n) => Ok(n),
            None => Err(browser_failure(BrowserErrorV::InvalidBridgeResponse)),
        },
        _ => Err(refused(o, BrowserErrorV::UnexpectedRedirect)),
    }
}

pub open spec fn probe_outcome(r: Result<NavigationProbe, Failure>) -> Result<
    NavigationProbe,
    FailureV,
> {
    match r {
        Ok(n) => Ok(n),
        Err(e) => Err(e@),
    }
}

pub fn navigation_probe(outcome: &PageOutcome) -> (r: Result<NavigationProbe, Failure>)
    ensures
        probe_outcome(r) == navigation_of(outcome@),
{
    match outcome {
        PageOutcome::Page(success) => match success.page.navigation_probe {
            Some(n) => Ok(n),
            None => Err(Failure::Browser(BrowserError::InvalidBridgeResponse)),
        },
        _ => if too_large(outcome) {
            Err(Failure::Browser(BrowserError::ResponseTooLarge))
        } else {
            Err(Failure::Browser(BrowserError::UnexpectedRedirect))
        },
    }
}

/// What is wrong with a navigation: its status is unknown or no success, or it ended
/// elsewhere.
pub open spec fn navigation_problem(status: Option<u64>, route_valid: bool) -> Option<
    BrowserErrorV,
> {
    match status {
        None => Some(BrowserErrorV::NavigationStatusUnavailable),
        Some(s) => if !(200 <= s < 400) {
            Some(BrowserErrorV::HttpStatus(s))
        } else if !route_valid {
            Some(BrowserErrorV::UnexpectedRedirect)
        } else {
            None
        },
    }
}

pub open spec fn browser_verdict(r: Result<(), Failure>) -> Option<FailureV> {
    match r {
        Ok(_) => None,
        Err(e) => Some(e@),
    }
}

pub open spec fn as_failure(e: Option<BrowserErrorV>) -> Option<FailureV> {
    match e {
        Some(e) => Some(browser_failure(e)),
        None => None,
    }
}

pub fn check_navigation(probe: &NavigationProbe) -> (r: Result<(), Failure>)
    ensures
        browser_verdict(r) == as_failure(navigation_problem(probe.status, probe.route_valid)),
{
    match probe.status {
        None => Err(Failure::Browser(BrowserError::NavigationStatusUnavailable)),
        Some(s) => if !(200 <= s && s < 400) {
            Err(Failure::Browser(BrowserError::HttpStatus(s)))
        } else if !probe.route_valid {
            Err(Failure::Browser(BrowserError::UnexpectedRedirect))
        } else {
            Ok(())
        },
    }
}

/// The region that is selected among the saved addresses.
pub open spec fn selected_region_of(o: PageOutcomeV) -> Result<Option<Seq<char>>, FailureV> {
    match o {
        PageOutcomeV::Page(p) => Ok(
            match p.region_probe {
                Some(q) => q.selected_region_label,
                None => None,
            },
        ),
        _ => Err(refused(o, BrowserErrorV::CaptchaOrBlocked)),
    }
}

pub open spec fn region_outcome(r: Result<Option<String>, Failure>) -> Result<
    Option<Seq<char>>,
    FailureV,
> {
    match r {
        Ok(s) => Ok(text::text_of(s)),
        Err(e) => Err(e@),
    }
}

pub fn selected_region(outcome: PageOutcome) -> (r: Result<Option<String>, Failure>)
    ensures
        region_outcome(r) == selected_region_of(outcome@),
{
    if too_large(&outcome) {
        return Err(Failure::Browser(BrowserError::ResponseTooLarge));
    }
    match outcome {
        PageOutcome::Page(success) => match success.page.region_probe {
            Some(p) => Ok(p.selected_region_label),
            None => Ok(None),
        },
        _ => Err(Failure::Browser(BrowserError::CaptchaOrBlocked)),
    }
}

/// How the return to the home page ended, after the saved addresses were read.
#[derive(Debug)]
pub enum Restored {
    Home,
    AlreadyClosed,
    Failed(Failure),
}

/// What is returned once the home page was asked for again, and whether the session must be
/// taken down first.
pub fn settle_region(restored: Restored, operation: Result<Option<String>, Failure>) -> (r: (
    bool,
    Result<Option<String>, Failure>,
))
    ensures
        r.0 == (restored is Failed),
        region_outcome(r.1) == (match restored {
            Restored::Home => region_outcome(operation),
            Restored::AlreadyClosed => if operation is Err {
                region_outcome(operation)
            } else {
                Err(browser_failure(BrowserErrorV::CleanupFailed))
            },
            Restored::Failed(e) => Err(e@),
        }),
{
    match restored {
        Restored::Home => (false, operation),
        Restored::AlreadyClosed => if operation.is_err() {
            (false, operation)
        } else {
            (false, Err(Failure::Browser(BrowserError::CleanupFailed)))
        },
        Restored::Failed(e) => (true, Err(e)),
    }
}

/// How many milliseconds of a cleanup are left; a cleanup without time has timed out.
pub fn cleanup_remaining(deadline_millis: u64, now_millis: u64) -> (r: Result<u64, Failure>)
    ensures
        match r {
            Ok(left) => now_millis < deadline_millis && left == deadline_millis - now_millis,
            Err(e) => deadline_millis <= now_millis && e@ == browser_failure(
                BrowserErrorV::CommandTimeout,
            ),
        },
{
    if now_millis < deadline_millis {
        Ok(deadline_millis - now_millis)
    } else {
        Err(Failure::Browser(BrowserError::CommandTimeout))
    }
}

/// Whether a failed read is tried once more, on a fresh session.
pub open spec fn tries_again(error: FailureV, cancelled: bool) -> bool {
    !cancelled && (error matches FailureV::Browser(e) && e.retries())
}

pub fn should_try_again(error: &Failure, cancelled: bool) -> (r: bool)
    ensures
        r == tries_again(error@, cancelled),
{
    match error {
        Failure::Browser(e) => !cancelled && e.should_retry(),
        _ => false,
    }
}

/// How far the session is from being usable.
#[derive(Clone, Copy, Debug, PartialEq, Eq, Structural)]
pub enum Readiness {
    Warm,
    Restart,
    Start,
}

pub const WARM_SECONDS: u64 = 590;

/// Whether a session can be used as it is, must be restarted because it was idle for too
/// long, or must be started.
pub fn readiness(ready: bool, idle_seconds: u64) -> (r: Readiness)
    ensures
        r == (if !ready {
            Readiness::Start
        } else if idle_seconds < WARM_SECONDS {
            Readiness::Warm
        } else {
            Readiness::Restart
        }),
{
    if !ready {
        Readiness::Start
    } else if idle_seconds < WARM_SECONDS {
        Readiness::Warm
    } else {
        Readiness::Restart
    }
}

/// What is done with the first outcome of a page script.
#[derive(Debug)]
pub enum Evaluated {
    /// Take the outcome; a page renews the warm session.
    Take { outcome: PageOutcome, renews: bool },
    /// Open the home page and run the script once more.
    Recover,
    /// Give up: the page that is bound to the script is not there.
    Refuse,
}

/// Whether a script may be run again on the home page: only where it is bound to no page.
pub open spec fn recovers_origin(mode: Seq<char>) -> bool {
    mode == "context"@ || mode == "fetch"@
}

/// What is done with the first outcome of a page script. A page with an unexpected origin
/// is never followed.
pub fn after_evaluation(mode: &str, outcome: PageOutcome) -> (r: Evaluated)
    ensures
        match r {
            Evaluated::Take { outcome: o, renews } => {
                &&& outcome@ != PageOutcomeV::Error(PageError::InvalidOrigin)
                &&& o@ == outcome@
                &&& renews == (outcome@ is Page)
            },
            Evaluated::Recover => outcome@ == PageOutcomeV::Error(PageError::InvalidOrigin)
                && recovers_origin(mode@),
            Evaluated::Refuse => outcome@ == PageOutcomeV::Error(PageError::InvalidOrigin)
                && !recovers_origin(mode@),
        },
{
    let foreign: bool = match &outcome {
        PageOutcome::Error(e) => matches!(e.error, PageError::InvalidOrigin),
        _ => false,
    };
    if !foreign {
        let renews: bool = matches!(outcome, PageOutcome::Page(_));
        return Evaluated::Take { outcome, renews };
    }
    if text::same(mode, "context") || text::same(mode, "fetch") {
        Evaluated::Recover
    } else {
        Evaluated::Refuse
    }
}

/// What is done with the outcome of a page script on the home page: an outcome, and whether
/// the session is ready again, or nothing.
pub fn after_recovery(outcome: PageOutcome) -> (r: Option<(PageOutcome, bool)>)
    ensures
        match r {
            Some(x) => {
                &&& outcome@ != PageOutcomeV::Error(PageError::InvalidOrigin)
                &&& x.0@ == outcome@
                &&& x.1 == (outcome@ is Page)
            },
            None => outcome@ == PageOutcomeV::Error(PageError::InvalidOrigin),
        },
{
    let foreign: bool = match &outcome {
        PageOutcome::Error(e) => matches!(e.error, PageError::InvalidOrigin),
        _ => false,
    };
    if foreign {
        None
    } else {
        let ready: bool = matches!(outcome, PageOutcome::Page(_));
        Some((outcome, ready))
    }
}

/// Where the observation of the context stands: on the page at hand or on the home page,
/// and how often it was tried there.
#[derive(Clone, Copy, Debug, PartialEq, Eq, Structural)]
pub struct ContextProbe {
    pub at_home: bool,
    pub attempt: u8,
}

impl ContextProbe {
    pub open spec fn valid(self) -> bool {
        self.attempt < 3
    }

    /// How many observations can still follow.
    pub open spec fn left(self) -> nat {
        if self.at_home {
            (2 - self.attempt) as nat
        } else {
            (5 - self.attempt) as nat
        }
    }

    pub fn first() -> (r: ContextProbe)
        ensures
            r.valid(),
            !r.at_home,
            r.attempt == 0,
    {
        ContextProbe { at_home: false, attempt: 0 }
    }
}

/// What is done with an observation of the context.
#[derive(Debug)]
pub enum ContextStep {
    Done(FilteredPage),
    /// Wait and observe again.
    Wait(ContextProbe),
    /// Open the home page, wait and observe again.
    Home(ContextProbe),
    Failed(Failure),
}

/// Whether a page may still be rendering its header.
pub open spec fn is_transient(page: FilteredPageV) -> bool {
    match page.context_observation {
        None => true,
        Some(c) => c.signature is None || c.access_state == "unknown"@ || c.account_state
            == "unknown"@,
    }
}

fn transient(page: &FilteredPage) -> (r: bool)
    ensures
        r == is_transient(page@),
{
    match &page.context_observation {
        None => true,
        Some(c) => c.signature.is_none() || text::same(c.access_state.as_str(), "unknown")
            || text::same(c.account_state.as_str(), "unknown"),
    }
}

/// What is done with an observation of the context. Fragment pages can omit the header, so
/// it is observed up to three times on the page at hand, then up to three times on the
/// home page; what the last of them shows is taken as it is.
pub fn after_context(outcome: PageOutcome, probe: ContextProbe) -> (r: ContextStep)
    requires
        probe.valid(),
    ensures
        match r {
            ContextStep::Done(page) => {
                &&& outcome@ == PageOutcomeV::Page(page@)
                &&& !is_transient(page@) || (probe.attempt == 2 && probe.at_home)
            },
            ContextStep::Wait(next) => {
                &&& outcome@ matches PageOutcomeV::Page(page) && is_transient(page)
                &&& next == (ContextProbe { attempt: (probe.attempt + 1) as u8, ..probe })
                &&& probe.attempt < 2
            },
            ContextStep::Home(next) => {
                &&& outcome@ matches PageOutcomeV::Page(page) && is_transient(page)
                &&& probe.attempt == 2 && !probe.at_home
                &&& next == (ContextProbe { at_home: true, attempt: 0 })
            },
            ContextStep::Failed(e) => outcome@ !is Page && e@ == refused(
                outcome@,
                BrowserErrorV::CaptchaOrBlocked,
            ),
        },
        r matches ContextStep::Wait(next) ==> next.valid() && next.left() < probe.left(),
        r matches ContextStep::Home(next) ==> next.valid() && next.left() < probe.left(),
{
    if too_large(&outcome) {
        return ContextStep::Failed(Failure::Browser(BrowserError::ResponseTooLarge));
    }
    match outcome {
        PageOutcome::Page(success) => {
            if transient(&success.page) {
                if probe.attempt < 2 {
                    return ContextStep::Wait(
                        ContextProbe { at_home: probe.at_home, attempt: probe.attempt + 1 },
                    );
                }
                if !probe.at_home {
                    return ContextStep::Home(ContextProbe { at_home: true, attempt: 0 });
                }
            }
            ContextStep::Done(success.page)
        },
        _ => ContextStep::Failed(Failure::Browser(BrowserError::CaptchaOrBlocked)),
    }
}

/// The address of a path on the site.
pub open spec fn target_of(path: Seq<char>) -> Result<Seq<char>, FailureV> {
    match (
        address::parsed_url("https://www.ozon.ru/"@),
        address::joined_text("https://www.ozon.ru/"@, path),
    ) {
        (Err(e), _) => Err(FailureV::Message(e)),
        (_, Err(e)) => Err(FailureV::Message(e)),
        (Ok(home), Ok(joined)) => match address::parsed_url(joined) {
            Err(e) => Err(FailureV::Message(e)),
            Ok(a) => if a.origin == home.origin && a.origin != "null"@ {
                Ok(a.text)
            } else {
                Err(browser_failure(BrowserErrorV::InvalidOrigin))
            },
        },
    }
}

/// The address of a path on the site; a path that leads elsewhere is refused.
pub fn resolve_target(path: &str) -> (r: Result<String, Failure>)
    ensures
        failure::outcome(r) == target_of(path@),
{
    let base: Address = match address::parse_url(home()) {
        Ok(a) => a,
        Err(e) => return Err(Failure::Message(e)),
    };
    let joined: String = match address::join_text(home(), path) {
        Ok(t) => t,
        Err(e) => return Err(Failure::Message(e)),
    };
    let a: Address = match address::parse_url(joined.as_str()) {
        Ok(a) => a,
        Err(e) => return Err(Failure::Message(e)),
    };
    if text::same(a.origin.as_str(), base.origin.as_str()) && !text::same(
        a.origin.as_str(),
        "null",
    ) {
        Ok(a.text)
    } else {
        Err(Failure::Browser(BrowserError::InvalidOrigin))
    }
}

/// What is done with the answer to a fetch from within a page.
#[derive(Debug)]
pub enum Composed {
    Done(Json),
    /// Open the page itself: it can still work where the fetch is blocked.
    Open,
    Failed(Failure),
}

pub fn after_composer(outcome: PageOutcome) -> (r: Composed)
    ensures
        match outcome@ {
            PageOutcomeV::Page(p) => r matches Composed::Done(j) && j@ == p.json(),
            PageOutcomeV::Error(PageError::ResponseTooLarge) => r matches Composed::Failed(e)
                && e@ == browser_failure(BrowserErrorV::ResponseTooLarge),
            PageOutcomeV::Error(_) => r is Open,
            PageOutcomeV::Status(s) => if s == 403 || s == 307 {
                r is Open
            } else {
                r matches Composed::Failed(e) && e@ == browser_failure(BrowserErrorV::HttpStatus(s))
            },
        },
{
    match outcome {
        PageOutcome::Page(success) => Composed::Done(success.page.into_value()),
        PageOutcome::Error(e) => match e.error {
            PageError::ResponseTooLarge => Composed::Failed(
                Failure::Browser(BrowserError::ResponseTooLarge),
            ),
            _ => Composed::Open,
        },
        PageOutcome::Status(s) => if s.status == 403 || s.status == 307 {
            Composed::Open
        } else {
            Composed::Failed(Failure::Browser(BrowserError::HttpStatus(s.status)))
        },
    }
}

/// What the page that was opened says of itself: its address and its HTTP status.
pub open spec fn opened_problem(target: Seq<char>, navigation: JsonV) -> Option<BrowserErrorV> {
    let url = match navigation.field("url"@) {
        JsonV::Text(s) => s,
        _ => ""@,
    };
    navigation_problem(
        navigation.field("status"@).as_unsigned(),
        match (address::parsed_url(target), address::parsed_url(url)) {
            (Ok(t), Ok(f)) => is_requested(t, f),
            _ => false,
        },
    )
}

/// Holds the page that was opened to what was asked for.
pub fn after_opening(target: &str, navigation: &Json) -> (r: Result<(), Failure>)
    ensures
        browser_verdict(r) == as_failure(opened_problem(target@, navigation@)),
{
    let url: &str = match navigation.field("url").as_str() {
        Some(s) => s,
        None => "",
    };
    let probe: NavigationProbe = NavigationProbe {
        route_valid: is_requested_page(target, url),
        status: navigation.field("status").as_u64(),
    };
    check_navigation(&probe)
}

/// What is made of the widgets of the page that was opened.
pub fn after_widgets(outcome: PageOutcome) -> (r: Result<Json, Failure>)
    ensures
        failure::outcome(r) == (match outcome@ {
            PageOutcomeV::Page(p) => Ok(p.json()),
            _ => Err(refused(outcome@, BrowserErrorV::CaptchaOrBlocked)),
        }),
{
    if too_large(&outcome) {
        return Err(Failure::Browser(BrowserError::ResponseTooLarge));
    }
    match outcome {
        PageOutcome::Page(success) => Ok(success.page.into_value()),
        _ => Err(Failure::Browser(BrowserError::CaptchaOrBlocked)),
    }
}

/// The outcome that the page script handed back.
pub fn read_outcome(response: &Json) -> (r: Result<PageOutcome, Failure>)
    ensures
        failure::outcome(r) == (match crate::page_outcome::outcome_in(response@) {
            Some(o) => Ok(o),
            None => Err(browser_failure(BrowserErrorV::InvalidBridgeResponse)),
        }),
{
    match PageOutcome::from_json(response) {
        Some(o) => Ok(o),
        None => Err(Failure::Browser(BrowserError::InvalidBridgeResponse)),
    }
}

} // verus!
