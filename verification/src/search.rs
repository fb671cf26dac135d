//! Bounded, stateless continuation over observed public search pages.
//!
//! Paginator links are promoted from widget-fragment to full-document requests
//! by removing only `paginator_token`, `layout_page_index` and `layout_container`.
//! Observed page numbers and semantic continuation state remain unchanged.

use crate::address::{self, Address, AddressV};
use crate::double;
use crate::failure::{self, Failure, FailureV};
use crate::json::{self, Json, JsonV};
use crate::members;
use crate::model::{self, ActiveFilter, ActiveFilterValue, SearchContext, SearchCoverage, SearchItem, SortOption, Warning};
use crate::parse;
use crate::text;
use crate::widgets;
use vstd::prelude::*;

verus! {

pub const MAX_URL: usize = 24_000;

pub const MAX_CURSOR: usize = 48_000;

pub const MAX_SEEN: usize = 500;

pub const MAX_CALLS: usize = 100;

pub const MAX_OFFSET: usize = 10_000;

pub open spec fn is_word(c: char) -> bool {
    text::is_ascii_letter(c) || text::is_digit(c) || c == '_'
}

/// A parameter name that may stand in a search URL.
pub open spec fn is_safe_key(key: Seq<char>) -> bool {
    &&& 0 < key.len()
    &&& text::utf8_len(key) <= 100
    &&& forall|i: int| 0 <= i < key.len() ==> is_word(#[trigger] key[i])
}

fn safe_key(key: &str) -> (r: bool)
    ensures
        r == is_safe_key(key@),
{
    if key.is_empty() || text::utf8_length(key) > 100 {
        return false;
    }
    for c in it: key.chars()
        invariant
            it.seq() == key@,
            forall|i: int| 0 <= i < it.index() ==> is_word(#[trigger] key@[i]),
    {
        if !(('a' <= c && c <= 'z') || ('A' <= c && c <= 'Z') || text::is_digit_char(c) || c
            == '_') {
            assert(!is_word(key@[it.index()]));
            return false;
        }
    }
    true
}

/// Text that a search URL may be read from: short enough, without control characters
/// or backslashes.
pub open spec fn is_plain_input(s: Seq<char>) -> bool {
    &&& text::utf8_len(s) <= MAX_URL
    &&& forall|i: int| 0 <= i < s.len() ==> !text::is_control(#[trigger] s[i]) && s[i] != '\\'
}

/// A path before normalization: without escapes, empty segments or dot segments.
pub open spec fn is_plain_path(path: Seq<char>) -> bool {
    &&& !path.contains('%')
    &&& !text::has(path, "//"@)
    &&& !text::split(path, '/').contains("."@)
    &&& !text::split(path, '/').contains(".."@)
}

/// What stands before the first occurrence of a character.
pub open spec fn head(s: Seq<char>, c: char) -> Seq<char> {
    text::split(s, c)[0]
}

/// A text without the name of the site, as often as it starts with it.
pub open spec fn below_site(s: Seq<char>) -> Seq<char>
    decreases s.len(),
    via below_site_ends
{
    match text::without_prefix(s, "https://www.ozon.ru"@) {
        Some(path) => below_site(path),
        None => s,
    }
}

#[via_fn]
proof fn below_site_ends(s: Seq<char>) {
    reveal_strlit("https://www.ozon.ru");
}

fn cut_site(s: &str) -> (r: String)
    ensures
        r@ == below_site(s@),
    decreases s@.len(),
{
    proof {
        reveal_strlit("https://www.ozon.ru");
    }
    match text::strip_prefix(s, "https://www.ozon.ru") {
        Some(path) => cut_site(path.as_str()),
        None => s.to_owned(),
    }
}

pub open spec fn is_site_authority(a: AddressV) -> bool {
    address::is_site(a)
}

pub open spec fn is_segment(s: Seq<char>) -> bool {
    &&& 0 < s.len()
    &&& forall|i: int| 0 <= i < s.len() ==> is_word(#[trigger] s[i]) || s[i] == '-'
}

/// A public search or category route.
pub open spec fn is_search_route(path: Seq<char>) -> bool {
    ||| path == "/search/"@
    ||| {
        &&& text::starts(path, "/category/"@)
        &&& text::ends(path, "/"@)
        &&& path.len() > 10
        &&& forall|i: int|
            0 <= i < text::split(path.subrange(10, path.len() - 1), '/').len() ==> is_segment(
                #[trigger] text::split(path.subrange(10, path.len() - 1), '/')[i],
            )
    }
}

pub open spec fn is_parameter_value(key: Seq<char>, value: Seq<char>) -> bool {
    &&& if key == "text"@ {
        text::utf16_len(value) <= 2000
    } else {
        text::utf8_len(value) <= 4096
    }
    &&& forall|i: int| 0 <= i < value.len() ==> !text::is_control(#[trigger] value[i])
}

/// A parameter that would let a URL name another place or an action.
pub open spec fn is_forbidden_key(key: Seq<char>) -> bool {
    ||| key == "url"@
    ||| key == "redirect"@
    ||| key == "redirect_uri"@
    ||| key == "return_url"@
    ||| key == "callback"@
    ||| key == "action"@
    ||| key == "method"@
    ||| key == "endpoint"@
}

/// Whether a key stands among the first `n` pairs.
pub open spec fn has_key_before(
    pairs: Seq<(Seq<char>, Seq<char>)>,
    n: int,
    key: Seq<char>,
) -> bool {
    exists|i: int| 0 <= i < n && (#[trigger] pairs[i]).0 == key
}

/// What is wrong with the first parameter, from the `i`-th on, that a search URL may not have.
pub open spec fn parameter_problem(
    pairs: Seq<(Seq<char>, Seq<char>)>,
    i: int,
) -> Option<FailureV>
    decreases pairs.len() - i,
{
    if i < 0 || i >= pairs.len() {
        None
    } else if !(is_safe_key(pairs[i].0) && !has_key_before(pairs, i, pairs[i].0)
        && is_parameter_value(pairs[i].0, pairs[i].1)) {
        Some(FailureV::Message("Invalid or duplicate search parameter"@))
    } else if is_forbidden_key(pairs[i].0) {
        Some(FailureV::Message("Unsupported search parameter"@))
    } else {
        parameter_problem(pairs, i + 1)
    }
}

/// A parameter that stays in a normalized URL.
pub open spec fn is_lasting_key() -> spec_fn(Seq<char>) -> bool {
    |key: Seq<char>| key != "__rr"@ && key != "at"@
}

/// The normalized text of a public search or category URL.
pub open spec fn normalized_search_url(input: Seq<char>) -> Result<Seq<char>, FailureV> {
    if !is_plain_input(input) {
        Err(FailureV::Message("Invalid search URL"@))
    } else if !text::starts(input, "https://www.ozon.ru/"@) {
        Err(FailureV::Message("Expected https://www.ozon.ru search/category URL"@))
    } else if !is_plain_path(below_site(head(input, '?'))) {
        Err(FailureV::Message("Invalid search path"@))
    } else {
        match address::parsed_url(input) {
            Err(e) => Err(FailureV::Message(e)),
            Ok(a) => if !is_site_authority(a) {
                Err(FailureV::Message("Invalid search URL authority"@))
            } else if !is_search_route(a.path) {
                Err(FailureV::Message("Expected public search/category route"@))
            } else if a.pairs.len() > 100 {
                Err(FailureV::Message("Too many search parameters"@))
            } else {
                match parameter_problem(a.pairs, 0) {
                    Some(e) => Err(e),
                    None => Ok(address::rebuilt(input, address::kept(a.pairs, is_lasting_key()))),
                }
            },
        }
    }
}

/// Whether a text is a search URL as normalization leaves it: one of the site and of a search
/// route, with parameters that last, each once, and written in the one way.
pub open spec fn is_normal(u: Seq<char>) -> bool {
    address::parsed_url(u) matches Ok(a) && {
        &&& is_site_authority(a)
        &&& is_search_route(a.path)
        &&& a.pairs.len() <= 100
        &&& parameter_problem(a.pairs, 0) is None
        &&& address::kept(a.pairs, is_lasting_key()) == a.pairs
        &&& address::is_written(u, a.path, a.pairs)
    }
}

/// Whether a text is a normalized search URL that is short enough to be normalized again.
pub open spec fn is_settled(u: Seq<char>) -> bool {
    is_normal(u) && text::utf8_len(u) <= MAX_URL
}

/// What a text made of two has in its first piece.
proof fn lemma_head(s: Seq<char>, t: Seq<char>, c: char)
    requires
        !s.contains(c),
    ensures
        head(s, c) == s,
        head(s + seq![c] + t, c) == s,
        text::split(s, c).len() == 1,
    decreases s.len() + t.len(),
{
    if t.len() > 0 {
        let whole = s + seq![c] + t;
        assert(whole.drop_last() =~= s + seq![c] + t.drop_last());
        lemma_head(s, t.drop_last(), c);
        lemma_split_is_not_empty(whole.drop_last(), c);
        assert(whole.last() == t.last());
        lemma_split_grows(s, t, c);
    } else {
        assert(s + seq![c] + t =~= s.push(c));
        assert(s.push(c).drop_last() =~= s);
        lemma_split_of_one(s, c);
    }
}

proof fn lemma_split_is_not_empty(s: Seq<char>, c: char)
    ensures
        text::split(s, c).len() >= 1,
    decreases s.len(),
{
    if s.len() > 0 {
        lemma_split_is_not_empty(s.drop_last(), c);
    }
}

proof fn lemma_split_of_one(s: Seq<char>, c: char)
    requires
        !s.contains(c),
    ensures
        text::split(s, c) == seq![s],
    decreases s.len(),
{
    if s.len() > 0 {
        let rest = s.drop_last();
        assert forall|i: int| 0 <= i < rest.len() implies rest[i] != c by {
            assert(s.contains(s[i]));
        }
        assert(s.contains(s.last()));
        lemma_split_of_one(rest, c);
        assert(text::split(rest, c).drop_last() =~= Seq::empty());
        assert(rest.push(s.last()) =~= s);
        assert(text::split(s, c) =~= seq![s]);
    } else {
        assert(s =~= Seq::empty());
    }
}

proof fn lemma_split_grows(s: Seq<char>, t: Seq<char>, c: char)
    requires
        !s.contains(c),
    ensures
        text::split(s + seq![c] + t, c).len() >= 2,
    decreases t.len(),
{
    let whole = s + seq![c] + t;
    if t.len() > 0 {
        assert(whole.drop_last() =~= s + seq![c] + t.drop_last());
        lemma_split_grows(s, t.drop_last(), c);
    } else {
        assert(whole =~= s.push(c));
        assert(s.push(c).drop_last() =~= s);
        lemma_split_of_one(s, c);
    }
}

proof fn lemma_pieces_are_of(s: Seq<char>, c: char, k: int, x: char)
    requires
        0 <= k < text::split(s, c).len(),
        text::split(s, c)[k].contains(x),
    ensures
        s.contains(x),
    decreases s.len(),
{
    if s.len() > 0 {
        let rest = s.drop_last();
        let pieces = text::split(rest, c);
        lemma_split_is_not_empty(rest, c);
        if s.last() != x {
            if s.last() == c {
                if k < pieces.len() {
                    lemma_pieces_are_of(rest, c, k, x);
                }
            } else if k < pieces.len() - 1 {
                lemma_pieces_are_of(rest, c, k, x);
            } else {
                let i = choose|i: int|
                    0 <= i < pieces.last().push(s.last()).len() && pieces.last().push(s.last())[i]
                        == x;
                assert(pieces.last()[i] == x);
                lemma_pieces_are_of(rest, c, pieces.len() - 1, x);
            }
            let i = choose|i: int| 0 <= i < rest.len() && rest[i] == x;
            assert(s[i] == x);
        } else {
            assert(s[s.len() - 1] == x);
        }
    }
}

/// Between two neighbouring slashes stands an empty piece.
proof fn lemma_empty_piece(s: Seq<char>, i: int)
    requires
        0 <= i < s.len(),
        s[i] == '/',
        i + 1 == s.len() || s[i + 1] == '/',
    ensures
        exists|k: int|
            0 <= k < text::split(s, '/').len() && (#[trigger] text::split(s, '/')[k]).len() == 0,
    decreases s.len(),
{
    let rest = s.drop_last();
    let pieces = text::split(rest, '/');
    lemma_split_is_not_empty(rest, '/');
    if i + 1 == s.len() {
        assert(text::split(s, '/')[pieces.len() as int].len() == 0);
    } else if i + 2 == s.len() {
        assert(text::split(s, '/')[pieces.len() as int].len() == 0);
    } else {
        lemma_empty_piece(rest, i);
        let k = choose|k: int| 0 <= k < pieces.len() && (#[trigger] pieces[k]).len() == 0;
        if s.last() == '/' {
            assert(text::split(s, '/')[k].len() == 0);
        } else if k < pieces.len() - 1 {
            assert(text::split(s, '/')[k].len() == 0);
        } else {
            lemma_closed_piece(rest, i);
            let k = choose|k: int| 0 <= k < pieces.len() - 1 && (#[trigger] pieces[k]).len() == 0;
            assert(text::split(s, '/')[k].len() == 0);
        }
    }
}

/// The empty piece between two slashes is not the last one.
proof fn lemma_closed_piece(s: Seq<char>, i: int)
    requires
        0 <= i,
        i + 1 < s.len(),
        s[i] == '/',
        s[i + 1] == '/',
    ensures
        exists|k: int|
            0 <= k < text::split(s, '/').len() - 1 && (#[trigger] text::split(s, '/')[k]).len()
                == 0,
    decreases s.len(),
{
    let rest = s.drop_last();
    let pieces = text::split(rest, '/');
    lemma_split_is_not_empty(rest, '/');
    if i + 2 == s.len() {
        assert(rest.last() == '/');
        assert(pieces.last().len() == 0);
        assert(text::split(s, '/')[pieces.len() - 1].len() == 0);
    } else {
        lemma_closed_piece(rest, i);
        let k = choose|k: int| 0 <= k < pieces.len() - 1 && (#[trigger] pieces[k]).len() == 0;
        assert(text::split(s, '/')[k].len() == 0);
    }
}

proof fn lemma_starts_with_slash(s: Seq<char>)
    requires
        s.len() == 0 || s[0] == '/',
    ensures
        text::split(s, '/').len() > 0,
        text::split(s, '/')[0].len() == 0,
    decreases s.len(),
{
    if s.len() > 0 {
        let rest = s.drop_last();
        lemma_starts_with_slash(rest);
        if s.len() > 1 {
            if s.last() != '/' {
                lemma_split_grows(Seq::empty(), rest.skip(1), '/');
                assert(Seq::<char>::empty() + seq!['/'] + rest.skip(1) =~= rest);
            }
        }
    }
}

/// The path of a search is bare, and may be read from a text as it is.
proof fn lemma_route_is_plain(path: Seq<char>)
    requires
        is_search_route(path),
    ensures
        address::is_bare_path(path),
        is_plain_path(path),
{
    reveal_strlit("/search/");
    reveal_strlit("/category/");
    reveal_strlit("/");
    reveal_strlit("//");
    reveal_strlit(".");
    reveal_strlit("..");
    if path != "/search/"@ {
        let inner = path.subrange(10, path.len() - 1);
        let pieces = text::split(inner, '/');
        let start = path.subrange(0, 10);
        assert(start == "/category/"@);
        let end = path.subrange(path.len() - 1, path.len() as int);
        assert(end == "/"@);
        assert(path.last() == end[0]);
        assert(path[0] == start[0]);
        assert forall|i: int| 0 <= i < path.len() implies address::is_path_char(
            #[trigger] path[i],
        ) by {
            if i < 10 {
                assert(path[i] == start[i]);
            } else if i < path.len() - 1 {
                assert(inner[i - 10] == path[i]);
                lemma_route_char(inner, i - 10);
            }
        }
        assert forall|i: int| 0 <= i < path.len() - 1 implies !(path[i] == '/' && #[trigger] path[i
            + 1] == '/') by {
            if path[i] == '/' && path[i + 1] == '/' {
                if i < 9 {
                    assert(path[i] == start[i] && path[i + 1] == start[i + 1]);
                } else if i == 9 {
                    if inner.len() > 0 {
                        assert(inner[0] == path[10]);
                    }
                    lemma_starts_with_slash(inner);
                    assert(is_segment(pieces[0]));
                } else {
                    assert(inner[i - 10] == path[i]);
                    if i + 1 < path.len() - 1 {
                        assert(inner[i - 9] == path[i + 1]);
                    }
                    lemma_empty_piece(inner, i - 10);
                    let k = choose|k: int| 0 <= k < pieces.len() && (#[trigger] pieces[k]).len() == 0;
                    assert(is_segment(pieces[k]));
                }
            }
        }
    } else {
        assert forall|i: int| 0 <= i < path.len() implies address::is_path_char(
            #[trigger] path[i],
        ) by {
        }
    }
    lemma_no_double_slash(path, 0);
    if path.contains('%') {
        let i = choose|i: int| 0 <= i < path.len() && path[i] == '%';
        assert(address::is_path_char(path[i]));
    }
    assert forall|k: int| 0 <= k < text::split(path, '/').len() implies !(
    #[trigger] text::split(path, '/')[k]).contains('.') by {
        if text::split(path, '/')[k].contains('.') {
            lemma_pieces_are_of(path, '/', k, '.');
            let i = choose|i: int| 0 <= i < path.len() && path[i] == '.';
            assert(address::is_path_char(path[i]));
        }
    }
    assert("."@[0] == '.' && ".."@[0] == '.');
    assert("."@.contains('.') && ".."@.contains('.'));
}

proof fn lemma_route_char(inner: Seq<char>, i: int)
    requires
        0 <= i < inner.len(),
        forall|k: int|
            0 <= k < text::split(inner, '/').len() ==> is_segment(
                #[trigger] text::split(inner, '/')[k],
            ),
    ensures
        is_word(inner[i]) || inner[i] == '-' || inner[i] == '/',
{
    if inner[i] != '/' {
        lemma_char_is_in_piece(inner, i);
        let (k, j) = choose|k: int, j: int|
            0 <= k < text::split(inner, '/').len() && 0 <= j < text::split(inner, '/')[k].len()
                && #[trigger] text::split(inner, '/')[k][j] == inner[i];
        assert(is_segment(text::split(inner, '/')[k]));
    }
}

proof fn lemma_char_is_in_piece(s: Seq<char>, i: int)
    requires
        0 <= i < s.len(),
        s[i] != '/',
    ensures
        exists|k: int, j: int|
            0 <= k < text::split(s, '/').len() && 0 <= j < text::split(s, '/')[k].len()
                && #[trigger] text::split(s, '/')[k][j] == s[i],
    decreases s.len(),
{
    let rest = s.drop_last();
    let pieces = text::split(rest, '/');
    let all = text::split(s, '/');
    lemma_split_is_not_empty(rest, '/');
    if i == s.len() - 1 {
        let last = pieces.last().push(s.last());
        assert(all[pieces.len() - 1] == last);
        assert(all[pieces.len() - 1][last.len() - 1] == s[i]);
    } else {
        lemma_char_is_in_piece(rest, i);
        let (k, j) = choose|k: int, j: int|
            0 <= k < pieces.len() && 0 <= j < pieces[k].len() && #[trigger] pieces[k][j] == rest[i];
        assert(all[k][j] == s[i]);
    }
}

proof fn lemma_no_double_slash(path: Seq<char>, from: int)
    requires
        0 <= from,
        forall|i: int|
            0 <= i < path.len() - 1 ==> !(path[i] == '/' && #[trigger] path[i + 1] == '/'),
    ensures
        text::find_from(path, "//"@, from) is None,
    decreases path.len() + 1 - from,
{
    reveal_strlit("//");
    if from + "//"@.len() <= path.len() {
        if text::occurs_at(path, "//"@, from) {
            let two = path.subrange(from, from + "//"@.len());
            assert(two[0] == path[from] && two[1] == path[from + 1]);
        }
        lemma_no_double_slash(path, from + 1);
    }
}

/// A path does not start with the name of the site.
proof fn lemma_path_is_below(path: Seq<char>)
    requires
        path.len() > 0,
        path[0] == '/',
    ensures
        below_site(path) == path,
{
    reveal_strlit("https://www.ozon.ru");
    let site = "https://www.ozon.ru"@;
    if text::starts(path, site) {
        assert(path.subrange(0, site.len() as int)[0] == site[0]);
    }
}

/// A search URL that was normalized stays as it is when it is normalized again.
pub proof fn normalized_urls_stay(u: Seq<char>)
    requires
        is_settled(u),
    ensures
        normalized_search_url(u) == Ok::<Seq<char>, FailureV>(u),
        below_site(u).len() + "https://www.ozon.ru"@.len() == u.len(),
        u == "https://www.ozon.ru"@ + below_site(u),
        text::starts(below_site(u), "/search/"@) || text::starts(below_site(u), "/category/"@),
{
    let a = address::parsed_url(u)->Ok_0;
    let site = "https://www.ozon.ru"@;
    reveal_strlit("https://www.ozon.ru");
    reveal_strlit("https://www.ozon.ru/");
    reveal_strlit("?");
    reveal_strlit("/search/");
    reveal_strlit("/category/");
    lemma_route_is_plain(a.path);
    let front = site + a.path;
    let tail = match a.query {
        Some(q) => "?"@ + q,
        None => Seq::empty(),
    };
    assert(u =~= front + tail);
    assert forall|i: int| 0 <= i < u.len() implies !text::is_control(#[trigger] u[i]) && u[i]
        != '\\' by {
        if i < site.len() {
            assert(u[i] == site[i]);
        } else if i < front.len() {
            assert(u[i] == a.path[i - site.len()]);
            assert(address::is_path_char(u[i]));
        } else {
            let q = a.query->Some_0;
            if i > front.len() {
                assert(u[i] == q[i - front.len() - 1]);
                assert(address::is_form_char(u[i]));
            }
        }
    }
    assert(u.subrange(0, site.len() as int) =~= site);
    assert(u.subrange(0, "https://www.ozon.ru/"@.len() as int) =~= "https://www.ozon.ru/"@) by {
        assert(u[site.len() as int] == a.path[0]);
    }
    assert forall|i: int| 0 <= i < front.len() implies front[i] != '?' by {
        if i < site.len() {
            assert(front[i] == site[i]);
        } else {
            assert(address::is_path_char(a.path[i - site.len()]));
        }
    }
    assert(!front.contains('?'));
    match a.query {
        Some(q) => {
            lemma_head(front, q, '?');
            assert("?"@ =~= seq!['?']);
            assert(u =~= front + seq!['?'] + q);
        },
        None => {
            lemma_head(front, Seq::empty(), '?');
            assert(u =~= front);
        },
    }
    assert(front.subrange(0, site.len() as int) =~= site);
    assert(front.subrange(site.len() as int, front.len() as int) =~= a.path);
    lemma_path_is_below(a.path);
    assert(below_site(front) == a.path);
    let below = u.subrange(site.len() as int, u.len() as int);
    assert(u =~= site + below);
    assert(below =~= a.path + tail);
    lemma_path_is_below(below);
    assert(below_site(u) == below);
    if a.path == "/search/"@ {
        assert(below.subrange(0, "/search/"@.len() as int) =~= "/search/"@);
    } else {
        assert(a.path.subrange(0, "/category/"@.len() as int) =~= "/category/"@);
        assert(below.subrange(0, "/category/"@.len() as int) =~= "/category/"@);
    }
}

/// Whether a text is a URL of the site with parameters that last, written in the one way.
spec fn is_lasting(u: Seq<char>) -> bool {
    address::parsed_url(u) matches Ok(a) && {
        &&& is_site_authority(a)
        &&& address::kept(a.pairs, is_lasting_key()) == a.pairs
        &&& address::is_written(u, a.path, a.pairs)
    }
}

proof fn lemma_lasting_is_settled(u: Seq<char>)
    requires
        is_lasting(u),
        normalized_search_url(u) is Ok,
    ensures
        normalized_search_url(u) == Ok::<Seq<char>, FailureV>(u),
        is_settled(u),
{
}

proof fn lemma_all_kept(pairs: Seq<(Seq<char>, Seq<char>)>, wanted: spec_fn(Seq<char>) -> bool)
    requires
        forall|i: int| 0 <= i < pairs.len() ==> wanted((#[trigger] pairs[i]).0),
    ensures
        address::kept(pairs, wanted) == pairs,
    decreases pairs.len(),
{
    if pairs.len() > 0 {
        let rest = pairs.drop_last();
        assert forall|i: int| 0 <= i < rest.len() implies wanted((#[trigger] rest[i]).0) by {
            assert(pairs[i] == rest[i]);
        }
        lemma_all_kept(rest, wanted);
        assert(rest.push(pairs.last()) =~= pairs);
    }
}

/// Parameters that last still do when some of them are kept.
proof fn lemma_some_last(pairs: Seq<(Seq<char>, Seq<char>)>, wanted: spec_fn(Seq<char>) -> bool)
    requires
        address::kept(pairs, is_lasting_key()) == pairs,
    ensures
        forall|i: int|
            0 <= i < address::kept(pairs, wanted).len() ==> is_lasting_key()(
                (#[trigger] address::kept(pairs, wanted)[i]).0,
            ),
        address::kept(address::kept(pairs, wanted), is_lasting_key()) == address::kept(
            pairs,
            wanted,
        ),
{
    lemma_kept(pairs, is_lasting_key());
    lemma_kept(pairs, wanted);
    let some = address::kept(pairs, wanted);
    assert forall|i: int| 0 <= i < some.len() implies is_lasting_key()(
        (#[trigger] some[i]).0,
    ) by {
        let k = choose|k: int| 0 <= k < pairs.len() && pairs[k] == some[i];
        assert(is_lasting_key()(pairs[k].0));
    }
    lemma_all_kept(some, is_lasting_key());
}

/// Whether the parameter at a place may stand there.
spec fn is_parameter(pairs: Seq<(Seq<char>, Seq<char>)>, i: int) -> bool {
    &&& is_safe_key(pairs[i].0)
    &&& !has_key_before(pairs, i, pairs[i].0)
    &&& is_parameter_value(pairs[i].0, pairs[i].1)
    &&& !is_forbidden_key(pairs[i].0)
}

proof fn lemma_parameters(pairs: Seq<(Seq<char>, Seq<char>)>, i: int)
    requires
        0 <= i,
    ensures
        parameter_problem(pairs, i) is None <==> (forall|k: int|
            i <= k < pairs.len() ==> #[trigger] is_parameter(pairs, k)),
    decreases pairs.len() - i,
{
    if i < pairs.len() {
        lemma_parameters(pairs, i + 1);
        if is_parameter(pairs, i) {
            assert forall|k: int| i <= k < pairs.len() && parameter_problem(pairs, i)
                is None implies #[trigger] is_parameter(pairs, k) by {
            }
        }
    }
}

/// What holds of pairs of which only some are kept.
proof fn lemma_kept(pairs: Seq<(Seq<char>, Seq<char>)>, wanted: spec_fn(Seq<char>) -> bool)
    ensures
        ({
            let some = address::kept(pairs, wanted);
            &&& some.len() <= pairs.len()
            &&& forall|j: int|
                0 <= j < some.len() ==> wanted((#[trigger] some[j]).0) && pairs.contains(some[j])
            &&& address::kept(some, wanted) == some
        }),
    decreases pairs.len(),
{
    if pairs.len() > 0 {
        let rest = pairs.drop_last();
        let before = address::kept(rest, wanted);
        let some = address::kept(pairs, wanted);
        lemma_kept(rest, wanted);
        assert forall|j: int| 0 <= j < some.len() implies wanted((#[trigger] some[j]).0)
            && pairs.contains(some[j]) by {
            if j < before.len() {
                assert(some[j] == before[j]);
                let i = choose|i: int| 0 <= i < rest.len() && rest[i] == before[j];
                assert(pairs[i] == some[j]);
            } else {
                assert(pairs[pairs.len() - 1] == some[j]);
            }
        }
        if wanted(pairs.last().0) {
            assert(some.drop_last() =~= before);
        }
    }
}

proof fn lemma_kept_parameters(pairs: Seq<(Seq<char>, Seq<char>)>, wanted: spec_fn(Seq<char>) -> bool)
    requires
        forall|k: int| 0 <= k < pairs.len() ==> #[trigger] is_parameter(pairs, k),
    ensures
        forall|k: int|
            0 <= k < address::kept(pairs, wanted).len() ==> #[trigger] is_parameter(
                address::kept(pairs, wanted),
                k,
            ),
    decreases pairs.len(),
{
    if pairs.len() > 0 {
        let rest = pairs.drop_last();
        let before = address::kept(rest, wanted);
        let some = address::kept(pairs, wanted);
        assert forall|k: int| 0 <= k < rest.len() implies #[trigger] is_parameter(rest, k) by {
            assert(is_parameter(pairs, k));
            if has_key_before(rest, k, rest[k].0) {
                let i = choose|i: int| 0 <= i < k && (#[trigger] rest[i]).0 == rest[k].0;
                assert(pairs[i].0 == pairs[k].0);
            }
        }
        lemma_kept_parameters(rest, wanted);
        lemma_kept(rest, wanted);
        assert(is_parameter(pairs, pairs.len() - 1));
        assert forall|k: int| 0 <= k < some.len() implies #[trigger] is_parameter(some, k) by {
            if k < before.len() {
                assert(is_parameter(before, k));
                if has_key_before(some, k, some[k].0) {
                    let i = choose|i: int| 0 <= i < k && (#[trigger] some[i]).0 == some[k].0;
                    assert(before[i].0 == before[k].0);
                }
            } else if has_key_before(some, k, some[k].0) {
                let i = choose|i: int| 0 <= i < k && (#[trigger] some[i]).0 == some[k].0;
                assert(some[i] == before[i]);
                let j = choose|j: int| 0 <= j < rest.len() && rest[j] == before[i];
                assert(pairs[j].0 == pairs[pairs.len() - 1].0);
            }
        }
    }
}

/// What normalization makes of a search URL: a normal one, with the parameters that last.
pub open spec fn is_normalized(u: Seq<char>, a: AddressV) -> bool {
    &&& is_normal(u)
    &&& address::parsed_url(u)->Ok_0.path == a.path
    &&& address::parsed_url(u)->Ok_0.pairs == address::kept(a.pairs, is_lasting_key())
}

fn plain_input(s: &str) -> (r: bool)
    ensures
        r == is_plain_input(s@),
{
    if text::utf8_length(s) > MAX_URL {
        return false;
    }
    for c in it: s.chars()
        invariant
            it.seq() == s@,
            forall|i: int|
                0 <= i < it.index() ==> !text::is_control(#[trigger] s@[i]) && s@[i] != '\\',
    {
        if text::is_control_char(c) || c == '\\' {
            assert(text::is_control(s@[it.index()]) || s@[it.index()] == '\\');
            return false;
        }
    }
    true
}

fn plain_path(path: &str) -> (r: bool)
    ensures
        r == is_plain_path(path@),
{
    for c in it: path.chars()
        invariant
            it.seq() == path@,
            forall|i: int| 0 <= i < it.index() ==> path@[i] != '%',
    {
        if c == '%' {
            assert(path@[it.index()] == '%');
            return false;
        }
    }
    if text::contains(path, "//") {
        return false;
    }
    let segments: Vec<String> = text::split_at_char(path, '/');
    !text::contains_text(&segments, ".") && !text::contains_text(&segments, "..")
}

fn segment(s: &str) -> (r: bool)
    ensures
        r == is_segment(s@),
{
    if s.is_empty() {
        return false;
    }
    for c in it: s.chars()
        invariant
            it.seq() == s@,
            forall|i: int| 0 <= i < it.index() ==> is_word(#[trigger] s@[i]) || s@[i] == '-',
    {
        if !(('a' <= c && c <= 'z') || ('A' <= c && c <= 'Z') || text::is_digit_char(c) || c == '_'
            || c == '-') {
            assert(!is_word(s@[it.index()]) && s@[it.index()] != '-');
            return false;
        }
    }
    true
}

fn search_route(path: &str) -> (r: bool)
    ensures
        r == is_search_route(path@),
{
    if text::same(path, "/search/") {
        return true;
    }
    let v: Vec<char> = text::chars_of(path);
    if !(text::starts_with(path, "/category/") && text::ends_with(path, "/") && v.len() > 10) {
        return false;
    }
    let inner: String = text::substring(&v, 10, v.len() - 1);
    let segments: Vec<String> = text::split_at_char(inner.as_str(), '/');
    let ghost parts = text::split(path@.subrange(10, path@.len() - 1), '/');
    let mut i: usize = 0;
    while i < segments.len()
        invariant
            0 <= i <= segments@.len(),
            path@ != "/search/"@,
            parts == text::split(path@.subrange(10, path@.len() - 1), '/'),
            parts == text::texts(segments@),
            forall|k: int| 0 <= k < i ==> is_segment(#[trigger] parts[k]),
        decreases segments@.len() - i,
    {
        assert(parts[i as int] == segments@[i as int]@);
        if !segment(segments[i].as_str()) {
            return false;
        }
        i = i + 1;
    }
    true
}

fn parameter_value(key: &str, value: &str) -> (r: bool)
    ensures
        r == is_parameter_value(key@, value@),
{
    if text::same(key, "text") {
        if !text::utf16_at_most(value, 2000) {
            return false;
        }
    } else if text::utf8_length(value) > 4096 {
        return false;
    }
    for c in it: value.chars()
        invariant
            it.seq() == value@,
            forall|i: int| 0 <= i < it.index() ==> !text::is_control(#[trigger] value@[i]),
    {
        if text::is_control_char(c) {
            assert(text::is_control(value@[it.index()]));
            return false;
        }
    }
    true
}

fn forbidden_key(key: &str) -> (r: bool)
    ensures
        r == is_forbidden_key(key@),
{
    text::same(key, "url") || text::same(key, "redirect") || text::same(key, "redirect_uri")
        || text::same(key, "return_url") || text::same(key, "callback") || text::same(key, "action")
        || text::same(key, "method") || text::same(key, "endpoint")
}

fn site_authority(a: &Address) -> (r: bool)
    ensures
        r == is_site_authority(a@),
{
    text::same(a.scheme.as_str(), "https") && (match &a.host {
        Some(h) => text::same(h.as_str(), "www.ozon.ru"),
        None => false,
    }) && a.username.as_str().is_empty() && a.password.is_none() && a.port.is_none()
        && a.fragment.is_none()
}

fn key_before(pairs: &Vec<(String, String)>, n: usize, key: &str) -> (r: bool)
    requires
        n <= pairs@.len(),
    ensures
        r == has_key_before(address::pairs_of(pairs@), n as int, key@),
{
    let ghost all = address::pairs_of(pairs@);
    let mut i: usize = 0;
    while i < n
        invariant
            0 <= i <= n <= pairs@.len(),
            all == address::pairs_of(pairs@),
            forall|k: int| 0 <= k < i ==> (#[trigger] all[k]).0 != key@,
        decreases n - i,
    {
        assert(all[i as int].0 == pairs@[i as int].0@);
        if text::same(pairs[i].0.as_str(), key) {
            return true;
        }
        i = i + 1;
    }
    false
}

proof fn lemma_kept_size(
    pairs: Seq<(Seq<char>, Seq<char>)>,
    wanted: spec_fn(Seq<char>) -> bool,
)
    requires
        forall|i: int|
            0 <= i < pairs.len() ==> is_safe_key((#[trigger] pairs[i]).0) && is_parameter_value(
                pairs[i].0,
                pairs[i].1,
            ),
    ensures
        address::pairs_size(address::kept(pairs, wanted)) <= 8102 * pairs.len(),
    decreases pairs.len(),
{
    if pairs.len() > 0 {
        lemma_kept_size(pairs.drop_last(), wanted);
        let value = pairs.last().1;
        text::lemma_utf8_bound(value);
        text::lemma_utf16_bounds(value);
        let rest = address::kept(pairs.drop_last(), wanted);
        assert(rest.push(pairs.last()).drop_last() =~= rest);
    }
}

/// The normalized text of a public search or category URL. The input is held to the
/// rules before it is normalized.
pub fn normalize_search_url(input: &str) -> (r: Result<String, Failure>)
    ensures
        failure::outcome(r) == normalized_search_url(input@),
        r matches Ok(u) ==> {
            &&& is_normalized(u@, address::parsed_url(input@)->Ok_0)
            &&& text::utf8_len(u@) <= MAX_URL ==> normalized_search_url(u@) == Ok::<
                Seq<char>,
                FailureV,
            >(u@)
        },
{
    if !plain_input(input) {
        return Err(Failure::new("Invalid search URL"));
    }
    if !text::starts_with(input, "https://www.ozon.ru/") {
        return Err(Failure::new("Expected https://www.ozon.ru search/category URL"));
    }
    let pieces: Vec<String> = text::split_at_char(input, '?');
    assert(text::texts(pieces@)[0] == pieces@[0]@);
    let raw_path: String = cut_site(pieces[0].as_str());
    if !plain_path(raw_path.as_str()) {
        return Err(Failure::new("Invalid search path"));
    }
    let url: Address = match address::parse_url(input) {
        Ok(a) => a,
        Err(e) => return Err(Failure::Message(e)),
    };
    if !site_authority(&url) {
        return Err(Failure::new("Invalid search URL authority"));
    }
    if !search_route(url.path.as_str()) {
        return Err(Failure::new("Expected public search/category route"));
    }
    if url.pairs.len() > 100 {
        return Err(Failure::new("Too many search parameters"));
    }
    let ghost all = address::pairs_of(url.pairs@);
    let mut lasting: Vec<(String, String)> = Vec::new();
    let mut i: usize = 0;
    assert(all.take(0) =~= Seq::empty());
    assert(address::pairs_of(lasting@) =~= Seq::empty());
    while i < url.pairs.len()
        invariant
            0 <= i <= url.pairs@.len(),
            all == address::pairs_of(url.pairs@),
            parameter_problem(all, 0) == parameter_problem(all, i as int),
            normalized_search_url(input@) == (match parameter_problem(all, 0) {
                Some(e) => Err(e),
                None => Ok(
                    address::rebuilt(input@, address::kept(all, is_lasting_key())),
                ),
            }),
            forall|k: int|
                0 <= k < i ==> is_safe_key((#[trigger] all[k]).0) && is_parameter_value(
                    all[k].0,
                    all[k].1,
                ),
            address::pairs_of(lasting@) == address::kept(all.take(i as int), is_lasting_key()),
        decreases url.pairs@.len() - i,
    {
        let key: &str = url.pairs[i].0.as_str();
        let value: &str = url.pairs[i].1.as_str();
        assert(all[i as int] == (key@, value@));
        if !(safe_key(key) && !key_before(&url.pairs, i, key) && parameter_value(key, value)) {
            return Err(Failure::new("Invalid or duplicate search parameter"));
        }
        if forbidden_key(key) {
            return Err(Failure::new("Unsupported search parameter"));
        }
        assert(all.take(i + 1).drop_last() =~= all.take(i as int));
        assert(all.take(i + 1).last() == all[i as int]);
        if !text::same(key, "__rr") && !text::same(key, "at") {
            let pair: (String, String) = (key.to_owned(), value.to_owned());
            proof {
                address::lemma_pairs_push(lasting@, pair);
            }
            lasting.push(pair);
        }
        i = i + 1;
    }
    assert(all.take(i as int) =~= all);
    proof {
        lemma_kept_size(all, is_lasting_key());
        lemma_kept(all, is_lasting_key());
        lemma_parameters(all, 0);
        lemma_kept_parameters(all, is_lasting_key());
        lemma_parameters(address::kept(all, is_lasting_key()), 0);
    }
    let normal: String = address::rebuild(input, &lasting);
    proof {
        assert(is_normal(normal@));
        if text::utf8_len(normal@) <= MAX_URL {
            normalized_urls_stay(normal@);
        }
    }
    Ok(normal)
}

/// A link as a page shows it, made absolute and normalized.
pub open spec fn observed(value: Seq<char>) -> Option<Seq<char>> {
    let absolute = if text::starts(value, "/"@) && !text::starts(value, "//"@) {
        "https://www.ozon.ru"@ + value
    } else {
        value
    };
    match normalized_search_url(absolute) {
        Ok(u) => Some(u),
        Err(_) => None,
    }
}

fn observed_url(value: &str) -> (r: Option<String>)
    ensures
        text::text_of(r) == observed(value@),
        r matches Some(u) ==> is_normal(u@),
{
    let absolute: String = if text::starts_with(value, "/") && !text::starts_with(value, "//") {
        text::joined("https://www.ozon.ru", value)
    } else {
        value.to_owned()
    };
    match normalize_search_url(absolute.as_str()) {
        Ok(u) => Some(u),
        Err(_) => None,
    }
}

/// Whether a text spells a URL with this path and these parameters.
pub open spec fn has_pairs(
    u: Seq<char>,
    path: Seq<char>,
    pairs: Seq<(Seq<char>, Seq<char>)>,
) -> bool {
    address::parsed_url(u) matches Ok(a) && a.path == path && a.pairs == pairs
}

/// Whether a text spells a URL in which a parameter has this value, each time that it occurs;
/// where there is no value, it does not occur.
pub open spec fn says(u: Seq<char>, key: Seq<char>, value: Option<Seq<char>>) -> bool {
    address::parsed_url(u) matches Ok(a) && {
        &&& value matches Some(v) ==> a.pairs.contains((key, v))
        &&& forall|i: int|
            0 <= i < a.pairs.len() && (#[trigger] a.pairs[i]).0 == key ==> value == Some(
                a.pairs[i].1,
            )
    }
}

/// Whether two URLs have one path, and say the same of a parameter.
pub open spec fn agree_on(u: Seq<char>, other: Seq<char>, key: Seq<char>) -> bool {
    address::parsed_url(u) matches Ok(a) && (address::parsed_url(other) matches Ok(b) && {
        &&& a.path == b.path
        &&& forall|v: Seq<char>|
            a.pairs.contains((key, v)) == #[trigger] b.pairs.contains((key, v))
    })
}

/// Whether a URL is a search on its first page: nothing in it says where in the results a page
/// stands.
pub open spec fn is_first_page(u: Seq<char>) -> bool {
    &&& says(u, "page"@, None)
    &&& says(u, "paginator_token"@, None)
    &&& says(u, "search_page_state"@, None)
    &&& says(u, "layout_page_index"@, None)
    &&& says(u, "layout_container"@, None)
    &&& says(u, "start_page_id"@, None)
}

/// Whether a URL is a search with one parameter set, or taken out, and all others as they are,
/// from the first page on.
pub open spec fn sets(
    base: Seq<char>,
    u: Seq<char>,
    key: Seq<char>,
    value: Option<Seq<char>>,
) -> bool {
    &&& says(u, key, value)
    &&& value is None || !is_position(key) ==> is_first_page(u)
    &&& forall|k: Seq<char>| k != key && !is_position(k) ==> #[trigger] agree_on(base, u, k)
}

/// Whether a parameter says where in the results a page stands.
pub open spec fn is_position(key: Seq<char>) -> bool {
    seq![
        "page"@,
        "paginator_token"@,
        "search_page_state"@,
        "layout_page_index"@,
        "layout_container"@,
        "start_page_id"@,
    ].contains(key)
}

/// A URL with other parameters, normalized again. One that has a fragment, or whose path is
/// too long for a URL to have parameters behind it, is no search URL.
pub open spec fn reparameterized(
    input: Seq<char>,
    pairs: Seq<(Seq<char>, Seq<char>)>,
) -> Option<Seq<char>> {
    match address::parsed_url(input) {
        Ok(a) => if a.fragment is None && address::path_fits(a) {
            match normalized_search_url(address::rebuilt(input, pairs)) {
                Ok(u) => Some(u),
                Err(_) => None,
            }
        } else {
            None
        },
        Err(_) => None,
    }
}

fn reparameterize(input: &str, url: &Address, pairs: &Vec<(String, String)>) -> (r: Option<String>)
    requires
        address::parsed_url(input@) == Ok::<AddressV, Seq<char>>(url@),
    ensures
        text::text_of(r) == reparameterized(input@, address::pairs_of(pairs@)),
        (r is Some && is_site_authority(url@) && address::kept(
            address::pairs_of(pairs@),
            is_lasting_key(),
        ) == address::pairs_of(pairs@)) ==> is_settled(r->Some_0@) && has_pairs(
            r->Some_0@,
            url@.path,
            address::pairs_of(pairs@),
        ),
{
    if url.fragment.is_some() || !address::is_path_small(url) {
        return None;
    }
    let rebuilt: String = address::rebuild(input, pairs);
    match normalize_search_url(rebuilt.as_str()) {
        Ok(u) => {
            proof {
                let all = address::pairs_of(pairs@);
                if is_site_authority(url@) && address::kept(all, is_lasting_key()) == all {
                    lemma_lasting_is_settled(rebuilt@);
                }
            }
            Some(u)
        },
        Err(_) => None,
    }
}

/// A parameter that asks for a whole page, not for a fragment of one.
pub open spec fn is_page_key() -> spec_fn(Seq<char>) -> bool {
    |key: Seq<char>|
        key != "paginator_token"@ && key != "layout_page_index"@ && key != "layout_container"@
}

/// The full-page URL behind a paginator link.
pub open spec fn promoted(value: Seq<char>) -> Option<Seq<char>> {
    match observed(value) {
        None => None,
        Some(u) => match address::parsed_url(u) {
            Err(_) => None,
            Ok(a) => reparameterized(u, address::kept(a.pairs, is_page_key())),
        },
    }
}

/// The full-page URL behind a paginator link.
pub fn paginator_url(value: &str) -> (r: Option<String>)
    ensures
        text::text_of(r) == promoted(value@),
        r matches Some(u) ==> is_settled(u@),
{
    let observed: String = match observed_url(value) {
        Some(u) => u,
        None => return None,
    };
    let url: Address = match address::parse_url(observed.as_str()) {
        Ok(a) => a,
        Err(_) => return None,
    };
    let ghost all = address::pairs_of(url.pairs@);
    let mut wanted: Vec<(String, String)> = Vec::new();
    let mut i: usize = 0;
    assert(all.take(0) =~= Seq::empty());
    assert(address::pairs_of(wanted@) =~= Seq::empty());
    while i < url.pairs.len()
        invariant
            0 <= i <= url.pairs@.len(),
            all == address::pairs_of(url.pairs@),
            address::pairs_of(wanted@) == address::kept(all.take(i as int), is_page_key()),
        decreases url.pairs@.len() - i,
    {
        let key: &str = url.pairs[i].0.as_str();
        assert(all.take(i + 1).drop_last() =~= all.take(i as int));
        assert(all.take(i + 1).last() == (url.pairs@[i as int].0@, url.pairs@[i as int].1@));
        if !text::same(key, "paginator_token") && !text::same(key, "layout_page_index")
            && !text::same(key, "layout_container") {
            let pair: (String, String) = (key.to_owned(), url.pairs[i].1.clone());
            proof {
                address::lemma_pairs_push(wanted@, pair);
            }
            wanted.push(pair);
        }
        i = i + 1;
    }
    assert(all.take(i as int) =~= all);
    proof {
        lemma_some_last(all, is_page_key());
    }
    reparameterize(observed.as_str(), &url, &wanted)
}

/// A parameter that says where in the results a page stands.
pub open spec fn is_paging_key(key: Seq<char>) -> bool {
    ||| key == "page"@
    ||| key == "paginator_token"@
    ||| key == "search_page_state"@
    ||| key == "layout_page_index"@
    ||| key == "layout_container"@
    ||| key == "start_page_id"@
}

fn paging(key: &str) -> (r: bool)
    ensures
        r == is_paging_key(key@),
{
    text::same(key, "page") || text::same(key, "paginator_token") || text::same(
        key,
        "search_page_state",
    ) || text::same(key, "layout_page_index") || text::same(key, "layout_container")
        || text::same(key, "start_page_id")
}

/// A parameter that a refinement of `key` leaves as it is.
pub open spec fn is_untouched_by(key: Seq<char>) -> spec_fn(Seq<char>) -> bool {
    |k: Seq<char>| !is_paging_key(k) && k != key
}

/// The parameters of a search with `key` set to `value`, or taken out, from the first page on.
pub open spec fn refined_pairs(
    pairs: Seq<(Seq<char>, Seq<char>)>,
    key: Seq<char>,
    value: Option<Seq<char>>,
) -> Seq<(Seq<char>, Seq<char>)> {
    let rest = address::kept(pairs, is_untouched_by(key));
    match value {
        Some(v) => rest.push((key, v)),
        None => rest,
    }
}

/// A search with `key` set to `value`, or taken out, from the first page on.
pub open spec fn refined(base: Seq<char>, key: Seq<char>, value: Option<Seq<char>>) -> Option<
    Seq<char>,
> {
    if !is_safe_key(key) {
        None
    } else {
        match address::parsed_url(base) {
            Err(_) => None,
            Ok(a) => reparameterized(base, refined_pairs(a.pairs, key, value)),
        }
    }
}

proof fn lemma_kept_contains(
    pairs: Seq<(Seq<char>, Seq<char>)>,
    wanted: spec_fn(Seq<char>) -> bool,
    x: (Seq<char>, Seq<char>),
)
    ensures
        address::kept(pairs, wanted).contains(x) == (pairs.contains(x) && wanted(x.0)),
    decreases pairs.len(),
{
    if pairs.len() > 0 {
        let rest = pairs.drop_last();
        lemma_kept_contains(rest, wanted, x);
        let before = address::kept(rest, wanted);
        let after = address::kept(pairs, wanted);
        if pairs.contains(x) && pairs.last() != x {
            let i = choose|i: int| 0 <= i < pairs.len() && pairs[i] == x;
            assert(rest[i] == x);
        }
        if rest.contains(x) {
            let i = choose|i: int| 0 <= i < rest.len() && rest[i] == x;
            assert(pairs[i] == x);
        }
        assert(pairs[pairs.len() - 1] == pairs.last());
        if wanted(pairs.last().0) {
            assert(after[before.len() as int] == pairs.last());
            if before.contains(x) {
                let i = choose|i: int| 0 <= i < before.len() && before[i] == x;
                assert(after[i] == x);
            }
            if after.contains(x) && x != pairs.last() {
                let i = choose|i: int| 0 <= i < after.len() && after[i] == x;
                assert(before[i] == x);
            }
        }
    }
}

/// What stands in the parameters of a refined search.
proof fn lemma_refined_contains(
    pairs: Seq<(Seq<char>, Seq<char>)>,
    key: Seq<char>,
    value: Option<Seq<char>>,
    k: Seq<char>,
    v: Seq<char>,
)
    ensures
        refined_pairs(pairs, key, value).contains((k, v)) == ((pairs.contains((k, v))
            && !is_position(k) && k != key) || (k == key && value == Some(v))),
{
    let positions = seq![
        "page"@,
        "paginator_token"@,
        "search_page_state"@,
        "layout_page_index"@,
        "layout_container"@,
        "start_page_id"@,
    ];
    assert(is_position(k) == is_paging_key(k)) by {
        assert(positions[0] == "page"@ && positions[1] == "paginator_token"@);
        assert(positions[2] == "search_page_state"@ && positions[3] == "layout_page_index"@);
        assert(positions[4] == "layout_container"@ && positions[5] == "start_page_id"@);
    }
    let rest = address::kept(pairs, is_untouched_by(key));
    lemma_kept_contains(pairs, is_untouched_by(key), (k, v));
    if let Some(w) = value {
        let all = rest.push((key, w));
        assert(all[rest.len() as int] == (key, w));
        if rest.contains((k, v)) {
            let i = choose|i: int| 0 <= i < rest.len() && rest[i] == (k, v);
            assert(all[i] == (k, v));
        }
        if all.contains((k, v)) && (k, v) != (key, w) {
            let i = choose|i: int| 0 <= i < all.len() && all[i] == (k, v);
            assert(rest[i] == (k, v));
        }
    }
}

proof fn lemma_sets(base: Seq<char>, u: Seq<char>, key: Seq<char>, value: Option<Seq<char>>)
    requires
        address::parsed_url(base) matches Ok(a) && has_pairs(
            u,
            a.path,
            refined_pairs(a.pairs, key, value),
        ),
    ensures
        sets(base, u, key, value),
{
    let a = address::parsed_url(base)->Ok_0;
    let b = address::parsed_url(u)->Ok_0;
    assert forall|k: Seq<char>, v: Seq<char>| #[trigger] b.pairs.contains((k, v)) == ((
    a.pairs.contains((k, v)) && !is_position(k) && k != key) || (k == key && value == Some(v))) by {
        lemma_refined_contains(a.pairs, key, value, k, v);
    }
    assert forall|i: int, k: Seq<char>|
        0 <= i < b.pairs.len() && (#[trigger] b.pairs[i]).0 == k implies #[trigger] b.pairs.contains(
        (k, b.pairs[i].1),
    ) by {
        assert(b.pairs.contains(b.pairs[i]));
    }
    assert forall|i: int| 0 <= i < b.pairs.len() && (#[trigger] b.pairs[i]).0 == key implies value
        == Some(b.pairs[i].1) by {
        assert(b.pairs.contains((key, b.pairs[i].1)));
    }
    if let Some(v) = value {
        assert(b.pairs.contains((key, v)));
    }
    assert forall|k: Seq<char>| is_position(k) && (k != key || value is None) implies #[trigger] says(
        u,
        k,
        None,
    ) by {
        assert forall|i: int| 0 <= i < b.pairs.len() implies (#[trigger] b.pairs[i]).0 != k by {
            if b.pairs[i].0 == k {
                assert(b.pairs.contains((k, b.pairs[i].1)));
            }
        }
    }
    let positions = seq![
        "page"@,
        "paginator_token"@,
        "search_page_state"@,
        "layout_page_index"@,
        "layout_container"@,
        "start_page_id"@,
    ];
    assert(positions[0] == "page"@ && positions[1] == "paginator_token"@);
    assert(positions[2] == "search_page_state"@ && positions[3] == "layout_page_index"@);
    assert(positions[4] == "layout_container"@ && positions[5] == "start_page_id"@);
}

fn refine(base: &str, key: &str, value: Option<&str>) -> (r: Option<String>)
    ensures
        text::text_of(r) == refined(base@, key@, json::str_of(value)),
        r is Some && is_lasting(base@) && is_lasting_key()(key@) ==> is_settled(r->Some_0@)
            && sets(base@, r->Some_0@, key@, json::str_of(value)),
{
    if !safe_key(key) {
        return None;
    }
    let url: Address = match address::parse_url(base) {
        Ok(a) => a,
        Err(_) => return None,
    };
    let ghost all = address::pairs_of(url.pairs@);
    let mut pairs: Vec<(String, String)> = Vec::new();
    let mut i: usize = 0;
    assert(all.take(0) =~= Seq::empty());
    assert(address::pairs_of(pairs@) =~= Seq::empty());
    while i < url.pairs.len()
        invariant
            0 <= i <= url.pairs@.len(),
            all == address::pairs_of(url.pairs@),
            address::pairs_of(pairs@) == address::kept(
                all.take(i as int),
                is_untouched_by(key@),
            ),
        decreases url.pairs@.len() - i,
    {
        let k: &str = url.pairs[i].0.as_str();
        assert(all.take(i + 1).drop_last() =~= all.take(i as int));
        assert(all.take(i + 1).last() == (url.pairs@[i as int].0@, url.pairs@[i as int].1@));
        if !paging(k) && !text::same(k, key) {
            let pair: (String, String) = (k.to_owned(), url.pairs[i].1.clone());
            proof {
                address::lemma_pairs_push(pairs@, pair);
            }
            pairs.push(pair);
        }
        i = i + 1;
    }
    assert(all.take(i as int) =~= all);
    if let Some(v) = value {
        let pair: (String, String) = (key.to_owned(), v.to_owned());
        proof {
            address::lemma_pairs_push(pairs@, pair);
        }
        pairs.push(pair);
    }
    proof {
        if is_lasting(base@) && is_lasting_key()(key@) {
            lemma_some_last(all, is_untouched_by(key@));
            lemma_all_kept(address::pairs_of(pairs@), is_lasting_key());
        }
    }
    let r: Option<String> = reparameterize(base, &url, &pairs);
    proof {
        if r is Some && is_lasting(base@) && is_lasting_key()(key@) {
            lemma_sets(base@, r->Some_0@, key@, json::str_of(value));
        }
    }
    r
}

/// A search from its first page on.
pub open spec fn reset_url(base: Seq<char>) -> Option<Seq<char>> {
    refined(base, "page"@, None)
}

fn reset(base: &str) -> (r: Option<String>)
    ensures
        text::text_of(r) == reset_url(base@),
{
    refine(base, "page", None)
}

/// The arguments of a search.
#[derive(Debug)]
pub struct SearchArgs {
    pub query: Option<String>,
    pub search_url: Option<String>,
    pub next_cursor: Option<String>,
    pub include_facets: Option<bool>,
    pub sort: Option<String>,
    pub price_min: Option<u64>,
    pub price_max: Option<u64>,
    pub limit: usize,
}

/// What [`SearchArgs`] hold.
pub struct SearchArgsV {
    pub query: Option<Seq<char>>,
    pub search_url: Option<Seq<char>>,
    pub next_cursor: Option<Seq<char>>,
    pub include_facets: Option<bool>,
    pub sort: Option<Seq<char>>,
    pub price_min: Option<u64>,
    pub price_max: Option<u64>,
    pub limit: usize,
}

impl View for SearchArgs {
    type V = SearchArgsV;

    open spec fn view(&self) -> SearchArgsV {
        SearchArgsV {
            query: text::text_of(self.query),
            search_url: text::text_of(self.search_url),
            next_cursor: text::text_of(self.next_cursor),
            include_facets: self.include_facets,
            sort: text::text_of(self.sort),
            price_min: self.price_min,
            price_max: self.price_max,
            limit: self.limit,
        }
    }
}

/// Where a chain of search calls stands.
#[derive(Debug)]
pub struct Request {
    pub version: u8,
    pub url: String,
    pub offset: usize,
    pub seen: Vec<String>,
    pub calls: usize,
}

/// What a [`Request`] holds.
pub struct RequestV {
    pub version: u8,
    pub url: Seq<char>,
    pub offset: usize,
    pub seen: Seq<Seq<char>>,
    pub calls: usize,
}

impl View for Request {
    type V = RequestV;

    open spec fn view(&self) -> RequestV {
        RequestV {
            version: self.version,
            url: self.url@,
            offset: self.offset,
            seen: text::texts(self.seen@),
            calls: self.calls,
        }
    }
}

impl Request {
    /// The path and query of the page that the request asks for.
    pub fn path(&self) -> (r: String)
        ensures
            r@ == below_site(self@.url),
    {
        cut_site(self.url.as_str())
    }
}

/// The number of a JSON value, where it fits a `usize`.
pub open spec fn as_size(j: JsonV) -> Option<usize> {
    match j.as_unsigned() {
        Some(n) => if n <= usize::MAX {
            Some(n as usize)
        } else {
            None
        },
        None => None,
    }
}

/// The texts of an array of texts.
pub open spec fn as_texts(j: JsonV) -> Option<Seq<Seq<char>>> {
    match j {
        JsonV::Array(v) => if forall|i: int| 0 <= i < v.len() ==> (#[trigger] v[i]) is Text {
            Some(Seq::new(v.len(), |i: int| v[i]->Text_0))
        } else {
            None
        },
        _ => None,
    }
}

/// The request that its five parts make.
pub open spec fn request_of(
    version: JsonV,
    url: JsonV,
    offset: JsonV,
    seen: JsonV,
    calls: JsonV,
) -> Option<RequestV> {
    match (version.as_unsigned(), url.as_text(), as_size(offset), as_texts(seen), as_size(calls)) {
        (Some(version), Some(url), Some(offset), Some(seen), Some(calls)) => if version
            <= u8::MAX {
            Some(RequestV { version: version as u8, url, offset, seen, calls })
        } else {
            None
        },
        _ => None,
    }
}

pub open spec fn is_request_key(key: Seq<char>) -> bool {
    ||| key == "version"@
    ||| key == "url"@
    ||| key == "offset"@
    ||| key == "seen"@
    ||| key == "calls"@
}

/// The request that a cursor holds: an object with exactly its five parts, or the row of them.
pub open spec fn decoded_request(j: JsonV) -> Option<RequestV> {
    match j {
        JsonV::Object(m) => if forall|i: int|
            0 <= i < m.len() ==> is_request_key((#[trigger] m[i]).0) {
            request_of(
                j.field("version"@),
                j.field("url"@),
                j.field("offset"@),
                j.field("seen"@),
                j.field("calls"@),
            )
        } else {
            None
        },
        JsonV::Array(v) => if v.len() == 5 {
            request_of(v[0], v[1], v[2], v[3], v[4])
        } else {
            None
        },
        _ => None,
    }
}

fn size_of(j: &Json) -> (r: Option<usize>)
    ensures
        r == as_size(j@),
{
    match j.as_u64() {
        Some(n) => if n <= usize::MAX as u64 {
            Some(n as usize)
        } else {
            None
        },
        None => None,
    }
}

/// The texts of a row that may be missing.
pub open spec fn rows_of(o: Option<Vec<String>>) -> Option<Seq<Seq<char>>> {
    match o {
        Some(v) => Some(text::texts(v@)),
        None => None,
    }
}

fn texts_in(j: &Json) -> (r: Option<Vec<String>>)
    ensures
        rows_of(r) == as_texts(j@),
{
    match j.as_array() {
        None => None,
        Some(v) => {
            let ghost all = json::values(v@);
            let mut out: Vec<String> = Vec::new();
            let mut i: usize = 0;
            assert(text::texts(out@) =~= Seq::empty());
            while i < v.len()
                invariant
                    0 <= i <= v@.len(),
                    all == json::values(v@),
                    j@ == JsonV::Array(all),
                    forall|k: int| 0 <= k < i ==> (#[trigger] all[k]) is Text,
                    text::texts(out@) == Seq::new(i as nat, |k: int| all[k]->Text_0),
                decreases v@.len() - i,
            {
                assert(all[i as int] == v@[i as int]@);
                match v[i].as_str() {
                    None => {
                        return None;
                    },
                    Some(s) => {
                        let owned: String = s.to_owned();
                        proof {
                            text::lemma_texts_push(out@, owned);
                        }
                        out.push(owned);
                        assert(text::texts(out@) =~= Seq::new(
                            (i + 1) as nat,
                            |k: int| all[k]->Text_0,
                        ));
                    },
                }
                i = i + 1;
            }
            Some(out)
        },
    }
}

/// What a request that may be missing holds.
pub open spec fn request_in(o: Option<Request>) -> Option<RequestV> {
    match o {
        Some(r) => Some(r@),
        None => None,
    }
}

fn make_request(version: &Json, url: &Json, offset: &Json, seen: &Json, calls: &Json) -> (r: Option<
    Request,
>)
    ensures
        request_in(r) == request_of(version@, url@, offset@, seen@, calls@),
{
    match (version.as_u64(), url.as_str(), size_of(offset), texts_in(seen), size_of(calls)) {
        (Some(version), Some(url), Some(offset), Some(seen), Some(calls)) => if version
            <= u8::MAX as u64 {
            Some(Request { version: version as u8, url: url.to_owned(), offset, seen, calls })
        } else {
            None
        },
        _ => None,
    }
}

fn decode_request(j: &Json) -> (r: Option<Request>)
    ensures
        request_in(r) == decoded_request(j@),
{
    if let Some(m) = j.as_object() {
        let ghost all = json::members(m@);
        let mut i: usize = 0;
        while i < m.len()
            invariant
                0 <= i <= m@.len(),
                all == json::members(m@),
                j@ == JsonV::Object(all),
                forall|k: int| 0 <= k < i ==> is_request_key((#[trigger] all[k]).0),
            decreases m@.len() - i,
        {
            let key: &str = m[i].0.as_str();
            assert(all[i as int].0 == key@);
            if !(text::same(key, "version") || text::same(key, "url") || text::same(key, "offset")
                || text::same(key, "seen") || text::same(key, "calls")) {
                return None;
            }
            i = i + 1;
        }
        return make_request(
            j.field("version"),
            j.field("url"),
            j.field("offset"),
            j.field("seen"),
            j.field("calls"),
        );
    }
    if let Some(v) = j.as_array() {
        if v.len() == 5 {
            return make_request(&v[0], &v[1], &v[2], &v[3], &v[4]);
        }
    }
    None
}

/// An article number as a cursor keeps it.
pub open spec fn is_sku(s: Seq<char>) -> bool {
    0 < s.len() && text::utf8_len(s) <= 32 && text::all_digits(s)
}

fn sku(s: &str) -> (r: bool)
    ensures
        r == is_sku(s@),
{
    !s.is_empty() && text::utf8_length(s) <= 32 && text::only_digits(s)
}

/// The names of the parts of a request.
pub open spec fn request_names() -> Seq<Seq<char>> {
    seq!["version"@, "url"@, "offset"@, "seen"@, "calls"@]
}

/// The request that the text of a cursor spells. One that names a part twice spells none.
pub open spec fn request_in_text(cursor: Seq<char>) -> Option<RequestV> {
    match json::json_value(cursor) {
        None => None,
        Some(j) => if members::repeats(cursor, request_names()) {
            None
        } else {
            decoded_request(j)
        },
    }
}

/// The request that a cursor continues with.
pub open spec fn continued(cursor: Seq<char>) -> Result<RequestV, FailureV> {
    if text::utf8_len(cursor) > MAX_CURSOR {
        Err(FailureV::Message("Cursor too large"@))
    } else {
        match request_in_text(cursor) {
            None => Err(FailureV::Message("Invalid cursor"@)),
            Some(request) => if !(request.version == 1 && request.offset <= MAX_OFFSET
                && request.calls < MAX_CALLS && request.seen.len() < MAX_SEEN) {
                Err(FailureV::Message("Invalid or exhausted cursor"@))
            } else if !(forall|i: int|
                0 <= i < request.seen.len() ==> is_sku(#[trigger] request.seen[i])) {
                Err(FailureV::Message("Invalid cursor SKUs"@))
            } else if !request.seen.no_duplicates() {
                Err(FailureV::Message("Duplicate cursor SKUs"@))
            } else {
                match normalized_search_url(request.url) {
                    Ok(url) => Ok(RequestV { url, ..request }),
                    Err(e) => Err(e),
                }
            },
        }
    }
}

/// Whether the texts of a row are all different.
pub fn all_distinct(v: &Vec<String>) -> (r: bool)
    ensures
        r == text::texts(v@).no_duplicates(),
{
    let ghost all = text::texts(v@);
    let mut i: usize = 0;
    while i < v.len()
        invariant
            0 <= i <= v@.len(),
            all == text::texts(v@),
            forall|a: int, b: int| 0 <= a < i && a < b < all.len() ==> all[a] != all[b],
        decreases v@.len() - i,
    {
        let mut k: usize = i + 1;
        while k < v.len()
            invariant
                0 <= i < k <= v@.len(),
                all == text::texts(v@),
                forall|b: int| i < b < k ==> all[i as int] != all[b],
            decreases v@.len() - k,
        {
            assert(all[i as int] == v@[i as int]@ && all[k as int] == v@[k as int]@);
            if text::same(v[i].as_str(), v[k].as_str()) {
                return false;
            }
            k = k + 1;
        }
        i = i + 1;
    }
    true
}

fn continue_from(cursor: &str) -> (r: Result<Request, Failure>)
    ensures
        failure::outcome(r) == continued(cursor@),
        r matches Ok(request) ==> is_normal(request@.url),
{
    if text::utf8_length(cursor) > MAX_CURSOR {
        return Err(Failure::new("Cursor too large"));
    }
    let names: [&str; 5] = ["version", "url", "offset", "seen", "calls"];
    assert(widgets::slices(names@) =~= request_names());
    let decoded: Option<Request> = match Json::parse(cursor) {
        Some(j) => if members::has_repeats(cursor, &names) {
            None
        } else {
            decode_request(&j)
        },
        None => None,
    };
    let mut request: Request = match decoded {
        Some(request) => request,
        None => return Err(Failure::new("Invalid cursor")),
    };
    let ghost before = request@;
    if !(request.version == 1 && request.offset <= MAX_OFFSET && request.calls < MAX_CALLS
        && request.seen.len() < MAX_SEEN) {
        return Err(Failure::new("Invalid or exhausted cursor"));
    }
    let mut i: usize = 0;
    while i < request.seen.len()
        invariant
            0 <= i <= request.seen@.len(),
            request@ == before,
            continued(cursor@) == (if !(forall|k: int|
                0 <= k < before.seen.len() ==> is_sku(#[trigger] before.seen[k])) {
                Err(FailureV::Message("Invalid cursor SKUs"@))
            } else if !before.seen.no_duplicates() {
                Err(FailureV::Message("Duplicate cursor SKUs"@))
            } else {
                match normalized_search_url(before.url) {
                    Ok(url) => Ok(RequestV { url, ..before }),
                    Err(e) => Err(e),
                }
            }),
            forall|k: int| 0 <= k < i ==> is_sku(#[trigger] before.seen[k]),
        decreases request.seen@.len() - i,
    {
        assert(before.seen[i as int] == request.seen@[i as int]@);
        if !sku(request.seen[i].as_str()) {
            return Err(Failure::new("Invalid cursor SKUs"));
        }
        i = i + 1;
    }
    if !all_distinct(&request.seen) {
        return Err(Failure::new("Duplicate cursor SKUs"));
    }
    match normalize_search_url(request.url.as_str()) {
        Ok(url) => {
            request.url = url;
            Ok(request)
        },
        Err(e) => Err(e),
    }
}

pub const MAX_PRICE: u64 = 9_007_199_254_740_991;

pub open spec fn is_sort(s: Seq<char>) -> bool {
    ||| s == "popular"@
    ||| s == "price"@
    ||| s == "price_desc"@
    ||| s == "rating"@
    ||| s == "new"@
    ||| s == "discount"@
}

/// The URL that a query or a URL starts a chain of search calls with.
pub open spec fn started(args: SearchArgsV) -> Result<Seq<char>, FailureV> {
    match (args.query, args.search_url) {
        (Some(q), None) => if !(text::trimmed(q).len() > 0 && text::utf16_len(q) <= 2000) {
            Err(FailureV::Message("query must contain 1–2000 characters"@))
        } else {
            match address::parsed_url("https://www.ozon.ru/search/"@) {
                Err(e) => Err(FailureV::Message(e)),
                Ok(_) => Ok(
                    address::url_with_pairs(
                        "https://www.ozon.ru/search/"@,
                        seq![("text"@, text::trimmed(q)), ("from_global"@, "true"@)],
                    ),
                ),
            }
        },
        (None, Some(url)) => normalized_search_url(url),
        _ => Err(FailureV::Message("Provide exactly one of query, searchUrl or nextCursor"@)),
    }
}

/// A search in another order. The site's own order has no parameter.
pub open spec fn sorted(url: Seq<char>, sort: Option<Seq<char>>) -> Result<Seq<char>, FailureV> {
    match sort {
        None => Ok(url),
        Some(sort) => if !is_sort(sort) {
            Err(FailureV::Message("Invalid sort"@))
        } else {
            match refined(
                url,
                "sorting"@,
                if sort == "popular"@ {
                    None
                } else {
                    Some(sort)
                },
            ) {
                Some(u) => Ok(u),
                None => Err(FailureV::Message("Invalid sorting URL"@)),
            }
        },
    }
}

/// The parameter for a range of prices: whole amounts, both ends included.
pub open spec fn price_range(min: u64, max: u64) -> Seq<char> {
    text::decimal(min as nat) + ".000;"@ + text::decimal(max as nat) + ".000"@
}

/// A search in a range of prices.
pub open spec fn priced(url: Seq<char>, min: Option<u64>, max: Option<u64>) -> Result<
    Seq<char>,
    FailureV,
> {
    if (min matches Some(p) && p > MAX_PRICE) || (max matches Some(p) && p > MAX_PRICE) {
        Err(FailureV::Message("Prices must be nonnegative safe integers"@))
    } else if min matches Some(a) && max matches Some(b) && a > b {
        Err(FailureV::Message("priceMin must not exceed priceMax"@))
    } else if min is None && max is None {
        Ok(url)
    } else {
        let low = match min {
            Some(p) => p,
            None => 0,
        };
        let high = match max {
            Some(p) => p,
            None => if low > 99_999_999 {
                low
            } else {
                99_999_999
            },
        };
        match refined(url, "currency_price"@, Some(price_range(low, high))) {
            Some(u) => Ok(u),
            None => Err(FailureV::Message("Invalid price URL"@)),
        }
    }
}

/// The request that arguments ask for.
pub open spec fn prepared(args: SearchArgsV) -> Result<RequestV, FailureV> {
    if !(1 <= args.limit <= 36) {
        Err(FailureV::Message("limit must be between 1 and 36"@))
    } else {
        match args.next_cursor {
            Some(cursor) => if !(args.query is None && args.search_url is None && args.sort is None
                && args.price_min is None && args.price_max is None) {
                Err(
                    FailureV::Message(
                        "nextCursor cannot be combined with query, searchUrl, sort or price"@,
                    ),
                )
            } else {
                continued(cursor)
            },
            None => match started(args) {
                Err(e) => Err(e),
                Ok(url) => match sorted(url, args.sort) {
                    Err(e) => Err(e),
                    Ok(url) => match priced(url, args.price_min, args.price_max) {
                        Err(e) => Err(e),
                        Ok(url) => match normalized_search_url(url) {
                            Err(e) => Err(e),
                            Ok(url) => Ok(
                                RequestV { version: 1, url, offset: 0, seen: Seq::empty(), calls: 0 },
                            ),
                        },
                    },
                },
            },
        }
    }
}

fn start(args: &SearchArgs) -> (r: Result<String, Failure>)
    ensures
        failure::outcome(r) == started(args@),
        r matches Ok(u) ==> is_lasting(u@),
        r matches Ok(u) ==> (args@.query matches Some(q) ==> has_pairs(
            u@,
            "/search/"@,
            seq![("text"@, text::trimmed(q)), ("from_global"@, "true"@)],
        )),
        r matches Ok(u) ==> (args@.search_url matches Some(given) ==> is_normalized(
            u@,
            address::parsed_url(given)->Ok_0,
        )),
{
    match (&args.query, &args.search_url) {
        (Some(q), None) => {
            let trimmed: String = text::trim(q.as_str());
            if trimmed.as_str().is_empty() || !text::utf16_at_most(q.as_str(), 2000) {
                return Err(Failure::new("query must contain 1–2000 characters"));
            }
            let base: &str = "https://www.ozon.ru/search/";
            if let Err(e) = address::parse_url(base) {
                return Err(Failure::Message(e));
            }
            proof {
                lemma_start_sizes(q@);
            }
            let mut pairs: Vec<(String, String)> = Vec::new();
            pairs.push(("text".to_owned(), trimmed));
            pairs.push(("from_global".to_owned(), "true".to_owned()));
            assert(address::pairs_of(pairs@) =~= seq![
                ("text"@, text::trimmed(q@)),
                ("from_global"@, "true"@),
            ]);
            proof {
                reveal_strlit("https://www.ozon.ru/search/");
                reveal_strlit("https://www.ozon.ru");
                reveal_strlit("text");
                reveal_strlit("from_global");
                reveal_strlit("__rr");
                reveal_strlit("at");
                let path = address::behind_site(base@);
                assert(path.len() == 8);
                reveal_strlit("/search/");
                assert(path =~= "/search/"@);
                assert(base@ =~= address::site_text(path, None));
                assert(address::is_bare_path(path));
                assert("text"@.len() == 4 && "__rr"@.len() == 4 && "text"@[0] != "__rr"@[0]);
                assert("from_global"@.len() == 11 && "at"@.len() == 2);
                lemma_all_kept(address::pairs_of(pairs@), is_lasting_key());
            }
            Ok(address::rebuild(base, &pairs))
        },
        (None, Some(url)) => normalize_search_url(url.as_str()),
        _ => Err(Failure::new("Provide exactly one of query, searchUrl or nextCursor")),
    }
}

proof fn lemma_trimmed_is_shorter(s: Seq<char>)
    ensures
        text::trim_end(s).len() <= s.len(),
        text::trim_start(s).len() <= s.len(),
    decreases s.len(),
{
    if s.len() > 0 {
        lemma_trimmed_is_shorter(s.drop_last());
        lemma_trimmed_is_shorter(s.subrange(1, s.len() as int));
    }
}

proof fn lemma_start_sizes(q: Seq<char>)
    requires
        text::utf16_len(q) <= 2000,
    ensures
        text::utf8_len("https://www.ozon.ru/search/"@) <= address::SMALL_BYTES,
        address::pairs_size(seq![("text"@, text::trimmed(q)), ("from_global"@, "true"@)])
            <= address::SMALL_BYTES,
{
    reveal_strlit("https://www.ozon.ru/search/");
    reveal_strlit("text");
    reveal_strlit("from_global");
    reveal_strlit("true");
    text::lemma_utf8_bound("https://www.ozon.ru/search/"@);
    text::lemma_utf8_bound("text"@);
    text::lemma_utf8_bound("from_global"@);
    text::lemma_utf8_bound("true"@);
    text::lemma_utf16_bounds(q);
    lemma_trimmed_is_shorter(q);
    lemma_trimmed_is_shorter(text::trim_start(q));
    text::lemma_utf8_bound(text::trimmed(q));
    let first = seq![("text"@, text::trimmed(q))];
    let both = seq![("text"@, text::trimmed(q)), ("from_global"@, "true"@)];
    assert(both.drop_last() =~= first);
    assert(first.drop_last() =~= Seq::empty());
    reveal_with_fuel(address::pairs_size, 3);
}

fn sort_by(url: String, sort: &Option<String>) -> (r: Result<String, Failure>)
    ensures
        failure::outcome(r) == sorted(url@, text::text_of(*sort)),
        r is Ok && is_lasting(url@) ==> is_lasting(r->Ok_0@),
        r is Ok && is_lasting(url@) ==> match text::text_of(*sort) {
            None => r->Ok_0@ == url@,
            Some(order) => sets(
                url@,
                r->Ok_0@,
                "sorting"@,
                if order == "popular"@ {
                    None
                } else {
                    Some(order)
                },
            ),
        },
{
    proof {
        reveal_strlit("sorting");
        reveal_strlit("currency_price");
        reveal_strlit("__rr");
        reveal_strlit("at");
        assert("sorting"@.len() == 7 && "currency_price"@.len() == 14);
        assert("__rr"@.len() == 4 && "at"@.len() == 2);
    }
    match sort {
        None => Ok(url),
        Some(sort) => {
            let sort: &str = sort.as_str();
            if !(text::same(sort, "popular") || text::same(sort, "price") || text::same(
                sort,
                "price_desc",
            ) || text::same(sort, "rating") || text::same(sort, "new") || text::same(
                sort,
                "discount",
            )) {
                return Err(Failure::new("Invalid sort"));
            }
            let value: Option<&str> = if text::same(sort, "popular") {
                None
            } else {
                Some(sort)
            };
            match refine(url.as_str(), "sorting", value) {
                Some(u) => Ok(u),
                None => Err(Failure::new("Invalid sorting URL")),
            }
        },
    }
}

/// A range of prices as a search parameter spells it: two amounts in roubles with three decimal
/// places, the lower one first.
pub open spec fn range_text(low: nat, high: nat) -> Seq<char> {
    text::decimal(low) + ".000"@ + ";"@ + text::decimal(high) + ".000"@
}

/// Whether just the prices between two bounds are those that were asked for: none below the
/// lowest price, where one is given, and none above the highest. Where no highest price is given,
/// those up to the largest amount that a search takes count, and the lowest price itself.
pub open spec fn is_asked(low: nat, high: nat, min: Option<u64>, max: Option<u64>) -> bool {
    forall|price: nat| #[trigger]
        within(price, low, high) <==> {
            &&& min matches Some(a) ==> price >= a
            &&& max matches Some(b) ==> price <= b
            &&& max is None ==> price <= 99_999_999 || (min matches Some(a) && price == a)
        }
}

/// Whether a price lies between two bounds.
pub open spec fn within(price: nat, low: nat, high: nat) -> bool {
    low <= price <= high
}

fn price_between(url: String, min: Option<u64>, max: Option<u64>) -> (r: Result<String, Failure>)
    ensures
        failure::outcome(r) == priced(url@, min, max),
        r is Ok && is_lasting(url@) ==> is_lasting(r->Ok_0@),
        r is Ok && is_lasting(url@) ==> if min is None && max is None {
            r->Ok_0@ == url@
        } else {
            exists|low: nat, high: nat|
                sets(
                    url@,
                    r->Ok_0@,
                    "currency_price"@,
                    Some(#[trigger] range_text(low, high)),
                ) && is_asked(low, high, min, max)
        },
{
    proof {
        reveal_strlit("sorting");
        reveal_strlit("currency_price");
        reveal_strlit("__rr");
        reveal_strlit("at");
        assert("sorting"@.len() == 7 && "currency_price"@.len() == 14);
        assert("__rr"@.len() == 4 && "at"@.len() == 2);
    }
    if let Some(p) = min {
        if p > MAX_PRICE {
            return Err(Failure::new("Prices must be nonnegative safe integers"));
        }
    }
    if let Some(p) = max {
        if p > MAX_PRICE {
            return Err(Failure::new("Prices must be nonnegative safe integers"));
        }
    }
    if let (Some(a), Some(b)) = (min, max) {
        if a > b {
            return Err(Failure::new("priceMin must not exceed priceMax"));
        }
    }
    if min.is_none() && max.is_none() {
        return Ok(url);
    }
    let low: u64 = match min {
        Some(p) => p,
        None => 0,
    };
    let high: u64 = match max {
        Some(p) => p,
        None => if low > 99_999_999 {
            low
        } else {
            99_999_999
        },
    };
    let mut range: String = text::decimal_text(low);
    range.append(".000;");
    range.append(text::decimal_text(high).as_str());
    range.append(".000");
    proof {
        reveal_strlit(".000;");
        reveal_strlit(".000");
        reveal_strlit(";");
        assert(range@ =~= range_text(low as nat, high as nat));
        assert(is_asked(low as nat, high as nat, min, max));
    }
    match refine(url.as_str(), "currency_price", Some(range.as_str())) {
        Some(u) => Ok(u),
        None => Err(Failure::new("Invalid price URL")),
    }
}

/// Whether a URL asks for what the arguments of a search ask for: the trimmed query as its text,
/// on the search page, or the path and the other parameters of the URL that was given; the
/// order, where one is asked for; and the prices, where some are.
pub open spec fn asks_for(u: Seq<char>, args: SearchArgsV) -> bool {
    let plain = |key: Seq<char>|
        !(key == "sorting"@ && args.sort is Some) && !(key == "currency_price"@ && (args.price_min
            is Some || args.price_max is Some)) && !(is_position(key) && (args.sort is Some
            || args.price_min is Some || args.price_max is Some));
    &&& args.query matches Some(q) ==> {
        &&& says(u, "text"@, Some(text::trimmed(q)))
        &&& says(u, "from_global"@, Some("true"@))
        &&& address::parsed_url(u)->Ok_0.path == "/search/"@
    }
    &&& args.search_url matches Some(given) ==> forall|key: Seq<char>|
        plain(key) && key != "__rr"@ && key != "at"@ ==> #[trigger] agree_on(given, u, key)
    &&& args.sort matches Some(order) ==> says(
        u,
        "sorting"@,
        if order == "popular"@ {
            None
        } else {
            Some(order)
        },
    )
    &&& args.price_min is Some || args.price_max is Some ==> exists|low: nat, high: nat|
        says(u, "currency_price"@, Some(#[trigger] range_text(low, high))) && is_asked(
            low,
            high,
            args.price_min,
            args.price_max,
        )
    &&& args.sort is Some || args.price_min is Some || args.price_max is Some ==> is_first_page(u)
}

/// Whether a search was put in the order that is asked for.
spec fn is_sorted(base: Seq<char>, u: Seq<char>, sort: Option<Seq<char>>) -> bool {
    match sort {
        None => u == base,
        Some(order) => sets(
            base,
            u,
            "sorting"@,
            if order == "popular"@ {
                None
            } else {
                Some(order)
            },
        ),
    }
}

/// Whether a search was held to the prices that are asked for.
spec fn is_priced(base: Seq<char>, u: Seq<char>, min: Option<u64>, max: Option<u64>) -> bool {
    if min is None && max is None {
        u == base
    } else {
        exists|low: nat, high: nat|
            sets(base, u, "currency_price"@, Some(#[trigger] range_text(low, high))) && is_asked(
                low,
                high,
                min,
                max,
            )
    }
}

/// What two URLs agree on, one of them says where the other does.
proof fn lemma_agreed(u: Seq<char>, other: Seq<char>, key: Seq<char>, value: Option<Seq<char>>)
    requires
        agree_on(u, other, key),
        says(u, key, value),
    ensures
        says(other, key, value),
{
    let a = address::parsed_url(u)->Ok_0;
    let b = address::parsed_url(other)->Ok_0;
    if let Some(v) = value {
        assert(b.pairs.contains((key, v)));
    }
    assert forall|i: int| 0 <= i < b.pairs.len() && (#[trigger] b.pairs[i]).0 == key implies value
        == Some(b.pairs[i].1) by {
        assert(b.pairs.contains((key, b.pairs[i].1)));
        let k = choose|k: int| 0 <= k < a.pairs.len() && a.pairs[k] == (key, b.pairs[i].1);
        assert(a.pairs[k].0 == key);
    }
}

proof fn lemma_positions()
    ensures
        !is_position("sorting"@),
        !is_position("currency_price"@),
        !is_position("text"@),
        !is_position("from_global"@),
        "sorting"@ != "currency_price"@,
        "text"@ != "sorting"@,
        "text"@ != "currency_price"@,
        "text"@ != "from_global"@,
        "from_global"@ != "sorting"@,
        "from_global"@ != "currency_price"@,
        is_position("page"@),
        is_position("paginator_token"@),
        is_position("search_page_state"@),
        is_position("layout_page_index"@),
        is_position("layout_container"@),
        is_position("start_page_id"@),
{
    reveal_strlit("page");
    reveal_strlit("paginator_token");
    reveal_strlit("search_page_state");
    reveal_strlit("layout_page_index");
    reveal_strlit("layout_container");
    reveal_strlit("start_page_id");
    reveal_strlit("sorting");
    reveal_strlit("currency_price");
    reveal_strlit("text");
    reveal_strlit("from_global");
    assert("page"@.len() == 4 && "text"@.len() == 4 && "page"@[0] == 'p' && "text"@[0] == 't');
    assert("paginator_token"@.len() == 15 && "search_page_state"@.len() == 17);
    assert("layout_page_index"@.len() == 17 && "layout_container"@.len() == 16);
    assert("start_page_id"@.len() == 13 && "sorting"@.len() == 7);
    assert("currency_price"@.len() == 14 && "from_global"@.len() == 11);
    let positions = seq![
        "page"@,
        "paginator_token"@,
        "search_page_state"@,
        "layout_page_index"@,
        "layout_container"@,
        "start_page_id"@,
    ];
    assert(positions[0] == "page"@ && positions[1] == "paginator_token"@);
    assert(positions[2] == "search_page_state"@ && positions[3] == "layout_page_index"@);
    assert(positions[4] == "layout_container"@ && positions[5] == "start_page_id"@);
}

proof fn lemma_query_says(u: Seq<char>, q: Seq<char>)
    requires
        has_pairs(u, "/search/"@, seq![("text"@, q), ("from_global"@, "true"@)]),
    ensures
        says(u, "text"@, Some(q)),
        says(u, "from_global"@, Some("true"@)),
{
    lemma_positions();
    let pairs = address::parsed_url(u)->Ok_0.pairs;
    assert(pairs[0] == ("text"@, q) && pairs[1] == ("from_global"@, "true"@));
}

/// What was normalized agrees with the URL that was given.
proof fn lemma_normalized_agrees(u: Seq<char>, given: Seq<char>, key: Seq<char>)
    requires
        address::parsed_url(given) is Ok,
        is_normalized(u, address::parsed_url(given)->Ok_0),
        key != "__rr"@,
        key != "at"@,
    ensures
        agree_on(given, u, key),
{
    let a = address::parsed_url(given)->Ok_0;
    let b = address::parsed_url(u)->Ok_0;
    assert forall|v: Seq<char>| a.pairs.contains((key, v)) == #[trigger] b.pairs.contains(
        (key, v),
    ) by {
        lemma_kept_contains(a.pairs, is_lasting_key(), (key, v));
    }
}

proof fn lemma_asks_for(begun: Seq<char>, ordered: Seq<char>, u: Seq<char>, args: SearchArgsV)
    requires
        args.query matches Some(q) ==> has_pairs(
            begun,
            "/search/"@,
            seq![("text"@, text::trimmed(q)), ("from_global"@, "true"@)],
        ),
        args.search_url matches Some(given) ==> address::parsed_url(given) is Ok && is_normalized(
            begun,
            address::parsed_url(given)->Ok_0,
        ),
        is_sorted(begun, ordered, args.sort),
        is_priced(ordered, u, args.price_min, args.price_max),
        address::parsed_url(begun) is Ok,
    ensures
        asks_for(u, args),
{
    lemma_positions();
    let with_order = args.sort is Some;
    let with_price = args.price_min is Some || args.price_max is Some;
    assert forall|key: Seq<char>|
        !(key == "sorting"@ && with_order) && !(key == "currency_price"@ && with_price) && !(
        is_position(key) && (with_order || with_price)) implies #[trigger] agree_on(
        begun,
        u,
        key,
    ) by {
        assert(agree_on(begun, ordered, key));
        assert(agree_on(ordered, u, key));
    }
    if let Some(q) = args.query {
        lemma_query_says(begun, text::trimmed(q));
        assert(agree_on(begun, u, "text"@));
        assert(agree_on(begun, u, "from_global"@));
        lemma_agreed(begun, u, "text"@, Some(text::trimmed(q)));
        lemma_agreed(begun, u, "from_global"@, Some("true"@));
    }
    if let Some(given) = args.search_url {
        assert forall|key: Seq<char>|
            !(key == "sorting"@ && with_order) && !(key == "currency_price"@ && with_price) && !(
            is_position(key) && (with_order || with_price)) && key != "__rr"@ && key
                != "at"@ implies #[trigger] agree_on(given, u, key) by {
            lemma_normalized_agrees(begun, given, key);
            assert(agree_on(begun, u, key));
        }
    }
    if let Some(order) = args.sort {
        let value = if order == "popular"@ {
            None
        } else {
            Some(order)
        };
        assert(says(ordered, "sorting"@, value));
        assert(agree_on(ordered, u, "sorting"@)) by {
            assert(with_price || u == ordered);
        }
        lemma_agreed(ordered, u, "sorting"@, value);
        if !with_price {
            assert(is_first_page(u));
        }
    }
}

/// The request that arguments ask for.
pub fn prepare(args: &SearchArgs) -> (r: Result<Request, Failure>)
    ensures
        failure::outcome(r) == prepared(args@),
        r matches Ok(request) ==> {
            &&& request@.valid()
            &&& is_normal(request@.url)
            &&& args@.next_cursor is None ==> is_settled(request@.url)
            &&& args@.next_cursor is None ==> asks_for(request@.url, args@)
            &&& args@.next_cursor is None ==> request@.offset == 0 && request@.calls == 0
                && request@.seen.len() == 0
        },
{
    if !(1 <= args.limit && args.limit <= 36) {
        return Err(Failure::new("limit must be between 1 and 36"));
    }
    if let Some(cursor) = &args.next_cursor {
        if !(args.query.is_none() && args.search_url.is_none() && args.sort.is_none()
            && args.price_min.is_none() && args.price_max.is_none()) {
            return Err(
                Failure::new("nextCursor cannot be combined with query, searchUrl, sort or price"),
            );
        }
        return continue_from(cursor.as_str());
    }
    let url: String = match start(args) {
        Ok(url) => url,
        Err(e) => return Err(e),
    };
    let ghost begun = url@;
    let url: String = match sort_by(url, &args.sort) {
        Ok(url) => url,
        Err(e) => return Err(e),
    };
    let ghost ordered = url@;
    let url: String = match price_between(url, args.price_min, args.price_max) {
        Ok(url) => url,
        Err(e) => return Err(e),
    };
    match normalize_search_url(url.as_str()) {
        Ok(normal) => {
            proof {
                lemma_lasting_is_settled(url@);
                lemma_asks_for(begun, ordered, url@, args@);
            }
            let url: String = normal;
            let request: Request = Request {
                version: 1,
                url,
                offset: 0,
                seen: Vec::new(),
                calls: 0,
            };
            assert(request@.seen =~= Seq::empty());
            Ok(request)
        },
        Err(e) => Err(e),
    }
}

/// The place, from the `i`-th on, of the first widget with this name. The name of a widget
/// stands before the first hyphen of its key.
pub open spec fn widget_place(
    m: Seq<(Seq<char>, JsonV)>,
    name: Seq<char>,
    i: int,
) -> Option<int>
    decreases m.len() - i,
{
    if i < 0 || i >= m.len() {
        None
    } else if head(m[i].0, '-') == name {
        Some(i)
    } else {
        widget_place(m, name, i + 1)
    }
}

/// The state of a widget, which may be spelled as text.
pub open spec fn widget_state(v: JsonV) -> Option<JsonV> {
    match v {
        JsonV::Text(s) => json::json_value(s),
        _ => Some(v),
    }
}

/// The state of the first widget of a page with this name.
pub open spec fn widget_of(page: JsonV, name: Seq<char>) -> Option<JsonV> {
    match page.field("widgetStates"@) {
        JsonV::Object(m) => match widget_place(m, name, 0) {
            Some(i) => widget_state(m[i].1),
            None => None,
        },
        _ => None,
    }
}

fn widget(page: &Json, name: &str) -> (r: Option<Json>)
    ensures
        json::read_of(r) == widget_of(page@, name@),
{
    match page.field("widgetStates").as_object() {
        None => None,
        Some(m) => {
            let ghost all = json::members(m@);
            let mut i: usize = 0;
            while i < m.len()
                invariant
                    0 <= i <= m@.len(),
                    all == json::members(m@),
                    page@.field("widgetStates"@) == JsonV::Object(all),
                    widget_place(all, name@, 0) == widget_place(all, name@, i as int),
                decreases m@.len() - i,
            {
                let pieces: Vec<String> = text::split_at_char(m[i].0.as_str(), '-');
                assert(text::texts(pieces@)[0] == pieces@[0]@);
                assert(all[i as int] == (m@[i as int].0@, m@[i as int].1@));
                if text::same(pieces[0].as_str(), name) {
                    return match m[i].1.as_str() {
                        Some(s) => Json::parse(s),
                        None => Some(m[i].1.copy()),
                    };
                }
                i = i + 1;
            }
            None
        },
    }
}

/// The text of a label, which may stand under `text`, cut to 500 characters.
pub open spec fn label_of(v: JsonV) -> Option<Seq<char>> {
    match v.as_text() {
        Some(s) => Some(text::first(s, 500)),
        None => match v.field("text"@).as_text() {
            Some(s) => Some(text::first(s, 500)),
            None => None,
        },
    }
}

fn label(v: &Json) -> (r: Option<String>)
    ensures
        text::text_of(r) == label_of(v@),
{
    match v.as_str() {
        Some(s) => Some(text::first_chars(s, 500)),
        None => match v.field("text").as_str() {
            Some(s) => Some(text::first_chars(s, 500)),
            None => None,
        },
    }
}

/// The first page behind a link as a page shows it.
pub open spec fn link_of(v: JsonV) -> Option<Seq<char>> {
    match v.as_text() {
        Some(s) => match observed(s) {
            Some(u) => reset_url(u),
            None => None,
        },
        None => None,
    }
}

fn link(v: &Json) -> (r: Option<String>)
    ensures
        text::text_of(r) == link_of(v@),
{
    match v.as_str() {
        Some(s) => match observed_url(s) {
            Some(u) => reset(u.as_str()),
            None => None,
        },
        None => None,
    }
}

/// The items of all sections of a filter.
pub open spec fn items_of(v: JsonV) -> Seq<JsonV> {
    json::flat(v.field("sections"@).elements(), "items"@)
}

fn items<'a>(v: &'a Json) -> (r: Vec<&'a Json>)
    ensures
        json::refs(r@) == items_of(v@),
{
    json::flatten(&json::elements(v.field("sections")), "items")
}

/// Whether a selected value is named at the end of a path segment.
pub open spec fn names_selected(segment: Seq<char>, selected: Seq<Seq<char>>) -> bool {
    exists|i: int|
        0 <= i < selected.len() && text::ends(segment, "-"@ + #[trigger] selected[i])
}

/// The URL that a refinement starts from. A selected brand may be encoded in the last
/// segment of a category path, which is then left out.
pub open spec fn refinement_base_of(
    base: Seq<char>,
    key: Seq<char>,
    selected: Seq<Seq<char>>,
) -> Seq<char> {
    if key != "brand"@ {
        base
    } else {
        match address::parsed_url(base) {
            Err(_) => base,
            Ok(a) => match text::last_slash(text::without_slashes(a.path)) {
                None => base,
                Some(i) => {
                    let path = text::without_slashes(a.path);
                    let parent = path.take(i);
                    if text::starts(parent, "/category/"@) && names_selected(
                        path.skip(i + 1),
                        selected,
                    ) && address::path_fits(a) {
                        address::url_with_path(base, parent + "/"@)
                    } else {
                        a.text
                    }
                },
            },
        }
    }
}

proof fn lemma_last_slash(s: Seq<char>)
    ensures
        text::last_slash(s) matches Some(i) ==> 0 <= i < s.len() && s[i] == '/',
    decreases s.len(),
{
    if s.len() > 0 && s.last() != '/' {
        lemma_last_slash(s.drop_last());
    }
}

proof fn lemma_without_slashes(s: Seq<char>)
    ensures
        text::without_slashes(s).len() <= s.len(),
        text::without_slashes(s) == s.take(text::without_slashes(s).len() as int),
    decreases s.len(),
{
    if s.len() > 0 && s.last() == '/' {
        lemma_without_slashes(s.drop_last());
        let n = text::without_slashes(s).len() as int;
        assert(s.drop_last().take(n) =~= s.take(n));
    } else {
        assert(s.take(s.len() as int) =~= s);
    }
}

fn refinement_base(base: &str, key: &str, selected: &Vec<String>) -> (r: String)
    ensures
        r@ == refinement_base_of(base@, key@, text::texts(selected@)),
{
    if !text::same(key, "brand") {
        return base.to_owned();
    }
    let url: Address = match address::parse_url(base) {
        Ok(a) => a,
        Err(_) => return base.to_owned(),
    };
    let path: Vec<char> = text::trim_slashes(url.path.as_str());
    let at: usize = match text::find_last_slash(&path) {
        Some(i) => i,
        None => return base.to_owned(),
    };
    proof {
        lemma_last_slash(path@);
        lemma_without_slashes(url.path@);
    }
    assert(at < path.len());
    let parent: String = text::substring(&path, 0, at);
    let segment: String = text::substring(&path, at + 1, path.len());
    assert(parent@ =~= path@.take(at as int));
    assert(segment@ =~= path@.skip(at + 1));
    let ghost all = text::texts(selected@);
    let mut named: bool = false;
    let mut i: usize = 0;
    while i < selected.len()
        invariant
            0 <= i <= selected@.len(),
            all == text::texts(selected@),
            named == (exists|k: int|
                0 <= k < i && text::ends(segment@, "-"@ + #[trigger] all[k])),
        decreases selected@.len() - i,
    {
        let suffix: String = text::joined("-", selected[i].as_str());
        assert(all[i as int] == selected@[i as int]@);
        if text::ends_with(segment.as_str(), suffix.as_str()) {
            named = true;
        }
        i = i + 1;
    }
    let shorter: String = text::joined(parent.as_str(), "/");
    if text::starts_with(parent.as_str(), "/category/") && named && address::is_path_small(&url) {
        proof {
            reveal_strlit("/");
            reveal_strlit("/category/");
            assert(shorter@ =~= url.path@.take(at + 1));
            assert(url.path@.subrange(0, shorter@.len() as int) =~= shorter@);
            assert(shorter@[0] == parent@.subrange(0, "/category/"@.len() as int)[0]);
            assert(shorter@.subrange(0, 1) =~= "/"@);
        }
        address::with_path(base, shorter.as_str())
    } else {
        url.text
    }
}

/// The filters with this key.
pub open spec fn filters_with(v: Seq<JsonV>, key: Seq<char>) -> Seq<JsonV>
    decreases v.len(),
{
    if v.len() == 0 {
        v
    } else if v.last().field("key"@).as_text() == Some(key) {
        filters_with(v.drop_last(), key).push(v.last())
    } else {
        filters_with(v.drop_last(), key)
    }
}

/// The first value, from the `i`-th on, with this label.
pub open spec fn value_labelled(v: Seq<JsonV>, target: Option<Seq<char>>, i: int) -> Option<JsonV>
    decreases v.len() - i,
{
    if i < 0 || i >= v.len() {
        None
    } else if label_of(v[i].field("title"@)) == target {
        Some(v[i])
    } else {
        value_labelled(v, target, i + 1)
    }
}

/// The link that a page offers for taking back a selected value.
pub open spec fn disable_link_of(page: JsonV, key: Seq<char>, title: JsonV) -> Option<Seq<char>> {
    match widget_of(page, "searchResultsFiltersActive"@) {
        None => None,
        Some(w) => match value_labelled(
            json::flat(
                filters_with(w.field("activeFilters"@).elements(), key),
                "activeValues"@,
            ),
            label_of(title),
            0,
        ) {
            Some(v) => link_of(v.field("disableUri"@)),
            None => None,
        },
    }
}

fn same_label(a: &Option<String>, b: &Option<String>) -> (r: bool)
    ensures
        r == (text::text_of(*a) == text::text_of(*b)),
{
    match (a, b) {
        (Some(a), Some(b)) => text::same(a.as_str(), b.as_str()),
        (None, None) => true,
        _ => false,
    }
}

fn disable_link(page: &Json, key: &str, title: &Json) -> (r: Option<String>)
    ensures
        text::text_of(r) == disable_link_of(page@, key@, title@),
{
    let w: Json = match widget(page, "searchResultsFiltersActive") {
        Some(w) => w,
        None => return None,
    };
    let target: Option<String> = label(title);
    let filters: Vec<&Json> = json::elements(w.field("activeFilters"));
    let ghost all = json::refs(filters@);
    let mut with_key: Vec<&Json> = Vec::new();
    let mut i: usize = 0;
    assert(all.take(0) =~= Seq::empty());
    assert(json::refs(with_key@) =~= Seq::empty());
    while i < filters.len()
        invariant
            0 <= i <= filters@.len(),
            all == json::refs(filters@),
            json::refs(with_key@) == filters_with(all.take(i as int), key@),
        decreases filters@.len() - i,
    {
        assert(all.take(i + 1).drop_last() =~= all.take(i as int));
        assert(all.take(i + 1).last() == filters@[i as int]@);
        let wanted: bool = match filters[i].field("key").as_str() {
            Some(k) => text::same(k, key),
            None => false,
        };
        if wanted {
            let ghost before = with_key@;
            with_key.push(filters[i]);
            assert(json::refs(with_key@) =~= json::refs(before).push(filters@[i as int]@));
        }
        i = i + 1;
    }
    assert(all.take(i as int) =~= all);
    let values: Vec<&Json> = json::flatten(&with_key, "activeValues");
    let ghost found = json::refs(values@);
    let mut k: usize = 0;
    while k < values.len()
        invariant
            0 <= k <= values@.len(),
            found == json::refs(values@),
            value_labelled(found, text::text_of(target), 0) == value_labelled(
                found,
                text::text_of(target),
                k as int,
            ),
            disable_link_of(page@, key@, title@) == (match value_labelled(
                found,
                text::text_of(target),
                0,
            ) {
                Some(v) => link_of(v.field("disableUri"@)),
                None => None,
            }),
        decreases values@.len() - k,
    {
        assert(found[k as int] == values@[k as int]@);
        let this: Option<String> = label(values[k].field("title"));
        if same_label(&this, &target) {
            return link(values[k].field("disableUri"));
        }
        k = k + 1;
    }
    None
}

pub open spec fn is_facet_kind(kind: Seq<char>) -> bool {
    ||| kind == "categoryFilter"@
    ||| kind == "boolFilter"@
    ||| kind == "checkboxesFilter"@
    ||| kind == "multipleRangesFilter"@
    ||| kind == "rangeFilter"@
    ||| kind == "colorFilter"@
}

fn facet_kind(kind: &str) -> (r: bool)
    ensures
        r == is_facet_kind(kind@),
{
    text::same(kind, "categoryFilter") || text::same(kind, "boolFilter") || text::same(
        kind,
        "checkboxesFilter",
    ) || text::same(kind, "multipleRangesFilter") || text::same(kind, "rangeFilter")
        || text::same(kind, "colorFilter")
}

/// A range with one more end, where the filter shows a number for it.
pub open spec fn range_with(range: JsonV, body: JsonV, key: Seq<char>) -> JsonV {
    if body.field(key) is Number {
        range.with(key, body.field(key))
    } else {
        range
    }
}

/// The ends of a range that a filter shows.
pub open spec fn range_of(body: JsonV) -> JsonV {
    range_with(
        range_with(
            range_with(range_with(JsonV::object(), body, "minValue"@), body, "maxValue"@),
            body,
            "fromValue"@,
        ),
        body,
        "toValue"@,
    )
}

fn add_range_end(range: Json, body: &Json, key: &str) -> (r: Json)
    ensures
        r@ == range_with(range@, body@, key@),
{
    let value: &Json = body.field(key);
    if let Json::Number(_) = value {
        range.with(key, value.copy())
    } else {
        range
    }
}

/// A member of an object that is true.
pub open spec fn is_set(v: JsonV, key: Seq<char>) -> bool {
    v.field(key).as_bool() == Some(true)
}

fn set(v: &Json, key: &str) -> (r: bool)
    ensures
        r == is_set(v@, key@),
{
    match v.field(key).as_bool() {
        Some(b) => b,
        None => false,
    }
}

/// An option of a category filter.
pub open spec fn category_option(c: JsonV) -> JsonV {
    JsonV::object().with("label"@, JsonV::optional_text(label_of(c.field("title"@)))).with(
        "selected"@,
        JsonV::Bool(is_set(c, "isActive"@)),
    ).with("level"@, c.field("level"@)).with(
        "searchUrl"@,
        JsonV::optional_text(link_of(c.field("urlValue"@))),
    )
}

/// The first `n` options of a category filter.
pub open spec fn category_options(v: Seq<JsonV>, n: int) -> Seq<JsonV> {
    Seq::new(
        if v.len() < n {
            v.len()
        } else {
            n as nat
        },
        |i: int| category_option(v[i]),
    )
}

fn category_rows(categories: &Vec<&Json>) -> (r: Vec<Json>)
    ensures
        json::values(r@) == category_options(json::refs(categories@), 20),
{
    let ghost all = json::refs(categories@);
    let mut out: Vec<Json> = Vec::new();
    let mut i: usize = 0;
    assert(json::values(out@) =~= category_options(all, 0));
    while i < categories.len() && i < 20
        invariant
            0 <= i <= categories@.len(),
            i <= 20,
            all == json::refs(categories@),
            json::values(out@) =~= category_options(all, i as int),
        decreases categories@.len() - i,
    {
        let c: &Json = categories[i];
        assert(all[i as int] == c@);
        let row: Json = Json::object().with("label", json::optional(&label(c.field("title")))).with(
            "selected",
            Json::Bool(set(c, "isActive")),
        ).with("level", c.field("level").copy()).with(
            "searchUrl",
            json::optional(&link(c.field("urlValue"))),
        );
        proof {
            json::lemma_values_push(out@, row);
        }
        out.push(row);
        i = i + 1;
        assert(category_options(all, i as int) =~= category_options(all, i - 1).push(
            category_option(all[i - 1]),
        ));
    }
    assert(json::values(out@) =~= category_options(all, 20));
    out
}

/// The keys of the items that a filter shows as selected.
pub open spec fn selected_keys(v: Seq<JsonV>) -> Seq<Seq<char>>
    decreases v.len(),
{
    if v.len() == 0 {
        Seq::empty()
    } else if is_set(v.last(), "isSelected"@) && v.last().field("key"@) is Text {
        selected_keys(v.drop_last()).push(v.last().field("key"@)->Text_0)
    } else {
        selected_keys(v.drop_last())
    }
}

/// The values that a URL has under a key, separated by commas.
pub open spec fn listed_values(
    pairs: Seq<(Seq<char>, Seq<char>)>,
    key: Seq<char>,
) -> Seq<Seq<char>>
    decreases pairs.len(),
{
    if pairs.len() == 0 {
        Seq::empty()
    } else if pairs.last().0 == key {
        listed_values(pairs.drop_last(), key) + text::split(pairs.last().1, ',')
    } else {
        listed_values(pairs.drop_last(), key)
    }
}

/// The selected values of a filter: those that its items show, then those that only the
/// URL names, because their section is collapsed.
pub open spec fn selection(all: Seq<JsonV>, base: Seq<char>, key: Seq<char>) -> Seq<Seq<char>> {
    match address::parsed_url(base) {
        Ok(a) => text::united(selected_keys(all), listed_values(a.pairs, key)),
        Err(_) => selected_keys(all),
    }
}

fn select(all: &Vec<&Json>, base: &str, key: &str) -> (r: Vec<String>)
    ensures
        text::texts(r@) == selection(json::refs(all@), base@, key@),
{
    let ghost rows = json::refs(all@);
    let mut selected: Vec<String> = Vec::new();
    let mut i: usize = 0;
    assert(rows.take(0) =~= Seq::empty());
    assert(text::texts(selected@) =~= Seq::empty());
    while i < all.len()
        invariant
            0 <= i <= all@.len(),
            rows == json::refs(all@),
            text::texts(selected@) == selected_keys(rows.take(i as int)),
        decreases all@.len() - i,
    {
        assert(rows.take(i + 1).drop_last() =~= rows.take(i as int));
        assert(rows.take(i + 1).last() == all@[i as int]@);
        if set(all[i], "isSelected") {
            if let Some(k) = all[i].field("key").as_str() {
                let owned: String = k.to_owned();
                proof {
                    text::lemma_texts_push(selected@, owned);
                }
                selected.push(owned);
            }
        }
        i = i + 1;
    }
    assert(rows.take(i as int) =~= rows);
    let url: Address = match address::parse_url(base) {
        Ok(a) => a,
        Err(_) => return selected,
    };
    let ghost shown = text::texts(selected@);
    let ghost pairs = address::pairs_of(url.pairs@);
    let mut k: usize = 0;
    assert(pairs.take(0) =~= Seq::empty());
    while k < url.pairs.len()
        invariant
            0 <= k <= url.pairs@.len(),
            pairs == address::pairs_of(url.pairs@),
            text::texts(selected@) == text::united(shown, listed_values(pairs.take(k as int), key@)),
        decreases url.pairs@.len() - k,
    {
        assert(pairs.take(k + 1).drop_last() =~= pairs.take(k as int));
        assert(pairs.take(k + 1).last() == (url.pairs@[k as int].0@, url.pairs@[k as int].1@));
        if text::same(url.pairs[k].0.as_str(), key) {
            let values: Vec<String> = text::split_at_char(url.pairs[k].1.as_str(), ',');
            let ghost earlier = listed_values(pairs.take(k as int), key@);
            let ghost listed = text::texts(values@);
            let mut j: usize = 0;
            assert(earlier + listed.take(0) =~= earlier);
            while j < values.len()
                invariant
                    0 <= j <= values@.len(),
                    listed == text::texts(values@),
                    text::texts(selected@) == text::united(shown, earlier + listed.take(j as int)),
                decreases values@.len() - j,
            {
                assert(listed[j as int] == values@[j as int]@);
                assert(earlier + listed.take(j + 1) =~= (earlier + listed.take(j as int)).push(
                    listed[j as int],
                ));
                proof {
                    text::lemma_united_push(shown, earlier + listed.take(j as int), listed[j as int]);
                }
                if !text::contains_text(&selected, values[j].as_str()) {
                    let owned: String = values[j].clone();
                    proof {
                        text::lemma_texts_push(selected@, owned);
                    }
                    selected.push(owned);
                }
                j = j + 1;
            }
            assert(listed.take(j as int) =~= listed);
        }
        k = k + 1;
    }
    assert(pairs.take(k as int) =~= pairs);
    selected
}

/// Texts without those that equal `x`.
pub open spec fn others(v: Seq<Seq<char>>, x: Seq<char>) -> Seq<Seq<char>>
    decreases v.len(),
{
    if v.len() == 0 {
        v
    } else if v.last() == x {
        others(v.drop_last(), x)
    } else {
        others(v.drop_last(), x).push(v.last())
    }
}

/// The values of a filter once `value` is added or, where it is selected, taken back.
pub open spec fn toggled(
    selected: Seq<Seq<char>>,
    radio: bool,
    active: bool,
    value: Seq<char>,
) -> Seq<Seq<char>> {
    let values = if radio {
        Seq::empty()
    } else {
        selected
    };
    if active {
        others(values, value)
    } else {
        values.push(value)
    }
}

fn toggle(selected: &Vec<String>, radio: bool, active: bool, value: &str) -> (r: Vec<String>)
    ensures
        text::texts(r@) == toggled(text::texts(selected@), radio, active, value@),
{
    let mut out: Vec<String> = Vec::new();
    assert(text::texts(out@) =~= Seq::empty());
    if !radio {
        let ghost all = text::texts(selected@);
        let mut i: usize = 0;
        assert(all.take(0) =~= Seq::empty());
        while i < selected.len()
            invariant
                0 <= i <= selected@.len(),
                all == text::texts(selected@),
                text::texts(out@) == (if active {
                    others(all.take(i as int), value@)
                } else {
                    all.take(i as int)
                }),
            decreases selected@.len() - i,
        {
            assert(all.take(i + 1).drop_last() =~= all.take(i as int));
            assert(all.take(i + 1) =~= all.take(i as int).push(selected@[i as int]@));
            if !active || !text::same(selected[i].as_str(), value) {
                let owned: String = selected[i].clone();
                proof {
                    text::lemma_texts_push(out@, owned);
                }
                out.push(owned);
            }
            i = i + 1;
        }
        assert(all.take(i as int) =~= all);
    }
    if !active {
        let owned: String = value.to_owned();
        proof {
            text::lemma_texts_push(out@, owned);
        }
        out.push(owned);
    }
    out
}

/// The title of an item of a filter, or its description where it has none.
pub open spec fn item_title(item: JsonV) -> JsonV {
    match item.get("title"@) {
        Some(t) => t,
        None => item.field("description"@),
    }
}

/// The search that an item of a filter leads to.
pub open spec fn item_target(
    page: JsonV,
    item: JsonV,
    key: Seq<char>,
    option_base: Seq<char>,
    selected: Seq<Seq<char>>,
    radio: bool,
) -> Option<Seq<char>> {
    let active = is_set(item, "isSelected"@);
    let joined = text::join(toggled(selected, radio, active, item.field("key"@)->Text_0), ","@);
    let stepped = refined(
        option_base,
        key,
        if joined.len() == 0 {
            None
        } else {
            Some(joined)
        },
    );
    if active {
        match disable_link_of(page, key, item_title(item)) {
            Some(u) => Some(u),
            None => stepped,
        }
    } else {
        stepped
    }
}

/// An option of a filter whose items are chosen by their keys.
pub open spec fn item_option(
    page: JsonV,
    item: JsonV,
    key: Seq<char>,
    option_base: Seq<char>,
    selected: Seq<Seq<char>>,
    radio: bool,
) -> JsonV {
    JsonV::object().with("value"@, item.field("key"@)).with(
        "label"@,
        JsonV::optional_text(label_of(item_title(item))),
    ).with("selected"@, JsonV::Bool(is_set(item, "isSelected"@))).with(
        "searchUrl"@,
        JsonV::optional_text(item_target(page, item, key, option_base, selected, radio)),
    )
}

/// The items that have a key.
pub open spec fn keyed(v: Seq<JsonV>) -> Seq<JsonV>
    decreases v.len(),
{
    if v.len() == 0 {
        v
    } else if v.last().field("key"@) is Text {
        keyed(v.drop_last()).push(v.last())
    } else {
        keyed(v.drop_last())
    }
}

/// The first `n` options of a filter whose items are chosen by their keys.
pub open spec fn item_options(
    page: JsonV,
    v: Seq<JsonV>,
    key: Seq<char>,
    option_base: Seq<char>,
    selected: Seq<Seq<char>>,
    radio: bool,
    n: int,
) -> Seq<JsonV> {
    Seq::new(
        if v.len() < n {
            v.len()
        } else {
            n as nat
        },
        |i: int| item_option(page, v[i], key, option_base, selected, radio),
    )
}

fn title_of(item: &Json) -> (r: &Json)
    ensures
        r@ == item_title(item@),
{
    match item.get("title") {
        Some(t) => t,
        None => item.field("description"),
    }
}

fn item_row(
    page: &Json,
    item: &Json,
    value: &str,
    key: &str,
    option_base: &str,
    selected: &Vec<String>,
    radio: bool,
) -> (r: Json)
    requires
        item@.field("key"@) == JsonV::Text(value@),
    ensures
        r@ == item_option(
            page@,
            item@,
            key@,
            option_base@,
            text::texts(selected@),
            radio,
        ),
{
    let active: bool = set(item, "isSelected");
    let values: Vec<String> = toggle(selected, radio, active, value);
    let joined: String = text::join_texts(&values, ",");
    let disabled: Option<String> = if active {
        disable_link(page, key, title_of(item))
    } else {
        None
    };
    let target: Option<String> = match disabled {
        Some(u) => Some(u),
        None => refine(
            option_base,
            key,
            if joined.as_str().is_empty() {
                None
            } else {
                Some(joined.as_str())
            },
        ),
    };
    Json::object().with("value", Json::text(value)).with(
        "label",
        json::optional(&label(title_of(item))),
    ).with("selected", Json::Bool(active)).with("searchUrl", json::optional(&target))
}

fn item_rows(
    page: &Json,
    all: &Vec<&Json>,
    key: &str,
    option_base: &str,
    selected: &Vec<String>,
    radio: bool,
) -> (r: (Vec<Json>, bool))
    ensures
        json::values(r.0@) == item_options(
            page@,
            keyed(json::refs(all@)),
            key@,
            option_base@,
            text::texts(selected@),
            radio,
            20,
        ),
        r.1 == (keyed(json::refs(all@)).len() > 20),
{
    let ghost rows = json::refs(all@);
    let ghost chosen = text::texts(selected@);
    let mut out: Vec<Json> = Vec::new();
    let mut more: bool = false;
    let mut i: usize = 0;
    assert(rows.take(0) =~= Seq::empty());
    assert(json::values(out@) =~= item_options(
        page@,
        keyed(rows.take(0)),
        key@,
        option_base@,
        chosen,
        radio,
        20,
    ));
    while i < all.len()
        invariant
            0 <= i <= all@.len(),
            rows == json::refs(all@),
            chosen == text::texts(selected@),
            json::values(out@) == item_options(
                page@,
                keyed(rows.take(i as int)),
                key@,
                option_base@,
                chosen,
                radio,
                20,
            ),
            more == (keyed(rows.take(i as int)).len() > 20),
        decreases all@.len() - i,
    {
        let ghost before = keyed(rows.take(i as int));
        assert(rows.take(i + 1).drop_last() =~= rows.take(i as int));
        assert(rows.take(i + 1).last() == all@[i as int]@);
        if let Some(value) = all[i].field("key").as_str() {
            assert(keyed(rows.take(i + 1)) == before.push(all@[i as int]@));
            assert(json::values(out@).len() == out@.len());
            if out.len() < 20 {
                let row: Json = item_row(page, all[i], value, key, option_base, selected, radio);
                proof {
                    json::lemma_values_push(out@, row);
                }
                out.push(row);
                assert(json::values(out@) =~= item_options(
                    page@,
                    before.push(all@[i as int]@),
                    key@,
                    option_base@,
                    chosen,
                    radio,
                    20,
                ));
            } else {
                more = true;
                assert(json::values(out@) =~= item_options(
                    page@,
                    before.push(all@[i as int]@),
                    key@,
                    option_base@,
                    chosen,
                    radio,
                    20,
                ));
            }
        }
        i = i + 1;
    }
    assert(rows.take(i as int) =~= rows);
    (out, more)
}

/// The part of a filter that its title and its range stand in.
pub open spec fn title_body_of(filter: JsonV, kind: Seq<char>) -> JsonV {
    if kind == "multipleRangesFilter"@ {
        filter.field(kind).field("rangeFilter"@)
    } else {
        filter.field(kind)
    }
}

/// The part of a filter that its items stand in.
pub open spec fn checks_of(filter: JsonV, kind: Seq<char>) -> JsonV {
    if kind == "multipleRangesFilter"@ {
        filter.field(kind).field("checkboxesFilter"@)
    } else {
        filter.field(kind)
    }
}

/// What every facet shows: its kind, key, title, description and range.
pub open spec fn facet_head(filter: JsonV, kind: Seq<char>, key: Seq<char>) -> JsonV {
    let body = title_body_of(filter, kind);
    let f = JsonV::object().with("type"@, JsonV::Text(kind)).with("key"@, JsonV::Text(key)).with(
        "title"@,
        JsonV::optional_text(label_of(body.field("title"@))),
    ).with("description"@, JsonV::optional_text(label_of(body.field("description"@))));
    if kind == "multipleRangesFilter"@ || kind == "rangeFilter"@ {
        f.with("range"@, range_of(body))
    } else {
        f
    }
}

/// A facet that is on or off.
pub open spec fn switch_facet(f: JsonV, body: JsonV, base: Seq<char>, key: Seq<char>) -> JsonV {
    let selected = is_set(body, "isSelected"@);
    f.with("selected"@, JsonV::Bool(selected)).with(
        "searchUrl"@,
        JsonV::optional_text(
            refined(
                base,
                key,
                if selected {
                    None
                } else {
                    Some("true"@)
                },
            ),
        ),
    )
}

/// A facet that leads to other categories.
pub open spec fn category_facet(f: JsonV, body: JsonV) -> JsonV {
    let categories = body.field("categories"@).elements();
    f.with("options"@, JsonV::Array(category_options(categories, 20))).with(
        "optionsTruncated"@,
        JsonV::Bool(categories.len() > 20),
    )
}

/// A facet whose items are chosen by their keys.
pub open spec fn choice_facet(
    page: JsonV,
    f: JsonV,
    checks: JsonV,
    base: Seq<char>,
    key: Seq<char>,
) -> JsonV {
    let all = items_of(checks) + checks.field("colorIcons"@).elements();
    let radio = is_set(checks, "isRadio"@);
    let selected = selection(all, base, key);
    f.with("isRadio"@, JsonV::Bool(radio)).with(
        "hasMoreValues"@,
        JsonV::Bool(
            is_set(checks, "hasManyValues"@) || checks.field("openingButtons"@).get(
                "showAllButton"@,
            ) is Some,
        ),
    ).with(
        "options"@,
        JsonV::Array(
            item_options(
                page,
                keyed(all),
                key,
                refinement_base_of(base, key, selected),
                selected,
                radio,
                20,
            ),
        ),
    ).with("optionsTruncated"@, JsonV::Bool(keyed(all).len() > 20))
}

/// The facet that a filter shows; none where its kind or its key is not understood.
pub open spec fn facet_of(page: JsonV, base: Seq<char>, filter: JsonV) -> Option<JsonV> {
    match (filter.field("type"@).as_text(), filter.field("key"@).as_text()) {
        (Some(kind), Some(key)) => if is_facet_kind(kind) && is_safe_key(key) {
            let f = facet_head(filter, kind, key);
            Some(
                if kind == "boolFilter"@ {
                    switch_facet(f, filter.field(kind), base, key)
                } else if kind == "categoryFilter"@ {
                    category_facet(f, filter.field(kind))
                } else {
                    choice_facet(page, f, checks_of(filter, kind), base, key)
                },
            )
        } else {
            None
        },
        _ => None,
    }
}

pub const MAX_FACETS: usize = 40;

pub const MAX_FACET_BYTES: usize = 24_000;

/// The facets of the filters from the `i`-th on, behind those that were found before, as
/// long as the bounds leave room; and whether they did not.
pub open spec fn gathered(
    page: JsonV,
    base: Seq<char>,
    filters: Seq<JsonV>,
    i: int,
    out: Seq<JsonV>,
    bytes: nat,
) -> (Seq<JsonV>, bool)
    decreases filters.len() - i,
{
    if i < 0 || i >= filters.len() {
        (out, false)
    } else {
        match facet_of(page, base, filters[i]) {
            None => gathered(page, base, filters, i + 1, out, bytes),
            Some(f) => {
                let size = text::utf8_len(json::json_text(f));
                if out.len() >= MAX_FACETS || bytes + size > MAX_FACET_BYTES {
                    (out, true)
                } else {
                    gathered(page, base, filters, i + 1, out.push(f), bytes + size)
                }
            },
        }
    }
}

/// The facets of a page; null where it shows no filters.
pub open spec fn facets_of(page: JsonV, base: Seq<char>) -> JsonV {
    match widget_of(page, "filtersDesktop"@) {
        None => JsonV::Null,
        Some(w) => {
            let filters = json::flat(w.field("sections"@).elements(), "filters"@);
            let found = gathered(page, base, filters, 0, Seq::empty(), 0);
            JsonV::object().with("items"@, JsonV::Array(found.0)).with(
                "truncated"@,
                JsonV::Bool(found.1),
            )
        },
    }
}

fn facet_start(filter: &Json, kind: &str, key: &str) -> (r: Json)
    ensures
        r@ == facet_head(filter@, kind@, key@),
{
    let whole: &Json = filter.field(kind);
    let body: &Json = if text::same(kind, "multipleRangesFilter") {
        whole.field("rangeFilter")
    } else {
        whole
    };
    let f: Json = Json::object().with("type", Json::text(kind)).with("key", Json::text(key)).with(
        "title",
        json::optional(&label(body.field("title"))),
    ).with("description", json::optional(&label(body.field("description"))));
    if text::same(kind, "multipleRangesFilter") || text::same(kind, "rangeFilter") {
        let range: Json = add_range_end(Json::object(), body, "minValue");
        let range: Json = add_range_end(range, body, "maxValue");
        let range: Json = add_range_end(range, body, "fromValue");
        let range: Json = add_range_end(range, body, "toValue");
        f.with("range", range)
    } else {
        f
    }
}

fn choices(page: &Json, f: Json, checks: &Json, base: &str, key: &str) -> (r: Json)
    ensures
        r@ == choice_facet(page@, f@, checks@, base@, key@),
{
    let mut all: Vec<&Json> = items(checks);
    json::append_elements(&mut all, checks.field("colorIcons"));
    let radio: bool = set(checks, "isRadio");
    let selected: Vec<String> = select(&all, base, key);
    let option_base: String = refinement_base(base, key, &selected);
    let rows: (Vec<Json>, bool) = item_rows(
        page,
        &all,
        key,
        option_base.as_str(),
        &selected,
        radio,
    );
    let more: bool = set(checks, "hasManyValues") || checks.field("openingButtons").get(
        "showAllButton",
    ).is_some();
    f.with("isRadio", Json::Bool(radio)).with("hasMoreValues", Json::Bool(more)).with(
        "options",
        Json::array(rows.0),
    ).with("optionsTruncated", Json::Bool(rows.1))
}

fn facet(page: &Json, base: &str, filter: &Json) -> (r: Option<Json>)
    ensures
        json::read_of(r) == facet_of(page@, base@, filter@),
{
    let kind: &str = match filter.field("type").as_str() {
        Some(kind) => kind,
        None => return None,
    };
    let key: &str = match filter.field("key").as_str() {
        Some(key) => key,
        None => return None,
    };
    if !facet_kind(kind) || !safe_key(key) {
        return None;
    }
    let f: Json = facet_start(filter, kind, key);
    let body: &Json = filter.field(kind);
    if text::same(kind, "boolFilter") {
        let selected: bool = set(body, "isSelected");
        let target: Option<String> = refine(
            base,
            key,
            if selected {
                None
            } else {
                Some("true")
            },
        );
        Some(f.with("selected", Json::Bool(selected)).with("searchUrl", json::optional(&target)))
    } else if text::same(kind, "categoryFilter") {
        let categories: Vec<&Json> = json::elements(body.field("categories"));
        let options: Vec<Json> = category_rows(&categories);
        assert(json::refs(categories@).len() == categories@.len());
        Some(
            f.with("options", Json::array(options)).with(
                "optionsTruncated",
                Json::Bool(categories.len() > 20),
            ),
        )
    } else if text::same(kind, "multipleRangesFilter") {
        Some(choices(page, f, body.field("checkboxesFilter"), base, key))
    } else {
        Some(choices(page, f, body, base, key))
    }
}

/// The facets of a page; null where it shows no filters.
pub fn facets(page: &Json, base: &str) -> (r: Json)
    ensures
        r@ == facets_of(page@, base@),
{
    let w: Json = match widget(page, "filtersDesktop") {
        Some(w) => w,
        None => return Json::Null,
    };
    let filters: Vec<&Json> = json::flatten(&json::elements(w.field("sections")), "filters");
    let ghost all = json::refs(filters@);
    let mut out: Vec<Json> = Vec::new();
    let mut bytes: usize = 0;
    let mut truncated: bool = false;
    let mut i: usize = 0;
    assert(json::values(out@) =~= Seq::empty());
    while i < filters.len() && !truncated
        invariant
            0 <= i <= filters@.len(),
            all == json::refs(filters@),
            bytes <= MAX_FACET_BYTES,
            gathered(page@, base@, all, 0, Seq::empty(), 0) == (if truncated {
                (json::values(out@), true)
            } else {
                gathered(page@, base@, all, i as int, json::values(out@), bytes as nat)
            }),
        decreases filters@.len() - i, !truncated as int,
    {
        assert(all[i as int] == filters@[i as int]@);
        if let Some(f) = facet(page, base, filters[i]) {
            let size: usize = text::utf8_length(f.to_text().as_str());
            assert(json::values(out@).len() == out@.len());
            if out.len() >= MAX_FACETS || size > MAX_FACET_BYTES - bytes {
                truncated = true;
            } else {
                proof {
                    json::lemma_values_push(out@, f);
                }
                bytes = bytes + size;
                out.push(f);
                i = i + 1;
            }
        } else {
            i = i + 1;
        }
    }
    Json::object().with("items", Json::array(out)).with("truncated", Json::Bool(truncated))
}

/// The ends of the range of prices that a search asks for, by their places in the order of
/// the numbers. A range that is not understood is none.
pub open spec fn price_bounds_of(pairs: Seq<(Seq<char>, Seq<char>)>) -> Option<(u64, u64)> {
    match address::value_of(pairs, "currency_price"@) {
        None => None,
        Some(value) => match text::cut(value, ';') {
            None => None,
            Some((low, high)) => match (double::double_of(low), double::double_of(high)) {
                (Some((min, _)), Some((max, _))) => if double::order(min) >= 0 && double::order(max)
                    >= double::order(min) {
                    Some((min, max))
                } else {
                    None
                },
                _ => None,
            },
        },
    }
}

/// Whether the price of a product lies in a range; nothing where it shows no price or the
/// search has no range.
pub open spec fn in_price_range(product: JsonV, bounds: Option<(u64, u64)>) -> Option<bool> {
    match (bounds, product.field("price"@)) {
        (Some((min, max)), JsonV::Number(n)) => {
            let place = double::order(double::bits_of(n) as u64);
            if double::is_finite(double::bits_of(n) as u64) {
                Some(double::order(min) <= place <= double::order(max))
            } else {
                None
            }
        },
        _ => None,
    }
}

pub open spec fn optional_bool(b: Option<bool>) -> JsonV {
    match b {
        Some(v) => JsonV::Bool(v),
        None => JsonV::Null,
    }
}

/// Products, each with a note on whether its price lies in a range.
pub open spec fn annotated(products: Seq<JsonV>, bounds: Option<(u64, u64)>) -> Seq<JsonV> {
    Seq::new(
        products.len(),
        |i: int|
            products[i].with(
                "matchesPriceRange"@,
                optional_bool(in_price_range(products[i], bounds)),
            ),
    )
}

/// Whether some product is known to lie outside a range.
pub open spec fn any_outside(products: Seq<JsonV>, bounds: Option<(u64, u64)>) -> bool {
    exists|i: int|
        0 <= i < products.len() && in_price_range(#[trigger] products[i], bounds) == Some(false)
}

fn price_bounds(pairs: &Vec<(String, String)>) -> (r: Option<(u64, u64)>)
    ensures
        r == price_bounds_of(address::pairs_of(pairs@)),
{
    let value: String = match address::first_value(pairs, "currency_price") {
        Some(value) => value,
        None => return None,
    };
    let ends: (String, String) = match text::split_once(value.as_str(), ';') {
        Some(ends) => ends,
        None => return None,
    };
    match (double::read_double(ends.0.as_str()), double::read_double(ends.1.as_str())) {
        (Some(min), Some(max)) => if double::order_of(min.bits) >= 0 && double::order_of(max.bits)
            >= double::order_of(min.bits) {
            Some((min.bits, max.bits))
        } else {
            None
        },
        _ => None,
    }
}

fn matches_price_range(product: &Json, bounds: Option<(u64, u64)>) -> (r: Option<bool>)
    ensures
        r == in_price_range(product@, bounds),
{
    match (bounds, product.field("price")) {
        (Some((min, max)), Json::Number(n)) => {
            let bits: u64 = double::number_bits(n);
            let place: i128 = double::order_of(bits);
            if -(double::INFINITE as i128) < place && place < double::INFINITE as i128 {
                Some(double::order_of(min) <= place && place <= double::order_of(max))
            } else {
                None
            }
        },
        _ => None,
    }
}

/// Notes on each product whether its price lies in the range that a search asks for, and
/// says whether some product is known to lie outside it. No product is moved or left out.
pub fn annotate_price_range(products: &mut Vec<Json>, url: &Address) -> (r: bool)
    ensures
        json::values(final(products)@) == annotated(
            json::values(old(products)@),
            price_bounds_of(url@.pairs),
        ),
        r == any_outside(json::values(old(products)@), price_bounds_of(url@.pairs)),
{
    let bounds: Option<(u64, u64)> = price_bounds(&url.pairs);
    let ghost before = json::values(products@);
    let mut outside: bool = false;
    let mut i: usize = 0;
    while i < products.len()
        invariant
            0 <= i <= products@.len(),
            bounds == price_bounds_of(url@.pairs),
            before.len() == products@.len(),
            forall|k: int| 0 <= k < i ==> products@[k]@ == #[trigger] annotated(before, bounds)[k],
            forall|k: int| i <= k < products@.len() ==> products@[k]@ == #[trigger] before[k],
            outside == (exists|k: int|
                0 <= k < i && in_price_range(#[trigger] before[k], bounds) == Some(false)),
        decreases products@.len() - i,
    {
        let matched: Option<bool> = matches_price_range(&products[i], bounds);
        assert(products@[i as int]@ == before[i as int]);
        if let Some(false) = matched {
            outside = true;
        }
        let note: Json = match matched {
            Some(b) => Json::Bool(b),
            None => Json::Null,
        };
        let noted: Json = products[i].copy().with("matchesPriceRange", note);
        products.set(i, noted);
        i = i + 1;
    }
    assert(json::values(products@) =~= annotated(before, bounds));
    outside
}

/// The article number of an item, which may be spelled as a number.
pub open spec fn sku_of(item: JsonV) -> Option<Seq<char>> {
    match item.field("sku"@) {
        JsonV::Text(s) => Some(s),
        JsonV::Number(json::NumberV::Unsigned(n)) => Some(text::decimal(n as nat)),
        _ => None,
    }
}

/// How many names there are in a row, those that occur again not counted.
pub open spec fn distinct(names: Seq<Seq<char>>) -> nat
    decreases names.len(),
{
    if names.len() == 0 {
        0
    } else if names.drop_last().contains(names.last()) {
        distinct(names.drop_last())
    } else {
        distinct(names.drop_last()) + 1
    }
}

/// Where no name occurs again, each one counts.
pub proof fn lemma_distinct(names: Seq<Seq<char>>)
    ensures
        distinct(names) <= names.len(),
        names.no_duplicates() ==> distinct(names) == names.len(),
    decreases names.len(),
{
    if names.len() > 0 {
        let before = names.drop_last();
        lemma_distinct(before);
        if names.no_duplicates() && before.contains(names.last()) {
            let i = choose|i: int| 0 <= i < before.len() && before[i] == names.last();
            assert(names[i] == names[names.len() - 1]);
        }
        assert(names.no_duplicates() ==> before.no_duplicates());
    }
}

/// Where a walk over the items of a page stands.
pub struct Scan {
    pub products: Seq<JsonV>,
    pub seen: Seq<Seq<char>>,
    pub offset: nat,
}

/// The walk over the items of a page: each article is taken once in a chain of calls, and
/// the walk stops at the limit of the call or of the chain.
pub open spec fn scanned(all: Seq<JsonV>, limit: nat, at: Scan) -> Scan
    decreases all.len() - at.offset,
{
    if at.offset < all.len() && at.products.len() < limit && distinct(at.seen)
        < MAX_SEEN {
        let item = all[at.offset as int];
        match sku_of(item) {
            Some(s) => if is_sku(s) && !at.seen.contains(s) {
                scanned(
                    all,
                    limit,
                    Scan {
                        products: at.products.push(item),
                        seen: at.seen.push(s),
                        offset: at.offset + 1,
                    },
                )
            } else {
                scanned(all, limit, Scan { offset: at.offset + 1, ..at })
            },
            None => scanned(all, limit, Scan { offset: at.offset + 1, ..at }),
        }
    } else {
        at
    }
}

/// The walk of one call, from the place where the request stands.
pub open spec fn scan_of(all: Seq<JsonV>, limit: nat, request: RequestV) -> Scan {
    scanned(
        all,
        limit,
        Scan {
            products: Seq::empty(),
            seen: request.seen,
            offset: if request.offset <= all.len() {
                request.offset as nat
            } else {
                all.len()
            },
        },
    )
}

impl RequestV {
    /// What holds of every request that a chain of calls goes through.
    pub open spec fn valid(self) -> bool {
        &&& self.version == 1
        &&& self.offset <= MAX_OFFSET
        &&& self.calls < MAX_CALLS
        &&& self.seen.len() < MAX_SEEN
        &&& forall|i: int| 0 <= i < self.seen.len() ==> is_sku(#[trigger] self.seen[i])
        &&& self.seen.no_duplicates()
    }
}

fn sku_text(item: &Json) -> (r: Option<String>)
    ensures
        text::text_of(r) == sku_of(item@),
{
    let value: &Json = item.field("sku");
    match value.as_str() {
        Some(s) => Some(s.to_owned()),
        None => match value.as_u64() {
            Some(n) => Some(text::decimal_text(n)),
            None => None,
        },
    }
}

/// What one call took from a page.
struct Taken {
    products: Vec<Json>,
    seen: Vec<String>,
    /// How many of the names are different.
    unique: usize,
    offset: usize,
}

impl Taken {
    spec fn scan(self) -> Scan {
        Scan {
            products: json::values(self.products@),
            seen: text::texts(self.seen@),
            offset: self.offset as nat,
        }
    }
}

fn take_items(all: &Vec<Json>, limit: usize, request: &Request) -> (r: Taken)
    ensures
        r.scan() == scan_of(json::values(all@), limit as nat, request@),
        r.unique == distinct(r.scan().seen),
        r.offset <= all@.len(),
{
    let ghost rows = json::values(all@);
    let mut seen: Vec<String> = Vec::new();
    let mut unique: usize = 0;
    let mut i: usize = 0;
    while i < request.seen.len()
        invariant
            0 <= i <= request.seen@.len(),
            text::texts(seen@) =~= text::texts(request.seen@).take(i as int),
            unique == distinct(text::texts(seen@)),
            unique <= i,
        decreases request.seen@.len() - i,
    {
        let owned: String = request.seen[i].clone();
        let again: bool = text::contains_text(&seen, owned.as_str());
        proof {
            text::lemma_texts_push(seen@, owned);
            assert(text::texts(seen@).push(owned@).drop_last() =~= text::texts(seen@));
        }
        if !again {
            unique = unique + 1;
        }
        seen.push(owned);
        i = i + 1;
    }
    assert(text::texts(seen@) =~= text::texts(request.seen@));
    let mut products: Vec<Json> = Vec::new();
    let mut offset: usize = if request.offset <= all.len() {
        request.offset
    } else {
        all.len()
    };
    assert(json::values(products@) =~= Seq::empty());
    while offset < all.len() && products.len() < limit && unique < MAX_SEEN
        invariant
            offset <= all@.len(),
            unique == distinct(text::texts(seen@)),
            rows == json::values(all@),
            scanned(
                rows,
                limit as nat,
                Scan {
                    products: json::values(products@),
                    seen: text::texts(seen@),
                    offset: offset as nat,
                },
            ) == scan_of(rows, limit as nat, request@),
        decreases all@.len() - offset,
    {
        let item: &Json = &all[offset];
        assert(rows[offset as int] == item@);
        assert(json::values(products@).len() == products@.len());
        assert(text::texts(seen@).len() == seen@.len());
        if let Some(s) = sku_text(item) {
            if sku(s.as_str()) && !text::contains_text(&seen, s.as_str()) {
                let copy: Json = item.copy();
                proof {
                    json::lemma_values_push(products@, copy);
                    text::lemma_texts_push(seen@, s);
                    assert(text::texts(seen@).push(s@).drop_last() =~= text::texts(seen@));
                }
                products.push(copy);
                seen.push(s);
                unique = unique + 1;
            }
        }
        offset = offset + 1;
    }
    assert(json::values(products@).len() == products@.len());
    assert(text::texts(seen@).len() == seen@.len());
    Taken { products, seen, unique, offset }
}

/// The compact text that `serde_json` writes of the parts of a request, in this order.
pub uninterp spec fn cursor_text(
    version: u8,
    url: Seq<char>,
    offset: usize,
    seen: Seq<Seq<char>>,
    calls: usize,
) -> Seq<char>;

/// The text of a cursor for a request.
pub open spec fn cursor_of(request: RequestV) -> Seq<char> {
    cursor_text(request.version, request.url, request.offset, request.seen, request.calls)
}

/// The JSON object of a request.
pub open spec fn request_json(request: RequestV) -> JsonV {
    JsonV::object().with("version"@, JsonV::unsigned(request.version as u64)).with(
        "url"@,
        JsonV::Text(request.url),
    ).with("offset"@, JsonV::unsigned(request.offset as u64)).with(
        "seen"@,
        JsonV::Array(Seq::new(request.seen.len(), |i: int| JsonV::Text(request.seen[i]))),
    ).with("calls"@, JsonV::unsigned(request.calls as u64))
}

/// A request is spelled with its version, its place, the articles that were seen and the number of
/// calls.
pub proof fn requests_are_spelled_by_their_parts(
    request: RequestV,
)
    ensures
        ({
            let shown = request_json(request);
            &&& shown is Object
            &&& shown.field("version"@) == (JsonV::unsigned(request.version as u64))
            &&& shown.field("url"@) == (JsonV::Text(request.url))
            &&& shown.field("offset"@) == (JsonV::unsigned(request.offset as u64))
            &&& shown.field("seen"@) == (JsonV::Array(Seq::new(request.seen.len(), |i: int| JsonV::Text(request.seen[i]))))
            &&& shown.field("calls"@) == (JsonV::unsigned(request.calls as u64))
        }),
{
    broadcast use json::lemma_get_with;

    reveal_strlit("version");
    reveal_strlit("url");
    reveal_strlit("offset");
    reveal_strlit("seen");
    reveal_strlit("calls");
    assert("version"@.len() == 7);
    assert("url"@.len() == 3);
    assert("offset"@.len() == 6);
    assert("seen"@.len() == 4);
    assert("calls"@.len() == 5);
}

/// `serialize_struct` of a `serde_json::Serializer`, on the five parts of a request: a
/// function of these parts, which `serde_json::from_str` reads back as an object of them. It
/// writes each of them once.
#[verifier::external_body]
fn cursor_string(request: &Request) -> (r: String)
    ensures
        r@ == cursor_text(
            request@.version,
            request@.url,
            request@.offset,
            request@.seen,
            request@.calls,
        ),
        json::json_value(r@) == Some(request_json(request@)),
        !members::repeats(r@, request_names()),
{
    let mut out = Vec::new();
    let mut target = serde_json::Serializer::new(&mut out);
    let mut s = serde::Serializer::serialize_struct(&mut target, "Request", 5).unwrap();
    serde::ser::SerializeStruct::serialize_field(&mut s, "version", &request.version).unwrap();
    serde::ser::SerializeStruct::serialize_field(&mut s, "url", &request.url).unwrap();
    serde::ser::SerializeStruct::serialize_field(&mut s, "offset", &request.offset).unwrap();
    serde::ser::SerializeStruct::serialize_field(&mut s, "seen", &request.seen).unwrap();
    serde::ser::SerializeStruct::serialize_field(&mut s, "calls", &request.calls).unwrap();
    serde::ser::SerializeStruct::end(s).unwrap();
    String::from_utf8(out).unwrap()
}

/// What the paginator of a page says of the next page.
pub struct NextPage {
    pub observed: Option<Seq<char>>,
    pub url: Option<Seq<char>>,
    pub stalled: bool,
    pub ended: bool,
}

/// What the paginator of a page says of the next page. A link back to the page itself is no
/// progress, and only an explicitly empty link is an end.
pub open spec fn next_page_of(page: JsonV, current: Seq<char>) -> NextPage {
    let link = match widget_of(page, "infiniteVirtualPaginator"@) {
        Some(p) => p.field("nextPage"@).as_text(),
        None => None,
    };
    let observed = match link {
        Some(s) => if s.len() > 0 {
            Some(s)
        } else {
            None
        },
        None => None,
    };
    let url = match observed {
        Some(s) => promoted(s),
        None => None,
    };
    NextPage {
        observed,
        url: if url == Some(current) {
            None
        } else {
            url
        },
        stalled: url == Some(current),
        ended: link matches Some(s) && s.len() == 0,
    }
}

struct FoundNext {
    observed: bool,
    url: Option<String>,
    stalled: bool,
    ended: bool,
}

fn next_page(page: &Json, current: &str) -> (r: FoundNext)
    ensures
        r.observed == (next_page_of(page@, current@).observed is Some),
        text::text_of(r.url) == next_page_of(page@, current@).url,
        r.stalled == next_page_of(page@, current@).stalled,
        r.ended == next_page_of(page@, current@).ended,
        r.url matches Some(u) ==> is_settled(u@),
{
    let paginator: Option<Json> = widget(page, "infiniteVirtualPaginator");
    if let Some(p) = &paginator {
        if let Some(s) = p.field("nextPage").as_str() {
            if s.is_empty() {
                return FoundNext { observed: false, url: None, stalled: false, ended: true };
            }
            let url: Option<String> = paginator_url(s);
            let stalled: bool = match &url {
                Some(u) => text::same(u.as_str(), current),
                None => false,
            };
            return FoundNext {
                observed: true,
                url: if stalled {
                    None
                } else {
                    url
                },
                stalled,
                ended: false,
            };
        }
    }
    FoundNext { observed: false, url: None, stalled: false, ended: false }
}

/// The first selected option, from the `i`-th on.
pub open spec fn selected_option(v: Seq<JsonV>, i: int) -> Option<JsonV>
    decreases v.len() - i,
{
    if i < 0 || i >= v.len() {
        None
    } else if is_set(v[i], "isSelected"@) {
        Some(v[i])
    } else {
        selected_option(v, i + 1)
    }
}

/// The URL that refinements start from. Sort links carry canonical category and brand
/// selections but reset paging, so they serve here and never as continuations.
pub open spec fn facet_base_of(page: JsonV, current: Seq<char>) -> Seq<char> {
    match widget_of(page, "searchResultsSort"@) {
        None => current,
        Some(w) => match selected_option(w.field("sortButton"@).field("options"@).elements(), 0) {
            None => current,
            Some(o) => match o.field("action"@).field("link"@).as_text() {
                None => current,
                Some(s) => match observed(s) {
                    None => current,
                    Some(u) => u,
                },
            },
        },
    }
}

fn facet_base(page: &Json, current: &str) -> (r: String)
    ensures
        r@ == facet_base_of(page@, current@),
{
    if let Some(w) = widget(page, "searchResultsSort") {
        let options: Vec<&Json> = json::elements(w.field("sortButton").field("options"));
        let ghost all = json::refs(options@);
        let mut i: usize = 0;
        while i < options.len()
            invariant
                0 <= i <= options@.len(),
                all == json::refs(options@),
                widget_of(page@, "searchResultsSort"@) == Some(w@),
                all == w@.field("sortButton"@).field("options"@).elements(),
                selected_option(all, 0) == selected_option(all, i as int),
            decreases options@.len() - i,
        {
            assert(all[i as int] == options@[i as int]@);
            if set(options[i], "isSelected") {
                return match options[i].field("action").field("link").as_str() {
                    Some(s) => match observed_url(s) {
                        Some(u) => u,
                        None => current.to_owned(),
                    },
                    None => current.to_owned(),
                };
            }
            i = i + 1;
        }
    }
    current.to_owned()
}

/// The orders that a page offers, the first `n` of them.
pub open spec fn sort_rows(v: Seq<JsonV>, n: int) -> Seq<JsonV> {
    Seq::new(
        if v.len() < n {
            v.len()
        } else {
            n as nat
        },
        |i: int|
            model::sort_option_json(
                label_of(v[i].field("name"@)),
                is_set(v[i], "isSelected"@),
                link_of(v[i].field("action"@).field("link"@)),
            ),
    )
}

/// The first widget state, from the `i`-th on, that has a sort button.
pub open spec fn with_sort_button(m: Seq<(Seq<char>, JsonV)>, i: int) -> Option<JsonV>
    decreases m.len() - i,
{
    if i < 0 || i >= m.len() {
        None
    } else if m[i].1.get("sortButton"@) is Some {
        Some(m[i].1)
    } else {
        with_sort_button(m, i + 1)
    }
}

/// The widget that the orders stand in.
pub open spec fn sort_widget_of(page: JsonV) -> Option<JsonV> {
    match widget_of(page, "sort"@) {
        Some(w) => Some(w),
        None => match widget_of(page, "searchResultsSort"@) {
            Some(w) => Some(w),
            None => match page.field("widgetStates"@) {
                JsonV::Object(m) => with_sort_button(m, 0),
                _ => None,
            },
        },
    }
}

pub open spec fn sort_options_of(page: JsonV) -> Seq<JsonV> {
    match sort_widget_of(page) {
        Some(w) => sort_rows(w.field("sortButton"@).field("options"@).elements(), 12),
        None => Seq::empty(),
    }
}

fn sort_widget(page: &Json) -> (r: Option<Json>)
    ensures
        json::read_of(r) == sort_widget_of(page@),
{
    if let Some(w) = widget(page, "sort") {
        return Some(w);
    }
    if let Some(w) = widget(page, "searchResultsSort") {
        return Some(w);
    }
    match page.field("widgetStates").as_object() {
        None => None,
        Some(m) => {
            let ghost all = json::members(m@);
            let mut i: usize = 0;
            while i < m.len()
                invariant
                    0 <= i <= m@.len(),
                    all == json::members(m@),
                    sort_widget_of(page@) == with_sort_button(all, 0),
                    with_sort_button(all, 0) == with_sort_button(all, i as int),
                decreases m@.len() - i,
            {
                assert(all[i as int] == (m@[i as int].0@, m@[i as int].1@));
                if m[i].1.get("sortButton").is_some() {
                    return Some(m[i].1.copy());
                }
                i = i + 1;
            }
            None
        },
    }
}

fn sort_options(page: &Json) -> (r: Vec<Json>)
    ensures
        json::values(r@) == sort_options_of(page@),
{
    let mut out: Vec<Json> = Vec::new();
    assert(json::values(out@) =~= Seq::empty());
    let w: Json = match sort_widget(page) {
        Some(w) => w,
        None => return out,
    };
    let options: Vec<&Json> = json::elements(w.field("sortButton").field("options"));
    let ghost all = json::refs(options@);
    let mut i: usize = 0;
    assert(json::values(out@) =~= sort_rows(all, 0));
    while i < options.len() && i < 12
        invariant
            0 <= i <= options@.len(),
            i <= 12,
            all == json::refs(options@),
            json::values(out@) =~= sort_rows(all, i as int),
        decreases options@.len() - i,
    {
        let o: &Json = options[i];
        assert(all[i as int] == o@);
        let row: SortOption = SortOption {
            label: label(o.field("name")),
            selected: set(o, "isSelected"),
            search_url: link(o.field("action").field("link")),
        };
        let row: Json = row.to_json();
        proof {
            json::lemma_values_push(out@, row);
        }
        out.push(row);
        i = i + 1;
        assert(sort_rows(all, i as int) =~= sort_rows(all, i - 1).push(row@));
    }
    assert(json::values(out@) =~= sort_rows(all, 12));
    out
}

/// The selected values of a filter, the first `n` of them.
pub open spec fn active_value_rows(v: Seq<JsonV>, n: int) -> Seq<JsonV> {
    Seq::new(
        if v.len() < n {
            v.len()
        } else {
            n as nat
        },
        |i: int|
            model::active_value_json(
                label_of(v[i].field("title"@)),
                link_of(v[i].field("disableUri"@)),
            ),
    )
}

/// The filters with a selected value, the first `n` of them.
pub open spec fn active_rows(v: Seq<JsonV>, n: int) -> Seq<JsonV> {
    Seq::new(
        if v.len() < n {
            v.len()
        } else {
            n as nat
        },
        |i: int|
            model::active_filter_json(
                label_of(v[i].field("key"@)),
                label_of(v[i].field("name"@)),
                label_of(v[i].field("ftype"@)),
                active_value_rows(v[i].field("activeValues"@).elements(), 20),
            ),
    )
}

pub open spec fn active_filters_of(page: JsonV) -> Seq<JsonV> {
    match widget_of(page, "searchResultsFiltersActive"@) {
        Some(w) => active_rows(w.field("activeFilters"@).elements(), 30),
        None => Seq::empty(),
    }
}

fn active_filter(f: &Json) -> (r: ActiveFilter)
    ensures
        r.json() == model::active_filter_json(
            label_of(f@.field("key"@)),
            label_of(f@.field("name"@)),
            label_of(f@.field("ftype"@)),
            active_value_rows(f@.field("activeValues"@).elements(), 20),
        ),
{
    let values: Vec<&Json> = json::elements(f.field("activeValues"));
    let ghost all = json::refs(values@);
    let mut out: Vec<ActiveFilterValue> = Vec::new();
    let mut i: usize = 0;
    while i < values.len() && i < 20
        invariant
            0 <= i <= values@.len(),
            i <= 20,
            all == json::refs(values@),
            Seq::new(out@.len(), |k: int| out@[k].json()) =~= active_value_rows(all, i as int),
        decreases values@.len() - i,
    {
        let v: &Json = values[i];
        assert(all[i as int] == v@);
        let ghost before = out@;
        let value: ActiveFilterValue = ActiveFilterValue {
            label: label(v.field("title")),
            search_url: link(v.field("disableUri")),
        };
        out.push(value);
        i = i + 1;
        assert(active_value_rows(all, i as int) =~= active_value_rows(all, i - 1).push(
            value.json(),
        ));
        assert(Seq::new(out@.len(), |k: int| out@[k].json()) =~= Seq::new(
            before.len(),
            |k: int| before[k].json(),
        ).push(value.json()));
    }
    assert(Seq::new(out@.len(), |k: int| out@[k].json()) =~= active_value_rows(all, 20));
    ActiveFilter {
        key: label(f.field("key")),
        name: label(f.field("name")),
        kind: label(f.field("ftype")),
        values: out,
    }
}

fn active_filters(page: &Json) -> (r: Vec<Json>)
    ensures
        json::values(r@) == active_filters_of(page@),
{
    let mut out: Vec<Json> = Vec::new();
    assert(json::values(out@) =~= Seq::empty());
    let w: Json = match widget(page, "searchResultsFiltersActive") {
        Some(w) => w,
        None => return out,
    };
    let filters: Vec<&Json> = json::elements(w.field("activeFilters"));
    let ghost all = json::refs(filters@);
    let mut i: usize = 0;
    assert(json::values(out@) =~= active_rows(all, 0));
    while i < filters.len() && i < 30
        invariant
            0 <= i <= filters@.len(),
            i <= 30,
            all == json::refs(filters@),
            json::values(out@) =~= active_rows(all, i as int),
        decreases filters@.len() - i,
    {
        assert(all[i as int] == filters@[i as int]@);
        let row: Json = active_filter(filters[i]).to_json();
        proof {
            json::lemma_values_push(out@, row);
        }
        out.push(row);
        i = i + 1;
        assert(active_rows(all, i as int) =~= active_rows(all, i - 1).push(row@));
    }
    assert(json::values(out@) =~= active_rows(all, 30));
    out
}

pub const METADATA_BUDGET_BYTES: usize = 58_000;

/// Whether there is more to see; nothing where the page leaves it open.
pub open spec fn has_next_of(scan: Scan, all: Seq<JsonV>, next: NextPage) -> Option<bool> {
    if scan.offset < all.len() || next.url is Some {
        Some(true)
    } else if next.ended {
        Some(false)
    } else {
        None
    }
}

/// Whether a chain of calls has reached one of its limits.
pub open spec fn capped(scan: Scan, request: RequestV) -> bool {
    distinct(scan.seen) >= MAX_SEEN || request.calls + 1 >= MAX_CALLS || scan.offset > MAX_OFFSET
}

/// Where the next call of the chain starts: at the first item that this call did not
/// consume, or on the next page.
pub open spec fn next_request(
    scan: Scan,
    all: Seq<JsonV>,
    next: NextPage,
    request: RequestV,
) -> RequestV {
    RequestV {
        version: request.version,
        url: if scan.offset < all.len() {
            request.url
        } else {
            next.url->Some_0
        },
        offset: if scan.offset < all.len() {
            scan.offset as usize
        } else {
            0
        },
        seen: scan.seen,
        calls: (request.calls + 1) as usize,
    }
}

/// The cursor for the next call; none where there is no next call or its cursor is too long.
pub open spec fn next_cursor_of(
    scan: Scan,
    all: Seq<JsonV>,
    next: NextPage,
    request: RequestV,
) -> Option<Seq<char>> {
    if has_next_of(scan, all, next) == Some(true) && !capped(scan, request) {
        let cursor = cursor_of(next_request(scan, all, next, request));
        if text::utf8_len(cursor) <= MAX_CURSOR {
            Some(cursor)
        } else {
            None
        }
    } else {
        None
    }
}

/// Whether the cursor for the next call, where there is one, reads back as its request, on a
/// page that is named in the normal way.
pub open spec fn spells_next(
    scan: Scan,
    all: Seq<JsonV>,
    next: NextPage,
    request: RequestV,
) -> bool {
    next_cursor_of(scan, all, next, request) matches Some(cursor) ==> {
        let following = next_request(scan, all, next, request);
        &&& json::json_value(cursor) == Some(request_json(following))
        &&& !members::repeats(cursor, request_names())
        &&& is_settled(request.url) ==> is_settled(following.url)
    }
}

/// A row of warnings with one more, where it applies.
pub open spec fn noted(v: Seq<Warning>, applies: bool, w: Warning) -> Seq<Warning> {
    if applies {
        v.push(w)
    } else {
        v
    }
}

/// What the result of a call says about itself.
pub open spec fn warnings_of(
    scan: Scan,
    all: Seq<JsonV>,
    next: NextPage,
    request: RequestV,
    outside: bool,
) -> Seq<Warning> {
    let v = seq![Warning::SearchResultsMayChangeBetweenCalls];
    let v = noted(v, next.stalled, Warning::ContinuationStalled);
    let v = noted(
        v,
        next.observed is Some && next.url is None && !next.stalled,
        Warning::UnsafePaginatorUrlIgnored,
    );
    let v = noted(
        v,
        has_next_of(scan, all, next) == Some(true) && next_cursor_of(scan, all, next, request)
            is None,
        Warning::ContinuationLimitReached,
    );
    noted(v, outside, Warning::PriceOutsideRequestedRange)
}

/// The number of the page that a URL asks for.
pub open spec fn page_number(pairs: Seq<(Seq<char>, Seq<char>)>) -> u64 {
    match address::value_of(pairs, "page"@) {
        Some(v) => match text::parsed_u64(v) {
            Some(n) => n,
            None => 1,
        },
        None => 1,
    }
}

/// The order that a URL asks for, under its public name.
pub open spec fn sort_name(pairs: Seq<(Seq<char>, Seq<char>)>) -> Seq<char> {
    match address::value_of(pairs, "sorting"@) {
        Some(v) => if v == "score"@ {
            "popular"@
        } else {
            v
        },
        None => "popular"@,
    }
}

/// What a call covered.
pub open spec fn coverage_of(
    scan: Scan,
    all: Seq<JsonV>,
    request: RequestV,
    page: u64,
) -> SearchCoverage {
    SearchCoverage {
        page,
        fetched_pages_this_call: 1,
        parsed_items: all.len() as usize,
        parsed_offset_start: request.offset,
        parsed_offset_end: scan.offset as usize,
        returned: scan.products.len() as usize,
        unique_seen: distinct(scan.seen) as usize,
        calls_in_chain: (request.calls + 1) as usize,
    }
}

/// The result of a call, without what it may tell of the filters and orders.
pub open spec fn plain_result(
    page: JsonV,
    all: Seq<JsonV>,
    args: SearchArgsV,
    request: RequestV,
    url: AddressV,
) -> JsonV {
    let scan = scan_of(all, args.limit as nat, request);
    let next = next_page_of(page, request.url);
    let bounds = price_bounds_of(url.pairs);
    let context = JsonV::object().with("region"@, JsonV::Null).with(
        "regionVerified"@,
        JsonV::Bool(false),
    );
    JsonV::object().with("items"@, JsonV::Array(annotated(scan.products, bounds))).with(
        "count"@,
        JsonV::unsigned(scan.products.len() as u64),
    ).with("query"@, JsonV::optional_text(address::value_of(url.pairs, "text"@))).with(
        "sort"@,
        JsonV::Text(sort_name(url.pairs)),
    ).with("searchUrl"@, JsonV::Text(request.url)).with(
        "nextCursor"@,
        JsonV::optional_text(next_cursor_of(scan, all, next, request)),
    ).with("hasNext"@, optional_bool(has_next_of(scan, all, next))).with(
        "total"@,
        JsonV::Null,
    ).with("context"@, context).with(
        "coverage"@,
        coverage_of(scan, all, request, page_number(url.pairs)).json(),
    ).with(
        "warnings"@,
        model::codes(
            warnings_of(scan, all, next, request, any_outside(scan.products, bounds)),
        ),
    )
}

/// Whether a call tells of the filters and orders: as asked for, else on the first call.
pub open spec fn tells_facets(args: SearchArgsV) -> bool {
    match args.include_facets {
        Some(b) => b,
        None => args.next_cursor is None,
    }
}

/// The result of a call with what it tells of the filters and orders.
pub open spec fn full_result(page: JsonV, args: SearchArgsV, request: RequestV, plain: JsonV) -> JsonV {
    if tells_facets(args) {
        plain.with("facets"@, facets_of(page, facet_base_of(page, request.url))).with(
            "sortOptions"@,
            JsonV::Array(sort_options_of(page)),
        ).with("activeFilters"@, JsonV::Array(active_filters_of(page)))
    } else {
        plain
    }
}

/// A result that gives up what it tells of the filters and orders.
pub open spec fn trimmed_result(result: JsonV) -> JsonV {
    result.with(
        "facets"@,
        JsonV::object().with("items"@, JsonV::Array(Seq::empty())).with(
            "truncated"@,
            JsonV::Bool(true),
        ),
    ).with("activeFilters"@, JsonV::Array(Seq::empty())).with(
        "sortOptions"@,
        JsonV::Array(Seq::empty()),
    ).with(
        "warnings"@,
        JsonV::Array(
            result.field("warnings"@).elements().push(
                JsonV::Text(Warning::SearchMetadataTruncated.code()),
            ),
        ),
    )
}

/// The result of one call of a chain, over the items that were read from its page.
pub open spec fn finished(
    page: JsonV,
    all: Seq<JsonV>,
    args: SearchArgsV,
    request: RequestV,
) -> Result<JsonV, FailureV> {
    match address::parsed_url(request.url) {
        Err(e) => Err(FailureV::Message(e)),
        Ok(url) => {
            let result = full_result(
                page,
                args,
                request,
                plain_result(page, all, args, request, url),
            );
            if text::utf8_len(json::json_text(result)) > METADATA_BUDGET_BYTES {
                Ok(trimmed_result(result))
            } else {
                Ok(result)
            }
        },
    }
}

fn note(warnings: &mut Vec<Warning>, applies: bool, warning: Warning)
    ensures
        final(warnings)@ == noted(old(warnings)@, applies, warning),
{
    if applies {
        warnings.push(warning);
    }
}

/// The cursor for the next call, and whether there is more to see.
fn next_step(
    scan: &Taken,
    all: &Vec<Json>,
    page: &Json,
    next: &FoundNext,
    request: &Request,
) -> (r: (Option<String>, Option<bool>))
    requires
        request@.calls < MAX_CALLS,
        scan.unique == distinct(scan.scan().seen),
        next.observed == (next_page_of(page@, request@.url).observed is Some),
        text::text_of(next.url) == next_page_of(page@, request@.url).url,
        next.ended == next_page_of(page@, request@.url).ended,
        next.url matches Some(u) ==> is_settled(u@),
    ensures
        text::text_of(r.0) == next_cursor_of(
            scan.scan(),
            json::values(all@),
            next_page_of(page@, request@.url),
            request@,
        ),
        r.1 == has_next_of(
            scan.scan(),
            json::values(all@),
            next_page_of(page@, request@.url),
        ),
        spells_next(
            scan.scan(),
            json::values(all@),
            next_page_of(page@, request@.url),
            request@,
        ),
{
    assert(json::values(all@).len() == all@.len());
    assert(scan.scan().seen.len() == scan.seen@.len());
    let has_next: Option<bool> = if scan.offset < all.len() || next.url.is_some() {
        Some(true)
    } else if next.ended {
        Some(false)
    } else {
        None
    };
    let more: bool = match has_next {
        Some(b) => b,
        None => false,
    };
    let at_limit: bool = scan.unique >= MAX_SEEN || request.calls + 1 >= MAX_CALLS
        || scan.offset > MAX_OFFSET;
    if !more || at_limit {
        return (None, has_next);
    }
    let mut seen: Vec<String> = Vec::new();
    let mut i: usize = 0;
    while i < scan.seen.len()
        invariant
            0 <= i <= scan.seen@.len(),
            text::texts(seen@) =~= text::texts(scan.seen@).take(i as int),
        decreases scan.seen@.len() - i,
    {
        let owned: String = scan.seen[i].clone();
        proof {
            text::lemma_texts_push(seen@, owned);
        }
        seen.push(owned);
        i = i + 1;
    }
    assert(text::texts(seen@) =~= text::texts(scan.seen@));
    let url: String = if scan.offset < all.len() {
        request.url.clone()
    } else {
        match &next.url {
            Some(u) => u.clone(),
            None => request.url.clone(),
        }
    };
    let following: Request = Request {
        version: request.version,
        url,
        offset: if scan.offset < all.len() {
            scan.offset
        } else {
            0
        },
        seen,
        calls: request.calls + 1,
    };
    assert(following@ == next_request(
        scan.scan(),
        json::values(all@),
        next_page_of(page@, request@.url),
        request@,
    ));
    let cursor: String = cursor_string(&following);
    if text::utf8_length(cursor.as_str()) <= MAX_CURSOR {
        (Some(cursor), has_next)
    } else {
        (None, has_next)
    }
}

/// The result of a call, without what it may tell of the filters and orders.
fn plain(page: &Json, all: &Vec<Json>, args: &SearchArgs, request: &Request, url: &Address) -> (r:
    Json)
    requires
        request@.calls < MAX_CALLS,
    ensures
        r@ == plain_result(page@, json::values(all@), args@, request@, url@),
        spells_next(
            scan_of(json::values(all@), args@.limit as nat, request@),
            json::values(all@),
            next_page_of(page@, request@.url),
            request@,
        ),
{
    let taken: Taken = take_items(all, args.limit, request);
    let ghost scan = taken.scan();
    let ghost rows = json::values(all@);
    assert(scan.products.len() == taken.products@.len());
    assert(scan.seen.len() == taken.seen@.len());
    assert(rows.len() == all@.len());
    let next: FoundNext = next_page(page, request.url.as_str());
    let step: (Option<String>, Option<bool>) = next_step(&taken, all, page, &next, request);
    let more: bool = match step.1 {
        Some(b) => b,
        None => false,
    };
    let page_number: u64 = match address::first_value(&url.pairs, "page") {
        Some(v) => match text::parse_u64(v.as_str()) {
            Some(n) => n,
            None => 1,
        },
        None => 1,
    };
    let query: Option<String> = address::first_value(&url.pairs, "text");
    let sort: String = match address::first_value(&url.pairs, "sorting") {
        Some(v) => if text::same(v.as_str(), "score") {
            "popular".to_owned()
        } else {
            v
        },
        None => "popular".to_owned(),
    };
    let count: usize = taken.products.len();
    let unique: usize = taken.unique;
    let coverage: SearchCoverage = SearchCoverage {
        page: page_number,
        fetched_pages_this_call: 1,
        parsed_items: all.len(),
        parsed_offset_start: request.offset,
        parsed_offset_end: taken.offset,
        returned: count,
        unique_seen: unique,
        calls_in_chain: request.calls + 1,
    };
    let mut products: Vec<Json> = taken.products;
    let outside: bool = annotate_price_range(&mut products, url);
    let mut warnings: Vec<Warning> = Vec::new();
    warnings.push(Warning::SearchResultsMayChangeBetweenCalls);
    assert(warnings@ =~= seq![Warning::SearchResultsMayChangeBetweenCalls]);
    note(&mut warnings, next.stalled, Warning::ContinuationStalled);
    note(
        &mut warnings,
        next.observed && next.url.is_none() && !next.stalled,
        Warning::UnsafePaginatorUrlIgnored,
    );
    note(&mut warnings, more && step.0.is_none(), Warning::ContinuationLimitReached);
    note(&mut warnings, outside, Warning::PriceOutsideRequestedRange);
    let context: SearchContext = SearchContext { region: None, region_verified: false };
    let has_next: Json = match step.1 {
        Some(b) => Json::Bool(b),
        None => Json::Null,
    };
    Json::object().with("items", Json::array(products)).with(
        "count",
        Json::unsigned(count as u64),
    ).with("query", json::optional(&query)).with("sort", Json::text(sort.as_str())).with(
        "searchUrl",
        Json::text(request.url.as_str()),
    ).with("nextCursor", json::optional(&step.0)).with("hasNext", has_next).with(
        "total",
        Json::Null,
    ).with("context", context.to_json()).with("coverage", coverage.to_json()).with(
        "warnings",
        model::warning_codes(&warnings),
    )
}

/// The result of one call of a chain, over the items that were read from its page.
pub fn finish_items(page: &Json, all: &Vec<Json>, args: &SearchArgs, request: Request) -> (r: Result<
    Json,
    Failure,
>)
    requires
        request@.calls < MAX_CALLS,
    ensures
        failure::outcome(r) == finished(page@, json::values(all@), args@, request@),
        r is Ok ==> spells_next(
            scan_of(json::values(all@), args@.limit as nat, request@),
            json::values(all@),
            next_page_of(page@, request@.url),
            request@,
        ),
{
    let url: Address = match address::parse_url(request.url.as_str()) {
        Ok(a) => a,
        Err(e) => return Err(Failure::Message(e)),
    };
    let mut result: Json = plain(page, all, args, &request, &url);
    let tells: bool = match args.include_facets {
        Some(b) => b,
        None => args.next_cursor.is_none(),
    };
    if tells {
        let base: String = facet_base(page, request.url.as_str());
        result = result.with("facets", facets(page, base.as_str())).with(
            "sortOptions",
            Json::array(sort_options(page)),
        ).with("activeFilters", Json::array(active_filters(page)));
    }
    if text::utf8_length(result.to_text().as_str()) > METADATA_BUDGET_BYTES {
        let mut warnings: Vec<Json> = Vec::new();
        let shown: Vec<&Json> = json::elements(result.field("warnings"));
        let ghost codes = json::refs(shown@);
        let mut i: usize = 0;
        while i < shown.len()
            invariant
                0 <= i <= shown@.len(),
                codes == json::refs(shown@),
                json::values(warnings@) =~= codes.take(i as int),
            decreases shown@.len() - i,
        {
            let copy: Json = shown[i].copy();
            proof {
                json::lemma_values_push(warnings@, copy);
            }
            warnings.push(copy);
            assert(codes.take(i + 1) =~= codes.take(i as int).push(codes[i as int]));
            i = i + 1;
        }
        assert(codes.take(i as int) =~= codes);
        let code: Json = Json::text(Warning::SearchMetadataTruncated.to_code());
        proof {
            json::lemma_values_push(warnings@, code);
        }
        warnings.push(code);
        let none: Vec<Json> = Vec::new();
        assert(json::values(none@) =~= Seq::empty());
        let facets: Json = Json::object().with("items", Json::array(none)).with(
            "truncated",
            Json::Bool(true),
        );
        let none_active: Vec<Json> = Vec::new();
        assert(json::values(none_active@) =~= Seq::empty());
        let none_sorted: Vec<Json> = Vec::new();
        assert(json::values(none_sorted@) =~= Seq::empty());
        result = result.with("facets", facets).with(
            "activeFilters",
            Json::array(none_active),
        ).with("sortOptions", Json::array(none_sorted)).with("warnings", Json::array(warnings));
    }
    Ok(result)
}

/// The products of a search page as JSON.
pub open spec fn page_items(page: JsonV) -> Seq<JsonV> {
    let items = parse::search_items(page);
    Seq::new(items.len(), |i: int| items[i].json())
}

/// The result of one call of a chain, over its page.
pub fn finish(page: &Json, args: &SearchArgs, request: Request) -> (r: Result<Json, Failure>)
    requires
        request@.calls < MAX_CALLS,
    ensures
        failure::outcome(r) == finished(page@, page_items(page@), args@, request@),
        r is Ok ==> spells_next(
            scan_of(page_items(page@), args@.limit as nat, request@),
            page_items(page@),
            next_page_of(page@, request@.url),
            request@,
        ),
{
    let items: Vec<SearchItem> = parse::parse_search_items(page);
    let ghost shown = parse::items_view(items@);
    let mut all: Vec<Json> = Vec::new();
    let mut i: usize = 0;
    while i < items.len()
        invariant
            0 <= i <= items@.len(),
            shown == parse::items_view(items@),
            json::values(all@) =~= Seq::new(i as nat, |k: int| shown[k].json()),
        decreases items@.len() - i,
    {
        assert(shown[i as int] == items@[i as int]@);
        let item: Json = items[i].to_json();
        proof {
            json::lemma_values_push(all@, item);
        }
        all.push(item);
        i = i + 1;
    }
    assert(json::values(all@) =~= page_items(page@));
    finish_items(page, &all, args, request)
}

/// A search that is ready to fetch its page.
#[derive(Debug)]
pub struct PreparedSearch {
    pub args: SearchArgs,
    pub request: Request,
}

/// What a [`PreparedSearch`] holds.
pub struct PreparedSearchV {
    pub args: SearchArgsV,
    pub request: RequestV,
}

impl View for PreparedSearch {
    type V = PreparedSearchV;

    open spec fn view(&self) -> PreparedSearchV {
        PreparedSearchV { args: self.args@, request: self.request@ }
    }
}

impl PreparedSearch {
    pub fn prepare(args: SearchArgs) -> (r: Result<PreparedSearch, Failure>)
        ensures
            failure::outcome(r) == (match prepared(args@) {
                Ok(request) => Ok(PreparedSearchV { args: args@, request }),
                Err(e) => Err(e),
            }),
            r matches Ok(p) ==> {
                &&& p@.request.valid()
                &&& is_normal(p@.request.url)
                &&& args@.next_cursor is None ==> is_settled(p@.request.url)
            },
    {
        match prepare(&args) {
            Ok(request) => Ok(PreparedSearch { args, request }),
            Err(e) => Err(e),
        }
    }
}

} // verus!
