//! Reading products and reviews out of the widgets of a page.

use crate::address::{self, Address};
use crate::double::{self, Real};
use crate::json::{self, Json, JsonV, Number, NumberV};
use crate::model::{
    self, Description, DescriptionV, Discount, DiscountV, Duty, DutyV, PriceType, ProductDetails,
    ProductDetailsV, Review, ReviewPage, ReviewPageV, ReviewV, SearchItem, SearchItemV, Seller,
    SellerV,
};
use crate::pattern;
use crate::text;
use crate::widgets;
use vstd::prelude::*;

verus! {

/// The words of a text value; none where it has no words.
pub open spec fn words_of(v: JsonV) -> Option<Seq<char>> {
    match v {
        JsonV::Text(s) => if text::squeezed(s).len() > 0 {
            Some(text::squeezed(s))
        } else {
            None
        },
        _ => None,
    }
}

fn words(v: &Json) -> (r: Option<String>)
    ensures
        text::text_of(r) == words_of(v@),
{
    match v.as_str() {
        Some(s) => {
            let squeezed: String = text::squeeze(s);
            if squeezed.as_str().is_empty() {
                None
            } else {
                Some(squeezed)
            }
        },
        None => None,
    }
}

/// The words of a value, of its `text` or of its `content`.
pub open spec fn text_in(v: Option<JsonV>) -> Option<Seq<char>> {
    match v {
        None => None,
        Some(v) => match words_of(v) {
            Some(s) => Some(s),
            None => match words_of(v.field("text"@)) {
                Some(s) => Some(s),
                None => words_of(v.field("content"@)),
            },
        },
    }
}

fn text_from(v: Option<&Json>) -> (r: Option<String>)
    ensures
        text::text_of(r) == text_in(json::view_of(v)),
{
    match v {
        None => None,
        Some(v) => match words(v) {
            Some(s) => Some(s),
            None => match words(v.field("text")) {
                Some(s) => Some(s),
                None => words(v.field("content")),
            },
        },
    }
}

/// The text without its white space.
pub open spec fn compacted(s: Seq<char>) -> Seq<char>
    decreases s.len(),
{
    if s.len() == 0 {
        s
    } else if text::is_white(s.last()) {
        compacted(s.drop_last())
    } else {
        compacted(s.drop_last()).push(s.last())
    }
}

fn compact(s: &str) -> (r: String)
    ensures
        r@ == compacted(s@),
{
    let mut out: Vec<char> = Vec::new();
    assert(s@.take(0) =~= Seq::empty());
    for c in it: s.chars()
        invariant
            it.seq() == s@,
            out@ == compacted(s@.take(it.index())),
    {
        assert(s@.take(it.index() + 1).drop_last() =~= s@.take(it.index()));
        if !text::is_white_space(c) {
            out.push(c);
        }
    }
    assert(s@.take(s@.len() as int) =~= s@);
    text::string_of(out.as_slice())
}

/// The text without the separators that a number may have.
pub open spec fn unseparated(s: Seq<char>) -> Seq<char>
    decreases s.len(),
{
    if s.len() == 0 {
        s
    } else if s.last() == '.' || s.last() == ',' {
        unseparated(s.drop_last())
    } else {
        unseparated(s.drop_last()).push(s.last())
    }
}

fn drop_separators(s: &str) -> (r: String)
    ensures
        r@ == unseparated(s@),
{
    let mut out: Vec<char> = Vec::new();
    assert(s@.take(0) =~= Seq::empty());
    for c in it: s.chars()
        invariant
            it.seq() == s@,
            out@ == unseparated(s@.take(it.index())),
    {
        assert(s@.take(it.index() + 1).drop_last() =~= s@.take(it.index()));
        if c != '.' && c != ',' {
            out.push(c);
        }
    }
    assert(s@.take(s@.len() as int) =~= s@);
    text::string_of(out.as_slice())
}

/// Digits in groups of three, the first of which may be shorter.
pub open spec fn are_groups(groups: Seq<Seq<char>>) -> bool {
    &&& groups.len() > 1
    &&& 1 <= groups[0].len() <= 3
    &&& text::all_digits(groups[0])
    &&& forall|i: int|
        1 <= i < groups.len() ==> (#[trigger] groups[i]).len() == 3 && text::all_digits(groups[i])
}

/// An integer as a page may write it: digits, or groups of them with one kind of separator.
pub open spec fn is_grouped_integer(s: Seq<char>) -> bool {
    ||| s.len() > 0 && text::all_digits(s)
    ||| s.contains('.') && !s.contains(',') && are_groups(text::split(s, '.'))
    ||| s.contains(',') && !s.contains('.') && are_groups(text::split(s, ','))
}

fn has_char(s: &str, wanted: char) -> (r: bool)
    ensures
        r == s@.contains(wanted),
{
    for c in it: s.chars()
        invariant
            it.seq() == s@,
            forall|i: int| 0 <= i < it.index() ==> s@[i] != wanted,
    {
        if c == wanted {
            assert(s@[it.index()] == wanted);
            return true;
        }
    }
    false
}

fn valid_groups(s: &str, separator: char) -> (r: bool)
    ensures
        r == are_groups(text::split(s@, separator)),
{
    let groups: Vec<String> = text::split_at_char(s, separator);
    let ghost all = text::texts(groups@);
    if groups.len() <= 1 {
        return false;
    }
    assert(all[0] == groups@[0]@);
    let first: usize = groups[0].as_str().unicode_len();
    if !(1 <= first && first <= 3) || !text::only_digits(groups[0].as_str()) {
        return false;
    }
    let mut i: usize = 1;
    while i < groups.len()
        invariant
            1 <= i <= groups@.len(),
            all == text::texts(groups@),
            all == text::split(s@, separator),
            forall|k: int|
                1 <= k < i ==> (#[trigger] all[k]).len() == 3 && text::all_digits(all[k]),
        decreases groups@.len() - i,
    {
        assert(all[i as int] == groups@[i as int]@);
        if groups[i].as_str().unicode_len() != 3 || !text::only_digits(groups[i].as_str()) {
            return false;
        }
        i = i + 1;
    }
    true
}

fn valid_grouped_integer(value: &str) -> (r: bool)
    ensures
        r == is_grouped_integer(value@),
{
    if !value.is_empty() && text::only_digits(value) {
        return true;
    }
    let dot: bool = has_char(value, '.');
    let comma: bool = has_char(value, ',');
    if dot && !comma {
        valid_groups(value, '.')
    } else if comma && !dot {
        valid_groups(value, ',')
    } else {
        false
    }
}

/// The last place of a character.
pub open spec fn last_place(s: Seq<char>, c: char) -> Option<int>
    decreases s.len(),
{
    if s.len() == 0 {
        None
    } else if s.last() == c {
        Some(s.len() - 1)
    } else {
        last_place(s.drop_last(), c)
    }
}

fn find_last(v: &Vec<char>, c: char) -> (r: Option<usize>)
    ensures
        match r {
            Some(i) => last_place(v@, c) == Some(i as int) && i < v@.len(),
            None => last_place(v@, c) is None,
        },
{
    let mut n: usize = v.len();
    assert(v@.take(n as int) =~= v@);
    while n > 0
        invariant
            0 <= n <= v@.len(),
            last_place(v@, c) == last_place(v@.take(n as int), c),
        decreases n,
    {
        assert(v@.take(n as int).drop_last() =~= v@.take(n - 1));
        if v[n - 1] == c {
            return Some(n - 1);
        }
        n = n - 1;
    }
    None
}

/// The place of the decimal separator: the later one of both kinds, or the only one where
/// at most two digits follow it.
pub open spec fn decimal_place(body: Seq<char>) -> Option<int> {
    match (last_place(body, ','), last_place(body, '.')) {
        (Some(a), Some(b)) => Some(
            if a > b {
                a
            } else {
                b
            },
        ),
        (Some(a), None) => if body.len() - a - 1 <= 2 {
            Some(a)
        } else {
            None
        },
        (None, Some(b)) => if body.len() - b - 1 <= 2 {
            Some(b)
        } else {
            None
        },
        (None, None) => None,
    }
}

/// The plain decimal spelling of a number that is written without a sign.
pub open spec fn plain_number(body: Seq<char>) -> Option<Seq<char>> {
    match decimal_place(body) {
        Some(i) => {
            let fraction = body.skip(i + 1);
            if fraction.len() == 0 || !text::all_digits(fraction) || !is_grouped_integer(
                body.take(i),
            ) {
                None
            } else {
                Some(unseparated(body.take(i)) + "."@ + fraction)
            }
        },
        None => if is_grouped_integer(body) {
            Some(unseparated(body))
        } else {
            None
        },
    }
}

pub open spec fn number_pattern() -> Seq<char> {
    r"^[+-]?\d(?:[\d.,]*\d)?$"@
}

/// The plain decimal spelling of a number as a page may write it.
pub open spec fn localized(s: Seq<char>) -> Option<Seq<char>> {
    let all = compacted(s);
    if !pattern::pattern_occurs(number_pattern(), all) || all.len() == 0 {
        None
    } else if all[0] == '-' {
        match plain_number(all.skip(1)) {
            Some(t) => Some("-"@ + t),
            None => None,
        }
    } else if all[0] == '+' {
        plain_number(all.skip(1))
    } else {
        plain_number(all)
    }
}

/// The number that a page may write in this way.
pub open spec fn localized_number(s: Seq<char>) -> Option<(u64, Seq<char>)> {
    match localized(s) {
        Some(t) => double::double_of(t),
        None => None,
    }
}

fn plain(v: &Vec<char>, from: usize) -> (r: Option<String>)
    requires
        from <= v@.len(),
    ensures
        text::text_of(r) == plain_number(v@.skip(from as int)),
{
    let body: String = text::substring(v, from, v.len());
    assert(body@ =~= v@.skip(from as int));
    let b: Vec<char> = text::chars_of(body.as_str());
    let comma: Option<usize> = find_last(&b, ',');
    let dot: Option<usize> = find_last(&b, '.');
    let place: Option<usize> = match (comma, dot) {
        (Some(x), Some(y)) => Some(
            if x > y {
                x
            } else {
                y
            },
        ),
        (Some(x), None) => if b.len() - x - 1 <= 2 {
            Some(x)
        } else {
            None
        },
        (None, Some(y)) => if b.len() - y - 1 <= 2 {
            Some(y)
        } else {
            None
        },
        (None, None) => None,
    };
    match place {
        Some(i) => {
            let integer: String = text::substring(&b, 0, i);
            let fraction: String = text::substring(&b, i + 1, b.len());
            assert(integer@ =~= b@.take(i as int));
            assert(fraction@ =~= b@.skip(i + 1));
            if fraction.as_str().is_empty() || !text::only_digits(fraction.as_str())
                || !valid_grouped_integer(integer.as_str()) {
                None
            } else {
                Some(
                    text::joined3(
                        drop_separators(integer.as_str()).as_str(),
                        ".",
                        fraction.as_str(),
                    ),
                )
            }
        },
        None => if valid_grouped_integer(body.as_str()) {
            Some(drop_separators(body.as_str()))
        } else {
            None
        },
    }
}

/// The number that a page may write with spaces, separators and a sign.
pub fn parse_localized_number(value: &str) -> (r: Option<Real>)
    ensures
        double::real_of(r) == localized_number(value@),
{
    let all: String = compact(value);
    if !pattern::is_match(r"^[+-]?\d(?:[\d.,]*\d)?$", all.as_str()) || all.as_str().is_empty() {
        return None;
    }
    let v: Vec<char> = text::chars_of(all.as_str());
    let spelled: Option<String> = if v[0] == '-' {
        match plain(&v, 1) {
            Some(t) => Some(text::joined("-", t.as_str())),
            None => None,
        }
    } else if v[0] == '+' {
        plain(&v, 1)
    } else {
        assert(v@.skip(0) =~= v@);
        plain(&v, 0)
    };
    match spelled {
        Some(t) => double::read_double(t.as_str()),
        None => None,
    }
}

pub open spec fn price_pattern() -> Seq<char> {
    r"[+-]?\d(?:[\d\s\u{00a0}\u{202f}.,]*\d)?"@
}

/// The number of a price: a JSON number, or the first number in a text.
pub open spec fn number_in(v: JsonV) -> Option<(u64, Seq<char>)> {
    match v {
        JsonV::Number(n) => double::real_of_number(n),
        JsonV::Text(s) => match pattern::first_match(price_pattern(), s) {
            Some(m) => match pattern::group(m, 0) {
                Some(t) => localized_number(t),
                None => None,
            },
            None => None,
        },
        _ => None,
    }
}

/// The price that a value shows: a finite number that is not negative.
pub open spec fn price_in(v: Option<JsonV>) -> Option<(u64, Seq<char>)> {
    match v {
        None => None,
        Some(v) => match number_in(v) {
            Some(x) => if double::is_finite(x.0) && double::order(x.0) >= 0 {
                Some(x)
            } else {
                None
            },
            None => None,
        },
    }
}

pub fn price_to_number(value: Option<&Json>) -> (r: Option<Real>)
    ensures
        double::real_of(r) == price_in(json::view_of(value)),
{
    let parsed: Option<Real> = match value {
        Some(Json::Number(n)) => double::number_real(n),
        Some(Json::Text(s)) => match pattern::captures(
            r"[+-]?\d(?:[\d\s\u{00a0}\u{202f}.,]*\d)?",
            s.as_str(),
        ) {
            Some(m) => match pattern::group_text(&m, 0) {
                Some(t) => parse_localized_number(t.as_str()),
                None => None,
            },
            None => None,
        },
        _ => None,
    };
    match parsed {
        Some(x) => {
            let place: i128 = double::order_of(x.bits);
            if place >= 0 && place < double::INFINITE as i128 {
                Some(x)
            } else {
                None
            }
        },
        None => None,
    }
}

/// A number times a multiplier, rounded, where it is not negative and a safe integer.
pub open spec fn count_of(bits: u64, multiplier: nat) -> Option<u64> {
    if double::order(bits) < 0 || !double::is_finite(bits) || double::scaled(
        double::order(bits) as u64,
        multiplier,
    ) > 9_007_199_254_740_991 {
        None
    } else {
        Some(double::scaled(double::order(bits) as u64, multiplier) as u64)
    }
}

fn scaled_count(bits: u64, multiplier: u64) -> (r: Option<u64>)
    requires
        multiplier <= 1_000_000,
    ensures
        r == count_of(bits, multiplier as nat),
{
    let place: i128 = double::order_of(bits);
    if place < 0 || place >= double::INFINITE as i128 {
        return None;
    }
    let count: u64 = double::scaled_to_integer(place as u64, multiplier);
    if count > 9_007_199_254_740_991 {
        None
    } else {
        Some(count)
    }
}

/// What `str::to_lowercase` makes of a text.
pub uninterp spec fn lowered(s: Seq<char>) -> Seq<char>;

/// `str::to_lowercase`, a function of the text.
#[verifier::external_body]
pub(crate) fn to_lowercase(s: &str) -> (r: String)
    ensures
        r@ == lowered(s@),
{
    s.to_lowercase()
}

/// The multiplier that a word behind a number stands for.
pub open spec fn multiplier_of(suffix: Seq<char>) -> nat {
    let s = lowered(suffix);
    if text::starts(s, "тыс"@) || s == "k"@ {
        1_000
    } else if text::starts(s, "млн"@) || text::starts(s, "миллион"@) || s == "m"@ {
        1_000_000
    } else {
        1
    }
}

fn suffix_multiplier(suffix: &str) -> (r: u64)
    ensures
        r == multiplier_of(suffix@),
        r <= 1_000_000,
{
    let s: String = to_lowercase(suffix);
    let s: &str = s.as_str();
    if text::starts_with(s, "тыс") || text::same(s, "k") {
        1_000
    } else if text::starts_with(s, "млн") || text::starts_with(s, "миллион") || text::same(s, "m") {
        1_000_000
    } else {
        1
    }
}

/// The count that the groups of a match spell: a number, and a word that multiplies it.
pub open spec fn matched_count(m: Seq<Option<Seq<char>>>) -> Option<u64> {
    match pattern::group(m, 1) {
        None => None,
        Some(t) => match localized_number(t) {
            None => None,
            Some((bits, _)) => count_of(
                bits,
                multiplier_of(
                    match pattern::group(m, 2) {
                        Some(s) => s,
                        None => ""@,
                    },
                ),
            ),
        },
    }
}

fn count_in_match(m: &Vec<Option<String>>) -> (r: Option<u64>)
    ensures
        r == matched_count(pattern::groups(m@)),
{
    match pattern::group_text(m, 1) {
        None => None,
        Some(t) => match parse_localized_number(t.as_str()) {
            None => None,
            Some(x) => {
                let suffix: String = match pattern::group_text(m, 2) {
                    Some(s) => s,
                    None => "".to_owned(),
                };
                scaled_count(x.bits, suffix_multiplier(suffix.as_str()))
            },
        },
    }
}

pub open spec fn count_pattern() -> Seq<char> {
    r"(?iu)^\s*([+-]?\d(?:[\d\s\u{00a0}\u{202f}.,]*\d)?)(?:\s*)(тыс(?:яч[аи])?\.?|млн\.?|миллион[а-яё]*|k|m)?\s*$"@
}

/// The count that a value shows: a number, or a text that is nothing but a count.
pub open spec fn count_in(v: Option<JsonV>) -> Option<u64> {
    match v {
        Some(JsonV::Number(n)) => count_of(double::bits_of(n) as u64, 1),
        Some(JsonV::Text(s)) => match pattern::first_match(count_pattern(), s) {
            Some(m) => matched_count(m),
            None => None,
        },
        _ => None,
    }
}

pub fn count_from_value(value: Option<&Json>) -> (r: Option<u64>)
    ensures
        r == count_in(json::view_of(value)),
{
    match value {
        Some(Json::Number(n)) => scaled_count(double::number_bits(n), 1),
        Some(Json::Text(s)) => match pattern::captures(
            r"(?iu)^\s*([+-]?\d(?:[\d\s\u{00a0}\u{202f}.,]*\d)?)(?:\s*)(тыс(?:яч[аи])?\.?|млн\.?|миллион[а-яё]*|k|m)?\s*$",
            s.as_str(),
        ) {
            Some(m) => count_in_match(&m),
            None => None,
        },
        _ => None,
    }
}

pub open spec fn review_count_pattern() -> Seq<char> {
    r"(?iu)([+-]?\d(?:[\d\s\u{00a0}\u{202f}.,]*\d)?)(?:\s*)(тыс(?:яч[аи])?\.?|млн\.?|миллион[а-яё]*|k|m)?\s*(?:отзыв[а-яё]*|reviews?)"@
}

/// The first count, from the `i`-th match on.
pub open spec fn first_count(v: Seq<Seq<Option<Seq<char>>>>, i: int) -> Option<u64>
    decreases v.len() - i,
{
    if i < 0 || i >= v.len() {
        None
    } else {
        match matched_count(v[i]) {
            Some(n) => Some(n),
            None => first_count(v, i + 1),
        }
    }
}

/// The first number of reviews that a text tells of.
pub open spec fn review_count_in(s: Seq<char>) -> Option<u64> {
    first_count(pattern::all_matches(review_count_pattern(), s), 0)
}

fn review_count(source: &str) -> (r: Option<u64>)
    ensures
        r == review_count_in(source@),
{
    let rows: Vec<Vec<Option<String>>> = pattern::captures_all(
        r"(?iu)([+-]?\d(?:[\d\s\u{00a0}\u{202f}.,]*\d)?)(?:\s*)(тыс(?:яч[аи])?\.?|млн\.?|миллион[а-яё]*|k|m)?\s*(?:отзыв[а-яё]*|reviews?)",
        source,
    );
    let ghost all = pattern::rows_of(rows@);
    let mut i: usize = 0;
    while i < rows.len()
        invariant
            0 <= i <= rows@.len(),
            all == pattern::rows_of(rows@),
            all == pattern::all_matches(review_count_pattern(), source@),
            first_count(all, 0) == first_count(all, i as int),
        decreases rows@.len() - i,
    {
        assert(all[i as int] == pattern::groups(rows@[i as int]@));
        if let Some(n) = count_in_match(&rows[i]) {
            return Some(n);
        }
        i = i + 1;
    }
    None
}

/// The number of reviews that a text value tells of.
pub open spec fn review_count_of(v: Option<JsonV>) -> Option<u64> {
    match v {
        Some(JsonV::Text(s)) => review_count_in(s),
        _ => None,
    }
}

pub fn parse_review_count(value: Option<&Json>) -> (r: Option<u64>)
    ensures
        r == review_count_of(json::view_of(value)),
{
    match value {
        Some(Json::Text(s)) => review_count(s.as_str()),
        _ => None,
    }
}

pub open spec fn stars_pattern() -> Seq<char> {
    r"(?iu)(?:^|[^\d])([0-5](?:[.,]\d+)?)(?:\s*)(?:из\s*5|/\s*5|[★⭐]|звезд[а-яё]*)"@
}

pub open spec fn leading_rating_pattern() -> Seq<char> {
    r"^([0-5](?:[.,]\d+)?)"@
}

pub open spec fn reviews_follow_pattern() -> Seq<char> {
    r"(?iu)^\s*(?:\d|(?:(?:тыс(?:яч[аи])?\.?|млн\.?|миллион[а-яё]*|k|m)\s*)?(?:отзыв[а-яё]*|reviews?))"@
}

/// A number of at most five.
pub open spec fn up_to_five(x: Option<(u64, Seq<char>)>) -> Option<(u64, Seq<char>)> {
    match x {
        Some(x) => if double::order(x.0) <= double::order(double::FIVE) {
            Some(x)
        } else {
            None
        },
        None => None,
    }
}

/// A rating from nothing to five.
pub open spec fn as_rating(x: Option<(u64, Seq<char>)>) -> Option<(u64, Seq<char>)> {
    match up_to_five(x) {
        Some(x) => if double::order(x.0) >= 0 {
            Some(x)
        } else {
            None
        },
        None => None,
    }
}

/// The number that a group of a match spells, of at most five.
pub open spec fn group_rating(m: Seq<Option<Seq<char>>>) -> Option<(u64, Seq<char>)> {
    match pattern::group(m, 1) {
        Some(t) => up_to_five(localized_number(t)),
        None => None,
    }
}

/// The text behind a match at its start.
pub open spec fn behind(source: Seq<char>, m: Seq<Option<Seq<char>>>) -> Seq<char> {
    match pattern::group(m, 0) {
        Some(t) => match text::without_prefix(source, t) {
            Some(rest) => rest,
            None => source,
        },
        None => source,
    }
}

/// The rating that the words of a text tell of: the number that they are, the one that
/// they put out of five or before stars, or the one that they start with, unless that one
/// counts reviews.
pub open spec fn rating_in_words(source: Seq<char>) -> Option<(u64, Seq<char>)> {
    match as_rating(localized_number(source)) {
        Some(x) => Some(x),
        None => match pattern::first_match(stars_pattern(), source) {
            Some(m) => group_rating(m),
            None => match pattern::first_match(leading_rating_pattern(), source) {
                None => None,
                Some(m) => if pattern::pattern_occurs(
                    reviews_follow_pattern(),
                    behind(source, m),
                ) {
                    None
                } else {
                    group_rating(m)
                },
            },
        },
    }
}

/// The rating that a value shows.
pub open spec fn rating_of(v: JsonV) -> Option<(u64, Seq<char>)>
    decreases v,
{
    match v {
        JsonV::Number(n) => as_rating(double::real_of_number(n)),
        JsonV::Object(m) => {
            proof {
                json::lemma_lookup_smaller(m, "text"@);
                json::lemma_lookup_smaller(m, "value"@);
            }
            let first = match json::lookup(m, "text"@) {
                Some(t) => rating_of(t),
                None => None,
            };
            match first {
                Some(x) => Some(x),
                None => match json::lookup(m, "value"@) {
                    Some(t) => rating_of(t),
                    None => None,
                },
            }
        },
        _ => match words_of(v) {
            Some(source) => rating_in_words(source),
            None => None,
        },
    }
}

pub open spec fn rating_in(v: Option<JsonV>) -> Option<(u64, Seq<char>)> {
    match v {
        Some(v) => rating_of(v),
        None => None,
    }
}

fn at_most_five(x: Option<Real>) -> (r: Option<Real>)
    ensures
        double::real_of(r) == up_to_five(double::real_of(x)),
{
    match x {
        Some(x) => if double::order_of(x.bits) <= double::order_of(double::FIVE) {
            Some(x)
        } else {
            None
        },
        None => None,
    }
}

fn in_rating_range(x: Option<Real>) -> (r: Option<Real>)
    ensures
        double::real_of(r) == as_rating(double::real_of(x)),
{
    match at_most_five(x) {
        Some(x) => if double::order_of(x.bits) >= 0 {
            Some(x)
        } else {
            None
        },
        None => None,
    }
}

fn rating_group(m: &Vec<Option<String>>) -> (r: Option<Real>)
    ensures
        double::real_of(r) == group_rating(pattern::groups(m@)),
{
    match pattern::group_text(m, 1) {
        Some(t) => at_most_five(parse_localized_number(t.as_str())),
        None => None,
    }
}

fn rating_from_words(source: &str) -> (r: Option<Real>)
    ensures
        double::real_of(r) == rating_in_words(source@),
{
    if let Some(x) = in_rating_range(parse_localized_number(source)) {
        return Some(x);
    }
    if let Some(m) = pattern::captures(
        r"(?iu)(?:^|[^\d])([0-5](?:[.,]\d+)?)(?:\s*)(?:из\s*5|/\s*5|[★⭐]|звезд[а-яё]*)",
        source,
    ) {
        return rating_group(&m);
    }
    let m: Vec<Option<String>> = match pattern::captures(r"^([0-5](?:[.,]\d+)?)", source) {
        Some(m) => m,
        None => return None,
    };
    let remaining: String = match pattern::group_text(&m, 0) {
        Some(t) => match text::strip_prefix(source, t.as_str()) {
            Some(rest) => rest,
            None => source.to_owned(),
        },
        None => source.to_owned(),
    };
    if pattern::is_match(
        r"(?iu)^\s*(?:\d|(?:(?:тыс(?:яч[аи])?\.?|млн\.?|миллион[а-яё]*|k|m)\s*)?(?:отзыв[а-яё]*|reviews?))",
        remaining.as_str(),
    ) {
        return None;
    }
    rating_group(&m)
}

fn rating_of_value(v: &Json) -> (r: Option<Real>)
    ensures
        double::real_of(r) == rating_of(v@),
    decreases v,
{
    match v {
        Json::Number(n) => in_rating_range(double::number_real(n)),
        Json::Object(_) => {
            if let Some(t) = v.get("text") {
                if let Some(x) = rating_of_value(t) {
                    return Some(x);
                }
            }
            match v.get("value") {
                Some(t) => rating_of_value(t),
                None => None,
            }
        },
        _ => match words(v) {
            Some(source) => rating_from_words(source.as_str()),
            None => None,
        },
    }
}

pub fn rating_from_value(value: Option<&Json>) -> (r: Option<Real>)
    ensures
        double::real_of(r) == rating_in(json::view_of(value)),
{
    match value {
        Some(v) => rating_of_value(v),
        None => None,
    }
}

/// The texts in a value, in order.
pub open spec fn strings_in(v: JsonV) -> Seq<Seq<char>>
    decreases v,
{
    match v {
        JsonV::Text(s) => seq![s],
        JsonV::Array(items) => strings_in_items(items),
        JsonV::Object(m) => strings_in_members(m),
        _ => Seq::empty(),
    }
}

pub open spec fn strings_in_items(v: Seq<JsonV>) -> Seq<Seq<char>>
    decreases v,
{
    if v.len() == 0 {
        Seq::empty()
    } else {
        strings_in_items(v.drop_last()) + strings_in(v.last())
    }
}

pub open spec fn strings_in_members(m: Seq<(Seq<char>, JsonV)>) -> Seq<Seq<char>>
    decreases m,
{
    if m.len() == 0 {
        Seq::empty()
    } else {
        strings_in_members(m.drop_last()) + strings_in(m.last().1)
    }
}

fn collect_strings(value: &Json, result: &mut Vec<String>)
    ensures
        text::texts(final(result)@) == text::texts(old(result)@) + strings_in(value@),
    decreases value,
{
    let ghost start = text::texts(result@);
    match value {
        Json::Text(s) => {
            let owned: String = s.clone();
            proof {
                text::lemma_texts_push(result@, owned);
            }
            result.push(owned);
            assert(start.push(s@) =~= start + seq![s@]);
        },
        Json::Array(v) => {
            let ghost all = json::values(v@);
            assert(value@->Array_0 =~= all);
            let mut i: usize = 0;
            assert(all.take(0) =~= Seq::empty());
            assert(start + Seq::<Seq<char>>::empty() =~= start);
            while i < v.len()
                invariant
                    0 <= i <= v@.len(),
                    all == json::values(v@),
                    decreases_to!(value => v@),
                    text::texts(result@) == start + strings_in_items(all.take(i as int)),
                decreases v@.len() - i,
            {
                assert(decreases_to!(v@ => v@[i as int]));
                assert(all.take(i + 1).drop_last() =~= all.take(i as int));
                assert(all.take(i + 1).last() == v@[i as int]@);
                collect_strings(&v[i], result);
                assert(start + (strings_in_items(all.take(i as int)) + strings_in(v@[i as int]@))
                    =~= (start + strings_in_items(all.take(i as int))) + strings_in(
                    v@[i as int]@,
                ));
                i = i + 1;
            }
            assert(all.take(i as int) =~= all);
        },
        Json::Object(m) => {
            let ghost all = json::members(m@);
            assert(value@->Object_0 =~= all);
            let mut i: usize = 0;
            assert(all.take(0) =~= Seq::empty());
            assert(start + Seq::<Seq<char>>::empty() =~= start);
            while i < m.len()
                invariant
                    0 <= i <= m@.len(),
                    all == json::members(m@),
                    decreases_to!(value => m@),
                    text::texts(result@) == start + strings_in_members(all.take(i as int)),
                decreases m@.len() - i,
            {
                assert(decreases_to!(m@ => m@[i as int]));
                assert(decreases_to!(m@[i as int] => m@[i as int].1));
                assert(all.take(i + 1).drop_last() =~= all.take(i as int));
                assert(all.take(i + 1).last() == (m@[i as int].0@, m@[i as int].1@));
                collect_strings(&m[i].1, result);
                assert(start + (strings_in_members(all.take(i as int)) + strings_in(
                    m@[i as int].1@,
                )) =~= (start + strings_in_members(all.take(i as int))) + strings_in(
                    m@[i as int].1@,
                ));
                i = i + 1;
            }
            assert(all.take(i as int) =~= all);
        },
        _ => {
            assert(start + Seq::<Seq<char>>::empty() =~= start);
        },
    }
}

/// The article number that a value holds, as digits.
pub open spec fn sku_in(v: Option<JsonV>) -> Option<Seq<char>> {
    match v {
        Some(JsonV::Number(NumberV::Unsigned(n))) => Some(text::decimal(n as nat)),
        Some(JsonV::Text(s)) => if text::trimmed(s).len() > 0 && text::all_digits(
            text::trimmed(s),
        ) {
            Some(text::trimmed(s))
        } else {
            None
        },
        _ => None,
    }
}

pub fn normalize_sku(value: Option<&Json>) -> (r: Option<String>)
    ensures
        text::text_of(r) == sku_in(json::view_of(value)),
{
    match value {
        Some(Json::Number(Number::Unsigned(n))) => Some(text::decimal_text(*n)),
        Some(Json::Text(s)) => {
            let candidate: String = text::trim(s.as_str());
            if !candidate.as_str().is_empty() && text::only_digits(candidate.as_str()) {
                Some(candidate)
            } else {
                None
            }
        },
        _ => None,
    }
}

/// The URL of a page of the site under `https` and the site's own host, where the offsets of
/// such a URL keep within 32 bits.
pub open spec fn moved(url: Seq<char>) -> Option<Seq<char>> {
    match address::parsed_url(url) {
        Err(_) => None,
        Ok(a) => if !address::takes_part(a, a.scheme, "https"@) {
            None
        } else {
            match address::url_with_scheme(url, "https"@) {
                None => None,
                Some(t) => match address::parsed_url(t) {
                    Err(_) => None,
                    Ok(b) => match b.host {
                        None => None,
                        Some(h) => if !address::takes_part(b, h, "www.ozon.ru"@) {
                            None
                        } else {
                            address::url_with_host(t, "www.ozon.ru"@)
                        },
                    },
                },
            }
        },
    }
}

/// The URL of a page of the site in its canonical form: `https`, the site's own host, no
/// query and no fragment.
pub open spec fn canonical(url: Seq<char>) -> Option<Seq<char>> {
    match moved(url) {
        None => None,
        Some(t) => match address::parsed_url(t) {
            Err(_) => None,
            Ok(_) => address::url_without_fragment(address::url_without_query(t)),
        },
    }
}

/// Whether a text spells a URL of the site without a query or a fragment, which leads to this
/// path.
pub open spec fn leads_to(url: Seq<char>, path: Seq<char>) -> bool {
    address::parsed_url(url) matches Ok(a) && {
        &&& a.scheme == "https"@
        &&& a.host == Some("www.ozon.ru"@)
        &&& a.path == path
        &&& a.query is None
        &&& a.fragment is None
    }
}

fn move_to_site(url: &str) -> (r: Option<String>)
    ensures
        text::text_of(r) == moved(url@),
        (r is Some && (address::parsed_url(url@) matches Ok(a) && (a.scheme == "http"@ || a.scheme
            == "https"@))) ==> (address::parsed_url(r->Some_0@) matches Ok(b) && b.scheme == "https"@
            && b.host == Some("www.ozon.ru"@) && address::same_place(
            address::parsed_url(url@)->Ok_0,
            b,
        )),
{
    let a: Address = match address::parse_url(url) {
        Ok(a) => a,
        Err(_) => return None,
    };
    if !address::can_take(&a, a.scheme.as_str(), "https") {
        return None;
    }
    proof {
        reveal_strlit("https");
        text::lemma_utf8_bound("https"@);
    }
    let t: String = match address::with_scheme(url, "https") {
        Some(t) => t,
        None => return None,
    };
    let b: Address = match address::parse_url(t.as_str()) {
        Ok(b) => b,
        Err(_) => return None,
    };
    match &b.host {
        None => None,
        Some(h) => if !address::can_take(&b, h.as_str(), "www.ozon.ru") {
            None
        } else {
            address::with_host(t.as_str(), "www.ozon.ru")
        },
    }
}

fn canonicalize(url: &str) -> (r: Option<String>)
    ensures
        text::text_of(r) == canonical(url@),
        (r is Some && (address::parsed_url(url@) matches Ok(a) && (a.scheme == "http"@ || a.scheme
            == "https"@))) ==> leads_to(r->Some_0@, address::parsed_url(url@)->Ok_0.path),
{
    let t: String = match move_to_site(url) {
        Some(t) => t,
        None => return None,
    };
    if address::parse_url(t.as_str()).is_err() {
        return None;
    }
    let t: String = address::without_query(t.as_str());
    address::without_fragment(t.as_str())
}

pub open spec fn is_site_host(host: Option<Seq<char>>) -> bool {
    host matches Some(h) && (text::lowercase(h) == "ozon.ru"@ || text::lowercase(h)
        == "www.ozon.ru"@)
}

/// The canonical URL behind a link to a page of the site.
pub open spec fn clean_link(link: Seq<char>) -> Option<Seq<char>> {
    if text::trimmed(link).len() == 0 {
        None
    } else {
        match address::joined_url("https://www.ozon.ru"@, text::trimmed(link)) {
            None => None,
            Some(a) => if (a.scheme == "http"@ || a.scheme == "https"@) && is_site_host(a.host) {
                canonical(a.text)
            } else {
                None
            },
        }
    }
}

/// Where a cleaned link leads: to the page of the site that the link names.
pub open spec fn is_clean(link: Seq<char>, url: Seq<char>) -> bool {
    address::joined_url("https://www.ozon.ru"@, text::trimmed(link)) matches Some(a) && leads_to(
        url,
        a.path,
    )
}

fn clean(link: &str) -> (r: Option<String>)
    ensures
        text::text_of(r) == clean_link(link@),
        r matches Some(url) ==> is_clean(link@, url@),
{
    let link: String = text::trim(link);
    if link.as_str().is_empty() {
        return None;
    }
    let url: Address = match address::join_url("https://www.ozon.ru", link.as_str()) {
        Some(a) => a,
        None => return None,
    };
    let own: bool = match &url.host {
        Some(h) => {
            let h: String = text::to_ascii_lowercase(h.as_str());
            text::same(h.as_str(), "ozon.ru") || text::same(h.as_str(), "www.ozon.ru")
        },
        None => false,
    };
    if !(text::same(url.scheme.as_str(), "http") || text::same(url.scheme.as_str(), "https"))
        || !own {
        return None;
    }
    canonicalize(url.text.as_str())
}

/// The canonical URL behind a link that a value holds.
pub open spec fn url_in(v: Option<JsonV>) -> Option<Seq<char>> {
    match v {
        Some(JsonV::Text(s)) => clean_link(s),
        _ => None,
    }
}

pub fn clean_url(link: Option<&Json>) -> (r: Option<String>)
    ensures
        text::text_of(r) == url_in(json::view_of(link)),
        r matches Some(url) ==> (link matches Some(l) && (l@ matches JsonV::Text(s) && is_clean(
            s,
            url@,
        ))),
{
    match link {
        Some(Json::Text(s)) => clean(s.as_str()),
        _ => None,
    }
}

pub open spec fn product_url_pattern() -> Seq<char> {
    r"(?iu)/product/(?:[^/]*-)?(\d+)/?$"@
}

pub open spec fn terminal_number_pattern() -> Seq<char> {
    r"-(\d+)/?$"@
}

/// The article number at the end of a path.
pub open spec fn sku_in_path(path: Seq<char>) -> Option<Seq<char>> {
    match pattern::first_match(product_url_pattern(), path) {
        Some(m) => pattern::group(m, 1),
        None => match pattern::first_match(terminal_number_pattern(), path) {
            Some(m) => pattern::group(m, 1),
            None => None,
        },
    }
}

/// The article number at the end of the URL behind a link.
pub open spec fn sku_in_link(link: Seq<char>) -> Option<Seq<char>> {
    match clean_link(link) {
        None => None,
        Some(u) => match address::parsed_url(u) {
            Err(_) => None,
            Ok(a) => sku_in_path(a.path),
        },
    }
}

fn sku_from_url(link: &str) -> (r: Option<String>)
    ensures
        text::text_of(r) == sku_in_link(link@),
{
    let url: String = match clean(link) {
        Some(u) => u,
        None => return None,
    };
    let path: String = match address::parse_url(url.as_str()) {
        Ok(a) => a.path,
        Err(_) => return None,
    };
    if let Some(m) = pattern::captures(r"(?iu)/product/(?:[^/]*-)?(\d+)/?$", path.as_str()) {
        return pattern::group_text(&m, 1);
    }
    match pattern::captures(r"-(\d+)/?$", path.as_str()) {
        Some(m) => pattern::group_text(&m, 1),
        None => None,
    }
}

/// The address of an image: a text, or what an object holds under `src`, `link` or `url`.
pub open spec fn image_of(v: JsonV) -> Option<Seq<char>>
    decreases v,
{
    match v {
        JsonV::Text(s) => if text::trimmed(s).len() > 0 {
            Some(text::trimmed(s))
        } else {
            None
        },
        JsonV::Object(m) => {
            proof {
                json::lemma_lookup_smaller(m, "src"@);
                json::lemma_lookup_smaller(m, "link"@);
                json::lemma_lookup_smaller(m, "url"@);
            }
            let src = match json::lookup(m, "src"@) {
                Some(x) => image_of(x),
                None => None,
            };
            let link = match json::lookup(m, "link"@) {
                Some(x) => image_of(x),
                None => None,
            };
            let url = match json::lookup(m, "url"@) {
                Some(x) => image_of(x),
                None => None,
            };
            match src {
                Some(s) => Some(s),
                None => match link {
                    Some(s) => Some(s),
                    None => url,
                },
            }
        },
        _ => None,
    }
}

pub open spec fn image_in(v: Option<JsonV>) -> Option<Seq<char>> {
    match v {
        Some(v) => image_of(v),
        None => None,
    }
}

fn image_of_value(v: &Json) -> (r: Option<String>)
    ensures
        text::text_of(r) == image_of(v@),
    decreases v,
{
    match v {
        Json::Text(s) => {
            let source: String = text::trim(s.as_str());
            if source.as_str().is_empty() {
                None
            } else {
                Some(source)
            }
        },
        Json::Object(_) => {
            if let Some(x) = v.get("src") {
                if let Some(s) = image_of_value(x) {
                    return Some(s);
                }
            }
            if let Some(x) = v.get("link") {
                if let Some(s) = image_of_value(x) {
                    return Some(s);
                }
            }
            match v.get("url") {
                Some(x) => image_of_value(x),
                None => None,
            }
        },
        _ => None,
    }
}

pub fn image_url(value: Option<&Json>) -> (r: Option<String>)
    ensures
        text::text_of(r) == image_in(json::view_of(value)),
{
    match value {
        Some(v) => image_of_value(v),
        None => None,
    }
}

/// Whether one of the texts names the star icon.
pub open spec fn names_star(v: Seq<Seq<char>>) -> bool {
    exists|i: int| 0 <= i < v.len() && text::has(#[trigger] v[i], "ic_s_star"@)
}

fn has_star_icon(value: &Json) -> (r: bool)
    ensures
        r == names_star(strings_in(value@)),
{
    let mut strings: Vec<String> = Vec::new();
    collect_strings(value, &mut strings);
    let ghost all = text::texts(strings@);
    assert(all =~= strings_in(value@));
    let mut i: usize = 0;
    while i < strings.len()
        invariant
            0 <= i <= strings@.len(),
            all == text::texts(strings@),
            all == strings_in(value@),
            forall|k: int| 0 <= k < i ==> !text::has(#[trigger] all[k], "ic_s_star"@),
        decreases strings@.len() - i,
    {
        assert(all[i as int] == strings@[i as int]@);
        if text::contains(strings[i].as_str(), "ic_s_star") {
            return true;
        }
        i = i + 1;
    }
    false
}

/// The discount that a value shows.
pub open spec fn discount_in(v: Option<JsonV>) -> Option<DiscountV> {
    match v {
        Some(JsonV::Text(s)) => if text::trimmed(s).len() > 0 {
            Some(DiscountV::Text(text::trimmed(s)))
        } else {
            None
        },
        Some(JsonV::Number(n)) => Some(DiscountV::Number(n)),
        _ => None,
    }
}

fn discount(value: Option<&Json>) -> (r: Option<Discount>)
    ensures
        crate::model::discount_of(r) == discount_in(json::view_of(value)),
{
    match value {
        Some(Json::Text(s)) => {
            let shown: String = text::trim(s.as_str());
            if shown.as_str().is_empty() {
                None
            } else {
                Some(Discount::Text(shown))
            }
        },
        Some(Json::Number(n)) => Some(Discount::Number(n.copy())),
        _ => None,
    }
}

/// The objects of a row.
pub open spec fn objects_of(v: Seq<JsonV>) -> Seq<JsonV>
    decreases v.len(),
{
    if v.len() == 0 {
        v
    } else if v.last() is Object {
        objects_of(v.drop_last()).push(v.last())
    } else {
        objects_of(v.drop_last())
    }
}

fn objects<'a>(v: &'a Json) -> (r: Vec<&'a Json>)
    ensures
        json::refs(r@) == objects_of(v@.elements()),
{
    let rows: Vec<&Json> = json::elements(v);
    let ghost all = json::refs(rows@);
    let mut out: Vec<&'a Json> = Vec::new();
    let mut i: usize = 0;
    assert(all.take(0) =~= Seq::empty());
    assert(json::refs(out@) =~= Seq::empty());
    while i < rows.len()
        invariant
            0 <= i <= rows@.len(),
            all == json::refs(rows@),
            json::refs(out@) == objects_of(all.take(i as int)),
        decreases rows@.len() - i,
    {
        assert(all.take(i + 1).drop_last() =~= all.take(i as int));
        assert(all.take(i + 1).last() == rows@[i as int]@);
        if rows[i].is_object() {
            let ghost before = out@;
            out.push(rows[i]);
            assert(json::refs(out@) =~= json::refs(before).push(rows@[i as int]@));
        }
        i = i + 1;
    }
    assert(all.take(i as int) =~= all);
    out
}

/// Whether a member of an object is this text.
pub open spec fn says(v: JsonV, key: Seq<char>, value: Seq<char>) -> bool {
    v.field(key) == JsonV::Text(value)
}

fn is_said(v: &Json, key: &str, value: &str) -> (r: bool)
    ensures
        r == says(v@, key@, value@),
{
    match v.field(key).as_str() {
        Some(s) => text::same(s, value),
        None => false,
    }
}

/// The first value, from the `i`-th on, of which a member is this text.
pub open spec fn first_saying(
    v: Seq<JsonV>,
    key: Seq<char>,
    value: Seq<char>,
    i: int,
) -> Option<JsonV>
    decreases v.len() - i,
{
    if i < 0 || i >= v.len() {
        None
    } else if says(v[i], key, value) {
        Some(v[i])
    } else {
        first_saying(v, key, value, i + 1)
    }
}

fn find_saying<'a>(v: &Vec<&'a Json>, key: &str, value: &str) -> (r: Option<&'a Json>)
    ensures
        json::view_of(r) == first_saying(json::refs(v@), key@, value@, 0),
{
    let ghost all = json::refs(v@);
    let mut i: usize = 0;
    while i < v.len()
        invariant
            0 <= i <= v@.len(),
            all == json::refs(v@),
            first_saying(all, key@, value@, 0) == first_saying(all, key@, value@, i as int),
        decreases v@.len() - i,
    {
        assert(all[i as int] == v@[i as int]@);
        if is_said(v[i], key, value) {
            return Some(v[i]);
        }
        i = i + 1;
    }
    None
}

/// The price block of a tile: that of the first state, from the `i`-th on, that has one.
pub open spec fn price_block_in(states: Seq<JsonV>, i: int) -> Option<JsonV>
    decreases states.len() - i,
{
    if i < 0 || i >= states.len() {
        None
    } else if says(states[i], "type"@, "priceV2"@) && states[i].field("priceV2"@) is Object {
        Some(states[i].field("priceV2"@))
    } else {
        price_block_in(states, i + 1)
    }
}

fn price_block<'a>(states: &Vec<&'a Json>) -> (r: Option<&'a Json>)
    ensures
        json::view_of(r) == price_block_in(json::refs(states@), 0),
{
    let ghost all = json::refs(states@);
    let mut i: usize = 0;
    while i < states.len()
        invariant
            0 <= i <= states@.len(),
            all == json::refs(states@),
            price_block_in(all, 0) == price_block_in(all, i as int),
        decreases states@.len() - i,
    {
        assert(all[i as int] == states@[i as int]@);
        if is_said(states[i], "type", "priceV2") {
            let block: &'a Json = states[i].field("priceV2");
            if block.is_object() {
                return Some(block);
            }
        }
        i = i + 1;
    }
    None
}

/// A member of a value that may be missing.
pub open spec fn member_in(v: Option<JsonV>, key: Seq<char>) -> Option<JsonV> {
    match v {
        Some(v) => v.get(key),
        None => None,
    }
}

fn member<'a>(v: Option<&'a Json>, key: &str) -> (r: Option<&'a Json>)
    ensures
        json::view_of(r) == member_in(json::view_of(v), key@),
{
    match v {
        Some(v) => v.get(key),
        None => None,
    }
}

/// The prices that a price block shows.
pub open spec fn prices_in(block: Option<JsonV>) -> Seq<JsonV> {
    match block {
        Some(b) => objects_of(b.field("price"@).elements()),
        None => Seq::empty(),
    }
}

/// The text of the first price with this style.
pub open spec fn styled_price(block: Option<JsonV>, style: Seq<char>) -> Option<(u64, Seq<char>)> {
    price_in(member_in(first_saying(prices_in(block), "textStyle"@, style, 0), "text"@))
}

/// The former price, where it is above the present one.
pub open spec fn former_price(block: Option<JsonV>) -> Option<(u64, Seq<char>)> {
    match (styled_price(block, "ORIGINAL_PRICE"@), styled_price(block, "PRICE"@)) {
        (Some(old), Some(now)) => if double::order(old.0) > double::order(now.0) {
            Some(old)
        } else {
            None
        },
        _ => None,
    }
}

/// How a price block labels its price.
pub open spec fn price_type_in(block: Option<JsonV>) -> PriceType {
    if block matches Some(b) && says(b.field("priceStyle"@), "styleType"@, "CARD_PRICE"@) {
        PriceType::OzonCard
    } else {
        PriceType::Unknown
    }
}

/// The label of the delivery button of a tile, where it is short.
pub open spec fn delivery_label_in(item: JsonV) -> Option<Seq<char>> {
    match words_of(
        item.field("multiButton"@).field("ozonButton"@).field("addToCart"@).field(
            "actionButton"@,
        ).field("title"@),
    ) {
        Some(s) => if s.len() <= 120 {
            Some(s)
        } else {
            None
        },
        None => None,
    }
}

/// The texts of the text entries of a row.
pub open spec fn labels_in(v: Seq<JsonV>) -> Seq<Seq<char>>
    decreases v.len(),
{
    if v.len() == 0 {
        Seq::empty()
    } else if says(v.last(), "type"@, "text"@) && text_in(v.last().get("text"@)) is Some {
        labels_in(v.drop_last()).push(text_in(v.last().get("text"@))->Some_0)
    } else {
        labels_in(v.drop_last())
    }
}

fn labels(v: &Json) -> (r: Vec<String>)
    ensures
        text::texts(r@) == labels_in(v@.elements()),
{
    let rows: Vec<&Json> = json::elements(v);
    let ghost all = json::refs(rows@);
    let mut out: Vec<String> = Vec::new();
    let mut i: usize = 0;
    assert(all.take(0) =~= Seq::empty());
    assert(text::texts(out@) =~= Seq::empty());
    while i < rows.len()
        invariant
            0 <= i <= rows@.len(),
            all == json::refs(rows@),
            text::texts(out@) == labels_in(all.take(i as int)),
        decreases rows@.len() - i,
    {
        assert(all.take(i + 1).drop_last() =~= all.take(i as int));
        assert(all.take(i + 1).last() == rows@[i as int]@);
        if is_said(rows[i], "type", "text") {
            if let Some(s) = text_from(rows[i].get("text")) {
                proof {
                    text::lemma_texts_push(out@, s);
                }
                out.push(s);
            }
        }
        i = i + 1;
    }
    assert(all.take(i as int) =~= all);
    out
}

/// The labels of the first state, from the `i`-th on, whose label list shows a star.
pub open spec fn star_labels(states: Seq<JsonV>, i: int) -> Seq<Seq<char>>
    decreases states.len() - i,
{
    if i < 0 || i >= states.len() {
        Seq::empty()
    } else {
        match states[i].get("labelListV2"@) {
            Some(list) => if names_star(strings_in(list)) && list.field("items"@) is Array {
                labels_in(list.field("items"@).elements())
            } else {
                star_labels(states, i + 1)
            },
            None => star_labels(states, i + 1),
        }
    }
}

fn find_star_labels(states: &Vec<&Json>) -> (r: Vec<String>)
    ensures
        text::texts(r@) == star_labels(json::refs(states@), 0),
{
    let ghost all = json::refs(states@);
    let mut i: usize = 0;
    while i < states.len()
        invariant
            0 <= i <= states@.len(),
            all == json::refs(states@),
            star_labels(all, 0) == star_labels(all, i as int),
        decreases states@.len() - i,
    {
        assert(all[i as int] == states@[i as int]@);
        if let Some(list) = states[i].get("labelListV2") {
            let items: &Json = list.field("items");
            if has_star_icon(list) && items.as_array().is_some() {
                return labels(items);
            }
        }
        i = i + 1;
    }
    let none: Vec<String> = Vec::new();
    assert(text::texts(none@) =~= Seq::empty());
    none
}

/// The number of reviews that a label tells of.
pub open spec fn label_reviews(labels: Seq<Seq<char>>) -> Option<u64> {
    if labels.len() > 1 {
        match review_count_in(labels[1]) {
            Some(n) => Some(n),
            None => count_in(Some(JsonV::Text(labels[1]))),
        }
    } else {
        None
    }
}

pub open spec fn verified_brand_pattern() -> Seq<char> {
    r"(?iu)^бренд проверен$"@
}

/// The place, from the `i`-th on, of the first label that says that a brand is verified.
pub open spec fn verified_place(labels: Seq<Seq<char>>, i: int) -> Option<int>
    decreases labels.len() - i,
{
    if i < 0 || i >= labels.len() {
        None
    } else if pattern::pattern_occurs(verified_brand_pattern(), labels[i]) {
        Some(i)
    } else {
        verified_place(labels, i + 1)
    }
}

/// The brand that a label list names, before it says that the brand is verified.
pub open spec fn brand_in(list: JsonV) -> Option<Seq<char>> {
    if list.field("testInfo"@).field("automatizationId"@) != JsonV::Text("tile-list-labels"@) {
        None
    } else {
        let labels = labels_in(list.field("items"@).elements());
        match verified_place(labels, 0) {
            Some(i) => if i > 0 {
                Some(labels[i - 1])
            } else {
                None
            },
            None => None,
        }
    }
}

fn brand(list: &Json) -> (r: Option<String>)
    ensures
        text::text_of(r) == brand_in(list@),
{
    if !is_said(list.field("testInfo"), "automatizationId", "tile-list-labels") {
        return None;
    }
    let labels: Vec<String> = labels(list.field("items"));
    let ghost all = text::texts(labels@);
    let mut i: usize = 0;
    while i < labels.len()
        invariant
            0 <= i <= labels@.len(),
            all == text::texts(labels@),
            all == labels_in(list@.field("items"@).elements()),
            says(list@.field("testInfo"@), "automatizationId"@, "tile-list-labels"@),
            verified_place(all, 0) == verified_place(all, i as int),
        decreases labels@.len() - i,
    {
        assert(all[i as int] == labels@[i as int]@);
        if pattern::is_match(r"(?iu)^бренд проверен$", labels[i].as_str()) {
            if i > 0 {
                assert(all[i - 1] == labels@[i - 1]@);
                return Some(labels[i - 1].clone());
            }
            return None;
        }
        i = i + 1;
    }
    None
}

/// The brand that the first label list, from the `i`-th state on, names.
pub open spec fn brand_of(states: Seq<JsonV>, i: int) -> Option<Seq<char>>
    decreases states.len() - i,
{
    if i < 0 || i >= states.len() {
        None
    } else {
        match brand_in(states[i].field("labelListV2"@)) {
            Some(b) => Some(b),
            None => brand_of(states, i + 1),
        }
    }
}

fn find_brand(states: &Vec<&Json>) -> (r: Option<String>)
    ensures
        text::text_of(r) == brand_of(json::refs(states@), 0),
{
    let ghost all = json::refs(states@);
    let mut i: usize = 0;
    while i < states.len()
        invariant
            0 <= i <= states@.len(),
            all == json::refs(states@),
            brand_of(all, 0) == brand_of(all, i as int),
        decreases states@.len() - i,
    {
        assert(all[i as int] == states@[i as int]@);
        if let Some(b) = brand(states[i].field("labelListV2")) {
            return Some(b);
        }
        i = i + 1;
    }
    None
}

/// The first image, from the `i`-th entry on.
pub open spec fn first_image(v: Seq<JsonV>, i: int) -> Option<Seq<char>>
    decreases v.len() - i,
{
    if i < 0 || i >= v.len() {
        None
    } else {
        match image_in(v[i].get("image"@)) {
            Some(s) => Some(s),
            None => first_image(v, i + 1),
        }
    }
}

/// The image of a tile: the first of its items, or its cover.
pub open spec fn tile_image_in(item: JsonV) -> Option<Seq<char>> {
    let tile = item.field("tileImage"@);
    match first_image(tile.field("items"@).elements(), 0) {
        Some(s) => Some(s),
        None => image_in(tile.get("coverImage"@)),
    }
}

fn tile_image(item: &Json) -> (r: Option<String>)
    ensures
        text::text_of(r) == tile_image_in(item@),
{
    let tile: &Json = item.field("tileImage");
    let entries: Vec<&Json> = json::elements(tile.field("items"));
    let ghost all = json::refs(entries@);
    let mut i: usize = 0;
    while i < entries.len()
        invariant
            0 <= i <= entries@.len(),
            all == json::refs(entries@),
            tile_image_in(item@) == (match first_image(all, 0) {
                Some(s) => Some(s),
                None => image_in(tile@.get("coverImage"@)),
            }),
            first_image(all, 0) == first_image(all, i as int),
        decreases entries@.len() - i,
    {
        assert(all[i as int] == entries@[i as int]@);
        if let Some(s) = image_url(entries[i].get("image")) {
            return Some(s);
        }
        i = i + 1;
    }
    image_url(tile.get("coverImage"))
}

/// The article number of a tile: its own, or that of its link.
pub open spec fn item_sku(item: JsonV, url: Option<Seq<char>>) -> Option<Seq<char>> {
    match sku_in(item.get("sku"@)) {
        Some(s) => Some(s),
        None => match sku_in(item.get("id"@)) {
            Some(s) => Some(s),
            None => match url {
                Some(u) => sku_in_link(u),
                None => None,
            },
        },
    }
}

/// The product that a tile shows; none where it has no article number.
pub open spec fn search_item(item: JsonV) -> Option<SearchItemV> {
    if item !is Object {
        None
    } else {
        let states = objects_of(item.field("mainState"@).elements());
        let block = price_block_in(states, 0);
        let labels = star_labels(states, 0);
        let url = url_in(item.field("action"@).get("link"@));
        match item_sku(item, url) {
            None => None,
            Some(sku) => Some(
                SearchItemV {
                    sku,
                    name: text_in(
                        member_in(first_saying(states, "id"@, "name"@, 0), "textDS"@),
                    ),
                    price: styled_price(block, "PRICE"@),
                    currency: "RUB"@,
                    price_type: price_type_in(block),
                    price_label: if price_type_in(block) == PriceType::OzonCard {
                        Some("Цена с Ozon Картой"@)
                    } else {
                        None
                    },
                    delivery_label: delivery_label_in(item),
                    seller: None,
                    old_price: former_price(block),
                    discount: discount_in(member_in(block, "discount"@)),
                    rating: if labels.len() > 0 {
                        rating_of(JsonV::Text(labels[0]))
                    } else {
                        None
                    },
                    reviews: label_reviews(labels),
                    brand: brand_of(states, 0),
                    url,
                    image: tile_image_in(item),
                    matches_price_range: None,
                },
            ),
        }
    }
}

pub open spec fn search_item_of(o: Option<SearchItem>) -> Option<SearchItemV> {
    match o {
        Some(v) => Some(v@),
        None => None,
    }
}

fn style_price(block: Option<&Json>, style: &str) -> (r: Option<Real>)
    ensures
        double::real_of(r) == styled_price(json::view_of(block), style@),
{
    let prices: Vec<&Json> = match block {
        Some(b) => objects(b.field("price")),
        None => Vec::new(),
    };
    assert(json::refs(prices@) =~= prices_in(json::view_of(block)));
    price_to_number(member(find_saying(&prices, "textStyle", style), "text"))
}

fn find_former_price(block: Option<&Json>, now: &Option<Real>) -> (r: Option<Real>)
    requires
        double::real_of(*now) == styled_price(json::view_of(block), "PRICE"@),
    ensures
        double::real_of(r) == former_price(json::view_of(block)),
{
    match (style_price(block, "ORIGINAL_PRICE"), now) {
        (Some(old), Some(now)) => if double::order_of(old.bits) > double::order_of(now.bits) {
            Some(old)
        } else {
            None
        },
        _ => None,
    }
}

/// The product that a tile shows; none where it has no article number.
pub fn parse_search_item(item: &Json) -> (r: Option<SearchItem>)
    ensures
        search_item_of(r) == search_item(item@),
{
    if !item.is_object() {
        return None;
    }
    let states: Vec<&Json> = objects(item.field("mainState"));
    let block: Option<&Json> = price_block(&states);
    let price: Option<Real> = style_price(block, "PRICE");
    let old_price: Option<Real> = find_former_price(block, &price);
    let name: Option<String> = text_from(member(find_saying(&states, "id", "name"), "textDS"));
    let on_card: bool = match block {
        Some(b) => is_said(b.field("priceStyle"), "styleType", "CARD_PRICE"),
        None => false,
    };
    let price_type: PriceType = if on_card {
        PriceType::OzonCard
    } else {
        PriceType::Unknown
    };
    let price_label: Option<String> = if on_card {
        Some("Цена с Ozon Картой".to_owned())
    } else {
        None
    };
    let delivery_label: Option<String> = match words(
        item.field("multiButton").field("ozonButton").field("addToCart").field(
            "actionButton",
        ).field("title"),
    ) {
        Some(s) => if s.as_str().unicode_len() <= 120 {
            Some(s)
        } else {
            None
        },
        None => None,
    };
    let labels: Vec<String> = find_star_labels(&states);
    let ghost shown = text::texts(labels@);
    let rating: Option<Real> = if labels.len() > 0 {
        assert(shown[0] == labels@[0]@);
        rating_of_value(&Json::text(labels[0].as_str()))
    } else {
        None
    };
    let reviews: Option<u64> = if labels.len() > 1 {
        assert(shown[1] == labels@[1]@);
        match review_count(labels[1].as_str()) {
            Some(n) => Some(n),
            None => {
                let value: Json = Json::text(labels[1].as_str());
                count_from_value(Some(&value))
            },
        }
    } else {
        None
    };
    let brand: Option<String> = find_brand(&states);
    let url: Option<String> = clean_url(item.field("action").get("link"));
    let sku: Option<String> = match normalize_sku(item.get("sku")) {
        Some(s) => Some(s),
        None => match normalize_sku(item.get("id")) {
            Some(s) => Some(s),
            None => match &url {
                Some(u) => sku_from_url(u.as_str()),
                None => None,
            },
        },
    };
    let sku: String = match sku {
        Some(s) => s,
        None => return None,
    };
    Some(
        SearchItem {
            sku,
            name,
            price,
            currency: "RUB".to_owned(),
            price_type,
            price_label,
            delivery_label,
            seller: None,
            old_price,
            discount: discount(member(block, "discount")),
            rating,
            reviews,
            brand,
            url,
            image: tile_image(item),
            matches_price_range: None,
        },
    )
}

/// The products that a row of tiles shows.
pub open spec fn search_items_in(v: Seq<JsonV>) -> Seq<SearchItemV>
    decreases v.len(),
{
    if v.len() == 0 {
        Seq::empty()
    } else {
        match search_item(v.last()) {
            Some(item) => search_items_in(v.drop_last()).push(item),
            None => search_items_in(v.drop_last()),
        }
    }
}

/// The products that the grids of a search page show, in order.
pub open spec fn search_items(page: JsonV) -> Seq<SearchItemV> {
    search_items_in(json::flat(widgets::states_of(page, "tileGridDesktop"@), "items"@))
}

/// What a row of products holds.
pub open spec fn items_view(v: Seq<SearchItem>) -> Seq<SearchItemV> {
    Seq::new(v.len(), |i: int| v[i]@)
}

/// The products that the grids of a search page show, in order.
pub fn parse_search_items(page: &Json) -> (r: Vec<SearchItem>)
    ensures
        items_view(r@) == search_items(page@),
{
    let grids: Vec<Json> = widgets::all_valid(page, "tileGridDesktop");
    let mut refs: Vec<&Json> = Vec::new();
    let mut k: usize = 0;
    while k < grids.len()
        invariant
            0 <= k <= grids@.len(),
            json::refs(refs@) =~= json::values(grids@).take(k as int),
        decreases grids@.len() - k,
    {
        let ghost before = refs@;
        refs.push(&grids[k]);
        assert(json::refs(refs@) =~= json::refs(before).push(grids@[k as int]@));
        k = k + 1;
    }
    assert(json::refs(refs@) =~= json::values(grids@));
    let tiles: Vec<&Json> = json::flatten(&refs, "items");
    let ghost all = json::refs(tiles@);
    let mut out: Vec<SearchItem> = Vec::new();
    let mut i: usize = 0;
    assert(all.take(0) =~= Seq::empty());
    assert(items_view(out@) =~= Seq::empty());
    while i < tiles.len()
        invariant
            0 <= i <= tiles@.len(),
            all == json::refs(tiles@),
            items_view(out@) == search_items_in(all.take(i as int)),
        decreases tiles@.len() - i,
    {
        assert(all.take(i + 1).drop_last() =~= all.take(i as int));
        assert(all.take(i + 1).last() == tiles@[i as int]@);
        if let Some(item) = parse_search_item(tiles[i]) {
            let ghost before = out@;
            out.push(item);
            assert(items_view(out@) =~= items_view(before).push(item@));
        }
        i = i + 1;
    }
    assert(all.take(i as int) =~= all);
    out
}

/// The words of the values of a row.
pub open spec fn row_texts(v: Seq<JsonV>) -> Seq<Seq<char>>
    decreases v.len(),
{
    if v.len() == 0 {
        Seq::empty()
    } else {
        match text_in(Some(v.last())) {
            Some(s) => row_texts(v.drop_last()).push(s),
            None => row_texts(v.drop_last()),
        }
    }
}

/// The words of a value, or of all values of an array.
pub open spec fn rich_text(v: Option<JsonV>) -> Seq<char> {
    match v {
        None => Seq::empty(),
        Some(JsonV::Array(rows)) => text::join(row_texts(rows), " "@),
        Some(v) => text::join(row_texts(seq![v]), " "@),
    }
}

fn rs_text(value: Option<&Json>) -> (r: String)
    ensures
        r@ == rich_text(json::view_of(value)),
{
    let value: &Json = match value {
        Some(v) => v,
        None => {
            let none: String = String::new();
            return none;
        },
    };
    let rows: Vec<&Json> = match value.as_array() {
        Some(_) => json::elements(value),
        None => {
            let mut one: Vec<&Json> = Vec::new();
            one.push(value);
            one
        },
    };
    let ghost all = json::refs(rows@);
    assert(all =~= (match value@ {
        JsonV::Array(v) => v,
        v => seq![v],
    }));
    let mut out: Vec<String> = Vec::new();
    let mut i: usize = 0;
    assert(all.take(0) =~= Seq::empty());
    assert(text::texts(out@) =~= Seq::empty());
    while i < rows.len()
        invariant
            0 <= i <= rows@.len(),
            all == json::refs(rows@),
            text::texts(out@) == row_texts(all.take(i as int)),
        decreases rows@.len() - i,
    {
        assert(all.take(i + 1).drop_last() =~= all.take(i as int));
        assert(all.take(i + 1).last() == rows@[i as int]@);
        if let Some(s) = text_from(Some(rows[i])) {
            proof {
                text::lemma_texts_push(out@, s);
            }
            out.push(s);
        }
        i = i + 1;
    }
    assert(all.take(i as int) =~= all);
    text::join_texts(&out, " ")
}

/// The first of three texts that is not empty.
pub open spec fn first_rich_text(
    a: Option<JsonV>,
    b: Option<JsonV>,
    c: Option<JsonV>,
) -> Option<Seq<char>> {
    if rich_text(a).len() > 0 {
        Some(rich_text(a))
    } else if rich_text(b).len() > 0 {
        Some(rich_text(b))
    } else if rich_text(c).len() > 0 {
        Some(rich_text(c))
    } else {
        None
    }
}

fn first_rs_text(a: Option<&Json>, b: Option<&Json>, c: Option<&Json>) -> (r: Option<String>)
    ensures
        text::text_of(r) == first_rich_text(json::view_of(a), json::view_of(b), json::view_of(c)),
{
    let s: String = rs_text(a);
    if !s.as_str().is_empty() {
        return Some(s);
    }
    let s: String = rs_text(b);
    if !s.as_str().is_empty() {
        return Some(s);
    }
    let s: String = rs_text(c);
    if !s.as_str().is_empty() {
        return Some(s);
    }
    None
}

/// Characteristics with one more, where the row shows a title and a value.
pub open spec fn with_characteristic(out: JsonV, row: JsonV) -> JsonV {
    let title = row.get("title"@);
    match (
        first_rich_text(member_in(title, "textRs"@), member_in(title, "text"@), title),
        first_rich_text(row.get("values"@), row.get("contentRS"@), row.get("valueRs"@)),
    ) {
        (Some(t), Some(v)) => out.with(t, JsonV::Text(v)),
        _ => out,
    }
}

/// The characteristics that rows show.
pub open spec fn characteristics_in(v: Seq<JsonV>) -> JsonV
    decreases v.len(),
{
    if v.len() == 0 {
        JsonV::object()
    } else {
        with_characteristic(characteristics_in(v.drop_last()), v.last())
    }
}

/// The short characteristics of a product page.
pub open spec fn short_characteristics(page: JsonV) -> JsonV {
    match widgets::first_with_array(
        widgets::states_of(page, "webShortCharacteristics"@),
        seq!["characteristics"@],
        0,
    ) {
        Some(state) => characteristics_in(objects_of(state.field("characteristics"@).elements())),
        None => JsonV::object(),
    }
}

fn parse_short_characteristics(page: &Json) -> (r: Json)
    ensures
        r@ == short_characteristics(page@),
{
    let keys: [&str; 1] = ["characteristics"];
    assert(widgets::slices(keys@) =~= seq!["characteristics"@]);
    let state: Json = match widgets::first_having_array(page, "webShortCharacteristics", &keys) {
        Some(s) => s,
        None => return Json::object(),
    };
    let rows: Vec<&Json> = objects(state.field("characteristics"));
    let ghost all = json::refs(rows@);
    let mut out: Json = Json::object();
    let mut i: usize = 0;
    assert(all.take(0) =~= Seq::empty());
    while i < rows.len()
        invariant
            0 <= i <= rows@.len(),
            all == json::refs(rows@),
            out@ == characteristics_in(all.take(i as int)),
        decreases rows@.len() - i,
    {
        assert(all.take(i + 1).drop_last() =~= all.take(i as int));
        assert(all.take(i + 1).last() == rows@[i as int]@);
        let title: Option<&Json> = rows[i].get("title");
        let name: Option<String> = first_rs_text(
            member(title, "textRs"),
            member(title, "text"),
            title,
        );
        let value: Option<String> = first_rs_text(
            rows[i].get("values"),
            rows[i].get("contentRS"),
            rows[i].get("valueRs"),
        );
        if let (Some(t), Some(v)) = (name, value) {
            out = out.with(t.as_str(), Json::Text(v));
        }
        i = i + 1;
    }
    assert(all.take(i as int) =~= all);
    out
}

/// A state that may tell of the score of a product.
pub open spec fn is_score_shape(v: JsonV) -> bool {
    ||| v.get("rating"@) is Some
    ||| v.get("ratingValue"@) is Some
    ||| v.get("text"@) is Some
    ||| v.get("reviews"@) is Some
    ||| v.get("reviewCount"@) is Some
    ||| v.get("reviewsCount"@) is Some
    ||| v.get("totalReviews"@) is Some
    ||| v.field("title"@).get("text"@) is Some
}

/// The first state, from the `i`-th on, that may tell of the score of a product.
pub open spec fn first_score(v: Seq<JsonV>, i: int) -> Option<JsonV>
    decreases v.len() - i,
{
    if i < 0 || i >= v.len() {
        None
    } else if is_score_shape(v[i]) {
        Some(v[i])
    } else {
        first_score(v, i + 1)
    }
}

fn find_score(page: &Json, name: &str) -> (r: Option<Json>)
    ensures
        json::read_of(r) == first_score(widgets::states_of(page@, name@), 0),
{
    let states: Vec<Json> = widgets::all_valid(page, name);
    let ghost all = json::values(states@);
    let mut i: usize = 0;
    while i < states.len()
        invariant
            0 <= i <= states@.len(),
            all == json::values(states@),
            all == widgets::states_of(page@, name@),
            first_score(all, 0) == first_score(all, i as int),
        decreases states@.len() - i,
    {
        assert(all[i as int] == states@[i as int]@);
        let v: &Json = &states[i];
        if v.get("rating").is_some() || v.get("ratingValue").is_some() || v.get("text").is_some()
            || v.get("reviews").is_some() || v.get("reviewCount").is_some() || v.get(
            "reviewsCount",
        ).is_some() || v.get("totalReviews").is_some() || v.field("title").get("text").is_some() {
            return Some(v.copy());
        }
        i = i + 1;
    }
    None
}

/// The state that tells of the score of a product.
pub open spec fn score_state(page: JsonV) -> Option<JsonV> {
    match first_score(widgets::states_of(page, "webSingleProductScore"@), 0) {
        Some(s) => Some(s),
        None => first_score(widgets::states_of(page, "webReviewProductScore"@), 0),
    }
}

/// The first of four ratings.
pub open spec fn score_rating(state: JsonV) -> Option<(u64, Seq<char>)> {
    match rating_in(state.get("rating"@)) {
        Some(x) => Some(x),
        None => match rating_in(state.get("ratingValue"@)) {
            Some(x) => Some(x),
            None => match rating_in(state.get("text"@)) {
                Some(x) => Some(x),
                None => rating_in(state.field("title"@).get("text"@)),
            },
        },
    }
}

/// The count that a value shows, or the number of reviews that it tells of.
pub open spec fn any_count(v: Option<JsonV>) -> Option<u64> {
    match count_in(v) {
        Some(n) => Some(n),
        None => review_count_of(v),
    }
}

/// The first text, from the `i`-th on, that tells of a number of reviews.
pub open spec fn first_review_count(v: Seq<Seq<char>>, i: int) -> Option<u64>
    decreases v.len() - i,
{
    if i < 0 || i >= v.len() {
        None
    } else {
        match review_count_in(v[i]) {
            Some(n) => Some(n),
            None => first_review_count(v, i + 1),
        }
    }
}

/// The number of reviews that a score tells of.
pub open spec fn score_reviews(state: JsonV) -> Option<u64> {
    match any_count(state.get("reviews"@)) {
        Some(n) => Some(n),
        None => match any_count(state.get("reviewCount"@)) {
            Some(n) => Some(n),
            None => match any_count(state.get("reviewsCount"@)) {
                Some(n) => Some(n),
                None => match any_count(state.get("totalReviews"@)) {
                    Some(n) => Some(n),
                    None => first_review_count(strings_in(state), 0),
                },
            },
        },
    }
}

/// The rating and the number of reviews of a product.
pub open spec fn product_score(page: JsonV) -> (Option<(u64, Seq<char>)>, Option<u64>) {
    match score_state(page) {
        Some(state) => (score_rating(state), score_reviews(state)),
        None => (None, None),
    }
}

fn count_or_reviews(v: Option<&Json>) -> (r: Option<u64>)
    ensures
        r == any_count(json::view_of(v)),
{
    match count_from_value(v) {
        Some(n) => Some(n),
        None => parse_review_count(v),
    }
}

fn reviews_of_score(state: &Json) -> (r: Option<u64>)
    ensures
        r == score_reviews(state@),
{
    if let Some(n) = count_or_reviews(state.get("reviews")) {
        return Some(n);
    }
    if let Some(n) = count_or_reviews(state.get("reviewCount")) {
        return Some(n);
    }
    if let Some(n) = count_or_reviews(state.get("reviewsCount")) {
        return Some(n);
    }
    if let Some(n) = count_or_reviews(state.get("totalReviews")) {
        return Some(n);
    }
    let mut strings: Vec<String> = Vec::new();
    collect_strings(state, &mut strings);
    let ghost all = text::texts(strings@);
    assert(all =~= strings_in(state@));
    let mut i: usize = 0;
    while i < strings.len()
        invariant
            0 <= i <= strings@.len(),
            all == text::texts(strings@),
            score_reviews(state@) == first_review_count(all, 0),
            first_review_count(all, 0) == first_review_count(all, i as int),
        decreases strings@.len() - i,
    {
        assert(all[i as int] == strings@[i as int]@);
        if let Some(n) = review_count(strings[i].as_str()) {
            return Some(n);
        }
        i = i + 1;
    }
    None
}

fn rating_of_score(state: &Json) -> (r: Option<Real>)
    ensures
        double::real_of(r) == score_rating(state@),
{
    if let Some(x) = rating_from_value(state.get("rating")) {
        return Some(x);
    }
    if let Some(x) = rating_from_value(state.get("ratingValue")) {
        return Some(x);
    }
    if let Some(x) = rating_from_value(state.get("text")) {
        return Some(x);
    }
    rating_from_value(state.field("title").get("text"))
}

fn parse_product_score(page: &Json) -> (r: (Option<Real>, Option<u64>))
    ensures
        (double::real_of(r.0), r.1) == product_score(page@),
{
    let state: Option<Json> = match find_score(page, "webSingleProductScore") {
        Some(s) => Some(s),
        None => find_score(page, "webReviewProductScore"),
    };
    match state {
        Some(s) => (rating_of_score(&s), reviews_of_score(&s)),
        None => (None, None),
    }
}

/// The first state, from the `i`-th on, that names a seller.
pub open spec fn first_seller(v: Seq<JsonV>, i: int) -> Option<JsonV>
    decreases v.len() - i,
{
    if i < 0 || i >= v.len() {
        None
    } else if v[i].field("sellerCell"@).field("centerBlock"@).get("title"@) is Some || v[i].get(
        "title"@,
    ) is Some {
        Some(v[i])
    } else {
        first_seller(v, i + 1)
    }
}

/// The seller that a state tells of.
pub open spec fn seller_in(state: JsonV) -> Option<SellerV> {
    let name = match text_in(state.field("sellerCell"@).field("centerBlock"@).get("title"@)) {
        Some(s) => Some(s),
        None => text_in(state.get("title"@)),
    };
    match name {
        None => None,
        Some(name) => Some(
            SellerV {
                name,
                rating: match rating_in(state.field("rating"@).field("title"@).get("text"@)) {
                    Some(x) => Some(x),
                    None => match rating_in(state.field("rating"@).get("title"@)) {
                        Some(x) => Some(x),
                        None => rating_in(state.get("rating"@)),
                    },
                },
                url: url_in(
                    state.field("sellerCell"@).field("common"@).field("action"@).get("link"@),
                ),
            },
        ),
    }
}

/// The seller of a product page.
pub open spec fn seller_of(page: JsonV) -> Option<SellerV> {
    match first_seller(widgets::states_of(page, "webCurrentSeller"@), 0) {
        Some(state) => seller_in(state),
        None => None,
    }
}

fn seller(state: &Json) -> (r: Option<Seller>)
    ensures
        model::seller_view(r) == seller_in(state@),
{
    let name: Option<String> = match text_from(
        state.field("sellerCell").field("centerBlock").get("title"),
    ) {
        Some(s) => Some(s),
        None => text_from(state.get("title")),
    };
    let name: String = match name {
        Some(s) => s,
        None => return None,
    };
    let rating: Option<Real> = match rating_from_value(
        state.field("rating").field("title").get("text"),
    ) {
        Some(x) => Some(x),
        None => match rating_from_value(state.field("rating").get("title")) {
            Some(x) => Some(x),
            None => rating_from_value(state.get("rating")),
        },
    };
    let url: Option<String> = clean_url(
        state.field("sellerCell").field("common").field("action").get("link"),
    );
    Some(Seller { name, rating, url })
}

fn parse_seller(page: &Json) -> (r: Option<Seller>)
    ensures
        model::seller_view(r) == seller_of(page@),
{
    let states: Vec<Json> = widgets::all_valid(page, "webCurrentSeller");
    let ghost all = json::values(states@);
    let mut i: usize = 0;
    while i < states.len()
        invariant
            0 <= i <= states@.len(),
            all == json::values(states@),
            all == widgets::states_of(page@, "webCurrentSeller"@),
            first_seller(all, 0) == first_seller(all, i as int),
        decreases states@.len() - i,
    {
        assert(all[i as int] == states@[i as int]@);
        let v: &Json = &states[i];
        if v.field("sellerCell").field("centerBlock").get("title").is_some() || v.get(
            "title",
        ).is_some() {
            return seller(v);
        }
        i = i + 1;
    }
    None
}

pub open spec fn entity_pattern() -> Seq<char> {
    r"(?iu)&(#x[0-9a-f]+|#\d+|nbsp|amp|lt|gt|quot|apos);"@
}

/// The number that a numeric character reference spells.
pub open spec fn entity_number(code: Seq<char>) -> Option<nat> {
    if text::starts(text::lowercase(code), "#x"@) {
        text::parsed_radix(code.skip(2), 16)
    } else {
        text::parsed_radix(code.skip(1), 10)
    }
}

pub open spec fn is_scalar(n: nat) -> bool {
    n < 0xd800 || 0xe000 <= n <= 0x10ffff
}

/// The text that a character reference stands for; itself where it stands for nothing.
pub open spec fn entity_text(whole: Seq<char>, code: Seq<char>) -> Seq<char> {
    let name = text::lowercase(code);
    if name == "nbsp"@ {
        " "@
    } else if name == "amp"@ {
        "&"@
    } else if name == "lt"@ {
        "<"@
    } else if name == "gt"@ {
        ">"@
    } else if name == "quot"@ {
        "\""@
    } else if name == "apos"@ {
        "'"@
    } else {
        match entity_number(code) {
            Some(n) => if is_scalar(n) {
                seq![n as char]
            } else {
                whole
            },
            None => whole,
        }
    }
}

fn entity(whole: &str, code: &str) -> (r: String)
    requires
        code@.len() >= 2,
    ensures
        r@ == entity_text(whole@, code@),
{
    let name: String = text::to_ascii_lowercase(code);
    let name: &str = name.as_str();
    if text::same(name, "nbsp") {
        return " ".to_owned();
    }
    if text::same(name, "amp") {
        return "&".to_owned();
    }
    if text::same(name, "lt") {
        return "<".to_owned();
    }
    if text::same(name, "gt") {
        return ">".to_owned();
    }
    if text::same(name, "quot") {
        return "\"".to_owned();
    }
    if text::same(name, "apos") {
        return "'".to_owned();
    }
    let v: Vec<char> = text::chars_of(code);
    let number: Option<u32> = if text::starts_with(name, "#x") {
        let digits: String = text::substring(&v, 2, v.len());
        assert(digits@ =~= code@.skip(2));
        text::parse_radix(digits.as_str(), 16)
    } else {
        let digits: String = text::substring(&v, 1, v.len());
        assert(digits@ =~= code@.skip(1));
        text::parse_radix(digits.as_str(), 10)
    };
    if let Some(n) = number {
        if let Some(c) = text::char_of(n) {
            let mut one: Vec<char> = Vec::new();
            one.push(c);
            assert(one@ =~= seq![n as char]);
            return text::string_of(one.as_slice());
        }
    }
    whole.to_owned()
}

/// The text that the match of a character reference stands for.
pub open spec fn match_text(m: Seq<Option<Seq<char>>>) -> Seq<char> {
    match (pattern::group(m, 0), pattern::group(m, 1)) {
        (Some(whole), Some(code)) => if code.len() >= 2 {
            entity_text(whole, code)
        } else {
            whole
        },
        _ => Seq::empty(),
    }
}

/// Pieces of text with what stands for the matches between them.
pub open spec fn woven(pieces: Seq<Seq<char>>, matches: Seq<Seq<Option<Seq<char>>>>) -> Seq<char>
    decreases pieces.len(),
{
    if pieces.len() == 0 {
        Seq::empty()
    } else if pieces.len() == 1 {
        pieces[0]
    } else {
        woven(pieces.drop_last(), matches) + (if pieces.len() - 2 < matches.len() {
            match_text(matches[pieces.len() - 2])
        } else {
            Seq::empty()
        }) + pieces.last()
    }
}

/// Text with its character references resolved.
pub open spec fn entities_decoded(s: Seq<char>) -> Seq<char> {
    woven(
        pattern::between_matches(entity_pattern(), s),
        pattern::all_matches(entity_pattern(), s),
    )
}

fn match_string(m: &Vec<Option<String>>) -> (r: String)
    ensures
        r@ == match_text(pattern::groups(m@)),
{
    match (pattern::group_text(m, 0), pattern::group_text(m, 1)) {
        (Some(whole), Some(code)) => if code.as_str().unicode_len() >= 2 {
            entity(whole.as_str(), code.as_str())
        } else {
            whole
        },
        _ => String::new(),
    }
}

fn decode_html_entities(value: &str) -> (r: String)
    ensures
        r@ == entities_decoded(value@),
{
    let pieces: Vec<String> = pattern::split(
        r"(?iu)&(#x[0-9a-f]+|#\d+|nbsp|amp|lt|gt|quot|apos);",
        value,
    );
    let rows: Vec<Vec<Option<String>>> = pattern::captures_all(
        r"(?iu)&(#x[0-9a-f]+|#\d+|nbsp|amp|lt|gt|quot|apos);",
        value,
    );
    let ghost between = text::texts(pieces@);
    let ghost found = pattern::rows_of(rows@);
    let mut out: String = String::new();
    let mut i: usize = 0;
    assert(between.take(0) =~= Seq::empty());
    while i < pieces.len()
        invariant
            0 <= i <= pieces@.len(),
            between == text::texts(pieces@),
            found == pattern::rows_of(rows@),
            out@ == woven(between.take(i as int), found),
        decreases pieces@.len() - i,
    {
        assert(between.take(i + 1).drop_last() =~= between.take(i as int));
        assert(between.take(i + 1).last() == pieces@[i as int]@);
        assert(found.len() == rows@.len());
        if i > 0 && i - 1 < rows.len() {
            assert(found[i - 1] == pattern::groups(rows@[i - 1]@));
            let shown: String = match_string(&rows[i - 1]);
            out.append(shown.as_str());
        } else {
            assert(i > 0 ==> out@ + Seq::<char>::empty() =~= out@);
        }
        out.append(pieces[i].as_str());
        assert(i == 0 ==> Seq::<char>::empty() + pieces@[0]@ =~= pieces@[0]@);
        i = i + 1;
    }
    assert(between.take(i as int) =~= between);
    out
}

/// Text with a space in the place of each match.
pub open spec fn blanked(pattern: Seq<char>, s: Seq<char>) -> Seq<char> {
    text::join(pattern::between_matches(pattern, s), " "@)
}

fn blank(pattern: &str, s: &str) -> (r: String)
    ensures
        r@ == blanked(pattern@, s@),
{
    text::join_texts(&pattern::split(pattern, s), " ")
}

/// The words of an HTML text, without scripts, styles, comments and tags.
pub open spec fn html_words(html: Seq<char>) -> Seq<char> {
    let s = blanked(r"(?is)<script\b[^>]*>.*?</script\s*>"@, html);
    let s = blanked(r"(?is)<style\b[^>]*>.*?</style\s*>"@, s);
    let s = blanked(r"(?s)<!--.*?-->"@, s);
    let s = blanked(r"(?iu)</?[a-z][^>]*>"@, s);
    text::squeezed(entities_decoded(s))
}

fn description_text(html: &str) -> (r: String)
    ensures
        r@ == html_words(html@),
{
    let s: String = blank(r"(?is)<script\b[^>]*>.*?</script\s*>", html);
    let s: String = blank(r"(?is)<style\b[^>]*>.*?</style\s*>", s.as_str());
    let s: String = blank(r"(?s)<!--.*?-->", s.as_str());
    let s: String = blank(r"(?iu)</?[a-z][^>]*>", s.as_str());
    text::squeeze(decode_html_entities(s.as_str()).as_str())
}

pub open spec fn img_pattern() -> Seq<char> {
    r#"(?iu)<img\b[^>]*\ssrc\s*=\s*(?:\"([^\"]*)\"|'([^']*)'|([^\s\"'=<>`]+))"#@
}

/// The address that the match of an image tag holds.
pub open spec fn img_source(m: Seq<Option<Seq<char>>>) -> Option<Seq<char>> {
    let source = match pattern::group(m, 1) {
        Some(s) => Some(s),
        None => match pattern::group(m, 2) {
            Some(s) => Some(s),
            None => pattern::group(m, 3),
        },
    };
    match source {
        Some(s) => image_of(JsonV::Text(s)),
        None => None,
    }
}

/// The addresses that the matches of image tags hold.
pub open spec fn img_sources(v: Seq<Seq<Option<Seq<char>>>>) -> Seq<Seq<char>>
    decreases v.len(),
{
    if v.len() == 0 {
        Seq::empty()
    } else {
        match img_source(v.last()) {
            Some(s) => img_sources(v.drop_last()).push(s),
            None => img_sources(v.drop_last()),
        }
    }
}

/// The images of an HTML text.
pub open spec fn html_images(html: Seq<char>) -> Seq<Seq<char>> {
    img_sources(pattern::all_matches(img_pattern(), html))
}

fn img_address(m: &Vec<Option<String>>) -> (r: Option<String>)
    ensures
        text::text_of(r) == img_source(pattern::groups(m@)),
{
    let source: Option<String> = match pattern::group_text(m, 1) {
        Some(s) => Some(s),
        None => match pattern::group_text(m, 2) {
            Some(s) => Some(s),
            None => pattern::group_text(m, 3),
        },
    };
    match source {
        Some(s) => image_of_value(&Json::Text(s)),
        None => None,
    }
}

fn description_images(html: &str) -> (r: Vec<String>)
    ensures
        text::texts(r@) == html_images(html@),
{
    let rows: Vec<Vec<Option<String>>> = pattern::captures_all(
        r#"(?iu)<img\b[^>]*\ssrc\s*=\s*(?:\"([^\"]*)\"|'([^']*)'|([^\s\"'=<>`]+))"#,
        html,
    );
    let ghost all = pattern::rows_of(rows@);
    let mut out: Vec<String> = Vec::new();
    let mut i: usize = 0;
    assert(all.take(0) =~= Seq::empty());
    assert(text::texts(out@) =~= Seq::empty());
    while i < rows.len()
        invariant
            0 <= i <= rows@.len(),
            all == pattern::rows_of(rows@),
            text::texts(out@) == img_sources(all.take(i as int)),
        decreases rows@.len() - i,
    {
        assert(all.take(i + 1).drop_last() =~= all.take(i as int));
        assert(all.take(i + 1).last() == pattern::groups(rows@[i as int]@));
        if let Some(s) = img_address(&rows[i]) {
            proof {
                text::lemma_texts_push(out@, s);
            }
            out.push(s);
        }
        i = i + 1;
    }
    assert(all.take(i as int) =~= all);
    out
}

/// The text of a node of a rich description itself.
pub open spec fn node_texts(v: JsonV) -> Seq<Seq<char>> {
    if says(v, "type"@, "text"@) && words_of(v.field("content"@)) is Some {
        seq![words_of(v.field("content"@))->Some_0]
    } else {
        Seq::empty()
    }
}

/// The image of a node of a rich description itself.
pub open spec fn node_image(v: JsonV) -> Option<Seq<char>> {
    match image_in(v.field("img"@).get("src"@)) {
        Some(s) => Some(s),
        None => match image_in(v.field("image"@).get("src"@)) {
            Some(s) => Some(s),
            None => if says(v, "type"@, "image"@) {
                match image_in(v.get("src"@)) {
                    Some(s) => Some(s),
                    None => image_in(v.field("attrs"@).get("src"@)),
                }
            } else {
                None
            },
        },
    }
}

pub open spec fn node_images(v: JsonV) -> Seq<Seq<char>> {
    match node_image(v) {
        Some(s) => seq![s],
        None => Seq::empty(),
    }
}

/// The texts of a rich description, each node before its children.
pub open spec fn walked_texts(v: JsonV) -> Seq<Seq<char>>
    decreases v,
{
    match v {
        JsonV::Array(items) => walked_item_texts(items),
        JsonV::Object(m) => node_texts(v) + walked_member_texts(m),
        _ => Seq::empty(),
    }
}

pub open spec fn walked_item_texts(v: Seq<JsonV>) -> Seq<Seq<char>>
    decreases v,
{
    if v.len() == 0 {
        Seq::empty()
    } else {
        walked_item_texts(v.drop_last()) + walked_texts(v.last())
    }
}

pub open spec fn walked_member_texts(m: Seq<(Seq<char>, JsonV)>) -> Seq<Seq<char>>
    decreases m,
{
    if m.len() == 0 {
        Seq::empty()
    } else {
        walked_member_texts(m.drop_last()) + walked_texts(m.last().1)
    }
}

/// The images of a rich description, each node before its children.
pub open spec fn walked_images(v: JsonV) -> Seq<Seq<char>>
    decreases v,
{
    match v {
        JsonV::Array(items) => walked_item_images(items),
        JsonV::Object(m) => node_images(v) + walked_member_images(m),
        _ => Seq::empty(),
    }
}

pub open spec fn walked_item_images(v: Seq<JsonV>) -> Seq<Seq<char>>
    decreases v,
{
    if v.len() == 0 {
        Seq::empty()
    } else {
        walked_item_images(v.drop_last()) + walked_images(v.last())
    }
}

pub open spec fn walked_member_images(m: Seq<(Seq<char>, JsonV)>) -> Seq<Seq<char>>
    decreases m,
{
    if m.len() == 0 {
        Seq::empty()
    } else {
        walked_member_images(m.drop_last()) + walked_images(m.last().1)
    }
}

fn image_of_node(v: &Json) -> (r: Option<String>)
    ensures
        text::text_of(r) == node_image(v@),
{
    if let Some(s) = image_url(v.field("img").get("src")) {
        return Some(s);
    }
    if let Some(s) = image_url(v.field("image").get("src")) {
        return Some(s);
    }
    if is_said(v, "type", "image") {
        if let Some(s) = image_url(v.get("src")) {
            return Some(s);
        }
        return image_url(v.field("attrs").get("src"));
    }
    None
}

fn walk_description(value: &Json, texts: &mut Vec<String>, images: &mut Vec<String>)
    ensures
        text::texts(final(texts)@) == text::texts(old(texts)@) + walked_texts(value@),
        text::texts(final(images)@) == text::texts(old(images)@) + walked_images(value@),
    decreases value,
{
    let ghost start = text::texts(texts@);
    let ghost shown = text::texts(images@);
    match value {
        Json::Array(v) => {
            let ghost all = json::values(v@);
            assert(value@->Array_0 =~= all);
            let mut i: usize = 0;
            assert(all.take(0) =~= Seq::empty());
            assert(start + Seq::<Seq<char>>::empty() =~= start);
            assert(shown + Seq::<Seq<char>>::empty() =~= shown);
            while i < v.len()
                invariant
                    0 <= i <= v@.len(),
                    all == json::values(v@),
                    decreases_to!(value => v@),
                    text::texts(texts@) == start + walked_item_texts(all.take(i as int)),
                    text::texts(images@) == shown + walked_item_images(all.take(i as int)),
                decreases v@.len() - i,
            {
                assert(decreases_to!(v@ => v@[i as int]));
                assert(all.take(i + 1).drop_last() =~= all.take(i as int));
                assert(all.take(i + 1).last() == v@[i as int]@);
                walk_description(&v[i], texts, images);
                assert(start + (walked_item_texts(all.take(i as int)) + walked_texts(
                    v@[i as int]@,
                )) =~= (start + walked_item_texts(all.take(i as int))) + walked_texts(
                    v@[i as int]@,
                ));
                assert(shown + (walked_item_images(all.take(i as int)) + walked_images(
                    v@[i as int]@,
                )) =~= (shown + walked_item_images(all.take(i as int))) + walked_images(
                    v@[i as int]@,
                ));
                i = i + 1;
            }
            assert(all.take(i as int) =~= all);
        },
        Json::Object(m) => {
            let ghost own = node_texts(value@);
            let ghost own_images = node_images(value@);
            if is_said(value, "type", "text") {
                if let Some(s) = words(value.field("content")) {
                    proof {
                        text::lemma_texts_push(texts@, s);
                    }
                    texts.push(s);
                    assert(start.push(s@) =~= start + own);
                }
            }
            assert(text::texts(texts@) =~= start + own);
            if let Some(s) = image_of_node(value) {
                proof {
                    text::lemma_texts_push(images@, s);
                }
                images.push(s);
                assert(shown.push(s@) =~= shown + own_images);
            }
            assert(text::texts(images@) =~= shown + own_images);
            let ghost all = json::members(m@);
            assert(value@->Object_0 =~= all);
            let mut i: usize = 0;
            assert(all.take(0) =~= Seq::empty());
            assert(start + own + Seq::<Seq<char>>::empty() =~= start + own);
            assert(shown + own_images + Seq::<Seq<char>>::empty() =~= shown + own_images);
            while i < m.len()
                invariant
                    0 <= i <= m@.len(),
                    all == json::members(m@),
                    decreases_to!(value => m@),
                    text::texts(texts@) == start + own + walked_member_texts(all.take(i as int)),
                    text::texts(images@) == shown + own_images + walked_member_images(
                        all.take(i as int),
                    ),
                decreases m@.len() - i,
            {
                assert(decreases_to!(m@ => m@[i as int]));
                assert(decreases_to!(m@[i as int] => m@[i as int].1));
                assert(all.take(i + 1).drop_last() =~= all.take(i as int));
                assert(all.take(i + 1).last() == (m@[i as int].0@, m@[i as int].1@));
                walk_description(&m[i].1, texts, images);
                assert(start + own + (walked_member_texts(all.take(i as int)) + walked_texts(
                    m@[i as int].1@,
                )) =~= (start + own + walked_member_texts(all.take(i as int))) + walked_texts(
                    m@[i as int].1@,
                ));
                assert(shown + own_images + (walked_member_images(all.take(i as int))
                    + walked_images(m@[i as int].1@)) =~= (shown + own_images
                    + walked_member_images(all.take(i as int))) + walked_images(
                    m@[i as int].1@,
                ));
                i = i + 1;
            }
            assert(all.take(i as int) =~= all);
            assert(start + own + walked_member_texts(all) =~= start + (own + walked_member_texts(
                all,
            )));
            assert(shown + own_images + walked_member_images(all) =~= shown + (own_images
                + walked_member_images(all)));
        },
        _ => {
            assert(start + Seq::<Seq<char>>::empty() =~= start);
            assert(shown + Seq::<Seq<char>>::empty() =~= shown);
        },
    }
}

/// The tree of the rich description of a state, where it has one.
pub open spec fn rich_root(state: JsonV) -> Option<JsonV> {
    match state.get("richAnnotationJson"@) {
        None => None,
        Some(v) => match widgets::decoded(v) {
            Some(annotation) => if annotation is Object || annotation is Array {
                Some(
                    match annotation.get("content"@) {
                        Some(root) => root,
                        None => annotation,
                    },
                )
            } else {
                None
            },
            None => None,
        },
    }
}

/// The texts of the description of a state: those of its tree, else the words of its HTML.
pub open spec fn state_texts(state: JsonV) -> Seq<Seq<char>> {
    let rich = match rich_root(state) {
        Some(root) => walked_texts(root),
        None => Seq::empty(),
    };
    match state.field("richAnnotation"@) {
        JsonV::Text(html) => if rich.len() == 0 && html_words(html).len() > 0 {
            seq![html_words(html)]
        } else {
            rich
        },
        _ => rich,
    }
}

/// The images of the description of a state: those of its tree, else those of its HTML.
pub open spec fn state_images(state: JsonV) -> Seq<Seq<char>> {
    let rich = match rich_root(state) {
        Some(root) => walked_images(root),
        None => Seq::empty(),
    };
    match state.field("richAnnotation"@) {
        JsonV::Text(html) => if rich.len() == 0 {
            html_images(html)
        } else {
            rich
        },
        _ => rich,
    }
}

pub open spec fn all_state_texts(v: Seq<JsonV>) -> Seq<Seq<char>>
    decreases v.len(),
{
    if v.len() == 0 {
        Seq::empty()
    } else {
        all_state_texts(v.drop_last()) + state_texts(v.last())
    }
}

pub open spec fn all_state_images(v: Seq<JsonV>) -> Seq<Seq<char>>
    decreases v.len(),
{
    if v.len() == 0 {
        Seq::empty()
    } else {
        all_state_images(v.drop_last()) + state_images(v.last())
    }
}

/// The description that a page shows.
pub open spec fn description_of(page: JsonV) -> DescriptionV {
    let states = widgets::states_of(page, "webDescription"@);
    DescriptionV {
        text: text::trimmed(text::join(all_state_texts(states), " "@)),
        images: text::distinct(all_state_images(states)),
    }
}

fn append_texts(out: &mut Vec<String>, more: &Vec<String>)
    ensures
        text::texts(final(out)@) == text::texts(old(out)@) + text::texts(more@),
{
    let ghost start = text::texts(out@);
    let ghost all = text::texts(more@);
    let mut i: usize = 0;
    assert(start + all.take(0) =~= start);
    while i < more.len()
        invariant
            0 <= i <= more@.len(),
            all == text::texts(more@),
            text::texts(out@) =~= start + all.take(i as int),
        decreases more@.len() - i,
    {
        let owned: String = more[i].clone();
        proof {
            text::lemma_texts_push(out@, owned);
        }
        out.push(owned);
        assert(start + all.take(i + 1) =~= (start + all.take(i as int)).push(all[i as int]));
        i = i + 1;
    }
    assert(all.take(i as int) =~= all);
}

fn describe_state(state: &Json) -> (r: (Vec<String>, Vec<String>))
    ensures
        text::texts(r.0@) == state_texts(state@),
        text::texts(r.1@) == state_images(state@),
{
    let mut texts: Vec<String> = Vec::new();
    let mut images: Vec<String> = Vec::new();
    assert(text::texts(texts@) =~= Seq::empty());
    assert(text::texts(images@) =~= Seq::empty());
    let annotation: Option<Json> = match state.get("richAnnotationJson") {
        Some(v) => widgets::decode(v),
        None => None,
    };
    if let Some(a) = &annotation {
        if a.is_object() || a.as_array().is_some() {
            let root: &Json = match a.get("content") {
                Some(root) => root,
                None => a,
            };
            walk_description(root, &mut texts, &mut images);
            assert(Seq::<Seq<char>>::empty() + walked_texts(root@) =~= walked_texts(root@));
            assert(Seq::<Seq<char>>::empty() + walked_images(root@) =~= walked_images(root@));
        }
    }
    assert(text::texts(texts@).len() == texts@.len());
    assert(text::texts(images@).len() == images@.len());
    if let Some(html) = state.field("richAnnotation").as_str() {
        if texts.len() == 0 {
            let fallback: String = description_text(html);
            if !fallback.as_str().is_empty() {
                proof {
                    text::lemma_texts_push(texts@, fallback);
                }
                texts.push(fallback);
                assert(text::texts(texts@) =~= seq![fallback@]);
            }
        }
        if images.len() == 0 {
            images = description_images(html);
        }
    }
    (texts, images)
}

/// The description that a page shows.
pub fn parse_description(page: &Json) -> (r: Description)
    ensures
        r@ == description_of(page@),
{
    let states: Vec<Json> = widgets::all_valid(page, "webDescription");
    let ghost all = json::values(states@);
    let mut texts: Vec<String> = Vec::new();
    let mut images: Vec<String> = Vec::new();
    let mut i: usize = 0;
    assert(text::texts(texts@) =~= Seq::empty());
    assert(text::texts(images@) =~= Seq::empty());
    assert(all.take(0) =~= Seq::empty());
    while i < states.len()
        invariant
            0 <= i <= states@.len(),
            all == json::values(states@),
            text::texts(texts@) == all_state_texts(all.take(i as int)),
            text::texts(images@) == all_state_images(all.take(i as int)),
        decreases states@.len() - i,
    {
        assert(all.take(i + 1).drop_last() =~= all.take(i as int));
        assert(all.take(i + 1).last() == states@[i as int]@);
        let found: (Vec<String>, Vec<String>) = describe_state(&states[i]);
        append_texts(&mut texts, &found.0);
        append_texts(&mut images, &found.1);
        i = i + 1;
    }
    assert(all.take(i as int) =~= all);
    Description {
        text: text::trim(text::join_texts(&texts, " ").as_str()),
        images: text::without_repeats(&images),
    }
}

pub open spec fn duty_amount_pattern() -> Seq<char> {
    r"(?iu)([+-]?\d(?:[\d\s\u{00a0}\u{202f}.,]*\d)?)\s*(?:₽|руб(?:\.|л[а-яё]*)?)"@
}

pub open spec fn duty_marker_pattern() -> Seq<char> {
    r"(?iu)customs-duty|пошлин"@
}

/// The amount that a text tells of, where it is not negative.
pub open spec fn amount_in(s: Seq<char>) -> Option<(u64, Seq<char>)> {
    match pattern::first_match(duty_amount_pattern(), s) {
        Some(m) => match pattern::group(m, 1) {
            Some(t) => match localized_number(t) {
                Some(x) => if double::order(x.0) >= 0 {
                    Some(x)
                } else {
                    None
                },
                None => None,
            },
            None => None,
        },
        None => None,
    }
}

/// The amount of the first text, from the `i`-th on, that speaks of a duty and an amount.
pub open spec fn marked_amount(v: Seq<Seq<char>>, i: int) -> Option<(u64, Seq<char>)>
    decreases v.len() - i,
{
    if i < 0 || i >= v.len() {
        None
    } else if pattern::pattern_occurs(duty_marker_pattern(), v[i]) && amount_in(v[i]) is Some {
        amount_in(v[i])
    } else {
        marked_amount(v, i + 1)
    }
}

/// Whether some text speaks of a duty.
pub open spec fn speaks_of_duty(v: Seq<Seq<char>>) -> bool {
    exists|i: int|
        0 <= i < v.len() && pattern::pattern_occurs(duty_marker_pattern(), #[trigger] v[i])
}

/// The duty that the texts of a state tell of: in one of those that speak of it, else in
/// all of them together.
pub open spec fn state_duty(v: Seq<Seq<char>>) -> Option<(u64, Seq<char>)> {
    if !speaks_of_duty(v) {
        None
    } else {
        match marked_amount(v, 0) {
            Some(x) => Some(x),
            None => amount_in(text::join(v, " "@)),
        }
    }
}

/// The duty of the first state, from the `i`-th on, that tells of one.
pub open spec fn first_duty(v: Seq<JsonV>, i: int) -> Option<(u64, Seq<char>)>
    decreases v.len() - i,
{
    if i < 0 || i >= v.len() {
        None
    } else {
        match state_duty(strings_in(v[i])) {
            Some(x) => Some(x),
            None => first_duty(v, i + 1),
        }
    }
}

/// The duty that a product page tells of.
pub open spec fn duty_of(page: JsonV) -> Option<(u64, Seq<char>)> {
    first_duty(widgets::states_of(page, "webIconWithText"@), 0)
}

fn amount(s: &str) -> (r: Option<Real>)
    ensures
        double::real_of(r) == amount_in(s@),
{
    let m: Vec<Option<String>> = match pattern::captures(
        r"(?iu)([+-]?\d(?:[\d\s\u{00a0}\u{202f}.,]*\d)?)\s*(?:₽|руб(?:\.|л[а-яё]*)?)",
        s,
    ) {
        Some(m) => m,
        None => return None,
    };
    match pattern::group_text(&m, 1) {
        Some(t) => match parse_localized_number(t.as_str()) {
            Some(x) => if double::order_of(x.bits) >= 0 {
                Some(x)
            } else {
                None
            },
            None => None,
        },
        None => None,
    }
}

fn duty_in_state(state: &Json) -> (r: Option<Real>)
    ensures
        double::real_of(r) == state_duty(strings_in(state@)),
{
    let mut strings: Vec<String> = Vec::new();
    collect_strings(state, &mut strings);
    let ghost all = text::texts(strings@);
    assert(all =~= strings_in(state@));
    let mut speaks: bool = false;
    let mut i: usize = 0;
    while i < strings.len()
        invariant
            0 <= i <= strings@.len(),
            all == text::texts(strings@),
            all == strings_in(state@),
            speaks == (exists|k: int|
                0 <= k < i && pattern::pattern_occurs(duty_marker_pattern(), #[trigger] all[k])),
            marked_amount(all, 0) == marked_amount(all, i as int),
        decreases strings@.len() - i,
    {
        assert(all[i as int] == strings@[i as int]@);
        if pattern::is_match(r"(?iu)customs-duty|пошлин", strings[i].as_str()) {
            speaks = true;
            if let Some(x) = amount(strings[i].as_str()) {
                return Some(x);
            }
        }
        i = i + 1;
    }
    if !speaks {
        return None;
    }
    amount(text::join_texts(&strings, " ").as_str())
}

/// The duty that a product page tells of.
pub fn parse_duty(page: &Json) -> (r: Option<Real>)
    ensures
        double::real_of(r) == duty_of(page@),
{
    let states: Vec<Json> = widgets::all_valid(page, "webIconWithText");
    let ghost all = json::values(states@);
    let mut i: usize = 0;
    while i < states.len()
        invariant
            0 <= i <= states@.len(),
            all == json::values(states@),
            duty_of(page@) == first_duty(all, 0),
            first_duty(all, 0) == first_duty(all, i as int),
        decreases states@.len() - i,
    {
        assert(all[i as int] == states@[i as int]@);
        if let Some(x) = duty_in_state(&states[i]) {
            return Some(x);
        }
        i = i + 1;
    }
    None
}

/// The first canonical URL, from the `i`-th link on.
pub open spec fn first_url(v: Seq<JsonV>, i: int) -> Option<Seq<char>>
    decreases v.len() - i,
{
    if i < 0 || i >= v.len() {
        None
    } else {
        match url_in(v[i].get("href"@)) {
            Some(u) => Some(u),
            None => first_url(v, i + 1),
        }
    }
}

/// The canonical URL that a page gives for itself.
pub open spec fn seo_url_of(page: JsonV) -> Option<Seq<char>> {
    first_url(page.field("seo"@).field("link"@).elements(), 0)
}

fn seo_url(page: &Json) -> (r: Option<String>)
    ensures
        text::text_of(r) == seo_url_of(page@),
{
    let links: Vec<&Json> = json::elements(page.field("seo").field("link"));
    let ghost all = json::refs(links@);
    let mut i: usize = 0;
    while i < links.len()
        invariant
            0 <= i <= links@.len(),
            all == json::refs(links@),
            seo_url_of(page@) == first_url(all, 0),
            first_url(all, 0) == first_url(all, i as int),
        decreases links@.len() - i,
    {
        assert(all[i as int] == links@[i as int]@);
        if let Some(u) = clean_url(links[i].get("href")) {
            return Some(u);
        }
        i = i + 1;
    }
    None
}

/// The part of a gallery entry that its address stands in.
pub open spec fn gallery_entry(v: JsonV) -> JsonV {
    match v.get("src"@) {
        Some(x) => x,
        None => match v.get("image"@) {
            Some(x) => x,
            None => v,
        },
    }
}

/// The addresses of the entries of a gallery.
pub open spec fn gallery_images(v: Seq<JsonV>) -> Seq<Seq<char>>
    decreases v.len(),
{
    if v.len() == 0 {
        Seq::empty()
    } else {
        match image_of(gallery_entry(v.last())) {
            Some(s) => gallery_images(v.drop_last()).push(s),
            None => gallery_images(v.drop_last()),
        }
    }
}

/// The first ten images of a product: its cover, then the entries of its gallery.
pub open spec fn product_images(gallery: Option<JsonV>) -> Seq<Seq<char>> {
    let cover = match image_in(member_in(gallery, "coverImage"@)) {
        Some(s) => seq![s],
        None => Seq::empty(),
    };
    let entries = match gallery {
        Some(g) => gallery_images(g.field("images"@).elements()),
        None => Seq::empty(),
    };
    let all = text::distinct(cover + entries);
    if all.len() > 10 {
        all.take(10)
    } else {
        all
    }
}

fn find_product_images(gallery: Option<&Json>) -> (r: Vec<String>)
    ensures
        text::texts(r@) == product_images(json::view_of(gallery)),
{
    let mut images: Vec<String> = Vec::new();
    assert(text::texts(images@) =~= Seq::empty());
    if let Some(s) = image_url(member(gallery, "coverImage")) {
        proof {
            text::lemma_texts_push(images@, s);
        }
        images.push(s);
        assert(text::texts(images@) =~= seq![s@]);
    }
    let ghost cover = text::texts(images@);
    let ghost view = json::view_of(gallery);
    let ghost entries = match view {
        Some(g) => gallery_images(g.field("images"@).elements()),
        None => Seq::empty(),
    };
    if let Some(g) = gallery {
        let rows: Vec<&Json> = json::elements(g.field("images"));
        let ghost all = json::refs(rows@);
        let mut i: usize = 0;
        assert(all.take(0) =~= Seq::empty());
        assert(cover + gallery_images(all.take(0)) =~= cover);
        while i < rows.len()
            invariant
                0 <= i <= rows@.len(),
                all == json::refs(rows@),
                text::texts(images@) == cover + gallery_images(all.take(i as int)),
            decreases rows@.len() - i,
        {
            assert(all.take(i + 1).drop_last() =~= all.take(i as int));
            assert(all.take(i + 1).last() == rows@[i as int]@);
            let entry: &Json = match rows[i].get("src") {
                Some(x) => x,
                None => match rows[i].get("image") {
                    Some(x) => x,
                    None => rows[i],
                },
            };
            if let Some(s) = image_of_value(entry) {
                proof {
                    text::lemma_texts_push(images@, s);
                }
                images.push(s);
                assert(cover + gallery_images(all.take(i as int)).push(s@) =~= (cover
                    + gallery_images(all.take(i as int))).push(s@));
            }
            i = i + 1;
        }
        assert(all.take(i as int) =~= all);
    } else {
        assert(cover + entries =~= cover);
    }
    let mut unique: Vec<String> = text::without_repeats(&images);
    let ghost all_unique = text::texts(unique@);
    assert(all_unique.len() == unique@.len());
    unique.truncate(10);
    assert(text::texts(unique@) =~= (if all_unique.len() > 10 {
        all_unique.take(10)
    } else {
        all_unique
    }));
    unique
}

/// The duty that a product page tells of, or else the second half of it.
pub open spec fn any_duty(page: JsonV, page2: Option<JsonV>) -> Option<(u64, Seq<char>)> {
    match duty_of(page) {
        Some(x) => Some(x),
        None => match page2 {
            Some(p) => duty_of(p),
            None => None,
        },
    }
}

/// The duty of a product, with the price that it comes on top of.
pub open spec fn duty_with_total(
    page: JsonV,
    page2: Option<JsonV>,
    price: Option<(u64, Seq<char>)>,
) -> Option<DutyV> {
    match any_duty(page, page2) {
        None => None,
        Some(amount) => Some(
            DutyV {
                amount,
                total: match price {
                    Some(p) => if double::is_finite(amount.0) {
                        double::real_sum(p, amount)
                    } else {
                        None
                    },
                    None => None,
                },
                note: "пошлина не входит в цену"@,
            },
        ),
    }
}

/// The price of a product with the store's card, else without.
pub open spec fn card_price(price: Option<JsonV>) -> Option<(u64, Seq<char>)> {
    match price_in(member_in(price, "cardPrice"@)) {
        Some(x) => Some(x),
        None => price_in(member_in(price, "price"@)),
    }
}

/// A description with what a second page adds to it.
pub open spec fn supplemented(first: DescriptionV, second: Option<DescriptionV>) -> DescriptionV {
    match second {
        None => first,
        Some(d) => DescriptionV {
            text: if first.text.len() == 0 {
                d.text
            } else {
                first.text
            },
            images: text::united(first.images, d.images),
        },
    }
}

pub open spec fn description_in(page: Option<JsonV>) -> Option<DescriptionV> {
    match page {
        Some(p) => Some(description_of(p)),
        None => None,
    }
}

/// The product that its page, and the second half of it where it was fetched, show.
pub open spec fn details_of(page: JsonV, page2: Option<JsonV>) -> ProductDetailsV {
    let heading = widgets::first_with(
        widgets::states_of(page, "webProductHeading"@),
        seq!["title"@],
        0,
    );
    let price = widgets::first_with(
        widgets::states_of(page, "webPrice"@),
        seq!["cardPrice"@, "price"@, "originalPrice"@, "isAvailable"@],
        0,
    );
    let gallery = widgets::first_with(
        widgets::states_of(page, "webGallery"@),
        seq!["sku"@, "coverImage"@, "images"@],
        0,
    );
    let tracking = match page.get("layoutTrackingInfo"@) {
        Some(v) => widgets::decoded(v),
        None => None,
    };
    let url = seo_url_of(page);
    let sku = match sku_in(member_in(gallery, "sku"@)) {
        Some(s) => Some(s),
        None => match sku_in(member_in(tracking, "sku"@)) {
            Some(s) => Some(s),
            None => match url {
                Some(u) => sku_in_link(u),
                None => None,
            },
        },
    };
    let score = product_score(page);
    ProductDetailsV {
        sku,
        name: match text_in(member_in(heading, "title"@)) {
            Some(s) => Some(s),
            None => words_of(page.field("seo"@).field("title"@)),
        },
        url: match url {
            Some(u) => Some(u),
            None => match sku {
                Some(s) => Some("https://www.ozon.ru/product/"@ + s + "/"@),
                None => None,
            },
        },
        price: card_price(price),
        price_regular: price_in(member_in(price, "price"@)),
        old_price: price_in(member_in(price, "originalPrice"@)),
        duty: duty_with_total(page, page2, card_price(price)),
        available: match member_in(price, "isAvailable"@) {
            Some(v) => v.as_bool(),
            None => None,
        },
        rating: score.0,
        reviews: score.1,
        seller: seller_of(page),
        images: product_images(gallery),
        characteristics: short_characteristics(page),
        description: supplemented(description_of(page), description_in(page2)),
        warnings: Seq::empty(),
    }
}

fn total_with_duty(page: &Json, page2: Option<&Json>, price: &Option<Real>) -> (r: Option<Duty>)
    requires
        price matches Some(p) ==> double::is_finite(p.bits) && double::order(p.bits) >= 0,
    ensures
        model::duty_view(r) == duty_with_total(
            page@,
            json::view_of(page2),
            double::real_of(*price),
        ),
{
    let duty: Option<Real> = match parse_duty(page) {
        Some(x) => Some(x),
        None => match page2 {
            Some(p) => parse_duty(p),
            None => None,
        },
    };
    proof {
        lemma_duty_is_not_negative(widgets::states_of(page@, "webIconWithText"@), 0);
        if let Some(p) = page2 {
            lemma_duty_is_not_negative(widgets::states_of(p@, "webIconWithText"@), 0);
        }
    }
    match duty {
        None => None,
        Some(amount) => {
            let finite: bool = double::order_of(amount.bits) < double::INFINITE as i128;
            let total: Option<Real> = match price {
                Some(p) => if finite {
                    double::sum(p, &amount)
                } else {
                    None
                },
                None => None,
            };
            Some(Duty { amount, total, note: "пошлина не входит в цену".to_owned() })
        },
    }
}

proof fn lemma_marked_is_not_negative(v: Seq<Seq<char>>, i: int)
    ensures
        marked_amount(v, i) matches Some(x) ==> double::order(x.0) >= 0,
    decreases v.len() - i,
{
    if 0 <= i < v.len() {
        lemma_marked_is_not_negative(v, i + 1);
    }
}

proof fn lemma_duty_is_not_negative(v: Seq<JsonV>, i: int)
    ensures
        first_duty(v, i) matches Some(x) ==> double::order(x.0) >= 0,
    decreases v.len() - i,
{
    if 0 <= i < v.len() {
        lemma_marked_is_not_negative(strings_in(v[i]), 0);
        lemma_duty_is_not_negative(v, i + 1);
    }
}

fn describe(page: &Json, page2: Option<&Json>) -> (r: Description)
    ensures
        r@ == supplemented(description_of(page@), description_in(json::view_of(page2))),
{
    let mut description: Description = parse_description(page);
    if let Some(p) = page2 {
        let secondary: Description = parse_description(p);
        if !description.has_text() {
            description.text = secondary.text;
        }
        let ghost first = text::texts(description.images@);
        let ghost more = text::texts(secondary.images@);
        let mut images: Vec<String> = description.images;
        let mut i: usize = 0;
        assert(more.take(0) =~= Seq::empty());
        while i < secondary.images.len()
            invariant
                0 <= i <= secondary.images@.len(),
                more == text::texts(secondary.images@),
                text::texts(images@) == text::united(first, more.take(i as int)),
            decreases secondary.images@.len() - i,
        {
            assert(more.take(i + 1) =~= more.take(i as int).push(secondary.images@[i as int]@));
            proof {
                text::lemma_united_push(first, more.take(i as int), secondary.images@[i as int]@);
            }
            text::push_new(&mut images, secondary.images[i].clone());
            i = i + 1;
        }
        assert(more.take(i as int) =~= more);
        description.images = images;
    }
    description
}

fn product_sku(page: &Json, gallery: Option<&Json>, url: &Option<String>) -> (r: Option<String>)
    ensures
        text::text_of(r) == (match sku_in(member_in(json::view_of(gallery), "sku"@)) {
            Some(s) => Some(s),
            None => match sku_in(
                member_in(
                    match page@.get("layoutTrackingInfo"@) {
                        Some(v) => widgets::decoded(v),
                        None => None,
                    },
                    "sku"@,
                ),
            ) {
                Some(s) => Some(s),
                None => match text::text_of(*url) {
                    Some(u) => sku_in_link(u),
                    None => None,
                },
            },
        }),
{
    if let Some(s) = normalize_sku(member(gallery, "sku")) {
        return Some(s);
    }
    let tracking: Option<Json> = match page.get("layoutTrackingInfo") {
        Some(v) => widgets::decode(v),
        None => None,
    };
    if let Some(s) = normalize_sku(member(tracking.as_ref(), "sku")) {
        return Some(s);
    }
    match url {
        Some(u) => sku_from_url(u.as_str()),
        None => None,
    }
}

/// The product that its page, and the second half of it where it was fetched, show.
pub fn parse_details(base_page: &Json, page2: Option<&Json>) -> (r: ProductDetails)
    ensures
        r@ == details_of(base_page@, json::view_of(page2)),
{
    let heading_keys: [&str; 1] = ["title"];
    assert(widgets::slices(heading_keys@) =~= seq!["title"@]);
    let heading: Option<Json> = widgets::first_having(
        base_page,
        "webProductHeading",
        &heading_keys,
    );
    let price_keys: [&str; 4] = ["cardPrice", "price", "originalPrice", "isAvailable"];
    assert(widgets::slices(price_keys@) =~= seq![
        "cardPrice"@,
        "price"@,
        "originalPrice"@,
        "isAvailable"@,
    ]);
    let price: Option<Json> = widgets::first_having(base_page, "webPrice", &price_keys);
    let gallery_keys: [&str; 3] = ["sku", "coverImage", "images"];
    assert(widgets::slices(gallery_keys@) =~= seq!["sku"@, "coverImage"@, "images"@]);
    let gallery: Option<Json> = widgets::first_having(base_page, "webGallery", &gallery_keys);
    let url: Option<String> = seo_url(base_page);
    let sku: Option<String> = product_sku(base_page, gallery.as_ref(), &url);
    let score: (Option<Real>, Option<u64>) = parse_product_score(base_page);
    let images: Vec<String> = find_product_images(gallery.as_ref());
    let card: Option<Real> = match price_to_number(member(price.as_ref(), "cardPrice")) {
        Some(x) => Some(x),
        None => price_to_number(member(price.as_ref(), "price")),
    };
    let duty: Option<Duty> = total_with_duty(base_page, page2, &card);
    let name: Option<String> = match text_from(member(heading.as_ref(), "title")) {
        Some(s) => Some(s),
        None => words(base_page.field("seo").field("title")),
    };
    let final_url: Option<String> = match url {
        Some(u) => Some(u),
        None => match &sku {
            Some(s) => Some(text::joined3("https://www.ozon.ru/product/", s.as_str(), "/")),
            None => None,
        },
    };
    let available: Option<bool> = match member(price.as_ref(), "isAvailable") {
        Some(v) => v.as_bool(),
        None => None,
    };
    let description: Description = describe(base_page, page2);
    ProductDetails {
        sku,
        name,
        url: final_url,
        price: card,
        price_regular: price_to_number(member(price.as_ref(), "price")),
        old_price: price_to_number(member(price.as_ref(), "originalPrice")),
        duty,
        available,
        rating: score.0,
        reviews: score.1,
        seller: parse_seller(base_page),
        images,
        characteristics: parse_short_characteristics(base_page),
        description,
        warnings: Vec::new(),
    }
}

/// The time, as `chrono` writes it in UTC, of a number of milliseconds since the epoch.
pub uninterp spec fn date_at(millis: i64) -> Option<Seq<char>>;

/// `chrono::DateTime::<Utc>::from_timestamp_millis` and its `to_rfc3339`: a function of the
/// number. A number out of the range of dates has none.
#[verifier::external_body]
pub(crate) fn date_text(millis: i64) -> (r: Option<String>)
    ensures
        text::text_of(r) == date_at(millis),
{
    let date = chrono::DateTime::<chrono::Utc>::from_timestamp_millis(millis)?;
    Some(date.to_rfc3339())
}

pub open spec fn seconds_pattern() -> Seq<char> {
    r"^\d+(?:\.\d+)?$"@
}

/// The bits of the number of seconds that a value shows.
pub open spec fn seconds_in(v: Option<JsonV>) -> Option<u64> {
    match v {
        Some(JsonV::Number(n)) => Some(double::bits_of(n) as u64),
        Some(JsonV::Text(s)) => if pattern::pattern_occurs(seconds_pattern(), text::trimmed(s)) {
            match double::double_of(text::trimmed(s)) {
                Some(x) => Some(x.0),
                None => None,
            }
        } else {
            None
        },
        _ => None,
    }
}

/// The date of a number of seconds since the epoch.
pub open spec fn date_in(v: Option<JsonV>) -> Option<Seq<char>> {
    match seconds_in(v) {
        Some(bits) => if double::is_finite(bits) && double::order(bits) >= 0 {
            date_at(double::scaled_part(double::order(bits) as u64, 1000) as i64)
        } else {
            None
        },
        None => None,
    }
}

fn unix_to_date(value: Option<&Json>) -> (r: Option<String>)
    ensures
        text::text_of(r) == date_in(json::view_of(value)),
{
    let bits: u64 = match value {
        Some(Json::Number(n)) => double::number_bits(n),
        Some(Json::Text(s)) => {
            let trimmed: String = text::trim(s.as_str());
            if !pattern::is_match(r"^\d+(?:\.\d+)?$", trimmed.as_str()) {
                return None;
            }
            match double::read_double(trimmed.as_str()) {
                Some(x) => x.bits,
                None => return None,
            }
        },
        _ => return None,
    };
    let place: i128 = double::order_of(bits);
    if place < 0 || place >= double::INFINITE as i128 {
        return None;
    }
    date_text(double::scaled_integer_part(place as u64, 1000))
}

/// The name of the author of a review: as a title, or as first and last name.
pub open spec fn author_in(v: JsonV) -> Option<Seq<char>> {
    match text_in(v.get("title"@)) {
        Some(s) => Some(s),
        None => match (words_of(v.field("firstName"@)), words_of(v.field("lastName"@))) {
            (Some(a), Some(b)) => Some(a + " "@ + b),
            (Some(a), None) => Some(a),
            (None, b) => b,
        },
    }
}

fn author_name(v: &Json) -> (r: Option<String>)
    ensures
        text::text_of(r) == author_in(v@),
{
    if let Some(s) = text_from(v.get("title")) {
        return Some(s);
    }
    match (words(v.field("firstName")), words(v.field("lastName"))) {
        (Some(a), Some(b)) => Some(text::joined3(a.as_str(), " ", b.as_str())),
        (Some(a), None) => Some(a),
        (None, b) => b,
    }
}

/// A text that the content of a review may hold.
pub open spec fn content_text(review: JsonV, key: Seq<char>) -> Option<Seq<char>> {
    review.field("content"@).field(key).as_text()
}

/// The review that a value shows.
pub open spec fn review_in(review: JsonV) -> ReviewV {
    ReviewV {
        author: match author_in(review.field("author"@)) {
            Some(s) => Some(s),
            None => if review.field("isAnonymous"@).as_bool() == Some(true) {
                Some("Аноним"@)
            } else {
                None
            },
        },
        score: rating_in(review.field("content"@).get("score"@)),
        comment: content_text(review, "comment"@),
        pros: content_text(review, "positive"@),
        cons: content_text(review, "negative"@),
        date: date_in(
            match review.get("publishedAt"@) {
                Some(v) => Some(v),
                None => review.get("createdAt"@),
            },
        ),
        useful: count_in(review.field("usefulness"@).get("useful"@)),
        purchased: review.field("isItemPurchased"@).as_bool(),
        has_photos: match review.field("content"@).field("photos"@) {
            JsonV::Array(v) => Some(v.len() > 0),
            _ => None,
        },
    }
}

fn optional_string(v: &Json) -> (r: Option<String>)
    ensures
        text::text_of(r) == v@.as_text(),
{
    match v.as_str() {
        Some(s) => Some(s.to_owned()),
        None => None,
    }
}

fn parse_review(review: &Json) -> (r: Review)
    ensures
        r@ == review_in(review@),
{
    let content: &Json = review.field("content");
    let author: Option<String> = match author_name(review.field("author")) {
        Some(s) => Some(s),
        None => match review.field("isAnonymous").as_bool() {
            Some(true) => Some("Аноним".to_owned()),
            _ => None,
        },
    };
    let published: Option<&Json> = match review.get("publishedAt") {
        Some(v) => Some(v),
        None => review.get("createdAt"),
    };
    let has_photos: Option<bool> = match content.field("photos").as_array() {
        Some(v) => {
            assert(json::values(v@).len() == v@.len());
            Some(v.len() > 0)
        },
        None => None,
    };
    Review {
        author,
        score: rating_from_value(content.get("score")),
        comment: optional_string(content.field("comment")),
        pros: optional_string(content.field("positive")),
        cons: optional_string(content.field("negative")),
        date: unix_to_date(published),
        useful: count_from_value(review.field("usefulness").get("useful")),
        purchased: review.field("isItemPurchased").as_bool(),
        has_photos,
    }
}

/// The values that a page lists as reviews.
pub open spec fn raw_reviews(page: JsonV) -> Seq<JsonV> {
    match widgets::first_with_array(
        widgets::states_of(page, "webListReviews"@),
        seq!["reviews"@, "items"@],
        0,
    ) {
        Some(state) => objects_of(
            if state.field("reviews"@) is Array {
                state.field("reviews"@).elements()
            } else {
                state.field("items"@).elements()
            },
        ),
        None => Seq::empty(),
    }
}

/// The first `limit` reviews of a row.
pub open spec fn first_reviews(v: Seq<JsonV>, limit: int) -> Seq<ReviewV> {
    Seq::new(
        if v.len() < limit {
            v.len()
        } else {
            limit as nat
        },
        |i: int| review_in(v[i]),
    )
}

/// The page of reviews that a page shows.
pub open spec fn review_page_of(page: JsonV, limit: usize) -> ReviewPageV {
    let score = product_score(page);
    let reviews = first_reviews(raw_reviews(page), limit as int);
    ReviewPageV {
        rating: score.0,
        total_reviews: score.1,
        count: reviews.len() as usize,
        reviews,
        warnings: Seq::empty(),
    }
}

/// The page of reviews that a page shows, with at most `limit` of them.
pub fn parse_reviews(page: &Json, limit: usize) -> (r: ReviewPage)
    ensures
        r@ == review_page_of(page@, limit),
{
    let keys: [&str; 2] = ["reviews", "items"];
    assert(widgets::slices(keys@) =~= seq!["reviews"@, "items"@]);
    let state: Option<Json> = widgets::first_having_array(page, "webListReviews", &keys);
    let score: (Option<Real>, Option<u64>) = parse_product_score(page);
    let mut reviews: Vec<Review> = Vec::new();
    let ghost rows_seen = raw_reviews(page@);
    assert(model::reviews_view(reviews@) =~= first_reviews(rows_seen, 0));
    if let Some(s) = &state {
        let listed: &Json = if s.field("reviews").as_array().is_some() {
            s.field("reviews")
        } else {
            s.field("items")
        };
        let rows: Vec<&Json> = objects(listed);
        assert(json::refs(rows@) == rows_seen);
        let mut i: usize = 0;
        while i < rows.len() && i < limit
            invariant
                0 <= i <= rows@.len(),
                i <= limit,
                json::refs(rows@) == rows_seen,
                model::reviews_view(reviews@) =~= first_reviews(rows_seen, i as int),
            decreases rows@.len() - i,
        {
            assert(rows_seen[i as int] == rows@[i as int]@);
            let ghost before = reviews@;
            let review: Review = parse_review(rows[i]);
            reviews.push(review);
            assert(model::reviews_view(reviews@) =~= model::reviews_view(before).push(review@));
            assert(first_reviews(rows_seen, i + 1) =~= first_reviews(rows_seen, i as int).push(
                review@,
            ));
            i = i + 1;
        }
        assert(rows_seen.len() == rows@.len());
        assert(model::reviews_view(reviews@) =~= first_reviews(rows_seen, limit as int));
    }
    assert(model::reviews_view(reviews@) =~= first_reviews(rows_seen, limit as int));
    assert(model::reviews_view(reviews@).len() == reviews@.len());
    ReviewPage {
        rating: score.0,
        total_reviews: score.1,
        count: reviews.len(),
        reviews,
        warnings: Vec::new(),
    }
}

} // verus!
