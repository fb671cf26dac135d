//! Regular expressions.

use crate::operations;
use crate::text;
use vstd::prelude::*;

verus! {

/// Whether `regex::Regex::is_match` finds a pattern in a text.
pub uninterp spec fn pattern_occurs(pattern: Seq<char>, input: Seq<char>) -> bool;

/// The groups of the first match that `regex::Regex::captures` finds in a text.
pub uninterp spec fn first_match(pattern: Seq<char>, input: Seq<char>) -> Option<
    Seq<Option<Seq<char>>>,
>;

/// The groups of each match that `regex::Regex::captures_iter` finds in a text.
pub uninterp spec fn all_matches(pattern: Seq<char>, input: Seq<char>) -> Seq<
    Seq<Option<Seq<char>>>,
>;

/// The texts between the matches, as `regex::Regex::split` gives them.
pub uninterp spec fn between_matches(pattern: Seq<char>, input: Seq<char>) -> Seq<Seq<char>>;

/// The texts of the groups of a match.
pub open spec fn groups(v: Seq<Option<String>>) -> Seq<Option<Seq<char>>> {
    Seq::new(v.len(), |i: int| text::text_of(v[i]))
}

pub open spec fn groups_of(o: Option<Vec<Option<String>>>) -> Option<Seq<Option<Seq<char>>>> {
    match o {
        Some(v) => Some(groups(v@)),
        None => None,
    }
}

pub open spec fn rows_of(v: Seq<Vec<Option<String>>>) -> Seq<Seq<Option<Seq<char>>>> {
    Seq::new(v.len(), |i: int| groups(v[i]@))
}

/// What the pattern of a slug says of the texts in which it is found, and when it is found in
/// a text of ASCII characters.
pub open spec fn finds_slugs(found: bool, pattern: Seq<char>, input: Seq<char>) -> bool {
    pattern == operations::slug_pattern() ==> {
        &&& found ==> operations::is_slug(input)
        &&& text::is_ascii(input) && operations::is_slug(input) ==> found
    }
}

/// `regex::Regex::is_match`, a function of the pattern and the text. A pattern that
/// does not compile occurs nowhere. The pattern of a slug is tied to both ends of the text:
/// where it is found, each character is a letter, a number, `_` or `-`, so no white space, no
/// control character and no other ASCII character, and the last one is an ASCII digit. Of
/// ASCII texts it is found in all that are so.
#[verifier::external_body]
pub(crate) fn is_match(pattern: &str, input: &str) -> (r: bool)
    ensures
        r == pattern_occurs(pattern@, input@),
        finds_slugs(r, pattern@, input@),
{
    regex::Regex::new(pattern).map_or(false, |p| p.is_match(input))
}

/// `regex::Regex::captures`, a function of the pattern and the text: the whole match, then
/// each group, as text. A pattern that does not compile matches nothing.
#[verifier::external_body]
pub(crate) fn captures(pattern: &str, input: &str) -> (r: Option<Vec<Option<String>>>)
    ensures
        groups_of(r) == first_match(pattern@, input@),
{
    let found = regex::Regex::new(pattern).ok()?.captures(input)?;
    Some(found.iter().map(|g| g.map(|m| m.as_str().to_owned())).collect())
}

/// `regex::Regex::captures_iter`, a function of the pattern and the text: the groups of
/// each match, as text. A pattern that does not compile matches nothing.
#[verifier::external_body]
pub(crate) fn captures_all(pattern: &str, input: &str) -> (r: Vec<Vec<Option<String>>>)
    ensures
        rows_of(r@) == all_matches(pattern@, input@),
{
    regex::Regex::new(pattern).into_iter().flat_map(
        |p| p.captures_iter(input).map(
            |c| c.iter().map(|g| g.map(|m| m.as_str().to_owned())).collect(),
        ).collect::<Vec<Vec<Option<String>>>>(),
    ).collect()
}

/// `regex::Regex::split`, a function of the pattern and the text. A pattern that does not
/// compile gives no pieces.
#[verifier::external_body]
pub(crate) fn split(pattern: &str, input: &str) -> (r: Vec<String>)
    ensures
        text::texts(r@) == between_matches(pattern@, input@),
{
    regex::Regex::new(pattern).into_iter().flat_map(
        |p| p.split(input).map(str::to_owned).collect::<Vec<String>>(),
    ).collect()
}

/// A group of a match.
pub open spec fn group(v: Seq<Option<Seq<char>>>, i: int) -> Option<Seq<char>> {
    if 0 <= i < v.len() {
        v[i]
    } else {
        None
    }
}

pub fn group_text(v: &Vec<Option<String>>, i: usize) -> (r: Option<String>)
    ensures
        text::text_of(r) == group(groups(v@), i as int),
{
    if i < v.len() {
        assert(groups(v@)[i as int] == text::text_of(v@[i as int]));
        v[i].clone()
    } else {
        None
    }
}

} // verus!
