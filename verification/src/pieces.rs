//! The pieces of a text with quotes and brackets: what stands between separators at one depth
//! of its brackets, outside its quotes.

use crate::text;
use vstd::prelude::*;

verus! {

/// How far a text has been cut.
pub struct CutV {
    pub done: Seq<Seq<char>>,
    pub current: Seq<char>,
    pub depth: nat,
    pub quoted: bool,
    pub escaped: bool,
}

pub open spec fn opens(c: char) -> bool {
    c == '[' || c == '{'
}

pub open spec fn closes(c: char) -> bool {
    c == ']' || c == '}'
}

/// The character behind those that belong to the current piece, where it belongs to it too.
pub open spec fn taken(at: CutV, c: char, belongs: bool) -> Seq<char> {
    if belongs {
        at.current.push(c)
    } else {
        at.current
    }
}

/// The cut one character further on. A piece holds what stands at `level` or deeper; the
/// brackets that lead to `level` belong to none.
pub open spec fn cut_next(at: CutV, c: char, separator: char, level: nat) -> CutV {
    if at.quoted {
        CutV {
            current: taken(at, c, at.depth >= level),
            quoted: at.escaped || c != '"',
            escaped: !at.escaped && c == '\\',
            ..at
        }
    } else if c == separator && at.depth == level {
        CutV { done: at.done.push(at.current), current: Seq::empty(), ..at }
    } else if opens(c) {
        CutV { current: taken(at, c, at.depth >= level), depth: at.depth + 1, ..at }
    } else if closes(c) {
        CutV {
            current: taken(at, c, at.depth > level),
            depth: if at.depth > 0 {
                (at.depth - 1) as nat
            } else {
                0
            },
            ..at
        }
    } else {
        CutV { current: taken(at, c, at.depth >= level), quoted: c == '"', ..at }
    }
}

/// The cut of a text.
pub open spec fn cut(s: Seq<char>, separator: char, level: nat) -> CutV
    decreases s.len(),
{
    if s.len() == 0 {
        CutV {
            done: Seq::empty(),
            current: Seq::empty(),
            depth: 0,
            quoted: false,
            escaped: false,
        }
    } else {
        cut_next(cut(s.drop_last(), separator, level), s.last(), separator, level)
    }
}

/// The pieces of a text between separators at a depth of its brackets; never none.
pub open spec fn pieces(s: Seq<char>, separator: char, level: nat) -> Seq<Seq<char>> {
    cut(s, separator, level).done.push(cut(s, separator, level).current)
}

proof fn lemma_depth_is_small(s: Seq<char>, separator: char, level: nat)
    ensures
        cut(s, separator, level).depth <= s.len(),
    decreases s.len(),
{
    if s.len() > 0 {
        lemma_depth_is_small(s.drop_last(), separator, level);
    }
}

/// The pieces of a text between separators at a depth of its brackets.
pub fn cut_pieces(s: &str, separator: char, level: usize) -> (r: Vec<String>)
    ensures
        text::texts(r@) == pieces(s@, separator, level as nat),
{
    let chars: Vec<char> = text::chars_of(s);
    let mut done: Vec<String> = Vec::new();
    let mut current: Vec<char> = Vec::new();
    let mut depth: usize = 0;
    let mut quoted: bool = false;
    let mut escaped: bool = false;
    let mut i: usize = 0;
    assert(s@.take(0) =~= Seq::empty());
    assert(text::texts(done@) =~= Seq::empty());
    assert(current@ =~= Seq::empty());
    while i < chars.len()
        invariant
            0 <= i <= chars@.len(),
            chars@ == s@,
            depth <= i,
            cut(s@.take(i as int), separator, level as nat) == (CutV {
                done: text::texts(done@),
                current: current@,
                depth: depth as nat,
                quoted,
                escaped,
            }),
        decreases chars@.len() - i,
    {
        let c: char = chars[i];
        assert(s@.take(i + 1).drop_last() =~= s@.take(i as int));
        assert(s@.take(i + 1).last() == c);
        proof {
            lemma_depth_is_small(s@.take(i as int), separator, level as nat);
            lemma_depth_is_small(s@.take(i + 1), separator, level as nat);
        }
        let inside: bool = depth >= level;
        if quoted {
            if inside {
                current.push(c);
            }
            quoted = escaped || c != '"';
            escaped = !escaped && c == '\\';
        } else if c == separator && depth == level {
            let piece: String = text::string_of(&current);
            proof {
                text::lemma_texts_push(done@, piece);
            }
            done.push(piece);
            current = Vec::new();
            assert(current@ =~= Seq::empty());
        } else if c == '[' || c == '{' {
            if inside {
                current.push(c);
            }
            depth = depth + 1;
        } else if c == ']' || c == '}' {
            if depth > level {
                current.push(c);
            }
            if depth > 0 {
                depth = depth - 1;
            }
        } else {
            if inside {
                current.push(c);
            }
            quoted = c == '"';
        }
        i = i + 1;
    }
    assert(s@.take(i as int) =~= s@);
    let last: String = text::string_of(&current);
    proof {
        text::lemma_texts_push(done@, last);
    }
    done.push(last);
    done
}

} // verus!
