//! How the numbers that a page writes are read.

use crate::json::JsonV;
use crate::parse;
use crate::pattern;
use crate::text;
use vstd::prelude::*;

verus! {

/// Whether a character may group the digits of a number, or part its fraction from the rest.
pub open spec fn is_mark(c: char) -> bool {
    c == '.' || c == ','
}

proof fn lemma_no_mark(s: Seq<char>, c: char)
    requires
        text::all_digits(s),
        is_mark(c),
    ensures
        !s.contains(c),
        parse::last_place(s, c) is None,
    decreases s.len(),
{
    assert forall|i: int| 0 <= i < s.len() implies s[i] != c by {
        assert(text::is_digit(s[i]));
    }
    if s.len() > 0 {
        assert forall|i: int| 0 <= i < s.drop_last().len() implies text::is_digit(
            #[trigger] s.drop_last()[i],
        ) by {
            assert(text::is_digit(s[i]));
        }
        lemma_no_mark(s.drop_last(), c);
        assert(s.last() == s[s.len() - 1]);
    }
}

proof fn lemma_last_place(a: Seq<char>, mark: char, b: Seq<char>, c: char)
    requires
        text::all_digits(b),
        is_mark(mark),
        is_mark(c),
    ensures
        mark == c ==> parse::last_place(a.push(mark) + b, c) == Some(a.len() as int),
        mark != c ==> parse::last_place(a.push(mark) + b, c) == parse::last_place(a, c),
    decreases b.len(),
{
    let s = a.push(mark) + b;
    if b.len() == 0 {
        assert(s =~= a.push(mark));
        assert(s.drop_last() =~= a);
    } else {
        assert(text::is_digit(b[b.len() - 1]));
        assert(s.last() == b.last());
        assert(s.drop_last() =~= a.push(mark) + b.drop_last());
        assert forall|i: int| 0 <= i < b.drop_last().len() implies text::is_digit(
            #[trigger] b.drop_last()[i],
        ) by {
            assert(text::is_digit(b[i]));
        }
        lemma_last_place(a, mark, b.drop_last(), c);
    }
}

proof fn lemma_unseparated_digits(s: Seq<char>)
    requires
        text::all_digits(s),
    ensures
        parse::unseparated(s) == s,
    decreases s.len(),
{
    if s.len() > 0 {
        assert forall|i: int| 0 <= i < s.drop_last().len() implies text::is_digit(
            #[trigger] s.drop_last()[i],
        ) by {
            assert(text::is_digit(s[i]));
        }
        lemma_unseparated_digits(s.drop_last());
        assert(text::is_digit(s[s.len() - 1]));
        assert(s.drop_last().push(s.last()) =~= s);
    }
}

proof fn lemma_unseparated(a: Seq<char>, mark: char, b: Seq<char>)
    requires
        is_mark(mark),
        text::all_digits(a),
        text::all_digits(b),
    ensures
        parse::unseparated(a.push(mark) + b) == a + b,
    decreases b.len(),
{
    let s = a.push(mark) + b;
    if b.len() == 0 {
        assert(s =~= a.push(mark));
        assert(s.drop_last() =~= a);
        lemma_unseparated_digits(a);
        assert(a + b =~= a);
    } else {
        assert forall|i: int| 0 <= i < b.drop_last().len() implies text::is_digit(
            #[trigger] b.drop_last()[i],
        ) by {
            assert(text::is_digit(b[i]));
        }
        lemma_unseparated(a, mark, b.drop_last());
        assert(text::is_digit(b[b.len() - 1]));
        assert(s.last() == b.last());
        assert(s.drop_last() =~= a.push(mark) + b.drop_last());
        assert((a + b.drop_last()).push(b.last()) =~= a + b);
    }
}

proof fn lemma_split_once(a: Seq<char>, mark: char, b: Seq<char>)
    requires
        is_mark(mark),
        text::all_digits(a),
        text::all_digits(b),
    ensures
        text::split(a.push(mark) + b, mark) == seq![a, b],
    decreases b.len(),
{
    let s = a.push(mark) + b;
    if b.len() == 0 {
        lemma_no_mark(a, mark);
        text::lemma_split_nothing(a, mark);
        assert(s =~= a.push(mark));
        assert(s.drop_last() =~= a);
        assert(b =~= Seq::<char>::empty());
        assert(seq![a].push(Seq::<char>::empty()) =~= seq![a, b]);
    } else {
        assert forall|i: int| 0 <= i < b.drop_last().len() implies text::is_digit(
            #[trigger] b.drop_last()[i],
        ) by {
            assert(text::is_digit(b[i]));
        }
        lemma_split_once(a, mark, b.drop_last());
        assert(text::is_digit(b[b.len() - 1]));
        assert(s.last() == b.last());
        assert(s.drop_last() =~= a.push(mark) + b.drop_last());
        let rest = seq![a, b.drop_last()];
        assert(b.drop_last().push(b.last()) =~= b);
        assert(rest.drop_last().push(rest.last().push(s.last())) =~= seq![a, b]);
    }
}

proof fn lemma_group(head: Seq<char>, mark: char, group: Seq<char>)
    requires
        is_mark(mark),
        1 <= head.len() <= 3,
        group.len() == 3,
        text::all_digits(head),
        text::all_digits(group),
    ensures
        parse::is_grouped_integer(head.push(mark) + group),
        parse::unseparated(head.push(mark) + group) == head + group,
{
    let s = head.push(mark) + group;
    let other = if mark == '.' {
        ','
    } else {
        '.'
    };
    lemma_split_once(head, mark, group);
    lemma_unseparated(head, mark, group);
    assert(s[head.len() as int] == mark);
    lemma_no_mark(head, other);
    lemma_no_mark(group, other);
    if s.contains(other) {
        let i = choose|i: int| 0 <= i < s.len() && s[i] == other;
        if i < head.len() {
            assert(head[i] == other);
        } else if i > head.len() {
            assert(group[i - head.len() - 1] == other);
        }
    }
    let pieces = seq![head, group];
    assert(pieces[0] == head && pieces[1] == group);
    assert(parse::are_groups(pieces));
}

/// Digits are read as they stand. A mark with one or two digits behind it parts the fraction,
/// whichever of the two marks it is, and no digit is lost.
pub proof fn fractions_are_read(whole: Seq<char>, mark: char, fraction: Seq<char>)
    requires
        whole.len() > 0,
        text::all_digits(whole),
        1 <= fraction.len() <= 2,
        text::all_digits(fraction),
        is_mark(mark),
    ensures
        parse::plain_number(whole) == Some(whole),
        parse::plain_number(whole.push(mark) + fraction) == Some(whole + "."@ + fraction),
{
    let s = whole.push(mark) + fraction;
    lemma_no_mark(whole, '.');
    lemma_no_mark(whole, ',');
    lemma_unseparated_digits(whole);
    lemma_last_place(whole, mark, fraction, '.');
    lemma_last_place(whole, mark, fraction, ',');
    assert(s.take(whole.len() as int) =~= whole);
    assert(s.skip((whole.len() + 1) as int) =~= fraction);
}

/// A mark with three digits behind it groups the digits of a whole number.
pub proof fn thousands_are_grouped(head: Seq<char>, mark: char, group: Seq<char>)
    requires
        1 <= head.len() <= 3,
        text::all_digits(head),
        group.len() == 3,
        text::all_digits(group),
        is_mark(mark),
    ensures
        parse::plain_number(head.push(mark) + group) == Some(head + group),
{
    lemma_no_mark(head, '.');
    lemma_no_mark(head, ',');
    lemma_last_place(head, mark, group, '.');
    lemma_last_place(head, mark, group, ',');
    lemma_group(head, mark, group);
}

/// Where both marks stand in a number, the first groups its digits and the last parts the
/// fraction, whichever is which.
pub proof fn the_last_mark_parts_the_fraction(
    head: Seq<char>,
    mark: char,
    group: Seq<char>,
    other: char,
    fraction: Seq<char>,
)
    requires
        1 <= head.len() <= 3,
        text::all_digits(head),
        group.len() == 3,
        text::all_digits(group),
        fraction.len() > 0,
        text::all_digits(fraction),
        is_mark(mark),
        is_mark(other),
        mark != other,
    ensures
        parse::plain_number((head.push(mark) + group).push(other) + fraction) == Some(
            head + group + "."@ + fraction,
        ),
{
    let whole = head.push(mark) + group;
    let s = whole.push(other) + fraction;
    lemma_no_mark(head, other);
    lemma_last_place(head, mark, group, mark);
    lemma_last_place(whole, other, fraction, mark);
    lemma_last_place(whole, other, fraction, other);
    lemma_group(head, mark, group);
    assert(s.take(whole.len() as int) =~= whole);
    assert(s.skip((whole.len() + 1) as int) =~= fraction);
}

proof fn lemma_compacted(s: Seq<char>)
    ensures
        forall|i: int|
            0 <= i < parse::compacted(s).len() ==> !text::is_white(
                #[trigger] parse::compacted(s)[i],
            ),
    decreases s.len(),
{
    if s.len() > 0 {
        let before = parse::compacted(s.drop_last());
        lemma_compacted(s.drop_last());
        assert forall|i: int| 0 <= i < parse::compacted(s).len() implies !text::is_white(
            #[trigger] parse::compacted(s)[i],
        ) by {
            if i < before.len() {
                assert(parse::compacted(s)[i] == before[i]);
            }
        }
    }
}

proof fn lemma_compact(s: Seq<char>)
    requires
        forall|i: int| 0 <= i < s.len() ==> !text::is_white(#[trigger] s[i]),
    ensures
        parse::compacted(s) == s,
    decreases s.len(),
{
    if s.len() > 0 {
        assert forall|i: int| 0 <= i < s.drop_last().len() implies !text::is_white(
            #[trigger] s.drop_last()[i],
        ) by {
            assert(!text::is_white(s[i]));
        }
        lemma_compact(s.drop_last());
        assert(!text::is_white(s[s.len() - 1]));
        assert(s.drop_last().push(s.last()) =~= s);
    }
}

/// White space in a number changes nothing.
pub proof fn white_space_in_numbers_is_ignored(s: Seq<char>, t: Seq<char>)
    requires
        parse::compacted(s) == parse::compacted(t),
    ensures
        parse::localized(s) == parse::localized(t),
        parse::localized(s) == parse::localized(parse::compacted(s)),
{
    lemma_compacted(s);
    lemma_compact(parse::compacted(s));
}

/// A minus stays before the number, and a plus falls away.
pub proof fn signs_are_read(body: Seq<char>)
    requires
        forall|i: int| 0 <= i < body.len() ==> !text::is_white(#[trigger] body[i]),
        pattern::pattern_occurs(parse::number_pattern(), "-"@ + body),
        pattern::pattern_occurs(parse::number_pattern(), "+"@ + body),
    ensures
        parse::localized("+"@ + body) == parse::plain_number(body),
        parse::plain_number(body) is None ==> parse::localized("-"@ + body) is None,
        parse::plain_number(body) matches Some(t) ==> parse::localized("-"@ + body) == Some(
            "-"@ + t,
        ),
{
    reveal_strlit("-");
    reveal_strlit("+");
    let (minus, plus) = ("-"@ + body, "+"@ + body);
    assert forall|i: int| 0 <= i < minus.len() implies !text::is_white(#[trigger] minus[i]) by {
        if i > 0 {
            assert(minus[i] == body[i - 1]);
        }
    }
    assert forall|i: int| 0 <= i < plus.len() implies !text::is_white(#[trigger] plus[i]) by {
        if i > 0 {
            assert(plus[i] == body[i - 1]);
        }
    }
    lemma_compact(minus);
    lemma_compact(plus);
    assert(minus.skip(1) =~= body);
    assert(plus.skip(1) =~= body);
}

/// The word behind a count multiplies it: by a thousand or by a million, and by nothing else.
pub proof fn words_multiply_counts(suffix: Seq<char>)
    ensures
        ({
            let s = parse::lowered(suffix);
            let n = parse::multiplier_of(suffix);
            &&& n == 1 || n == 1_000 || n == 1_000_000
            &&& s == "k"@ || text::starts(s, "тыс"@) ==> n == 1_000
            &&& s == "m"@ ==> n == 1_000_000
            &&& n == 1_000 ==> s == "k"@ || text::starts(s, "тыс"@)
            &&& s.len() == 0 ==> n == 1
        }),
{
    reveal_strlit("k");
    reveal_strlit("m");
    reveal_strlit("тыс");
    reveal_strlit("млн");
    reveal_strlit("миллион");
    assert("k"@.len() == 1 && "m"@.len() == 1);
    assert("k"@[0] == 'k' && "m"@[0] == 'm');
    assert("тыс"@.len() == 3 && "млн"@.len() == 3 && "миллион"@.len() == 7);
}

/// A text that is no count, and a value that is neither a text nor a number, counts nothing.
pub proof fn other_values_count_nothing(v: JsonV)
    ensures
        !(v is Number) && !(v is Text) ==> parse::count_in(Some(v)) is None,
        parse::count_in(None) is None,
        v is Text && pattern::first_match(parse::count_pattern(), v->Text_0) is None
            ==> parse::count_in(Some(v)) is None,
{
}

} // verus!
