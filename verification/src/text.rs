//! Plain text: the string operations that the rules of the library are stated with.

use vstd::prelude::*;

verus! {

/// The characters with Unicode's `White_Space` property.
pub open spec fn is_white(c: char) -> bool {
    ||| '\u{9}' <= c <= '\u{d}'
    ||| c == ' '
    ||| c == '\u{85}'
    ||| c == '\u{a0}'
    ||| c == '\u{1680}'
    ||| '\u{2000}' <= c <= '\u{200a}'
    ||| c == '\u{2028}'
    ||| c == '\u{2029}'
    ||| c == '\u{202f}'
    ||| c == '\u{205f}'
    ||| c == '\u{3000}'
}

pub open spec fn is_digit(c: char) -> bool {
    '0' <= c <= '9'
}

/// The control characters: general category `Cc`.
pub open spec fn is_control(c: char) -> bool {
    c <= '\u{1f}' || '\u{7f}' <= c <= '\u{9f}'
}

pub open spec fn is_ascii_letter(c: char) -> bool {
    'a' <= c <= 'z' || 'A' <= c <= 'Z'
}

pub open spec fn lower(c: char) -> char {
    if 'A' <= c <= 'Z' {
        ((c as u32) + 32) as char
    } else {
        c
    }
}

pub open spec fn lowercase(s: Seq<char>) -> Seq<char> {
    Seq::new(s.len(), |i: int| lower(s[i]))
}

pub open spec fn all_digits(s: Seq<char>) -> bool {
    forall|i: int| 0 <= i < s.len() ==> is_digit(#[trigger] s[i])
}

/// Text without the white space that stands before its first other character.
pub open spec fn trim_start(s: Seq<char>) -> Seq<char>
    decreases s.len(),
{
    if s.len() > 0 && is_white(s[0]) {
        trim_start(s.subrange(1, s.len() as int))
    } else {
        s
    }
}

/// Text without the white space that stands behind its last other character.
pub open spec fn trim_end(s: Seq<char>) -> Seq<char>
    decreases s.len(),
{
    if s.len() > 0 && is_white(s.last()) {
        trim_end(s.drop_last())
    } else {
        s
    }
}

pub open spec fn trimmed(s: Seq<char>) -> Seq<char> {
    trim_end(trim_start(s))
}

/// The number of UTF-16 code units.
pub open spec fn utf16_len(s: Seq<char>) -> nat
    decreases s.len(),
{
    if s.len() == 0 {
        0
    } else {
        utf16_len(s.drop_last()) + if s.last() as u32 >= 0x10000 {
            2nat
        } else {
            1nat
        }
    }
}

/// The number of UTF-8 bytes.
pub open spec fn utf8_len(s: Seq<char>) -> nat {
    vstd::utf8::encode_utf8(s).len()
}

pub open spec fn occurs_at(s: Seq<char>, needle: Seq<char>, i: int) -> bool {
    0 <= i && i + needle.len() <= s.len() && s.subrange(i, i + needle.len()) == needle
}

/// The first place at or behind `from` where `needle` stands.
pub open spec fn find_from(s: Seq<char>, needle: Seq<char>, from: int) -> Option<int>
    decreases s.len() + 1 - from,
{
    if from < 0 || from + needle.len() > s.len() {
        None
    } else if occurs_at(s, needle, from) {
        Some(from)
    } else {
        find_from(s, needle, from + 1)
    }
}

pub open spec fn has(s: Seq<char>, needle: Seq<char>) -> bool {
    find_from(s, needle, 0) is Some
}

pub open spec fn starts(s: Seq<char>, prefix: Seq<char>) -> bool {
    occurs_at(s, prefix, 0)
}

pub open spec fn ends(s: Seq<char>, suffix: Seq<char>) -> bool {
    occurs_at(s, suffix, s.len() - suffix.len())
}

pub open spec fn is_ascii(s: Seq<char>) -> bool {
    forall|i: int| 0 <= i < s.len() ==> #[trigger] s[i] <= '\u{7f}'
}

/// The pieces between the occurrences of a character; never empty.
pub open spec fn split(s: Seq<char>, c: char) -> Seq<Seq<char>>
    decreases s.len(),
{
    if s.len() == 0 {
        seq![Seq::<char>::empty()]
    } else {
        let rest = split(s.drop_last(), c);
        if s.last() == c {
            rest.push(Seq::<char>::empty())
        } else {
            rest.drop_last().push(rest.last().push(s.last()))
        }
    }
}

/// The decimal spelling of a number.
pub open spec fn decimal(n: nat) -> Seq<char>
    decreases n,
{
    if n < 10 {
        seq![digit(n)]
    } else {
        decimal(n / 10).push(digit(n % 10))
    }
}

pub open spec fn digit(n: nat) -> char {
    (48 + n) as char
}

/// The number that a row of decimal digits spells.
pub open spec fn digits_value(s: Seq<char>) -> nat
    decreases s.len(),
{
    if s.len() == 0 {
        0
    } else {
        digits_value(s.drop_last()) * 10 + ((s.last() as u32 - 48) as nat)
    }
}

/// Character order: the order of `str`, which compares code points.
pub open spec fn before(a: Seq<char>, b: Seq<char>) -> bool
    decreases a.len(),
{
    if b.len() == 0 {
        false
    } else if a.len() == 0 {
        true
    } else if a[0] == b[0] {
        before(a.subrange(1, a.len() as int), b.subrange(1, b.len() as int))
    } else {
        a[0] < b[0]
    }
}

/// `String::from_iter`: the string made of these characters.
#[verifier::external_body]
pub(crate) fn string_of(chars: &[char]) -> (r: String)
    ensures
        r@ == chars@,
{
    String::from_iter(chars)
}

pub fn chars_of(s: &str) -> (r: Vec<char>)
    ensures
        r@ == s@,
{
    let mut r: Vec<char> = Vec::new();
    for c in it: s.chars()
        invariant
            it.seq() == s@,
            r@ == s@.take(it.index()),
    {
        r.push(c);
    }
    r
}

pub fn same(a: &str, b: &str) -> (r: bool)
    ensures
        r == (a@ == b@),
{
    a.to_owned() == b.to_owned()
}

pub fn is_white_space(c: char) -> (r: bool)
    ensures
        r == is_white(c),
{
    ('\u{9}' <= c && c <= '\u{d}') || c == ' ' || c == '\u{85}' || c == '\u{a0}' || c == '\u{1680}'
        || ('\u{2000}' <= c && c <= '\u{200a}') || c == '\u{2028}' || c == '\u{2029}' || c
        == '\u{202f}' || c == '\u{205f}' || c == '\u{3000}'
}

/// The texts of a row of strings.
pub open spec fn texts(v: Seq<String>) -> Seq<Seq<char>> {
    v.map_values(|s: String| s@)
}

/// What is found stands where it is found.
pub proof fn lemma_found(s: Seq<char>, needle: Seq<char>, from: int)
    ensures
        find_from(s, needle, from) matches Some(i) ==> occurs_at(s, needle, i),
    decreases s.len() + 1 - from,
{
    if 0 <= from && from + needle.len() <= s.len() && !occurs_at(s, needle, from) {
        lemma_found(s, needle, from + 1);
    }
}

/// A text without the character is one piece.
pub proof fn lemma_split_nothing(s: Seq<char>, c: char)
    requires
        !s.contains(c),
    ensures
        split(s, c) == seq![s],
    decreases s.len(),
{
    if s.len() == 0 {
        assert(s =~= Seq::<char>::empty());
    } else {
        let before = s.drop_last();
        assert forall|i: int| 0 <= i < before.len() implies before[i] != c by {
            assert(s.contains(s[i]));
        }
        lemma_split_nothing(before, c);
        assert(s.contains(s.last()));
        assert(before.push(s.last()) =~= s);
        assert(split(s, c) =~= seq![s]);
    }
}

pub proof fn lemma_texts_push(v: Seq<String>, s: String)
    ensures
        texts(v.push(s)) == texts(v).push(s@),
{
    assert(texts(v.push(s)) =~= texts(v).push(s@));
}

pub fn is_control_char(c: char) -> (r: bool)
    ensures
        r == is_control(c),
{
    c <= '\u{1f}' || ('\u{7f}' <= c && c <= '\u{9f}')
}

pub fn is_digit_char(c: char) -> (r: bool)
    ensures
        r == is_digit(c),
{
    '0' <= c && c <= '9'
}

pub fn only_digits(s: &str) -> (r: bool)
    ensures
        r == all_digits(s@),
{
    for c in it: s.chars()
        invariant
            it.seq() == s@,
            all_digits(s@.take(it.index())),
    {
        if !is_digit_char(c) {
            assert(!is_digit(s@[it.index()]));
            return false;
        }
        assert(s@.take(it.index() + 1) =~= s@.take(it.index()).push(c));
    }
    assert(s@.take(s@.len() as int) =~= s@);
    true
}

pub fn trim(s: &str) -> (r: String)
    ensures
        r@ == trimmed(s@),
{
    let v: Vec<char> = chars_of(s);
    let mut i: usize = 0;
    assert(v@.subrange(0, v@.len() as int) =~= v@);
    while i < v.len() && is_white_space(v[i])
        invariant
            0 <= i <= v@.len(),
            trim_start(v@) == trim_start(v@.subrange(i as int, v@.len() as int)),
        decreases v@.len() - i,
    {
        assert(v@.subrange(i as int, v@.len() as int).subrange(1, v@.len() - i) =~= v@.subrange(
            i + 1,
            v@.len() as int,
        ));
        i = i + 1;
    }
    let mut j: usize = v.len();
    assert(trim_start(v@) == v@.subrange(i as int, v@.len() as int));
    while i < j && is_white_space(v[j - 1])
        invariant
            0 <= i <= j <= v@.len(),
            trimmed(v@) == trim_end(v@.subrange(i as int, j as int)),
        decreases j,
    {
        assert(v@.subrange(i as int, j as int).drop_last() =~= v@.subrange(i as int, j - 1));
        j = j - 1;
    }
    substring(&v, i, j)
}

/// The characters of `v` from `i` up to `j`, as a string.
pub fn substring(v: &Vec<char>, i: usize, j: usize) -> (r: String)
    requires
        i <= j <= v@.len(),
    ensures
        r@ == v@.subrange(i as int, j as int),
{
    let mut part: Vec<char> = Vec::new();
    let mut k: usize = i;
    while k < j
        invariant
            i <= k <= j <= v@.len(),
            part@ == v@.subrange(i as int, k as int),
        decreases j - k,
    {
        part.push(v[k]);
        k = k + 1;
    }
    string_of(part.as_slice())
}

fn occurs(v: &Vec<char>, needle: &Vec<char>, i: usize) -> (r: bool)
    ensures
        r == occurs_at(v@, needle@, i as int),
{
    if needle.len() > v.len() || i > v.len() - needle.len() {
        return false;
    }
    let mut k: usize = 0;
    while k < needle.len()
        invariant
            0 <= k <= needle@.len(),
            i + needle@.len() <= v@.len() <= usize::MAX,
            forall|m: int| 0 <= m < k ==> v@[i + m] == needle@[m],
        decreases needle@.len() - k,
    {
        if v[i + k] != needle[k] {
            assert(v@.subrange(i as int, i + needle@.len())[k as int] != needle@[k as int]);
            return false;
        }
        k = k + 1;
    }
    assert(v@.subrange(i as int, i + needle@.len()) =~= needle@);
    true
}

/// The first place at or behind `from` where `needle` stands.
pub fn find(v: &Vec<char>, needle: &Vec<char>, from: usize) -> (r: Option<usize>)
    ensures
        match r {
            Some(i) => find_from(v@, needle@, from as int) == Some(i as int),
            None => find_from(v@, needle@, from as int) is None,
        },
        r matches Some(i) ==> from <= i && i + needle@.len() <= v@.len(),
{
    let mut i: usize = from;
    while needle.len() <= v.len() && i <= v.len() - needle.len()
        invariant
            from <= i,
            find_from(v@, needle@, from as int) == find_from(v@, needle@, i as int),
        decreases v@.len() + 1 - i,
    {
        if occurs(v, needle, i) {
            return Some(i);
        }
        if i == v.len() {
            assert(find_from(v@, needle@, i + 1) is None);
            return None;
        }
        i = i + 1;
    }
    None
}

pub fn contains(s: &str, needle: &str) -> (r: bool)
    ensures
        r == has(s@, needle@),
{
    find(&chars_of(s), &chars_of(needle), 0).is_some()
}

pub fn starts_with(s: &str, prefix: &str) -> (r: bool)
    ensures
        r == starts(s@, prefix@),
{
    occurs(&chars_of(s), &chars_of(prefix), 0)
}

pub fn ends_with(s: &str, suffix: &str) -> (r: bool)
    ensures
        r == ends(s@, suffix@),
{
    let v: Vec<char> = chars_of(s);
    let w: Vec<char> = chars_of(suffix);
    if w.len() > v.len() {
        return false;
    }
    occurs(&v, &w, v.len() - w.len())
}

/// The text behind a prefix.
pub open spec fn without_prefix(s: Seq<char>, prefix: Seq<char>) -> Option<Seq<char>> {
    if starts(s, prefix) {
        Some(s.subrange(prefix.len() as int, s.len() as int))
    } else {
        None
    }
}

/// The text before a suffix.
pub open spec fn without_suffix(s: Seq<char>, suffix: Seq<char>) -> Option<Seq<char>> {
    if ends(s, suffix) {
        Some(s.subrange(0, s.len() - suffix.len()))
    } else {
        None
    }
}

pub open spec fn text_of(o: Option<String>) -> Option<Seq<char>> {
    match o {
        Some(s) => Some(s@),
        None => None,
    }
}

pub fn strip_prefix(s: &str, prefix: &str) -> (r: Option<String>)
    ensures
        text_of(r) == without_prefix(s@, prefix@),
{
    let v: Vec<char> = chars_of(s);
    let w: Vec<char> = chars_of(prefix);
    if occurs(&v, &w, 0) {
        Some(substring(&v, w.len(), v.len()))
    } else {
        None
    }
}

pub fn strip_suffix(s: &str, suffix: &str) -> (r: Option<String>)
    ensures
        text_of(r) == without_suffix(s@, suffix@),
{
    let v: Vec<char> = chars_of(s);
    let w: Vec<char> = chars_of(suffix);
    if w.len() <= v.len() && occurs(&v, &w, v.len() - w.len()) {
        Some(substring(&v, 0, v.len() - w.len()))
    } else {
        None
    }
}

/// The pieces of a text between the occurrences of a character.
pub fn split_at_char(s: &str, c: char) -> (r: Vec<String>)
    ensures
        texts(r@) == split(s@, c),
        r@.len() > 0,
{
    let mut done: Vec<String> = Vec::new();
    let mut piece: Vec<char> = Vec::new();
    for x in it: s.chars()
        invariant
            it.seq() == s@,
            split(s@.take(it.index()), c) == texts(done@).push(piece@),
    {
        let ghost before = s@.take(it.index());
        assert(s@.take(it.index() + 1) =~= before.push(x));
        assert(before.push(x).drop_last() =~= before);
        if x == c {
            let whole: String = string_of(piece.as_slice());
            proof {
                lemma_texts_push(done@, whole);
            }
            done.push(whole);
            piece = Vec::new();
        } else {
            assert(texts(done@).push(piece@).drop_last() =~= texts(done@));
            piece.push(x);
        }
    }
    assert(s@.take(s@.len() as int) =~= s@);
    let whole: String = string_of(piece.as_slice());
    proof {
        lemma_texts_push(done@, whole);
    }
    done.push(whole);
    done
}

pub fn utf16_length(s: &str) -> (r: u128)
    ensures
        r == utf16_len(s@),
{
    let v: Vec<char> = chars_of(s);
    let mut n: u128 = 0;
    let mut i: usize = 0;
    assert(v@.take(0) =~= Seq::empty());
    while i < v.len()
        invariant
            0 <= i <= v@.len(),
            n == utf16_len(v@.take(i as int)),
            n <= 2 * i,
        decreases v@.len() - i,
    {
        assert(v@.take(i + 1).drop_last() =~= v@.take(i as int));
        n = n + if v[i] as u32 >= 0x10000 {
            2
        } else {
            1
        };
        i = i + 1;
    }
    assert(v@.take(i as int) =~= v@);
    n
}

pub fn utf8_length(s: &str) -> (r: usize)
    ensures
        r == utf8_len(s@),
{
    s.as_bytes().len()
}

/// The decimal spelling of a number.
pub fn decimal_text(n: u64) -> (r: String)
    ensures
        r@ == decimal(n as nat),
{
    let v: Vec<char> = decimal_chars(n);
    string_of(v.as_slice())
}

fn decimal_chars(n: u64) -> (r: Vec<char>)
    ensures
        r@ == decimal(n as nat),
    decreases n,
{
    if n < 10 {
        let mut r: Vec<char> = Vec::new();
        r.push(digit_char(n as u8));
        r
    } else {
        let mut r: Vec<char> = decimal_chars(n / 10);
        r.push(digit_char((n % 10) as u8));
        r
    }
}

pub fn digit_char(n: u8) -> (r: char)
    requires
        n < 10,
    ensures
        r == digit(n as nat),
{
    (48 + n) as char
}

/// The number that text spells: digits, at most one `+` before them, in range.
pub open spec fn parsed_u64(s: Seq<char>) -> Option<u64> {
    let d = if s.len() > 0 && s[0] == '+' {
        s.subrange(1, s.len() as int)
    } else {
        s
    };
    if d.len() > 0 && all_digits(d) && digits_value(d) <= u64::MAX {
        Some(digits_value(d) as u64)
    } else {
        None
    }
}

proof fn lemma_digits_value_grows(s: Seq<char>, k: int)
    requires
        0 <= k <= s.len(),
    ensures
        digits_value(s.take(k)) <= digits_value(s),
    decreases s.len() - k,
{
    if k < s.len() {
        lemma_digits_value_grows(s, k + 1);
        assert(s.take(k + 1).drop_last() =~= s.take(k));
    } else {
        assert(s.take(k) =~= s);
    }
}

pub fn parse_u64(s: &str) -> (r: Option<u64>)
    ensures
        r == parsed_u64(s@),
{
    let v: Vec<char> = chars_of(s);
    let start: usize = if v.len() > 0 && v[0] == '+' {
        1
    } else {
        0
    };
    let ghost d = v@.subrange(start as int, v@.len() as int);
    assert(start == 0 ==> d =~= v@);
    if v.len() == start {
        return None;
    }
    let mut n: u64 = 0;
    let mut i: usize = start;
    while i < v.len()
        invariant
            start <= i <= v@.len(),
            v@ == s@,
            d == v@.subrange(start as int, v@.len() as int),
            d.len() > 0,
            parsed_u64(v@) == (if all_digits(d) && digits_value(d) <= u64::MAX {
                Some(digits_value(d) as u64)
            } else {
                None
            }),
            all_digits(d.take(i - start)),
            n == digits_value(d.take(i - start)),
        decreases v@.len() - i,
    {
        let c: char = v[i];
        assert(d[i - start] == c);
        if !is_digit_char(c) {
            return None;
        }
        let next: u128 = (n as u128) * 10 + (c as u32 - 48) as u128;
        assert(d.take(i - start + 1).drop_last() =~= d.take(i - start));
        assert(next == digits_value(d.take(i - start + 1)));
        if next > u64::MAX as u128 {
            proof {
                lemma_digits_value_grows(d, i - start + 1);
            }
            return None;
        }
        n = next as u64;
        assert(d.take(i - start + 1) =~= d.take(i - start).push(c));
        i = i + 1;
    }
    assert(d.take(i - start) =~= d);
    Some(n)
}

/// The first `n` characters of a text.
pub open spec fn first(s: Seq<char>, n: int) -> Seq<char> {
    if s.len() <= n {
        s
    } else {
        s.take(n)
    }
}

pub fn first_chars(s: &str, n: usize) -> (r: String)
    ensures
        r@ == first(s@, n as int),
{
    let v: Vec<char> = chars_of(s);
    if v.len() <= n {
        s.to_owned()
    } else {
        substring(&v, 0, n)
    }
}

pub fn to_ascii_lowercase(s: &str) -> (r: String)
    ensures
        r@ == lowercase(s@),
{
    let mut out: Vec<char> = Vec::new();
    for c in it: s.chars()
        invariant
            it.seq() == s@,
            out@ == lowercase(s@).take(it.index()),
    {
        let l: char = if 'A' <= c && c <= 'Z' {
            ((c as u8) + 32) as char
        } else {
            c
        };
        assert(l == lower(c));
        out.push(l);
    }
    assert(lowercase(s@).take(s@.len() as int) =~= lowercase(s@));
    string_of(out.as_slice())
}

/// Two texts, one behind the other.
pub fn joined(a: &str, b: &str) -> (r: String)
    ensures
        r@ == a@ + b@,
{
    let mut r: String = a.to_owned();
    r.append(b);
    r
}

/// Three texts in a row.
pub fn joined3(a: &str, b: &str, c: &str) -> (r: String)
    ensures
        r@ == a@ + b@ + c@,
{
    let mut r: String = a.to_owned();
    r.append(b);
    r.append(c);
    r
}

pub fn contains_text(v: &Vec<String>, s: &str) -> (r: bool)
    ensures
        r == texts(v@).contains(s@),
{
    let mut i: usize = 0;
    while i < v.len()
        invariant
            0 <= i <= v@.len(),
            forall|k: int| 0 <= k < i ==> v@[k]@ != s@,
        decreases v@.len() - i,
    {
        if same(v[i].as_str(), s) {
            assert(texts(v@)[i as int] == s@);
            return true;
        }
        i = i + 1;
    }
    assert(!texts(v@).contains(s@));
    false
}

/// Whether one text stands before another in character order.
pub fn precedes(a: &str, b: &str) -> (r: bool)
    ensures
        r == before(a@, b@),
{
    let v: Vec<char> = chars_of(a);
    let w: Vec<char> = chars_of(b);
    let mut i: usize = 0;
    assert(v@.skip(0) =~= v@);
    assert(w@.skip(0) =~= w@);
    while i < v.len() && i < w.len() && v[i] == w[i]
        invariant
            0 <= i <= v@.len(),
            i <= w@.len(),
            before(v@, w@) == before(v@.skip(i as int), w@.skip(i as int)),
        decreases v@.len() - i,
    {
        assert(v@.skip(i as int).subrange(1, v@.len() - i) =~= v@.skip(i + 1));
        assert(w@.skip(i as int).subrange(1, w@.len() - i) =~= w@.skip(i + 1));
        i = i + 1;
    }
    if i < v.len() && i < w.len() {
        assert(v@.skip(i as int)[0] == v@[i as int]);
        assert(w@.skip(i as int)[0] == w@[i as int]);
        v[i] < w[i]
    } else {
        i < w.len()
    }
}

pub proof fn lemma_utf16_bounds(s: Seq<char>)
    ensures
        s.len() <= utf16_len(s) <= 2 * s.len(),
    decreases s.len(),
{
    if s.len() > 0 {
        lemma_utf16_bounds(s.drop_last());
    }
}

/// UTF-8 takes at most four bytes for a character.
pub proof fn lemma_utf8_bound(s: Seq<char>)
    ensures
        utf8_len(s) <= 4 * s.len(),
    decreases s.len(),
{
    if s.len() > 0 {
        lemma_utf8_bound(s.drop_first());
    }
}

/// Whether a text has at most `n` UTF-16 code units.
pub fn utf16_at_most(s: &str, n: u32) -> (r: bool)
    ensures
        r == (utf16_len(s@) <= n),
{
    utf16_length(s) <= n as u128
}

/// Text without the slashes at its end.
pub open spec fn without_slashes(s: Seq<char>) -> Seq<char>
    decreases s.len(),
{
    if s.len() > 0 && s.last() == '/' {
        without_slashes(s.drop_last())
    } else {
        s
    }
}

/// A text without the slashes behind it has no more units than the text.
pub proof fn lemma_utf16_without_slashes(s: Seq<char>)
    ensures
        utf16_len(without_slashes(s)) <= utf16_len(s),
    decreases s.len(),
{
    if s.len() > 0 && s.last() == '/' {
        lemma_utf16_without_slashes(s.drop_last());
    }
}

/// The place of the last slash.
pub open spec fn last_slash(s: Seq<char>) -> Option<int>
    decreases s.len(),
{
    if s.len() == 0 {
        None
    } else if s.last() == '/' {
        Some(s.len() - 1)
    } else {
        last_slash(s.drop_last())
    }
}

pub fn trim_slashes(s: &str) -> (r: Vec<char>)
    ensures
        r@ == without_slashes(s@),
{
    let mut v: Vec<char> = chars_of(s);
    while v.len() > 0 && v[v.len() - 1] == '/'
        invariant
            without_slashes(v@) == without_slashes(s@),
        decreases v@.len(),
    {
        v.pop();
    }
    v
}

pub fn find_last_slash(v: &Vec<char>) -> (r: Option<usize>)
    ensures
        match r {
            Some(i) => last_slash(v@) == Some(i as int) && i < v@.len(),
            None => last_slash(v@) is None,
        },
{
    let mut n: usize = v.len();
    assert(v@.take(n as int) =~= v@);
    while n > 0
        invariant
            0 <= n <= v@.len(),
            last_slash(v@) == last_slash(v@.take(n as int)),
        decreases n,
    {
        assert(v@.take(n as int).drop_last() =~= v@.take(n - 1));
        if v[n - 1] == '/' {
            return Some(n - 1);
        }
        n = n - 1;
    }
    None
}

/// The texts before and behind the first occurrence of a character.
pub open spec fn cut(s: Seq<char>, c: char) -> Option<(Seq<char>, Seq<char>)> {
    match find_from(s, seq![c], 0) {
        Some(i) => Some((s.take(i), s.skip(i + 1))),
        None => None,
    }
}

pub open spec fn cut_of(o: Option<(String, String)>) -> Option<(Seq<char>, Seq<char>)> {
    match o {
        Some((a, b)) => Some((a@, b@)),
        None => None,
    }
}

pub fn split_once(s: &str, c: char) -> (r: Option<(String, String)>)
    ensures
        cut_of(r) == cut(s@, c),
{
    let v: Vec<char> = chars_of(s);
    let mut needle: Vec<char> = Vec::new();
    needle.push(c);
    assert(needle@ =~= seq![c]);
    match find(&v, &needle, 0) {
        Some(i) => {
            let end: usize = v.len();
            let before: String = substring(&v, 0, i);
            let behind: String = substring(&v, i + 1, end);
            assert(before@ =~= s@.take(i as int));
            assert(behind@ =~= s@.skip(i + 1));
            Some((before, behind))
        },
        None => None,
    }
}

/// Texts one behind the other, with a separator between them.
pub open spec fn join(v: Seq<Seq<char>>, separator: Seq<char>) -> Seq<char>
    decreases v.len(),
{
    if v.len() == 0 {
        Seq::empty()
    } else if v.len() == 1 {
        v[0]
    } else {
        join(v.drop_last(), separator) + separator + v.last()
    }
}

/// Texts one behind the other, with a separator between them.
pub fn join_texts(v: &Vec<String>, separator: &str) -> (r: String)
    ensures
        r@ == join(texts(v@), separator@),
{
    let ghost all = texts(v@);
    let mut out: String = String::new();
    let mut i: usize = 0;
    assert(all.take(0) =~= Seq::empty());
    while i < v.len()
        invariant
            0 <= i <= v@.len(),
            all == texts(v@),
            out@ == join(all.take(i as int), separator@),
        decreases v@.len() - i,
    {
        assert(all.take(i + 1).drop_last() =~= all.take(i as int));
        assert(all.take(i + 1).last() == v@[i as int]@);
        if i > 0 {
            out.append(separator);
        }
        out.append(v[i].as_str());
        assert(i == 0 ==> Seq::<char>::empty() + v@[0]@ =~= v@[0]@);
        i = i + 1;
    }
    assert(all.take(i as int) =~= all);
    out
}

/// The pieces of a text between its white space characters.
pub open spec fn white_pieces(s: Seq<char>) -> Seq<Seq<char>>
    decreases s.len(),
{
    if s.len() == 0 {
        seq![Seq::<char>::empty()]
    } else {
        let rest = white_pieces(s.drop_last());
        if is_white(s.last()) {
            rest.push(Seq::<char>::empty())
        } else {
            rest.drop_last().push(rest.last().push(s.last()))
        }
    }
}

/// The texts that are not empty.
pub open spec fn nonempty(v: Seq<Seq<char>>) -> Seq<Seq<char>>
    decreases v.len(),
{
    if v.len() == 0 {
        v
    } else if v.last().len() == 0 {
        nonempty(v.drop_last())
    } else {
        nonempty(v.drop_last()).push(v.last())
    }
}

/// The words of a text, with one space between them.
pub open spec fn squeezed(s: Seq<char>) -> Seq<char> {
    join(nonempty(white_pieces(s)), " "@)
}

/// The words of a text, with one space between them.
pub fn squeeze(s: &str) -> (r: String)
    ensures
        r@ == squeezed(s@),
{
    let mut words: Vec<String> = Vec::new();
    let mut piece: Vec<char> = Vec::new();
    let ghost mut done: Seq<Seq<char>> = Seq::empty();
    assert(s@.take(0) =~= Seq::empty());
    assert(texts(words@) =~= Seq::empty());
    for c in it: s.chars()
        invariant
            it.seq() == s@,
            white_pieces(s@.take(it.index())) =~= done.push(piece@),
            texts(words@) == nonempty(done),
    {
        let ghost before = s@.take(it.index());
        assert(s@.take(it.index() + 1).drop_last() =~= before);
        assert(s@.take(it.index() + 1).last() == c);
        if is_white_space(c) {
            assert(done.push(piece@).drop_last() =~= done);
            if piece.len() > 0 {
                let word: String = string_of(piece.as_slice());
                proof {
                    lemma_texts_push(words@, word);
                }
                words.push(word);
            }
            proof {
                done = done.push(piece@);
            }
            piece = Vec::new();
            assert(piece@ =~= Seq::empty());
        } else {
            assert(done.push(piece@).drop_last() =~= done);
            piece.push(c);
        }
    }
    assert(s@.take(s@.len() as int) =~= s@);
    assert(done.push(piece@).drop_last() =~= done);
    if piece.len() > 0 {
        let word: String = string_of(piece.as_slice());
        proof {
            lemma_texts_push(words@, word);
        }
        words.push(word);
    }
    join_texts(&words, " ")
}

/// Texts with others behind them, those that are not there yet.
pub open spec fn united(a: Seq<Seq<char>>, b: Seq<Seq<char>>) -> Seq<Seq<char>>
    decreases b.len(),
{
    if b.len() == 0 {
        a
    } else {
        let rest = united(a, b.drop_last());
        if rest.contains(b.last()) {
            rest
        } else {
            rest.push(b.last())
        }
    }
}

pub proof fn lemma_united_push(a: Seq<Seq<char>>, b: Seq<Seq<char>>, x: Seq<char>)
    ensures
        united(a, b.push(x)) == (if united(a, b).contains(x) {
            united(a, b)
        } else {
            united(a, b).push(x)
        }),
{
    assert(b.push(x).drop_last() =~= b);
}

/// The texts of a row, each once, in the order of their first places.
pub open spec fn distinct(v: Seq<Seq<char>>) -> Seq<Seq<char>> {
    united(Seq::empty(), v)
}

/// Adds a text behind others, unless it is there.
pub fn push_new(v: &mut Vec<String>, s: String)
    ensures
        texts(final(v)@) == (if texts(old(v)@).contains(s@) {
            texts(old(v)@)
        } else {
            texts(old(v)@).push(s@)
        }),
{
    if !contains_text(v, s.as_str()) {
        proof {
            lemma_texts_push(v@, s);
        }
        v.push(s);
    }
}

/// The texts of a row, each once, in the order of their first places.
pub fn without_repeats(v: &Vec<String>) -> (r: Vec<String>)
    ensures
        texts(r@) == distinct(texts(v@)),
{
    let ghost all = texts(v@);
    let mut out: Vec<String> = Vec::new();
    let mut i: usize = 0;
    assert(texts(out@) =~= Seq::empty());
    assert(all.take(0) =~= Seq::empty());
    while i < v.len()
        invariant
            0 <= i <= v@.len(),
            all == texts(v@),
            texts(out@) == distinct(all.take(i as int)),
        decreases v@.len() - i,
    {
        assert(all.take(i + 1) =~= all.take(i as int).push(v@[i as int]@));
        proof {
            lemma_united_push(Seq::empty(), all.take(i as int), v@[i as int]@);
        }
        push_new(&mut out, v[i].clone());
        i = i + 1;
    }
    assert(all.take(i as int) =~= all);
    out
}

/// The number that hexadecimal digits spell, where it fits 32 bits.
pub open spec fn hex_digit(c: char) -> Option<nat> {
    if is_digit(c) {
        Some((c as u32 - 48) as nat)
    } else if 'a' <= c <= 'f' {
        Some((c as u32 - 87) as nat)
    } else if 'A' <= c <= 'F' {
        Some((c as u32 - 55) as nat)
    } else {
        None
    }
}

/// The UTF-16 code units of what the byte of an escape starts: none where it goes on with a
/// character that another one starts.
pub open spec fn started_units(byte: nat) -> nat {
    if 0x80 <= byte < 0xc0 {
        0
    } else if byte >= 0xf0 {
        2
    } else {
        1
    }
}

/// Whether an escape starts a text: a percent sign and two hexadecimal digits.
pub open spec fn starts_escape(s: Seq<char>) -> bool {
    s.len() >= 3 && s[0] == '%' && hex_digit(s[1]) is Some && hex_digit(s[2]) is Some
}

/// The number of UTF-16 code units of a text once its escapes are undone.
pub open spec fn unescaped_units(s: Seq<char>) -> nat
    decreases s.len(),
{
    if s.len() == 0 {
        0
    } else if starts_escape(s) {
        started_units(16 * hex_digit(s[1])->Some_0 + hex_digit(s[2])->Some_0) + unescaped_units(
            s.skip(3),
        )
    } else {
        utf16_len(seq![s[0]]) + unescaped_units(s.skip(1))
    }
}

/// The units of a text are those of its parts.
pub proof fn lemma_utf16_sum(a: Seq<char>, b: Seq<char>)
    ensures
        utf16_len(a + b) == utf16_len(a) + utf16_len(b),
    decreases b.len(),
{
    if b.len() == 0 {
        assert(a + b =~= a);
    } else {
        lemma_utf16_sum(a, b.drop_last());
        assert((a + b).drop_last() =~= a + b.drop_last());
        assert((a + b).last() == b.last());
    }
}

/// A part of a text has no more units than the text.
pub proof fn lemma_utf16_part(s: Seq<char>, start: int, end: int)
    requires
        0 <= start <= end <= s.len(),
    ensures
        utf16_len(s.subrange(start, end)) <= utf16_len(s),
{
    let middle = s.subrange(start, end);
    lemma_utf16_sum(s.take(start), middle);
    lemma_utf16_sum(s.take(start) + middle, s.skip(end));
    assert(s.take(start) + middle + s.skip(end) =~= s);
}

/// To undo escapes adds no units.
pub proof fn lemma_unescaped_units(s: Seq<char>)
    ensures
        unescaped_units(s) <= utf16_len(s),
    decreases s.len(),
{
    if s.len() > 0 {
        let n = if starts_escape(s) {
            3int
        } else {
            1int
        };
        lemma_unescaped_units(s.skip(n));
        lemma_utf16_sum(s.take(n), s.skip(n));
        assert(s.take(n) + s.skip(n) =~= s);
        lemma_utf16_bounds(s.take(n));
        assert(s.take(1) =~= seq![s[0]]);
    }
}

proof fn lemma_utf16_trim_start(s: Seq<char>)
    ensures
        utf16_len(trim_start(s)) <= utf16_len(s),
    decreases s.len(),
{
    if s.len() > 0 && is_white(s[0]) {
        lemma_utf16_trim_start(s.subrange(1, s.len() as int));
        lemma_utf16_part(s, 1, s.len() as int);
    }
}

proof fn lemma_utf16_trim_end(s: Seq<char>)
    ensures
        utf16_len(trim_end(s)) <= utf16_len(s),
    decreases s.len(),
{
    if s.len() > 0 && is_white(s.last()) {
        lemma_utf16_trim_end(s.drop_last());
    }
}

/// A trimmed text has no more units than the text.
pub proof fn lemma_utf16_trimmed(s: Seq<char>)
    ensures
        utf16_len(trimmed(s)) <= utf16_len(s),
{
    lemma_utf16_trim_start(s);
    lemma_utf16_trim_end(trim_start(s));
}

/// The first piece of a text has no more units than the text, and is the text where there is
/// no other.
pub proof fn lemma_utf16_first_piece(s: Seq<char>, c: char)
    ensures
        split(s, c).len() > 0,
        utf16_len(split(s, c)[0]) <= utf16_len(s),
        split(s, c).len() == 1 ==> split(s, c)[0] == s,
    decreases s.len(),
{
    if s.len() > 0 {
        let rest = split(s.drop_last(), c);
        lemma_utf16_first_piece(s.drop_last(), c);
        if s.last() != c && rest.len() == 1 {
            assert(rest.last().push(s.last()) =~= s);
        }
    } else {
        assert(s =~= Seq::<char>::empty());
    }
}

/// The number that digits of a base spell, where all of them are digits and it fits 32 bits.
pub open spec fn parsed_radix(s: Seq<char>, radix: nat) -> Option<nat>
    decreases s.len(),
{
    if s.len() == 0 {
        Some(0)
    } else {
        match (parsed_radix(s.drop_last(), radix), hex_digit(s.last())) {
            (Some(n), Some(d)) => if d < radix && n * radix + d <= u32::MAX {
                Some(n * radix + d)
            } else {
                None
            },
            _ => None,
        }
    }
}

pub fn hex_value(c: char) -> (r: Option<u32>)
    ensures
        match r {
            Some(d) => hex_digit(c) == Some(d as nat) && d < 16,
            None => hex_digit(c) is None,
        },
{
    if is_digit_char(c) {
        Some(c as u32 - 48)
    } else if 'a' <= c && c <= 'f' {
        Some(c as u32 - 87)
    } else if 'A' <= c && c <= 'F' {
        Some(c as u32 - 55)
    } else {
        None
    }
}

proof fn lemma_radix_none(s: Seq<char>, k: int, radix: nat)
    requires
        0 <= k <= s.len(),
        parsed_radix(s.take(k), radix) is None,
    ensures
        parsed_radix(s, radix) is None,
    decreases s.len() - k,
{
    if k < s.len() {
        assert(s.take(k + 1).drop_last() =~= s.take(k));
        lemma_radix_none(s, k + 1, radix);
    } else {
        assert(s.take(k) =~= s);
    }
}

/// The number that digits of a base spell, where all of them are digits and it fits 32 bits.
pub fn parse_radix(s: &str, radix: u32) -> (r: Option<u32>)
    requires
        radix <= 16,
    ensures
        match r {
            Some(n) => parsed_radix(s@, radix as nat) == Some(n as nat),
            None => parsed_radix(s@, radix as nat) is None,
        },
{
    let v: Vec<char> = chars_of(s);
    let mut n: u32 = 0;
    let mut i: usize = 0;
    assert(v@.take(0) =~= Seq::empty());
    while i < v.len()
        invariant
            0 <= i <= v@.len(),
            v@ == s@,
            radix <= 16,
            parsed_radix(v@.take(i as int), radix as nat) == Some(n as nat),
        decreases v@.len() - i,
    {
        assert(v@.take(i + 1).drop_last() =~= v@.take(i as int));
        let d: Option<u32> = hex_value(v[i]);
        let next: Option<u64> = match d {
            Some(d) => if d < radix {
                assert(n * radix <= 0xffff_ffff * 16) by (nonlinear_arith)
                    requires
                        n <= 0xffff_ffff,
                        radix <= 16,
                ;
                Some(n as u64 * radix as u64 + d as u64)
            } else {
                None
            },
            None => None,
        };
        match next {
            Some(m) if m <= u32::MAX as u64 => {
                n = m as u32;
            },
            _ => {
                proof {
                    lemma_radix_none(v@, i + 1, radix as nat);
                }
                return None;
            },
        }
        i = i + 1;
    }
    assert(v@.take(i as int) =~= v@);
    Some(n)
}

/// `char::from_u32`: the character with this code, where there is one.
#[verifier::external_body]
pub(crate) fn char_of(n: u32) -> (r: Option<char>)
    ensures
        r == (if n < 0xd800 || 0xe000 <= n <= 0x10ffff {
            Some(n as char)
        } else {
            None
        }),
{
    char::from_u32(n)
}

} // verus!
