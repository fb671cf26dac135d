//! What becomes of the words of a text.

use crate::address;
use crate::gateway;
use crate::json::JsonV;
use crate::parse;
use crate::text;
use vstd::prelude::*;

verus! {

/// The characters of a row of texts that are not white space, in order.
pub open spec fn ink(v: Seq<Seq<char>>) -> Seq<char>
    decreases v.len(),
{
    if v.len() == 0 {
        Seq::empty()
    } else {
        ink(v.drop_last()) + parse::compacted(v.last())
    }
}

proof fn lemma_compacted_sum(a: Seq<char>, b: Seq<char>)
    ensures
        parse::compacted(a + b) == parse::compacted(a) + parse::compacted(b),
    decreases b.len(),
{
    if b.len() == 0 {
        assert(a + b =~= a);
        assert(parse::compacted(a) + parse::compacted(b) =~= parse::compacted(a));
    } else {
        lemma_compacted_sum(a, b.drop_last());
        assert((a + b).drop_last() =~= a + b.drop_last());
        assert((a + b).last() == b.last());
        assert(parse::compacted(a + b) =~= parse::compacted(a) + parse::compacted(b));
    }
}

proof fn lemma_nonempty_ink(v: Seq<Seq<char>>)
    ensures
        ink(text::nonempty(v)) == ink(v),
    decreases v.len(),
{
    if v.len() > 0 {
        let rest = v.drop_last();
        lemma_nonempty_ink(rest);
        if v.last().len() == 0 {
            assert(parse::compacted(v.last()) =~= Seq::<char>::empty());
            assert(ink(rest) + parse::compacted(v.last()) =~= ink(rest));
        } else {
            assert(text::nonempty(rest).push(v.last()).drop_last() =~= text::nonempty(rest));
        }
    }
}

proof fn lemma_join_ink(v: Seq<Seq<char>>)
    ensures
        parse::compacted(text::join(v, " "@)) == ink(v),
    decreases v.len(),
{
    reveal_strlit(" ");
    if v.len() == 1 {
        assert(v.drop_last() =~= Seq::<Seq<char>>::empty());
        assert(ink(v.drop_last()) =~= Seq::<char>::empty());
        assert(ink(v) =~= parse::compacted(v[0]));
    } else if v.len() > 1 {
        lemma_join_ink(v.drop_last());
        let before = text::join(v.drop_last(), " "@);
        lemma_compacted_sum(before + " "@, v.last());
        lemma_compacted_sum(before, " "@);
        assert(" "@.drop_last() =~= Seq::<char>::empty());
        assert(parse::compacted(" "@.drop_last()) =~= Seq::<char>::empty());
        assert(parse::compacted(" "@) =~= Seq::<char>::empty());
        assert(parse::compacted(before) + parse::compacted(" "@) =~= parse::compacted(before));
    }
}

proof fn lemma_pieces_ink(s: Seq<char>)
    ensures
        text::white_pieces(s).len() > 0,
        ink(text::white_pieces(s)) == parse::compacted(s),
    decreases s.len(),
{
    let v = text::white_pieces(s);
    if s.len() == 0 {
        assert(v.drop_last() =~= Seq::<Seq<char>>::empty());
        assert(v.last() == Seq::<char>::empty());
        assert(parse::compacted(v.last()) =~= Seq::<char>::empty());
        assert(ink(v.drop_last()) =~= Seq::<char>::empty());
        assert(ink(v) =~= Seq::<char>::empty());
        assert(parse::compacted(s) =~= Seq::<char>::empty());
    } else {
        let rest = text::white_pieces(s.drop_last());
        lemma_pieces_ink(s.drop_last());
        if text::is_white(s.last()) {
            assert(v.drop_last() =~= rest);
            assert(parse::compacted(Seq::<char>::empty()) =~= Seq::<char>::empty());
            assert(ink(v) =~= ink(rest));
        } else {
            let word = rest.last().push(s.last());
            assert(v.drop_last() =~= rest.drop_last());
            assert(v.last() == word);
            assert(word.drop_last() =~= rest.last());
            assert(parse::compacted(word) == parse::compacted(rest.last()).push(s.last()));
            assert(ink(v) =~= ink(rest).push(s.last()));
        }
    }
}

/// Squeezing a text changes nothing but its white space: every other character stays, in order.
pub proof fn squeezing_keeps_every_word(s: Seq<char>)
    ensures
        parse::compacted(text::squeezed(s)) == parse::compacted(s),
{
    let v = text::white_pieces(s);
    lemma_pieces_ink(s);
    lemma_nonempty_ink(v);
    lemma_join_ink(text::nonempty(v));
}

/// The words of a text value hold every character of it that is not white space, in order.
pub proof fn words_hold_the_whole_text(s: Seq<char>)
    ensures
        parse::words_of(JsonV::Text(s)) matches Some(words) ==> parse::compacted(words)
            == parse::compacted(s),
        parse::words_of(JsonV::Text(s)) is None ==> parse::compacted(s).len() == 0,
{
    squeezing_keeps_every_word(s);
    if text::squeezed(s).len() == 0 {
        assert(parse::compacted(text::squeezed(s)).len() == 0);
    }
}

/// A page of reviews lies on the site, below a product, and asks for nothing but a page of
/// reviews.
pub proof fn review_pages_lie_on_the_site(input: Seq<char>)
    ensures
        gateway::safe_review_path_of(input) matches Some(p) ==> {
            let found = address::joined_url("https://www.ozon.ru/"@, input);
            &&& found is Some
            &&& found->Some_0.scheme == "https"@
            &&& found->Some_0.host == Some("ozon.ru"@) || found->Some_0.host == Some(
                "www.ozon.ru"@,
            )
            &&& found->Some_0.fragment is None
            &&& text::starts(found->Some_0.path, "/product/"@)
            &&& found->Some_0.path.is_prefix_of(p)
            &&& found->Some_0.query is None ==> p == found->Some_0.path
            &&& found->Some_0.query matches Some(q) ==> p == found->Some_0.path + "?"@ + q
            &&& forall|i: int|
                0 <= i < found->Some_0.pairs.len() ==> {
                    let name = (#[trigger] found->Some_0.pairs[i]).0;
                    name == "page"@ || name == "page_key"@ || name == "reviewsVariantMode"@ || name
                        == "sort"@
                }
        },
{
    if gateway::safe_review_path_of(input) is Some {
        let found = address::joined_url("https://www.ozon.ru/"@, input)->Some_0;
        let p = gateway::safe_review_path_of(input)->Some_0;
        assert(p.take(found.path.len() as int) =~= found.path);
    }
}

} // verus!
