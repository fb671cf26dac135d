//! A set of texts, kept in their order.

use crate::text;
use vstd::prelude::*;

verus! {

/// A text does not stand before itself.
pub proof fn lemma_before_irreflexive(a: Seq<char>)
    ensures
        !text::before(a, a),
    decreases a.len(),
{
    if a.len() > 0 {
        lemma_before_irreflexive(a.subrange(1, a.len() as int));
    }
}

/// What stands before a text that stands before another stands before this one too.
pub proof fn lemma_before_transitive(a: Seq<char>, b: Seq<char>, c: Seq<char>)
    requires
        text::before(a, b),
        text::before(b, c),
    ensures
        text::before(a, c),
    decreases a.len(),
{
    if a.len() > 0 && a[0] == b[0] && b[0] == c[0] {
        lemma_before_transitive(
            a.subrange(1, a.len() as int),
            b.subrange(1, b.len() as int),
            c.subrange(1, c.len() as int),
        );
    }
}

/// Of two texts that differ one stands before the other.
pub proof fn lemma_before_total(a: Seq<char>, b: Seq<char>)
    ensures
        a == b || text::before(a, b) || text::before(b, a),
    decreases a.len(),
{
    if a.len() > 0 && b.len() > 0 && a[0] == b[0] {
        let x = a.subrange(1, a.len() as int);
        let y = b.subrange(1, b.len() as int);
        lemma_before_total(x, y);
        if x == y {
            assert(a =~= seq![a[0]] + x);
            assert(b =~= seq![b[0]] + y);
        }
    } else if a.len() == 0 && b.len() == 0 {
        assert(a =~= b);
    }
}

/// Texts in their order, none of them twice.
pub open spec fn ascending(v: Seq<Seq<char>>) -> bool {
    forall|i: int, k: int|
        0 <= i < k < v.len() ==> text::before(#[trigger] v[i], #[trigger] v[k])
}

/// Texts in their order with one more, unless it is there.
pub open spec fn inserted(v: Seq<Seq<char>>, key: Seq<char>) -> Seq<Seq<char>>
    decreases v.len(),
{
    if v.len() == 0 {
        seq![key]
    } else if v[0] == key {
        v
    } else if text::before(key, v[0]) {
        seq![key] + v
    } else {
        seq![v[0]] + inserted(v.drop_first(), key)
    }
}

/// Texts in their order with some more.
pub open spec fn inserted_all(v: Seq<Seq<char>>, keys: Seq<Seq<char>>) -> Seq<Seq<char>>
    decreases keys.len(),
{
    if keys.len() == 0 {
        v
    } else {
        inserted(inserted_all(v, keys.drop_last()), keys.last())
    }
}

/// Where a text stands, or would stand, among texts in their order.
spec fn belongs(v: Seq<Seq<char>>, key: Seq<char>, p: int) -> bool {
    &&& 0 <= p <= v.len()
    &&& forall|i: int| 0 <= i < p ==> text::before(#[trigger] v[i], key)
    &&& p < v.len() ==> !text::before(v[p], key)
}

proof fn lemma_insert_at(v: Seq<Seq<char>>, key: Seq<char>, p: int)
    requires
        ascending(v),
        belongs(v, key, p),
    ensures
        inserted(v, key) == if p < v.len() && v[p] == key {
            v
        } else {
            v.insert(p, key)
        },
        ascending(inserted(v, key)),
        v.contains(key) == (p < v.len() && v[p] == key),
    decreases v.len(),
{
    lemma_before_irreflexive(key);
    if v.len() > 0 && p > 0 {
        let rest = v.drop_first();
        assert(text::before(v[0], key));
        if text::before(key, v[0]) {
            lemma_before_transitive(key, v[0], key);
        }
        assert(forall|i: int| 0 <= i < rest.len() ==> rest[i] == v[i + 1]);
        lemma_insert_at(rest, key, p - 1);
        if p < v.len() && v[p] == key {
            assert(seq![v[0]] + rest =~= v);
        } else {
            assert(seq![v[0]] + rest.insert(p - 1, key) =~= v.insert(p, key));
        }
    } else if v.len() > 0 {
        lemma_before_total(v[0], key);
        if v[0] != key {
            assert(seq![key] + v =~= v.insert(0, key));
        }
    } else {
        assert(seq![key] =~= v.insert(0, key));
    }
    let out = inserted(v, key);
    if p < v.len() && v[p] == key {
        assert(v.contains(v[p]));
    } else {
        if p < v.len() {
            lemma_before_total(v[p], key);
        }
        assert forall|i: int, k: int| 0 <= i < k < out.len() implies text::before(
            #[trigger] out[i],
            #[trigger] out[k],
        ) by {
            if i == p && k > p + 1 {
                lemma_before_transitive(key, v[p], v[k - 1]);
            }
        }
        assert forall|i: int| 0 <= i < v.len() implies #[trigger] v[i] != key by {
            if i > p {
                lemma_before_transitive(key, v[p], v[i]);
            }
        }
    }
}

/// A set of texts, kept in their order.
#[derive(Debug)]
pub struct KeySet {
    pub keys: Vec<String>,
}

impl View for KeySet {
    type V = Seq<Seq<char>>;

    open spec fn view(&self) -> Seq<Seq<char>> {
        text::texts(self.keys@)
    }
}

impl KeySet {
    pub open spec fn valid(self) -> bool {
        ascending(self@)
    }

    pub fn new() -> (r: KeySet)
        ensures
            r.valid(),
            r@ == Seq::<Seq<char>>::empty(),
    {
        let r: KeySet = KeySet { keys: Vec::new() };
        assert(r@ =~= Seq::empty());
        r
    }

    pub fn len(&self) -> (r: usize)
        ensures
            r == self@.len(),
    {
        self.keys.len()
    }

    /// Adds a text, and says whether it was not there.
    pub fn insert(&mut self, key: String) -> (r: bool)
        requires
            old(self).valid(),
        ensures
            final(self).valid(),
            final(self)@ == inserted(old(self)@, key@),
            r == !old(self)@.contains(key@),
            !r ==> final(self)@ == old(self)@,
    {
        let ghost all = self@;
        let mut low: usize = 0;
        let mut high: usize = self.keys.len();
        while low < high
            invariant
                0 <= low <= high <= self.keys@.len(),
                all == self@,
                ascending(all),
                forall|i: int| 0 <= i < low ==> text::before(#[trigger] all[i], key@),
                high < all.len() ==> !text::before(all[high as int], key@),
            decreases high - low,
        {
            let middle: usize = low + (high - low) / 2;
            assert(all[middle as int] == self.keys@[middle as int]@);
            if text::precedes(self.keys[middle].as_str(), key.as_str()) {
                proof {
                    assert forall|i: int| 0 <= i < middle + 1 implies text::before(
                        #[trigger] all[i],
                        key@,
                    ) by {
                        if i < middle {
                            lemma_before_transitive(all[i], all[middle as int], key@);
                        }
                    }
                }
                low = middle + 1;
            } else {
                high = middle;
            }
        }
        proof {
            lemma_insert_at(all, key@, low as int);
        }
        if low < self.keys.len() && text::same(self.keys[low].as_str(), key.as_str()) {
            false
        } else {
            let ghost before = self.keys@;
            self.keys.insert(low, key);
            assert(self@ =~= all.insert(low as int, key@));
            true
        }
    }

    /// Adds some texts.
    pub fn insert_all(&mut self, keys: &[String])
        requires
            old(self).valid(),
        ensures
            final(self).valid(),
            final(self)@ == inserted_all(old(self)@, text::texts(keys@)),
    {
        let ghost start = self@;
        let ghost all = text::texts(keys@);
        let mut i: usize = 0;
        while i < keys.len()
            invariant
                0 <= i <= keys@.len(),
                all == text::texts(keys@),
                self.valid(),
                self@ == inserted_all(start, all.take(i as int)),
            decreases keys@.len() - i,
        {
            assert(all.take(i + 1).drop_last() =~= all.take(i as int));
            assert(all.take(i + 1).last() == keys@[i as int]@);
            let fresh: bool = self.insert(keys[i].clone());
            i = i + 1;
        }
        assert(all.take(i as int) =~= all);
    }
}

/// A text that was added is there, and so is every one that was there before.
pub proof fn lemma_inserted_contains(v: Seq<Seq<char>>, key: Seq<char>, other: Seq<char>)
    ensures
        inserted(v, key).contains(other) == (v.contains(other) || other == key),
    decreases v.len(),
{
    if v.len() == 0 {
        assert(seq![key].contains(other) == (other == key)) by {
            assert(seq![key][0] == key);
        }
        assert(!v.contains(other));
    } else if v[0] == key {
        assert(v.contains(v[0]));
    } else if text::before(key, v[0]) {
        let w = seq![key] + v;
        assert(w[0] == key);
        if v.contains(other) {
            let i = choose|i: int| 0 <= i < v.len() && v[i] == other;
            assert(w[i + 1] == other);
        }
        if w.contains(other) && other != key {
            let i = choose|i: int| 0 <= i < w.len() && w[i] == other;
            assert(v[i - 1] == other);
        }
    } else {
        let rest = v.drop_first();
        lemma_inserted_contains(rest, key, other);
        let tail = inserted(rest, key);
        let w = seq![v[0]] + tail;
        assert(w[0] == v[0]);
        if tail.contains(other) {
            let i = choose|i: int| 0 <= i < tail.len() && tail[i] == other;
            assert(w[i + 1] == other);
        }
        if w.contains(other) && other != v[0] {
            let i = choose|i: int| 0 <= i < w.len() && w[i] == other;
            assert(tail[i - 1] == other);
        }
        if rest.contains(other) {
            let i = choose|i: int| 0 <= i < rest.len() && rest[i] == other;
            assert(v[i + 1] == other);
        }
        if v.contains(other) && other != v[0] {
            let i = choose|i: int| 0 <= i < v.len() && v[i] == other;
            assert(rest[i - 1] == other);
        }
        assert(v.contains(v[0]));
        assert(w.contains(v[0]));
    }
}

} // verus!
