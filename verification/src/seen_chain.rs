//! Which reviews were seen before: a chain of what each answer added, read back.

use crate::digest;
use crate::evidence;
use crate::failure::{self, Failure, FailureV};
use crate::json::{self, Json, JsonV};
use crate::keys::{self, KeySet};
use crate::ledger::{self, StoredRef, StoredRefV};
use crate::marketplace;
use crate::product_details;
use crate::review_pages;
use crate::text;
use vstd::prelude::*;

verus! {

/// Whether a text is what a review can be known by.
pub open spec fn is_identity(key: Seq<char>) -> bool {
    match text::without_prefix(key, "id:"@) {
        Some(hash) => digest::is_digest(hash),
        None => match text::without_prefix(key, "anonymous:"@) {
            Some(id) => ledger::reads_as_uuid(id),
            None => false,
        },
    }
}

fn is_hash(s: &str) -> (r: bool)
    ensures
        r == digest::is_digest(s@),
{
    let v: Vec<char> = text::chars_of(s);
    if v.len() != 64 {
        return false;
    }
    let mut i: usize = 0;
    while i < v.len()
        invariant
            0 <= i <= v@.len(),
            v@ == s@,
            v@.len() == 64,
            forall|k: int|
                0 <= k < i ==> ('0' <= #[trigger] s@[k] <= '9' || 'a' <= s@[k] <= 'f'),
        decreases v@.len() - i,
    {
        let c: char = v[i];
        if !(('0' <= c && c <= '9') || ('a' <= c && c <= 'f')) {
            assert(s@[i as int] == c);
            return false;
        }
        i = i + 1;
    }
    true
}

pub fn valid_review_identity(key: &str) -> (r: bool)
    ensures
        r == is_identity(key@),
{
    match text::strip_prefix(key, "id:") {
        Some(hash) => is_hash(hash.as_str()),
        None => match text::strip_prefix(key, "anonymous:") {
            Some(id) => ledger::is_uuid(id.as_str()),
            None => false,
        },
    }
}

/// How far the chain was read.
#[derive(Debug)]
pub struct SeenLoader {
    /// The name of the part that is read next.
    pub current: Option<String>,
    /// The names of the parts that were read.
    pub visited: KeySet,
    pub keys: KeySet,
    pub expected_count: Option<u64>,
    pub expected_depth: Option<u64>,
    pub head_depth: u64,
    pub nodes_read: usize,
}

/// What a [`SeenLoader`] holds.
pub struct SeenLoaderV {
    pub current: Option<Seq<char>>,
    pub visited: Seq<Seq<char>>,
    pub keys: Seq<Seq<char>>,
    pub expected_count: Option<u64>,
    pub expected_depth: Option<u64>,
    pub head_depth: u64,
    pub nodes_read: nat,
}

impl View for SeenLoader {
    type V = SeenLoaderV;

    open spec fn view(&self) -> SeenLoaderV {
        SeenLoaderV {
            current: text::text_of(self.current),
            visited: self.visited@,
            keys: self.keys@,
            expected_count: self.expected_count,
            expected_depth: self.expected_depth,
            head_depth: self.head_depth,
            nodes_read: self.nodes_read as nat,
        }
    }
}

/// What was seen before, and how deep the chain is that says so.
#[derive(Debug)]
pub struct LoadedReviewSeen {
    pub keys: Vec<String>,
    pub depth: usize,
    pub nodes_read: usize,
}

pub open spec fn chain_error(detail: Seq<char>) -> FailureV {
    FailureV::Message("SOURCE_CHANGED: "@ + detail)
}

fn chain_failure(detail: &str) -> (r: Failure)
    ensures
        r@ == chain_error(detail@),
{
    Failure::Message(text::joined("SOURCE_CHANGED: ", detail))
}

/// What stops the chain from being read on.
pub open spec fn step_problem(l: SeenLoaderV, cancelled: bool, expired: bool) -> Option<FailureV> {
    match l.current {
        None => None,
        Some(name) => if cancelled {
            Some(FailureV::Message("CANCELLED: request cancelled"@))
        } else if expired {
            Some(FailureV::Message("UPSTREAM_TIMEOUT: review coverage deadline expired"@))
        } else if l.visited.contains(name) || l.visited.len()
            >= marketplace::REVIEW_SEEN_CHECKPOINT_INTERVAL {
            Some(chain_error("invalid review coverage chain"@))
        } else {
            None
        },
    }
}

/// Whether every value is a text that a review can be known by.
pub open spec fn all_identities(v: Seq<JsonV>) -> bool {
    forall|i: int|
        0 <= i < v.len() ==> (#[trigger] v[i] is Text && is_identity(v[i]->Text_0))
}

/// A number that fits the machine.
pub open spec fn depth_in(value: JsonV) -> Option<u64> {
    match value.field("depth"@).as_unsigned() {
        Some(n) => if n <= usize::MAX {
            Some(n)
        } else {
            None
        },
        None => None,
    }
}

pub open spec fn is_checkpoint(value: JsonV) -> bool {
    value.field("kind"@) == JsonV::Text("checkpoint"@)
}

/// What is wrong with the keys of a part.
pub open spec fn keys_problem(value: JsonV, known: Seq<Seq<char>>) -> Option<FailureV> {
    match value.field("keys"@).as_array() {
        None => Some(chain_error("invalid review coverage state"@)),
        Some(found) => if found.len() == 0 || found.len() > (if is_checkpoint(value) {
            marketplace::MAX_SEEN_REVIEWS as int
        } else {
            30
        }) || (is_checkpoint(value) && text::utf8_len(json::json_text(value))
            > marketplace::MAX_REVIEW_SEEN_CHECKPOINT_BYTES) {
            Some(chain_error("invalid review coverage chunk"@))
        } else if !all_identities(found) {
            Some(chain_error("invalid review coverage identity"@))
        } else if keys::inserted_all(known, product_details::texts_in(found)).len()
            > marketplace::MAX_SEEN_REVIEWS {
            Some(chain_error("review coverage exceeds its bound"@))
        } else {
            None
        },
    }
}

/// Where a part leads: the part before it, and the depth that this must have.
pub open spec fn led_on(value: JsonV, depth: u64, expected: Option<u64>) -> Result<
    (Option<Seq<char>>, Option<u64>),
    FailureV,
> {
    if is_checkpoint(value) {
        if depth != 0 || !(value.field("parent"@) is Null) {
            Err(chain_error("invalid review coverage checkpoint"@))
        } else {
            Ok((None, expected))
        }
    } else if value.field("kind"@) == JsonV::Text("delta"@) && 1 <= depth
        < marketplace::REVIEW_SEEN_CHECKPOINT_INTERVAL {
        if value.field("parent"@).as_text() is None && depth != 1 {
            Err(chain_error("truncated review coverage chain"@))
        } else {
            Ok((value.field("parent"@).as_text(), Some((depth - 1) as u64)))
        }
    } else {
        Err(chain_error("invalid review coverage node"@))
    }
}

/// How far the chain was read, once a part of it was.
pub open spec fn fed(
    l: SeenLoaderV,
    node: Result<StoredRefV, FailureV>,
    research_id: Seq<char>,
    context_id: Seq<char>,
) -> Result<SeenLoaderV, FailureV> {
    match node {
        Err(_) => Err(chain_error("review coverage state is unavailable"@)),
        Ok(n) => if n.research_id != research_id || n.context_id != context_id {
            Err(chain_error("invalid review coverage binding"@))
        } else {
            match (n.value.field("count"@).as_unsigned(), depth_in(n.value)) {
                (None, _) => Err(chain_error("invalid review coverage count"@)),
                (_, None) => Err(chain_error("invalid review coverage depth"@)),
                (Some(count), Some(depth)) => if l.expected_depth is Some && l.expected_depth
                    != Some(depth) {
                    Err(chain_error("invalid review coverage depth"@))
                } else {
                    match keys_problem(n.value, l.keys) {
                        Some(e) => Err(e),
                        None => match led_on(n.value, depth, l.expected_depth) {
                            Err(e) => Err(e),
                            Ok(next) => Ok(
                                SeenLoaderV {
                                    current: next.0,
                                    visited: keys::inserted(l.visited, l.current->Some_0),
                                    keys: keys::inserted_all(
                                        l.keys,
                                        product_details::texts_in(
                                            n.value.field("keys"@)->Array_0,
                                        ),
                                    ),
                                    expected_count: match l.expected_count {
                                        Some(c) => Some(c),
                                        None => Some(count),
                                    },
                                    expected_depth: next.1,
                                    head_depth: if l.nodes_read == 0 {
                                        depth
                                    } else {
                                        l.head_depth
                                    },
                                    nodes_read: l.nodes_read + 1,
                                },
                            ),
                        },
                    }
                },
            }
        },
    }
}

/// What is wrong with the keys of a part, and all keys with those of the part.
fn take_keys(known: KeySet, value: &Json) -> (r: Result<KeySet, Failure>)
    requires
        known.valid(),
    ensures
        match r {
            Ok(k) => {
                &&& keys_problem(value@, known@) is None
                &&& k.valid()
                &&& k@ == keys::inserted_all(
                    known@,
                    product_details::texts_in(value@.field("keys"@)->Array_0),
                )
            },
            Err(e) => keys_problem(value@, known@) == Some(e@),
        },
{
    let found: &Vec<Json> = match value.field("keys").as_array() {
        Some(v) => v,
        None => return Err(chain_failure("invalid review coverage state")),
    };
    let checkpoint: bool = match value.field("kind").as_str() {
        Some(s) => text::same(s, "checkpoint"),
        None => false,
    };
    let most: usize = if checkpoint {
        marketplace::MAX_SEEN_REVIEWS
    } else {
        30
    };
    if found.len() == 0 || found.len() > most || (checkpoint && text::utf8_length(
        value.to_text().as_str(),
    ) > marketplace::MAX_REVIEW_SEEN_CHECKPOINT_BYTES) {
        return Err(chain_failure("invalid review coverage chunk"));
    }
    let ghost all = json::values(found@);
    let ghost start = known@;
    let mut out: KeySet = known;
    let mut i: usize = 0;
    assert(product_details::texts_in(all.take(0)) =~= Seq::empty());
    while i < found.len()
        invariant
            0 <= i <= found@.len(),
            all == json::values(found@),
            value@.field("keys"@) == JsonV::Array(all),
            !(all.len() == 0 || all.len() > (if is_checkpoint(value@) {
                marketplace::MAX_SEEN_REVIEWS as int
            } else {
                30
            }) || (is_checkpoint(value@) && text::utf8_len(json::json_text(value@))
                > marketplace::MAX_REVIEW_SEEN_CHECKPOINT_BYTES)),
            start == known@,
            out.valid(),
            forall|k: int|
                0 <= k < i ==> (#[trigger] all[k] is Text && is_identity(all[k]->Text_0)),
            out@ == keys::inserted_all(start, product_details::texts_in(all.take(i as int))),
        decreases found@.len() - i,
    {
        assert(all[i as int] == found@[i as int]@);
        assert(all.take(i + 1).drop_last() =~= all.take(i as int));
        assert(all.take(i + 1).last() == found@[i as int]@);
        let key: Option<&str> = match found[i].as_str() {
            Some(s) => if valid_review_identity(s) {
                Some(s)
            } else {
                None
            },
            None => None,
        };
        match key {
            Some(s) => {
                proof {
                    let before = product_details::texts_in(all.take(i as int));
                    assert(before.push(s@).drop_last() =~= before);
                }
                let fresh: bool = out.insert(s.to_owned());
            },
            None => {
                assert(!all_identities(all));
                return Err(chain_failure("invalid review coverage identity"));
            },
        }
        i = i + 1;
    }
    assert(all.take(i as int) =~= all);
    assert(all_identities(all));
    if out.len() > marketplace::MAX_SEEN_REVIEWS {
        return Err(chain_failure("review coverage exceeds its bound"));
    }
    Ok(out)
}

pub open spec fn next_of(r: Result<(Option<String>, Option<u64>), Failure>) -> Result<
    (Option<Seq<char>>, Option<u64>),
    FailureV,
> {
    match r {
        Ok(x) => Ok((text::text_of(x.0), x.1)),
        Err(e) => Err(e@),
    }
}

fn lead_on(value: &Json, depth: u64, expected: Option<u64>) -> (r: Result<
    (Option<String>, Option<u64>),
    Failure,
>)
    ensures
        next_of(r) == led_on(value@, depth, expected),
{
    let kind: Option<&str> = value.field("kind").as_str();
    let checkpoint: bool = match kind {
        Some(s) => text::same(s, "checkpoint"),
        None => false,
    };
    if checkpoint {
        if depth != 0 || !value.field("parent").is_null() {
            return Err(chain_failure("invalid review coverage checkpoint"));
        }
        return Ok((None, expected));
    }
    let delta: bool = match kind {
        Some(s) => text::same(s, "delta"),
        None => false,
    };
    if delta && 1 <= depth && depth < marketplace::REVIEW_SEEN_CHECKPOINT_INTERVAL as u64 {
        let parent: Option<String> = match value.field("parent").as_str() {
            Some(p) => Some(p.to_owned()),
            None => None,
        };
        if parent.is_none() && depth != 1 {
            return Err(chain_failure("truncated review coverage chain"));
        }
        Ok((parent, Some(depth - 1)))
    } else {
        Err(chain_failure("invalid review coverage node"))
    }
}

impl SeenLoader {
    pub open spec fn valid(self) -> bool {
        &&& self.visited.valid()
        &&& self.keys.valid()
        &&& self.nodes_read <= self.visited@.len()
        &&& self.head_depth <= usize::MAX
        &&& self.visited@.len() <= marketplace::REVIEW_SEEN_CHECKPOINT_INTERVAL
    }

    /// Nothing was read yet.
    pub fn start(seen_ref: Option<&str>) -> (r: SeenLoader)
        ensures
            r.valid(),
            r@ == started(json::str_of(seen_ref)),
    {
        let current: Option<String> = match seen_ref {
            Some(s) => Some(s.to_owned()),
            None => None,
        };
        SeenLoader {
            current,
            visited: KeySet::new(),
            keys: KeySet::new(),
            expected_count: None,
            expected_depth: None,
            head_depth: 0,
            nodes_read: 0,
        }
    }

    /// The name of the part that is read next, if any. A chain that comes back to a part, or
    /// that is longer than it can be, is refused.
    pub fn next(&self, cancelled: bool, expired: bool) -> (r: Result<Option<&str>, Failure>)
        requires
            self.valid(),
        ensures
            match r {
                Ok(name) => step_problem(self@, cancelled, expired) is None && json::str_of(name)
                    == self@.current,
                Err(e) => step_problem(self@, cancelled, expired) == Some(e@),
            },
    {
        let name: &str = match &self.current {
            Some(s) => s.as_str(),
            None => return Ok(None),
        };
        if cancelled {
            return Err(Failure::new("CANCELLED: request cancelled"));
        }
        if expired {
            return Err(Failure::new("UPSTREAM_TIMEOUT: review coverage deadline expired"));
        }
        if text::contains_text(&self.visited.keys, name) || self.visited.len()
            >= marketplace::REVIEW_SEEN_CHECKPOINT_INTERVAL {
            return Err(chain_failure("invalid review coverage chain"));
        }
        Ok(Some(name))
    }

    /// Takes a part of the chain.
    pub fn feed(self, node: Result<StoredRef, Failure>, research_id: &str, context_id: &str) -> (r:
        Result<SeenLoader, Failure>)
        requires
            self.valid(),
            self@.current is Some,
            step_problem(self@, false, false) is None,
        ensures
            failure::outcome(r) == fed(
                self@,
                failure::outcome(node),
                research_id@,
                context_id@,
            ),
            r matches Ok(l) ==> l.valid(),
    {
        let n: StoredRef = match node {
            Ok(n) => n,
            Err(_) => return Err(chain_failure("review coverage state is unavailable")),
        };
        if !text::same(n.research_id.as_str(), research_id) || !text::same(
            n.context_id.as_str(),
            context_id,
        ) {
            return Err(chain_failure("invalid review coverage binding"));
        }
        let count: u64 = match n.value.field("count").as_u64() {
            Some(c) => c,
            None => return Err(chain_failure("invalid review coverage count")),
        };
        let depth: u64 = match n.value.field("depth").as_u64() {
            Some(d) => if d <= usize::MAX as u64 {
                d
            } else {
                return Err(chain_failure("invalid review coverage depth"));
            },
            None => return Err(chain_failure("invalid review coverage depth")),
        };
        if let Some(d) = self.expected_depth {
            if d != depth {
                return Err(chain_failure("invalid review coverage depth"));
            }
        }
        let expected_depth: Option<u64> = self.expected_depth;
        let head: u64 = if self.nodes_read == 0 {
            depth
        } else {
            self.head_depth
        };
        let expected_count: Option<u64> = match self.expected_count {
            Some(c) => Some(c),
            None => Some(count),
        };
        let all: KeySet = match take_keys(self.keys, &n.value) {
            Ok(k) => k,
            Err(e) => return Err(e),
        };
        let next: (Option<String>, Option<u64>) = match lead_on(&n.value, depth, expected_depth) {
            Ok(x) => x,
            Err(e) => return Err(e),
        };
        let mut visited: KeySet = self.visited;
        let ghost known = visited@;
        if let Some(name) = self.current {
            let fresh: bool = visited.insert(name);
            proof {
                lemma_inserted_len(known, name@);
            }
        }
        Ok(
            SeenLoader {
                current: next.0,
                visited,
                keys: all,
                expected_count,
                expected_depth: next.1,
                head_depth: head,
                nodes_read: self.nodes_read + 1,
            },
        )
    }

    /// What was seen before, once the chain was read to its end.
    pub fn finish(self) -> (r: Result<LoadedReviewSeen, Failure>)
        requires
            self.valid(),
            self@.current is None,
        ensures
            match r {
                Ok(s) => {
                    &&& self@.expected_count is None || self@.expected_count == Some(
                        self@.keys.len() as u64,
                    )
                    &&& text::texts(s.keys@) == self@.keys
                    &&& s.depth == self@.head_depth
                    &&& s.nodes_read == self@.nodes_read
                    &&& s.nodes_read <= marketplace::REVIEW_SEEN_CHECKPOINT_INTERVAL
                },
                Err(e) => {
                    &&& self@.expected_count is Some && self@.expected_count != Some(
                        self@.keys.len() as u64,
                    )
                    &&& e@ == chain_error("inconsistent review coverage state"@)
                },
            },
    {
        if let Some(c) = self.expected_count {
            if c != self.keys.len() as u64 {
                return Err(chain_failure("inconsistent review coverage state"));
            }
        }
        Ok(
            LoadedReviewSeen {
                keys: self.keys.keys,
                depth: self.head_depth as usize,
                nodes_read: self.nodes_read,
            },
        )
    }
}

/// Nothing was read yet.
pub open spec fn started(seen_ref: Option<Seq<char>>) -> SeenLoaderV {
    SeenLoaderV {
        current: seen_ref,
        visited: Seq::empty(),
        keys: Seq::empty(),
        expected_count: None,
        expected_depth: None,
        head_depth: 0,
        nodes_read: 0,
    }
}

/// A text that is added makes a set one larger, unless it is there.
pub proof fn lemma_inserted_len(v: Seq<Seq<char>>, key: Seq<char>)
    ensures
        v.len() <= keys::inserted(v, key).len() <= v.len() + 1,
        !v.contains(key) ==> keys::inserted(v, key).len() == v.len() + 1,
    decreases v.len(),
{
    if v.len() > 0 && v[0] != key && !text::before(key, v[0]) {
        let rest = v.drop_first();
        lemma_inserted_len(rest, key);
        if rest.contains(key) {
            let i = choose|i: int| 0 <= i < rest.len() && rest[i] == key;
            assert(v[i + 1] == key);
        }
    } else if v.len() > 0 && v[0] == key {
        assert(v.contains(v[0]));
    }
}

/// All reviews that some answers showed.
pub open spec fn all_after(h: Seq<Seq<Seq<char>>>) -> Seq<Seq<char>>
    decreases h.len(),
{
    if h.len() == 0 {
        Seq::empty()
    } else {
        keys::inserted_all(all_after(h.drop_last()), h.last())
    }
}

/// How deep the chain is after some answers.
pub open spec fn depth_after(h: Seq<Seq<Seq<char>>>) -> nat
    decreases h.len(),
{
    if h.len() == 0 {
        0
    } else if depth_after(h.drop_last()) + 1 >= marketplace::REVIEW_SEEN_CHECKPOINT_INTERVAL {
        0
    } else {
        depth_after(h.drop_last()) + 1
    }
}

/// What was kept of the last of some answers, under the names of those before it.
pub open spec fn kept_node(h: Seq<Seq<Seq<char>>>, names: Seq<Seq<char>>) -> Result<
    (JsonV, nat),
    FailureV,
> {
    review_pages::seen_node(
        if h.len() == 1 {
            None
        } else {
            Some(names[h.len() - 2])
        },
        depth_after(h.drop_last()),
        h.last(),
        all_after(h),
    )
}

/// The chain, read from the `n`-th answer on towards the first.
pub open spec fn read_back(
    l: SeenLoaderV,
    h: Seq<Seq<Seq<char>>>,
    names: Seq<Seq<char>>,
    research_id: Seq<char>,
    context_id: Seq<char>,
    n: int,
) -> Result<SeenLoaderV, FailureV>
    decreases n,
{
    if l.current is None || n <= 0 {
        Ok(l)
    } else {
        match step_problem(l, false, false) {
            Some(e) => Err(e),
            None => match fed(
                l,
                Ok(StoredRefV { research_id, context_id, value: kept_node(h.take(n), names)->Ok_0.0 }),
                research_id,
                context_id,
            ) {
                Err(e) => Err(e),
                Ok(next) => read_back(next, h, names, research_id, context_id, n - 1),
            },
        }
    }
}

/// Whether what each answer showed was kept.
pub open spec fn all_kept(h: Seq<Seq<Seq<char>>>, names: Seq<Seq<char>>) -> bool {
    forall|n: int| 1 <= n <= h.len() ==> #[trigger] kept_node(h.take(n), names) is Ok
}

/// Whether every review that answers showed is known by what a review can be known by.
pub open spec fn all_known(h: Seq<Seq<Seq<char>>>) -> bool {
    forall|n: int, k: int|
        0 <= n < h.len() && 0 <= k < h[n].len() ==> is_identity(#[trigger] h[n][k])
}

proof fn lemma_inserted_ascending(v: Seq<Seq<char>>, key: Seq<char>)
    requires
        keys::ascending(v),
    ensures
        keys::ascending(keys::inserted(v, key)),
    decreases v.len(),
{
    if v.len() > 0 && v[0] != key && !text::before(key, v[0]) {
        let rest = v.drop_first();
        assert(forall|i: int| 0 <= i < rest.len() ==> rest[i] == v[i + 1]);
        lemma_inserted_ascending(rest, key);
        keys::lemma_before_total(key, v[0]);
        let tail = keys::inserted(rest, key);
        let out = seq![v[0]] + tail;
        assert forall|i: int, k: int| 0 <= i < k < out.len() implies text::before(
            #[trigger] out[i],
            #[trigger] out[k],
        ) by {
            if i == 0 {
                keys::lemma_inserted_contains(rest, key, out[k]);
                assert(tail[k - 1] == out[k]);
                assert(tail.contains(out[k]));
                if rest.contains(out[k]) {
                    let j = choose|j: int| 0 <= j < rest.len() && rest[j] == out[k];
                    assert(v[j + 1] == out[k]);
                }
            } else {
                assert(out[i] == tail[i - 1]);
                assert(out[k] == tail[k - 1]);
            }
        }
    } else if v.len() > 0 && v[0] != key {
        let out = seq![key] + v;
        assert forall|i: int, k: int| 0 <= i < k < out.len() implies text::before(
            #[trigger] out[i],
            #[trigger] out[k],
        ) by {
            if i == 0 && k > 1 {
                keys::lemma_before_transitive(key, v[0], v[k - 1]);
            }
        }
    }
}

pub proof fn lemma_inserted_all(v: Seq<Seq<char>>, more: Seq<Seq<char>>)
    requires
        keys::ascending(v),
    ensures
        keys::ascending(keys::inserted_all(v, more)),
        forall|x: Seq<char>| #[trigger]
            keys::inserted_all(v, more).contains(x) == (v.contains(x) || more.contains(x)),
    decreases more.len(),
{
    if more.len() > 0 {
        let short = more.drop_last();
        lemma_inserted_all(v, short);
        let before = keys::inserted_all(v, short);
        lemma_inserted_ascending(before, more.last());
        assert forall|x: Seq<char>| #[trigger]
            keys::inserted_all(v, more).contains(x) == (v.contains(x) || more.contains(x)) by {
            keys::lemma_inserted_contains(before, more.last(), x);
            if short.contains(x) {
                let i = choose|i: int| 0 <= i < short.len() && short[i] == x;
                assert(more[i] == x);
            }
            if more.contains(x) && x != more.last() {
                let i = choose|i: int| 0 <= i < more.len() && more[i] == x;
                assert(short[i] == x);
            }
            assert(more[more.len() - 1] == more.last());
        }
    } else {
        assert(keys::inserted_all(v, more) == v);
        assert(forall|x: Seq<char>| !more.contains(x));
    }
}

/// Two sets of texts in their order that hold the same are the same.
pub proof fn lemma_ascending_unique(a: Seq<Seq<char>>, b: Seq<Seq<char>>)
    requires
        keys::ascending(a),
        keys::ascending(b),
        forall|x: Seq<char>| a.contains(x) == b.contains(x),
    ensures
        a == b,
    decreases a.len(),
{
    if a.len() == 0 {
        if b.len() > 0 {
            assert(b.contains(b[0]));
            assert(a.contains(b[0]));
        }
        assert(a =~= b);
    } else {
        assert(a.contains(a[0]));
        assert(b.contains(a[0]));
        let i = choose|i: int| 0 <= i < b.len() && b[i] == a[0];
        assert(b.contains(b[0]));
        assert(a.contains(b[0]));
        let k = choose|k: int| 0 <= k < a.len() && a[k] == b[0];
        if i > 0 && k > 0 {
            assert(text::before(b[0], b[i]));
            assert(text::before(a[0], a[k]));
            keys::lemma_before_transitive(a[0], b[0], a[0]);
            keys::lemma_before_irreflexive(a[0]);
        }
        assert(a[0] == b[0]);
        let x = a.drop_first();
        let y = b.drop_first();
        assert(forall|j: int| 0 <= j < x.len() ==> x[j] == a[j + 1]);
        assert(forall|j: int| 0 <= j < y.len() ==> y[j] == b[j + 1]);
        assert forall|t: Seq<char>| x.contains(t) == y.contains(t) by {
            keys::lemma_before_irreflexive(a[0]);
            if x.contains(t) {
                let j = choose|j: int| 0 <= j < x.len() && x[j] == t;
                assert(a[j + 1] == t);
                assert(b.contains(t));
                let m = choose|m: int| 0 <= m < b.len() && b[m] == t;
                assert(text::before(a[0], a[j + 1]));
                assert(y[m - 1] == t);
            }
            if y.contains(t) {
                let j = choose|j: int| 0 <= j < y.len() && y[j] == t;
                assert(b[j + 1] == t);
                assert(a.contains(t));
                let m = choose|m: int| 0 <= m < a.len() && a[m] == t;
                assert(text::before(b[0], b[j + 1]));
                assert(x[m - 1] == t);
            }
        }
        lemma_ascending_unique(x, y);
        assert(a =~= seq![a[0]] + x);
        assert(b =~= seq![b[0]] + y);
    }
}

proof fn lemma_ascending_subset(a: Seq<Seq<char>>, b: Seq<Seq<char>>)
    requires
        keys::ascending(a),
        forall|x: Seq<char>| a.contains(x) ==> b.contains(x),
    ensures
        a.len() <= b.len(),
{
    assert(a.no_duplicates()) by {
        assert forall|i: int, k: int|
            0 <= i < a.len() && 0 <= k < a.len() && i != k implies a[i] != a[k] by {
            keys::lemma_before_irreflexive(a[i]);
            if i < k {
                assert(text::before(a[i], a[k]));
            } else {
                assert(text::before(a[k], a[i]));
            }
        }
    }
    a.unique_seq_to_set();
    vstd::seq_lib::seq_to_set_is_finite(b);
    assert(a.to_set().subset_of(b.to_set())) by {
        assert forall|x: Seq<char>| a.to_set().contains(x) implies b.to_set().contains(x) by {
            assert(a.contains(x));
        }
    }
    vstd::set_lib::lemma_len_subset(a.to_set(), b.to_set());
    b.lemma_cardinality_of_set();
}

pub proof fn lemma_all_after(h: Seq<Seq<Seq<char>>>)
    ensures
        keys::ascending(all_after(h)),
        forall|x: Seq<char>| #[trigger]
            all_after(h).contains(x) == exists|n: int|
                0 <= n < h.len() && (#[trigger] h[n]).contains(x),
    decreases h.len(),
{
    if h.len() > 0 {
        let short = h.drop_last();
        lemma_all_after(short);
        lemma_inserted_all(all_after(short), h.last());
        assert forall|x: Seq<char>| #[trigger]
            all_after(h).contains(x) == exists|n: int|
                0 <= n < h.len() && (#[trigger] h[n]).contains(x) by {
            if all_after(short).contains(x) {
                let n = choose|n: int| 0 <= n < short.len() && (#[trigger] short[n]).contains(x);
                assert(h[n].contains(x));
            }
            if h.last().contains(x) {
                assert(h[h.len() - 1].contains(x));
            }
            if exists|n: int| 0 <= n < h.len() && (#[trigger] h[n]).contains(x) {
                let n = choose|n: int| 0 <= n < h.len() && (#[trigger] h[n]).contains(x);
                if n < h.len() - 1 {
                    assert(short[n].contains(x));
                }
            }
        }
    } else {
        assert(all_after(h) =~= Seq::empty());
    }
}

proof fn lemma_texts_read_back(v: Seq<Seq<char>>)
    ensures
        product_details::texts_in(evidence::text_values(v)) == v,
    decreases v.len(),
{
    if v.len() > 0 {
        lemma_texts_read_back(v.drop_last());
        assert(evidence::text_values(v).drop_last() =~= evidence::text_values(v.drop_last()));
        assert(v.drop_last().push(v.last()) =~= v);
    } else {
        assert(product_details::texts_in(evidence::text_values(v)) =~= v);
    }
}

proof fn lemma_node_fields(
    parent: Option<Seq<char>>,
    depth: nat,
    fresh: Seq<Seq<char>>,
    count: nat,
    all: Seq<Seq<char>>,
)
    ensures
        ({
            let d = review_pages::delta_node(parent, depth, fresh, count);
            &&& d.field("kind"@) == JsonV::Text("delta"@)
            &&& d.field("parent"@) == JsonV::optional_text(parent)
            &&& d.field("keys"@) == JsonV::Array(evidence::text_values(fresh))
            &&& d.field("count"@) == JsonV::unsigned(count as u64)
            &&& d.field("depth"@) == JsonV::unsigned(depth as u64)
            &&& !is_checkpoint(d)
        }),
        ({
            let c = review_pages::checkpoint_node(all);
            &&& c.field("kind"@) == JsonV::Text("checkpoint"@)
            &&& c.field("parent"@) == JsonV::Null
            &&& c.field("keys"@) == JsonV::Array(evidence::text_values(all))
            &&& c.field("count"@) == JsonV::unsigned(all.len() as u64)
            &&& c.field("depth"@) == JsonV::unsigned(0)
        }),
{
    broadcast use json::lemma_get_with;

    reveal_strlit("kind");
    reveal_strlit("parent");
    reveal_strlit("keys");
    reveal_strlit("count");
    reveal_strlit("depth");
    reveal_strlit("delta");
    reveal_strlit("checkpoint");
    assert("kind"@[1] != "keys"@[1]);
    assert("count"@[0] != "depth"@[0]);
    let d = review_pages::delta_node(parent, depth, fresh, count);
    assert(d.get("kind"@) == Some(JsonV::Text("delta"@)));
    assert(d.get("parent"@) == Some(JsonV::optional_text(parent)));
    assert(d.get("keys"@) == Some(JsonV::Array(evidence::text_values(fresh))));
    assert(d.get("count"@) == Some(JsonV::unsigned(count as u64)));
    assert(d.get("depth"@) == Some(JsonV::unsigned(depth as u64)));
    assert("delta"@.len() != "checkpoint"@.len());
    let c = review_pages::checkpoint_node(all);
    assert(c.get("kind"@) == Some(JsonV::Text("checkpoint"@)));
    assert(JsonV::object().get("parent"@) is None);
    assert(c.get("parent"@) is None);
    assert(c.get("keys"@) == Some(JsonV::Array(evidence::text_values(all))));
    assert(c.get("count"@) == Some(JsonV::unsigned(all.len() as u64)));
    assert(c.get("depth"@) == Some(JsonV::unsigned(0)));
}

/// How far the chain was read when the `n`-th answer comes next.
spec fn on_the_way(
    l: SeenLoaderV,
    h: Seq<Seq<Seq<char>>>,
    names: Seq<Seq<char>>,
    n: int,
) -> bool {
    let total = h.len() as int;
    &&& 1 <= n <= total
    &&& l.current == Some(names[n - 1])
    &&& keys::ascending(l.visited)
    &&& l.visited.len() == total - n
    &&& forall|x: Seq<char>| #[trigger]
        l.visited.contains(x) ==> exists|j: int| n <= j < total && names[j] == x
    &&& keys::ascending(l.keys)
    &&& forall|x: Seq<char>| #[trigger]
        l.keys.contains(x) == exists|j: int| n <= j < total && (#[trigger] h[j]).contains(x)
    &&& depth_after(h) == depth_after(h.take(n)) + (total - n)
    &&& l.nodes_read == total - n
    &&& if n == total {
        l.expected_depth is None && l.expected_count is None
    } else {
        &&& l.expected_depth == Some(depth_after(h.take(n)) as u64)
        &&& l.expected_count == Some(all_after(h).len() as u64)
        &&& l.head_depth == depth_after(h)
    }
}

proof fn lemma_depth_bound(h: Seq<Seq<Seq<char>>>)
    ensures
        depth_after(h) < marketplace::REVIEW_SEEN_CHECKPOINT_INTERVAL,
    decreases h.len(),
{
    if h.len() > 0 {
        lemma_depth_bound(h.drop_last());
    }
}

proof fn lemma_union(
    h: Seq<Seq<Seq<char>>>,
    known: Seq<Seq<char>>,
    n: int,
    more: Seq<Seq<char>>,
    from: int,
)
    requires
        1 <= n <= h.len(),
        keys::ascending(known),
        forall|x: Seq<char>| #[trigger]
            known.contains(x) == exists|j: int| n <= j < h.len() && (#[trigger] h[j]).contains(x),
        0 <= from < n,
        forall|x: Seq<char>| #[trigger]
            more.contains(x) == exists|j: int| from <= j < n && (#[trigger] h[j]).contains(x),
    ensures
        ({
            let all = keys::inserted_all(known, more);
            &&& keys::ascending(all)
            &&& forall|x: Seq<char>| #[trigger]
                all.contains(x) == exists|j: int|
                    from <= j < h.len() && (#[trigger] h[j]).contains(x)
            &&& all.len() <= all_after(h).len()
            &&& from == 0 ==> all == all_after(h)
        }),
{
    lemma_inserted_all(known, more);
    lemma_all_after(h);
    let all = keys::inserted_all(known, more);
    assert forall|x: Seq<char>| #[trigger]
        all.contains(x) == exists|j: int| from <= j < h.len() && (#[trigger] h[j]).contains(x) by {
        if known.contains(x) {
            let j = choose|j: int| n <= j < h.len() && (#[trigger] h[j]).contains(x);
            assert(h[j].contains(x));
        }
        if more.contains(x) {
            let j = choose|j: int| from <= j < n && (#[trigger] h[j]).contains(x);
            assert(h[j].contains(x));
        }
        if exists|j: int| from <= j < h.len() && (#[trigger] h[j]).contains(x) {
            let j = choose|j: int| from <= j < h.len() && (#[trigger] h[j]).contains(x);
            if j < n {
                assert(more.contains(x));
            } else {
                assert(known.contains(x));
            }
        }
    }
    assert forall|x: Seq<char>| all.contains(x) implies all_after(h).contains(x) by {
        let j = choose|j: int| from <= j < h.len() && (#[trigger] h[j]).contains(x);
        assert(h[j].contains(x));
    }
    lemma_ascending_subset(all, all_after(h));
    if from == 0 {
        assert forall|x: Seq<char>| all.contains(x) == all_after(h).contains(x) by {
        }
        lemma_ascending_unique(all, all_after(h));
    }
}

/// One more part is read.
proof fn lemma_read_on(
    l: SeenLoaderV,
    h: Seq<Seq<Seq<char>>>,
    names: Seq<Seq<char>>,
    research_id: Seq<char>,
    context_id: Seq<char>,
    n: int,
)
    requires
        on_the_way(l, h, names, n),
        names.len() == h.len(),
        names.no_duplicates(),
        all_kept(h, names),
        all_known(h),
        all_after(h).len() <= marketplace::MAX_SEEN_REVIEWS,
    ensures
        ({
            let value = kept_node(h.take(n), names)->Ok_0.0;
            &&& step_problem(l, false, false) is None
            &&& fed(
                l,
                Ok(StoredRefV { research_id, context_id, value }),
                research_id,
                context_id,
            ) matches Ok(next)
            &&& if next.current is Some {
                n > 1 && on_the_way(next, h, names, n - 1)
            } else {
                &&& next.keys == all_after(h)
                &&& next.expected_count == Some(all_after(h).len() as u64)
                &&& next.head_depth == depth_after(h)
            }
        }),
{
    let total = h.len() as int;
    let part = h.take(n);
    assert(part.drop_last() =~= h.take(n - 1));
    assert(part.last() == h[n - 1]);
    lemma_depth_bound(h);
    lemma_depth_bound(h.take(n - 1));
    assert(kept_node(part, names) is Ok);
    if l.visited.contains(names[n - 1]) {
        let last = names[n - 1];
        let j = choose|j: int| n <= j < total && #[trigger] names[j] == last;
        assert(false);
    }
    let fresh = h[n - 1];
    let before = depth_after(h.take(n - 1));
    let value = kept_node(part, names)->Ok_0.0;
    let parent: Option<Seq<char>> = if n == 1 {
        None
    } else {
        Some(names[n - 2])
    };
    lemma_node_fields(parent, before + 1, fresh, all_after(part).len(), all_after(part));
    lemma_texts_read_back(fresh);
    lemma_texts_read_back(all_after(part));
    lemma_all_after(part);
    lemma_all_after(h);
    if n == total {
        assert(part =~= h);
    }
    keys::lemma_before_irreflexive(names[n - 1]);
    lemma_inserted_ascending(l.visited, names[n - 1]);
    lemma_inserted_len(l.visited, names[n - 1]);
    if before + 1 >= marketplace::REVIEW_SEEN_CHECKPOINT_INTERVAL {
        let all = all_after(part);
        assert(value == review_pages::checkpoint_node(all));
        assert forall|x: Seq<char>| #[trigger]
            all.contains(x) == exists|j: int| 0 <= j < n && (#[trigger] h[j]).contains(x) by {
            if all.contains(x) {
                let j = choose|j: int| 0 <= j < part.len() && (#[trigger] part[j]).contains(x);
                assert(h[j].contains(x));
            }
            if exists|j: int| 0 <= j < n && (#[trigger] h[j]).contains(x) {
                let j = choose|j: int| 0 <= j < n && (#[trigger] h[j]).contains(x);
                assert(part[j].contains(x));
            }
        }
        lemma_union(h, l.keys, n, all, 0);
        assert(fresh.contains(fresh[0]));
        assert(h[n - 1].contains(fresh[0]));
        assert(all.contains(fresh[0]));
        assert(all.len() > 0);
        assert forall|i: int| 0 <= i < all.len() implies is_identity(#[trigger] all[i]) by {
            assert(all.contains(all[i]));
            let j = choose|j: int| 0 <= j < n && (#[trigger] h[j]).contains(all[i]);
            let k = choose|k: int| 0 <= k < h[j].len() && h[j][k] == all[i];
            assert(is_identity(h[j][k]));
        }
        assert(all_identities(evidence::text_values(all)));
        assert(keys_problem(value, l.keys) is None);
    } else {
        let d = (before + 1) as nat;
        assert(value == review_pages::delta_node(parent, d, fresh, all_after(part).len()));
        assert forall|x: Seq<char>| #[trigger]
            fresh.contains(x) == exists|j: int| n - 1 <= j < n && (#[trigger] h[j]).contains(x) by {
            if fresh.contains(x) {
                assert(h[n - 1].contains(x));
            }
        }
        lemma_union(h, l.keys, n, fresh, n - 1);
        assert forall|i: int| 0 <= i < fresh.len() implies is_identity(#[trigger] fresh[i]) by {
            assert(is_identity(h[n - 1][i]));
        }
        assert(all_identities(evidence::text_values(fresh)));
        assert(keys_problem(value, l.keys) is None);
        let next = fed(
            l,
            Ok(StoredRefV { research_id, context_id, value }),
            research_id,
            context_id,
        )->Ok_0;
        if n > 1 {
            assert forall|x: Seq<char>| #[trigger] next.visited.contains(x) implies exists|j: int|
                n - 1 <= j < total && names[j] == x by {
                keys::lemma_inserted_contains(l.visited, names[n - 1], x);
                if x == names[n - 1] {
                    assert(names[n - 1] == x);
                } else {
                    let j = choose|j: int| n <= j < total && names[j] == x;
                    assert(names[j] == x);
                }
            }
        } else {
            assert(h.take(0) =~= Seq::empty());
        }
    }
}

proof fn lemma_read_back(
    l: SeenLoaderV,
    h: Seq<Seq<Seq<char>>>,
    names: Seq<Seq<char>>,
    research_id: Seq<char>,
    context_id: Seq<char>,
    n: int,
)
    requires
        on_the_way(l, h, names, n),
        names.len() == h.len(),
        names.no_duplicates(),
        all_kept(h, names),
        all_known(h),
        all_after(h).len() <= marketplace::MAX_SEEN_REVIEWS,
    ensures
        read_back(l, h, names, research_id, context_id, n) matches Ok(end) && end.current is None
            && end.keys == all_after(h) && end.expected_count == Some(all_after(h).len() as u64)
            && end.head_depth == depth_after(h),
    decreases n,
{
    lemma_read_on(l, h, names, research_id, context_id, n);
    let value = kept_node(h.take(n), names)->Ok_0.0;
    let next = fed(
        l,
        Ok(StoredRefV { research_id, context_id, value }),
        research_id,
        context_id,
    )->Ok_0;
    if next.current is Some {
        lemma_read_back(next, h, names, research_id, context_id, n - 1);
    } else {
        assert(read_back(next, h, names, research_id, context_id, n - 1) == Ok::<
            SeenLoaderV,
            FailureV,
        >(next));
    }
}

/// Whatever answers showed, in however many parts it was kept: reading the chain from its
/// last part gives back every review that was seen and no other, and its depth.
pub proof fn seen_reviews_are_read_back(
    h: Seq<Seq<Seq<char>>>,
    names: Seq<Seq<char>>,
    research_id: Seq<char>,
    context_id: Seq<char>,
)
    requires
        h.len() > 0,
        names.len() == h.len(),
        names.no_duplicates(),
        all_kept(h, names),
        all_known(h),
    ensures
        read_back(
            started(Some(names.last())),
            h,
            names,
            research_id,
            context_id,
            h.len() as int,
        ) matches Ok(end) && end.current is None && end.keys == all_after(h)
            && end.expected_count == Some(end.keys.len() as u64) && end.head_depth == depth_after(
            h,
        ),
{
    let l = started(Some(names.last()));
    let total = h.len() as int;
    assert(h.take(total) =~= h);
    assert(kept_node(h.take(total), names) is Ok);
    assert forall|x: Seq<char>| #[trigger] l.keys.contains(x) == exists|j: int|
        total <= j < total && (#[trigger] h[j]).contains(x) by {
    }
    lemma_read_back(l, h, names, research_id, context_id, total);
}

} // verus!
