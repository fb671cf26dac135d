//! The references that an operation makes, to be stored when it is done.

use crate::json::{Json, JsonV};
use crate::text;
use vstd::prelude::*;

verus! {

/// A reference to store: a value under a new name, bound to a research.
#[derive(Debug)]
pub struct RefWrite {
    pub id: String,
    pub research_id: String,
    pub kind: String,
    pub value: Json,
    pub ttl_seconds: Option<u64>,
}

/// What a [`RefWrite`] holds.
pub struct RefWriteV {
    pub id: Seq<char>,
    pub research_id: Seq<char>,
    pub kind: Seq<char>,
    pub value: JsonV,
    pub ttl_seconds: Option<u64>,
}

impl View for RefWrite {
    type V = RefWriteV;

    open spec fn view(&self) -> RefWriteV {
        RefWriteV {
            id: self.id@,
            research_id: self.research_id@,
            kind: self.kind@,
            value: self.value@,
            ttl_seconds: self.ttl_seconds,
        }
    }
}

/// A supply of fresh identifiers, and the references that were made with them.
#[derive(Debug)]
pub struct Ledger {
    /// The identifiers that were drawn, the used ones first.
    pub ids: Vec<String>,
    /// How many of them are used.
    pub used: usize,
    /// The references, in the order in which they were made.
    pub writes: Vec<RefWrite>,
    /// The identifier of the context in which the research was made.
    pub context: Json,
}

/// What a [`Ledger`] holds.
#[verifier::ext_equal]
pub struct LedgerV {
    pub ids: Seq<Seq<char>>,
    pub used: nat,
    pub writes: Seq<RefWriteV>,
    pub context: JsonV,
}

/// References by their contents.
pub open spec fn written(v: Seq<RefWrite>) -> Seq<RefWriteV> {
    Seq::new(v.len(), |i: int| v[i]@)
}

impl View for Ledger {
    type V = LedgerV;

    open spec fn view(&self) -> LedgerV {
        LedgerV {
            ids: text::texts(self.ids@),
            used: self.used as nat,
            writes: written(self.writes@),
            context: self.context@,
        }
    }
}

/// The name of a reference.
pub open spec fn ref_name(id: Seq<char>) -> Seq<char> {
    "ref_"@ + id
}

impl LedgerV {
    /// How many identifiers are left.
    pub open spec fn left(self) -> int {
        self.ids.len() - self.used
    }

    /// The identifier that is drawn next.
    pub open spec fn next(self) -> Seq<char> {
        self.ids[self.used as int]
    }

    /// The ledger after one identifier was drawn.
    pub open spec fn drawn(self) -> LedgerV {
        LedgerV { used: self.used + 1, ..self }
    }

    /// The name of the reference that is made next.
    pub open spec fn next_ref(self) -> Seq<char> {
        ref_name(self.next())
    }

    /// The ledger after a reference was made.
    pub open spec fn put(
        self,
        research_id: Seq<char>,
        kind: Seq<char>,
        value: JsonV,
        ttl_seconds: Option<u64>,
    ) -> LedgerV {
        LedgerV {
            used: self.used + 1,
            writes: self.writes.push(
                RefWriteV { id: self.next_ref(), research_id, kind, value, ttl_seconds },
            ),
            ..self
        }
    }

    /// The ledger with the identifiers of another one.
    pub open spec fn supplied(self, other: LedgerV) -> LedgerV {
        LedgerV { ids: other.ids, ..self }
    }

    /// Whether only identifiers were added since.
    pub open spec fn extends(self, before: LedgerV) -> bool {
        &&& self == before.supplied(self)
        &&& self.ids.len() >= before.ids.len()
        &&& self.ids.take(before.ids.len() as int) == before.ids
    }

    /// Whether every identifier reads as a UUID, and no more are used than there are.
    pub open spec fn valid(self) -> bool {
        &&& self.used <= self.ids.len()
        &&& forall|i: int| 0 <= i < self.ids.len() ==> #[trigger] reads_as_uuid(self.ids[i])
    }
}

/// Whether `uuid::Uuid::parse_str` reads a text.
pub uninterp spec fn reads_as_uuid(input: Seq<char>) -> bool;

/// `uuid::Uuid::parse_str`: whether it succeeds is a function of the text.
#[verifier::external_body]
pub(crate) fn is_uuid(input: &str) -> (r: bool)
    ensures
        r == reads_as_uuid(input@),
{
    uuid::Uuid::parse_str(input).is_ok()
}

/// `uuid::Uuid::new_v4`, as text: a random identifier, of which it is only said that
/// `uuid::Uuid::parse_str` reads it.
#[verifier::external_body]
pub(crate) fn fresh_id() -> (r: String)
    ensures
        reads_as_uuid(r@),
{
    uuid::Uuid::new_v4().to_string()
}

impl Ledger {
    /// A ledger without references, for a research that was made in this context.
    pub fn new(context: Json) -> (r: Ledger)
        ensures
            r@.used == 0,
            r@.writes.len() == 0,
            r@.context == context@,
            r@.valid(),
    {
        Ledger { ids: Vec::new(), used: 0, writes: Vec::new(), context }
    }

    /// Adds identifiers.
    pub fn stock(&mut self, times: usize, each: usize)
        ensures
            final(self)@.extends(old(self)@),
            final(self)@.ids.len() == old(self)@.ids.len() + times * each,
            old(self)@.valid() ==> final(self)@.valid(),
    {
        let ghost before = self@;
        assert(self@.ids.take(before.ids.len() as int) =~= before.ids);
        assert(self@ =~= before.supplied(self@));
        let mut i: usize = 0;
        while i < times
            invariant
                0 <= i <= times,
                self@.extends(before),
                self@.ids.len() == before.ids.len() + i * each,
                before.valid() ==> self@.valid(),
            decreases times - i,
        {
            let mut k: usize = 0;
            while k < each
                invariant
                    0 <= k <= each,
                    self@.extends(before),
                    self@.ids.len() == before.ids.len() + i * each + k,
                    before.valid() ==> self@.valid(),
                decreases each - k,
            {
                let ghost now = self@;
                let id: String = fresh_id();
                proof {
                    text::lemma_texts_push(self.ids@, id);
                }
                self.ids.push(id);
                assert(self@.ids.take(before.ids.len() as int) =~= now.ids.take(
                    before.ids.len() as int,
                ));
                assert(self@ =~= before.supplied(self@));
                assert(before.valid() ==> self@.valid()) by {
                    if before.valid() {
                        assert forall|j: int| 0 <= j < self@.ids.len() implies reads_as_uuid(
                            #[trigger] self@.ids[j],
                        ) by {
                            if j < now.ids.len() {
                                assert(self@.ids[j] == now.ids[j]);
                            }
                        }
                    }
                }
                k = k + 1;
            }
            assert((i + 1) * each == i * each + each) by (nonlinear_arith);
            i = i + 1;
        }
        assert(self@.ids.take(before.ids.len() as int) =~= before.ids);
    }

    /// Draws an identifier.
    pub fn draw(&mut self) -> (r: String)
        requires
            old(self)@.left() > 0,
        ensures
            r@ == old(self)@.next(),
            final(self)@ == old(self)@.drawn(),
    {
        let ghost before = self@;
        let end: usize = self.ids.len();
        assert(self.used < end);
        let id: String = self.ids[self.used].clone();
        self.used = self.used + 1;
        assert(self@ =~= before.drawn());
        id
    }

    /// Makes a reference with an identifier of the supply.
    pub fn put(&mut self, research_id: &str, kind: &str, value: Json, ttl_seconds: Option<u64>) -> (r:
        String)
        requires
            old(self)@.left() > 0,
        ensures
            r@ == old(self)@.next_ref(),
            final(self)@ == old(self)@.put(research_id@, kind@, value@, ttl_seconds),
    {
        let ghost before = self@;
        let id: String = text::joined("ref_", self.draw().as_str());
        let write: RefWrite = RefWrite {
            id: id.clone(),
            research_id: research_id.to_owned(),
            kind: kind.to_owned(),
            value,
            ttl_seconds,
        };
        let ghost writes = self.writes@;
        self.writes.push(write);
        assert(written(self.writes@) =~= written(writes).push(write@));
        assert(self@ =~= before.put(research_id@, kind@, value@, ttl_seconds));
        id
    }

    /// Makes a reference.
    pub fn put_ref(&mut self, research_id: &str, kind: &str, value: Json, ttl_seconds: Option<u64>) -> (r:
        String)
        requires
            old(self)@.valid(),
        ensures
            final(self)@.valid(),
            final(self)@.ids.take(old(self)@.ids.len() as int) == old(self)@.ids,
            final(self)@ == old(self)@.supplied(final(self)@).put(
                research_id@,
                kind@,
                value@,
                ttl_seconds,
            ),
            r@ == old(self)@.supplied(final(self)@).next_ref(),
    {
        self.stock(1, 1);
        self.put(research_id, kind, value, ttl_seconds)
    }
}

/// A reference that was stored: its value, and the research and context it is bound to.
#[derive(Debug)]
pub struct StoredRef {
    pub research_id: String,
    pub context_id: String,
    pub value: Json,
}

/// What a [`StoredRef`] holds.
pub struct StoredRefV {
    pub research_id: Seq<char>,
    pub context_id: Seq<char>,
    pub value: JsonV,
}

impl View for StoredRef {
    type V = StoredRefV;

    open spec fn view(&self) -> StoredRefV {
        StoredRefV {
            research_id: self.research_id@,
            context_id: self.context_id@,
            value: self.value@,
        }
    }
}

} // verus!
