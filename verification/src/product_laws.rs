//! What the pages of a product add up to.

use crate::failure::FailureV;
use crate::json::{self, JsonV};
use crate::ledger::{LedgerV, RefWriteV};
use crate::marketplace;
use crate::product_details::{self, ProductNormalizedV, SubjectV};
use crate::search_results;
use vstd::prelude::*;

verus! {

/// Rows one after the other.
pub open spec fn all_of<A>(pages: Seq<Seq<A>>) -> Seq<A>
    decreases pages.len(),
{
    if pages.len() == 0 {
        Seq::empty()
    } else {
        all_of(pages.drop_last()) + pages.last()
    }
}

proof fn lemma_windows_so_far<A>(all: Seq<A>, n: int, pages: Seq<Seq<A>>)
    requires
        n > 0,
        pages.len() > 0,
        forall|i: int|
            0 <= i < pages.len() ==> #[trigger] pages[i] == product_details::window(all, i * n, n),
        (pages.len() - 1) * n <= all.len(),
    ensures
        all_of(pages) == all.take(marketplace::at_most(pages.len() * n, all.len() as int)),
    decreases pages.len(),
{
    let before = pages.drop_last();
    let last = pages.len() - 1;
    assert(last * n + n == pages.len() * n) by (nonlinear_arith)
        requires
            last == pages.len() - 1,
    ;
    if before.len() > 0 {
        assert((before.len() - 1) * n <= last * n) by (nonlinear_arith)
            requires
                before.len() == last,
                n > 0,
        ;
        assert forall|i: int| 0 <= i < before.len() implies #[trigger] before[i]
            == product_details::window(all, i * n, n) by {
            assert(before[i] == pages[i]);
        }
        lemma_windows_so_far(all, n, before);
    } else {
        assert(last * n == 0) by (nonlinear_arith)
            requires
                last == 0,
        ;
        assert(all_of(before) =~= all.take(0));
    }
    assert(pages.last() == product_details::window(all, last * n, n));
    assert(all_of(pages) =~= all.take(marketplace::at_most(pages.len() * n, all.len() as int)));
}

/// Pages of a row that leave nothing between them and nothing behind them hold each of its
/// values once, in order.
pub proof fn pages_hold_the_row<A>(all: Seq<A>, n: int, pages: Seq<Seq<A>>)
    requires
        n > 0,
        pages.len() > 0,
        forall|i: int|
            0 <= i < pages.len() ==> #[trigger] pages[i] == product_details::window(all, i * n, n),
        (pages.len() - 1) * n <= all.len() <= pages.len() * n,
    ensures
        all_of(pages) == all,
{
    lemma_windows_so_far(all, n, pages);
    assert(all.take(all.len() as int) =~= all);
}

/// The sections that are cut into pages of an observation.
pub open spec fn is_cut(section: Seq<char>) -> bool {
    section == "characteristics"@ || section == "description"@ || section == "images"@
}

/// How many values a page of a section shows.
pub open spec fn page_size(section: Seq<char>) -> u64 {
    if section == "characteristics"@ {
        50
    } else if section == "description"@ {
        12000
    } else {
        12
    }
}

/// How many values a section has.
pub open spec fn value_count(raw: JsonV, section: Seq<char>) -> nat {
    if section == "characteristics"@ {
        product_details::members_of(raw.field("characteristics"@)).len()
    } else if section == "description"@ {
        match product_details::description_text(raw) {
            Some(t) => t.len(),
            None => 0,
        }
    } else {
        product_details::product_images(raw).len()
    }
}

/// A call that shows a product, or a page of it.
pub struct PageCallV {
    pub ledger: LedgerV,
    pub raw: JsonV,
    pub requested: JsonV,
    pub asked: Seq<Seq<char>>,
    pub research_id: Seq<char>,
    pub context_id: Seq<char>,
    pub now: Seq<char>,
}

impl PageCallV {
    #[verifier::opaque]
    pub open spec fn made(self) -> Result<(LedgerV, ProductNormalizedV), (LedgerV, FailureV)> {
        product_details::product_made(
            self.raw,
            self.requested,
            self.ledger,
            self.research_id,
            self.context_id,
            self.asked,
            self.now,
        )
    }

    /// The ledger after the call.
    pub open spec fn after(self) -> LedgerV {
        self.made()->Ok_0.0
    }

    /// The section that the answer shows.
    pub open spec fn shown(self, section: Seq<char>) -> JsonV {
        self.made()->Ok_0.1.result.field("product"@).field(section)
    }

    /// Whom the call observes.
    pub open spec fn subject(self) -> SubjectV {
        let sku = self.raw.field("sku"@)->Text_0;
        let url = marketplace::canonical_in(self.raw, "url"@)->Some_0;
        let named = product_details::product_named(
            self.ledger,
            self.raw,
            self.research_id,
            sku,
            url,
        );
        SubjectV {
            research_id: self.research_id,
            product_ref: named.1,
            source_url: url,
            sku,
            ev: marketplace::evidence_name(named.0.next()),
            observed: product_details::observed_at(self.raw, self.now),
        }
    }
}

/// Whether a reference was made between two ledgers.
pub open spec fn is_written(before: LedgerV, after: LedgerV, w: RefWriteV) -> bool {
    exists|i: int| before.writes.len() <= i < after.writes.len() && #[trigger] after.writes[i] == w
}

/// Whether a reference is the continuation of a section.
pub open spec fn continues(w: RefWriteV, section: Seq<char>) -> bool {
    &&& w.kind == "product_cursor"@
    &&& w.value.field("include"@) == marketplace::only_text(section)
}

/// Whether a ledger goes on from another one, and continues sections at the right place only.
spec fn goes_on(before: LedgerV, after: LedgerV, raw: JsonV, s: SubjectV) -> bool {
    &&& before.writes.len() <= after.writes.len()
    &&& after.writes.take(before.writes.len() as int) == before.writes
    &&& forall|i: int, section: Seq<char>|
        before.writes.len() <= i < after.writes.len() && is_cut(section) && #[trigger] continues(
            after.writes[i],
            section,
        ) ==> after.writes[i].value.field("cachedRaw"@) == product_details::captured_raw(
            raw,
            section,
            (product_details::continued_at(raw) + page_size(section)) as u64,
            s,
        )
}

proof fn lemma_goes_on(a: LedgerV, b: LedgerV, c: LedgerV, raw: JsonV, s: SubjectV)
    requires
        goes_on(a, b, raw, s),
        goes_on(b, c, raw, s),
    ensures
        goes_on(a, c, raw, s),
{
    assert(c.writes.take(a.writes.len() as int) =~= b.writes.take(a.writes.len() as int)) by {
        assert forall|i: int| 0 <= i < a.writes.len() implies c.writes[i] == b.writes[i] by {
            assert(c.writes.take(b.writes.len() as int)[i] == b.writes[i]);
        }
    }
    assert forall|i: int, section: Seq<char>|
        a.writes.len() <= i < c.writes.len() && is_cut(section) && #[trigger] continues(
            c.writes[i],
            section,
        ) implies c.writes[i].value.field("cachedRaw"@) == product_details::captured_raw(
        raw,
        section,
        (product_details::continued_at(raw) + page_size(section)) as u64,
        s,
    ) by {
        if i < b.writes.len() {
            assert(c.writes.take(b.writes.len() as int)[i] == b.writes[i]);
            assert(continues(b.writes[i], section));
        }
    }
}

/// A reference of another kind continues nothing.
proof fn lemma_put_other(
    ledger: LedgerV,
    rid: Seq<char>,
    kind: Seq<char>,
    value: JsonV,
    ttl: Option<u64>,
    raw: JsonV,
    s: SubjectV,
)
    requires
        kind != "product_cursor"@,
    ensures
        goes_on(ledger, ledger.put(rid, kind, value, ttl), raw, s),
{
    let after = ledger.put(rid, kind, value, ttl);
    assert(after.writes.take(ledger.writes.len() as int) =~= ledger.writes);
}

proof fn lemma_cached_goes_on(
    ledger: LedgerV,
    raw: JsonV,
    section: Seq<char>,
    s: SubjectV,
)
    requires
        is_cut(section),
    ensures
        goes_on(
            ledger,
            product_details::cached_continuation(
                ledger,
                raw,
                section,
                value_count(raw, section),
                page_size(section),
                s,
            ).0,
            raw,
            s,
        ),
{
    broadcast use json::lemma_get_with;

    reveal_strlit("cachedRaw");
    reveal_strlit("include");
    reveal_strlit("capturedAt");
    reveal_strlit("contextId");
    assert("cachedRaw"@.len() == 9 && "include"@.len() == 7 && "capturedAt"@.len() == 10);
    assert("contextId"@.len() == 9);
    assert("cachedRaw"@[1] == 'a' && "contextId"@[1] == 'o');
    let after = product_details::cached_continuation(
        ledger,
        raw,
        section,
        value_count(raw, section),
        page_size(section),
        s,
    ).0;
    assert(after.writes.take(ledger.writes.len() as int) =~= ledger.writes);
    let offset = (product_details::continued_at(raw) + page_size(section)) as u64;
    let value = product_details::cached_cursor_value(ledger, raw, section, offset, s);
    assert(value.field("cachedRaw"@) == product_details::captured_raw(raw, section, offset, s));
    assert(value.field("include"@) == marketplace::only_text(section));
    assert forall|i: int, other: Seq<char>|
        ledger.writes.len() <= i < after.writes.len() && is_cut(other) && #[trigger] continues(
            after.writes[i],
            other,
        ) implies after.writes[i].value.field("cachedRaw"@) == product_details::captured_raw(
        raw,
        other,
        (product_details::continued_at(raw) + page_size(other)) as u64,
        s,
    ) by {
        assert(after.writes[i].value == value);
        assert(marketplace::only_text(section)->Array_0[0] == marketplace::only_text(
            other,
        )->Array_0[0]);
        assert(section == other);
    }
}

proof fn lemma_listed_goes_on(
    ledger: LedgerV,
    raw: JsonV,
    section: Seq<char>,
    rid: Seq<char>,
    s: SubjectV,
)
    requires
        !is_cut(section),
    ensures
        goes_on(
            ledger,
            product_details::listed_continuation(ledger, raw, section, rid).0,
            raw,
            s,
        ),
{
    broadcast use json::lemma_get_with;

    reveal_strlit("path");
    reveal_strlit("include");
    assert("path"@.len() == 4 && "include"@.len() == 7);
    let after = product_details::listed_continuation(ledger, raw, section, rid).0;
    assert(after.writes.take(ledger.writes.len() as int) =~= ledger.writes);
    assert forall|i: int, other: Seq<char>|
        ledger.writes.len() <= i < after.writes.len() && is_cut(other) implies !#[trigger] continues(
        after.writes[i],
        other,
    ) by {
        if continues(after.writes[i], other) {
            assert(after.writes[i].value.field("include"@) == marketplace::only_text(section));
            assert(marketplace::only_text(section)->Array_0[0] == marketplace::only_text(
                other,
            )->Array_0[0]);
        }
    }
}

proof fn lemma_variants_go_on(ledger: LedgerV, rows: Seq<JsonV>, raw: JsonV, s: SubjectV)
    ensures
        goes_on(ledger, product_details::variant_rows(ledger, rows, s).0, raw, s),
    decreases rows.len(),
{
    reveal_strlit("product");
    reveal_strlit("product_cursor");
    assert("product"@.len() == 7 && "product_cursor"@.len() == 14);
    if rows.len() == 0 {
        assert(ledger.writes.take(ledger.writes.len() as int) =~= ledger.writes);
    } else {
        lemma_variants_go_on(ledger, rows.drop_last(), raw, s);
        let before = product_details::variant_rows(ledger, rows.drop_last(), s);
        let v = rows.last();
        if let JsonV::Text(sku) = v.field("sku"@) {
            let value = JsonV::object().with("sku"@, JsonV::Text(sku)).with("url"@, v.field("url"@));
            lemma_put_other(before.0, s.research_id, "product"@, value, None, raw, s);
            lemma_goes_on(
                ledger,
                before.0,
                before.0.put(s.research_id, "product"@, value, None),
                raw,
                s,
            );
        }
    }
}

/// The row of an image names the reference that holds its URL.
pub open spec fn shows_image(before: LedgerV, after: LedgerV, row: JsonV, url: Seq<char>) -> bool {
    exists|w: RefWriteV|
        #![trigger is_written(before, after, w)]
        {
            &&& is_written(before, after, w)
            &&& row.field("imageRef"@) == JsonV::Text(w.id)
            &&& w.kind == "image"@
            &&& w.value.field("url"@) == JsonV::Text(url)
        }
}

proof fn lemma_shows_later(
    a: LedgerV,
    b: LedgerV,
    c: LedgerV,
    d: LedgerV,
    row: JsonV,
    url: Seq<char>,
    raw: JsonV,
    s: SubjectV,
)
    requires
        goes_on(a, b, raw, s),
        goes_on(c, d, raw, s),
        shows_image(b, c, row, url),
    ensures
        shows_image(a, d, row, url),
{
    let w = choose|w: RefWriteV|
        #![trigger is_written(b, c, w)]
        {
            &&& is_written(b, c, w)
            &&& row.field("imageRef"@) == JsonV::Text(w.id)
            &&& w.kind == "image"@
            &&& w.value.field("url"@) == JsonV::Text(url)
        };
    let i = choose|i: int| b.writes.len() <= i < c.writes.len() && #[trigger] c.writes[i] == w;
    assert(d.writes.take(c.writes.len() as int)[i] == c.writes[i]);
    assert(d.writes[i] == w);
    assert(is_written(a, d, w));
}

proof fn lemma_images_go_on(
    ledger: LedgerV,
    images: Seq<(Seq<char>, Seq<char>)>,
    first: int,
    raw: JsonV,
    s: SubjectV,
)
    ensures
        ({
            let made = product_details::image_rows(ledger, images, first, s);
            &&& goes_on(ledger, made.0, raw, s)
            &&& made.1.len() == images.len()
            &&& forall|k: int|
                0 <= k < images.len() ==> shows_image(
                    ledger,
                    made.0,
                    #[trigger] made.1[k],
                    images[k].0,
                )
        }),
    decreases images.len(),
{
    broadcast use json::lemma_get_with;

    reveal_strlit("image");
    reveal_strlit("product_cursor");
    reveal_strlit("url");
    reveal_strlit("sourceKind");
    reveal_strlit("sourceRef");
    reveal_strlit("sourceUrl");
    reveal_strlit("sku");
    reveal_strlit("fieldPath");
    reveal_strlit("imageRef");
    reveal_strlit("altText");
    reveal_strlit("evidenceRefs");
    assert("image"@.len() == 5 && "product_cursor"@.len() == 14 && "url"@.len() == 3);
    assert("sourceKind"@.len() == 10 && "sourceRef"@.len() == 9 && "sourceUrl"@.len() == 9);
    assert("sku"@.len() == 3 && "sku"@[0] == 's' && "url"@[0] == 'u' && "fieldPath"@.len() == 9);
    assert("imageRef"@.len() == 8 && "altText"@.len() == 7 && "evidenceRefs"@.len() == 12);
    if images.len() == 0 {
        assert(ledger.writes.take(ledger.writes.len() as int) =~= ledger.writes);
    } else {
        let front = images.drop_last();
        lemma_images_go_on(ledger, front, first, raw, s);
        let before = product_details::image_rows(ledger, front, first, s);
        let made = product_details::image_rows(ledger, images, first, s);
        let w = made.0.writes.last();
        lemma_put_other(before.0, s.research_id, "image"@, w.value, None, raw, s);
        assert(made.0 == before.0.put(s.research_id, "image"@, w.value, None));
        lemma_goes_on(ledger, before.0, made.0, raw, s);
        assert(made.0.writes[before.0.writes.len() as int] == w);
        assert(is_written(ledger, made.0, w));
        assert(w.value.field("url"@) == JsonV::Text(images.last().0));
        assert(made.1.last().field("imageRef"@) == JsonV::Text(w.id));
        assert(ledger.writes.take(ledger.writes.len() as int) =~= ledger.writes);
        assert forall|k: int| 0 <= k < images.len() implies shows_image(
            ledger,
            made.0,
            #[trigger] made.1[k],
            images[k].0,
        ) by {
            if k < front.len() {
                assert(made.1[k] == before.1[k]);
                assert(front[k] == images[k]);
                lemma_shows_later(
                    ledger,
                    ledger,
                    before.0,
                    made.0,
                    before.1[k],
                    images[k].0,
                    raw,
                    s,
                );
            }
        }
    }
}

/// The names and values that a page of characteristics shows.
pub open spec fn named_values(page: JsonV) -> Seq<(JsonV, JsonV)> {
    let items = page.field("items"@).elements();
    Seq::new(items.len(), |k: int| (items[k].field("name"@), items[k].field("value"@)))
}

/// The names and values of all characteristics of a product.
pub open spec fn all_named_values(raw: JsonV) -> Seq<(JsonV, JsonV)> {
    let pairs = product_details::members_of(raw.field("characteristics"@));
    Seq::new(
        pairs.len(),
        |k: int| (JsonV::Text(pairs[k].0), JsonV::optional_text(pairs[k].1.as_text())),
    )
}

/// Whether the rows of a page name these images, one after the other.
pub open spec fn shows_images(
    before: LedgerV,
    after: LedgerV,
    page: JsonV,
    urls: Seq<Seq<char>>,
) -> bool {
    let items = page.field("items"@).elements();
    &&& items.len() == urls.len()
    &&& forall|k: int|
        0 <= k < items.len() ==> shows_image(before, after, #[trigger] items[k], urls[k])
}

/// The URLs of all images of a product.
pub open spec fn image_urls(raw: JsonV) -> Seq<Seq<char>> {
    let images = product_details::product_images(raw);
    Seq::new(images.len(), |k: int| images[k].0)
}

/// Whether a section was observed at all.
pub open spec fn is_observed(raw: JsonV, section: Seq<char>) -> bool {
    if section == "characteristics"@ {
        raw.field("characteristics"@) is Object
    } else if section == "description"@ {
        product_details::description_text(raw) is Some
    } else {
        true
    }
}

/// Whether a page of a section says that there is more, or that there is not.
pub open spec fn says_more(page: JsonV, more: bool) -> bool {
    &&& page.field("hasNext"@) == JsonV::Bool(more)
    &&& page.field("truncated"@) == JsonV::Bool(more)
    &&& page.field("status"@) == JsonV::Text(
        if more {
            "partial"@
        } else {
            "available"@
        },
    )
}

/// Whether a page shows what it should of a section, and says rightly whether there is more.
spec fn shows_page(
    before: LedgerV,
    after: LedgerV,
    page: JsonV,
    raw: JsonV,
    section: Seq<char>,
) -> bool {
    let offset = product_details::continued_at(raw);
    &&& (page.field("nextCursor"@) is Text) == (product_details::remaining_of(
        value_count(raw, section),
        offset,
    ) > page_size(section))
    &&& is_observed(raw, section) ==> says_more(
        page,
        product_details::remaining_of(value_count(raw, section), offset) > page_size(section),
    )
    &&& section == "characteristics"@ ==> named_values(page) == product_details::window(
        all_named_values(raw),
        offset as int,
        50,
    )
    &&& section == "description"@ ==> match product_details::description_text(raw) {
        Some(t) => page.field("text"@) == JsonV::Text(
            product_details::window(t, offset as int, 12000),
        ),
        None => page.field("text"@) == JsonV::Null,
    }
    &&& section == "images"@ ==> shows_images(
        before,
        after,
        page,
        product_details::window(image_urls(raw), offset as int, 12),
    )
}

/// The keys of a section differ.
proof fn lemma_section_keys()
    ensures
        "status"@ != "truncated"@,
        "status"@ != "hasNext"@,
        "status"@ != "items"@,
        "status"@ != "text"@,
        "status"@ != "evidenceRefs"@,
        "truncated"@ != "hasNext"@,
        "truncated"@ != "items"@,
        "truncated"@ != "text"@,
        "truncated"@ != "evidenceRefs"@,
        "hasNext"@ != "items"@,
        "hasNext"@ != "text"@,
        "hasNext"@ != "evidenceRefs"@,
        "status"@ != "nextCursor"@,
        "truncated"@ != "nextCursor"@,
        "hasNext"@ != "nextCursor"@,
        "items"@ != "nextCursor"@,
        "text"@ != "nextCursor"@,
        "evidenceRefs"@ != "nextCursor"@,
        "evidenceRefs"@ != "text"@,
        "name"@ != "value"@,
        "name"@ != "evidenceRefs"@,
        "value"@ != "evidenceRefs"@,
{
    reveal_strlit("status");
    reveal_strlit("truncated");
    reveal_strlit("nextCursor");
    reveal_strlit("hasNext");
    reveal_strlit("items");
    reveal_strlit("text");
    reveal_strlit("evidenceRefs");
    reveal_strlit("name");
    reveal_strlit("value");
    assert("status"@.len() == 6 && "truncated"@.len() == 9 && "nextCursor"@.len() == 10);
    assert("hasNext"@.len() == 7 && "items"@.len() == 5 && "text"@.len() == 4);
    assert("evidenceRefs"@.len() == 12 && "name"@.len() == 4 && "value"@.len() == 5);
}

proof fn lemma_characteristics_page(ledger: LedgerV, raw: JsonV, s: SubjectV)
    ensures
        ({
            let made = product_details::characteristics_of(ledger, raw, s);
            &&& goes_on(ledger, made.0, raw, s)
            &&& shows_page(ledger, made.0, made.1, raw, "characteristics"@)
        }),
{
    broadcast use json::lemma_get_with;

    lemma_section_keys();
    reveal_strlit("characteristics");
    reveal_strlit("description");
    reveal_strlit("images");
    assert("characteristics"@.len() == 15 && "description"@.len() == 11 && "images"@.len() == 6);
    lemma_cached_goes_on(ledger, raw, "characteristics"@, s);
    let made = product_details::characteristics_of(ledger, raw, s);
    let pairs = product_details::members_of(raw.field("characteristics"@));
    let offset = product_details::continued_at(raw) as int;
    let cut = product_details::window(pairs, offset, 50);
    let items = made.1.field("items"@).elements();
    assert(items == product_details::characteristic_rows(cut, s.ev));
    let expected = product_details::window(all_named_values(raw), offset, 50);
    assert forall|k: int| 0 <= k < cut.len() implies named_values(made.1)[k] == expected[k] by {
        assert(items[k].field("name"@) == JsonV::Text(cut[k].0));
        assert(items[k].field("value"@) == JsonV::optional_text(cut[k].1.as_text()));
    }
    assert(named_values(made.1) =~= expected);
}

proof fn lemma_description_page(ledger: LedgerV, raw: JsonV, s: SubjectV)
    ensures
        ({
            let made = product_details::description_of(ledger, raw, s);
            &&& goes_on(ledger, made.0, raw, s)
            &&& shows_page(ledger, made.0, made.1, raw, "description"@)
        }),
{
    broadcast use json::lemma_get_with;

    lemma_section_keys();
    reveal_strlit("characteristics");
    reveal_strlit("description");
    reveal_strlit("images");
    assert("characteristics"@.len() == 15 && "description"@.len() == 11 && "images"@.len() == 6);
    lemma_cached_goes_on(ledger, raw, "description"@, s);
}

proof fn lemma_images_page(ledger: LedgerV, raw: JsonV, s: SubjectV)
    ensures
        ({
            let made = product_details::images_of(ledger, raw, s);
            &&& goes_on(ledger, made.0, raw, s)
            &&& shows_page(ledger, made.0, made.1, raw, "images"@)
        }),
{
    broadcast use json::lemma_get_with;

    lemma_section_keys();
    reveal_strlit("characteristics");
    reveal_strlit("description");
    reveal_strlit("images");
    assert("characteristics"@.len() == 15 && "description"@.len() == 11 && "images"@.len() == 6);
    lemma_cached_goes_on(ledger, raw, "images"@, s);
    let made = product_details::images_of(ledger, raw, s);
    let all = product_details::product_images(raw);
    let offset = product_details::continued_at(raw);
    let next = product_details::cached_continuation(ledger, raw, "images"@, all.len(), 12, s);
    let cut = product_details::window(all, offset as int, 12);
    let rows = product_details::image_rows(next.0, cut, offset as int, s);
    lemma_images_go_on(next.0, cut, offset as int, raw, s);
    lemma_goes_on(ledger, next.0, rows.0, raw, s);
    assert(rows.0.writes.take(rows.0.writes.len() as int) =~= rows.0.writes);
    let items = made.1.field("items"@).elements();
    assert(items == rows.1);
    let urls = product_details::window(image_urls(raw), offset as int, 12);
    assert(urls.len() == cut.len());
    assert forall|k: int| 0 <= k < items.len() implies shows_image(
        ledger,
        made.0,
        #[trigger] items[k],
        urls[k],
    ) by {
        assert(urls[k] == cut[k].0);
        assert(shows_image(next.0, rows.0, rows.1[k], cut[k].0));
        lemma_shows_later(ledger, next.0, rows.0, rows.0, items[k], urls[k], raw, s);
    }
}

proof fn lemma_section_page(ledger: LedgerV, raw: JsonV, section: Seq<char>, s: SubjectV)
    ensures
        product_details::section_of(ledger, raw, section, s) matches Some(made) ==> {
            &&& goes_on(ledger, made.0, raw, s)
            &&& is_cut(section) ==> shows_page(ledger, made.0, made.1, raw, section)
        },
{
    reveal_strlit("characteristics");
    reveal_strlit("description");
    reveal_strlit("images");
    reveal_strlit("variants");
    reveal_strlit("offers");
    assert("characteristics"@.len() == 15 && "description"@.len() == 11 && "images"@.len() == 6);
    assert("variants"@.len() == 8 && "offers"@.len() == 6 && "offers"@[0] == 'o');
    assert("images"@[0] == 'i');
    if section == "characteristics"@ {
        lemma_characteristics_page(ledger, raw, s);
    } else if section == "description"@ {
        lemma_description_page(ledger, raw, s);
    } else if section == "variants"@ {
        let listed = marketplace::first_values(product_details::listed(raw, "variants"@), 20);
        let rows = product_details::variant_rows(ledger, listed, s);
        lemma_variants_go_on(ledger, listed, raw, s);
        lemma_listed_goes_on(rows.0, raw, "variants"@, s.research_id, s);
        lemma_goes_on(
            ledger,
            rows.0,
            product_details::listed_continuation(rows.0, raw, "variants"@, s.research_id).0,
            raw,
            s,
        );
    } else if section == "offers"@ {
        lemma_listed_goes_on(ledger, raw, "offers"@, s.research_id, s);
    } else if section == "images"@ {
        lemma_images_page(ledger, raw, s);
    }
}

proof fn lemma_page_later(
    a: LedgerV,
    b: LedgerV,
    c: LedgerV,
    d: LedgerV,
    page: JsonV,
    raw: JsonV,
    section: Seq<char>,
    s: SubjectV,
)
    requires
        goes_on(a, b, raw, s),
        goes_on(c, d, raw, s),
        shows_page(b, c, page, raw, section),
    ensures
        shows_page(a, d, page, raw, section),
{
    if section == "images"@ {
        let urls = product_details::window(
            image_urls(raw),
            product_details::continued_at(raw) as int,
            12,
        );
        let items = page.field("items"@).elements();
        assert forall|k: int| 0 <= k < items.len() implies shows_image(
            a,
            d,
            #[trigger] items[k],
            urls[k],
        ) by {
            lemma_shows_later(a, b, c, d, items[k], urls[k], raw, s);
        }
    }
}

proof fn lemma_sections(
    ledger: LedgerV,
    raw: JsonV,
    product: JsonV,
    asked: Seq<Seq<char>>,
    s: SubjectV,
)
    requires
        product is Object,
    ensures
        ({
            let made = product_details::with_sections(ledger, raw, product, asked, s);
            &&& goes_on(ledger, made.0, raw, s)
            &&& made.1 is Object
            &&& forall|section: Seq<char>|
                is_cut(section) && #[trigger] asked.contains(section) ==> shows_page(
                    ledger,
                    made.0,
                    made.1.field(section),
                    raw,
                    section,
                )
        }),
    decreases asked.len(),
{
    broadcast use json::lemma_get_with;

    assert(ledger.writes.take(ledger.writes.len() as int) =~= ledger.writes);
    if asked.len() > 0 {
        let front = asked.drop_last();
        let last = asked.last();
        lemma_sections(ledger, raw, product, front, s);
        let before = product_details::with_sections(ledger, raw, product, front, s);
        let made = product_details::with_sections(ledger, raw, product, asked, s);
        lemma_section_page(before.0, raw, last, s);
        assert(before.0.writes.take(before.0.writes.len() as int) =~= before.0.writes);
        assert(goes_on(before.0, made.0, raw, s));
        lemma_goes_on(ledger, before.0, made.0, raw, s);
        assert(made.0.writes.take(made.0.writes.len() as int) =~= made.0.writes);
        assert forall|section: Seq<char>|
            is_cut(section) && #[trigger] asked.contains(section) implies shows_page(
            ledger,
            made.0,
            made.1.field(section),
            raw,
            section,
        ) by {
            if section == last {
                lemma_page_later(
                    ledger,
                    before.0,
                    made.0,
                    made.0,
                    made.1.field(section),
                    raw,
                    section,
                    s,
                );
            } else {
                let k = choose|k: int| 0 <= k < asked.len() && asked[k] == section;
                assert(front[k] == section);
                assert(front.contains(section));
                assert(made.1.field(section) == before.1.field(section));
                lemma_page_later(
                    ledger,
                    ledger,
                    before.0,
                    made.0,
                    made.1.field(section),
                    raw,
                    section,
                    s,
                );
            }
        }
    }
}

/// What an answer says of the reference of the product and the time of the observation.
spec fn keeps_identity(out: ProductNormalizedV, s: SubjectV) -> bool {
    &&& out.product_refs == seq![s.product_ref]
    &&& out.evidence.len() == 1
    &&& out.evidence[0].field("observedAt"@) == JsonV::Text(s.observed)
}

proof fn lemma_call(c: PageCallV)
    requires
        c.made() is Ok,
    ensures
        goes_on(c.ledger, c.after(), c.raw, c.subject()),
        keeps_identity(c.made()->Ok_0.1, c.subject()),
        c.raw is Object,
        forall|section: Seq<char>|
            is_cut(section) && #[trigger] c.asked.contains(section) ==> shows_page(
                c.ledger,
                c.after(),
                c.shown(section),
                c.raw,
                section,
            ),
{
    broadcast use json::lemma_get_with;

    reveal(PageCallV::made);
    reveal_strlit("product");
    reveal_strlit("product_cursor");
    reveal_strlit("sourceKind");
    reveal_strlit("sourceUrl");
    reveal_strlit("observedAt");
    reveal_strlit("contextId");
    reveal_strlit("sku");
    reveal_strlit("fieldPaths");
    reveal_strlit("facts");
    reveal_strlit("evidenceRef");
    assert("product"@.len() == 7 && "product_cursor"@.len() == 14 && "sourceKind"@.len() == 10);
    assert("sourceUrl"@.len() == 9 && "observedAt"@.len() == 10 && "contextId"@.len() == 9);
    assert("sku"@.len() == 3 && "fieldPaths"@.len() == 10 && "facts"@.len() == 5);
    assert("evidenceRef"@.len() == 11);
    assert("observedAt"@[0] == 'o' && "fieldPaths"@[0] == 'f');
    let s = c.subject();
    let named = product_details::product_named(
        c.ledger,
        c.raw,
        c.research_id,
        s.sku,
        s.source_url,
    );
    let value = search_results::product_value_of(s.sku, s.source_url);
    lemma_put_other(c.ledger, c.research_id, "product"@, value, None, c.raw, s);
    assert(c.ledger.writes.take(c.ledger.writes.len() as int) =~= c.ledger.writes);
    assert(named.0.writes.take(named.0.writes.len() as int) =~= named.0.writes);
    let base = product_details::product_base(c.raw, s);
    lemma_sections(named.0.drawn(), c.raw, base, c.asked, s);
    let made = product_details::with_sections(named.0.drawn(), c.raw, base, c.asked, s);
    assert(c.after() == made.0);
    assert(goes_on(c.ledger, named.0.drawn(), c.raw, s));
    lemma_goes_on(c.ledger, named.0.drawn(), made.0, c.raw, s);
    assert(made.0.writes.take(made.0.writes.len() as int) =~= made.0.writes);
    assert(c.made()->Ok_0.1.result.field("product"@) == made.1);
    assert forall|section: Seq<char>|
        is_cut(section) && #[trigger] c.asked.contains(section) implies shows_page(
        c.ledger,
        c.after(),
        c.shown(section),
        c.raw,
        section,
    ) by {
        lemma_page_later(
            c.ledger,
            named.0.drawn(),
            made.0,
            made.0,
            c.shown(section),
            c.raw,
            section,
            s,
        );
    }
}

/// Whether a call reads an observation that was stored, with how its own continuations are
/// shown.
pub open spec fn reads(raw: JsonV, stored: JsonV) -> bool {
    raw == stored || raw == stored.with("_presentation"@, raw.field("_presentation"@))
}

/// Whether a call goes on with a section where another call left it: it reads what is stored
/// under the continuation that the other one handed out.
pub open spec fn follows(before: PageCallV, c: PageCallV, section: Seq<char>) -> bool {
    &&& c.asked == seq![section]
    &&& exists|w: RefWriteV|
        #![trigger is_written(before.ledger, before.after(), w)]
        {
            &&& is_written(before.ledger, before.after(), w)
            &&& continues(w, section)
            &&& before.shown(section).field("nextCursor"@) == JsonV::Text(w.id)
            &&& reads(c.raw, w.value.field("cachedRaw"@))
        }
}

/// Calls that show a section page by page, from its start.
pub open spec fn is_run(calls: Seq<PageCallV>, section: Seq<char>) -> bool {
    &&& calls.len() > 0
    &&& calls[0].asked.contains(section)
    &&& product_details::continued_at(calls[0].raw) == 0
    &&& forall|i: int| 0 <= i < calls.len() ==> (#[trigger] calls[i]).made() is Ok
    &&& forall|i: int| 1 <= i < calls.len() ==> follows(calls[i - 1], #[trigger] calls[i], section)
}

/// Calls that show a section page by page, from its start to its end.
pub open spec fn is_chain(calls: Seq<PageCallV>, section: Seq<char>) -> bool {
    &&& is_run(calls, section)
    &&& !(calls.last().shown(section).field("nextCursor"@) is Text)
}

/// Whether two observations show one product, and the second one goes on at a place.
spec fn is_later(first: JsonV, raw: JsonV, section: Seq<char>, place: int) -> bool {
    &&& raw.field("characteristics"@) == first.field("characteristics"@)
    &&& raw.field("description"@) == first.field("description"@)
    &&& raw.field("images"@) == first.field("images"@)
    &&& product_details::continued_at(raw) == place
    &&& place == 0 || place < value_count(first, section)
}

proof fn lemma_captured(
    raw: JsonV,
    section: Seq<char>,
    offset: u64,
    s: SubjectV,
    later: JsonV,
)
    requires
        raw is Object,
        reads(later, product_details::captured_raw(raw, section, offset, s)),
    ensures
        ({
            &&& later.field("characteristics"@) == raw.field("characteristics"@)
            &&& later.field("description"@) == raw.field("description"@)
            &&& later.field("images"@) == raw.field("images"@)
            &&& product_details::continued_at(later) == offset
            &&& later.field("_continuationProductRef"@) == JsonV::Text(s.product_ref)
            &&& later.field("_continuationObservedAt"@) == JsonV::Text(s.observed)
        }),
{
    broadcast use json::lemma_get_with;

    reveal_strlit("_continuation");
    reveal_strlit("_continuationProductRef");
    reveal_strlit("_continuationObservedAt");
    reveal_strlit("characteristics");
    reveal_strlit("description");
    reveal_strlit("images");
    reveal_strlit("section");
    reveal_strlit("offset");
    reveal_strlit("_presentation");
    assert("_presentation"@.len() == 13 && "_presentation"@[1] == 'p');
    assert("_continuation"@[1] == 'c');
    assert("_continuation"@.len() == 13 && "characteristics"@.len() == 15);
    assert("_continuationProductRef"@.len() == 23 && "_continuationObservedAt"@.len() == 23);
    assert("_continuationProductRef"@[13] == 'P' && "_continuationObservedAt"@[13] == 'O');
    assert("description"@.len() == 11 && "images"@.len() == 6);
    assert("section"@.len() == 7 && "offset"@.len() == 6);
    let place = JsonV::object().with("section"@, JsonV::Text(section)).with(
        "offset"@,
        JsonV::unsigned(offset),
    );
    assert(place.field("offset"@) == JsonV::unsigned(offset));
    let stored = product_details::captured_raw(raw, section, offset, s);
    assert(stored.field("_continuation"@) == place);
    assert(later.field("_continuation"@) == place);
}

proof fn lemma_chain(calls: Seq<PageCallV>, section: Seq<char>, i: int)
    requires
        is_cut(section),
        is_run(calls, section),
        value_count(calls[0].raw, section) <= u64::MAX,
        0 <= i < calls.len(),
    ensures
        is_later(calls[0].raw, calls[i].raw, section, i * page_size(section)),
        calls[i].subject().product_ref == calls[0].subject().product_ref,
        calls[i].subject().observed == calls[0].subject().observed,
        calls[i].asked.contains(section),
    decreases i,
{
    if i > 0 {
        lemma_chain(calls, section, i - 1);
        let before = calls[i - 1];
        let c = calls[i];
        lemma_call(before);
        assert(before.asked.contains(section));
        assert(shows_page(before.ledger, before.after(), before.shown(section), before.raw, section));
        let w = choose|w: RefWriteV|
            #![trigger is_written(before.ledger, before.after(), w)]
            {
                &&& is_written(before.ledger, before.after(), w)
                &&& continues(w, section)
                &&& before.shown(section).field("nextCursor"@) == JsonV::Text(w.id)
                &&& reads(c.raw, w.value.field("cachedRaw"@))
            };
        let at = choose|at: int|
            before.ledger.writes.len() <= at < before.after().writes.len()
                && #[trigger] before.after().writes[at] == w;
        assert(continues(before.after().writes[at], section));
        let offset = (product_details::continued_at(before.raw) + page_size(section)) as u64;
        assert(reads(
            c.raw,
            product_details::captured_raw(before.raw, section, offset, before.subject()),
        ));
        lemma_captured(before.raw, section, offset, before.subject(), c.raw);
        assert(value_count(before.raw, section) == value_count(calls[0].raw, section));
        let n = page_size(section) as int;
        assert((i - 1) * n + n == i * n) by (nonlinear_arith);
        assert(c.asked[0] == section);
    } else {
        assert(i * page_size(section) == 0) by (nonlinear_arith)
            requires
                i == 0,
        ;
    }
}

/// What the pages of a chain leave between them and behind them: nothing.
proof fn lemma_chain_bounds(calls: Seq<PageCallV>, section: Seq<char>)
    requires
        is_cut(section),
        is_chain(calls, section),
        value_count(calls[0].raw, section) <= u64::MAX,
    ensures
        (calls.len() - 1) * page_size(section) <= value_count(calls[0].raw, section),
        value_count(calls[0].raw, section) <= calls.len() * page_size(section),
{
    let last = calls.len() - 1;
    lemma_chain(calls, section, last);
    lemma_call(calls[last]);
    let n = page_size(section) as int;
    assert(last * n + n == calls.len() * n) by (nonlinear_arith)
        requires
            last == calls.len() - 1,
    ;
    assert(calls[last].asked.contains(section));
    assert(value_count(calls[last].raw, section) == value_count(calls[0].raw, section));
}

/// Every page of a section speaks of the same product under the same reference, and of the
/// same observation: the pages are those of one capture.
pub proof fn pages_keep_product_and_time(calls: Seq<PageCallV>, section: Seq<char>, i: int)
    requires
        is_cut(section),
        is_chain(calls, section),
        value_count(calls[0].raw, section) <= u64::MAX,
        0 <= i < calls.len(),
    ensures
        calls[i].made()->Ok_0.1.product_refs == calls[0].made()->Ok_0.1.product_refs,
        calls[i].made()->Ok_0.1.evidence[0].field("observedAt"@)
            == calls[0].made()->Ok_0.1.evidence[0].field("observedAt"@),
{
    lemma_chain(calls, section, i);
    lemma_call(calls[0]);
    lemma_call(calls[i]);
}

proof fn lemma_next_cursor(calls: Seq<PageCallV>, section: Seq<char>, i: int)
    requires
        is_chain(calls, section),
        0 <= i < calls.len(),
    ensures
        (calls[i].shown(section).field("nextCursor"@) is Text) == (i < calls.len() - 1),
        calls[i].made() is Ok,
{
    if i < calls.len() - 1 {
        assert(follows(calls[i + 1 - 1], calls[i + 1], section));
    }
}

proof fn lemma_page_says(first: JsonV, c: PageCallV, section: Seq<char>)
    requires
        is_cut(section),
        c.made() is Ok,
        c.asked.contains(section),
        c.raw.field("characteristics"@) == first.field("characteristics"@),
        c.raw.field("description"@) == first.field("description"@),
        c.raw.field("images"@) == first.field("images"@),
        is_observed(first, section),
    ensures
        says_more(c.shown(section), c.shown(section).field("nextCursor"@) is Text),
{
    lemma_call(c);
    assert(is_observed(c.raw, section));
    assert(shows_page(c.ledger, c.after(), c.shown(section), c.raw, section));
}

/// Every page of a section but the last says that there is more and how to go on; the last one
/// says that there is not.
pub proof fn pages_say_whether_there_is_more(calls: Seq<PageCallV>, section: Seq<char>, i: int)
    requires
        is_cut(section),
        is_chain(calls, section),
        value_count(calls[0].raw, section) <= u64::MAX,
        0 <= i < calls.len(),
    ensures
        (calls[i].shown(section).field("nextCursor"@) is Text) == (i < calls.len() - 1),
        is_observed(calls[0].raw, section) ==> says_more(
            calls[i].shown(section),
            i < calls.len() - 1,
        ),
{
    lemma_chain(calls, section, i);
    lemma_next_cursor(calls, section, i);
    if is_observed(calls[0].raw, section) {
        lemma_page_says(calls[0].raw, calls[i], section);
    }
}

/// A page of characteristics shows fifty of them, the last one what is left.
pub proof fn characteristic_pages_are_full(calls: Seq<PageCallV>, i: int)
    requires
        is_chain(calls, "characteristics"@),
        value_count(calls[0].raw, "characteristics"@) <= u64::MAX,
        0 <= i < calls.len(),
    ensures
        named_values(calls[i].shown("characteristics"@)).len() == marketplace::at_most(
            50,
            value_count(calls[0].raw, "characteristics"@) - 50 * i,
        ),
{
    lemma_chain(calls, "characteristics"@, i);
    lemma_call(calls[i]);
    assert(calls[i].asked.contains("characteristics"@));
}

/// The pages of the characteristics hold every name with its value once, in order.
pub proof fn characteristics_are_shown_once(calls: Seq<PageCallV>)
    requires
        is_chain(calls, "characteristics"@),
        value_count(calls[0].raw, "characteristics"@) <= u64::MAX,
    ensures
        all_of(
            Seq::new(calls.len(), |i: int| named_values(calls[i].shown("characteristics"@))),
        ) == all_named_values(calls[0].raw),
{
    let section = "characteristics"@;
    let pages = Seq::new(calls.len(), |i: int| named_values(calls[i].shown(section)));
    let all = all_named_values(calls[0].raw);
    assert forall|i: int| 0 <= i < pages.len() implies #[trigger] pages[i]
        == product_details::window(all, i * 50, 50) by {
        lemma_chain(calls, section, i);
        lemma_call(calls[i]);
        assert(calls[i].asked.contains(section));
        assert(all_named_values(calls[i].raw) == all);
    }
    lemma_chain_bounds(calls, section);
    pages_hold_the_row(all, 50, pages);
}

proof fn lemma_two_pages(first: PageCallV, second: PageCallV)
    requires
        first.made() is Ok,
        second.made() is Ok,
        first.asked.contains("characteristics"@),
        product_details::continued_at(first.raw) == 0,
        follows(first, second, "characteristics"@),
        50 < value_count(first.raw, "characteristics"@) <= 100,
    ensures
        is_chain(seq![first, second], "characteristics"@),
{
    let section = "characteristics"@;
    let calls = seq![first, second];
    assert(calls[0] == first && calls[1] == second);
    lemma_chain(calls, section, 1);
    lemma_call(second);
    assert(second.asked.contains(section));
    assert(shows_page(second.ledger, second.after(), second.shown(section), second.raw, section));
    assert(value_count(second.raw, section) == value_count(first.raw, section));
}

/// A product with more than fifty characteristics and at most a hundred takes two calls: the
/// first one shows fifty of them and says that there are more, and the one that goes on where it
/// ends shows the others and says that there are none. Together they hold every name with its
/// value once, of one product and as observed at one time.
pub proof fn overflowing_characteristics_take_two_pages(first: PageCallV, second: PageCallV)
    requires
        first.made() is Ok,
        second.made() is Ok,
        first.asked.contains("characteristics"@),
        product_details::continued_at(first.raw) == 0,
        follows(first, second, "characteristics"@),
        50 < value_count(first.raw, "characteristics"@) <= 100,
    ensures
        ({
            let one = first.shown("characteristics"@);
            let two = second.shown("characteristics"@);
            &&& named_values(one).len() == 50
            &&& says_more(one, true)
            &&& named_values(two).len() == value_count(first.raw, "characteristics"@) - 50
            &&& says_more(two, false)
            &&& named_values(one) + named_values(two) == all_named_values(first.raw)
        }),
        second.made()->Ok_0.1.product_refs == first.made()->Ok_0.1.product_refs,
        second.made()->Ok_0.1.evidence[0].field("observedAt"@)
            == first.made()->Ok_0.1.evidence[0].field("observedAt"@),
{
    let section = "characteristics"@;
    let calls = seq![first, second];
    assert(calls[0] == first && calls[1] == second);
    lemma_two_pages(first, second);
    characteristic_pages_are_full(calls, 0);
    characteristic_pages_are_full(calls, 1);
    assert(is_observed(first.raw, section));
    pages_say_whether_there_is_more(calls, section, 0);
    pages_say_whether_there_is_more(calls, section, 1);
    pages_keep_product_and_time(calls, section, 1);
    characteristics_are_shown_once(calls);
    let pages = Seq::new(calls.len(), |i: int| named_values(calls[i].shown(section)));
    assert(pages =~= seq![named_values(first.shown(section)), named_values(second.shown(section))]);
    assert(pages.drop_last() =~= seq![named_values(first.shown(section))]);
    assert(pages.drop_last().drop_last() =~= Seq::empty());
    reveal_with_fuel(all_of, 3);
    assert(all_of(pages) =~= named_values(first.shown(section)) + named_values(
        second.shown(section),
    ));
}

/// The pages of the description hold every character once, in order.
pub proof fn descriptions_are_shown_once(calls: Seq<PageCallV>)
    requires
        is_chain(calls, "description"@),
        value_count(calls[0].raw, "description"@) <= u64::MAX,
    ensures
        product_details::description_text(calls[0].raw) matches Some(t) ==> {
            &&& forall|i: int|
                0 <= i < calls.len() ==> (#[trigger] calls[i]).shown("description"@).field(
                    "text"@,
                ) is Text
            &&& all_of(
                Seq::new(
                    calls.len(),
                    |i: int| calls[i].shown("description"@).field("text"@)->Text_0,
                ),
            ) == t
        },
        product_details::description_text(calls[0].raw) is None ==> calls.len() == 1
            && calls[0].shown("description"@).field("text"@) == JsonV::Null,
{
    let section = "description"@;
    reveal_strlit("characteristics");
    reveal_strlit("description");
    reveal_strlit("images");
    assert("characteristics"@.len() == 15 && "description"@.len() == 11 && "images"@.len() == 6);
    lemma_chain_bounds(calls, section);
    assert forall|i: int| 0 <= i < calls.len() implies {
        &&& product_details::description_text((#[trigger] calls[i]).raw)
            == product_details::description_text(calls[0].raw)
        &&& shows_page(
            calls[i].ledger,
            calls[i].after(),
            calls[i].shown(section),
            calls[i].raw,
            section,
        )
        &&& product_details::continued_at(calls[i].raw) == i * 12000
    } by {
        lemma_chain(calls, section, i);
        lemma_call(calls[i]);
        assert(calls[i].asked.contains(section));
    }
    match product_details::description_text(calls[0].raw) {
        Some(t) => {
            let pages = Seq::new(
                calls.len(),
                |i: int| calls[i].shown(section).field("text"@)->Text_0,
            );
            assert forall|i: int| 0 <= i < pages.len() implies #[trigger] pages[i]
                == product_details::window(t, i * 12000, 12000) by {
                assert(calls[i].made() is Ok);
            }
            pages_hold_the_row(t, 12000, pages);
        },
        None => {
            if calls.len() > 1 {
                lemma_chain(calls, section, 1);
            }
        },
    }
}

/// The pages of the images name every image once, in order. Each row has a reference of its
/// own, under which the image is stored.
pub proof fn images_are_shown_once(calls: Seq<PageCallV>)
    requires
        is_chain(calls, "images"@),
        value_count(calls[0].raw, "images"@) <= u64::MAX,
    ensures
        ({
            let urls = image_urls(calls[0].raw);
            let pages = Seq::new(
                calls.len(),
                |i: int| product_details::window(urls, i * 12, 12),
            );
            &&& forall|i: int|
                0 <= i < calls.len() ==> shows_images(
                    (#[trigger] calls[i]).ledger,
                    calls[i].after(),
                    calls[i].shown("images"@),
                    pages[i],
                )
            &&& all_of(pages) == urls
            &&& urls.no_duplicates()
        }),
{
    let section = "images"@;
    reveal_strlit("characteristics");
    reveal_strlit("description");
    reveal_strlit("images");
    assert("characteristics"@.len() == 15 && "description"@.len() == 11 && "images"@.len() == 6);
    let urls = image_urls(calls[0].raw);
    let pages = Seq::new(calls.len(), |i: int| product_details::window(urls, i * 12, 12));
    assert forall|i: int| 0 <= i < calls.len() implies shows_images(
        (#[trigger] calls[i]).ledger,
        calls[i].after(),
        calls[i].shown("images"@),
        pages[i],
    ) by {
        lemma_chain(calls, section, i);
        lemma_call(calls[i]);
        assert(calls[i].asked.contains(section));
        assert(image_urls(calls[i].raw) == urls);
    }
    lemma_chain_bounds(calls, section);
    pages_hold_the_row(urls, 12, pages);
    product_details::product_images_differ(calls[0].raw);
}

} // verus!
