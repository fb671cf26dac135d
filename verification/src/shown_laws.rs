//! What a product is shown as.

use crate::address;
use crate::evidence;
use crate::failure::FailureV;
use crate::json::{self, JsonV, NumberV};
use crate::ledger::{LedgerV, RefWriteV, StoredRefV};
use crate::market_laws;
use crate::marketplace;
use crate::product_batch::{self, BatchV, ResolvedProductV};
use crate::product_details::{self, SubjectV};
use crate::text;
use vstd::prelude::*;

verus! {

/// Whether a price is this amount of whole roubles, of this kind.
pub open spec fn is_price(p: JsonV, roubles: u64, kind: Seq<char>, ev: Seq<char>) -> bool {
    &&& p.field("amountMinor"@) == JsonV::unsigned((100 * roubles) as u64)
    &&& p.field("currency"@) == JsonV::Text("RUB"@)
    &&& p.field("type"@) == JsonV::Text(kind)
    &&& p.field("evidenceRefs"@) == JsonV::Array(seq![JsonV::Text(ev)])
}

/// A product has a price with the Ozon card where the source shows one, and a regular price
/// where it shows one, each with its own amount; and no other.
pub proof fn product_prices_are_those_of_the_source(raw: JsonV, ev: Seq<char>, card: u64, regular: u64)
    requires
        card < 0x40_0000_0000,
        regular < 0x40_0000_0000,
    ensures
        ({
            let prices = product_details::product_prices_of(raw, ev);
            let with_card = raw.field("cardPrice"@) == JsonV::Number(NumberV::Unsigned(card));
            let with_regular = raw.field("priceRegular"@) == JsonV::Number(
                NumberV::Unsigned(regular),
            );
            &&& with_card && with_regular ==> prices.len() == 2 && is_price(
                prices[0],
                card,
                "ozon_card"@,
                ev,
            ) && is_price(prices[1], regular, "regular"@, ev)
            &&& with_card && !(raw.field("priceRegular"@) is Number) ==> prices.len() == 1
                && is_price(prices[0], card, "ozon_card"@, ev)
            &&& with_regular && !(raw.field("cardPrice"@) is Number) ==> prices.len() == 1
                && is_price(prices[0], regular, "regular"@, ev)
            &&& !(raw.field("cardPrice"@) is Number) && !(raw.field("priceRegular"@) is Number)
                ==> prices.len() == 0
            &&& with_card ==> prices[0].field("condition"@) == JsonV::Text("с Ozon Картой"@)
            &&& with_regular ==> prices.last().field("condition"@) == JsonV::Null
        }),
{
    market_laws::whole_prices_are_counted_in_kopecks(card);
    market_laws::whole_prices_are_counted_in_kopecks(regular);
    marketplace::prices_tell_their_amount(
        (100 * card) as u64,
        "ozon_card"@,
        Some("с Ozon Картой"@),
        ev,
    );
    marketplace::prices_tell_their_amount((100 * regular) as u64, "regular"@, None, ev);
}

/// What the evidence of a product says of it is what the product shows: its title, its
/// availability, its rating and the number of its reviews, as the source gives them.
pub proof fn product_facts_are_those_shown(raw: JsonV, s: SubjectV)
    ensures
        ({
            let shown = product_details::product_base(raw, s);
            let facts = product_details::base_facts(raw);
            &&& facts.len() == 6
            &&& market_laws::says(facts[0], "/title"@, shown.field("title"@))
            &&& market_laws::says(facts[3], "/availability"@, shown.field("availability"@))
            &&& market_laws::says(facts[4], "/rating"@, shown.field("rating"@))
            &&& market_laws::says(facts[5], "/reviewCount"@, shown.field("reviewCount"@))
            &&& market_laws::says(
                facts[1],
                "/prices/ozonCard/amountMinor"@,
                JsonV::optional_unsigned(marketplace::minor_units(raw.field("cardPrice"@))),
            )
            &&& market_laws::says(
                facts[2],
                "/prices/regular/amountMinor"@,
                JsonV::optional_unsigned(marketplace::minor_units(raw.field("priceRegular"@))),
            )
            &&& shown.field("title"@) == raw.field("name"@)
            &&& shown.field("rating"@) == raw.field("rating"@)
            &&& shown.field("reviewCount"@) == raw.field("reviews"@)
            &&& shown.field("productRef"@) == JsonV::Text(s.product_ref)
            &&& shown.field("sku"@) == JsonV::Text(s.sku)
            &&& shown.field("url"@) == JsonV::Text(s.source_url)
            &&& shown.field("evidenceRefs"@) == JsonV::Array(seq![JsonV::Text(s.ev)])
            &&& raw.field("available"@) == JsonV::Bool(true) ==> shown.field("availability"@)
                == JsonV::Text("available"@)
            &&& raw.field("available"@) == JsonV::Bool(false) ==> shown.field("availability"@)
                == JsonV::Text("unavailable"@)
        }),
{
    broadcast use json::lemma_get_with;

    reveal_strlit("fieldPath");
    reveal_strlit("value");
    assert("fieldPath"@.len() == 9);
    assert("value"@.len() == 5);
    product_details::products_show_their_terms(raw, s);
}

/// A characteristic is a fact under its own name, and shown with its name and value.
pub proof fn characteristics_are_facts(pairs: Seq<(Seq<char>, JsonV)>, ev: Seq<char>, i: int)
    requires
        0 <= i < pairs.len(),
    ensures
        product_details::characteristic_facts(pairs).len() == pairs.len(),
        product_details::characteristic_rows(pairs, ev).len() == pairs.len(),
        market_laws::says(
            product_details::characteristic_facts(pairs)[i],
            "/characteristics/"@ + product_details::escaped(pairs[i].0),
            pairs[i].1,
        ),
        ({
            let row = product_details::characteristic_rows(pairs, ev)[i];
            &&& row.field("name"@) == JsonV::Text(pairs[i].0)
            &&& pairs[i].1 is Text ==> row.field("value"@) == pairs[i].1
            &&& !(pairs[i].1 is Text) ==> row.field("value"@) == JsonV::Null
            &&& row.field("evidenceRefs"@) == JsonV::Array(seq![JsonV::Text(ev)])
        }),
{
    broadcast use json::lemma_get_with;

    reveal_strlit("fieldPath");
    reveal_strlit("value");
    reveal_strlit("name");
    reveal_strlit("evidenceRefs");
    assert("fieldPath"@.len() == 9);
    assert("value"@.len() == 5);
    assert("name"@.len() == 4);
    assert("evidenceRefs"@.len() == 12);
}

/// Whether a row shows a variant of a product and names the reference that holds it.
pub open spec fn row_shows_variant(row: JsonV, variant: JsonV, w: RefWriteV, s: SubjectV) -> bool {
    &&& row.field("sku"@) == variant.field("sku"@)
    &&& row.field("title"@) == variant.field("title"@)
    &&& row.field("productRef"@) == JsonV::Text(w.id)
    &&& w.kind == "product"@
    &&& w.research_id == s.research_id
    &&& w.value.field("sku"@) == variant.field("sku"@)
    &&& w.value.field("url"@) == variant.field("url"@)
}

/// Each variant that names its number has a row, in order, under a reference of its own, which
/// leads to that variant.
pub proof fn variants_lead_to_their_product(ledger: LedgerV, rows: Seq<JsonV>, s: SubjectV)
    requires
        forall|i: int| 0 <= i < rows.len() ==> (#[trigger] rows[i]).field("sku"@) is Text,
    ensures
        ({
            let made = product_details::variant_rows(ledger, rows, s);
            &&& made.1.len() == rows.len()
            &&& made.0.writes.len() == ledger.writes.len() + rows.len()
            &&& forall|k: int|
                0 <= k < rows.len() ==> row_shows_variant(
                    #[trigger] made.1[k],
                    rows[k],
                    made.0.writes[ledger.writes.len() + k],
                    s,
                )
        }),
    decreases rows.len(),
{
    broadcast use json::lemma_get_with;

    reveal_strlit("productRef");
    reveal_strlit("sku");
    reveal_strlit("title");
    reveal_strlit("evidenceRefs");
    reveal_strlit("url");
    assert("productRef"@.len() == 10);
    assert("sku"@.len() == 3);
    assert("title"@.len() == 5);
    assert("evidenceRefs"@.len() == 12);
    assert("url"@.len() == 3);
    assert("sku"@[0] == 's');
    assert("url"@[0] == 'u');
    if rows.len() > 0 {
        let front = rows.drop_last();
        assert(forall|i: int| 0 <= i < front.len() ==> #[trigger] front[i] == rows[i]);
        variants_lead_to_their_product(ledger, front, s);
        let before = product_details::variant_rows(ledger, front, s);
        let made = product_details::variant_rows(ledger, rows, s);
        assert(rows[rows.len() - 1].field("sku"@) is Text);
        assert forall|k: int| 0 <= k < rows.len() implies row_shows_variant(
            #[trigger] made.1[k],
            rows[k],
            made.0.writes[ledger.writes.len() + k],
            s,
        ) by {
            if k < front.len() {
                assert(made.1[k] == before.1[k]);
                assert(made.0.writes[ledger.writes.len() + k] == before.0.writes[
                ledger.writes.len() + k]);
            }
        }
    }
}

proof fn lemma_amounts(v: Seq<JsonV>)
    requires
        forall|i: int| 0 <= i < v.len() ==> marketplace::minor_units(#[trigger] v[i]) is Some,
    ensures
        product_details::amounts_in(v).len() == v.len(),
        forall|i: int|
            0 <= i < v.len() ==> Some(#[trigger] product_details::amounts_in(v)[i])
                == marketplace::minor_units(v[i]),
    decreases v.len(),
{
    if v.len() > 0 {
        let rest = v.drop_last();
        assert(forall|i: int| 0 <= i < rest.len() ==> #[trigger] rest[i] == v[i]);
        lemma_amounts(rest);
        assert(marketplace::minor_units(v[v.len() - 1]) is Some);
        let all = product_details::amounts_in(v);
        let before = product_details::amounts_in(rest);
        assert forall|i: int| 0 <= i < v.len() implies Some(#[trigger] all[i])
            == marketplace::minor_units(v[i]) by {
            if i < before.len() {
                assert(all[i] == before[i]);
            }
        }
    }
}

/// An offer shows its first three prices, each with its amount; of what kind they are is not
/// said.
pub proof fn offer_prices_are_those_of_the_offer(offer: JsonV, ev: Seq<char>, i: int)
    requires
        forall|k: int|
            0 <= k < offer.field("prices"@).elements().len() ==> marketplace::minor_units(
                #[trigger] offer.field("prices"@).elements()[k],
            ) is Some,
    ensures
        ({
            let all = offer.field("prices"@).elements();
            let prices = product_details::offer_prices_of(offer, ev);
            &&& prices.len() <= 3 && prices.len() <= all.len()
            &&& prices.len() == all.len() || prices.len() == 3
            &&& 0 <= i < prices.len() ==> {
                &&& prices[i].field("amountMinor"@) == JsonV::unsigned(
                    marketplace::minor_units(all[i])->Some_0,
                )
                &&& prices[i].field("type"@) == JsonV::Text("unknown"@)
            }
        }),
{
    let all = offer.field("prices"@).elements();
    lemma_amounts(all);
    let amounts = product_details::amounts_in(all);
    if 0 <= i < product_details::offer_prices_of(offer, ev).len() {
        marketplace::prices_tell_their_amount(amounts[i], "unknown"@, None, ev);
    }
}

proof fn lemma_candidates(
    known: Seq<(Seq<char>, Seq<char>)>,
    urls: Seq<Seq<char>>,
    place: Seq<char>,
    url: Seq<char>,
)
    ensures
        is_among(product_details::image_candidates(known, urls, place), url) == (is_among(known, url)
            || urls.contains(url)),
    decreases urls.len(),
{
    if urls.len() > 0 {
        let rest = urls.drop_last();
        lemma_candidates(known, rest, place, url);
        let before = product_details::image_candidates(known, rest, place);
        let all = product_details::image_candidates(known, urls, place);
        if rest.contains(url) {
            let i = choose|i: int| 0 <= i < rest.len() && rest[i] == url;
            assert(urls[i] == url);
        }
        if urls.contains(url) && urls.last() != url {
            let i = choose|i: int| 0 <= i < urls.len() && urls[i] == url;
            assert(rest[i] == url);
        }
        assert(urls[urls.len() - 1] == urls.last());
        if !(exists|i: int| 0 <= i < before.len() && (#[trigger] before[i]).0 == urls.last()) {
            assert(all[before.len() as int].0 == urls.last());
            if is_among(before, url) {
                let i = choose|i: int| 0 <= i < before.len() && (#[trigger] before[i]).0 == url;
                assert(all[i].0 == url);
            }
            if is_among(all, url) && url != urls.last() {
                let i = choose|i: int| 0 <= i < all.len() && (#[trigger] all[i]).0 == url;
                assert(before[i].0 == url);
            }
        }
    }
}

/// Whether an image is among candidates.
pub open spec fn is_among(v: Seq<(Seq<char>, Seq<char>)>, url: Seq<char>) -> bool {
    exists|i: int| 0 <= i < v.len() && (#[trigger] v[i]).0 == url
}

/// The images of a product are those of its gallery and those of its description, all of them
/// and no others.
pub proof fn product_images_are_those_of_the_source(raw: JsonV, url: Seq<char>)
    ensures
        is_among(product_details::product_images(raw), url) == (product_details::texts_in(
            raw.field("images"@).elements(),
        ).contains(url) || product_details::texts_in(
            raw.field("description"@).field("images"@).elements(),
        ).contains(url)),
{
    let gallery = product_details::texts_in(raw.field("images"@).elements());
    let more = product_details::texts_in(raw.field("description"@).field("images"@).elements());
    lemma_candidates(Seq::empty(), gallery, "/images"@, url);
    lemma_candidates(
        product_details::image_candidates(Seq::empty(), gallery, "/images"@),
        more,
        "/description/images"@,
        url,
    );
}

/// A product that was observed is answered as such, to what was asked for; its reference is the
/// one it was captured under, or a new one that leads to it.
pub proof fn products_answer_what_was_asked(
    raw: JsonV,
    requested: JsonV,
    ledger: LedgerV,
    research_id: Seq<char>,
    context_id: Seq<char>,
    asked: Seq<Seq<char>>,
    now: Seq<char>,
)
    ensures
        product_details::product_made(
            raw,
            requested,
            ledger,
            research_id,
            context_id,
            asked,
            now,
        ) matches Ok(made) ==> {
            &&& made.1.result.field("status"@) == JsonV::Text("ok"@)
            &&& made.1.result.field("requested"@) == requested
            &&& made.1.product_refs.len() == 1
            &&& made.1.evidence.len() == 1
            &&& made.1.evidence[0].field("sku"@) == raw.field("sku"@)
            &&& made.1.evidence[0].field("contextId"@) == JsonV::Text(context_id)
            &&& made.1.evidence[0].field("observedAt"@) == (if raw.field(
                "_continuationObservedAt"@,
            ) is Text {
                raw.field("_continuationObservedAt"@)
            } else {
                JsonV::Text(now)
            })
            &&& raw.field("_continuationProductRef"@) is Text ==> JsonV::Text(
                made.1.product_refs[0],
            ) == raw.field("_continuationProductRef"@)
            &&& !(raw.field("_continuationProductRef"@) is Text) ==> made.1.product_refs[0]
                == ledger.next_ref()
            &&& made.1.warnings == marketplace::source_warnings_of(raw)
        },
        asked.contains("variants"@) && raw.field("variants"@).field("items"@).elements().len() > 20
            && !(raw.field("variants"@).field("nextPath"@) is Text) ==> product_details::product_made(
            raw,
            requested,
            ledger,
            research_id,
            context_id,
            asked,
            now,
        ) is Err,
        !(raw.field("sku"@) is Text) ==> product_details::product_made(
            raw,
            requested,
            ledger,
            research_id,
            context_id,
            asked,
            now,
        ) is Err,
{
    broadcast use json::lemma_get_with;

    reveal_strlit("status");
    reveal_strlit("requested");
    reveal_strlit("product");
    reveal_strlit("evidenceRef");
    reveal_strlit("sourceKind");
    reveal_strlit("sourceUrl");
    reveal_strlit("observedAt");
    reveal_strlit("contextId");
    reveal_strlit("sku");
    reveal_strlit("fieldPaths");
    reveal_strlit("facts");
    assert("status"@.len() == 6);
    assert("requested"@.len() == 9);
    assert("product"@.len() == 7);
    assert("evidenceRef"@.len() == 11);
    assert("sourceKind"@.len() == 10);
    assert("sourceUrl"@.len() == 9);
    assert("observedAt"@.len() == 10);
    assert("contextId"@.len() == 9);
    assert("sku"@.len() == 3);
    assert("fieldPaths"@.len() == 10);
    assert("facts"@.len() == 5);
    assert("requested"@[0] == 'r');
    assert("sourceUrl"@[0] == 's');
    assert("contextId"@[0] == 'c');
    assert("sourceKind"@[0] == 's');
    assert("observedAt"@[0] == 'o');
    assert("fieldPaths"@[0] == 'f');
}

/// What a product is asked for by: a reference leads to the place, or else the number, that it
/// holds, in its research and context; a continuation to what is stored under it; a number to
/// itself; a URL only where it is one of a product of the site.
pub proof fn selectors_lead_to_their_product(selector: JsonV, r: StoredRefV)
    ensures
        selector.field("productRef"@) is Text && r.value.field("url"@) is Text ==> (
        product_batch::resolved_of(selector, Some(Ok(r))) matches Ok(p) && JsonV::Text(p.target)
            == r.value.field("url"@) && p.research_id == Some(r.research_id) && p.context_id
            == Some(r.context_id) && p.cached_raw is None && p.presentation is None),
        selector.field("productRef"@) is Text && r.value.get("url"@) is None && r.value.field("sku"@)
            is Text ==> (product_batch::resolved_of(selector, Some(Ok(r))) matches Ok(p)
            && JsonV::Text(p.target) == r.value.field("sku"@)),
        !(selector.field("productRef"@) is Text) && selector.field("cursor"@) is Text ==> (
        product_batch::resolved_of(selector, Some(Ok(r))) matches Ok(p) && p.cached_raw
            == r.value.get("cachedRaw"@) && p.research_id == Some(r.research_id) && p.context_id
            == Some(r.context_id) && p.presentation is Some),
        !(selector.field("productRef"@) is Text) && !(selector.field("cursor"@) is Text)
            && selector.field("sku"@) is Text ==> (product_batch::resolved_of(selector, None) matches Ok(
            p,
        ) && JsonV::Text(p.target) == selector.field("sku"@) && p.research_id is None
            && p.cached_raw is None),
        !(selector.field("productRef"@) is Text) && !(selector.field("cursor"@) is Text) && !(
        selector.field("sku"@) is Text) ==> (product_batch::resolved_of(selector, None) matches Ok(
            p,
        ) ==> JsonV::Text(p.target) == selector.field("url"@) && (address::parsed_url(
            p.target,
        ) matches Ok(a) && a.scheme == "https"@ && (a.host == Some("www.ozon.ru"@) || a.host
            == Some("ozon.ru"@)) && text::starts(a.path, "/product/"@) && a.username.len() == 0
            && a.password is None && a.port is None)),
{
}

/// A product of another context, or of another research than its batch, is refused; any other
/// is taken as it is, and fixes the research of the batch.
pub proof fn batches_are_of_one_context_and_research(
    b: BatchV,
    p: ResolvedProductV,
    context_id: Seq<char>,
)
    ensures
        ({
            let after = product_batch::with_product(b, Ok(p), context_id);
            let foreign = p.context_id is Some && p.context_id != Some(context_id);
            let mixed = p.research_id is Some && b.research_id is Some && p.research_id
                != b.research_id;
            &&& after.resolved.len() == b.resolved.len() + 1
            &&& after.resolved.drop_last() == b.resolved
            &&& after.resolved.last() is Err == (foreign || mixed)
            &&& !foreign && !mixed ==> after.resolved.last() == Ok::<ResolvedProductV, FailureV>(p)
            &&& b.research_id is Some ==> after.research_id == b.research_id
            &&& !foreign && !mixed && p.research_id is Some ==> after.research_id == p.research_id
            &&& after.view == b.view && after.view_bound == b.view_bound
        }),
{
    let after = product_batch::with_product(b, Ok(p), context_id);
    assert(after.resolved.drop_last() =~= b.resolved);
}

/// The sections that are shown where none are asked for are the characteristics, and in the full
/// view the offers too; those that are asked for are shown as they are asked for.
pub proof fn sections_are_those_asked_for(args: JsonV, view: Seq<char>, section: Seq<char>)
    ensures
        !(args.field("include"@) is Array) ==> {
            let shown = product_batch::sections_of(args, view);
            &&& shown.contains("characteristics"@)
            &&& shown.contains("offers"@) == (view == "full"@)
            &&& shown.contains(section) ==> section == "characteristics"@ || section == "offers"@
        },
        args.field("include"@) matches JsonV::Array(a) ==> product_batch::sections_of(args, view)
            == product_details::texts_in(a),
{
    reveal_strlit("characteristics");
    reveal_strlit("offers");
    assert("characteristics"@.len() == 15);
    assert("offers"@.len() == 6);
    let one = seq!["characteristics"@];
    let two = seq!["characteristics"@, "offers"@];
    assert(one[0] == "characteristics"@ && two[0] == "characteristics"@ && two[1] == "offers"@);
}

/// No two warnings of a batch have one code, and each code that a product warns of is there.
pub proof fn batch_warnings_differ(v: Seq<JsonV>, i: int)
    requires
        0 <= i < v.len(),
    ensures
        ({
            let shown = product_batch::first_warnings(v);
            &&& forall|a: int, b: int|
                0 <= a < b < shown.len() ==> product_batch::code_in(#[trigger] shown[a])
                    != product_batch::code_in(#[trigger] shown[b])
            &&& exists|k: int|
                0 <= k < shown.len() && product_batch::code_in(#[trigger] shown[k])
                    == product_batch::code_in(v[i])
        }),
    decreases v.len(),
{
    let rest = v.drop_last();
    let before = product_batch::first_warnings(rest);
    let all = product_batch::first_warnings(v);
    if rest.len() > 0 {
        let j = if i < rest.len() {
            i
        } else {
            0
        };
        batch_warnings_differ(rest, j);
    }
    let known = exists|k: int|
        0 <= k < before.len() && product_batch::code_in(#[trigger] before[k])
            == product_batch::code_in(v.last());
    if !known {
        assert(all[before.len() as int] == v.last());
        assert forall|a: int, b: int| 0 <= a < b < all.len() implies product_batch::code_in(
            #[trigger] all[a],
        ) != product_batch::code_in(#[trigger] all[b]) by {
            assert(all[a] == before[a]);
            if b < before.len() {
                assert(all[b] == before[b]);
            }
        }
    }
    if i < rest.len() {
        assert(rest[i] == v[i]);
        let k = choose|k: int|
            0 <= k < before.len() && product_batch::code_in(#[trigger] before[k])
                == product_batch::code_in(rest[i]);
        assert(all[k] == before[k]);
    }
}

} // verus!
