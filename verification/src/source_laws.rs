//! What is taken from the source, and what is refused.

use crate::address::AddressV;
use crate::config;
use crate::context_binding;
use crate::digest;
use crate::failure::FailureV;
use crate::images::{self, AfterEncoding, AfterReplyV, Format, ImageReplyV, Signature};
use crate::journal::{self, JournalCall};
use crate::json::JsonV;
use crate::ledger::LedgerV;
use crate::ozon_pages;
use crate::page_outcome::FilteredPageV;
use crate::text;
use crate::widgets;
use vstd::prelude::*;

verus! {

/// An image is read exactly where the reply succeeds, announces no more bytes than are taken, and
/// is of one of the three kinds; it is followed exactly where the reply leads elsewhere, and not
/// too often.
pub proof fn replies_are_read_or_followed(url: Seq<char>, redirects: nat, reply: ImageReplyV)
    ensures
        ({
            let r = images::next_step(url, redirects, reply);
            let kind = match reply.content_type {
                Some(value) => images::mime_of(value),
                None => None,
            };
            let small = reply.content_length matches Some(n) ==> n <= 4_194_304;
            &&& (r is Ok && r->Ok_0 is Read) <==> 200 <= reply.status <= 299 && small && kind is Some
            &&& r is Ok && r->Ok_0 is Read ==> kind == Some(r->Ok_0->Read_0)
            &&& r is Ok && r->Ok_0 is Follow ==> 300 <= reply.status <= 399 && redirects
                < 3 && reply.location is Some
            &&& 300 <= reply.status <= 399 && redirects < 3 ==> r
                == images::redirected(url, reply.location)
            &&& reply.status == 404 ==> r == Err::<AfterReplyV, FailureV>(
                FailureV::Message("NOT_FOUND: image source was not found"@),
            )
        }),
{
}

/// The kind of an image is one of three, however it is written, and what stands behind it does
/// not count.
pub proof fn image_kinds_are_three(value: Seq<char>)
    ensures
        images::mime_of(value) matches Some(kind) ==> {
            &&& kind == "image/jpeg"@ || kind == "image/png"@ || kind == "image/webp"@
            &&& kind == text::lowercase(text::trimmed(text::split(value, ';')[0]))
        },
{
}

/// An image is fetched from the host of the images alone, over a safe connection, and from no
/// longer address than is taken.
pub proof fn images_come_from_their_host(raw: Seq<char>)
    ensures
        images::image_url(raw) matches Ok(a) ==> {
            &&& a.scheme == "https"@
            &&& a.host == Some("ir.ozone.ru"@)
            &&& a.port is None || a.port == Some(443u16)
            &&& a.username.len() == 0
            &&& a.password is None
            &&& text::utf8_len(raw) <= 2_048
        },
{
}

/// The bytes of an image are what its reply declares: each kind is taken for itself alone.
pub proof fn images_are_what_they_declare(signature: Signature, declared: Seq<char>)
    ensures
        ({
            let r = images::declared_format(signature, declared);
            &&& r == Ok::<Format, FailureV>(Format::Jpeg) <==> signature == Signature::Jpeg
                && declared == "image/jpeg"@
            &&& r == Ok::<Format, FailureV>(Format::Png) <==> signature == Signature::Png && declared
                == "image/png"@
            &&& r == Ok::<Format, FailureV>(Format::Webp) <==> signature == Signature::Webp
                && declared == "image/webp"@
        }),
{
}

/// An image has some pixels, and not too many.
pub proof fn images_have_a_size(width: u32, height: u32)
    ensures
        images::sized(width, height) is Ok <==> width > 0 && height > 0 && width * height
            <= 20_000_000,
        images::sized(width, height) == images::sized(height, width),
        images::measured(Some((width, height))) == images::sized(width, height),
        images::measured(None) is Err,
{
    assert(width * height == height * width) by (nonlinear_arith);
    assert(width > 0 && height > 0 ==> width * height > 0) by (nonlinear_arith);
}

/// An encoded image is shown where it is small enough, and made smaller otherwise, as long as
/// that is possible and not for too long.
pub proof fn encoded_images_are_small(size: nat, width: u32, height: u32, attempts: nat)
    ensures
        ({
            let r = images::encoding_step(size, width, height, attempts);
            &&& r == Ok::<_, FailureV>(AfterEncoding::Done) <==> size <= 1_048_576
            &&& r == Ok::<_, FailureV>(AfterEncoding::Shrink) <==> size > 1_048_576
                && (width != 1 || height != 1) && attempts < 10
        }),
{
}

/// An image is shown with its own bytes and their digest, its kind, its width and its height.
pub proof fn fetched_images_tell_of_their_bytes(
    bytes: Seq<u8>,
    format: Format,
    width: u32,
    height: u32,
    at: Seq<char>,
)
    ensures
        ({
            let shown = images::fetched(bytes, format, width, height, at);
            &&& shown.data == digest::base64_text(bytes)
            &&& shown.sha256 == digest::sha256_text(bytes)
            &&& shown.width == width
            &&& shown.height == height
            &&& shown.retrieved_at == at
            &&& format == Format::Jpeg ==> shown.mime_type == "image/jpeg"@
            &&& format == Format::Png ==> shown.mime_type == "image/png"@
            &&& format == Format::Webp ==> shown.mime_type == "image/webp"@
        }),
{
}

/// Bytes are gathered in order, up to a limit, and none is left out.
pub proof fn bytes_are_gathered(target: Seq<u8>, chunk: Seq<u8>, limit: nat)
    ensures
        images::appended(target, chunk, limit) is Some <==> target.len() + chunk.len() <= limit,
        images::appended(target, chunk, limit) matches Some(all) ==> {
            &&& all.len() == target.len() + chunk.len()
            &&& all.take(target.len() as int) == target
            &&& all.skip(target.len() as int) == chunk
        },
{
    let all = target + chunk;
    assert(all.take(target.len() as int) =~= target);
    assert(all.skip(target.len() as int) =~= chunk);
}

/// A page of the source answers a request on its own site alone. A page that is no search answers
/// the request for itself.
pub proof fn pages_answer_for_themselves(target: AddressV, found: AddressV)
    ensures
        ozon_pages::is_requested(target, found) ==> target.origin == found.origin && found.origin
            != "null"@,
        target.origin != "null"@ && target.path != "/search/"@ && !text::starts(
            target.path,
            "/category/"@,
        ) ==> ozon_pages::is_requested(target, target),
{
}

/// A search is answered by itself. Where no brand is in question, it is answered by nothing but a
/// page with the same parameters, but for those that do not count.
pub proof fn searches_are_answered_by_themselves(target: AddressV, found: AddressV)
    requires
        ozon_pages::parameters(target).filter(ozon_pages::is_semantic()).filter(
            ozon_pages::has_name("brand_was_predicted"@),
        ).len() == 0,
        ozon_pages::parameters(found).filter(ozon_pages::is_semantic()).filter(
            ozon_pages::has_name("brand_was_predicted"@),
        ).len() == 0,
        ozon_pages::parameters(target).filter(ozon_pages::is_semantic()).filter(
            ozon_pages::has_name("brand"@),
        ).len() == 0,
    ensures
        ozon_pages::parameters(target).filter(ozon_pages::has_name("sorting"@)).len() <= 1
            ==> ozon_pages::is_same_search(target, target),
        ozon_pages::is_same_search(target, found) ==> {
            &&& ozon_pages::parameters(target).filter(ozon_pages::is_semantic())
                == ozon_pages::parameters(found).filter(ozon_pages::is_semantic())
            &&& target.path == found.path || ozon_pages::is_predicted_category(target, found)
        },
{
}

/// A page is shown exactly where its address was opened and answers the request.
pub proof fn navigations_succeed(status: Option<u64>, route_valid: bool)
    ensures
        ozon_pages::navigation_problem(status, route_valid) is None <==> route_valid
            && status is Some && 200 <= status->Some_0 < 400,
{
}

/// A context whose account stays the same while its region is looked up gets the region that was
/// found, as a verified one, and keeps all else. Any change on the way is refused.
pub proof fn regions_are_those_selected(
    before: FilteredPageV,
    after: FilteredPageV,
    selected: Option<Seq<char>>,
)
    ensures
        ({
            let r = ozon_pages::merged_page(before, after, selected);
            &&& r is Ok <==> {
                &&& before.context_observation is Some
                &&& after.context_observation is Some
                &&& ozon_pages::is_stable(
                    before.context_observation->Some_0,
                    after.context_observation->Some_0,
                )
                &&& selected matches Some(s) ==> {
                    let b = before.context_observation->Some_0.region_label;
                    let a = after.context_observation->Some_0.region_label;
                    (b is None || b == Some(s)) && (a is None || a == Some(s))
                }
            }
            &&& r matches Ok(page) ==> {
                &&& page.widget_states == after.widget_states
                &&& page.region_probe is None
                &&& page.seo == after.seo && page.sku == after.sku
                &&& selected is None ==> page.context_observation == after.context_observation
                &&& selected matches Some(s) ==> {
                    let shown = page.context_observation->Some_0;
                    let was = after.context_observation->Some_0;
                    &&& page.context_observation is Some
                    &&& shown.region_label == Some(s)
                    &&& shown.region_verified
                    &&& shown.account_state == was.account_state
                    &&& shown.access_state == was.access_state
                    &&& shown.signature is Some
                }
            }
        }),
{
}

/// Work goes on only in the context that it began in.
pub proof fn work_stays_in_its_context(current: JsonV, expected: Seq<char>)
    ensures
        context_binding::context_problem(current, expected) is None <==> current.field("contextId"@)
            == JsonV::Text(expected),
{
}

/// A configuration is taken exactly where its three places are absolute and lead nowhere up, and
/// where the socket lies directly inside the data directory and has a path that is short enough.
/// Each place is kept as it is.
pub proof fn configurations_are_safe(root: Seq<char>, profile: Seq<char>, socket: Seq<char>)
    ensures
        ({
            let r = config::configured(root, profile, socket);
            let parts = config::components(socket);
            &&& r is Ok <==> {
                &&& text::starts(root, "/"@) && text::starts(profile, "/"@) && text::starts(
                    socket,
                    "/"@,
                )
                &&& !config::components(root).contains(".."@)
                &&& !config::components(profile).contains(".."@)
                &&& !parts.contains(".."@)
                &&& parts.len() > 0
                &&& parts.drop_last() == config::components(root)
                &&& text::utf8_len(socket) <= 103
            }
            &&& r matches Ok(c) ==> c.root == root && c.profile == profile && c.socket == socket
        }),
{
}

/// A reference that is written gets a name of its own, and holds what it is given, of its own
/// research and kind, for as long as it is to be kept. Nothing that was written before changes.
pub proof fn references_hold_what_is_written(
    ledger: LedgerV,
    research: Seq<char>,
    kind: Seq<char>,
    value: JsonV,
    ttl: Option<u64>,
)
    ensures
        ({
            let after = ledger.put(research, kind, value, ttl);
            let n = ledger.writes.len();
            &&& after.writes.len() == n + 1
            &&& after.writes.take(n as int) == ledger.writes
            &&& after.writes[n as int].research_id == research
            &&& after.writes[n as int].kind == kind
            &&& after.writes[n as int].value == value
            &&& after.writes[n as int].ttl_seconds == ttl
            &&& after.writes[n as int].id == "ref_"@ + ledger.ids[ledger.used as int]
            &&& after.used == ledger.used + 1
            &&& after.ids == ledger.ids
            &&& after.context == ledger.context
        }),
{
    let after = ledger.put(research, kind, value, ttl);
    assert(after.writes.take(ledger.writes.len() as int) =~= ledger.writes);
}

/// Each journal tool makes its own call, and one that is about a research names it.
pub proof fn journal_calls_name_their_research(name: Seq<char>, args: JsonV)
    ensures
        ({
            let r = journal::journal_start_of(name, args);
            let id = args.field("researchId"@);
            &&& name == "ozon_list_research"@ ==> r == Ok::<_, FailureV>((JournalCall::List, None::<Seq<char>>))
            &&& name == "ozon_get_research"@ && id is Text ==> r == Ok::<_, FailureV>(
                (JournalCall::Read, Some(id->Text_0)),
            )
            &&& name == "ozon_append_research_note"@ && id is Text ==> r == Ok::<_, FailureV>(
                (JournalCall::AppendNote, Some(id->Text_0)),
            )
            &&& name != "ozon_list_research"@ && id !is Text ==> r is Err
            &&& name != "ozon_list_research"@ && name != "ozon_get_research"@ && name
                != "ozon_append_research_note"@ ==> r is Err
        }),
{
    reveal_strlit("ozon_list_research");
    reveal_strlit("ozon_get_research");
    reveal_strlit("ozon_append_research_note");
    assert("ozon_list_research"@.len() == 18);
    assert("ozon_get_research"@.len() == 17);
    assert("ozon_append_research_note"@.len() == 25);
}

/// The states of a widget are those under its name, in order, and only those that can be read.
pub proof fn states_are_those_of_the_widget(
    m: Seq<(Seq<char>, JsonV)>,
    n: Seq<(Seq<char>, JsonV)>,
    key: Seq<char>,
    value: JsonV,
    name: Seq<char>,
)
    ensures
        widgets::states_in(m + n, name) == widgets::states_in(m, name) + widgets::states_in(n, name),
        text::split(key, '-')[0] == name && (value is Object || value is Array)
            ==> widgets::states_in(seq![(key, value)], name) == seq![value],
        text::split(key, '-')[0] != name ==> widgets::states_in(seq![(key, value)], name).len() == 0,
    decreases n.len(),
{
    let one = seq![(key, value)];
    assert(one.drop_last() =~= Seq::<(Seq<char>, JsonV)>::empty());
    assert(widgets::states_in(one.drop_last(), name) =~= Seq::<JsonV>::empty());
    assert(Seq::<JsonV>::empty().push(value) =~= seq![value]);
    if n.len() == 0 {
        assert(m + n =~= m);
        assert(widgets::states_in(m, name) + widgets::states_in(n, name) =~= widgets::states_in(
            m,
            name,
        ));
    } else {
        states_are_those_of_the_widget(m, n.drop_last(), key, value, name);
        assert((m + n).drop_last() =~= m + n.drop_last());
        assert(widgets::states_in(m + n, name) =~= widgets::states_in(m, name) + widgets::states_in(
            n,
            name,
        ));
    }
}

/// The first state that has one of some members is taken.
pub proof fn states_are_taken_in_order(v: Seq<JsonV>, keys: Seq<Seq<char>>, i: int)
    requires
        0 <= i <= v.len(),
    ensures
        ({
            let r = widgets::first_with(v, keys, i);
            ||| r is None && forall|k: int|
                i <= k < v.len() ==> !widgets::has_any(#[trigger] v[k], keys)
            ||| exists|k: int|
                i <= k < v.len() && r == Some(#[trigger] v[k]) && widgets::has_any(v[k], keys)
                    && forall|j: int| i <= j < k ==> !widgets::has_any(#[trigger] v[j], keys)
        }),
    decreases v.len() - i,
{
    if i < v.len() && !widgets::has_any(v[i], keys) {
        states_are_taken_in_order(v, keys, i + 1);
        let r = widgets::first_with(v, keys, i + 1);
        if r is Some {
            let k = choose|k: int|
                i < k < v.len() && r == Some(#[trigger] v[k]) && widgets::has_any(v[k], keys)
                    && forall|j: int| i < j < k ==> !widgets::has_any(#[trigger] v[j], keys);
            assert(forall|j: int| i <= j < k ==> !widgets::has_any(#[trigger] v[j], keys));
        }
    }
}

} // verus!
