//! What holds of every call: its defaults, its failures, and what it lets be observed.

use crate::context_report;
use crate::contracts::{self, ContractV};
use crate::evidence;
use crate::gateway::{self, ObservationsV, Observed};
use crate::json::{self, JsonV, NumberV};
use crate::marketplace;
use crate::service;
use crate::text;
use vstd::prelude::*;

verus! {

/// The failure of a call tells its code, whether to try again and when, and what to do. It may be
/// tried again after a while exactly where the source was too slow or the server too busy, and it
/// is not safe to try again where the call itself is at fault.
pub proof fn failures_say_what_to_do(
    code: Seq<char>,
    message: Seq<char>,
    research: Option<Seq<char>>,
)
    ensures
        ({
            let shown = contracts::failure_json(code, message, research);
            let error = shown.field("error"@);
            let said = contracts::public_code(code);
            let again = said == "UPSTREAM_TIMEOUT"@ || said == "SERVER_BUSY"@;
            &&& shown.field("schemaVersion"@) == JsonV::Text("1"@)
            &&& research matches Some(r) ==> shown.field("researchId"@) == JsonV::Text(r)
            &&& research is None ==> shown.field("researchId"@) is Null
            &&& error.field("code"@) == JsonV::Text(said)
            &&& error.field("message"@) == JsonV::Text(contracts::public_message(message, said))
            &&& error.field("retryable"@) == JsonV::Bool(again)
            &&& again ==> error.field("retryAfterSeconds"@) == JsonV::Number(NumberV::Unsigned(2))
            &&& !again ==> error.field("retryAfterSeconds"@) is Null
            &&& error.field("safeToRetry"@) == JsonV::Bool(
                said != "CONFLICT"@ && said != "INVALID_ARGUMENT"@,
            )
            &&& error.field("recovery"@) == JsonV::Text(contracts::recovery_for(said))
        }),
{
    broadcast use json::lemma_get_with;

    reveal_strlit("schemaVersion");
    reveal_strlit("researchId");
    reveal_strlit("error");
    reveal_strlit("code");
    reveal_strlit("message");
    reveal_strlit("retryable");
    reveal_strlit("safeToRetry");
    reveal_strlit("retryAfterSeconds");
    reveal_strlit("recovery");
    assert("schemaVersion"@.len() == 13);
    assert("researchId"@.len() == 10);
    assert("error"@.len() == 5);
    assert("code"@.len() == 4);
    assert("message"@.len() == 7);
    assert("retryable"@.len() == 9);
    assert("safeToRetry"@.len() == 11);
    assert("retryAfterSeconds"@.len() == 17);
    assert("recovery"@.len() == 8);
}

/// A failure is announced under a code that callers know: its own where it is one of these, and
/// a timeout of the browser is one of the source.
pub proof fn announced_codes_are_known(code: Seq<char>)
    ensures
        evidence::known_codes().contains(contracts::public_code(code)) || contracts::public_code(
            code,
        ) == "SOURCE_CHANGED"@ || contracts::public_code(code) == "UPSTREAM_TIMEOUT"@,
        evidence::known_codes().contains(code) && code != "BROWSER_TIMEOUT"@
            ==> contracts::public_code(code) == code,
        code == "BROWSER_TIMEOUT"@ ==> contracts::public_code(code) == "UPSTREAM_TIMEOUT"@,
{
}

proof fn lemma_printable(s: Seq<char>, i: int)
    ensures
        contracts::printable(s).len() <= s.len(),
        0 <= i < contracts::printable(s).len() ==> !text::is_control(contracts::printable(s)[i]),
        (forall|k: int| 0 <= k < s.len() ==> !text::is_control(#[trigger] s[k]))
            ==> contracts::printable(s) == s,
    decreases s.len(),
{
    if s.len() > 0 {
        let before = s.drop_last();
        lemma_printable(before, i);
        if forall|k: int| 0 <= k < s.len() ==> !text::is_control(#[trigger] s[k]) {
            assert forall|k: int| 0 <= k < before.len() implies !text::is_control(
                #[trigger] before[k],
            ) by {
                assert(before[k] == s[k]);
            }
            assert(!text::is_control(s[s.len() - 1]));
            assert(before.push(s.last()) =~= s);
        }
    }
}

/// The message of a failure holds no control character. A message without any is shown from its
/// start, and one that is empty is replaced by the code.
pub proof fn messages_are_printable(message: Seq<char>, code: Seq<char>, i: int)
    ensures
        ({
            let shown = contracts::public_message(message, code);
            &&& shown != code && 0 <= i < shown.len() ==> !text::is_control(shown[i])
            &&& (forall|k: int| 0 <= k < message.len() ==> !text::is_control(#[trigger] message[k]))
                ==> shown == code || shown == text::first(message, 1500)
            &&& message.len() == 0 ==> shown == code
            &&& shown != code ==> 0 < shown.len() <= 1500
        }),
{
    lemma_printable(message, i);
}


/// A price range whose lowest price is above its highest is refused, and so is a search for
/// nothing but white space. Nothing else is wrong with a start that its schema takes.
pub proof fn starts_are_refused_for_a_reason(args: JsonV)
    ensures
        ({
            let range = args.field("start"@).field("priceRange"@);
            let wrong = range.field("minMinor"@).as_unsigned() is Some && range.field(
                "maxMinor"@,
            ).as_unsigned() is Some && range.field("minMinor"@).as_unsigned()->Some_0
                > range.field("maxMinor"@).as_unsigned()->Some_0;
            let query = args.field("start"@).field("query"@);
            let blank = query is Text && text::trimmed(query->Text_0).len() == 0;
            &&& contracts::start_rule(args) is Some <==> wrong || blank
            &&& service::range_inverted(args) <==> wrong
        }),
{
}

/// A request for products names them, and asks for no sections while it goes on with one.
pub proof fn product_requests_name_products(args: JsonV)
    ensures
        contracts::products_rule(args) is None <==> args.get("products"@) is Some && (args.get(
            "include"@,
        ) is None || forall|i: int|
            0 <= i < args.field("products"@).elements().len() ==> (#[trigger] args.field(
                "products"@,
            ).elements()[i]).get("cursor"@) is None),
{
}

/// What is wrong with the arguments of a call is told: a violation of the schema always is, and
/// arguments that keep every rule pass.
pub proof fn violations_are_told(name: Seq<char>, args: JsonV, v: contracts::ViolationV)
    ensures
        contracts::input_problem(name, args, Some(v)) is Some,
        name != "ozon_get_products"@ ==> contracts::input_problem(name, args, None)
            == contracts::start_rule(args),
        name == "ozon_get_products"@ ==> (contracts::input_problem(name, args, None) is None
            <==> contracts::products_rule(args) is None && contracts::start_rule(args) is None),
        contracts::output_problem(Some(v)) is Some,
        contracts::output_problem(None) is None,
{
}

/// A tool is announced under its own name, with its own schemas. No tool destroys anything, and
/// one that only reads may be called again.
pub proof fn tools_are_announced_as_they_are(c: ContractV, key: Seq<char>)
    ensures
        ({
            let shown = contracts::definition_of(c);
            &&& shown.name == c.name
            &&& !shown.destructive
            &&& shown.read_only ==> shown.idempotent
            &&& shown.output == c.output
            &&& c.name != "ozon_get_products"@ ==> shown.input == c.input
            &&& key != "allOf"@ ==> shown.input.get(key) == c.input.get(key)
            &&& c.name == "ozon_append_research_note"@ ==> !shown.read_only && shown.idempotent
                && !shown.open_world
        }),
{
    if key != "allOf"@ {
        json::lemma_get_without(c.input, "allOf"@, key);
    }
    reveal_strlit("ozon_append_research_note");
    reveal_strlit("ozon_get_context");
    reveal_strlit("ozon_list_research");
    reveal_strlit("ozon_get_research");
    assert("ozon_append_research_note"@.len() == 25);
    assert("ozon_get_context"@.len() == 16);
    assert("ozon_list_research"@.len() == 18);
    assert("ozon_get_research"@.len() == 17);
}

/// A work on the source goes on exactly while it is neither cancelled nor out of time, and a
/// cancelled one is told so even where its time is over.
pub proof fn works_go_on_in_time(cancelled: bool, expired: bool, active: bool)
    ensures
        service::gate_problem(cancelled, expired, active) is None <==> !cancelled && !expired,
        service::gate_problem(true, expired, active) == service::gate_problem(true, false, false),
        service::gate_problem(false, true, true) != service::gate_problem(false, true, false),
{
    reveal_strlit("UPSTREAM_TIMEOUT: active browser operation deadline expired");
    reveal_strlit("UPSTREAM_TIMEOUT: browser queue budget expired before the operation started");
    assert("UPSTREAM_TIMEOUT: active browser operation deadline expired"@.len() == 59);
    assert("UPSTREAM_TIMEOUT: browser queue budget expired before the operation started"@.len() == 75);
}

/// Defaults fill in what a call leaves out, and change nothing that it gives.
pub proof fn defaults_change_nothing_given(name: Seq<char>, args: JsonV, key: Seq<char>)
    requires
        args is Object,
    ensures
        ({
            let filled = service::with_defaults(name, args);
            &&& args.get(key) is Some ==> filled.get(key) == args.get(key)
            &&& args.get("view"@) is None ==> filled.get("view"@) == Some(JsonV::Text("compact"@))
            &&& name == "ozon_search"@ && args.get("repeatMode"@) is None ==> filled.get(
                "repeatMode"@,
            ) == Some(JsonV::Text("full"@))
            &&& name == "ozon_search"@ && args.get("refinementLimit"@) is None ==> filled.get(
                "refinementLimit"@,
            ) == Some(JsonV::Number(NumberV::Unsigned(12)))
            &&& name == "ozon_get_products"@ && args.get("includeFacets"@) is None ==> filled.get(
                "includeFacets"@,
            ) is None
            &&& (name == "ozon_search"@ || name == "ozon_get_reviews"@) && args.get(
                "includeFacets"@,
            ) is None ==> filled.get("includeFacets"@) == Some(
                JsonV::Bool(
                    args.get("view"@) == Some(JsonV::Text("full"@)) && args.field("start"@).get(
                        "cursor"@,
                    ) is None,
                ),
            )
        }),
{
    broadcast use json::lemma_get_with;

    reveal_strlit("view");
    reveal_strlit("repeatMode");
    reveal_strlit("refinementLimit");
    reveal_strlit("includeFacets");
    reveal_strlit("start");
    reveal_strlit("ozon_search");
    reveal_strlit("ozon_get_reviews");
    reveal_strlit("ozon_get_products");
    reveal_strlit("full");
    reveal_strlit("compact");
    assert("view"@.len() == 4);
    assert("repeatMode"@.len() == 10);
    assert("refinementLimit"@.len() == 15);
    assert("includeFacets"@.len() == 13);
    assert("start"@.len() == 5);
    assert("ozon_search"@.len() == 11);
    assert("ozon_get_reviews"@.len() == 16);
    assert("ozon_get_products"@.len() == 17);
    assert("full"@.len() == 4);
    assert("compact"@.len() == 7);
    assert("view"@[0] == 'v');
    assert("full"@[0] == 'f');
}

/// A continuation keeps what its chain is bound to: what it leaves out is filled in, what it
/// repeats is taken, and what it changes is refused.
pub proof fn bound_arguments_are_kept(args: JsonV, binding: JsonV, key: Seq<char>, other: Seq<char>)
    requires
        args is Object,
    ensures
        ({
            let value = binding.field(key);
            let r = service::bound_to(args, binding, key);
            &&& value is Null ==> r == Ok::<_, crate::failure::FailureV>(args)
            &&& !(value is Null) ==> (r is Err <==> args.get(key) is Some && args.get(key) != Some(
                value,
            ))
            &&& !(value is Null) && r is Ok ==> r->Ok_0.get(key) == Some(value)
            &&& r is Ok && other != key ==> r->Ok_0.get(other) == args.get(other)
        }),
{
    broadcast use json::lemma_get_with;

}

/// A call goes on with the reference that it names, and each tool with references of its own
/// kind.
pub proof fn continuations_name_their_reference(name: Seq<char>, args: JsonV)
    ensures
        ({
            let r = service::continued_ref(name, args);
            let cursor = args.field("start"@).field("cursor"@);
            let refinements = args.field("start"@).field("refinementsCursor"@);
            &&& name != "ozon_search"@ && name != "ozon_get_reviews"@ ==> r is None
            &&& name == "ozon_search"@ && cursor is Text ==> r == Some(
                (cursor->Text_0, "search_cursor"@),
            )
            &&& name == "ozon_get_reviews"@ && cursor is Text ==> r == Some(
                (cursor->Text_0, "review_cursor"@),
            )
            &&& (name == "ozon_search"@ || name == "ozon_get_reviews"@) && cursor !is Text
                && refinements is Text ==> r == Some(
                (refinements->Text_0, "search_refinements"@),
            )
            &&& cursor !is Text && refinements !is Text ==> r is None
        }),
{
    reveal_strlit("ozon_search");
    reveal_strlit("ozon_get_reviews");
    assert("ozon_search"@.len() == 11);
    assert("ozon_get_reviews"@.len() == 16);
}

/// Whether a capability is reported as it was observed.
pub open spec fn is_reported(status: JsonV, observed: bool) -> bool {
    &&& observed ==> status == JsonV::Text("available"@)
    &&& !observed ==> status == JsonV::Text("unverified"@)
}

/// What a search can do is reported as available exactly where it was observed.
#[verifier::rlimit(80)]
pub proof fn search_capabilities_are_those_observed(o: Observed)
    ensures
        ({
            let shown = gateway::capabilities_of(o);
            &&& is_reported(shown.field("search"@), o.search)
            &&& is_reported(shown.field("search_refinements"@), o.search_refinements)
            &&& is_reported(shown.field("search_pagination"@), o.search_pagination)
            &&& is_reported(shown.field("card_prices"@), o.card_prices)
        }),
{
    broadcast use json::lemma_get_with;

    reveal_strlit("search");
    reveal_strlit("search_refinements");
    reveal_strlit("search_pagination");
    reveal_strlit("card_prices");
    reveal_strlit("products");
    reveal_strlit("characteristics");
    reveal_strlit("description");
    reveal_strlit("product_images");
    reveal_strlit("image_content");
    reveal_strlit("review_text");
    reveal_strlit("review_images");
    reveal_strlit("review_pagination");
    reveal_strlit("review_refinements");
    reveal_strlit("variants");
    reveal_strlit("region_verification");
    reveal_strlit("account_observation");
    reveal_strlit("offers");
    assert("search"@.len() == 6);
    assert("search_refinements"@.len() == 18);
    assert("search_pagination"@.len() == 17);
    assert("card_prices"@.len() == 11);
    assert("products"@.len() == 8);
    assert("characteristics"@.len() == 15);
    assert("description"@.len() == 11);
    assert("product_images"@.len() == 14);
    assert("image_content"@.len() == 13);
    assert("review_text"@.len() == 11);
    assert("review_images"@.len() == 13);
    assert("review_pagination"@.len() == 17);
    assert("review_refinements"@.len() == 18);
    assert("variants"@.len() == 8);
    assert("region_verification"@.len() == 19);
    assert("account_observation"@.len() == 19);
    assert("offers"@.len() == 6);
    assert("search"@[0] == 's');
    assert("offers"@[0] == 'o');
    assert("search_refinements"@[0] == 's');
    assert("review_refinements"@[0] == 'r');
    assert("search_pagination"@[0] == 's');
    assert("review_pagination"@[0] == 'r');
    assert("card_prices"@[0] == 'c');
    assert("description"@[0] == 'd');
    assert("review_text"@[0] == 'r');
    assert("products"@[0] == 'p');
    assert("variants"@[0] == 'v');
    assert("image_content"@[0] == 'i');
    assert("review_images"@[0] == 'r');
    assert("region_verification"@[0] == 'r');
    assert("account_observation"@[0] == 'a');
}

/// What a product can show is reported as available exactly where it was observed. Offers are
/// never supported.
#[verifier::rlimit(80)]
pub proof fn product_capabilities_are_those_observed(o: Observed)
    ensures
        ({
            let shown = gateway::capabilities_of(o);
            &&& is_reported(shown.field("products"@), o.products)
            &&& is_reported(shown.field("characteristics"@), o.characteristics)
            &&& is_reported(shown.field("description"@), o.description)
            &&& is_reported(shown.field("product_images"@), o.product_images)
            &&& is_reported(shown.field("image_content"@), o.image_content)
            &&& is_reported(shown.field("variants"@), o.variants)
            &&& shown.field("offers"@) == JsonV::Text("unsupported"@)
        }),
{
    broadcast use json::lemma_get_with;

    reveal_strlit("search");
    reveal_strlit("search_refinements");
    reveal_strlit("search_pagination");
    reveal_strlit("card_prices");
    reveal_strlit("products");
    reveal_strlit("characteristics");
    reveal_strlit("description");
    reveal_strlit("product_images");
    reveal_strlit("image_content");
    reveal_strlit("review_text");
    reveal_strlit("review_images");
    reveal_strlit("review_pagination");
    reveal_strlit("review_refinements");
    reveal_strlit("variants");
    reveal_strlit("region_verification");
    reveal_strlit("account_observation");
    reveal_strlit("offers");
    assert("search"@.len() == 6);
    assert("search_refinements"@.len() == 18);
    assert("search_pagination"@.len() == 17);
    assert("card_prices"@.len() == 11);
    assert("products"@.len() == 8);
    assert("characteristics"@.len() == 15);
    assert("description"@.len() == 11);
    assert("product_images"@.len() == 14);
    assert("image_content"@.len() == 13);
    assert("review_text"@.len() == 11);
    assert("review_images"@.len() == 13);
    assert("review_pagination"@.len() == 17);
    assert("review_refinements"@.len() == 18);
    assert("variants"@.len() == 8);
    assert("region_verification"@.len() == 19);
    assert("account_observation"@.len() == 19);
    assert("offers"@.len() == 6);
    assert("search"@[0] == 's');
    assert("offers"@[0] == 'o');
    assert("search_refinements"@[0] == 's');
    assert("review_refinements"@[0] == 'r');
    assert("search_pagination"@[0] == 's');
    assert("review_pagination"@[0] == 'r');
    assert("card_prices"@[0] == 'c');
    assert("description"@[0] == 'd');
    assert("review_text"@[0] == 'r');
    assert("products"@[0] == 'p');
    assert("variants"@[0] == 'v');
    assert("image_content"@[0] == 'i');
    assert("review_images"@[0] == 'r');
    assert("region_verification"@[0] == 'r');
    assert("account_observation"@[0] == 'a');
}

/// What reviews and contexts can show is reported as available exactly where it was observed.
#[verifier::rlimit(80)]
pub proof fn review_capabilities_are_those_observed(o: Observed)
    ensures
        ({
            let shown = gateway::capabilities_of(o);
            &&& is_reported(shown.field("review_text"@), o.review_text)
            &&& is_reported(shown.field("review_images"@), o.review_images)
            &&& is_reported(shown.field("review_pagination"@), o.review_pagination)
            &&& is_reported(shown.field("review_refinements"@), o.review_refinements)
            &&& is_reported(shown.field("region_verification"@), o.region_verification)
            &&& is_reported(shown.field("account_observation"@), o.account_observation)
        }),
{
    broadcast use json::lemma_get_with;

    reveal_strlit("search");
    reveal_strlit("search_refinements");
    reveal_strlit("search_pagination");
    reveal_strlit("card_prices");
    reveal_strlit("products");
    reveal_strlit("characteristics");
    reveal_strlit("description");
    reveal_strlit("product_images");
    reveal_strlit("image_content");
    reveal_strlit("review_text");
    reveal_strlit("review_images");
    reveal_strlit("review_pagination");
    reveal_strlit("review_refinements");
    reveal_strlit("variants");
    reveal_strlit("region_verification");
    reveal_strlit("account_observation");
    reveal_strlit("offers");
    assert("search"@.len() == 6);
    assert("search_refinements"@.len() == 18);
    assert("search_pagination"@.len() == 17);
    assert("card_prices"@.len() == 11);
    assert("products"@.len() == 8);
    assert("characteristics"@.len() == 15);
    assert("description"@.len() == 11);
    assert("product_images"@.len() == 14);
    assert("image_content"@.len() == 13);
    assert("review_text"@.len() == 11);
    assert("review_images"@.len() == 13);
    assert("review_pagination"@.len() == 17);
    assert("review_refinements"@.len() == 18);
    assert("variants"@.len() == 8);
    assert("region_verification"@.len() == 19);
    assert("account_observation"@.len() == 19);
    assert("offers"@.len() == 6);
    assert("search"@[0] == 's');
    assert("offers"@[0] == 'o');
    assert("search_refinements"@[0] == 's');
    assert("review_refinements"@[0] == 'r');
    assert("search_pagination"@[0] == 's');
    assert("review_pagination"@[0] == 'r');
    assert("card_prices"@[0] == 'c');
    assert("description"@[0] == 'd');
    assert("review_text"@[0] == 'r');
    assert("products"@[0] == 'p');
    assert("variants"@[0] == 'v');
    assert("image_content"@[0] == 'i');
    assert("review_images"@[0] == 'r');
    assert("region_verification"@[0] == 'r');
    assert("account_observation"@[0] == 'a');
}
/// Whether everything that was observed stays observed.
pub open spec fn remembers(a: Observed, b: Observed) -> bool {
    &&& a.search ==> b.search
    &&& a.search_refinements ==> b.search_refinements
    &&& a.search_pagination ==> b.search_pagination
    &&& a.card_prices ==> b.card_prices
    &&& a.products ==> b.products
    &&& a.characteristics ==> b.characteristics
    &&& a.description ==> b.description
    &&& a.product_images ==> b.product_images
    &&& a.image_content ==> b.image_content
    &&& a.review_text ==> b.review_text
    &&& a.review_images ==> b.review_images
    &&& a.review_pagination ==> b.review_pagination
    &&& a.review_refinements ==> b.review_refinements
    &&& a.variants ==> b.variants
    &&& a.region_verification ==> b.region_verification
    &&& a.account_observation ==> b.account_observation
}

/// Reading a page forgets nothing that was observed before, and adds just what the page shows.
pub proof fn readings_forget_nothing(o: Observed, raw: JsonV, listed: bool)
    ensures
        remembers(o, gateway::search_observed(o, raw)),
        remembers(o, gateway::product_observed(o, raw)),
        remembers(o, gateway::reviews_observed(o, listed, raw)),
        ({
            let b = gateway::search_observed(o, raw);
            &&& b.search
            &&& !o.search_refinements ==> (b.search_refinements <==> !(raw.field("facets"@) is Null))
            &&& !o.search_pagination ==> (b.search_pagination <==> raw.field("hasNext"@) is Bool)
            &&& !o.card_prices ==> (b.card_prices <==> exists|i: int|
                0 <= i < raw.field("items"@).elements().len() && (#[trigger] raw.field(
                    "items"@,
                ).elements()[i]).field("priceType"@) == JsonV::Text("ozon_card"@))
            &&& b.products == o.products && b.review_text == o.review_text && b.variants
                == o.variants && b.description == o.description
        }),
        ({
            let b = gateway::product_observed(o, raw);
            &&& !o.products ==> (b.products <==> raw.field("sku"@) is Text && raw.field("name"@) is Text)
            &&& !o.product_images ==> (b.product_images <==> raw.field("images"@).elements().len() > 0)
            &&& b.search == o.search && b.review_text == o.review_text && b.image_content
                == o.image_content
        }),
        ({
            let b = gateway::reviews_observed(o, listed, raw);
            &&& !o.review_text ==> (b.review_text <==> listed)
            &&& !o.review_pagination ==> (b.review_pagination <==> raw.field("hasNext"@) is Bool)
            &&& !o.review_refinements ==> (b.review_refinements <==> raw.field(
                "refinements"@,
            ).elements().len() > 0)
            &&& b.search == o.search && b.products == o.products && b.image_content
                == o.image_content
        }),
{
}

/// Two contexts that give no signature of their own are told apart exactly by region, by whether
/// it is verified, and by account.
pub proof fn contexts_are_told_apart(a: JsonV, b: JsonV)
    requires
        a.field("signature"@) is Null,
        b.field("signature"@) is Null,
    ensures
        gateway::signature_of(a) == gateway::signature_of(b) <==> a.field("regionLabel"@)
            == b.field("regionLabel"@) && a.field("regionVerified"@) == b.field("regionVerified"@)
            && a.field("accountState"@) == b.field("accountState"@),
{
    broadcast use json::lemma_get_with;

    reveal(gateway::signature_of);
    reveal_strlit("regionLabel");
    reveal_strlit("regionVerified");
    reveal_strlit("accountState");
    assert("regionLabel"@.len() == 11);
    assert("regionVerified"@.len() == 14);
    assert("accountState"@.len() == 12);
    let (x, y) = (gateway::signature_of(a), gateway::signature_of(b));
    assert(x.get("regionLabel"@) == Some(a.field("regionLabel"@)));
    assert(y.get("regionLabel"@) == Some(b.field("regionLabel"@)));
    assert(x.get("regionVerified"@) == Some(a.field("regionVerified"@)));
    assert(y.get("regionVerified"@) == Some(b.field("regionVerified"@)));
    assert(x.get("accountState"@) == Some(a.field("accountState"@)));
    assert(y.get("accountState"@) == Some(b.field("accountState"@)));
}

/// A context page tells its region, and whether it is verified, its account and its access, and
/// the signature that it gives.
pub proof fn context_pages_are_told(o: Observed, page: JsonV)
    ensures
        ({
            let shown = gateway::context_answer(o, page);
            &&& shown.field("regionLabel"@) == page.field("regionLabel"@)
            &&& shown.field("regionSourceUrl"@) == page.field("regionSourceUrl"@)
            &&& shown.field("signature"@) == page.field("signature"@)
            &&& shown.field("regionVerification"@) == JsonV::Text("verified"@) <==> page.field(
                "regionVerified"@,
            ) == JsonV::Bool(true)
            &&& page.field("accountState"@) == JsonV::Text("authenticated"@) ==> shown.field(
                "accountState"@,
            ) == JsonV::Text("authenticated"@)
            &&& page.field("accountState"@) == JsonV::Text("anonymous"@) ==> shown.field(
                "accountState"@,
            ) == JsonV::Text("anonymous"@)
            &&& page.field("accessState"@) == JsonV::Text("available"@) ==> shown.field(
                "accessState"@,
            ) == JsonV::Text("available"@)
            &&& page.field("accessState"@) == JsonV::Text("blocked"@) ==> shown.field(
                "accessState"@,
            ) == JsonV::Text("blocked"@)
            &&& shown.field("capabilities"@) == gateway::capabilities_of(o)
        }),
{
    broadcast use json::lemma_get_with;

    reveal(gateway::context_answer);
    reveal_strlit("regionLabel");
    reveal_strlit("regionVerification");
    reveal_strlit("regionSourceUrl");
    reveal_strlit("accountState");
    reveal_strlit("accessState");
    reveal_strlit("signature");
    reveal_strlit("capabilities");
    assert("regionLabel"@.len() == 11);
    assert("regionVerification"@.len() == 18);
    assert("regionSourceUrl"@.len() == 15);
    assert("accountState"@.len() == 12);
    assert("accessState"@.len() == 11);
    assert("signature"@.len() == 9);
    assert("capabilities"@.len() == 12);
    assert("regionLabel"@[0] == 'r');
    assert("accessState"@[0] == 'a');
    assert("accountState"@[0] == 'a');
    assert("capabilities"@[0] == 'c');
    reveal_strlit("verified");
    reveal_strlit("unverified");
    assert("verified"@.len() == 8 && "unverified"@.len() == 10);
    assert(seq!["authenticated"@, "anonymous"@][0] == "authenticated"@);
    assert(seq!["authenticated"@, "anonymous"@][1] == "anonymous"@);
    assert(seq!["available"@, "blocked"@][0] == "available"@);
    assert(seq!["available"@, "blocked"@][1] == "blocked"@);
}

/// Reading a context page adds what it shows of region and account, and forgets nothing but the
/// content of images of another context.
pub proof fn contexts_add_what_they_show(o: ObservationsV, page: JsonV)
    ensures
        ({
            let b = gateway::context_observed(o, page);
            let same = o.context_signature is None || o.context_signature == Some(
                gateway::signature_of(page),
            );
            &&& b.context_signature == Some(gateway::signature_of(page))
            &&& same ==> remembers(o.observed, b.observed)
            &&& !same ==> !b.observed.image_content
            &&& b.observed.image_content ==> o.observed.image_content
            &&& page.field("regionVerified"@) == JsonV::Bool(true) ==> b.observed.region_verification
            &&& !o.observed.region_verification && b.observed.region_verification ==> page.field(
                "regionVerified"@,
            ) == JsonV::Bool(true)
            &&& page.field("accountState"@) == JsonV::Text("authenticated"@)
                ==> b.observed.account_observation
            &&& page.field("accountState"@) == JsonV::Text("anonymous"@)
                ==> b.observed.account_observation
        }),
{
}

/// Every capability is reported under its name, in a known state, and one that is not available
/// with a reason where the source gives it by state alone or not at all.
pub proof fn capabilities_have_reasons(capabilities: JsonV, name: Seq<char>, key: Seq<char>)
    ensures
        ({
            let shown = context_report::capability_of(capabilities, name, key);
            let said = capabilities.get(name);
            &&& shown.field("name"@) == JsonV::Text(name)
            &&& shown.field("status"@) == JsonV::Text("available"@) || shown.field("status"@)
                == JsonV::Text("unsupported"@) || shown.field("status"@) == JsonV::Text(
                "unverified"@,
            )
            &&& shown.field("status"@) != JsonV::Text("available"@) ==> !(shown.field("reason"@) is Null)
            &&& said == Some(JsonV::Text("available"@)) ==> shown.field("status"@) == JsonV::Text(
                "available"@,
            ) && shown.field("reason"@) is Null
            &&& said == Some(JsonV::Text("unsupported"@)) ==> shown.field("status"@) == JsonV::Text(
                "unsupported"@,
            )
            &&& said is None && capabilities.get(key) is None ==> shown.field("status"@)
                == JsonV::Text("unverified"@)
        }),
{
    broadcast use json::lemma_get_with;

    reveal_strlit("name");
    reveal_strlit("status");
    reveal_strlit("reason");
    assert("name"@.len() == 4);
    assert("status"@.len() == 6);
    assert("reason"@.len() == 6);
    assert("status"@[0] == 's');
    assert("reason"@[0] == 'r');
    let states = context_report::capability_states();
    assert(states[0] == "available"@ && states[1] == "unsupported"@ && states[2] == "unverified"@);
    assert forall|s: Seq<char>| #[trigger] states.contains(s) implies s == "available"@ || s
        == "unsupported"@ || s == "unverified"@ by {}
    reveal_strlit("available");
    reveal_strlit("unsupported");
    reveal_strlit("unverified");
    assert("available"@.len() == 9 && "unsupported"@.len() == 11 && "unverified"@.len() == 10);
}

/// The context shows what the source says of it: the region with its verification and the
/// evidence that it rests on, the account, the access and every capability.
pub proof fn contexts_are_shown_with_their_evidence(
    raw: JsonV,
    observed: Seq<char>,
    first: Seq<char>,
    second: Seq<char>,
    id: Seq<char>,
)
    requires
        raw.field("contextId"@) == JsonV::Text(id),
    ensures
        ({
            let shown = context_report::context_shown(raw, observed, first, second).data;
            let region = shown.field("region"@);
            &&& shown.field("contextId"@) == JsonV::Text(id)
            &&& shown.field("observedAt"@) == JsonV::Text(observed)
            &&& region.field("label"@) == raw.field("regionLabel"@)
            &&& raw.field("regionVerification"@) == JsonV::Text("verified"@) ==> region.field(
                "verification"@,
            ) == JsonV::Text("verified"@)
            &&& raw.field("regionVerification"@) != JsonV::Text("verified"@) ==> region.field(
                "verification"@,
            ) == JsonV::Text("unverified"@)
            &&& region.field("evidenceRefs"@) == marketplace::only_text(
                marketplace::evidence_name(
                    if context_report::from_address_book(raw) {
                        second
                    } else {
                        first
                    },
                ),
            )
            &&& shown.field("capabilities"@) == JsonV::Array(
                context_report::registry_of(raw.field("capabilities"@)),
            )
        }),
{
    broadcast use json::lemma_get_with;

    reveal_strlit("contextId");
    reveal_strlit("observedAt");
    reveal_strlit("region");
    reveal_strlit("accountState");
    reveal_strlit("accessState");
    reveal_strlit("capabilities");
    reveal_strlit("label");
    reveal_strlit("verification");
    reveal_strlit("evidenceRefs");
    assert("contextId"@.len() == 9);
    assert("observedAt"@.len() == 10);
    assert("region"@.len() == 6);
    assert("accountState"@.len() == 12);
    assert("accessState"@.len() == 11);
    assert("capabilities"@.len() == 12);
    assert("label"@.len() == 5);
    assert("verification"@.len() == 12);
    assert("evidenceRefs"@.len() == 12);
    assert("accountState"@[0] == 'a');
    assert("capabilities"@[0] == 'c');
    assert("verification"@[0] == 'v');
    assert("evidenceRefs"@[0] == 'e');
    let states = seq!["verified"@, "unverified"@];
    assert(states[0] == "verified"@ && states[1] == "unverified"@);
    assert forall|s: Seq<char>| #[trigger] states.contains(s) implies s == "verified"@ || s
        == "unverified"@ by {}
}

} // verus!
