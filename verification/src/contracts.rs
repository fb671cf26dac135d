//! The tools of the server: their names, their schemas and how they fail.
//!
//! Checked-in JSON schemas are the single public source of the shapes of arguments and
//! results. A rule that a schema cannot state is held here.

use crate::evidence;
use crate::failure::Failure;
use crate::json::{self, Json, JsonV};
use crate::text;
use crate::widgets;
use vstd::prelude::*;

verus! {

/// The names of the tools.
pub open spec fn names() -> Seq<Seq<char>> {
    seq![
        "ozon_get_context"@,
        "ozon_search"@,
        "ozon_get_products"@,
        "ozon_get_reviews"@,
        "ozon_get_images"@,
        "ozon_list_research"@,
        "ozon_get_research"@,
        "ozon_append_research_note"@,
    ]
}

pub fn tool_names() -> (r: [&'static str; 8])
    ensures
        widgets::slices(r@) == names(),
{
    let r: [&'static str; 8] = [
        "ozon_get_context",
        "ozon_search",
        "ozon_get_products",
        "ozon_get_reviews",
        "ozon_get_images",
        "ozon_list_research",
        "ozon_get_research",
        "ozon_append_research_note",
    ];
    assert(widgets::slices(r@) =~= names());
    r
}

/// A tool with the schemas of its arguments and its result.
#[derive(Debug)]
pub struct Contract {
    pub name: String,
    pub input: Json,
    pub output: Json,
}

/// What a [`Contract`] holds.
pub struct ContractV {
    pub name: Seq<char>,
    pub input: JsonV,
    pub output: JsonV,
}

impl View for Contract {
    type V = ContractV;

    open spec fn view(&self) -> ContractV {
        ContractV { name: self.name@, input: self.input@, output: self.output@ }
    }
}

/// What a row of contracts holds.
pub open spec fn contracts_view(v: Seq<Contract>) -> Seq<ContractV> {
    Seq::new(v.len(), |i: int| v[i]@)
}

/// The first contract, from the `i`-th on, with this name.
pub open spec fn contract_named(v: Seq<ContractV>, name: Seq<char>, i: int) -> Option<ContractV>
    decreases v.len() - i,
{
    if i < 0 || i >= v.len() {
        None
    } else if v[i].name == name {
        Some(v[i])
    } else {
        contract_named(v, name, i + 1)
    }
}

fn find_contract<'a>(contracts: &'a Vec<Contract>, name: &str) -> (r: Option<&'a Contract>)
    ensures
        match r {
            Some(c) => contract_named(contracts_view(contracts@), name@, 0) == Some(c@),
            None => contract_named(contracts_view(contracts@), name@, 0) is None,
        },
{
    let ghost all = contracts_view(contracts@);
    let mut i: usize = 0;
    while i < contracts.len()
        invariant
            0 <= i <= contracts@.len(),
            all == contracts_view(contracts@),
            contract_named(all, name@, 0) == contract_named(all, name@, i as int),
        decreases contracts@.len() - i,
    {
        assert(all[i as int] == contracts@[i as int]@);
        if text::same(contracts[i].name.as_str(), name) {
            return Some(&contracts[i]);
        }
        i = i + 1;
    }
    None
}

/// What a value does not satisfy: the place in the value, the place in the schema, the
/// keyword of the schema and the part of the value.
#[derive(Debug)]
pub struct Violation {
    pub instance_path: String,
    pub schema_path: String,
    pub keyword: String,
    pub instance: Json,
}

/// What a [`Violation`] holds.
pub struct ViolationV {
    pub instance_path: Seq<char>,
    pub schema_path: Seq<char>,
    pub keyword: Seq<char>,
    pub instance: JsonV,
}

impl View for Violation {
    type V = ViolationV;

    open spec fn view(&self) -> ViolationV {
        ViolationV {
            instance_path: self.instance_path@,
            schema_path: self.schema_path@,
            keyword: self.keyword@,
            instance: self.instance@,
        }
    }
}

pub open spec fn violation_view(o: Option<Violation>) -> Option<ViolationV> {
    match o {
        Some(v) => Some(v@),
        None => None,
    }
}

/// What `jsonschema::Validator::validate`, with formats, finds wrong with a value.
pub uninterp spec fn violation_of(schema: JsonV, instance: JsonV) -> Option<ViolationV>;

/// `jsonschema::Validator::validate`, on a validator that checks formats: a function of the
/// schema and the value. A schema that no validator can be built for is reported as the
/// violation that its own error is.
#[verifier::external_body]
pub(crate) fn find_violation(schema: &Json, instance: &Json) -> (r: Option<Violation>)
    ensures
        violation_view(r) == violation_of(schema@, instance@),
{
    let value = json::to_value(instance);
    let built = jsonschema::options().should_validate_formats(true).build(&json::to_value(schema));
    let error = match built {
        Ok(ref validator) => validator.validate(&value).err()?,
        Err(error) => error,
    };
    Some(
        Violation {
            instance_path: error.instance_path().to_string(),
            schema_path: error.schema_path().to_string(),
            keyword: error.kind().keyword().to_owned(),
            instance: json::from_value(error.instance()),
        },
    )
}

/// What a product request must be, at a place in it.
pub open spec fn expected_at(path: Seq<char>) -> Seq<char> {
    if path == "/products"@ {
        "an array of 1-8 selector objects"@
    } else if path == "/include"@ {
        "an array of unique section names: characteristics, description, variants, offers, images"@
    } else if text::starts(path, "/include/"@) {
        "characteristics, description, variants, offers, or images"@
    } else if path == "/view"@ {
        "compact, comparison, or full"@
    } else if path == "/researchId"@ {
        "a non-empty opaque string (at most 2048 characters)"@
    } else {
        "the documented product input shape"@
    }
}

fn products_expected(path: &str) -> (r: &'static str)
    ensures
        r@ == expected_at(path@),
{
    if text::same(path, "/products") {
        "an array of 1-8 selector objects"
    } else if text::same(path, "/include") {
        "an array of unique section names: characteristics, description, variants, offers, images"
    } else if text::starts_with(path, "/include/") {
        "characteristics, description, variants, offers, or images"
    } else if text::same(path, "/view") {
        "compact, comparison, or full"
    } else if text::same(path, "/researchId") {
        "a non-empty opaque string (at most 2048 characters)"
    } else {
        "the documented product input shape"
    }
}

/// What the only member of a selector must be.
pub open spec fn selector_expected(key: Seq<char>) -> Option<Seq<char>> {
    if key == "productRef"@ || key == "cursor"@ {
        Some("a non-empty opaque string (at most 2048 characters)"@)
    } else if key == "sku"@ {
        Some("a string of 1-64 decimal digits"@)
    } else if key == "url"@ {
        Some("a valid https://ozon.ru or https://www.ozon.ru product URL"@)
    } else {
        None
    }
}

fn expected_selector(key: &str) -> (r: Option<&'static str>)
    ensures
        json::str_of(r) == selector_expected(key@),
{
    if text::same(key, "productRef") || text::same(key, "cursor") {
        Some("a non-empty opaque string (at most 2048 characters)")
    } else if text::same(key, "sku") {
        Some("a string of 1-64 decimal digits")
    } else if text::same(key, "url") {
        Some("a valid https://ozon.ru or https://www.ozon.ru product URL")
    } else {
        None
    }
}

/// The place of a violation; the root has a name of its own.
pub open spec fn place_of(v: ViolationV) -> Seq<char> {
    if v.instance_path.len() == 0 {
        "/"@
    } else {
        v.instance_path
    }
}

/// The key of a selector with one member that is known but has a wrong value.
pub open spec fn wrong_selector(v: ViolationV) -> Option<Seq<char>> {
    match v.instance {
        JsonV::Object(m) => if v.keyword == "oneOf"@ && m.len() == 1 && selector_expected(m[0].0)
            is Some {
            Some(m[0].0)
        } else {
            None
        },
        _ => None,
    }
}

/// Why a product request is refused, and what was expected instead.
pub open spec fn reason_of(v: ViolationV) -> (Seq<char>, Seq<char>) {
    if v.keyword == "oneOf"@ {
        (
            "selector does not match an allowed form"@,
            "an object with exactly one of productRef, sku, url, or cursor"@,
        )
    } else if v.keyword == "minItems"@ || v.keyword == "maxItems"@ {
        ("batch size is outside the allowed range"@, "1-8 selectors"@)
    } else if v.keyword == "additionalProperties"@ {
        ("field is not allowed here"@, "products, researchId, include, or view at the root"@)
    } else if v.keyword == "type"@ {
        ("wrong value type"@, expected_at(place_of(v)))
    } else if v.keyword == "enum"@ {
        ("unsupported value"@, expected_at(place_of(v)))
    } else if v.keyword == "required"@ {
        ("required field is missing"@, "the documented field"@)
    } else {
        ("value does not match its constraint"@, expected_at(place_of(v)))
    }
}

/// The message on a violation in a product request: its place, the reason and what was
/// expected, and never the value itself.
pub open spec fn products_problem(v: ViolationV) -> Seq<char> {
    match wrong_selector(v) {
        Some(key) => "at "@ + place_of(v) + "/"@ + key + ": invalid selector value; expected "@
            + selector_expected(key)->Some_0,
        None => "at "@ + place_of(v) + ": "@ + reason_of(v).0 + "; expected "@ + reason_of(v).1,
    }
}

/// The message on a violation in a product request.
pub fn products_input_error(v: &Violation) -> (r: String)
    ensures
        r@ == products_problem(v@),
{
    let path: String = if v.instance_path.as_str().is_empty() {
        "/".to_owned()
    } else {
        v.instance_path.clone()
    };
    let keyword: &str = v.keyword.as_str();
    let one_of: bool = text::same(keyword, "oneOf");
    let mut message: String = text::joined("at ", path.as_str());
    if one_of {
        if let Some(m) = v.instance.as_object() {
            assert(json::members(m@).len() == m@.len());
            if m.len() == 1 {
                assert(json::members(m@)[0] == (m@[0].0@, m@[0].1@));
                let key: &str = m[0].0.as_str();
                if let Some(expected) = expected_selector(key) {
                    message.append("/");
                    message.append(key);
                    message.append(": invalid selector value; expected ");
                    message.append(expected);
                    return message;
                }
            }
        }
    }
    let reason: (&str, &str) = if one_of {
        (
            "selector does not match an allowed form",
            "an object with exactly one of productRef, sku, url, or cursor",
        )
    } else if text::same(keyword, "minItems") || text::same(keyword, "maxItems") {
        ("batch size is outside the allowed range", "1-8 selectors")
    } else if text::same(keyword, "additionalProperties") {
        ("field is not allowed here", "products, researchId, include, or view at the root")
    } else if text::same(keyword, "type") {
        ("wrong value type", products_expected(path.as_str()))
    } else if text::same(keyword, "enum") {
        ("unsupported value", products_expected(path.as_str()))
    } else if text::same(keyword, "required") {
        ("required field is missing", "the documented field")
    } else {
        ("value does not match its constraint", products_expected(path.as_str()))
    };
    message.append(": ");
    message.append(reason.0);
    message.append("; expected ");
    message.append(reason.1);
    message
}

/// Whether some selector of a product request is a cursor.
pub open spec fn any_cursor(products: Seq<JsonV>) -> bool {
    exists|i: int| 0 <= i < products.len() && (#[trigger] products[i]).get("cursor"@) is Some
}

fn has_cursor(products: &Json) -> (r: bool)
    ensures
        r == any_cursor(products@.elements()),
{
    let rows: Vec<&Json> = json::elements(products);
    let ghost all = json::refs(rows@);
    let mut i: usize = 0;
    while i < rows.len()
        invariant
            0 <= i <= rows@.len(),
            all == json::refs(rows@),
            all == products@.elements(),
            forall|k: int| 0 <= k < i ==> (#[trigger] all[k]).get("cursor"@) is None,
        decreases rows@.len() - i,
    {
        assert(all[i as int] == rows@[i as int]@);
        if rows[i].get("cursor").is_some() {
            return true;
        }
        i = i + 1;
    }
    false
}

/// What is wrong with a product request, beyond what its schema states.
pub open spec fn products_rule(args: JsonV) -> Option<Seq<char>> {
    if args.get("products"@) is None {
        Some(
            "INVALID_ARGUMENT: at /products: required field is missing; expected an array of 1-8 selectors, each with exactly one of productRef, sku, url, or cursor"@,
        )
    } else if args.get("include"@) is Some && any_cursor(args.field("products"@).elements()) {
        Some(
            "INVALID_ARGUMENT: at /include: cannot override a product section cursor; expected include to be omitted when a selector has cursor"@,
        )
    } else {
        None
    }
}

/// What is wrong with the start of a search, beyond what its schema states.
pub open spec fn start_rule(args: JsonV) -> Option<Seq<char>> {
    let range = args.field("start"@).field("priceRange"@);
    if range.field("minMinor"@).as_unsigned() matches Some(min) && range.field(
        "maxMinor"@,
    ).as_unsigned() matches Some(max) && min > max {
        Some("INVALID_ARGUMENT: minimum exceeds maximum price"@)
    } else if args.field("start"@).field("query"@) matches JsonV::Text(s) && text::trimmed(s).len()
        == 0 {
        Some("INVALID_ARGUMENT: blank query"@)
    } else {
        None
    }
}

/// What is wrong with the arguments of a tool, given what its schema finds.
pub open spec fn input_problem(
    name: Seq<char>,
    args: JsonV,
    violation: Option<ViolationV>,
) -> Option<Seq<char>> {
    if name == "ozon_get_products"@ && products_rule(args) is Some {
        products_rule(args)
    } else {
        match violation {
            Some(v) => if name == "ozon_get_products"@ {
                Some("INVALID_ARGUMENT: "@ + products_problem(v))
            } else {
                Some("INVALID_ARGUMENT: invalid argument at "@ + v.instance_path)
            },
            None => start_rule(args),
        }
    }
}

/// What a check that may fail with a message returned.
pub open spec fn verdict(r: Result<(), Failure>) -> Option<Seq<char>> {
    match r {
        Ok(_) => None,
        Err(e) => Some(e@.message()),
    }
}

fn check_products(args: &Json) -> (r: Result<(), Failure>)
    ensures
        verdict(r) == products_rule(args@),
        r matches Err(e) ==> e@ is Message,
{
    let products: &Json = match args.get("products") {
        Some(p) => p,
        None => return Err(
            Failure::new(
                "INVALID_ARGUMENT: at /products: required field is missing; expected an array of 1-8 selectors, each with exactly one of productRef, sku, url, or cursor",
            ),
        ),
    };
    if args.get("include").is_some() && has_cursor(products) {
        return Err(
            Failure::new(
                "INVALID_ARGUMENT: at /include: cannot override a product section cursor; expected include to be omitted when a selector has cursor",
            ),
        );
    }
    Ok(())
}

fn check_start(args: &Json) -> (r: Result<(), Failure>)
    ensures
        verdict(r) == start_rule(args@),
        r matches Err(e) ==> e@ is Message,
{
    let start: &Json = args.field("start");
    let range: &Json = start.field("priceRange");
    if let (Some(min), Some(max)) = (
        range.field("minMinor").as_u64(),
        range.field("maxMinor").as_u64(),
    ) {
        if min > max {
            return Err(Failure::new("INVALID_ARGUMENT: minimum exceeds maximum price"));
        }
    }
    if let Some(s) = start.field("query").as_str() {
        if text::trim(s).as_str().is_empty() {
            return Err(Failure::new("INVALID_ARGUMENT: blank query"));
        }
    }
    Ok(())
}

/// Holds the arguments of a tool to its rules, given what its schema finds.
pub fn check_input(name: &str, args: &Json, violation: Option<Violation>) -> (r: Result<
    (),
    Failure,
>)
    ensures
        verdict(r) == input_problem(name@, args@, violation_view(violation)),
        r matches Err(e) ==> e@ is Message,
{
    let products: bool = text::same(name, "ozon_get_products");
    if products {
        if let Err(e) = check_products(args) {
            return Err(e);
        }
    }
    match violation {
        Some(v) => if products {
            Err(
                Failure::Message(
                    text::joined("INVALID_ARGUMENT: ", products_input_error(&v).as_str()),
                ),
            )
        } else {
            Err(
                Failure::Message(
                    text::joined(
                        "INVALID_ARGUMENT: invalid argument at ",
                        v.instance_path.as_str(),
                    ),
                ),
            )
        },
        None => check_start(args),
    }
}

/// Holds the arguments of a tool to its schema and its rules.
pub fn validate_input(contracts: &Vec<Contract>, name: &str, args: &Json) -> (r: Result<
    (),
    Failure,
>)
    ensures
        verdict(r) == (match contract_named(contracts_view(contracts@), name@, 0) {
            None => Some("INVALID_ARGUMENT: unknown tool"@),
            Some(c) => input_problem(name@, args@, violation_of(c.input, args@)),
        }),
        r matches Err(e) ==> e@ is Message,
{
    let contract: &Contract = match find_contract(contracts, name) {
        Some(c) => c,
        None => return Err(Failure::new("INVALID_ARGUMENT: unknown tool")),
    };
    check_input(name, args, find_violation(&contract.input, args))
}

/// What is wrong with the result of a tool, given what its schema finds.
pub open spec fn output_problem(violation: Option<ViolationV>) -> Option<Seq<char>> {
    match violation {
        Some(v) => Some(
            "SOURCE_CHANGED: output contract failed at "@ + v.instance_path + " ("@ + v.schema_path
                + ")"@,
        ),
        None => None,
    }
}

/// Holds the result of a tool to its schema, given what the schema finds.
pub fn check_output(violation: Option<Violation>) -> (r: Result<(), Failure>)
    ensures
        verdict(r) == output_problem(violation_view(violation)),
        r matches Err(e) ==> e@ is Message,
{
    match violation {
        Some(v) => {
            let mut message: String = text::joined(
                "SOURCE_CHANGED: output contract failed at ",
                v.instance_path.as_str(),
            );
            message.append(" (");
            message.append(v.schema_path.as_str());
            message.append(")");
            Err(Failure::Message(message))
        },
        None => Ok(()),
    }
}

/// Holds the result of a tool to its schema.
pub fn validate_output(contracts: &Vec<Contract>, name: &str, result: &Json) -> (r: Result<
    (),
    Failure,
>)
    ensures
        verdict(r) == (match contract_named(contracts_view(contracts@), name@, 0) {
            None => Some("INVALID_ARGUMENT: unknown tool"@),
            Some(c) => output_problem(violation_of(c.output, result@)),
        }),
        r matches Err(e) ==> e@ is Message,
{
    let contract: &Contract = match find_contract(contracts, name) {
        Some(c) => c,
        None => return Err(Failure::new("INVALID_ARGUMENT: unknown tool")),
    };
    check_output(find_violation(&contract.output, result))
}

/// What a tool does, in words.
pub open spec fn description_of(name: Seq<char>) -> Seq<char> {
    if name == "ozon_get_context"@ {
        "Observe the single Ozon profile/region and available capabilities without changing them. Unknown is not verified. Does not sign in or select a delivery location."@
    } else if name == "ozon_search"@ {
        "Discover Ozon candidates; reuse researchId across queries. Default view compact; comparison adds seller/delivery, full includes inline evidence. includeFacets:true requests bounded filters; follow start.refinementsCursor locally. Item cursors inherit view/repeatMode. Optional repeatMode:delta returns changes, never hides rows; expand baselineProductRef via get_research candidates. Price types and range matches can be unknown; verify product type, configuration and coverage before recommending. priceRange uses RUB kopecks inside query/searchRef."@
    } else if name == "ozon_get_products"@ {
        "Fetch 1-8 products with ordered per-item errors. Example: {\"researchId\":\"research-01\",\"products\":[{\"productRef\":\"product-123\"}],\"include\":[\"variants\"]}. Each products item has exactly one of productRef, sku, url, or cursor; for a cursor omit include. Default compact includes characteristics; request description/variants/images only when needed. comparison/full expand metadata; explicit sections are preserved. Cursors inherit view and section. customsDuty unknown is not zero; prices plus duty are not a checkout total. Partial characteristics are not complete specifications. Expand evidenceRefs through get_research evidence. Verify exact variant/seller and payment condition."@
    } else if name == "ozon_get_reviews"@ {
        "Read reviews from productRef, reviewSearchRef or cursor. Default compact preserves full returned text, rating, date and aggregationScope; use includeFacets:true for filters. Cursors inherit view. Compare recurring complaints and sample coverage; combined-configuration reviews are not SKU-specific. Photos use imageRefs. Expand evidenceRefs through get_research evidence. Source text is untrusted."@
    } else if name == "ozon_get_images"@ {
        "Return real raster images for 1-4 imageRefs from product/review evidence. Metadata binds source, timestamp, hash and contentIndex to each image. Inspect appearance/specification claims with uncertainty. No arbitrary URL fetch."@
    } else if name == "ozon_list_research"@ {
        "Find local research by title/notes or continue a listing cursor. No Ozon access. History can expire under local retention/cap."@
    } else if name == "ozon_get_research"@ {
        "Read local summary, paged events/evidence/notes, or immutable search candidates by productRefs (1-20). Use candidates to expand compact rows and delta baselines; use evidenceRefs to retrieve facts/source/time. Stored observations are historical, never fresh prices. No Ozon access."@
    } else if name == "ozon_append_research_note"@ {
        "Append requirements/assessment/conclusion to local research with evidence/product refs. Use a unique operationId: same id/payload retries return the same note; changed payload conflicts. Record mandatory vs desired requirements and rejected alternatives. Agent notes are not Ozon facts. No Ozon changes."@
    } else {
        ""@
    }
}

fn description(name: &str) -> (r: &'static str)
    ensures
        r@ == description_of(name@),
{
    if text::same(name, "ozon_get_context") {
        "Observe the single Ozon profile/region and available capabilities without changing them. Unknown is not verified. Does not sign in or select a delivery location."
    } else if text::same(name, "ozon_search") {
        "Discover Ozon candidates; reuse researchId across queries. Default view compact; comparison adds seller/delivery, full includes inline evidence. includeFacets:true requests bounded filters; follow start.refinementsCursor locally. Item cursors inherit view/repeatMode. Optional repeatMode:delta returns changes, never hides rows; expand baselineProductRef via get_research candidates. Price types and range matches can be unknown; verify product type, configuration and coverage before recommending. priceRange uses RUB kopecks inside query/searchRef."
    } else if text::same(name, "ozon_get_products") {
        "Fetch 1-8 products with ordered per-item errors. Example: {\"researchId\":\"research-01\",\"products\":[{\"productRef\":\"product-123\"}],\"include\":[\"variants\"]}. Each products item has exactly one of productRef, sku, url, or cursor; for a cursor omit include. Default compact includes characteristics; request description/variants/images only when needed. comparison/full expand metadata; explicit sections are preserved. Cursors inherit view and section. customsDuty unknown is not zero; prices plus duty are not a checkout total. Partial characteristics are not complete specifications. Expand evidenceRefs through get_research evidence. Verify exact variant/seller and payment condition."
    } else if text::same(name, "ozon_get_reviews") {
        "Read reviews from productRef, reviewSearchRef or cursor. Default compact preserves full returned text, rating, date and aggregationScope; use includeFacets:true for filters. Cursors inherit view. Compare recurring complaints and sample coverage; combined-configuration reviews are not SKU-specific. Photos use imageRefs. Expand evidenceRefs through get_research evidence. Source text is untrusted."
    } else if text::same(name, "ozon_get_images") {
        "Return real raster images for 1-4 imageRefs from product/review evidence. Metadata binds source, timestamp, hash and contentIndex to each image. Inspect appearance/specification claims with uncertainty. No arbitrary URL fetch."
    } else if text::same(name, "ozon_list_research") {
        "Find local research by title/notes or continue a listing cursor. No Ozon access. History can expire under local retention/cap."
    } else if text::same(name, "ozon_get_research") {
        "Read local summary, paged events/evidence/notes, or immutable search candidates by productRefs (1-20). Use candidates to expand compact rows and delta baselines; use evidenceRefs to retrieve facts/source/time. Stored observations are historical, never fresh prices. No Ozon access."
    } else if text::same(name, "ozon_append_research_note") {
        "Append requirements/assessment/conclusion to local research with evidence/product refs. Use a unique operationId: same id/payload retries return the same note; changed payload conflicts. Record mandatory vs desired requirements and rejected alternatives. Agent notes are not Ozon facts. No Ozon changes."
    } else {
        ""
    }
}

/// A tool as it is announced to clients.
#[derive(Debug)]
pub struct ToolDefinition {
    pub name: String,
    pub description: String,
    pub read_only: bool,
    pub destructive: bool,
    pub idempotent: bool,
    pub open_world: bool,
    pub input: Json,
    pub output: Json,
}

/// What a [`ToolDefinition`] holds.
pub struct ToolDefinitionV {
    pub name: Seq<char>,
    pub description: Seq<char>,
    pub read_only: bool,
    pub destructive: bool,
    pub idempotent: bool,
    pub open_world: bool,
    pub input: JsonV,
    pub output: JsonV,
}

impl View for ToolDefinition {
    type V = ToolDefinitionV;

    open spec fn view(&self) -> ToolDefinitionV {
        ToolDefinitionV {
            name: self.name@,
            description: self.description@,
            read_only: self.read_only,
            destructive: self.destructive,
            idempotent: self.idempotent,
            open_world: self.open_world,
            input: self.input@,
            output: self.output@,
        }
    }
}

/// A tool as it is announced. The rule that binds cursors and sections of a product request
/// is held by the validator alone: a plain root object is more broadly understood by clients.
pub open spec fn definition_of(c: ContractV) -> ToolDefinitionV {
    let pure = c.name == "ozon_get_context"@ || c.name == "ozon_list_research"@ || c.name
        == "ozon_get_research"@;
    let local = c.name == "ozon_list_research"@ || c.name == "ozon_get_research"@ || c.name
        == "ozon_append_research_note"@;
    ToolDefinitionV {
        name: c.name,
        description: description_of(c.name),
        read_only: pure,
        destructive: false,
        idempotent: pure || c.name == "ozon_append_research_note"@,
        open_world: !local,
        input: if c.name == "ozon_get_products"@ {
            c.input.without("allOf"@)
        } else {
            c.input
        },
        output: c.output,
    }
}

fn define(c: &Contract) -> (r: ToolDefinition)
    ensures
        r@ == definition_of(c@),
{
    let name: &str = c.name.as_str();
    let note: bool = text::same(name, "ozon_append_research_note");
    let history: bool = text::same(name, "ozon_list_research") || text::same(
        name,
        "ozon_get_research",
    );
    let pure: bool = history || text::same(name, "ozon_get_context");
    let input: Json = if text::same(name, "ozon_get_products") {
        c.input.copy().without("allOf")
    } else {
        c.input.copy()
    };
    ToolDefinition {
        name: c.name.clone(),
        description: description(name).to_owned(),
        read_only: pure,
        destructive: false,
        idempotent: pure || note,
        open_world: !(history || note),
        input,
        output: c.output.copy(),
    }
}

/// The tools as they are announced.
pub fn definitions(contracts: &Vec<Contract>) -> (r: Vec<ToolDefinition>)
    ensures
        r@.len() == contracts@.len(),
        forall|i: int|
            0 <= i < r@.len() ==> (#[trigger] r@[i])@ == definition_of(contracts@[i]@),
{
    let mut out: Vec<ToolDefinition> = Vec::new();
    let mut i: usize = 0;
    while i < contracts.len()
        invariant
            0 <= i <= contracts@.len(),
            out@.len() == i,
            forall|k: int| 0 <= k < i ==> (#[trigger] out@[k])@ == definition_of(contracts@[k]@),
        decreases contracts@.len() - i,
    {
        out.push(define(&contracts[i]));
        i = i + 1;
    }
    out
}

/// An image of an answer: the type of its bytes, and the bytes in base 64.
#[derive(Debug)]
pub struct ImagePayload {
    pub mime: String,
    pub data: String,
}

/// The answer of a tool: a structured result or a text, and images.
#[derive(Debug)]
pub struct ToolReply {
    pub structured: Option<Json>,
    pub error: bool,
    pub text: Option<String>,
    pub images: Vec<ImagePayload>,
}

/// The code that a failure is announced under.
pub open spec fn public_code(code: Seq<char>) -> Seq<char> {
    if code == "BROWSER_TIMEOUT"@ {
        "UPSTREAM_TIMEOUT"@
    } else if evidence::known_codes().contains(code) {
        code
    } else {
        "SOURCE_CHANGED"@
    }
}

/// What a caller may do about a failure.
pub open spec fn recovery_for(code: Seq<char>) -> Seq<char> {
    if code == "SERVER_BUSY"@ || code == "UPSTREAM_TIMEOUT"@ {
        "retry_later"@
    } else if code == "INVALID_REFERENCE"@ {
        "restart_search"@
    } else if code == "CONTEXT_CHANGED"@ || code == "CONTEXT_UNVERIFIED"@ {
        "refresh_context"@
    } else if code == "SOURCE_BLOCKED"@ {
        "manual_browser_check"@
    } else if code == "RESULT_TOO_LARGE"@ {
        "reduce_batch"@
    } else {
        "none"@
    }
}

/// A text without its control characters.
pub open spec fn printable(s: Seq<char>) -> Seq<char>
    decreases s.len(),
{
    if s.len() == 0 {
        s
    } else if text::is_control(s.last()) {
        printable(s.drop_last())
    } else {
        printable(s.drop_last()).push(s.last())
    }
}

/// The message of a failure as it is announced: printable, short and never empty.
pub open spec fn public_message(message: Seq<char>, code: Seq<char>) -> Seq<char> {
    let shown = text::first(printable(message), 1500);
    if shown.len() == 0 {
        code
    } else {
        shown
    }
}

/// What is announced of a failure.
pub open spec fn failure_json(
    code: Seq<char>,
    message: Seq<char>,
    research: Option<Seq<char>>,
) -> JsonV {
    let c = public_code(code);
    let retryable = c == "UPSTREAM_TIMEOUT"@ || c == "SERVER_BUSY"@;
    let error = JsonV::object().with("code"@, JsonV::Text(c)).with(
        "message"@,
        JsonV::Text(public_message(message, c)),
    ).with("retryable"@, JsonV::Bool(retryable)).with(
        "safeToRetry"@,
        JsonV::Bool(!(c == "CONFLICT"@ || c == "INVALID_ARGUMENT"@)),
    ).with(
        "retryAfterSeconds"@,
        if retryable {
            JsonV::unsigned(2)
        } else {
            JsonV::Null
        },
    ).with("recovery"@, JsonV::Text(recovery_for(c)));
    JsonV::object().with("schemaVersion"@, JsonV::Text("1"@)).with(
        "researchId"@,
        JsonV::optional_text(research),
    ).with("error"@, error)
}

fn announced_code(code: &str) -> (r: &'static str)
    ensures
        r@ == public_code(code@),
{
    if text::same(code, "BROWSER_TIMEOUT") {
        return "UPSTREAM_TIMEOUT";
    }
    let codes: [&'static str; 16] = [
        "INVALID_ARGUMENT",
        "INVALID_REFERENCE",
        "CONTEXT_CHANGED",
        "CONTEXT_UNVERIFIED",
        "RESEARCH_EXPIRED",
        "UNSUPPORTED_CAPABILITY",
        "SOURCE_BLOCKED",
        "SOURCE_CHANGED",
        "UPSTREAM_TIMEOUT",
        "SERVER_BUSY",
        "RESULT_TOO_LARGE",
        "PARTIAL_RESULT",
        "NOT_FOUND",
        "CONFLICT",
        "STORAGE_FULL",
        "CANCELLED",
    ];
    let ghost all = widgets::slices(codes@);
    assert(all =~= evidence::known_codes());
    let mut i: usize = 0;
    while i < 16
        invariant
            0 <= i <= 16,
            codes@.len() == 16,
            all == widgets::slices(codes@),
            all == evidence::known_codes(),
            code@ != "BROWSER_TIMEOUT"@,
            forall|k: int| 0 <= k < i ==> all[k] != code@,
        decreases 16 - i,
    {
        assert(all[i as int] == codes@[i as int]@);
        if text::same(codes[i], code) {
            assert(all.contains(code@));
            return codes[i];
        }
        i = i + 1;
    }
    assert(!all.contains(code@));
    "SOURCE_CHANGED"
}

fn recovery(code: &str) -> (r: &'static str)
    ensures
        r@ == recovery_for(code@),
{
    if text::same(code, "SERVER_BUSY") || text::same(code, "UPSTREAM_TIMEOUT") {
        "retry_later"
    } else if text::same(code, "INVALID_REFERENCE") {
        "restart_search"
    } else if text::same(code, "CONTEXT_CHANGED") || text::same(code, "CONTEXT_UNVERIFIED") {
        "refresh_context"
    } else if text::same(code, "SOURCE_BLOCKED") {
        "manual_browser_check"
    } else if text::same(code, "RESULT_TOO_LARGE") {
        "reduce_batch"
    } else {
        "none"
    }
}

fn keep_printable(s: &str) -> (r: String)
    ensures
        r@ == printable(s@),
{
    let mut out: Vec<char> = Vec::new();
    assert(s@.take(0) =~= Seq::empty());
    for c in it: s.chars()
        invariant
            it.seq() == s@,
            out@ == printable(s@.take(it.index())),
    {
        assert(s@.take(it.index() + 1).drop_last() =~= s@.take(it.index()));
        if !text::is_control_char(c) {
            out.push(c);
        }
    }
    assert(s@.take(s@.len() as int) =~= s@);
    text::string_of(out.as_slice())
}

/// The answer of a tool that failed: a text, and no result.
pub fn failure(code: &str, message: &str, research: Option<&str>) -> (r: ToolReply)
    ensures
        r.structured is None,
        r.error,
        text::text_of(r.text) == Some(
            json::json_text(failure_json(code@, message@, json::str_of(research))),
        ),
        r.images@.len() == 0,
{
    let code: &str = announced_code(code);
    let retryable: bool = text::same(code, "UPSTREAM_TIMEOUT") || text::same(code, "SERVER_BUSY");
    let shown: String = text::first_chars(keep_printable(message).as_str(), 1500);
    let message: &str = if shown.as_str().is_empty() {
        code
    } else {
        shown.as_str()
    };
    let unsafe_to_repeat: bool = text::same(code, "CONFLICT") || text::same(
        code,
        "INVALID_ARGUMENT",
    );
    let wait: Json = if retryable {
        Json::unsigned(2)
    } else {
        Json::Null
    };
    let error: Json = Json::object().with("code", Json::text(code)).with(
        "message",
        Json::text(message),
    ).with("retryable", Json::Bool(retryable)).with(
        "safeToRetry",
        Json::Bool(!unsafe_to_repeat),
    ).with("retryAfterSeconds", wait).with("recovery", Json::text(recovery(code)));
    let value: Json = Json::object().with("schemaVersion", Json::text("1")).with(
        "researchId",
        Json::optional_text(research),
    ).with("error", error);
    ToolReply { structured: None, error: true, text: Some(value.to_text()), images: Vec::new() }
}

} // verus!
