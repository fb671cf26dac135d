//! A batch of products: what each is read from, and what becomes of what the source brings.

use crate::address::{self, Address};
use crate::evidence;
use crate::failure::{self, Failure, FailureV};
use crate::json::{self, Json, JsonV};
use crate::ledger::{Ledger, LedgerV, StoredRef, StoredRefV};
use crate::marketplace::{self, Normalized, NormalizedV};
use crate::operations;
use crate::product_details;
use crate::search_call;
use crate::service;
use crate::text;
use vstd::prelude::*;

verus! {

/// What a product is read from, and what it is bound to.
#[derive(Debug)]
pub struct ResolvedProduct {
    pub target: String,
    pub presentation: Option<Json>,
    pub research_id: Option<String>,
    pub sections: Option<Vec<String>>,
    pub cached_raw: Option<Json>,
    pub context_id: Option<String>,
}

/// What a [`ResolvedProduct`] holds.
pub struct ResolvedProductV {
    pub target: Seq<char>,
    pub presentation: Option<JsonV>,
    pub research_id: Option<Seq<char>>,
    pub sections: Option<Seq<Seq<char>>>,
    pub cached_raw: Option<JsonV>,
    pub context_id: Option<Seq<char>>,
}

pub open spec fn sections_view(s: Option<Vec<String>>) -> Option<Seq<Seq<char>>> {
    match s {
        Some(v) => Some(text::texts(v@)),
        None => None,
    }
}

impl View for ResolvedProduct {
    type V = ResolvedProductV;

    open spec fn view(&self) -> ResolvedProductV {
        ResolvedProductV {
            target: self.target@,
            presentation: json::read_of(self.presentation),
            research_id: text::text_of(self.research_id),
            sections: sections_view(self.sections),
            cached_raw: json::read_of(self.cached_raw),
            context_id: text::text_of(self.context_id),
        }
    }
}

/// The stored reference that a selector names: its name and its kind.
pub open spec fn selected_ref(selector: JsonV) -> Option<(Seq<char>, Seq<char>)> {
    match (selector.field("productRef"@), selector.field("cursor"@)) {
        (JsonV::Text(name), _) => Some((name, "product"@)),
        (_, JsonV::Text(name)) => Some((name, "product_cursor"@)),
        _ => None,
    }
}

pub fn product_lookup<'a>(selector: &'a Json) -> (r: Option<(&'a str, &'static str)>)
    ensures
        (match r {
            Some(x) => Some((x.0@, x.1@)),
            None => None,
        }) == selected_ref(selector@),
{
    match selector.field("productRef").as_str() {
        Some(name) => Some((name, "product")),
        None => match selector.field("cursor").as_str() {
            Some(name) => Some((name, "product_cursor")),
            None => None,
        },
    }
}

/// What is wrong with the URL of a product.
pub open spec fn product_url_problem(input: Seq<char>) -> Option<FailureV> {
    match address::parsed_url(input) {
        Err(_) => Some(FailureV::Message("INVALID_ARGUMENT: invalid product URL"@)),
        Ok(a) => if a.scheme == "https"@ && operations::is_product_authority(a) && text::starts(
            a.path,
            "/product/"@,
        ) {
            None
        } else {
            Some(FailureV::Message("INVALID_ARGUMENT: expected an Ozon product URL"@))
        },
    }
}

/// Holds a URL to the product pages of the site.
pub fn validate_product_url(input: &str) -> (r: Result<(), Failure>)
    ensures
        service::problem(r) == product_url_problem(input@),
{
    let a: Address = match address::parse_url(input) {
        Ok(a) => a,
        Err(_) => return Err(Failure::new("INVALID_ARGUMENT: invalid product URL")),
    };
    if text::same(a.scheme.as_str(), "https") && operations::product_authority(&a)
        && text::starts_with(a.path.as_str(), "/product/") {
        Ok(())
    } else {
        Err(Failure::new("INVALID_ARGUMENT: expected an Ozon product URL"))
    }
}

/// A product that is read from the source, with nothing bound.
pub open spec fn unbound(target: Seq<char>) -> ResolvedProductV {
    ResolvedProductV {
        target,
        presentation: None,
        research_id: None,
        sections: None,
        cached_raw: None,
        context_id: None,
    }
}

/// The product that a product reference stands for.
pub open spec fn from_product_ref(r: StoredRefV) -> Result<ResolvedProductV, FailureV> {
    match (match r.value.get("url"@) {
        Some(u) => Some(u),
        None => r.value.get("sku"@),
    }) {
        Some(JsonV::Text(target)) => Ok(
            ResolvedProductV {
                research_id: Some(r.research_id),
                context_id: Some(r.context_id),
                ..unbound(target)
            },
        ),
        _ => Err(FailureV::Message("INVALID_REFERENCE: malformed product reference"@)),
    }
}

/// The product that a continuation stands for.
pub open spec fn from_product_cursor(r: StoredRefV) -> ResolvedProductV {
    ResolvedProductV {
        target: match r.value.field("path"@) {
            JsonV::Text(p) => p,
            _ => ""@,
        },
        presentation: Some(
            match r.value.field("presentation"@) {
                JsonV::Object(m) => JsonV::Object(m),
                _ => JsonV::object().with("view"@, JsonV::Text("full"@)),
            },
        ),
        research_id: Some(r.research_id),
        sections: match r.value.field("include"@).as_array() {
            Some(a) => Some(product_details::texts_in(a)),
            None => None,
        },
        cached_raw: r.value.get("cachedRaw"@),
        context_id: Some(r.context_id),
    }
}

/// What a stored reference was found to be.
pub open spec fn found(stored: Option<Result<StoredRef, Failure>>) -> Option<
    Result<StoredRefV, FailureV>,
> {
    match stored {
        Some(r) => Some(failure::outcome(r)),
        None => None,
    }
}

/// What a selector stands for, given the stored reference that it names.
pub open spec fn resolved_of(selector: JsonV, stored: Option<Result<StoredRefV, FailureV>>) -> Result<
    ResolvedProductV,
    FailureV,
> {
    match (selected_ref(selector), stored) {
        (Some(_), Some(Err(e))) => Err(e),
        (Some(_), Some(Ok(r))) => if selector.field("productRef"@) is Text {
            from_product_ref(r)
        } else {
            Ok(from_product_cursor(r))
        },
        _ => match selector.field("sku"@) {
            JsonV::Text(sku) => Ok(unbound(sku)),
            _ => match service::required(selector, "url"@) {
                Err(e) => Err(e),
                Ok(url) => match product_url_problem(url) {
                    Some(e) => Err(e),
                    None => Ok(unbound(url)),
                },
            },
        },
    }
}

fn read_from(target: &str) -> (r: ResolvedProduct)
    ensures
        r@ == unbound(target@),
{
    ResolvedProduct {
        target: target.to_owned(),
        presentation: None,
        research_id: None,
        sections: None,
        cached_raw: None,
        context_id: None,
    }
}

fn read_ref(r: StoredRef) -> (out: Result<ResolvedProduct, Failure>)
    ensures
        failure::outcome(out) == from_product_ref(r@),
{
    let named: Option<&Json> = match r.value.get("url") {
        Some(u) => Some(u),
        None => r.value.get("sku"),
    };
    let target: Option<&str> = match named {
        Some(j) => j.as_str(),
        None => None,
    };
    match target {
        Some(t) => Ok(
            ResolvedProduct {
                target: t.to_owned(),
                presentation: None,
                research_id: Some(r.research_id),
                sections: None,
                cached_raw: None,
                context_id: Some(r.context_id),
            },
        ),
        None => Err(Failure::new("INVALID_REFERENCE: malformed product reference")),
    }
}

fn owned_texts(v: &Vec<Json>) -> (r: Vec<String>)
    ensures
        text::texts(r@) == product_details::texts_in(json::values(v@)),
{
    let ghost all = json::values(v@);
    let mut out: Vec<String> = Vec::new();
    let mut i: usize = 0;
    assert(text::texts(out@) =~= Seq::empty());
    while i < v.len()
        invariant
            0 <= i <= v@.len(),
            all == json::values(v@),
            text::texts(out@) == product_details::texts_in(all.take(i as int)),
        decreases v@.len() - i,
    {
        assert(all.take(i + 1).drop_last() =~= all.take(i as int));
        assert(all.take(i + 1).last() == v@[i as int]@);
        if let Some(s) = v[i].as_str() {
            let one: String = s.to_owned();
            proof {
                text::lemma_texts_push(out@, one);
            }
            out.push(one);
        }
        i = i + 1;
    }
    assert(all.take(i as int) =~= all);
    out
}

fn read_cursor(r: StoredRef) -> (out: ResolvedProduct)
    ensures
        out@ == from_product_cursor(r@),
{
    let target: String = match r.value.field("path").as_str() {
        Some(p) => p.to_owned(),
        None => "".to_owned(),
    };
    let own: &Json = r.value.field("presentation");
    let presentation: Json = if own.is_object() {
        own.copy()
    } else {
        Json::object().with("view", Json::text("full"))
    };
    let sections: Option<Vec<String>> = match r.value.field("include").as_array() {
        Some(a) => Some(owned_texts(a)),
        None => None,
    };
    let cached_raw: Option<Json> = match r.value.get("cachedRaw") {
        Some(c) => Some(c.copy()),
        None => None,
    };
    ResolvedProduct {
        target,
        presentation: Some(presentation),
        research_id: Some(r.research_id),
        sections,
        cached_raw,
        context_id: Some(r.context_id),
    }
}

/// What a selector stands for, given what was found of the stored reference that it names.
pub fn resolve_product(selector: &Json, stored: Option<Result<StoredRef, Failure>>) -> (r: Result<
    ResolvedProduct,
    Failure,
>)
    requires
        selected_ref(selector@) is Some == stored is Some,
    ensures
        failure::outcome(r) == resolved_of(selector@, found(stored)),
{
    match stored {
        Some(Err(e)) => Err(e),
        Some(Ok(s)) => if selector.field("productRef").as_str().is_some() {
            read_ref(s)
        } else {
            Ok(read_cursor(s))
        },
        None => {
            if let Some(sku) = selector.field("sku").as_str() {
                return Ok(read_from(sku));
            }
            let url: &str = match service::required_text(selector, "url") {
                Ok(u) => u,
                Err(e) => return Err(e),
            };
            match validate_product_url(url) {
                Ok(_) => Ok(read_from(url)),
                Err(e) => Err(e),
            }
        },
    }
}

/// What results hold.
pub open spec fn outcomes(v: Seq<Result<ResolvedProduct, Failure>>) -> Seq<
    Result<ResolvedProductV, FailureV>,
> {
    Seq::new(v.len(), |i: int| failure::outcome(v[i]))
}

/// The products of a batch, the research that they belong to, and the view of its answer.
#[derive(Debug)]
pub struct Batch {
    pub resolved: Vec<Result<ResolvedProduct, Failure>>,
    pub research_id: Option<String>,
    pub view: String,
    pub view_bound: bool,
}

/// What a [`Batch`] holds.
pub struct BatchV {
    pub resolved: Seq<Result<ResolvedProductV, FailureV>>,
    pub research_id: Option<Seq<char>>,
    pub view: Seq<char>,
    pub view_bound: bool,
}

impl View for Batch {
    type V = BatchV;

    open spec fn view(&self) -> BatchV {
        BatchV {
            resolved: outcomes(self.resolved@),
            research_id: text::text_of(self.research_id),
            view: self.view@,
            view_bound: self.view_bound,
        }
    }
}

/// A product in its batch: all must be of one context and of one research.
pub open spec fn taken_in(
    r: Result<ResolvedProductV, FailureV>,
    research_id: Option<Seq<char>>,
    context_id: Seq<char>,
) -> Result<ResolvedProductV, FailureV> {
    match r {
        Err(e) => Err(e),
        Ok(p) => if p.context_id is Some && p.context_id != Some(context_id) {
            Err(
                FailureV::Message("CONTEXT_CHANGED: product reference belongs to another context"@),
            )
        } else if p.research_id is Some && research_id is Some && research_id != p.research_id {
            Err(FailureV::Message("INVALID_REFERENCE: mixed-research product batch"@))
        } else {
            Ok(p)
        },
    }
}

/// A batch with one more product.
pub open spec fn with_product(
    b: BatchV,
    r: Result<ResolvedProductV, FailureV>,
    context_id: Seq<char>,
) -> BatchV {
    let p = taken_in(r, b.research_id, context_id);
    BatchV {
        resolved: b.resolved.push(p),
        research_id: match p {
            Ok(p) => if p.research_id is Some {
                p.research_id
            } else {
                b.research_id
            },
            Err(_) => b.research_id,
        },
        ..b
    }
}

/// The view that a continued product is bound to.
pub open spec fn bound_view(p: ResolvedProductV) -> Option<Seq<char>> {
    match p.presentation {
        Some(binding) => Some(
            match binding.field("view"@) {
                JsonV::Text(v) => v,
                _ => "full"@,
            },
        ),
        None => None,
    }
}

/// The view of a batch, once its first `n` products were looked at: the first that a product
/// is bound to, unless one was asked for; a product that is bound to another fails.
pub open spec fn views_bound(b: BatchV, n: int) -> BatchV
    decreases n,
{
    if n <= 0 {
        b
    } else {
        let before = views_bound(b, n - 1);
        match b.resolved[n - 1] {
            Ok(p) => match bound_view(p) {
                Some(view) => if before.view_bound && before.view != view {
                    BatchV {
                        resolved: before.resolved.update(
                            n - 1,
                            Err(
                                FailureV::Message(
                                    "INVALID_REFERENCE: product cursor presentation cannot be changed"@,
                                ),
                            ),
                        ),
                        ..before
                    }
                } else {
                    BatchV { view, view_bound: true, ..before }
                },
                None => before,
            },
            Err(_) => before,
        }
    }
}

impl Batch {
    /// A batch without products.
    pub fn new(args: &Json) -> (r: Batch)
        ensures
            r@.resolved.len() == 0,
            r@.research_id == service::research_of(args@),
            r@.view == (match args@.field("view"@) {
                JsonV::Text(v) => v,
                _ => "compact"@,
            }),
            r@.view_bound == (args@.field("_viewExplicit"@) == JsonV::Bool(true)),
    {
        let view: String = match args.field("view").as_str() {
            Some(v) => v.to_owned(),
            None => "compact".to_owned(),
        };
        let view_bound: bool = match args.field("_viewExplicit").as_bool() {
            Some(b) => b,
            None => false,
        };
        let research_id: Option<String> = match service::research_arg(args) {
            Some(s) => Some(s.to_owned()),
            None => None,
        };
        Batch { resolved: Vec::new(), research_id, view, view_bound }
    }

    /// Adds what a selector stands for, given what was found of the stored reference that it
    /// names.
    pub fn add_product(
        &mut self,
        selector: &Json,
        stored: Option<Result<StoredRef, Failure>>,
        context_id: &str,
    )
        requires
            selected_ref(selector@) is Some == stored is Some,
        ensures
            final(self)@ == with_product(
                old(self)@,
                resolved_of(selector@, found(stored)),
                context_id@,
            ),
    {
        let ghost before = self@;
        let one: Result<ResolvedProduct, Failure> = check_product(
            resolve_product(selector, stored),
            &self.research_id,
            context_id,
        );
        if let Ok(p) = &one {
            if let Some(id) = &p.research_id {
                self.research_id = Some(id.clone());
            }
        }
        let ghost items = self.resolved@;
        self.resolved.push(one);
        assert(outcomes(self.resolved@) =~= outcomes(items).push(failure::outcome(one)));
    }

    /// Binds the view of the batch to those of the products that it continues.
    pub fn bind_views(&mut self)
        ensures
            final(self)@ == views_bound(old(self)@, old(self)@.resolved.len() as int),
    {
        let ghost before = self@;
        let mut i: usize = 0;
        while i < self.resolved.len()
            invariant
                0 <= i <= self.resolved@.len(),
                self@ == views_bound(before, i as int),
                self@.resolved.len() == before.resolved.len(),
                forall|k: int|
                    i <= k < before.resolved.len() ==> self@.resolved[k] == before.resolved[k],
            decreases self.resolved@.len() - i,
        {
            assert(before.resolved[i as int] == failure::outcome(self.resolved@[i as int]));
            let view: Option<String> = match &self.resolved[i] {
                Ok(p) => view_of(p),
                Err(_) => None,
            };
            if let Some(view) = view {
                if self.view_bound && !text::same(self.view.as_str(), view.as_str()) {
                    let ghost items = self.resolved@;
                    let refused: Result<ResolvedProduct, Failure> = Err(
                        Failure::new(
                            "INVALID_REFERENCE: product cursor presentation cannot be changed",
                        ),
                    );
                    self.resolved.set(i, refused);
                    assert(outcomes(self.resolved@) =~= outcomes(items).update(
                        i as int,
                        failure::outcome(refused),
                    ));
                } else {
                    self.view = view;
                    self.view_bound = true;
                }
            }
            i = i + 1;
        }
    }
}

fn view_of(p: &ResolvedProduct) -> (r: Option<String>)
    ensures
        text::text_of(r) == bound_view(p@),
{
    match &p.presentation {
        Some(binding) => match binding.field("view").as_str() {
            Some(v) => Some(v.to_owned()),
            None => Some("full".to_owned()),
        },
        None => None,
    }
}

fn differs(a: &Option<String>, b: &str) -> (r: bool)
    ensures
        r == (text::text_of(*a) is Some && text::text_of(*a) != Some(b@)),
{
    match a {
        Some(s) => !text::same(s.as_str(), b),
        None => false,
    }
}

fn check_product(
    r: Result<ResolvedProduct, Failure>,
    research_id: &Option<String>,
    context_id: &str,
) -> (out: Result<ResolvedProduct, Failure>)
    ensures
        failure::outcome(out) == taken_in(
            failure::outcome(r),
            text::text_of(*research_id),
            context_id@,
        ),
{
    match r {
        Err(e) => Err(e),
        Ok(p) => {
            if differs(&p.context_id, context_id) {
                return Err(
                    Failure::new("CONTEXT_CHANGED: product reference belongs to another context"),
                );
            }
            let mixed: bool = match (&p.research_id, research_id) {
                (Some(a), Some(b)) => !text::same(a.as_str(), b.as_str()),
                _ => false,
            };
            if mixed {
                return Err(Failure::new("INVALID_REFERENCE: mixed-research product batch"));
            }
            Ok(p)
        },
    }
}

/// A product of a batch that fails changes nothing for those that come after it.
pub proof fn failed_products_bind_nothing(
    b: BatchV,
    r: Result<ResolvedProductV, FailureV>,
    context_id: Seq<char>,
)
    requires
        taken_in(r, b.research_id, context_id) is Err,
    ensures
        with_product(b, r, context_id).research_id == b.research_id,
        with_product(b, r, context_id).view == b.view,
        with_product(b, r, context_id).view_bound == b.view_bound,
{
}

/// A view that was asked for stays, whatever the products are bound to.
pub proof fn explicit_views_stay(b: BatchV, n: int)
    requires
        b.view_bound,
        n <= b.resolved.len(),
    ensures
        views_bound(b, n).view == b.view,
        views_bound(b, n).view_bound,
    decreases n,
{
    if n > 0 {
        explicit_views_stay(b, n - 1);
    }
}

/// The sections of a product that are shown where it does not say so itself.
pub open spec fn sections_of(args: JsonV, view: Seq<char>) -> Seq<Seq<char>> {
    match args.field("include"@).as_array() {
        Some(a) => product_details::texts_in(a),
        None => if view == "full"@ {
            seq!["characteristics"@, "offers"@]
        } else {
            seq!["characteristics"@]
        },
    }
}

pub fn product_sections(args: &Json, view: &str) -> (r: Vec<String>)
    ensures
        text::texts(r@) == sections_of(args@, view@),
{
    match args.field("include").as_array() {
        Some(a) => owned_texts(a),
        None => {
            let mut out: Vec<String> = Vec::new();
            out.push("characteristics".to_owned());
            if text::same(view, "full") {
                out.push("offers".to_owned());
                assert(text::texts(out@) =~= seq!["characteristics"@, "offers"@]);
            } else {
                assert(text::texts(out@) =~= seq!["characteristics"@]);
            }
            out
        },
    }
}

/// How many milliseconds of a batch are kept for the confirmation of its context.
pub fn confirmation_reserve(remaining_millis: u64) -> (r: u64)
    ensures
        r == (if remaining_millis / 2 < 5_000 {
            remaining_millis / 2
        } else {
            5_000
        }),
        r <= remaining_millis,
{
    if remaining_millis / 2 < 5_000 {
        remaining_millis / 2
    } else {
        5_000
    }
}

/// A product that was read, the sections that are shown of it, and whether the source was
/// asked for it.
#[derive(Debug)]
pub struct FetchedProduct {
    pub raw: Json,
    pub sections: Vec<String>,
    pub live: bool,
}

/// What a [`FetchedProduct`] holds.
pub struct FetchedProductV {
    pub raw: JsonV,
    pub sections: Seq<Seq<char>>,
    pub live: bool,
}

impl View for FetchedProduct {
    type V = FetchedProductV;

    open spec fn view(&self) -> FetchedProductV {
        FetchedProductV {
            raw: self.raw@,
            sections: text::texts(self.sections@),
            live: self.live,
        }
    }
}

/// A product as it is kept once it was read: with the time, where it was read just now, and
/// with how it is shown.
pub fn note_product(raw: Json, live: bool, sections: Vec<String>, view: &str, now: &str) -> (r:
    FetchedProduct)
    ensures
        r@ == (FetchedProductV {
            raw: (if live {
                raw@.with("_continuationObservedAt"@, JsonV::Text(now@))
            } else {
                raw@
            }).with(
                "_presentation"@,
                JsonV::object().with("view"@, JsonV::Text(view@)).with(
                    "repeatMode"@,
                    JsonV::Text("full"@),
                ),
            ),
            sections: text::texts(sections@),
            live,
        }),
{
    let timed: Json = if live {
        raw.with("_continuationObservedAt", Json::text(now))
    } else {
        raw
    };
    let binding: Json = Json::object().with("view", Json::text(view)).with(
        "repeatMode",
        Json::text("full"),
    );
    FetchedProduct { raw: timed.with("_presentation", binding), sections, live }
}

pub open spec fn fetches(v: Seq<Result<FetchedProduct, Failure>>) -> Seq<
    Result<FetchedProductV, FailureV>,
> {
    Seq::new(v.len(), |i: int| failure::outcome(v[i]))
}

/// Whether a batch holds a product that was read just now.
pub open spec fn has_live(v: Seq<Result<FetchedProductV, FailureV>>) -> bool {
    exists|i: int| 0 <= i < v.len() && #[trigger] is_live(v[i])
}

pub open spec fn is_live(r: Result<FetchedProductV, FailureV>) -> bool {
    r matches Ok(f) && f.live
}

/// Whether the context must be confirmed: once for the batch, where the source was asked for
/// any of its products.
pub fn needs_confirmation(fetched: &Vec<Result<FetchedProduct, Failure>>) -> (r: bool)
    ensures
        r == has_live(fetches(fetched@)),
{
    let ghost all = fetches(fetched@);
    let mut i: usize = 0;
    while i < fetched.len()
        invariant
            0 <= i <= fetched@.len(),
            all == fetches(fetched@),
            forall|k: int| 0 <= k < i ==> !is_live(#[trigger] all[k]),
        decreases fetched@.len() - i,
    {
        assert(all[i as int] == failure::outcome(fetched@[i as int]));
        if let Ok(f) = &fetched[i] {
            if f.live {
                assert(is_live(all[i as int]));
                return true;
            }
        }
        i = i + 1;
    }
    false
}

/// Why the products of a batch that were read just now cannot be shown.
#[derive(Debug)]
pub struct Unconfirmed {
    pub code: String,
    pub message: String,
}

/// Why the products of a batch that were read just now cannot be shown: the context could
/// not be confirmed, or there was no time for it.
pub fn unconfirmed(error: Option<&Failure>) -> (r: Unconfirmed)
    ensures
        match error {
            Some(e) => r.code@ == evidence::code_of(e@) && r.message@ == evidence::shown_message(
                e@.message(),
            ),
            None => r.code@ == "UPSTREAM_TIMEOUT"@ && r.message@
                == "The product batch exhausted its context confirmation budget."@,
        },
{
    match error {
        Some(e) => Unconfirmed {
            code: evidence::error_code(e).to_owned(),
            message: evidence::safe_message(e),
        },
        None => Unconfirmed {
            code: "UPSTREAM_TIMEOUT".to_owned(),
            message: "The product batch exhausted its context confirmation budget.".to_owned(),
        },
    }
}

pub open spec fn unconfirmed_view(u: Option<Unconfirmed>) -> Option<(Seq<char>, Seq<char>)> {
    match u {
        Some(u) => Some((u.code@, u.message@)),
        None => None,
    }
}

/// What the products of a batch became.
#[verifier::ext_equal]
pub struct ProductsV {
    pub ledger: LedgerV,
    pub results: Seq<JsonV>,
    pub evidence: Seq<JsonV>,
    pub refs: Seq<Seq<char>>,
    pub warnings: Seq<JsonV>,
}

pub open spec fn failed_item(selector: JsonV, e: FailureV) -> JsonV {
    marketplace::item_error_of(
        selector,
        evidence::code_of(e),
        evidence::shown_message(e.message()),
    )
}

/// What one more product makes of what the earlier ones became.
#[verifier::opaque]
pub open spec fn with_result(
    acc: ProductsV,
    selector: JsonV,
    fetched: Result<FetchedProductV, FailureV>,
    refused: Option<(Seq<char>, Seq<char>)>,
    research_id: Seq<char>,
    context_id: Seq<char>,
    now: Seq<char>,
) -> ProductsV {
    match fetched {
        Err(e) => ProductsV { results: acc.results.push(failed_item(selector, e)), ..acc },
        Ok(f) => if f.live && refused is Some {
            ProductsV {
                results: acc.results.push(
                    marketplace::item_error_of(selector, refused->Some_0.0, refused->Some_0.1),
                ),
                ..acc
            }
        } else {
            match product_details::product_made(
                f.raw,
                selector,
                acc.ledger,
                research_id,
                context_id,
                f.sections,
                now,
            ) {
                Err(e) => ProductsV {
                    ledger: e.0,
                    results: acc.results.push(failed_item(selector, e.1)),
                    ..acc
                },
                Ok(made) => ProductsV {
                    ledger: made.0,
                    results: acc.results.push(made.1.result),
                    evidence: acc.evidence + made.1.evidence,
                    refs: acc.refs + made.1.product_refs,
                    warnings: acc.warnings + made.1.warnings,
                },
            }
        },
    }
}

/// What the first products of a batch became.
pub open spec fn products_made(
    ledger: LedgerV,
    selectors: Seq<JsonV>,
    fetched: Seq<Result<FetchedProductV, FailureV>>,
    refused: Option<(Seq<char>, Seq<char>)>,
    research_id: Seq<char>,
    context_id: Seq<char>,
    now: Seq<char>,
    n: int,
) -> ProductsV
    decreases n,
{
    if n <= 0 {
        ProductsV {
            ledger,
            results: Seq::empty(),
            evidence: Seq::empty(),
            refs: Seq::empty(),
            warnings: Seq::empty(),
        }
    } else {
        with_result(
            products_made(
                ledger,
                selectors,
                fetched,
                refused,
                research_id,
                context_id,
                now,
                n - 1,
            ),
            selectors[n - 1],
            fetched[n - 1],
            refused,
            research_id,
            context_id,
            now,
        )
    }
}

/// Warnings, each code once, at most thirty.
pub open spec fn first_warnings(v: Seq<JsonV>) -> Seq<JsonV>
    decreases v.len(),
{
    if v.len() == 0 {
        Seq::empty()
    } else {
        let before = first_warnings(v.drop_last());
        if exists|i: int| 0 <= i < before.len() && code_in(#[trigger] before[i]) == code_in(v.last()) {
            before
        } else {
            before.push(v.last())
        }
    }
}

pub open spec fn code_in(w: JsonV) -> Seq<char> {
    match w.field("code"@) {
        JsonV::Text(c) => c,
        _ => ""@,
    }
}

/// Warnings, each code once, at most thirty.
pub fn dedup_warnings(values: Vec<Json>) -> (r: Vec<Json>)
    ensures
        json::values(r@) == marketplace::first_values(
            first_warnings(json::values(values@)),
            30,
        ),
{
    let ghost all = json::values(values@);
    let mut out: Vec<Json> = Vec::new();
    let mut i: usize = 0;
    assert(json::values(out@) =~= Seq::empty());
    while i < values.len()
        invariant
            0 <= i <= values@.len(),
            all == json::values(values@),
            json::values(out@) == first_warnings(all.take(i as int)),
        decreases values@.len() - i,
    {
        assert(all.take(i + 1).drop_last() =~= all.take(i as int));
        assert(all.take(i + 1).last() == values@[i as int]@);
        if !is_warned(&out, code_text(&values[i])) {
            let one: Json = values[i].copy();
            proof {
                json::lemma_values_push(out@, one);
            }
            out.push(one);
        }
        i = i + 1;
    }
    assert(all.take(i as int) =~= all);
    let ghost kept = json::values(out@);
    if out.len() > 30 {
        out.truncate(30);
        assert(json::values(out@) =~= kept.take(30));
    }
    assert(json::values(out@) =~= marketplace::first_values(kept, 30));
    out
}

fn code_text<'a>(w: &'a Json) -> (r: &'a str)
    ensures
        r@ == code_in(w@),
{
    match w.field("code").as_str() {
        Some(c) => c,
        None => "",
    }
}

fn is_warned(v: &Vec<Json>, code: &str) -> (r: bool)
    ensures
        r == exists|i: int|
            0 <= i < json::values(v@).len() && code_in(#[trigger] json::values(v@)[i]) == code@,
{
    let ghost all = json::values(v@);
    let mut i: usize = 0;
    while i < v.len()
        invariant
            0 <= i <= v@.len(),
            all == json::values(v@),
            forall|k: int| 0 <= k < i ==> code_in(#[trigger] all[k]) != code@,
        decreases v@.len() - i,
    {
        assert(all[i as int] == v@[i as int]@);
        if text::same(code_text(&v[i]), code) {
            return true;
        }
        i = i + 1;
    }
    false
}

/// The data of a batch of products.
pub open spec fn batch_made(p: ProductsV) -> NormalizedV {
    NormalizedV {
        data: JsonV::object().with("results"@, JsonV::Array(p.results)),
        evidence: p.evidence,
        warnings: marketplace::first_values(first_warnings(p.warnings), 30),
        product_refs: p.refs,
    }
}

struct Rows {
    results: Vec<Json>,
    evidence: Vec<Json>,
    refs: Vec<String>,
    warnings: Vec<Json>,
}

spec fn rows_view(rows: Rows, ledger: LedgerV) -> ProductsV {
    ProductsV {
        ledger,
        results: json::values(rows.results@),
        evidence: json::values(rows.evidence@),
        refs: text::texts(rows.refs@),
        warnings: json::values(rows.warnings@),
    }
}

/// How many identifiers the products of a batch can take, from one on.
pub open spec fn demand(fetched: Seq<Result<FetchedProductV, FailureV>>, i: int) -> nat
    decreases fetched.len() - i,
{
    if i < 0 || i >= fetched.len() {
        0
    } else {
        (match fetched[i] {
            Ok(f) => 2 + 21 * f.sections.len(),
            Err(_) => 0,
        }) + demand(fetched, i + 1)
    }
}

fn add_failure(rows: &mut Rows, selector: &Json, code: &str, message: &str)
    ensures
        final(rows).results@.len() == old(rows).results@.len() + 1,
        json::values(final(rows).results@) == json::values(old(rows).results@).push(
            marketplace::item_error_of(selector@, code@, message@),
        ),
        final(rows).evidence == old(rows).evidence,
        final(rows).refs == old(rows).refs,
        final(rows).warnings == old(rows).warnings,
{
    let one: Json = marketplace::item_error(selector, code, message);
    proof {
        json::lemma_values_push(rows.results@, one);
    }
    rows.results.push(one);
}

fn add_result(
    rows: &mut Rows,
    ledger: &mut Ledger,
    selector: &Json,
    fetched: &Result<FetchedProduct, Failure>,
    refused: &Option<Unconfirmed>,
    research_id: &str,
    context_id: &str,
    now: &str,
)
    requires
        fetched matches Ok(f) ==> old(ledger)@.left() >= 2 + 21 * f.sections@.len(),
    ensures
        rows_view(*final(rows), final(ledger)@) == with_result(
            rows_view(*old(rows), old(ledger)@),
            selector@,
            failure::outcome(*fetched),
            unconfirmed_view(*refused),
            research_id@,
            context_id@,
            now@,
        ),
        final(ledger)@.ids == old(ledger)@.ids,
        final(ledger)@.used <= old(ledger)@.used + (match fetched {
            Ok(f) => 2 + 21 * f.sections@.len(),
            Err(_) => 0,
        }),
{
    proof {
        reveal(with_result);
    }
    let f: &FetchedProduct = match fetched {
        Ok(f) => f,
        Err(e) => {
            let message: String = evidence::safe_message(e);
            add_failure(rows, selector, evidence::error_code(e), message.as_str());
            return;
        },
    };
    if f.live {
        if let Some(u) = refused {
            add_failure(rows, selector, u.code.as_str(), u.message.as_str());
            return;
        }
    }
    match product_details::normalize_product_in(
        &f.raw,
        selector,
        ledger,
        research_id,
        context_id,
        &f.sections,
        now,
    ) {
        Err(e) => {
            let message: String = evidence::safe_message(&e);
            add_failure(rows, selector, evidence::error_code(&e), message.as_str());
        },
        Ok(made) => {
            let ghost m = made@;
            let ghost before = *rows;
            let mut evidence: Vec<Json> = made.evidence;
            let mut refs: Vec<String> = made.product_refs;
            let mut warnings: Vec<Json> = made.warnings;
            proof {
                json::lemma_values_push(rows.results@, made.result);
            }
            rows.results.push(made.result);
            rows.evidence.append(&mut evidence);
            rows.refs.append(&mut refs);
            rows.warnings.append(&mut warnings);
            assert(json::values(rows.evidence@) =~= json::values(before.evidence@) + m.evidence);
            assert(text::texts(rows.refs@) =~= text::texts(before.refs@) + m.product_refs);
            assert(json::values(rows.warnings@) =~= json::values(before.warnings@) + m.warnings);
        },
    }
}

/// What the products of a batch became, at a given time. Each has a result of its own: that
/// one fails does not fail the others. `refused` holds why those that were read just now
/// cannot be shown.
pub fn finish_products_at(
    selectors: &Vec<Json>,
    fetched: &Vec<Result<FetchedProduct, Failure>>,
    refused: &Option<Unconfirmed>,
    ledger: &mut Ledger,
    research_id: &str,
    context_id: &str,
    now: &str,
) -> (r: Normalized)
    requires
        old(ledger)@.valid(),
        fetched@.len() <= selectors@.len(),
    ensures
        final(ledger)@.valid(),
        final(ledger)@.ids.take(old(ledger)@.ids.len() as int) == old(ledger)@.ids,
        ({
            let p = products_made(
                old(ledger)@.supplied(final(ledger)@),
                json::values(selectors@),
                fetches(fetched@),
                unconfirmed_view(*refused),
                research_id@,
                context_id@,
                now@,
                fetched@.len() as int,
            );
            final(ledger)@ == p.ledger && r@ == batch_made(p)
        }),
{
    let ghost origin = ledger@;
    let ghost all = fetches(fetched@);
    let ghost names = json::values(selectors@);
    let mut k: usize = fetched.len();
    assert(ledger@ =~= origin.supplied(ledger@));
    assert(ledger@.ids.take(origin.ids.len() as int) =~= origin.ids);
    while k > 0
        invariant
            0 <= k <= fetched@.len(),
            all == fetches(fetched@),
            ledger@.valid(),
            ledger@ == origin.supplied(ledger@),
            ledger@.ids.len() >= origin.ids.len(),
            ledger@.ids.take(origin.ids.len() as int) == origin.ids,
            ledger@.left() >= demand(all, k as int),
        decreases k,
    {
        k = k - 1;
        assert(all[k as int] == failure::outcome(fetched@[k as int]));
        let ghost now_ids = ledger@.ids;
        if let Ok(f) = &fetched[k] {
            ledger.stock(1, 2);
            ledger.stock(f.sections.len(), 21);
        }
        assert(ledger@ =~= origin.supplied(ledger@));
        assert(ledger@.ids.take(origin.ids.len() as int) =~= now_ids.take(
            origin.ids.len() as int,
        ));
    }
    let ghost start = ledger@;
    let mut rows: Rows = Rows {
        results: Vec::new(),
        evidence: Vec::new(),
        refs: Vec::new(),
        warnings: Vec::new(),
    };
    let mut i: usize = 0;
    assert(rows_view(rows, ledger@) =~= products_made(
        start,
        names,
        all,
        unconfirmed_view(*refused),
        research_id@,
        context_id@,
        now@,
        0,
    ));
    while i < fetched.len()
        invariant
            0 <= i <= fetched@.len() <= selectors@.len(),
            all == fetches(fetched@),
            names == json::values(selectors@),
            ledger@.ids == start.ids,
            ledger@.left() >= demand(all, i as int),
            rows_view(rows, ledger@) == products_made(
                start,
                names,
                all,
                unconfirmed_view(*refused),
                research_id@,
                context_id@,
                now@,
                i as int,
            ),
        decreases fetched@.len() - i,
    {
        assert(all[i as int] == failure::outcome(fetched@[i as int]));
        assert(names[i as int] == selectors@[i as int]@);
        add_result(
            &mut rows,
            ledger,
            &selectors[i],
            &fetched[i],
            refused,
            research_id,
            context_id,
            now,
        );
        i = i + 1;
    }
    let data: Json = Json::object().with("results", Json::array(rows.results));
    Normalized {
        data,
        evidence: rows.evidence,
        warnings: dedup_warnings(rows.warnings),
        product_refs: rows.refs,
    }
}

/// Every product that was looked at has one result, in the order of the request.
pub proof fn each_product_has_a_result(
    ledger: LedgerV,
    selectors: Seq<JsonV>,
    fetched: Seq<Result<FetchedProductV, FailureV>>,
    refused: Option<(Seq<char>, Seq<char>)>,
    research_id: Seq<char>,
    context_id: Seq<char>,
    now: Seq<char>,
    n: int,
)
    requires
        n >= 0,
    ensures
        products_made(
            ledger,
            selectors,
            fetched,
            refused,
            research_id,
            context_id,
            now,
            n,
        ).results.len() == n,
    decreases n,
{
    reveal(with_result);
    if n > 0 {
        each_product_has_a_result(
            ledger,
            selectors,
            fetched,
            refused,
            research_id,
            context_id,
            now,
            n - 1,
        );
    }
}

/// The answer to a call for products, in the view that the batch is bound to.
pub fn products_answer_at(
    n: Normalized,
    research_id: &str,
    context: &Json,
    view: &str,
    now: &str,
) -> (r: Json)
    ensures
        r@ == evidence::envelope_of(
            Some(research_id@),
            n@.data,
            context@,
            n@.evidence,
            n@.warnings,
            search_call::oldest(n@.evidence, now@),
        ).with("view"@, JsonV::Text(view@)),
{
    search_call::envelope_at(n, research_id, context, now).with("view", Json::text(view))
}

} // verus!
