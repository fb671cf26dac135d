//! Which marketplace pages are read for a request, and what was observed on them.

use crate::address::{self, Address, AddressV};
use crate::browser_error::{BrowserError, BrowserErrorV};
use crate::failure::{self, Failure, FailureV};
use crate::json::{self, Json, JsonV};
use crate::model::{ProductDetails, ReviewPage};
use crate::operations;
use crate::parse;
use crate::pattern;
use crate::text;
use crate::widgets;
use vstd::prelude::*;

verus! {

/// What has been observed to work so far.
#[derive(Clone, Copy, Debug, PartialEq, Eq, Structural)]
pub struct Observed {
    pub search: bool,
    pub search_refinements: bool,
    pub search_pagination: bool,
    pub card_prices: bool,
    pub products: bool,
    pub characteristics: bool,
    pub description: bool,
    pub product_images: bool,
    pub image_content: bool,
    pub review_text: bool,
    pub review_images: bool,
    pub review_pagination: bool,
    pub review_refinements: bool,
    pub variants: bool,
    pub region_verification: bool,
    pub account_observation: bool,
}

/// What has been observed to work so far, and in which context.
#[derive(Debug)]
pub struct CapabilityObservations {
    pub context_signature: Option<Json>,
    pub observed: Observed,
}

/// What [`CapabilityObservations`] hold.
pub struct ObservationsV {
    pub context_signature: Option<JsonV>,
    pub observed: Observed,
}

impl View for CapabilityObservations {
    type V = ObservationsV;

    open spec fn view(&self) -> ObservationsV {
        ObservationsV {
            context_signature: json::read_of(self.context_signature),
            observed: self.observed,
        }
    }
}

impl Observed {
    /// Nothing has been observed.
    pub open spec fn nothing() -> Observed {
        Observed {
            search: false,
            search_refinements: false,
            search_pagination: false,
            card_prices: false,
            products: false,
            characteristics: false,
            description: false,
            product_images: false,
            image_content: false,
            review_text: false,
            review_images: false,
            review_pagination: false,
            review_refinements: false,
            variants: false,
            region_verification: false,
            account_observation: false,
        }
    }
}

impl ObservationsV {
    /// What stays observed once the context has a signature: image content was observed in
    /// one context only.
    pub open spec fn signed(self, signature: JsonV) -> ObservationsV {
        ObservationsV {
            context_signature: Some(signature),
            observed: Observed {
                image_content: self.observed.image_content && (self.context_signature is None
                    || self.context_signature == Some(signature)),
                ..self.observed
            },
        }
    }
}

impl ObservationsV {
    /// What is observed once a context shows whether its region is verified and which
    /// account it belongs to.
    pub open spec fn told(self, verified: bool, account: bool) -> ObservationsV {
        ObservationsV {
            observed: Observed {
                region_verification: self.observed.region_verification || verified,
                account_observation: self.observed.account_observation || account,
                ..self.observed
            },
            ..self
        }
    }
}

impl Default for CapabilityObservations {
    fn default() -> (r: CapabilityObservations)
        ensures
            r@ == (ObservationsV { context_signature: None, observed: Observed::nothing() }),
    {
        CapabilityObservations {
            context_signature: None,
            observed: Observed {
                search: false,
                search_refinements: false,
                search_pagination: false,
                card_prices: false,
                products: false,
                characteristics: false,
                description: false,
                product_images: false,
                image_content: false,
                review_text: false,
                review_images: false,
                review_pagination: false,
                review_refinements: false,
                variants: false,
                region_verification: false,
                account_observation: false,
            },
        }
    }
}

/// What tells one context from another: the signature that a page gives it, or the region
/// and the account it shows.
#[verifier::opaque]
pub open spec fn signature_of(observation: JsonV) -> JsonV {
    match observation.field("signature"@) {
        JsonV::Null => JsonV::object().with(
            "regionLabel"@,
            observation.field("regionLabel"@),
        ).with("regionVerified"@, observation.field("regionVerified"@)).with(
            "accountState"@,
            observation.field("accountState"@),
        ),
        s => s,
    }
}

fn context_capability_signature(observation: &Json) -> (r: Json)
    ensures
        r@ == signature_of(observation@),
{
    proof {
        reveal(signature_of);
    }
    let own: &Json = observation.field("signature");
    if own.is_null() {
        Json::object().with("regionLabel", observation.field("regionLabel").copy()).with(
            "regionVerified",
            observation.field("regionVerified").copy(),
        ).with("accountState", observation.field("accountState").copy())
    } else {
        own.copy()
    }
}

pub open spec fn status_of(observed: bool) -> JsonV {
    JsonV::Text(
        if observed {
            "available"@
        } else {
            "unverified"@
        },
    )
}

fn observed_status(observed: bool) -> (r: Json)
    ensures
        r@ == status_of(observed),
{
    if observed {
        Json::text("available")
    } else {
        Json::text("unverified")
    }
}

/// The capabilities, as they are reported.
pub open spec fn capabilities_of(o: Observed) -> JsonV {
    JsonV::object().with("search"@, status_of(o.search)).with(
        "search_refinements"@,
        status_of(o.search_refinements),
    ).with("search_pagination"@, status_of(o.search_pagination)).with(
        "card_prices"@,
        status_of(o.card_prices),
    ).with("products"@, status_of(o.products)).with(
        "characteristics"@,
        status_of(o.characteristics),
    ).with("description"@, status_of(o.description)).with(
        "product_images"@,
        status_of(o.product_images),
    ).with("image_content"@, status_of(o.image_content)).with(
        "review_text"@,
        status_of(o.review_text),
    ).with("review_images"@, status_of(o.review_images)).with(
        "review_pagination"@,
        status_of(o.review_pagination),
    ).with("review_refinements"@, status_of(o.review_refinements)).with(
        "variants"@,
        status_of(o.variants),
    ).with("offers"@, JsonV::Text("unsupported"@)).with(
        "region_verification"@,
        status_of(o.region_verification),
    ).with("account_observation"@, status_of(o.account_observation))
}

/// Whether a context page shows which account it belongs to.
pub open spec fn shows_account(observation: JsonV) -> bool {
    observation.field("accountState"@) == JsonV::Text("authenticated"@) || observation.field(
        "accountState"@,
    ) == JsonV::Text("anonymous"@)
}

fn account_is_shown(observation: &Json) -> (r: bool)
    ensures
        r == shows_account(observation@),
{
    is_text(observation.field("accountState"), "authenticated") || is_text(
        observation.field("accountState"),
        "anonymous",
    )
}

/// What is observed once a context page was read.
pub open spec fn context_observed(o: ObservationsV, observation: JsonV) -> ObservationsV {
    o.signed(signature_of(observation)).told(
        observation.field("regionVerified"@) == JsonV::Bool(true),
        shows_account(observation),
    )
}

/// The context, as the source shows it.
#[verifier::opaque]
pub open spec fn context_answer(o: Observed, observation: JsonV) -> JsonV {
    JsonV::object().with("regionLabel"@, observation.field("regionLabel"@)).with(
        "regionVerification"@,
        JsonV::Text(
            if observation.field("regionVerified"@) == JsonV::Bool(true) {
                "verified"@
            } else {
                "unverified"@
            },
        ),
    ).with("regionSourceUrl"@, observation.field("regionSourceUrl"@)).with(
        "accountState"@,
        JsonV::Text(
            crate::evidence::enum_text(
                observation,
                "accountState"@,
                seq!["authenticated"@, "anonymous"@],
                "unknown"@,
            ),
        ),
    ).with(
        "accessState"@,
        JsonV::Text(
            crate::evidence::enum_text(
                observation,
                "accessState"@,
                seq!["available"@, "blocked"@],
                "unknown"@,
            ),
        ),
    ).with("signature"@, observation.field("signature"@)).with(
        "capabilities"@,
        capabilities_of(o),
    )
}

/// Whether a search shows a price with the card.
pub open spec fn shows_card_price(items: Seq<JsonV>) -> bool {
    exists|i: int|
        0 <= i < items.len() && (#[trigger] items[i]).field("priceType"@) == JsonV::Text(
            "ozon_card"@,
        )
}

/// Whether a review shows photos.
pub open spec fn has_photos(review: JsonV) -> bool {
    review.field("hasPhotos"@) == JsonV::Bool(true) || review.field("photos"@).elements().len() > 0
}

pub open spec fn shows_photos(reviews: Seq<JsonV>) -> bool {
    exists|i: int| 0 <= i < reviews.len() && has_photos(#[trigger] reviews[i])
}

/// What is observed once a search was read.
pub open spec fn search_observed(o: Observed, raw: JsonV) -> Observed {
    Observed {
        search: true,
        search_refinements: o.search_refinements || !(raw.field("facets"@) is Null),
        search_pagination: o.search_pagination || raw.field("hasNext"@) is Bool,
        card_prices: o.card_prices || shows_card_price(raw.field("items"@).elements()),
        ..o
    }
}

/// What is observed once a product was read.
pub open spec fn product_observed(o: Observed, raw: JsonV) -> Observed {
    Observed {
        products: o.products || (raw.field("sku"@) is Text && raw.field("name"@) is Text),
        characteristics: o.characteristics || (raw.field("characteristics"@).as_object() matches Some(
            m,
        ) && m.len() > 0),
        description: o.description || (raw.field("description"@).field("text"@).as_text() matches Some(
            t,
        ) && t.len() > 0) || raw.field("description"@).field("images"@).elements().len() > 0,
        product_images: o.product_images || raw.field("images"@).elements().len() > 0,
        variants: o.variants || raw.field("variants"@).field("status"@) == JsonV::Text(
            "available"@,
        ) || raw.field("variants"@).field("status"@) == JsonV::Text("partial"@),
        ..o
    }
}

/// What is observed once reviews were read.
pub open spec fn reviews_observed(o: Observed, listed: bool, raw: JsonV) -> Observed {
    Observed {
        review_text: o.review_text || listed,
        review_images: o.review_images || shows_photos(raw.field("reviews"@).elements()),
        review_pagination: o.review_pagination || raw.field("hasNext"@) is Bool,
        review_refinements: o.review_refinements || raw.field("refinements"@).elements().len() > 0,
        ..o
    }
}

fn is_text(v: &Json, s: &str) -> (r: bool)
    ensures
        r == (v@ == JsonV::Text(s@)),
{
    match v.as_str() {
        Some(t) => text::same(t, s),
        None => false,
    }
}

fn is_true(v: &Json) -> (r: bool)
    ensures
        r == (v@ == JsonV::Bool(true)),
{
    match v.as_bool() {
        Some(b) => b,
        None => false,
    }
}

fn any_card_price(items: &Vec<&Json>) -> (r: bool)
    ensures
        r == shows_card_price(json::refs(items@)),
{
    let ghost all = json::refs(items@);
    let mut i: usize = 0;
    while i < items.len()
        invariant
            0 <= i <= items@.len(),
            all == json::refs(items@),
            forall|k: int|
                0 <= k < i ==> (#[trigger] all[k]).field("priceType"@) != JsonV::Text(
                    "ozon_card"@,
                ),
        decreases items@.len() - i,
    {
        assert(all[i as int] == items@[i as int]@);
        if is_text(items[i].field("priceType"), "ozon_card") {
            return true;
        }
        i = i + 1;
    }
    false
}

fn any_photos(reviews: &Vec<&Json>) -> (r: bool)
    ensures
        r == shows_photos(json::refs(reviews@)),
{
    let ghost all = json::refs(reviews@);
    let mut i: usize = 0;
    while i < reviews.len()
        invariant
            0 <= i <= reviews@.len(),
            all == json::refs(reviews@),
            forall|k: int| 0 <= k < i ==> !has_photos(#[trigger] all[k]),
        decreases reviews@.len() - i,
    {
        assert(all[i as int] == reviews@[i as int]@);
        if is_true(reviews[i].field("hasPhotos")) || json::elements(
            reviews[i].field("photos"),
        ).len() > 0 {
            assert(has_photos(all[i as int]));
            return true;
        }
        i = i + 1;
    }
    false
}

impl CapabilityObservations {
    /// Takes note of the signature of the context. Image content that was observed in
    /// another context no longer counts.
    pub fn update_context_signature(&mut self, signature: Json)
        ensures
            final(self)@ == old(self)@.signed(signature@),
    {
        let changed: bool = match &self.context_signature {
            Some(s) => !s.equals(&signature),
            None => false,
        };
        let image_content: bool = self.observed.image_content && !changed;
        self.observed = Observed { image_content, ..self.observed };
        self.context_signature = Some(signature);
    }

    pub fn mark_image_content_available(&mut self)
        ensures
            final(self)@ == (ObservationsV {
                observed: (Observed { image_content: true, ..old(self)@.observed }),
                ..old(self)@
            }),
    {
        self.observed = Observed { image_content: true, ..self.observed };
    }

    /// Takes note of a context page, and gives the context that it shows.
    pub fn observe_context(&mut self, page: &Json) -> (r: Json)
        ensures
            final(self)@ == context_observed(old(self)@, page@.field("contextObservation"@)),
            r@ == context_answer(final(self)@.observed, page@.field("contextObservation"@)),
    {
        let observation: &Json = page.field("contextObservation");
        let verified: bool = is_true(observation.field("regionVerified"));
        let account: bool = account_is_shown(observation);
        let signature: Json = context_capability_signature(observation);
        self.note_context(signature, verified, account);
        self.show_context(observation, verified)
    }

    fn note_context(&mut self, signature: Json, verified: bool, account: bool)
        ensures
            final(self)@ == old(self)@.signed(signature@).told(verified, account),
    {
        self.update_context_signature(signature);
        self.observed = Observed {
            region_verification: self.observed.region_verification || verified,
            account_observation: self.observed.account_observation || account,
            ..self.observed
        };
    }

    fn show_context(&self, observation: &Json, verified: bool) -> (r: Json)
        requires
            verified == (observation@.field("regionVerified"@) == JsonV::Bool(true)),
        ensures
            r@ == context_answer(self.observed, observation@),
    {
        proof {
            reveal(context_answer);
        }
        let accounts: [&str; 2] = ["authenticated", "anonymous"];
        let accesses: [&str; 2] = ["available", "blocked"];
        assert(widgets::slices(accounts@) =~= seq!["authenticated"@, "anonymous"@]);
        assert(widgets::slices(accesses@) =~= seq!["available"@, "blocked"@]);
        let verification: &str = if verified {
            "verified"
        } else {
            "unverified"
        };
        Json::object().with("regionLabel", observation.field("regionLabel").copy()).with(
            "regionVerification",
            Json::text(verification),
        ).with("regionSourceUrl", observation.field("regionSourceUrl").copy()).with(
            "accountState",
            crate::evidence::enum_value(observation, "accountState", &accounts, "unknown"),
        ).with(
            "accessState",
            crate::evidence::enum_value(observation, "accessState", &accesses, "unknown"),
        ).with("signature", observation.field("signature").copy()).with(
            "capabilities",
            self.capabilities(),
        )
    }

    fn capabilities(&self) -> (r: Json)
        ensures
            r@ == capabilities_of(self.observed),
    {
        Json::object().with("search", observed_status(self.observed.search)).with(
            "search_refinements",
            observed_status(self.observed.search_refinements),
        ).with("search_pagination", observed_status(self.observed.search_pagination)).with(
            "card_prices",
            observed_status(self.observed.card_prices),
        ).with("products", observed_status(self.observed.products)).with(
            "characteristics",
            observed_status(self.observed.characteristics),
        ).with("description", observed_status(self.observed.description)).with(
            "product_images",
            observed_status(self.observed.product_images),
        ).with("image_content", observed_status(self.observed.image_content)).with(
            "review_text",
            observed_status(self.observed.review_text),
        ).with("review_images", observed_status(self.observed.review_images)).with(
            "review_pagination",
            observed_status(self.observed.review_pagination),
        ).with("review_refinements", observed_status(self.observed.review_refinements)).with(
            "variants",
            observed_status(self.observed.variants),
        ).with("offers", Json::text("unsupported")).with(
            "region_verification",
            observed_status(self.observed.region_verification),
        ).with("account_observation", observed_status(self.observed.account_observation))
    }

    /// Takes note of a search.
    pub fn observe_search(&mut self, raw: &Json)
        ensures
            final(self)@ == (ObservationsV {
                observed: search_observed(old(self)@.observed, raw@),
                ..old(self)@
            }),
    {
        let refinements: bool = !raw.field("facets").is_null();
        let pagination: bool = raw.field("hasNext").as_bool().is_some();
        let card: bool = any_card_price(&json::elements(raw.field("items")));
        self.observed = Observed {
            search: true,
            search_refinements: self.observed.search_refinements || refinements,
            search_pagination: self.observed.search_pagination || pagination,
            card_prices: self.observed.card_prices || card,
            ..self.observed
        };
    }

    /// Takes note of a product.
    pub fn observe_product(&mut self, raw: &Json)
        ensures
            final(self)@ == (ObservationsV {
                observed: product_observed(old(self)@.observed, raw@),
                ..old(self)@
            }),
    {
        let named: bool = raw.field("sku").as_str().is_some() && raw.field(
            "name",
        ).as_str().is_some();
        let characteristics: bool = match raw.field("characteristics").as_object() {
            Some(m) => m.len() > 0,
            None => false,
        };
        let told: bool = match raw.field("description").field("text").as_str() {
            Some(t) => text::chars_of(t).len() > 0,
            None => false,
        };
        let described: bool = told || json::elements(
            raw.field("description").field("images"),
        ).len() > 0;
        let images: bool = json::elements(raw.field("images")).len() > 0;
        let status: &Json = raw.field("variants").field("status");
        let variants: bool = is_text(status, "available") || is_text(status, "partial");
        self.observed = Observed {
            products: self.observed.products || named,
            characteristics: self.observed.characteristics || characteristics,
            description: self.observed.description || described,
            product_images: self.observed.product_images || images,
            variants: self.observed.variants || variants,
            ..self.observed
        };
    }

    /// Takes note of reviews.
    pub fn observe_reviews(&mut self, listed: bool, raw: &Json)
        ensures
            final(self)@ == (ObservationsV {
                observed: reviews_observed(old(self)@.observed, listed, raw@),
                ..old(self)@
            }),
    {
        let photos: bool = any_photos(&json::elements(raw.field("reviews")));
        let pagination: bool = raw.field("hasNext").as_bool().is_some();
        let refinements: bool = json::elements(raw.field("refinements")).len() > 0;
        self.observed = Observed {
            review_text: self.observed.review_text || listed,
            review_images: self.observed.review_images || photos,
            review_pagination: self.observed.review_pagination || pagination,
            review_refinements: self.observed.review_refinements || refinements,
            ..self.observed
        };
    }

    /// The product that its pages show, of which note is taken.
    pub fn finish_product(&mut self, base: &Json, secondary: Option<&Json>, secondary_failed: bool) -> (r:
        Json)
        ensures
            r@ == operations::finished_details(
                base@,
                json::view_of(secondary),
                secondary_failed && parse::description_of(base@).text.len() == 0,
            ).json(),
            final(self)@ == (ObservationsV {
                observed: product_observed(old(self)@.observed, r@),
                ..old(self)@
            }),
    {
        let lost: bool = secondary_failed && !parse::parse_description(base).has_text();
        let details: ProductDetails = operations::finish_details(base, secondary, lost);
        let raw: Json = details.to_json();
        self.observe_product(&raw);
        raw
    }

    /// The reviews that their page shows, of which note is taken. A page that lists more
    /// than it may is refused.
    pub fn finish_reviews(&mut self, page: &Json) -> (r: Result<Json, Failure>)
        ensures
            match r {
                Ok(j) => {
                    &&& !lists_too_much(page@)
                    &&& j@ == operations::finished_reviews(page@, 30).json()
                    &&& final(self)@ == (ObservationsV {
                        observed: reviews_observed(
                            old(self)@.observed,
                            operations::shows_reviews(page@),
                            j@,
                        ),
                        ..old(self)@
                    })
                },
                Err(e) => {
                    &&& lists_too_much(page@)
                    &&& e@ == FailureV::Message(
                        "RESULT_TOO_LARGE: source review page exceeds its bounded snapshot"@,
                    )
                    &&& final(self)@ == old(self)@
                },
            },
    {
        if too_much_listed(page) {
            return Err(
                Failure::new("RESULT_TOO_LARGE: source review page exceeds its bounded snapshot"),
            );
        }
        let reviews: ReviewPage = operations::finish_reviews(page, 30);
        let raw: Json = reviews.to_json();
        self.observe_reviews(operations::reviews_are_shown(page), &raw);
        Ok(raw)
    }
}

/// Whether a list of reviews is longer than a page may be.
pub open spec fn is_too_long(state: JsonV) -> bool {
    state.field("reviews"@).elements().len() > 30 || state.field("items"@).elements().len() > 30
}

/// Whether any list of reviews on a page is longer than a page may be.
pub open spec fn lists_too_much(page: JsonV) -> bool {
    exists|i: int|
        0 <= i < widgets::states_of(page, "webListReviews"@).len() && is_too_long(
            #[trigger] widgets::states_of(page, "webListReviews"@)[i],
        )
}

fn too_much_listed(page: &Json) -> (r: bool)
    ensures
        r == lists_too_much(page@),
{
    let states: Vec<Json> = widgets::all_valid(page, "webListReviews");
    let ghost all = widgets::states_of(page@, "webListReviews"@);
    let mut i: usize = 0;
    while i < states.len()
        invariant
            0 <= i <= states@.len(),
            all == json::values(states@),
            all == widgets::states_of(page@, "webListReviews"@),
            forall|k: int| 0 <= k < i ==> !is_too_long(#[trigger] all[k]),
        decreases states@.len() - i,
    {
        assert(all[i as int] == states@[i as int]@);
        if json::elements(states[i].field("reviews")).len() > 30 || json::elements(
            states[i].field("items"),
        ).len() > 30 {
            assert(is_too_long(all[i as int]));
            return true;
        }
        i = i + 1;
    }
    false
}

/// Whether a second page is read for a product: where the first shows no description text
/// or no duty.
pub fn needs_product_supplement(base: &Json) -> (r: bool)
    ensures
        r == (parse::description_of(base@).text.len() == 0 || parse::duty_of(base@) is None),
{
    !parse::parse_description(base).has_text() || parse::parse_duty(base).is_none()
}

/// Fails where a request was cancelled.
pub fn ensure_not_cancelled(cancelled: bool) -> (r: Result<(), Failure>)
    ensures
        r is Ok == !cancelled,
        r matches Err(e) ==> e@ == FailureV::Browser(BrowserErrorV::Cancelled),
{
    if cancelled {
        Err(Failure::Browser(BrowserError::Cancelled))
    } else {
        Ok(())
    }
}

/// The second page of a product, where one is read.
pub fn after_base(path: &str, base: &Json, cancelled: bool) -> (r: Result<Option<String>, Failure>)
    ensures
        match r {
            Ok(next) => {
                &&& !cancelled
                &&& text::text_of(next) == (if parse::description_of(base@).text.len() == 0
                    || parse::duty_of(base@) is None {
                    Some(path@ + "?layout_container=pdpPage2column&layout_page_index=2"@)
                } else {
                    None
                })
            },
            Err(e) => cancelled && e@ == FailureV::Browser(BrowserErrorV::Cancelled),
        },
{
    match ensure_not_cancelled(cancelled) {
        Ok(_) => {},
        Err(e) => return Err(e),
    }
    if needs_product_supplement(base) {
        Ok(Some(text::joined(path, "?layout_container=pdpPage2column&layout_page_index=2")))
    } else {
        Ok(None)
    }
}

/// What a second page brought: the page, or that it failed. It fails the request only where
/// this was cancelled.
pub fn after_supplement(fetched: Result<Json, Failure>, cancelled: bool) -> (r: Result<
    Option<Json>,
    Failure,
>)
    ensures
        match r {
            Ok(page) => !cancelled && json::read_of(page) == (match fetched {
                Ok(p) => Some(p@),
                Err(_) => None,
            }),
            Err(e) => cancelled && e@ == (match fetched {
                Ok(_) => FailureV::Browser(BrowserErrorV::Cancelled),
                Err(f) => f@,
            }),
        },
{
    match fetched {
        Ok(p) => if cancelled {
            Err(Failure::Browser(BrowserError::Cancelled))
        } else {
            Ok(Some(p))
        },
        Err(e) => if cancelled {
            Err(e)
        } else {
            Ok(None)
        },
    }
}

/// Whether a text holds a control character.
pub open spec fn has_control(s: Seq<char>) -> bool {
    exists|i: int| 0 <= i < s.len() && text::is_control(#[trigger] s[i])
}

fn any_control(s: &str) -> (r: bool)
    ensures
        r == has_control(s@),
{
    let v: Vec<char> = text::chars_of(s);
    let mut i: usize = 0;
    while i < v.len()
        invariant
            0 <= i <= v@.len(),
            v@ == s@,
            forall|k: int| 0 <= k < i ==> !text::is_control(#[trigger] s@[k]),
        decreases v@.len() - i,
    {
        if text::is_control_char(v[i]) {
            assert(text::is_control(s@[i as int]));
            return true;
        }
        i = i + 1;
    }
    false
}

/// The path that a product is named by: that of a URL, or the name itself.
pub open spec fn public_path(value: Seq<char>) -> Result<Seq<char>, FailureV> {
    if text::starts(value, "https://"@) {
        match address::parsed_url(value) {
            Err(e) => Err(FailureV::Message(e)),
            Ok(a) => if operations::is_product_authority(a) {
                Ok(a.path)
            } else {
                Err(FailureV::Message("Expected an ozon.ru product URL"@))
            },
        }
    } else {
        Ok(operations::before_marks(value))
    }
}

/// A slug without the name of its page of reviews.
pub open spec fn reviewed_slug(slug: Seq<char>) -> Seq<char> {
    match text::without_suffix(slug, "/reviews"@) {
        Some(s) => s,
        None => slug,
    }
}

/// The path of the product page that a request names. Nothing in it is escaped, so nothing
/// but a product page can be named.
pub open spec fn product_path_of(product: Seq<char>) -> Result<Seq<char>, FailureV> {
    let value = text::trimmed(product);
    if value.len() == 0 || text::utf16_len(value) > 2000 || has_control(value) {
        Err(FailureV::Message("Invalid product: expected Ozon product URL, SKU or slug"@))
    } else {
        match public_path(value) {
            Err(e) => Err(e),
            Ok(path) => if text::has(path, "%"@) || text::has(path, "//"@) {
                Err(FailureV::Message("Invalid product path"@))
            } else {
                let slug = reviewed_slug(operations::bare_slug(path));
                if pattern::pattern_occurs(operations::slug_pattern(), slug) {
                    Ok(operations::path_of_slug(slug))
                } else {
                    Err(FailureV::Message("Invalid product SKU or slug"@))
                }
            },
        }
    }
}

/// The path of a product page names itself, unless it is too long for a request.
pub proof fn product_paths_name_themselves(path: Seq<char>)
    requires
        operations::is_product_path(path),
        text::utf16_len(path) <= 2000,
    ensures
        product_path_of(path) == Ok::<Seq<char>, FailureV>(path),
{
    operations::lemma_product_path_is_bare(path);
    reveal_strlit("/product/");
    reveal_strlit("/");
    reveal_strlit("//");
    reveal_strlit("%");
    reveal_strlit("https://");
    reveal_strlit("/reviews");
    let slug = path.subrange(9, path.len() - 1);
    assert forall|i: int| 0 <= i < path.len() implies !text::is_control(#[trigger] path[i]) && path[i]
        != '%' by {
        assert(path.contains(path[i]));
        if 9 <= i < path.len() - 1 {
            assert(operations::is_slug_char(path[i]));
        }
    }
    assert(!text::starts(path, "https://"@)) by {
        if text::starts(path, "https://"@) {
            assert(path.subrange(0, 8)[0] == 'h');
        }
    }
    assert forall|i: int| !text::occurs_at(path, "%"@, i) by {
        if text::occurs_at(path, "%"@, i) {
            assert(path.subrange(i, i + 1)[0] == '%');
            assert(path[i] == '%');
        }
    }
    assert forall|i: int| !text::occurs_at(path, "//"@, i) by {
        if text::occurs_at(path, "//"@, i) {
            assert(path.subrange(i, i + 2)[0] == '/');
            assert(path.subrange(i, i + 2)[1] == '/');
            assert(path[i] == '/' && path[i + 1] == '/');
            assert(slug.last() == path[path.len() - 2]);
            if 9 <= i {
                assert(operations::is_slug_char(path[i]));
            } else if 9 == i + 1 {
                assert(operations::is_slug_char(path[9]));
            }
        }
    }
    operations::lemma_slug_ends(slug, "/reviews"@);
    text::lemma_found(path, "%"@, 0);
    text::lemma_found(path, "//"@, 0);
}

pub fn product_path(product: &str) -> (r: Result<String, Failure>)
    ensures
        failure::outcome(r) == product_path_of(product@),
        r matches Ok(path) ==> operations::is_product_path(path@),
{
    let value: String = text::trim(product);
    if value.as_str().is_empty() || !text::utf16_at_most(value.as_str(), 2000) || any_control(
        value.as_str(),
    ) {
        return Err(Failure::new("Invalid product: expected Ozon product URL, SKU or slug"));
    }
    let path: String = if text::starts_with(value.as_str(), "https://") {
        let url: Address = match address::parse_url(value.as_str()) {
            Ok(a) => a,
            Err(e) => return Err(Failure::Message(e)),
        };
        if !operations::product_authority(&url) {
            return Err(Failure::new("Expected an ozon.ru product URL"));
        }
        url.path
    } else {
        operations::cut_marks(value.as_str())
    };
    if text::contains(path.as_str(), "%") || text::contains(path.as_str(), "//") {
        return Err(Failure::new("Invalid product path"));
    }
    let slug: String = operations::take_slug(path.as_str());
    let slug: String = match text::strip_suffix(slug.as_str(), "/reviews") {
        Some(s) => s,
        None => slug,
    };
    if !pattern::is_match(r"^[\p{L}\p{N}_-]*[0-9]$", slug.as_str()) {
        return Err(Failure::new("Invalid product SKU or slug"));
    }
    proof {
        operations::lemma_path_of_slug(slug@);
    }
    Ok(text::joined3("/product/", slug.as_str(), "/"))
}

/// The parameters that a page of reviews may be asked for with.
pub open spec fn is_review_parameter(name: Seq<char>) -> bool {
    name == "page"@ || name == "page_key"@ || name == "reviewsVariantMode"@ || name == "sort"@
}

/// The slug of the product whose reviews a path shows.
pub open spec fn review_slug(path: Seq<char>) -> Option<Seq<char>> {
    match text::without_prefix(path, "/product/"@) {
        Some(s) => text::without_suffix(s, "/reviews/"@),
        None => None,
    }
}

/// Whether a URL shows reviews of a product on the site, and nothing else.
pub open spec fn shows_reviews_only(a: AddressV) -> bool {
    &&& a.scheme == "https"@
    &&& operations::is_product_authority(a)
    &&& a.fragment is None
    &&& review_slug(a.path) matches Some(slug)
    &&& pattern::pattern_occurs(operations::slug_pattern(), slug)
    &&& forall|i: int| 0 <= i < a.pairs.len() ==> is_review_parameter((#[trigger] a.pairs[i]).0)
}

/// The place of a page of reviews on the site.
pub open spec fn safe_review_path_of(input: Seq<char>) -> Option<Seq<char>> {
    match address::joined_url("https://www.ozon.ru/"@, input) {
        Some(a) => if shows_reviews_only(a) {
            match a.query {
                Some(q) => Some(a.path + "?"@ + q),
                None => Some(a.path),
            }
        } else {
            None
        },
        None => None,
    }
}

fn only_review_parameters(pairs: &Vec<(String, String)>) -> (r: bool)
    ensures
        r == forall|i: int|
            0 <= i < address::pairs_of(pairs@).len() ==> is_review_parameter(
                (#[trigger] address::pairs_of(pairs@)[i]).0,
            ),
{
    let ghost all = address::pairs_of(pairs@);
    let mut i: usize = 0;
    while i < pairs.len()
        invariant
            0 <= i <= pairs@.len(),
            all == address::pairs_of(pairs@),
            forall|k: int| 0 <= k < i ==> is_review_parameter((#[trigger] all[k]).0),
        decreases pairs@.len() - i,
    {
        assert(all[i as int].0 == pairs@[i as int].0@);
        let name: &str = pairs[i].0.as_str();
        if !(text::same(name, "page") || text::same(name, "page_key") || text::same(
            name,
            "reviewsVariantMode",
        ) || text::same(name, "sort")) {
            return false;
        }
        i = i + 1;
    }
    true
}

/// The place of a page of reviews on the site, where a text names one and nothing else.
pub fn safe_review_path(input: &str) -> (r: Option<String>)
    ensures
        text::text_of(r) == safe_review_path_of(input@),
{
    let a: Address = match address::join_url("https://www.ozon.ru/", input) {
        Some(a) => a,
        None => return None,
    };
    let known: bool = only_review_parameters(&a.pairs);
    assert(known == (forall|i: int|
        0 <= i < a@.pairs.len() ==> is_review_parameter((#[trigger] a@.pairs[i]).0)));
    if !text::same(a.scheme.as_str(), "https") || !operations::product_authority(&a)
        || a.fragment.is_some() || !known {
        return None;
    }
    let slug: String = match text::strip_prefix(a.path.as_str(), "/product/") {
        Some(s) => match text::strip_suffix(s.as_str(), "/reviews/") {
            Some(slug) => slug,
            None => return None,
        },
        None => return None,
    };
    if !pattern::is_match(r"^[\p{L}\p{N}_-]*[0-9]$", slug.as_str()) {
        return None;
    }
    match a.query {
        Some(q) => Some(text::joined3(a.path.as_str(), "?", q.as_str())),
        None => Some(a.path),
    }
}

/// The path of the page of reviews that a request names.
pub open spec fn reviews_path_of(input: Seq<char>) -> Result<Seq<char>, FailureV> {
    if text::has(input, "/reviews/"@) {
        match safe_review_path_of(input) {
            Some(p) => Ok(p),
            None => Err(FailureV::Message("Invalid reviews path"@)),
        }
    } else {
        match product_path_of(input) {
            Ok(p) => Ok(p + "reviews/"@),
            Err(e) => Err(e),
        }
    }
}

pub fn reviews_path(input: &str) -> (r: Result<String, Failure>)
    ensures
        failure::outcome(r) == reviews_path_of(input@),
{
    if text::contains(input, "/reviews/") {
        match safe_review_path(input) {
            Some(p) => Ok(p),
            None => Err(Failure::new("Invalid reviews path")),
        }
    } else {
        match product_path(input) {
            Ok(p) => Ok(text::joined(p.as_str(), "reviews/")),
            Err(e) => Err(e),
        }
    }
}

/// The path of the page of reviews that is read for a request.
pub fn start_reviews(input: &str, limit: usize, cancelled: bool) -> (r: Result<String, Failure>)
    ensures
        failure::outcome(r) == (if !(1 <= limit <= 30) {
            Err(FailureV::Message("limit must be between 1 and 30"@))
        } else {
            match reviews_path_of(input@) {
                Err(e) => Err(e),
                Ok(p) => if cancelled {
                    Err(FailureV::Browser(BrowserErrorV::Cancelled))
                } else {
                    Ok(p)
                },
            }
        }),
{
    if !(1 <= limit && limit <= 30) {
        return Err(Failure::new("limit must be between 1 and 30"));
    }
    let path: String = match reviews_path(input) {
        Ok(p) => p,
        Err(e) => return Err(e),
    };
    match ensure_not_cancelled(cancelled) {
        Ok(_) => Ok(path),
        Err(e) => Err(e),
    }
}

/// What has been observed to work stays so, whatever is read next; only image content is
/// observed anew in another context.
pub proof fn observations_last(o: ObservationsV, observation: JsonV, raw: JsonV, listed: bool)
    ensures
        ({
            let c = context_observed(o, observation);
            let b = o.observed;
            let s = search_observed(b, raw);
            let p = product_observed(b, raw);
            let r = reviews_observed(b, listed, raw);
            &&& b.search ==> c.observed.search && s.search && p.search && r.search
            &&& b.products ==> c.observed.products && s.products && p.products && r.products
            &&& b.review_text ==> c.observed.review_text && s.review_text && p.review_text
                && r.review_text
            &&& b.region_verification ==> c.observed.region_verification && s.region_verification
                && p.region_verification && r.region_verification
            &&& b.account_observation ==> c.observed.account_observation && s.account_observation
                && p.account_observation && r.account_observation
            &&& b.image_content ==> s.image_content && p.image_content && r.image_content
            &&& b.image_content && o.context_signature == Some(signature_of(observation))
                ==> c.observed.image_content
            &&& o.context_signature is Some && o.context_signature != Some(
                signature_of(observation),
            ) ==> !c.observed.image_content
        }),
{
}

} // verus!
