//! The values that a search, a product page and a page of reviews are read into.

use crate::double::{self, Real};
use crate::json::{self, Json, JsonV, Number, NumberV};
use crate::text;
use vstd::prelude::*;

verus! {

/// How a displayed price was labelled.
#[derive(Clone, Copy, Debug, PartialEq, Eq, Structural)]
pub enum PriceType {
    OzonCard,
    Unknown,
}

impl PriceType {
    pub open spec fn code(self) -> Seq<char> {
        match self {
            PriceType::OzonCard => "ozon_card"@,
            PriceType::Unknown => "unknown"@,
        }
    }

    pub fn to_code(&self) -> (r: &'static str)
        ensures
            r@ == self.code(),
    {
        match self {
            PriceType::OzonCard => "ozon_card",
            PriceType::Unknown => "unknown",
        }
    }
}

/// What a result says about itself.
#[derive(Clone, Copy, Debug, PartialEq, Eq, Structural)]
pub enum Warning {
    SearchResultsMayChangeBetweenCalls,
    ContinuationStalled,
    UnsafePaginatorUrlIgnored,
    ContinuationLimitReached,
    PriceOutsideRequestedRange,
    SearchMetadataTruncated,
    SearchWidgetMissing,
    DescriptionFetchFailed,
    DescriptionTextEmpty,
    DescriptionEmpty,
    ProductWidgetsMissing,
    ReviewsWidgetMissing,
}

impl Warning {
    pub open spec fn code(self) -> Seq<char> {
        match self {
            Warning::SearchResultsMayChangeBetweenCalls =>
                "SEARCH_RESULTS_MAY_CHANGE_BETWEEN_CALLS"@,
            Warning::ContinuationStalled => "CONTINUATION_STALLED"@,
            Warning::UnsafePaginatorUrlIgnored => "UNSAFE_PAGINATOR_URL_IGNORED"@,
            Warning::ContinuationLimitReached => "CONTINUATION_LIMIT_REACHED"@,
            Warning::PriceOutsideRequestedRange => "PRICE_OUTSIDE_REQUESTED_RANGE"@,
            Warning::SearchMetadataTruncated => "SEARCH_METADATA_TRUNCATED"@,
            Warning::SearchWidgetMissing => "SEARCH_WIDGET_MISSING"@,
            Warning::DescriptionFetchFailed => "DESCRIPTION_FETCH_FAILED"@,
            Warning::DescriptionTextEmpty => "DESCRIPTION_TEXT_EMPTY"@,
            Warning::DescriptionEmpty => "DESCRIPTION_EMPTY"@,
            Warning::ProductWidgetsMissing => "PRODUCT_WIDGETS_MISSING"@,
            Warning::ReviewsWidgetMissing => "REVIEWS_WIDGET_MISSING"@,
        }
    }

    pub fn to_code(&self) -> (r: &'static str)
        ensures
            r@ == self.code(),
    {
        match self {
            Warning::SearchResultsMayChangeBetweenCalls =>
                "SEARCH_RESULTS_MAY_CHANGE_BETWEEN_CALLS",
            Warning::ContinuationStalled => "CONTINUATION_STALLED",
            Warning::UnsafePaginatorUrlIgnored => "UNSAFE_PAGINATOR_URL_IGNORED",
            Warning::ContinuationLimitReached => "CONTINUATION_LIMIT_REACHED",
            Warning::PriceOutsideRequestedRange => "PRICE_OUTSIDE_REQUESTED_RANGE",
            Warning::SearchMetadataTruncated => "SEARCH_METADATA_TRUNCATED",
            Warning::SearchWidgetMissing => "SEARCH_WIDGET_MISSING",
            Warning::DescriptionFetchFailed => "DESCRIPTION_FETCH_FAILED",
            Warning::DescriptionTextEmpty => "DESCRIPTION_TEXT_EMPTY",
            Warning::DescriptionEmpty => "DESCRIPTION_EMPTY",
            Warning::ProductWidgetsMissing => "PRODUCT_WIDGETS_MISSING",
            Warning::ReviewsWidgetMissing => "REVIEWS_WIDGET_MISSING",
        }
    }
}

/// The codes of a row of warnings.
pub open spec fn codes(v: Seq<Warning>) -> JsonV {
    JsonV::Array(Seq::new(v.len(), |i: int| JsonV::Text(v[i].code())))
}

pub fn warning_codes(v: &Vec<Warning>) -> (r: Json)
    ensures
        r@ == codes(v@),
{
    let mut out: Vec<Json> = Vec::new();
    let mut i: usize = 0;
    while i < v.len()
        invariant
            0 <= i <= v@.len(),
            json::values(out@) =~= Seq::new(i as nat, |k: int| JsonV::Text(v@[k].code())),
        decreases v@.len() - i,
    {
        let code: Json = Json::text(v[i].to_code());
        proof {
            json::lemma_values_push(out@, code);
        }
        out.push(code);
        i = i + 1;
    }
    assert(json::values(out@) =~= Seq::new(v@.len(), |k: int| JsonV::Text(v@[k].code())));
    Json::array(out)
}

/// Adds a warning, once.
pub open spec fn warned(v: Seq<Warning>, w: Warning) -> Seq<Warning> {
    if v.contains(w) {
        v
    } else {
        v.push(w)
    }
}

pub fn push_warning(warnings: &mut Vec<Warning>, warning: Warning)
    ensures
        final(warnings)@ == warned(old(warnings)@, warning),
{
    let mut i: usize = 0;
    while i < warnings.len()
        invariant
            0 <= i <= warnings@.len(),
            warnings@ == old(warnings)@,
            forall|k: int| 0 <= k < i ==> warnings@[k] != warning,
        decreases warnings@.len() - i,
    {
        if warnings[i] == warning {
            return;
        }
        i = i + 1;
    }
    warnings.push(warning);
}

/// Where a search was made, as far as the page shows it.
#[derive(Debug)]
pub struct SearchContext {
    pub region: Option<String>,
    pub region_verified: bool,
}

impl SearchContext {
    pub open spec fn json(self) -> JsonV {
        JsonV::object().with("region"@, JsonV::optional_text(text::text_of(self.region))).with(
            "regionVerified"@,
            JsonV::Bool(self.region_verified),
        )
    }

    pub fn to_json(&self) -> (r: Json)
        ensures
            r@ == self.json(),
    {
        Json::object().with("region", json::optional(&self.region)).with(
            "regionVerified",
            Json::Bool(self.region_verified),
        )
    }
}

/// What part of the results a search call went over.
#[derive(Debug)]
pub struct SearchCoverage {
    pub page: u64,
    pub fetched_pages_this_call: usize,
    pub parsed_items: usize,
    pub parsed_offset_start: usize,
    pub parsed_offset_end: usize,
    pub returned: usize,
    pub unique_seen: usize,
    pub calls_in_chain: usize,
}

impl SearchCoverage {
    pub open spec fn json(self) -> JsonV {
        JsonV::object().with("page"@, JsonV::unsigned(self.page)).with(
            "fetchedPagesThisCall"@,
            JsonV::unsigned(self.fetched_pages_this_call as u64),
        ).with("parsedItems"@, JsonV::unsigned(self.parsed_items as u64)).with(
            "parsedOffsetStart"@,
            JsonV::unsigned(self.parsed_offset_start as u64),
        ).with("parsedOffsetEnd"@, JsonV::unsigned(self.parsed_offset_end as u64)).with(
            "returned"@,
            JsonV::unsigned(self.returned as u64),
        ).with("uniqueSeen"@, JsonV::unsigned(self.unique_seen as u64)).with(
            "callsInChain"@,
            JsonV::unsigned(self.calls_in_chain as u64),
        )
    }

    pub fn to_json(&self) -> (r: Json)
        ensures
            r@ == self.json(),
    {
        Json::object().with("page", Json::unsigned(self.page)).with(
            "fetchedPagesThisCall",
            Json::unsigned(self.fetched_pages_this_call as u64),
        ).with("parsedItems", Json::unsigned(self.parsed_items as u64)).with(
            "parsedOffsetStart",
            Json::unsigned(self.parsed_offset_start as u64),
        ).with("parsedOffsetEnd", Json::unsigned(self.parsed_offset_end as u64)).with(
            "returned",
            Json::unsigned(self.returned as u64),
        ).with("uniqueSeen", Json::unsigned(self.unique_seen as u64)).with(
            "callsInChain",
            Json::unsigned(self.calls_in_chain as u64),
        )
    }
}

/// An order in which the results can be had.
#[derive(Debug)]
pub struct SortOption {
    pub label: Option<String>,
    pub selected: bool,
    pub search_url: Option<String>,
}

impl SortOption {
    pub open spec fn json(self) -> JsonV {
        sort_option_json(
            text::text_of(self.label),
            self.selected,
            text::text_of(self.search_url),
        )
    }

    pub fn to_json(&self) -> (r: Json)
        ensures
            r@ == self.json(),
    {
        Json::object().with("label", json::optional(&self.label)).with(
            "selected",
            Json::Bool(self.selected),
        ).with("searchUrl", json::optional(&self.search_url))
    }
}

pub open spec fn sort_option_json(
    label: Option<Seq<char>>,
    selected: bool,
    search_url: Option<Seq<char>>,
) -> JsonV {
    JsonV::object().with("label"@, JsonV::optional_text(label)).with(
        "selected"@,
        JsonV::Bool(selected),
    ).with("searchUrl"@, JsonV::optional_text(search_url))
}

/// An order shows its label, whether it is the current one, and its search.
pub proof fn orders_show_their_search(
    label: Option<Seq<char>>,
    selected: bool,
    search_url: Option<Seq<char>>,
)
    ensures
        ({
            let shown = sort_option_json(label, selected, search_url);
            &&& shown is Object
            &&& shown.field("label"@) == (JsonV::optional_text(label))
            &&& shown.field("selected"@) == (JsonV::Bool(selected))
            &&& shown.field("searchUrl"@) == (JsonV::optional_text(search_url))
        }),
{
    broadcast use json::lemma_get_with;

    reveal_strlit("label");
    reveal_strlit("selected");
    reveal_strlit("searchUrl");
    assert("label"@.len() == 5);
    assert("selected"@.len() == 8);
    assert("searchUrl"@.len() == 9);
}

/// A selected value of a filter, and the search without it.
#[derive(Debug)]
pub struct ActiveFilterValue {
    pub label: Option<String>,
    pub search_url: Option<String>,
}

pub open spec fn active_value_json(
    label: Option<Seq<char>>,
    search_url: Option<Seq<char>>,
) -> JsonV {
    JsonV::object().with("label"@, JsonV::optional_text(label)).with(
        "searchUrl"@,
        JsonV::optional_text(search_url),
    )
}

impl ActiveFilterValue {
    pub open spec fn json(self) -> JsonV {
        active_value_json(text::text_of(self.label), text::text_of(self.search_url))
    }

    pub fn to_json(&self) -> (r: Json)
        ensures
            r@ == self.json(),
    {
        Json::object().with("label", json::optional(&self.label)).with(
            "searchUrl",
            json::optional(&self.search_url),
        )
    }
}

/// A filter of which at least one value is selected.
#[derive(Debug)]
pub struct ActiveFilter {
    pub key: Option<String>,
    pub name: Option<String>,
    pub kind: Option<String>,
    pub values: Vec<ActiveFilterValue>,
}

pub open spec fn active_filter_json(
    key: Option<Seq<char>>,
    name: Option<Seq<char>>,
    kind: Option<Seq<char>>,
    values: Seq<JsonV>,
) -> JsonV {
    JsonV::object().with("key"@, JsonV::optional_text(key)).with(
        "name"@,
        JsonV::optional_text(name),
    ).with("type"@, JsonV::optional_text(kind)).with("values"@, JsonV::Array(values))
}

impl ActiveFilter {
    pub open spec fn json(self) -> JsonV {
        active_filter_json(
            text::text_of(self.key),
            text::text_of(self.name),
            text::text_of(self.kind),
            Seq::new(self.values@.len(), |i: int| self.values@[i].json()),
        )
    }

    pub fn to_json(&self) -> (r: Json)
        ensures
            r@ == self.json(),
    {
        let mut values: Vec<Json> = Vec::new();
        let mut i: usize = 0;
        while i < self.values.len()
            invariant
                0 <= i <= self.values@.len(),
                json::values(values@) =~= Seq::new(i as nat, |k: int| self.values@[k].json()),
            decreases self.values@.len() - i,
        {
            let value: Json = self.values[i].to_json();
            proof {
                json::lemma_values_push(values@, value);
            }
            values.push(value);
            i = i + 1;
        }
        assert(json::values(values@) =~= Seq::new(
            self.values@.len(),
            |k: int| self.values@[k].json(),
        ));
        Json::object().with("key", json::optional(&self.key)).with(
            "name",
            json::optional(&self.name),
        ).with("type", json::optional(&self.kind)).with("values", Json::array(values))
    }
}

/// A double, or null where there is none.
pub open spec fn real_json(r: Option<(u64, Seq<char>)>) -> JsonV {
    match r {
        Some((bits, spelling)) => JsonV::Number(NumberV::Real(bits, spelling)),
        None => JsonV::Null,
    }
}

pub fn real_value(r: &Option<Real>) -> (j: Json)
    ensures
        j@ == real_json(double::real_of(*r)),
{
    match r {
        Some(x) => Json::Number(Number::Real { bits: x.bits, spelling: x.spelling.clone() }),
        None => Json::Null,
    }
}

/// A displayed discount: a text, or a number.
#[derive(Debug)]
pub enum Discount {
    Text(String),
    Number(Number),
}

/// What a [`Discount`] holds.
pub enum DiscountV {
    Text(Seq<char>),
    Number(NumberV),
}

impl View for Discount {
    type V = DiscountV;

    open spec fn view(&self) -> DiscountV {
        match self {
            Discount::Text(s) => DiscountV::Text(s@),
            Discount::Number(n) => DiscountV::Number(n@),
        }
    }
}

pub open spec fn discount_of(d: Option<Discount>) -> Option<DiscountV> {
    match d {
        Some(v) => Some(v@),
        None => None,
    }
}

pub open spec fn discount_json(d: Option<DiscountV>) -> JsonV {
    match d {
        Some(DiscountV::Text(s)) => JsonV::Text(s),
        Some(DiscountV::Number(n)) => JsonV::Number(n),
        None => JsonV::Null,
    }
}

pub fn discount_value(d: &Option<Discount>) -> (j: Json)
    ensures
        j@ == discount_json(discount_of(*d)),
{
    match d {
        Some(Discount::Text(s)) => Json::text(s.as_str()),
        Some(Discount::Number(n)) => Json::Number(n.copy()),
        None => Json::Null,
    }
}

/// Whether a price is within a range, as JSON: nothing where that cannot be told.
pub open spec fn range_match_json(matched: Option<bool>) -> JsonV {
    match matched {
        Some(b) => JsonV::Bool(b),
        None => JsonV::Null,
    }
}

/// A product as a search page shows it.
#[derive(Debug)]
pub struct SearchItem {
    pub sku: String,
    pub name: Option<String>,
    pub price: Option<Real>,
    pub currency: String,
    pub price_type: PriceType,
    pub price_label: Option<String>,
    pub delivery_label: Option<String>,
    pub seller: Option<String>,
    pub old_price: Option<Real>,
    pub discount: Option<Discount>,
    pub rating: Option<Real>,
    pub reviews: Option<u64>,
    pub brand: Option<String>,
    pub url: Option<String>,
    pub image: Option<String>,
    /// Whether the price is within the range that was asked for, where that was looked at
    /// and where it can be told.
    pub matches_price_range: Option<Option<bool>>,
}

/// What a [`SearchItem`] holds.
pub struct SearchItemV {
    pub sku: Seq<char>,
    pub name: Option<Seq<char>>,
    pub price: Option<(u64, Seq<char>)>,
    pub currency: Seq<char>,
    pub price_type: PriceType,
    pub price_label: Option<Seq<char>>,
    pub delivery_label: Option<Seq<char>>,
    pub seller: Option<Seq<char>>,
    pub old_price: Option<(u64, Seq<char>)>,
    pub discount: Option<DiscountV>,
    pub rating: Option<(u64, Seq<char>)>,
    pub reviews: Option<u64>,
    pub brand: Option<Seq<char>>,
    pub url: Option<Seq<char>>,
    pub image: Option<Seq<char>>,
    pub matches_price_range: Option<Option<bool>>,
}

impl View for SearchItem {
    type V = SearchItemV;

    open spec fn view(&self) -> SearchItemV {
        SearchItemV {
            sku: self.sku@,
            name: text::text_of(self.name),
            price: double::real_of(self.price),
            currency: self.currency@,
            price_type: self.price_type,
            price_label: text::text_of(self.price_label),
            delivery_label: text::text_of(self.delivery_label),
            seller: text::text_of(self.seller),
            old_price: double::real_of(self.old_price),
            discount: discount_of(self.discount),
            rating: double::real_of(self.rating),
            reviews: self.reviews,
            brand: text::text_of(self.brand),
            url: text::text_of(self.url),
            image: text::text_of(self.image),
            matches_price_range: self.matches_price_range,
        }
    }
}

impl SearchItemV {
    /// The product as JSON.
    pub open spec fn json(self) -> JsonV {
        let shown = JsonV::object().with("sku"@, JsonV::Text(self.sku)).with(
            "name"@,
            JsonV::optional_text(self.name),
        ).with("price"@, real_json(self.price)).with("currency"@, JsonV::Text(self.currency)).with(
            "priceType"@,
            JsonV::Text(self.price_type.code()),
        ).with("priceLabel"@, JsonV::optional_text(self.price_label)).with(
            "deliveryLabel"@,
            JsonV::optional_text(self.delivery_label),
        ).with("seller"@, JsonV::optional_text(self.seller)).with(
            "oldPrice"@,
            real_json(self.old_price),
        ).with("discount"@, discount_json(self.discount)).with(
            "rating"@,
            real_json(self.rating),
        ).with("reviews"@, JsonV::optional_unsigned(self.reviews)).with(
            "brand"@,
            JsonV::optional_text(self.brand),
        ).with("url"@, JsonV::optional_text(self.url)).with(
            "image"@,
            JsonV::optional_text(self.image),
        );
        match self.matches_price_range {
            Some(matched) => shown.with("matchesPriceRange"@, range_match_json(matched)),
            None => shown,
        }
    }
}

impl SearchItem {
    pub fn to_json(&self) -> (r: Json)
        ensures
            r@ == self@.json(),
    {
        let shown: Json = Json::object().with("sku", Json::text(self.sku.as_str())).with(
            "name",
            json::optional(&self.name),
        ).with("price", real_value(&self.price)).with(
            "currency",
            Json::text(self.currency.as_str()),
        ).with("priceType", Json::text(self.price_type.to_code())).with(
            "priceLabel",
            json::optional(&self.price_label),
        ).with("deliveryLabel", json::optional(&self.delivery_label)).with(
            "seller",
            json::optional(&self.seller),
        ).with("oldPrice", real_value(&self.old_price)).with(
            "discount",
            discount_value(&self.discount),
        ).with("rating", real_value(&self.rating)).with(
            "reviews",
            Json::optional_unsigned(self.reviews),
        ).with("brand", json::optional(&self.brand)).with("url", json::optional(&self.url)).with(
            "image",
            json::optional(&self.image),
        );
        match self.matches_price_range {
            Some(Some(matched)) => shown.with("matchesPriceRange", Json::Bool(matched)),
            Some(None) => shown.with("matchesPriceRange", Json::Null),
            None => shown,
        }
    }
}

/// Who sells a product.
#[derive(Debug)]
pub struct Seller {
    pub name: String,
    pub rating: Option<Real>,
    pub url: Option<String>,
}

/// What a [`Seller`] holds.
pub struct SellerV {
    pub name: Seq<char>,
    pub rating: Option<(u64, Seq<char>)>,
    pub url: Option<Seq<char>>,
}

impl View for Seller {
    type V = SellerV;

    open spec fn view(&self) -> SellerV {
        SellerV {
            name: self.name@,
            rating: double::real_of(self.rating),
            url: text::text_of(self.url),
        }
    }
}

pub open spec fn seller_view(s: Option<Seller>) -> Option<SellerV> {
    match s {
        Some(v) => Some(v@),
        None => None,
    }
}

/// The description of a product.
#[derive(Debug)]
pub struct Description {
    pub text: String,
    pub images: Vec<String>,
}

/// What a [`Description`] holds.
pub struct DescriptionV {
    pub text: Seq<char>,
    pub images: Seq<Seq<char>>,
}

impl View for Description {
    type V = DescriptionV;

    open spec fn view(&self) -> DescriptionV {
        DescriptionV { text: self.text@, images: text::texts(self.images@) }
    }
}

impl Default for Description {
    fn default() -> (r: Description)
        ensures
            r@ == (DescriptionV { text: Seq::empty(), images: Seq::empty() }),
    {
        let r: Description = Description { text: String::new(), images: Vec::new() };
        assert(r@.images =~= Seq::empty());
        r
    }
}

impl Description {
    /// Whether the description says anything.
    pub fn has_text(&self) -> (r: bool)
        ensures
            r == (self@.text.len() > 0),
    {
        !self.text.as_str().is_empty()
    }
}

/// A customs duty, and the price with it.
#[derive(Debug)]
pub struct Duty {
    pub amount: Real,
    pub total: Option<Real>,
    pub note: String,
}

/// What a [`Duty`] holds.
pub struct DutyV {
    pub amount: (u64, Seq<char>),
    pub total: Option<(u64, Seq<char>)>,
    pub note: Seq<char>,
}

impl View for Duty {
    type V = DutyV;

    open spec fn view(&self) -> DutyV {
        DutyV {
            amount: (self.amount.bits, self.amount.spelling@),
            total: double::real_of(self.total),
            note: self.note@,
        }
    }
}

pub open spec fn duty_view(d: Option<Duty>) -> Option<DutyV> {
    match d {
        Some(v) => Some(v@),
        None => None,
    }
}

/// A product as its page shows it. `characteristics` is an object of texts.
#[derive(Debug)]
pub struct ProductDetails {
    pub sku: Option<String>,
    pub name: Option<String>,
    pub url: Option<String>,
    pub price: Option<Real>,
    pub price_regular: Option<Real>,
    pub old_price: Option<Real>,
    pub duty: Option<Duty>,
    pub available: Option<bool>,
    pub rating: Option<Real>,
    pub reviews: Option<u64>,
    pub seller: Option<Seller>,
    pub images: Vec<String>,
    pub characteristics: Json,
    pub description: Description,
    pub warnings: Vec<Warning>,
}

/// What [`ProductDetails`] hold.
pub struct ProductDetailsV {
    pub sku: Option<Seq<char>>,
    pub name: Option<Seq<char>>,
    pub url: Option<Seq<char>>,
    pub price: Option<(u64, Seq<char>)>,
    pub price_regular: Option<(u64, Seq<char>)>,
    pub old_price: Option<(u64, Seq<char>)>,
    pub duty: Option<DutyV>,
    pub available: Option<bool>,
    pub rating: Option<(u64, Seq<char>)>,
    pub reviews: Option<u64>,
    pub seller: Option<SellerV>,
    pub images: Seq<Seq<char>>,
    pub characteristics: JsonV,
    pub description: DescriptionV,
    pub warnings: Seq<Warning>,
}

impl View for ProductDetails {
    type V = ProductDetailsV;

    open spec fn view(&self) -> ProductDetailsV {
        ProductDetailsV {
            sku: text::text_of(self.sku),
            name: text::text_of(self.name),
            url: text::text_of(self.url),
            price: double::real_of(self.price),
            price_regular: double::real_of(self.price_regular),
            old_price: double::real_of(self.old_price),
            duty: duty_view(self.duty),
            available: self.available,
            rating: double::real_of(self.rating),
            reviews: self.reviews,
            seller: seller_view(self.seller),
            images: text::texts(self.images@),
            characteristics: self.characteristics@,
            description: self.description@,
            warnings: self.warnings@,
        }
    }
}

/// A review of a product.
#[derive(Debug)]
pub struct Review {
    pub author: Option<String>,
    pub score: Option<Real>,
    pub comment: Option<String>,
    pub pros: Option<String>,
    pub cons: Option<String>,
    pub date: Option<String>,
    pub useful: Option<u64>,
    pub purchased: Option<bool>,
    pub has_photos: Option<bool>,
}

/// What a [`Review`] holds.
pub struct ReviewV {
    pub author: Option<Seq<char>>,
    pub score: Option<(u64, Seq<char>)>,
    pub comment: Option<Seq<char>>,
    pub pros: Option<Seq<char>>,
    pub cons: Option<Seq<char>>,
    pub date: Option<Seq<char>>,
    pub useful: Option<u64>,
    pub purchased: Option<bool>,
    pub has_photos: Option<bool>,
}

impl View for Review {
    type V = ReviewV;

    open spec fn view(&self) -> ReviewV {
        ReviewV {
            author: text::text_of(self.author),
            score: double::real_of(self.score),
            comment: text::text_of(self.comment),
            pros: text::text_of(self.pros),
            cons: text::text_of(self.cons),
            date: text::text_of(self.date),
            useful: self.useful,
            purchased: self.purchased,
            has_photos: self.has_photos,
        }
    }
}

/// What a row of reviews holds.
pub open spec fn reviews_view(v: Seq<Review>) -> Seq<ReviewV> {
    Seq::new(v.len(), |i: int| v[i]@)
}

/// A page of reviews.
#[derive(Debug)]
pub struct ReviewPage {
    pub rating: Option<Real>,
    pub total_reviews: Option<u64>,
    pub count: usize,
    pub reviews: Vec<Review>,
    pub warnings: Vec<Warning>,
}

/// What a [`ReviewPage`] holds.
pub struct ReviewPageV {
    pub rating: Option<(u64, Seq<char>)>,
    pub total_reviews: Option<u64>,
    pub count: usize,
    pub reviews: Seq<ReviewV>,
    pub warnings: Seq<Warning>,
}

impl View for ReviewPage {
    type V = ReviewPageV;

    open spec fn view(&self) -> ReviewPageV {
        ReviewPageV {
            rating: double::real_of(self.rating),
            total_reviews: self.total_reviews,
            count: self.count,
            reviews: reviews_view(self.reviews@),
            warnings: self.warnings@,
        }
    }
}

/// Texts as a JSON array.
pub open spec fn texts_value(v: Seq<Seq<char>>) -> JsonV {
    JsonV::Array(Seq::new(v.len(), |i: int| JsonV::Text(v[i])))
}

fn texts_json(v: &Vec<String>) -> (r: Json)
    ensures
        r@ == texts_value(text::texts(v@)),
{
    let ghost all = text::texts(v@);
    let mut out: Vec<Json> = Vec::new();
    let mut i: usize = 0;
    while i < v.len()
        invariant
            0 <= i <= v@.len(),
            all == text::texts(v@),
            json::values(out@) =~= Seq::new(i as nat, |k: int| JsonV::Text(all[k])),
        decreases v@.len() - i,
    {
        let one: Json = Json::text(v[i].as_str());
        proof {
            json::lemma_values_push(out@, one);
        }
        out.push(one);
        i = i + 1;
    }
    assert(json::values(out@) =~= Seq::new(all.len(), |k: int| JsonV::Text(all[k])));
    Json::array(out)
}

pub open spec fn flag_json(b: Option<bool>) -> JsonV {
    match b {
        Some(v) => JsonV::Bool(v),
        None => JsonV::Null,
    }
}

fn flag_value(b: Option<bool>) -> (r: Json)
    ensures
        r@ == flag_json(b),
{
    match b {
        Some(v) => Json::Bool(v),
        None => Json::Null,
    }
}

/// An object with its warnings, where there are any.
pub open spec fn with_warnings(j: JsonV, v: Seq<Warning>) -> JsonV {
    if v.len() > 0 {
        j.with("warnings"@, codes(v))
    } else {
        j
    }
}

pub open spec fn seller_json(s: Option<SellerV>) -> JsonV {
    match s {
        Some(v) => JsonV::object().with("name"@, JsonV::Text(v.name)).with(
            "rating"@,
            real_json(v.rating),
        ).with("url"@, JsonV::optional_text(v.url)),
        None => JsonV::Null,
    }
}

fn seller_value(s: &Option<Seller>) -> (r: Json)
    ensures
        r@ == seller_json(seller_view(*s)),
{
    match s {
        Some(v) => Json::object().with("name", Json::text(v.name.as_str())).with(
            "rating",
            real_value(&v.rating),
        ).with("url", json::optional(&v.url)),
        None => Json::Null,
    }
}

pub open spec fn duty_json(d: Option<DutyV>) -> JsonV {
    match d {
        Some(v) => JsonV::object().with("amount"@, real_json(Some(v.amount))).with(
            "total"@,
            real_json(v.total),
        ).with("note"@, JsonV::Text(v.note)),
        None => JsonV::Null,
    }
}

fn duty_value(d: &Option<Duty>) -> (r: Json)
    ensures
        r@ == duty_json(duty_view(*d)),
{
    match d {
        Some(v) => {
            let amount: Option<Real> = Some(
                Real { bits: v.amount.bits, spelling: v.amount.spelling.clone() },
            );
            Json::object().with("amount", real_value(&amount)).with(
                "total",
                real_value(&v.total),
            ).with("note", Json::text(v.note.as_str()))
        },
        None => Json::Null,
    }
}

impl ProductDetailsV {
    /// The product as JSON.
    pub open spec fn json(self) -> JsonV {
        with_warnings(
            JsonV::object().with("sku"@, JsonV::optional_text(self.sku)).with(
                "name"@,
                JsonV::optional_text(self.name),
            ).with("url"@, JsonV::optional_text(self.url)).with("price"@, real_json(self.price)).with(
                "priceRegular"@,
                real_json(self.price_regular),
            ).with("oldPrice"@, real_json(self.old_price)).with("duty"@, duty_json(self.duty)).with(
                "available"@,
                flag_json(self.available),
            ).with("rating"@, real_json(self.rating)).with(
                "reviews"@,
                JsonV::optional_unsigned(self.reviews),
            ).with("seller"@, seller_json(self.seller)).with(
                "images"@,
                texts_value(self.images),
            ).with("characteristics"@, self.characteristics).with(
                "description"@,
                JsonV::object().with("text"@, JsonV::Text(self.description.text)).with(
                    "images"@,
                    texts_value(self.description.images),
                ),
            ),
            self.warnings,
        )
    }
}

impl ProductDetails {
    pub fn to_json(&self) -> (r: Json)
        ensures
            r@ == self@.json(),
    {
        let description: Json = Json::object().with(
            "text",
            Json::text(self.description.text.as_str()),
        ).with("images", texts_json(&self.description.images));
        let j: Json = Json::object().with("sku", json::optional(&self.sku)).with(
            "name",
            json::optional(&self.name),
        ).with("url", json::optional(&self.url)).with("price", real_value(&self.price)).with(
            "priceRegular",
            real_value(&self.price_regular),
        ).with("oldPrice", real_value(&self.old_price)).with("duty", duty_value(&self.duty)).with(
            "available",
            flag_value(self.available),
        ).with("rating", real_value(&self.rating)).with(
            "reviews",
            Json::optional_unsigned(self.reviews),
        ).with("seller", seller_value(&self.seller)).with("images", texts_json(&self.images)).with(
            "characteristics",
            self.characteristics.copy(),
        ).with("description", description);
        if self.warnings.len() > 0 {
            j.with("warnings", warning_codes(&self.warnings))
        } else {
            j
        }
    }
}

impl ReviewV {
    /// The review as JSON.
    pub open spec fn json(self) -> JsonV {
        JsonV::object().with("author"@, JsonV::optional_text(self.author)).with(
            "score"@,
            real_json(self.score),
        ).with("comment"@, JsonV::optional_text(self.comment)).with(
            "pros"@,
            JsonV::optional_text(self.pros),
        ).with("cons"@, JsonV::optional_text(self.cons)).with(
            "date"@,
            JsonV::optional_text(self.date),
        ).with("useful"@, JsonV::optional_unsigned(self.useful)).with(
            "purchased"@,
            flag_json(self.purchased),
        ).with("hasPhotos"@, flag_json(self.has_photos))
    }
}

impl Review {
    pub fn to_json(&self) -> (r: Json)
        ensures
            r@ == self@.json(),
    {
        Json::object().with("author", json::optional(&self.author)).with(
            "score",
            real_value(&self.score),
        ).with("comment", json::optional(&self.comment)).with(
            "pros",
            json::optional(&self.pros),
        ).with("cons", json::optional(&self.cons)).with("date", json::optional(&self.date)).with(
            "useful",
            Json::optional_unsigned(self.useful),
        ).with("purchased", flag_value(self.purchased)).with(
            "hasPhotos",
            flag_value(self.has_photos),
        )
    }
}

impl ReviewPageV {
    /// The page as JSON.
    pub open spec fn json(self) -> JsonV {
        with_warnings(
            JsonV::object().with("rating"@, real_json(self.rating)).with(
                "totalReviews"@,
                JsonV::optional_unsigned(self.total_reviews),
            ).with("count"@, JsonV::unsigned(self.count as u64)).with(
                "reviews"@,
                JsonV::Array(Seq::new(self.reviews.len(), |i: int| self.reviews[i].json())),
            ),
            self.warnings,
        )
    }
}

impl ReviewPage {
    pub fn to_json(&self) -> (r: Json)
        ensures
            r@ == self@.json(),
    {
        let ghost all = self@.reviews;
        let mut out: Vec<Json> = Vec::new();
        let mut i: usize = 0;
        while i < self.reviews.len()
            invariant
                0 <= i <= self.reviews@.len(),
                all == reviews_view(self.reviews@),
                json::values(out@) =~= Seq::new(i as nat, |k: int| all[k].json()),
            decreases self.reviews@.len() - i,
        {
            let one: Json = self.reviews[i].to_json();
            proof {
                json::lemma_values_push(out@, one);
            }
            out.push(one);
            i = i + 1;
        }
        assert(json::values(out@) =~= Seq::new(all.len(), |k: int| all[k].json()));
        let j: Json = Json::object().with("rating", real_value(&self.rating)).with(
            "totalReviews",
            Json::optional_unsigned(self.total_reviews),
        ).with("count", Json::unsigned(self.count as u64)).with("reviews", Json::array(out));
        if self.warnings.len() > 0 {
            j.with("warnings", warning_codes(&self.warnings))
        } else {
            j
        }
    }
}

} // verus!
