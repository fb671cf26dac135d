//! The three page scenarios: a search, a product and its reviews.

use crate::address::{self, Address};
use crate::failure::{self, Failure, FailureV};
use crate::json::{self, Json, JsonV};
use crate::model::{self, ProductDetails, ProductDetailsV, ReviewPage, ReviewPageV, Warning};
use crate::parse;
use crate::pattern;
use crate::search::{self, PreparedSearch, PreparedSearchV, SearchArgs, SearchArgsV};
use crate::text;
use crate::widgets;
use vstd::prelude::*;

verus! {

/// How many reviews are shown where nothing else is asked for.
pub fn reviews_limit() -> (r: usize)
    ensures
        r == 10,
{
    10
}

#[derive(Debug)]
pub struct DetailsArgs {
    pub product: String,
}

#[derive(Debug)]
pub struct ReviewsArgs {
    pub product: String,
    pub limit: usize,
}

#[derive(Debug)]
pub enum Operation {
    Search(SearchArgs),
    Details(DetailsArgs),
    Reviews(ReviewsArgs),
}

/// What an [`Operation`] holds.
pub enum OperationV {
    Search(SearchArgsV),
    Details(Seq<char>),
    Reviews(Seq<char>, usize),
}

impl View for Operation {
    type V = OperationV;

    open spec fn view(&self) -> OperationV {
        match self {
            Operation::Search(a) => OperationV::Search(a@),
            Operation::Details(a) => OperationV::Details(a.product@),
            Operation::Reviews(a) => OperationV::Reviews(a.product@, a.limit),
        }
    }
}

/// An operation whose arguments were found valid.
#[derive(Debug)]
pub struct PreparedOperation {
    pub kind: PreparedKind,
}

#[derive(Debug)]
pub enum PreparedKind {
    Search(PreparedSearch),
    Details { path: String },
    Reviews { path: String, limit: usize },
}

/// What a [`PreparedOperation`] holds.
pub enum PreparedV {
    Search(PreparedSearchV),
    Details(Seq<char>),
    Reviews(Seq<char>, usize),
}

impl View for PreparedOperation {
    type V = PreparedV;

    open spec fn view(&self) -> PreparedV {
        match self.kind {
            PreparedKind::Search(s) => PreparedV::Search(s@),
            PreparedKind::Details { path } => PreparedV::Details(path@),
            PreparedKind::Reviews { path, limit } => PreparedV::Reviews(path@, limit),
        }
    }
}

/// What `percent_encoding::percent_decode_str` and `decode_utf8` make of a text.
pub uninterp spec fn percent_decoded(input: Seq<char>) -> Option<Seq<char>>;

/// `percent_encoding::percent_decode_str` and `decode_utf8`: a function of the text.
/// Nothing where the bytes are no UTF-8. A text without a percent sign stays as it is. Each
/// escape is one byte, so the bytes of escapes that start a character make its UTF-16 code
/// units.
#[verifier::external_body]
pub(crate) fn percent_decode(input: &str) -> (r: Option<String>)
    ensures
        text::text_of(r) == percent_decoded(input@),
        !input@.contains('%') ==> text::text_of(r) == Some(input@),
        r matches Some(decoded) ==> text::utf16_len(decoded@) == text::unescaped_units(input@),
{
    let decoded = percent_encoding::percent_decode_str(input).decode_utf8().ok()?;
    Some(decoded.into_owned())
}

pub open spec fn slug_pattern() -> Seq<char> {
    r"^[\p{L}\p{N}_-]*[0-9]$"@
}

/// A character of a slug. Of those that are not ASCII, only letters and numbers stand in one,
/// and so no control characters and no white space.
pub open spec fn is_slug_char(c: char) -> bool {
    ||| text::is_ascii_letter(c)
    ||| text::is_digit(c)
    ||| c == '_'
    ||| c == '-'
    ||| c > '\u{9f}' && !text::is_white(c)
}

/// The slug of a product ends in a digit of its number.
pub open spec fn is_slug(s: Seq<char>) -> bool {
    &&& s.len() > 0
    &&& text::is_digit(s.last())
    &&& forall|i: int| 0 <= i < s.len() ==> is_slug_char(#[trigger] s[i])
}

/// The path of the page of a product.
pub open spec fn path_of_slug(slug: Seq<char>) -> Seq<char> {
    "/product/"@ + slug + "/"@
}

/// The path of the page of a product, whose slug has been held to the pattern.
pub open spec fn is_product_path(path: Seq<char>) -> bool {
    let slug = path.subrange(9, path.len() - 1);
    &&& path.len() > 10
    &&& path == path_of_slug(slug)
    &&& is_slug(slug)
    &&& pattern::pattern_occurs(slug_pattern(), slug)
}

/// Whether every percent sign is followed by two hexadecimal digits.
pub open spec fn has_whole_escapes(s: Seq<char>) -> bool {
    forall|i: int|
        0 <= i < s.len() && #[trigger] s[i] == '%' ==> {
            &&& i + 2 < s.len()
            &&& text::hex_digit(s[i + 1]) is Some
            &&& text::hex_digit(s[i + 2]) is Some
        }
}

/// What stands before the first query or fragment mark.
pub open spec fn before_marks(s: Seq<char>) -> Seq<char> {
    text::split(text::split(s, '?')[0], '#')[0]
}

/// The site that a product URL may be on.
pub open spec fn is_product_authority(a: address::AddressV) -> bool {
    &&& a.host == Some("ozon.ru"@) || a.host == Some("www.ozon.ru"@)
    &&& a.username.len() == 0
    &&& a.password is None
    &&& a.port is None
}

/// The path that a product identifier names: that of a URL, or the identifier itself.
pub open spec fn named_path(trimmed: Seq<char>) -> Result<Seq<char>, FailureV> {
    if text::starts(text::lowercase(trimmed), "http://"@) || text::starts(
        text::lowercase(trimmed),
        "https://"@,
    ) {
        match address::parsed_url(trimmed) {
            Err(e) => Err(FailureV::Message(e)),
            Ok(a) => if is_product_authority(a) {
                Ok(a.path)
            } else {
                Err(FailureV::Message("Expected an ozon.ru product URL"@))
            },
        }
    } else {
        Ok(before_marks(trimmed))
    }
}

/// A path without its product prefix and the slashes behind it.
pub open spec fn bare_slug(path: Seq<char>) -> Seq<char> {
    text::without_slashes(
        match text::without_prefix(path, "/product/"@) {
            Some(s) => s,
            None => path,
        },
    )
}

/// A slug without the name of one of its subpages.
pub open spec fn main_slug(slug: Seq<char>) -> Seq<char> {
    match text::without_suffix(slug, "/reviews"@) {
        Some(s) => s,
        None => match text::without_suffix(slug, "/questions"@) {
            Some(s) => s,
            None => slug,
        },
    }
}

/// The path of the product page that an identifier names.
pub open spec fn product_path_of(product: Seq<char>) -> Result<Seq<char>, FailureV> {
    if text::trimmed(product).len() == 0 || text::utf16_len(product) > 2000 {
        Err(FailureV::Message("Invalid product: expected Ozon product URL, SKU or slug"@))
    } else {
        match named_path(text::trimmed(product)) {
            Err(e) => Err(e),
            Ok(path) => if !has_whole_escapes(path) {
                Err(FailureV::Message("Invalid URL encoding"@))
            } else {
                match percent_decoded(path) {
                    None => Err(FailureV::Message("Invalid URL encoding"@)),
                    Some(decoded) => {
                        let slug = main_slug(bare_slug(decoded));
                        if pattern::pattern_occurs(slug_pattern(), slug) {
                            Ok(path_of_slug(slug))
                        } else {
                            Err(FailureV::Message("Invalid product SKU or slug"@))
                        }
                    },
                }
            },
        }
    }
}

pub(crate) fn cut_marks(s: &str) -> (r: String)
    ensures
        r@ == before_marks(s@),
{
    let pieces: Vec<String> = text::split_at_char(s, '?');
    assert(text::texts(pieces@)[0] == pieces@[0]@);
    let parts: Vec<String> = text::split_at_char(pieces[0].as_str(), '#');
    assert(text::texts(parts@)[0] == parts@[0]@);
    parts[0].clone()
}

pub(crate) fn product_authority(a: &Address) -> (r: bool)
    ensures
        r == is_product_authority(a@),
{
    (match &a.host {
        Some(h) => text::same(h.as_str(), "ozon.ru") || text::same(h.as_str(), "www.ozon.ru"),
        None => false,
    }) && a.username.as_str().is_empty() && a.password.is_none() && a.port.is_none()
}

pub(crate) fn take_slug(path: &str) -> (r: String)
    ensures
        r@ == bare_slug(path@),
{
    let v: Vec<char> = match text::strip_prefix(path, "/product/") {
        Some(s) => text::trim_slashes(s.as_str()),
        None => text::trim_slashes(path),
    };
    text::string_of(v.as_slice())
}

fn whole_escapes(s: &str) -> (r: bool)
    ensures
        r == has_whole_escapes(s@),
{
    let v: Vec<char> = text::chars_of(s);
    let end: usize = v.len();
    let mut i: usize = 0;
    while i < end
        invariant
            0 <= i <= end == v@.len(),
            v@ == s@,
            forall|k: int|
                0 <= k < i && #[trigger] s@[k] == '%' ==> {
                    &&& k + 2 < s@.len()
                    &&& text::hex_digit(s@[k + 1]) is Some
                    &&& text::hex_digit(s@[k + 2]) is Some
                },
        decreases v@.len() - i,
    {
        if v[i] == '%' {
            assert(s@[i as int] == '%');
            if end - i <= 2 || text::hex_value(v[i + 1]).is_none() || text::hex_value(
                v[i + 2],
            ).is_none() {
                return false;
            }
        }
        i = i + 1;
    }
    true
}

/// The path of a product page is made of its slug alone.
pub proof fn lemma_path_of_slug(slug: Seq<char>)
    requires
        is_slug(slug),
        pattern::pattern_occurs(slug_pattern(), slug),
    ensures
        is_product_path(path_of_slug(slug)),
{
    reveal_strlit("/product/");
    reveal_strlit("/");
    let path = path_of_slug(slug);
    assert(path.subrange(9, path.len() - 1) =~= slug);
}

/// A product path is trimmed, is no URL, and holds neither marks nor escapes.
pub proof fn lemma_product_path_is_bare(path: Seq<char>)
    requires
        is_product_path(path),
    ensures
        text::trimmed(path) == path,
        path[0] == '/',
        !text::starts(text::lowercase(path), "http://"@),
        !text::starts(text::lowercase(path), "https://"@),
        before_marks(path) == path,
        !path.contains('%'),
        bare_slug(path) == path.subrange(9, path.len() - 1),
        forall|i: int| 9 <= i < path.len() - 1 ==> is_slug_char(#[trigger] path[i]),
{
    reveal_strlit("/product/");
    reveal_strlit("/");
    let slug = path.subrange(9, path.len() - 1);
    assert forall|i: int| 9 <= i < path.len() - 1 implies is_slug_char(#[trigger] path[i]) by {
        assert(slug[i - 9] == path[i]);
    }
    assert(path[0] == '/' && path.last() == '/');
    assert forall|c: char| c == '?' || c == '#' || c == '%' implies !#[trigger] path.contains(
        c,
    ) by {
        assert forall|i: int| 0 <= i < path.len() implies path[i] != c by {
            if 9 <= i < path.len() - 1 {
                assert(is_slug_char(path[i]));
            }
        }
    }
    assert(!path.contains('?') && !path.contains('#') && !path.contains('%'));
    text::lemma_split_nothing(path, '?');
    text::lemma_split_nothing(path, '#');
    assert(text::starts(path, "/product/"@)) by {
        assert(path.subrange(0, 9) =~= "/product/"@);
    }
    let rest = path.subrange(9, path.len() as int);
    assert(rest.last() == '/');
    assert(rest.drop_last() =~= slug);
    assert(text::without_slashes(slug) == slug);
    reveal_strlit("http://");
    reveal_strlit("https://");
    assert(text::lowercase(path)[0] == '/');
    assert(!text::starts(text::lowercase(path), "http://"@)) by {
        let head = text::lowercase(path).subrange(0, 7);
        if head == "http://"@ {
            assert(head[0] == 'h');
        }
    }
    assert(!text::starts(text::lowercase(path), "https://"@)) by {
        let head = text::lowercase(path).subrange(0, 8);
        if head == "https://"@ {
            assert(head[0] == 'h');
        }
    }
}

/// Reading a product path as a product gives the path back.
proof fn lemma_product_paths_stay(path: Seq<char>)
    requires
        is_product_path(path),
        text::utf16_len(path) <= 2000,
        percent_decoded(path) == Some(path),
    ensures
        product_path_of(path) == Ok::<Seq<char>, FailureV>(path),
{
    lemma_product_path_is_bare(path);
    reveal_strlit("/reviews");
    reveal_strlit("/questions");
    let slug = path.subrange(9, path.len() - 1);
    assert(has_whole_escapes(path)) by {
        assert forall|i: int| 0 <= i < path.len() implies #[trigger] path[i] != '%' by {
            assert(path.contains(path[i]));
        }
    }
    lemma_slug_ends(slug, "/reviews"@);
    lemma_slug_ends(slug, "/questions"@);
}

/// No subpage stands behind a slug.
pub proof fn lemma_slug_ends(slug: Seq<char>, suffix: Seq<char>)
    requires
        is_slug(slug),
        suffix.len() > 0,
        suffix[0] == '/',
    ensures
        text::without_suffix(slug, suffix) is None,
{
    if text::ends(slug, suffix) {
        let at = slug.len() - suffix.len();
        assert(slug.subrange(at, at + suffix.len())[0] == slug[at]);
        assert(is_slug_char(slug[at]));
    }
}

/// The slug in a path has no more units than the path.
proof fn lemma_slug_units(path: Seq<char>)
    ensures
        text::utf16_len(main_slug(bare_slug(path))) <= text::utf16_len(path),
{
    let behind = match text::without_prefix(path, "/product/"@) {
        Some(s) => s,
        None => path,
    };
    if text::starts(path, "/product/"@) {
        text::lemma_utf16_part(path, "/product/"@.len() as int, path.len() as int);
    }
    text::lemma_utf16_without_slashes(behind);
    let slug = bare_slug(path);
    if text::ends(slug, "/reviews"@) {
        text::lemma_utf16_part(slug, 0, slug.len() - "/reviews"@.len());
    } else if text::ends(slug, "/questions"@) {
        text::lemma_utf16_part(slug, 0, slug.len() - "/questions"@.len());
    }
}

/// A path has ten units more than its slug.
proof fn lemma_path_units(slug: Seq<char>)
    ensures
        text::utf16_len(path_of_slug(slug)) == text::utf16_len(slug) + 10,
{
    reveal_strlit("/product/");
    reveal_strlit("/");
    text::lemma_utf16_sum("/product/"@, slug);
    text::lemma_utf16_sum("/product/"@ + slug, "/"@);
    assert(text::utf16_len("/product/"@) == 9 && text::utf16_len("/"@) == 1) by {
        reveal_with_fuel(text::utf16_len, 10);
        assert("/product/"@ =~= seq!['/', 'p', 'r', 'o', 'd', 'u', 'c', 't', '/']);
        assert("/"@ =~= seq!['/']);
    }
}

/// The path of the product page that an identifier names. It has at most ten units more than
/// the identifier. Such a path names itself, unless it is too long to be taken as an
/// identifier.
pub fn product_path(product: &str) -> (r: Result<String, Failure>)
    ensures
        failure::outcome(r) == product_path_of(product@),
        r matches Ok(path) ==> is_product_path(path@),
        r matches Ok(path) ==> text::utf16_len(path@) <= text::utf16_len(product@) + 10,
        is_product_path(product@) && text::utf16_len(product@) <= 2000 ==> failure::outcome(r)
            == Ok::<Seq<char>, FailureV>(product@),
{
    proof {
        if is_product_path(product@) {
            lemma_product_path_is_bare(product@);
        }
    }
    let trimmed: String = text::trim(product);
    if trimmed.as_str().is_empty() || !text::utf16_at_most(product, 2000) {
        return Err(Failure::new("Invalid product: expected Ozon product URL, SKU or slug"));
    }
    let lower: String = text::to_ascii_lowercase(trimmed.as_str());
    let path: String = if text::starts_with(lower.as_str(), "http://") || text::starts_with(
        lower.as_str(),
        "https://",
    ) {
        let url: Address = match address::parse_url(trimmed.as_str()) {
            Ok(a) => a,
            Err(e) => return Err(Failure::Message(e)),
        };
        if !product_authority(&url) {
            return Err(Failure::new("Expected an ozon.ru product URL"));
        }
        url.path
    } else {
        cut_marks(trimmed.as_str())
    };
    proof {
        text::lemma_utf16_trimmed(product@);
        text::lemma_utf16_first_piece(trimmed@, '?');
        text::lemma_utf16_first_piece(text::split(trimmed@, '?')[0], '#');
        text::lemma_unescaped_units(path@);
        assert(text::unescaped_units(path@) <= text::utf16_len(product@));
    }
    if !whole_escapes(path.as_str()) {
        return Err(Failure::new("Invalid URL encoding"));
    }
    let decoded: String = match percent_decode(path.as_str()) {
        Some(s) => s,
        None => return Err(Failure::new("Invalid URL encoding")),
    };
    proof {
        if is_product_path(product@) && text::utf16_len(product@) <= 2000 {
            lemma_product_paths_stay(product@);
        }
    }
    let slug: String = take_slug(decoded.as_str());
    let slug: String = match text::strip_suffix(slug.as_str(), "/reviews") {
        Some(s) => s,
        None => match text::strip_suffix(slug.as_str(), "/questions") {
            Some(s) => s,
            None => slug,
        },
    };
    if !pattern::is_match(r"^[\p{L}\p{N}_-]*[0-9]$", slug.as_str()) {
        return Err(Failure::new("Invalid product SKU or slug"));
    }
    proof {
        lemma_path_of_slug(slug@);
        lemma_slug_units(decoded@);
        lemma_path_units(slug@);
    }
    Ok(text::joined3("/product/", slug.as_str(), "/"))
}

/// The operation that valid arguments ask for.
pub open spec fn prepared_operation(op: OperationV) -> Result<PreparedV, FailureV> {
    match op {
        OperationV::Search(args) => match search::prepared(args) {
            Ok(request) => Ok(PreparedV::Search(PreparedSearchV { args, request })),
            Err(e) => Err(e),
        },
        OperationV::Details(product) => match product_path_of(product) {
            Ok(path) => Ok(PreparedV::Details(path)),
            Err(e) => Err(e),
        },
        OperationV::Reviews(product, limit) => if !(1 <= limit <= 30) {
            Err(FailureV::Message("limit must be between 1 and 30"@))
        } else {
            match product_path_of(product) {
                Ok(path) => Ok(PreparedV::Reviews(path + "reviews/"@, limit)),
                Err(e) => Err(e),
            }
        },
    }
}

/// What holds of every prepared operation.
pub open spec fn is_ready(p: PreparedV) -> bool {
    p matches PreparedV::Search(s) ==> s.request.valid()
}

impl Operation {
    /// Holds the arguments to their rules, before any page is fetched.
    pub fn prepare(self) -> (r: Result<PreparedOperation, Failure>)
        ensures
            failure::outcome(r) == prepared_operation(self@),
            r matches Ok(p) ==> is_ready(p@),
    {
        match self {
            Operation::Search(args) => match PreparedSearch::prepare(args) {
                Ok(s) => Ok(PreparedOperation { kind: PreparedKind::Search(s) }),
                Err(e) => Err(e),
            },
            Operation::Details(args) => match product_path(args.product.as_str()) {
                Ok(path) => Ok(PreparedOperation { kind: PreparedKind::Details { path } }),
                Err(e) => Err(e),
            },
            Operation::Reviews(args) => {
                if !(1 <= args.limit && args.limit <= 30) {
                    return Err(Failure::new("limit must be between 1 and 30"));
                }
                match product_path(args.product.as_str()) {
                    Ok(path) => Ok(
                        PreparedOperation {
                            kind: PreparedKind::Reviews {
                                path: text::joined(path.as_str(), "reviews/"),
                                limit: args.limit,
                            },
                        },
                    ),
                    Err(e) => Err(e),
                }
            },
        }
    }
}

/// What an operation returns.
#[derive(Debug)]
pub enum OperationResult {
    Search(Json),
    Details(ProductDetails),
    Reviews(ReviewPage),
}

/// What an [`OperationResult`] holds.
pub enum OperationResultV {
    Search(JsonV),
    Details(ProductDetailsV),
    Reviews(ReviewPageV),
}

impl View for OperationResult {
    type V = OperationResultV;

    open spec fn view(&self) -> OperationResultV {
        match self {
            OperationResult::Search(j) => OperationResultV::Search(j@),
            OperationResult::Details(d) => OperationResultV::Details(d@),
            OperationResult::Reviews(p) => OperationResultV::Reviews(p@),
        }
    }
}

/// Whether a product page shows its heading and its price.
pub open spec fn shows_product(page: JsonV) -> bool {
    &&& widgets::first_with(
        widgets::states_of(page, "webProductHeading"@),
        seq!["title"@],
        0,
    ) is Some
    &&& widgets::first_with(
        widgets::states_of(page, "webPrice"@),
        seq!["cardPrice"@, "price"@, "originalPrice"@, "isAvailable"@],
        0,
    ) is Some
}

pub fn product_is_shown(page: &Json) -> (r: bool)
    ensures
        r == shows_product(page@),
{
    let heading: [&str; 1] = ["title"];
    assert(widgets::slices(heading@) =~= seq!["title"@]);
    let price: [&str; 4] = ["cardPrice", "price", "originalPrice", "isAvailable"];
    assert(widgets::slices(price@) =~= seq![
        "cardPrice"@,
        "price"@,
        "originalPrice"@,
        "isAvailable"@,
    ]);
    widgets::first_having(page, "webProductHeading", &heading).is_some() && widgets::first_having(
        page,
        "webPrice",
        &price,
    ).is_some()
}

/// The warning on an empty description.
pub open spec fn description_warning(d: model::DescriptionV) -> Option<Warning> {
    if d.text.len() > 0 {
        None
    } else if d.images.len() == 0 {
        Some(Warning::DescriptionEmpty)
    } else {
        Some(Warning::DescriptionTextEmpty)
    }
}

/// Warnings with one more, where there is one.
pub open spec fn warned_of(v: Seq<Warning>, w: Option<Warning>) -> Seq<Warning> {
    match w {
        Some(w) => model::warned(v, w),
        None => v,
    }
}

/// A product with its warnings.
pub open spec fn finished_details(
    base: JsonV,
    secondary: Option<JsonV>,
    secondary_failed: bool,
) -> ProductDetailsV {
    let d = parse::details_of(base, secondary);
    let w = warned_of(
        d.warnings,
        if secondary_failed {
            Some(Warning::DescriptionFetchFailed)
        } else {
            None
        },
    );
    let w = warned_of(w, description_warning(d.description));
    let w = warned_of(
        w,
        if shows_product(base) {
            None
        } else {
            Some(Warning::ProductWidgetsMissing)
        },
    );
    ProductDetailsV { warnings: w, ..d }
}

/// A product with its warnings.
pub fn finish_details(base: &Json, secondary: Option<&Json>, secondary_failed: bool) -> (r:
    ProductDetails)
    ensures
        r@ == finished_details(base@, json::view_of(secondary), secondary_failed),
{
    let mut d: ProductDetails = parse::parse_details(base, secondary);
    if secondary_failed {
        model::push_warning(&mut d.warnings, Warning::DescriptionFetchFailed);
    }
    if !d.description.has_text() {
        assert(d@.description.images.len() == d.description.images@.len());
        if d.description.images.len() == 0 {
            model::push_warning(&mut d.warnings, Warning::DescriptionEmpty);
        } else {
            model::push_warning(&mut d.warnings, Warning::DescriptionTextEmpty);
        }
    }
    if !product_is_shown(base) {
        model::push_warning(&mut d.warnings, Warning::ProductWidgetsMissing);
    }
    d
}

/// Whether a page lists reviews.
pub open spec fn shows_reviews(page: JsonV) -> bool {
    widgets::first_with_array(
        widgets::states_of(page, "webListReviews"@),
        seq!["reviews"@, "items"@],
        0,
    ) is Some
}

pub fn reviews_are_shown(page: &Json) -> (r: bool)
    ensures
        r == shows_reviews(page@),
{
    let keys: [&str; 2] = ["reviews", "items"];
    assert(widgets::slices(keys@) =~= seq!["reviews"@, "items"@]);
    widgets::first_having_array(page, "webListReviews", &keys).is_some()
}

/// A page of reviews with its warning.
pub open spec fn finished_reviews(page: JsonV, limit: usize) -> ReviewPageV {
    let r = parse::review_page_of(page, limit);
    ReviewPageV {
        warnings: warned_of(
            r.warnings,
            if shows_reviews(page) {
                None
            } else {
                Some(Warning::ReviewsWidgetMissing)
            },
        ),
        ..r
    }
}

pub fn finish_reviews(page: &Json, limit: usize) -> (r: ReviewPage)
    ensures
        r@ == finished_reviews(page@, limit),
{
    let mut r: ReviewPage = parse::parse_reviews(page, limit);
    if !reviews_are_shown(page) {
        model::push_warning(&mut r.warnings, Warning::ReviewsWidgetMissing);
    }
    r
}

/// What a fetch brought.
#[derive(Debug)]
pub enum Fetched {
    Page(Json),
    Failed(Failure),
}

/// What a [`Fetched`] holds.
pub enum FetchedV {
    Page(JsonV),
    Failed(FailureV),
}

impl View for Fetched {
    type V = FetchedV;

    open spec fn view(&self) -> FetchedV {
        match self {
            Fetched::Page(j) => FetchedV::Page(j@),
            Fetched::Failed(e) => FetchedV::Failed(e@),
        }
    }
}

/// An operation under way. A product whose page shows no description is fetched in two
/// halves: `base` is the first of them.
#[derive(Debug)]
pub struct Scenario {
    pub operation: PreparedOperation,
    pub base: Option<Json>,
}

/// What a [`Scenario`] holds.
pub struct ScenarioV {
    pub operation: PreparedV,
    pub base: Option<JsonV>,
}

impl View for Scenario {
    type V = ScenarioV;

    open spec fn view(&self) -> ScenarioV {
        ScenarioV { operation: self.operation@, base: json::read_of(self.base) }
    }
}

/// What is to be done next: fetch a page, or answer.
#[derive(Debug)]
pub enum Step {
    Fetch(Scenario),
    Done(OperationResult),
    Failed(Failure),
}

/// What a [`Step`] holds.
pub enum StepV {
    Fetch(ScenarioV),
    Done(OperationResultV),
    Failed(FailureV),
}

impl View for Step {
    type V = StepV;

    open spec fn view(&self) -> StepV {
        match self {
            Step::Fetch(s) => StepV::Fetch(s@),
            Step::Done(r) => StepV::Done(r@),
            Step::Failed(e) => StepV::Failed(e@),
        }
    }
}

pub open spec fn cancelled_step() -> StepV {
    StepV::Failed(FailureV::Message("Request cancelled"@))
}

impl ScenarioV {
    /// The path of the page that is fetched next.
    pub open spec fn path(self) -> Seq<char> {
        match self.operation {
            PreparedV::Search(s) => search::below_site(s.request.url),
            PreparedV::Details(path) => if self.base is Some {
                path + "?layout_container=pdpPage2column&layout_page_index=2"@
            } else {
                path
            },
            PreparedV::Reviews(path, _) => path,
        }
    }

    /// What is done with the first page.
    pub open spec fn on_first(self, page: JsonV) -> StepV {
        match self.operation {
            PreparedV::Search(s) => match search::finished(
                page,
                search::page_items(page),
                s.args,
                s.request,
            ) {
                Ok(j) => StepV::Done(OperationResultV::Search(j)),
                Err(e) => StepV::Failed(e),
            },
            PreparedV::Details(path) => if parse::description_of(page).text.len() > 0 {
                StepV::Done(OperationResultV::Details(finished_details(page, None, false)))
            } else {
                StepV::Fetch(ScenarioV { base: Some(page), ..self })
            },
            PreparedV::Reviews(_, limit) => StepV::Done(
                OperationResultV::Reviews(finished_reviews(page, limit)),
            ),
        }
    }

    /// What is done with what a fetch brought.
    pub open spec fn after(self, fetched: FetchedV, cancelled: bool) -> StepV {
        match (self.base, fetched) {
            (None, FetchedV::Failed(e)) => StepV::Failed(e),
            (None, FetchedV::Page(page)) => if cancelled {
                cancelled_step()
            } else {
                self.on_first(page)
            },
            (Some(_), FetchedV::Failed(e)) => if cancelled {
                StepV::Failed(e)
            } else {
                StepV::Done(OperationResultV::Details(finished_details(self.base->Some_0, None, true)))
            },
            (Some(base), FetchedV::Page(page)) => if cancelled {
                cancelled_step()
            } else {
                StepV::Done(OperationResultV::Details(finished_details(base, Some(page), false)))
            },
        }
    }
}

impl PreparedOperation {
    /// Starts an operation, unless it was cancelled.
    pub fn start(self, cancelled: bool) -> (r: Step)
        ensures
            r@ == (if cancelled {
                cancelled_step()
            } else {
                StepV::Fetch(ScenarioV { operation: self@, base: None })
            }),
    {
        if cancelled {
            return Step::Failed(Failure::new("Request cancelled"));
        }
        Step::Fetch(Scenario { operation: self, base: None })
    }
}

impl Scenario {
    /// The path of the page that is fetched next.
    pub fn path(&self) -> (r: String)
        ensures
            r@ == self@.path(),
    {
        match &self.operation.kind {
            PreparedKind::Search(s) => s.request.path(),
            PreparedKind::Details { path } => if self.base.is_some() {
                text::joined(
                    path.as_str(),
                    "?layout_container=pdpPage2column&layout_page_index=2",
                )
            } else {
                path.clone()
            },
            PreparedKind::Reviews { path, .. } => path.clone(),
        }
    }

    /// What is done with what a fetch brought. Only a failed second half of a product page
    /// leaves a result, with a warning.
    pub fn advance(self, fetched: Fetched, cancelled: bool) -> (r: Step)
        requires
            is_ready(self@.operation),
        ensures
            r@ == self@.after(fetched@, cancelled),
            r@ matches StepV::Fetch(s) ==> is_ready(s.operation),
    {
        match &self.base {
            Some(base) => match fetched {
                Fetched::Failed(e) => if cancelled {
                    Step::Failed(e)
                } else {
                    Step::Done(OperationResult::Details(finish_details(base, None, true)))
                },
                Fetched::Page(page) => if cancelled {
                    Step::Failed(Failure::new("Request cancelled"))
                } else {
                    Step::Done(OperationResult::Details(finish_details(base, Some(&page), false)))
                },
            },
            None => match fetched {
                Fetched::Failed(e) => Step::Failed(e),
                Fetched::Page(page) => {
                    if cancelled {
                        return Step::Failed(Failure::new("Request cancelled"));
                    }
                    self.take_first(page)
                },
            },
        }
    }

    fn take_first(self, page: Json) -> (r: Step)
        requires
            is_ready(self@.operation),
            self@.base is None,
        ensures
            r@ == self@.on_first(page@),
            r@ matches StepV::Fetch(s) ==> is_ready(s.operation),
    {
        match self.operation.kind {
            PreparedKind::Search(s) => match search::finish(&page, &s.args, s.request) {
                Ok(j) => Step::Done(OperationResult::Search(j)),
                Err(e) => Step::Failed(e),
            },
            PreparedKind::Details { path } => if parse::parse_description(&page).has_text() {
                Step::Done(OperationResult::Details(finish_details(&page, None, false)))
            } else {
                Step::Fetch(
                    Scenario {
                        operation: PreparedOperation { kind: PreparedKind::Details { path } },
                        base: Some(page),
                    },
                )
            },
            PreparedKind::Reviews { path, limit } => Step::Done(
                OperationResult::Reviews(finish_reviews(&page, limit)),
            ),
        }
    }
}

} // verus!
