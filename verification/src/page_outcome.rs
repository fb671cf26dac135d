//! What the page script hands back: a filtered page, an error or an HTTP status.
//!
//! An outcome is an object with exactly its own members; an array stands for an object
//! whose members it lists in order. Anything else is refused.

use crate::json::{self, Json, JsonV};
use crate::text;
use crate::widgets;
use vstd::prelude::*;

verus! {

#[derive(Debug)]
pub enum PageOutcome {
    Page(PageSuccess),
    Error(PageFailure),
    Status(PageStatus),
}

#[derive(Debug)]
pub struct PageSuccess {
    pub page: FilteredPage,
}

#[derive(Clone, Copy, Debug, PartialEq, Eq, Structural)]
pub struct PageFailure {
    pub error: PageError,
}

#[derive(Clone, Copy, Debug, PartialEq, Eq, Structural)]
pub struct PageStatus {
    pub status: u64,
}

/// The part of a page that the library reads. `widget_states` is an object.
#[derive(Debug)]
pub struct FilteredPage {
    pub widget_states: Json,
    pub seo: Option<Seo>,
    pub layout_tracking_info: Option<LayoutTrackingInfo>,
    pub context_observation: Option<ContextObservation>,
    pub region_probe: Option<RegionProbe>,
    pub navigation_probe: Option<NavigationProbe>,
}

/// What the header of a page shows of the account and the region.
#[derive(Debug)]
pub struct ContextObservation {
    pub region_label: Option<String>,
    pub region_verified: bool,
    pub region_source_url: Option<String>,
    pub account_state: String,
    pub access_state: String,
    pub signature: Option<String>,
}

/// What a page shows of the saved addresses.
#[derive(Debug)]
pub struct RegionProbe {
    pub address_book_modal_available: bool,
    pub selected_region_label: Option<String>,
}

/// Whether a navigation ended where it was meant to, and its HTTP status.
#[derive(Clone, Copy, Debug)]
pub struct NavigationProbe {
    pub route_valid: bool,
    pub status: Option<u64>,
}

#[derive(Debug)]
pub struct Seo {
    pub title: Option<String>,
    pub link: Vec<SeoLink>,
}

#[derive(Debug)]
pub struct SeoLink {
    pub href: String,
}

#[derive(Debug)]
pub struct LayoutTrackingInfo {
    pub sku: Json,
}

#[derive(Clone, Copy, Debug, PartialEq, Eq, Structural)]
pub enum PageError {
    CaptchaOrBlocked,
    FetchFailed,
    FetchTimeout,
    InvalidOptions,
    InvalidOrigin,
    InvalidResponse,
    ResponseTooLarge,
}

/// What [`Seo`] holds.
pub struct SeoV {
    pub title: Option<Seq<char>>,
    pub link: Seq<Seq<char>>,
}

/// What a [`ContextObservation`] holds.
pub struct ContextObservationV {
    pub region_label: Option<Seq<char>>,
    pub region_verified: bool,
    pub region_source_url: Option<Seq<char>>,
    pub account_state: Seq<char>,
    pub access_state: Seq<char>,
    pub signature: Option<Seq<char>>,
}

/// What a [`RegionProbe`] holds.
pub struct RegionProbeV {
    pub address_book_modal_available: bool,
    pub selected_region_label: Option<Seq<char>>,
}

/// What a [`FilteredPage`] holds.
pub struct FilteredPageV {
    pub widget_states: JsonV,
    pub seo: Option<SeoV>,
    pub sku: Option<JsonV>,
    pub context_observation: Option<ContextObservationV>,
    pub region_probe: Option<RegionProbeV>,
    pub navigation_probe: Option<NavigationProbe>,
}

impl View for ContextObservation {
    type V = ContextObservationV;

    open spec fn view(&self) -> ContextObservationV {
        ContextObservationV {
            region_label: text::text_of(self.region_label),
            region_verified: self.region_verified,
            region_source_url: text::text_of(self.region_source_url),
            account_state: self.account_state@,
            access_state: self.access_state@,
            signature: text::text_of(self.signature),
        }
    }
}

impl View for RegionProbe {
    type V = RegionProbeV;

    open spec fn view(&self) -> RegionProbeV {
        RegionProbeV {
            address_book_modal_available: self.address_book_modal_available,
            selected_region_label: text::text_of(self.selected_region_label),
        }
    }
}

pub open spec fn context_view(o: Option<ContextObservation>) -> Option<ContextObservationV> {
    match o {
        Some(c) => Some(c@),
        None => None,
    }
}

pub open spec fn region_view(o: Option<RegionProbe>) -> Option<RegionProbeV> {
    match o {
        Some(p) => Some(p@),
        None => None,
    }
}

/// What a [`PageOutcome`] holds.
pub enum PageOutcomeV {
    Page(FilteredPageV),
    Error(PageError),
    Status(u64),
}

impl View for Seo {
    type V = SeoV;

    open spec fn view(&self) -> SeoV {
        SeoV {
            title: text::text_of(self.title),
            link: Seq::new(self.link@.len(), |i: int| self.link@[i].href@),
        }
    }
}

impl View for FilteredPage {
    type V = FilteredPageV;

    open spec fn view(&self) -> FilteredPageV {
        FilteredPageV {
            widget_states: self.widget_states@,
            seo: match self.seo {
                Some(s) => Some(s@),
                None => None,
            },
            sku: match self.layout_tracking_info {
                Some(t) => Some(t.sku@),
                None => None,
            },
            context_observation: context_view(self.context_observation),
            region_probe: region_view(self.region_probe),
            navigation_probe: self.navigation_probe,
        }
    }
}

impl View for PageOutcome {
    type V = PageOutcomeV;

    open spec fn view(&self) -> PageOutcomeV {
        match self {
            PageOutcome::Page(p) => PageOutcomeV::Page(p.page@),
            PageOutcome::Error(e) => PageOutcomeV::Error(e.error),
            PageOutcome::Status(s) => PageOutcomeV::Status(s.status),
        }
    }
}

/// The value of the only member that an object may have, or of an array of one element.
pub open spec fn single(j: JsonV, key: Seq<char>) -> Option<JsonV> {
    match j {
        JsonV::Object(m) => if m.len() == 1 && m[0].0 == key {
            Some(m[0].1)
        } else {
            None
        },
        JsonV::Array(v) => if v.len() == 1 {
            Some(v[0])
        } else {
            None
        },
        _ => None,
    }
}

fn single_member<'a>(j: &'a Json, key: &str) -> (r: Option<&'a Json>)
    ensures
        json::view_of(r) == single(j@, key@),
{
    if let Some(m) = j.as_object() {
        assert(json::members(m@).len() == m@.len());
        if m.len() == 1 {
            assert(json::members(m@)[0] == (m@[0].0@, m@[0].1@));
            if text::same(m[0].0.as_str(), key) {
                return Some(&m[0].1);
            }
        }
        return None;
    }
    if let Some(v) = j.as_array() {
        assert(json::values(v@).len() == v@.len());
        if v.len() == 1 {
            assert(json::values(v@)[0] == v@[0]@);
            return Some(&v[0]);
        }
    }
    None
}

pub open spec fn error_named(name: Seq<char>) -> Option<PageError> {
    if name == "CAPTCHA_OR_BLOCKED"@ {
        Some(PageError::CaptchaOrBlocked)
    } else if name == "FETCH_FAILED"@ {
        Some(PageError::FetchFailed)
    } else if name == "FETCH_TIMEOUT"@ {
        Some(PageError::FetchTimeout)
    } else if name == "INVALID_OPTIONS"@ {
        Some(PageError::InvalidOptions)
    } else if name == "INVALID_ORIGIN"@ {
        Some(PageError::InvalidOrigin)
    } else if name == "INVALID_RESPONSE"@ {
        Some(PageError::InvalidResponse)
    } else if name == "RESPONSE_TOO_LARGE"@ {
        Some(PageError::ResponseTooLarge)
    } else {
        None
    }
}

/// The error that a value names: a text, or an object whose only member is null.
pub open spec fn error_in(j: JsonV) -> Option<PageError> {
    match j {
        JsonV::Text(s) => error_named(s),
        JsonV::Object(m) => if m.len() == 1 && m[0].1 is Null {
            error_named(m[0].0)
        } else {
            None
        },
        _ => None,
    }
}

fn named_error(name: &str) -> (r: Option<PageError>)
    ensures
        r == error_named(name@),
{
    if text::same(name, "CAPTCHA_OR_BLOCKED") {
        Some(PageError::CaptchaOrBlocked)
    } else if text::same(name, "FETCH_FAILED") {
        Some(PageError::FetchFailed)
    } else if text::same(name, "FETCH_TIMEOUT") {
        Some(PageError::FetchTimeout)
    } else if text::same(name, "INVALID_OPTIONS") {
        Some(PageError::InvalidOptions)
    } else if text::same(name, "INVALID_ORIGIN") {
        Some(PageError::InvalidOrigin)
    } else if text::same(name, "INVALID_RESPONSE") {
        Some(PageError::InvalidResponse)
    } else if text::same(name, "RESPONSE_TOO_LARGE") {
        Some(PageError::ResponseTooLarge)
    } else {
        None
    }
}

fn read_error(j: &Json) -> (r: Option<PageError>)
    ensures
        r == error_in(j@),
{
    if let Some(s) = j.as_str() {
        return named_error(s);
    }
    if let Some(m) = j.as_object() {
        assert(json::members(m@).len() == m@.len());
        if m.len() == 1 {
            assert(json::members(m@)[0] == (m@[0].0@, m@[0].1@));
            if m[0].1.is_null() {
                return named_error(m[0].0.as_str());
            }
        }
    }
    None
}

/// The addresses of a row of links.
pub open spec fn links_in(v: Seq<JsonV>) -> Option<Seq<Seq<char>>>
    decreases v.len(),
{
    if v.len() == 0 {
        Some(Seq::empty())
    } else {
        match (links_in(v.drop_last()), single(v.last(), "href"@)) {
            (Some(rest), Some(JsonV::Text(s))) => Some(rest.push(s)),
            _ => None,
        }
    }
}

proof fn lemma_links_none(v: Seq<JsonV>, k: int)
    requires
        0 <= k <= v.len(),
        links_in(v.take(k)) is None,
    ensures
        links_in(v) is None,
    decreases v.len() - k,
{
    if k < v.len() {
        assert(v.take(k + 1).drop_last() =~= v.take(k));
        lemma_links_none(v, k + 1);
    } else {
        assert(v.take(k) =~= v);
    }
}

/// The addresses of a row of link objects.
pub open spec fn hrefs(v: Seq<SeoLink>) -> Seq<Seq<char>> {
    Seq::new(v.len(), |i: int| v[i].href@)
}

fn read_links(j: &Json) -> (r: Option<Vec<SeoLink>>)
    ensures
        match r {
            Some(v) => j@ is Array && links_in(j@.elements()) == Some(hrefs(v@)),
            None => j@ !is Array || links_in(j@.elements()) is None,
        },
{
    let v: &Vec<Json> = match j.as_array() {
        Some(v) => v,
        None => return None,
    };
    let ghost all = json::values(v@);
    let mut out: Vec<SeoLink> = Vec::new();
    let mut i: usize = 0;
    assert(all.take(0) =~= Seq::empty());
    assert(hrefs(out@) =~= Seq::empty());
    while i < v.len()
        invariant
            0 <= i <= v@.len(),
            all == json::values(v@),
            j@ == JsonV::Array(all),
            links_in(all.take(i as int)) == Some(hrefs(out@)),
        decreases v@.len() - i,
    {
        assert(all.take(i + 1).drop_last() =~= all.take(i as int));
        assert(all.take(i + 1).last() == v@[i as int]@);
        let href: Option<&str> = match single_member(&v[i], "href") {
            Some(h) => h.as_str(),
            None => None,
        };
        match href {
            Some(s) => {
                let ghost before = out@;
                let link: SeoLink = SeoLink { href: s.to_owned() };
                out.push(link);
                assert(hrefs(out@) =~= hrefs(before).push(s@));
            },
            None => {
                proof {
                    lemma_links_none(all, i + 1);
                }
                return None;
            },
        }
        i = i + 1;
    }
    assert(all.take(i as int) =~= all);
    Some(out)
}

/// Whether every member of an object has one of these keys.
pub open spec fn only_keys(m: Seq<(Seq<char>, JsonV)>, keys: Seq<Seq<char>>) -> bool {
    forall|i: int| 0 <= i < m.len() ==> keys.contains((#[trigger] m[i]).0)
}

fn has_only_keys(m: &Vec<(String, Json)>, keys: &[&str]) -> (r: bool)
    ensures
        r == only_keys(json::members(m@), widgets::slices(keys@)),
{
    let ghost all = json::members(m@);
    let ghost known = widgets::slices(keys@);
    let mut i: usize = 0;
    while i < m.len()
        invariant
            0 <= i <= m@.len(),
            all == json::members(m@),
            known == widgets::slices(keys@),
            forall|k: int| 0 <= k < i ==> known.contains((#[trigger] all[k]).0),
        decreases m@.len() - i,
    {
        let key: &str = m[i].0.as_str();
        assert(all[i as int].0 == key@);
        let mut found: bool = false;
        let mut j: usize = 0;
        while j < keys.len()
            invariant
                0 <= j <= keys@.len(),
                known == widgets::slices(keys@),
                found == (exists|k: int| 0 <= k < j && known[k] == key@),
            decreases keys@.len() - j,
        {
            assert(known[j as int] == keys@[j as int]@);
            if text::same(keys[j], key) {
                found = true;
            }
            j = j + 1;
        }
        if !found {
            assert(!known.contains(key@));
            return false;
        }
        i = i + 1;
    }
    true
}

/// The parts of an object in the order of its keys, each where it is there: the members of
/// an object with no other keys, or the elements of an array with no more of them.
pub open spec fn parts(j: JsonV, keys: Seq<Seq<char>>) -> Option<Seq<Option<JsonV>>> {
    match j {
        JsonV::Object(m) => if only_keys(m, keys) {
            Some(Seq::new(keys.len(), |i: int| j.get(keys[i])))
        } else {
            None
        },
        JsonV::Array(v) => if v.len() <= keys.len() {
            Some(
                Seq::new(
                    keys.len(),
                    |i: int|
                        if i < v.len() {
                            Some(v[i])
                        } else {
                            None
                        },
                ),
            )
        } else {
            None
        },
        _ => None,
    }
}

/// What a row of parts holds.
pub open spec fn parts_view(v: Seq<Option<&Json>>) -> Seq<Option<JsonV>> {
    Seq::new(v.len(), |i: int| json::view_of(v[i]))
}

fn read_parts<'a>(j: &'a Json, keys: &[&str]) -> (r: Option<Vec<Option<&'a Json>>>)
    ensures
        match r {
            Some(v) => parts(j@, widgets::slices(keys@)) == Some(parts_view(v@)) && v@.len()
                == keys@.len(),
            None => parts(j@, widgets::slices(keys@)) is None,
        },
{
    let ghost known = widgets::slices(keys@);
    let mut out: Vec<Option<&'a Json>> = Vec::new();
    let mut i: usize = 0;
    if let Some(m) = j.as_object() {
        if !has_only_keys(m, keys) {
            return None;
        }
        while i < keys.len()
            invariant
                0 <= i <= keys@.len(),
                known == widgets::slices(keys@),
                parts_view(out@) =~= Seq::new(i as nat, |k: int| j@.get(known[k])),
            decreases keys@.len() - i,
        {
            assert(known[i as int] == keys@[i as int]@);
            let ghost before = out@;
            out.push(j.get(keys[i]));
            assert(parts_view(out@) =~= parts_view(before).push(j@.get(known[i as int])));
            i = i + 1;
        }
        assert(parts_view(out@) =~= Seq::new(known.len(), |k: int| j@.get(known[k])));
        return Some(out);
    }
    if let Some(v) = j.as_array() {
        let ghost all = json::values(v@);
        assert(all.len() == v@.len());
        if v.len() > keys.len() {
            return None;
        }
        while i < keys.len()
            invariant
                0 <= i <= keys@.len(),
                all == json::values(v@),
                all.len() == v@.len(),
                parts_view(out@) =~= Seq::new(
                    i as nat,
                    |k: int|
                        if k < all.len() {
                            Some(all[k])
                        } else {
                            None
                        },
                ),
            decreases keys@.len() - i,
        {
            let ghost before = out@;
            let part: Option<&'a Json> = if i < v.len() {
                Some(&v[i])
            } else {
                None
            };
            out.push(part);
            assert(parts_view(out@) =~= parts_view(before).push(json::view_of(part)));
            i = i + 1;
        }
        assert(parts_view(out@) =~= Seq::new(
            known.len(),
            |k: int|
                if k < all.len() {
                    Some(all[k])
                } else {
                    None
                },
        ));
        return Some(out);
    }
    None
}

/// The title of a page: a text, or null for none.
pub open spec fn title_in(j: JsonV) -> Option<Option<Seq<char>>> {
    match j {
        JsonV::Null => Some(None),
        JsonV::Text(s) => Some(Some(s)),
        _ => None,
    }
}

pub open spec fn seo_of(title: JsonV, link: JsonV) -> Option<SeoV> {
    match (title_in(title), link) {
        (Some(title), JsonV::Array(v)) => match links_in(v) {
            Some(link) => Some(SeoV { title, link }),
            None => None,
        },
        _ => None,
    }
}

/// The search information that a page gives about itself.
pub open spec fn seo_in(j: JsonV) -> Option<SeoV> {
    match j {
        JsonV::Object(m) => if only_keys(m, seq!["title"@, "link"@]) {
            seo_of(j.field("title"@), j.field("link"@))
        } else {
            None
        },
        JsonV::Array(v) => if v.len() == 2 {
            seo_of(v[0], v[1])
        } else {
            None
        },
        _ => None,
    }
}

pub open spec fn seo_view(o: Option<Seo>) -> Option<SeoV> {
    match o {
        Some(s) => Some(s@),
        None => None,
    }
}

fn make_seo(title: &Json, link: &Json) -> (r: Option<Seo>)
    ensures
        seo_view(r) == seo_of(title@, link@),
{
    let shown: Option<String> = match title {
        Json::Null => None,
        Json::Text(s) => Some(s.clone()),
        _ => return None,
    };
    match read_links(link) {
        Some(links) => {
            let seo: Seo = Seo { title: shown, link: links };
            assert(seo@.link =~= hrefs(links@));
            Some(seo)
        },
        None => None,
    }
}

fn read_seo(j: &Json) -> (r: Option<Seo>)
    ensures
        seo_view(r) == seo_in(j@),
{
    if let Some(m) = j.as_object() {
        let keys: [&str; 2] = ["title", "link"];
        assert(widgets::slices(keys@) =~= seq!["title"@, "link"@]);
        if has_only_keys(m, &keys) {
            return make_seo(j.field("title"), j.field("link"));
        }
        return None;
    }
    if let Some(v) = j.as_array() {
        assert(json::values(v@).len() == v@.len());
        if v.len() == 2 {
            assert(json::values(v@)[0] == v@[0]@ && json::values(v@)[1] == v@[1]@);
            return make_seo(&v[0], &v[1]);
        }
    }
    None
}

/// A text that may be null; a missing member is null in an object.
pub open spec fn nullable_text(v: Option<JsonV>) -> Option<Option<Seq<char>>> {
    match v {
        None => Some(None),
        Some(JsonV::Null) => Some(None),
        Some(JsonV::Text(s)) => Some(Some(s)),
        _ => None,
    }
}

fn read_nullable_text(v: Option<&Json>) -> (r: Option<Option<String>>)
    ensures
        match r {
            Some(t) => nullable_text(json::view_of(v)) == Some(text::text_of(t)),
            None => nullable_text(json::view_of(v)) is None,
        },
{
    match v {
        None => Some(None),
        Some(Json::Null) => Some(None),
        Some(Json::Text(s)) => Some(Some(s.clone())),
        _ => None,
    }
}

/// Whether an array that stands for an object lists all of its members.
pub open spec fn is_whole(j: JsonV, n: nat) -> bool {
    j matches JsonV::Array(v) ==> v.len() == n
}

fn whole(j: &Json, n: usize) -> (r: bool)
    ensures
        r == is_whole(j@, n as nat),
{
    match j.as_array() {
        Some(v) => {
            assert(json::values(v@).len() == v@.len());
            v.len() == n
        },
        None => true,
    }
}

pub open spec fn context_keys() -> Seq<Seq<char>> {
    seq![
        "regionLabel"@,
        "regionVerified"@,
        "regionSourceUrl"@,
        "accountState"@,
        "accessState"@,
        "signature"@,
    ]
}

/// The context that a value holds.
pub open spec fn context_in(j: JsonV) -> Option<ContextObservationV> {
    match parts(j, context_keys()) {
        Some(p) => match (
            nullable_text(p[0]),
            p[1],
            nullable_text(p[2]),
            p[3],
            p[4],
            nullable_text(p[5]),
        ) {
            (
                Some(region_label),
                Some(JsonV::Bool(region_verified)),
                Some(region_source_url),
                Some(JsonV::Text(account_state)),
                Some(JsonV::Text(access_state)),
                Some(signature),
            ) => if is_whole(j, 6) {
                Some(
                    ContextObservationV {
                        region_label,
                        region_verified,
                        region_source_url,
                        account_state,
                        access_state,
                        signature,
                    },
                )
            } else {
                None
            },
            _ => None,
        },
        None => None,
    }
}

fn read_context(j: &Json) -> (r: Option<ContextObservation>)
    ensures
        context_view(r) == context_in(j@),
{
    let keys: [&str; 6] = [
        "regionLabel",
        "regionVerified",
        "regionSourceUrl",
        "accountState",
        "accessState",
        "signature",
    ];
    assert(widgets::slices(keys@) =~= context_keys());
    let p: Vec<Option<&Json>> = match read_parts(j, &keys) {
        Some(p) => p,
        None => return None,
    };
    let ghost all = parts_view(p@);
    assert(forall|i: int| 0 <= i < 6 ==> all[i] == json::view_of(p@[i]));
    match (
        read_nullable_text(p[0]),
        p[1],
        read_nullable_text(p[2]),
        p[3],
        p[4],
        read_nullable_text(p[5]),
    ) {
        (
            Some(region_label),
            Some(Json::Bool(verified)),
            Some(region_source_url),
            Some(Json::Text(account)),
            Some(Json::Text(access)),
            Some(signature),
        ) => if whole(j, 6) {
            Some(
                ContextObservation {
                    region_label,
                    region_verified: *verified,
                    region_source_url,
                    account_state: account.clone(),
                    access_state: access.clone(),
                    signature,
                },
            )
        } else {
            None
        },
        _ => None,
    }
}

/// What a value shows of the saved addresses.
pub open spec fn region_in(j: JsonV) -> Option<RegionProbeV> {
    match parts(j, seq!["addressBookModalAvailable"@, "selectedRegionLabel"@]) {
        Some(p) => match (p[0], nullable_text(p[1])) {
            (Some(JsonV::Bool(available)), Some(label)) => if is_whole(j, 2) {
                Some(
                    RegionProbeV {
                        address_book_modal_available: available,
                        selected_region_label: label,
                    },
                )
            } else {
                None
            },
            _ => None,
        },
        None => None,
    }
}

fn read_region(j: &Json) -> (r: Option<RegionProbe>)
    ensures
        region_view(r) == region_in(j@),
{
    let keys: [&str; 2] = ["addressBookModalAvailable", "selectedRegionLabel"];
    assert(widgets::slices(keys@) =~= seq![
        "addressBookModalAvailable"@,
        "selectedRegionLabel"@,
    ]);
    let p: Vec<Option<&Json>> = match read_parts(j, &keys) {
        Some(p) => p,
        None => return None,
    };
    let ghost all = parts_view(p@);
    assert(forall|i: int| 0 <= i < 2 ==> all[i] == json::view_of(p@[i]));
    match (p[0], read_nullable_text(p[1])) {
        (Some(Json::Bool(available)), Some(label)) => if whole(j, 2) {
            Some(
                RegionProbe {
                    address_book_modal_available: *available,
                    selected_region_label: label,
                },
            )
        } else {
            None
        },
        _ => None,
    }
}

/// A number that may be null; a missing member is null in an object.
pub open spec fn nullable_unsigned(v: Option<JsonV>) -> Option<Option<u64>> {
    match v {
        None => Some(None),
        Some(JsonV::Null) => Some(None),
        Some(JsonV::Number(json::NumberV::Unsigned(n))) => Some(Some(n)),
        _ => None,
    }
}

/// What a value shows of a navigation.
pub open spec fn navigation_in(j: JsonV) -> Option<NavigationProbe> {
    match parts(j, seq!["routeValid"@, "status"@]) {
        Some(p) => match (p[0], nullable_unsigned(p[1])) {
            (Some(JsonV::Bool(route_valid)), Some(status)) => if is_whole(j, 2) {
                Some(NavigationProbe { route_valid, status })
            } else {
                None
            },
            _ => None,
        },
        None => None,
    }
}

fn read_navigation(j: &Json) -> (r: Option<NavigationProbe>)
    ensures
        r == navigation_in(j@),
{
    let keys: [&str; 2] = ["routeValid", "status"];
    assert(widgets::slices(keys@) =~= seq!["routeValid"@, "status"@]);
    let p: Vec<Option<&Json>> = match read_parts(j, &keys) {
        Some(p) => p,
        None => return None,
    };
    let ghost all = parts_view(p@);
    assert(forall|i: int| 0 <= i < 2 ==> all[i] == json::view_of(p@[i]));
    let status: Option<u64> = match p[1] {
        None => None,
        Some(Json::Null) => None,
        Some(v) => match v.as_u64() {
            Some(n) => Some(n),
            None => return None,
        },
    };
    match p[0] {
        Some(Json::Bool(route_valid)) => if whole(j, 2) {
            Some(NavigationProbe { route_valid: *route_valid, status })
        } else {
            None
        },
        _ => None,
    }
}

pub open spec fn page_keys() -> Seq<Seq<char>> {
    seq![
        "widgetStates"@,
        "seo"@,
        "layoutTrackingInfo"@,
        "contextObservation"@,
        "regionProbe"@,
        "navigationProbe"@,
    ]
}

/// The page of its parts: all of them but the first may be missing, and none may be wrong.
pub open spec fn page_of(p: Seq<Option<JsonV>>) -> Option<FilteredPageV> {
    match p[0] {
        Some(w) => if w is Object && (p[1] matches Some(s) ==> seo_in(s) is Some) && (
        p[2] matches Some(t) ==> single(t, "sku"@) is Some) && (p[3] matches Some(c)
            ==> context_in(c) is Some) && (p[4] matches Some(q) ==> region_in(q) is Some) && (
        p[5] matches Some(n) ==> navigation_in(n) is Some) {
            Some(
                FilteredPageV {
                    widget_states: w,
                    seo: match p[1] {
                        Some(s) => seo_in(s),
                        None => None,
                    },
                    sku: match p[2] {
                        Some(t) => single(t, "sku"@),
                        None => None,
                    },
                    context_observation: match p[3] {
                        Some(c) => context_in(c),
                        None => None,
                    },
                    region_probe: match p[4] {
                        Some(q) => region_in(q),
                        None => None,
                    },
                    navigation_probe: match p[5] {
                        Some(n) => navigation_in(n),
                        None => None,
                    },
                },
            )
        } else {
            None
        },
        None => None,
    }
}

/// The page that a value holds.
pub open spec fn page_in(j: JsonV) -> Option<FilteredPageV> {
    match parts(j, page_keys()) {
        Some(p) => page_of(p),
        None => None,
    }
}

pub open spec fn page_view(o: Option<FilteredPage>) -> Option<FilteredPageV> {
    match o {
        Some(p) => Some(p@),
        None => None,
    }
}

fn make_page(p: &Vec<Option<&Json>>) -> (r: Option<FilteredPage>)
    requires
        p@.len() == 6,
    ensures
        page_view(r) == page_of(parts_view(p@)),
{
    let ghost all = parts_view(p@);
    assert(forall|i: int| 0 <= i < 6 ==> all[i] == json::view_of(p@[i]));
    let w: &Json = match p[0] {
        Some(w) => w,
        None => return None,
    };
    if !w.is_object() {
        return None;
    }
    let seo: Option<Seo> = match p[1] {
        Some(s) => match read_seo(s) {
            Some(s) => Some(s),
            None => return None,
        },
        None => None,
    };
    let info: Option<LayoutTrackingInfo> = match p[2] {
        Some(t) => match single_member(t, "sku") {
            Some(sku) => Some(LayoutTrackingInfo { sku: sku.copy() }),
            None => return None,
        },
        None => None,
    };
    let context: Option<ContextObservation> = match p[3] {
        Some(c) => match read_context(c) {
            Some(c) => Some(c),
            None => return None,
        },
        None => None,
    };
    let region: Option<RegionProbe> = match p[4] {
        Some(q) => match read_region(q) {
            Some(q) => Some(q),
            None => return None,
        },
        None => None,
    };
    let navigation: Option<NavigationProbe> = match p[5] {
        Some(n) => match read_navigation(n) {
            Some(n) => Some(n),
            None => return None,
        },
        None => None,
    };
    Some(
        FilteredPage {
            widget_states: w.copy(),
            seo,
            layout_tracking_info: info,
            context_observation: context,
            region_probe: region,
            navigation_probe: navigation,
        },
    )
}

fn read_page(j: &Json) -> (r: Option<FilteredPage>)
    ensures
        page_view(r) == page_in(j@),
{
    let keys: [&str; 6] = [
        "widgetStates",
        "seo",
        "layoutTrackingInfo",
        "contextObservation",
        "regionProbe",
        "navigationProbe",
    ];
    assert(widgets::slices(keys@) =~= page_keys());
    match read_parts(j, &keys) {
        Some(p) => make_page(&p),
        None => None,
    }
}

/// The outcome that a value holds: the first of a page, an error and a status that it is.
pub open spec fn outcome_in(j: JsonV) -> Option<PageOutcomeV> {
    let page = match single(j, "page"@) {
        Some(v) => page_in(v),
        None => None,
    };
    let error = match single(j, "error"@) {
        Some(v) => error_in(v),
        None => None,
    };
    let status = match single(j, "status"@) {
        Some(v) => v.as_unsigned(),
        None => None,
    };
    match (page, error, status) {
        (Some(p), _, _) => Some(PageOutcomeV::Page(p)),
        (None, Some(e), _) => Some(PageOutcomeV::Error(e)),
        (None, None, Some(s)) => Some(PageOutcomeV::Status(s)),
        (None, None, None) => None,
    }
}

pub open spec fn outcome_view(o: Option<PageOutcome>) -> Option<PageOutcomeV> {
    match o {
        Some(p) => Some(p@),
        None => None,
    }
}

impl PageOutcome {
    /// The outcome that a value holds.
    pub fn from_json(j: &Json) -> (r: Option<PageOutcome>)
        ensures
            outcome_view(r) == outcome_in(j@),
    {
        if let Some(v) = single_member(j, "page") {
            if let Some(page) = read_page(v) {
                return Some(PageOutcome::Page(PageSuccess { page }));
            }
        }
        if let Some(v) = single_member(j, "error") {
            if let Some(error) = read_error(v) {
                return Some(PageOutcome::Error(PageFailure { error }));
            }
        }
        if let Some(v) = single_member(j, "status") {
            if let Some(status) = v.as_u64() {
                return Some(PageOutcome::Status(PageStatus { status }));
            }
        }
        None
    }
}

pub open spec fn link_values(v: Seq<Seq<char>>) -> Seq<JsonV> {
    Seq::new(v.len(), |i: int| JsonV::object().with("href"@, JsonV::Text(v[i])))
}

impl FilteredPageV {
    /// The page as one value again; parts that it does not have are left out.
    pub open spec fn json(self) -> JsonV {
        let j = JsonV::object().with("widgetStates"@, self.widget_states);
        let j = match self.seo {
            Some(s) => j.with(
                "seo"@,
                JsonV::object().with("title"@, JsonV::optional_text(s.title)).with(
                    "link"@,
                    JsonV::Array(link_values(s.link)),
                ),
            ),
            None => j,
        };
        let j = match self.sku {
            Some(sku) => j.with("layoutTrackingInfo"@, JsonV::object().with("sku"@, sku)),
            None => j,
        };
        let j = match self.context_observation {
            Some(c) => j.with("contextObservation"@, c.json()),
            None => j,
        };
        let j = match self.region_probe {
            Some(p) => j.with("regionProbe"@, p.json()),
            None => j,
        };
        match self.navigation_probe {
            Some(n) => j.with(
                "navigationProbe"@,
                JsonV::object().with("routeValid"@, JsonV::Bool(n.route_valid)).with(
                    "status"@,
                    JsonV::optional_unsigned(n.status),
                ),
            ),
            None => j,
        }
    }
}

impl ContextObservationV {
    pub open spec fn json(self) -> JsonV {
        JsonV::object().with("regionLabel"@, JsonV::optional_text(self.region_label)).with(
            "regionVerified"@,
            JsonV::Bool(self.region_verified),
        ).with("regionSourceUrl"@, JsonV::optional_text(self.region_source_url)).with(
            "accountState"@,
            JsonV::Text(self.account_state),
        ).with("accessState"@, JsonV::Text(self.access_state)).with(
            "signature"@,
            JsonV::optional_text(self.signature),
        )
    }
}

impl RegionProbeV {
    pub open spec fn json(self) -> JsonV {
        JsonV::object().with(
            "addressBookModalAvailable"@,
            JsonV::Bool(self.address_book_modal_available),
        ).with("selectedRegionLabel"@, JsonV::optional_text(self.selected_region_label))
    }
}

impl FilteredPage {
    /// The page as one value again.
    pub fn into_value(self) -> (r: Json)
        ensures
            r@ == self@.json(),
    {
        let mut j: Json = Json::object().with("widgetStates", self.widget_states);
        if let Some(s) = &self.seo {
            let ghost all = s@.link;
            let mut links: Vec<Json> = Vec::new();
            let mut i: usize = 0;
            while i < s.link.len()
                invariant
                    0 <= i <= s.link@.len(),
                    all == s@.link,
                    json::values(links@) =~= link_values(all).take(i as int),
                decreases s.link@.len() - i,
            {
                let one: Json = Json::object().with("href", Json::text(s.link[i].href.as_str()));
                proof {
                    json::lemma_values_push(links@, one);
                }
                links.push(one);
                i = i + 1;
            }
            assert(json::values(links@) =~= link_values(all));
            j = j.with(
                "seo",
                Json::object().with("title", json::optional(&s.title)).with(
                    "link",
                    Json::array(links),
                ),
            );
        }
        if let Some(t) = &self.layout_tracking_info {
            j = j.with("layoutTrackingInfo", Json::object().with("sku", t.sku.copy()));
        }
        if let Some(c) = &self.context_observation {
            j = j.with(
                "contextObservation",
                Json::object().with("regionLabel", json::optional(&c.region_label)).with(
                    "regionVerified",
                    Json::Bool(c.region_verified),
                ).with("regionSourceUrl", json::optional(&c.region_source_url)).with(
                    "accountState",
                    Json::text(c.account_state.as_str()),
                ).with("accessState", Json::text(c.access_state.as_str())).with(
                    "signature",
                    json::optional(&c.signature),
                ),
            );
        }
        if let Some(p) = &self.region_probe {
            j = j.with(
                "regionProbe",
                Json::object().with(
                    "addressBookModalAvailable",
                    Json::Bool(p.address_book_modal_available),
                ).with("selectedRegionLabel", json::optional(&p.selected_region_label)),
            );
        }
        if let Some(n) = &self.navigation_probe {
            j = j.with(
                "navigationProbe",
                Json::object().with("routeValid", Json::Bool(n.route_valid)).with(
                    "status",
                    Json::optional_unsigned(n.status),
                ),
            );
        }
        j
    }
}

} // verus!
