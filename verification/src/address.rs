//! URLs, taken apart into plain text.

use crate::text;
use vstd::prelude::*;

verus! {

/// The parts of a URL. `pairs` are the decoded pairs of its query, `text` is the URL itself.
/// `origin` is its scheme, host and port, or `null` where they make no origin.
#[derive(Debug)]
pub struct Address {
    pub scheme: String,
    pub host: Option<String>,
    pub username: String,
    pub password: Option<String>,
    pub port: Option<u16>,
    pub path: String,
    pub pairs: Vec<(String, String)>,
    pub query: Option<String>,
    pub fragment: Option<String>,
    pub text: String,
    pub origin: String,
}

/// What an [`Address`] holds.
pub struct AddressV {
    pub scheme: Seq<char>,
    pub host: Option<Seq<char>>,
    pub username: Seq<char>,
    pub password: Option<Seq<char>>,
    pub port: Option<u16>,
    pub path: Seq<char>,
    pub pairs: Seq<(Seq<char>, Seq<char>)>,
    pub query: Option<Seq<char>>,
    pub fragment: Option<Seq<char>>,
    pub text: Seq<char>,
    pub origin: Seq<char>,
}

/// The texts of a row of pairs.
pub open spec fn pairs_of(v: Seq<(String, String)>) -> Seq<(Seq<char>, Seq<char>)> {
    Seq::new(v.len(), |i: int| (v[i].0@, v[i].1@))
}

impl View for Address {
    type V = AddressV;

    open spec fn view(&self) -> AddressV {
        AddressV {
            scheme: self.scheme@,
            host: text::text_of(self.host),
            username: self.username@,
            password: text::text_of(self.password),
            port: self.port,
            path: self.path@,
            pairs: pairs_of(self.pairs@),
            query: text::text_of(self.query),
            fragment: text::text_of(self.fragment),
            text: self.text@,
            origin: self.origin@,
        }
    }
}

/// What `url::Url::parse` makes of a text: the parts of the URL, or the message
/// of the parse error.
pub uninterp spec fn parsed_url(input: Seq<char>) -> Result<AddressV, Seq<char>>;

/// What `url::Url::set_query` with no query makes of a URL's text.
pub uninterp spec fn url_without_query(input: Seq<char>) -> Seq<char>;

/// What `query_pairs_mut().clear().extend_pairs` of `url::Url` makes of a URL's text.
pub uninterp spec fn url_with_pairs(
    input: Seq<char>,
    pairs: Seq<(Seq<char>, Seq<char>)>,
) -> Seq<char>;

/// What `url::Url::set_path` makes of a URL's text.
pub uninterp spec fn url_with_path(input: Seq<char>, path: Seq<char>) -> Seq<char>;

/// What a parse returned.
pub open spec fn parts_of(r: Result<Address, String>) -> Result<AddressV, Seq<char>> {
    match r {
        Ok(a) => Ok(a@),
        Err(e) => Err(e@),
    }
}

/// Whether a URL is one of the marketplace.
pub open spec fn is_marketplace(a: AddressV) -> bool {
    (a.scheme == "http"@ || a.scheme == "https"@) && (a.host matches Some(h) && (text::lowercase(h)
        == "ozon.ru"@ || text::lowercase(h) == "www.ozon.ru"@))
}

/// Whether a URL has a host of the marketplace.
pub open spec fn is_marketplace_host(a: AddressV) -> bool {
    a.host == Some("ozon.ru"@) || a.host == Some("www.ozon.ru"@)
}

/// Whether a URL is one of the marketplace's own host and nothing else stands before its path
/// or behind its query.
pub open spec fn is_site(a: AddressV) -> bool {
    &&& a.scheme == "https"@
    &&& a.host == Some("www.ozon.ru"@)
    &&& a.username.len() == 0
    &&& a.password is None
    &&& a.port is None
    &&& a.fragment is None
}

/// How a URL of the site is written.
pub open spec fn site_text(path: Seq<char>, query: Option<Seq<char>>) -> Seq<char> {
    match query {
        Some(q) => "https://www.ozon.ru"@ + path + "?"@ + q,
        None => "https://www.ozon.ru"@ + path,
    }
}

/// A character that stands for itself in the path of a URL and starts no escape, query,
/// fragment or dot segment.
pub open spec fn is_path_char(c: char) -> bool {
    text::is_ascii_letter(c) || text::is_digit(c) || c == '_' || c == '-' || c == '/'
}

/// Whether a path is made of such characters.
pub open spec fn is_bare_path(path: Seq<char>) -> bool {
    &&& path.len() > 0
    &&& path[0] == '/'
    &&& forall|i: int| 0 <= i < path.len() ==> is_path_char(#[trigger] path[i])
}

/// Whether these are the parts of the URL of the site with this path, and no more.
pub open spec fn is_at_path(parts: Result<AddressV, Seq<char>>, path: Seq<char>) -> bool {
    parts matches Ok(a) && {
        &&& is_site(a)
        &&& a.path == path
        &&& a.query is None
        &&& a.pairs.len() == 0
        &&& a.text == site_text(path, None)
    }
}

/// What stands behind the name of the site in a text.
pub open spec fn behind_site(input: Seq<char>) -> Seq<char> {
    input.skip("https://www.ozon.ru"@.len() as int)
}

/// `url::Url::parse` and the getters of the URL that it returns. The parts are a
/// function of the text; which parts a text has is left to the crate. The text that a URL of
/// the marketplace is written as spells the same URL, and the name of the site with a bare
/// path spells the URL with that path. The path of a URL of one of the marketplace's hosts is
/// taken out of the text, with some characters escaped: once escapes are undone it has no more
/// UTF-16 code units than the text.
#[verifier::external_body]
pub(crate) fn parse_url(input: &str) -> (r: Result<Address, String>)
    ensures
        parts_of(r) == parsed_url(input@),
        r matches Ok(a) ==> (is_marketplace(a@) ==> parsed_url(a.text@) == Ok::<
            AddressV,
            Seq<char>,
        >(a@)),
        input@ == site_text(behind_site(input@), None) && is_bare_path(behind_site(input@))
            ==> is_at_path(parts_of(r), behind_site(input@)),
        r matches Ok(a) ==> (is_marketplace_host(a@) ==> text::unescaped_units(a.path@)
            <= text::utf16_len(input@)),
{
    let u = url::Url::parse(input).map_err(|e| e.to_string())?;
    Ok(Address {
        scheme: u.scheme().to_owned(),
        host: u.host_str().map(str::to_owned),
        username: u.username().to_owned(),
        password: u.password().map(str::to_owned),
        port: u.port(),
        path: u.path().to_owned(),
        pairs: u.query_pairs().into_owned().collect(),
        query: u.query().map(str::to_owned),
        fragment: u.fragment().map(str::to_owned),
        text: u.to_string(),
        origin: u.origin().ascii_serialization(),
    })
}

/// Whether a text spells an `https` URL.
pub open spec fn spells_https(input: Seq<char>) -> bool {
    parsed_url(input) matches Ok(a) && a.scheme == "https"@
}

/// Whether a text spells a URL with the parts of `a`, but for the pairs of its query.
pub open spec fn spells_pairs(
    output: Seq<char>,
    a: AddressV,
    pairs: Seq<(Seq<char>, Seq<char>)>,
) -> bool {
    parsed_url(output) matches Ok(b) && b == (AddressV {
        pairs,
        query: b.query,
        text: output,
        ..a
    })
}

/// Whether a text spells a URL with these parts.
pub open spec fn spells(output: Seq<char>, a: AddressV) -> bool {
    parsed_url(output) matches Ok(b) && b == (AddressV { text: output, ..a })
}

/// Whether there is a text, and it spells a URL with these parts.
pub open spec fn spelled(output: Option<Seq<char>>, a: AddressV) -> bool {
    output matches Some(t) && spells(t, a)
}

pub open spec fn without_query_part(a: AddressV) -> AddressV {
    AddressV { pairs: Seq::empty(), query: None, ..a }
}

pub open spec fn without_fragment_part(a: AddressV) -> AddressV {
    AddressV { fragment: None, ..a }
}

pub open spec fn without_username_part(a: AddressV) -> AddressV {
    AddressV { username: Seq::empty(), ..a }
}

pub open spec fn without_password_part(a: AddressV) -> AddressV {
    AddressV { password: None, ..a }
}

/// Whether two URLs lead to the same place of two sites: they differ in scheme, host and port
/// alone.
pub open spec fn same_place(a: AddressV, b: AddressV) -> bool {
    &&& a.username == b.username
    &&& a.password == b.password
    &&& a.path == b.path
    &&& a.pairs == b.pairs
    &&& a.query == b.query
    &&& a.fragment == b.fragment
}

/// Whether there is a text, and it spells a URL that leads to the same place under a scheme.
pub open spec fn spelled_under(output: Option<Seq<char>>, a: AddressV, scheme: Seq<char>) -> bool {
    output matches Some(t) && (parsed_url(t) matches Ok(b) && same_place(a, b) && b.scheme == scheme
        && b.host == a.host)
}

/// Whether there is a text, and it spells a URL that leads to the same place of a host.
pub open spec fn spelled_at(output: Option<Seq<char>>, a: AddressV, host: Seq<char>) -> bool {
    output matches Some(t) && (parsed_url(t) matches Ok(b) && same_place(a, b) && b.scheme
        == a.scheme && b.host == Some(host))
}

/// A character that the form encoding of pairs writes.
pub open spec fn is_form_char(c: char) -> bool {
    ||| text::is_ascii_letter(c)
    ||| text::is_digit(c)
    ||| c == '*'
    ||| c == '-'
    ||| c == '.'
    ||| c == '_'
    ||| c == '+'
    ||| c == '%'
    ||| c == '='
    ||| c == '&'
}

pub open spec fn is_form_text(s: Seq<char>) -> bool {
    forall|i: int| 0 <= i < s.len() ==> is_form_char(#[trigger] s[i])
}

/// Whether a text is the name of the site, a path and a form-encoded query, in which setting
/// these pairs changes nothing.
pub open spec fn is_form_written(
    output: Seq<char>,
    path: Seq<char>,
    pairs: Seq<(Seq<char>, Seq<char>)>,
) -> bool {
    &&& parsed_url(output) matches Ok(b) && (b.query matches Some(q) && is_form_text(q) && output
        == site_text(path, Some(q)))
    &&& url_with_pairs(output, pairs) == output
}

/// Whether a text is a URL of the site as it is written with these pairs: to set the same
/// pairs again changes nothing.
pub open spec fn is_written(output: Seq<char>, path: Seq<char>, pairs: Seq<(Seq<char>, Seq<char>)>) -> bool {
    &&& parsed_url(output) matches Ok(b) && (match b.query {
        Some(q) => is_form_text(q),
        None => true,
    }) && output == site_text(path, b.query)
    &&& rebuilt(output, pairs) == output
}

/// The size of a row of pairs, in bytes, with a mark behind each key and each value.
pub open spec fn pairs_size(pairs: Seq<(Seq<char>, Seq<char>)>) -> nat
    decreases pairs.len(),
{
    if pairs.len() == 0 {
        0
    } else {
        pairs_size(pairs.drop_last()) + text::utf8_len(pairs.last().0) + text::utf8_len(
            pairs.last().1,
        ) + 2
    }
}

/// The size, in bytes, below which a URL and its pairs surely keep within the 32 bits of a
/// URL's offsets.
pub const SMALL_BYTES: u64 = 0x1000_0000;

/// The size of a part that a mark stands before.
pub open spec fn marked_size(part: Option<Seq<char>>) -> nat {
    match part {
        Some(s) => 1 + text::utf8_len(s),
        None => 0,
    }
}

/// Whether the place behind the path of a URL keeps within 32 bits.
pub open spec fn path_fits(a: AddressV) -> bool {
    text::utf8_len(a.text) <= u32::MAX + marked_size(a.query) + marked_size(a.fragment)
}

/// The size of the last part of a URL that has an offset.
pub open spec fn last_size(a: AddressV) -> nat {
    if a.fragment is Some {
        marked_size(a.fragment)
    } else if a.query is Some {
        marked_size(a.query)
    } else {
        text::utf8_len(a.path)
    }
}

/// Whether the offsets of a URL keep within 32 bits where one of its parts gives way to
/// another.
pub open spec fn takes_part(a: AddressV, old: Seq<char>, new: Seq<char>) -> bool {
    text::utf8_len(a.text) + text::utf8_len(new) <= u32::MAX + text::utf8_len(old) + last_size(a)
}

/// Whether a URL can have other pairs: the offsets that are written anew keep within 32 bits.
pub open spec fn takes_pairs(
    input: Seq<char>,
    a: AddressV,
    pairs: Seq<(Seq<char>, Seq<char>)>,
) -> bool {
    ||| text::utf8_len(input) <= SMALL_BYTES && pairs_size(pairs) <= SMALL_BYTES
    ||| a.fragment is None && path_fits(a)
}

/// `url::Url::set_query` with `None`, on the URL that a text spells. The text of an
/// `https` URL still spells a URL afterwards, with the same parts but
/// no query. A URL of the site is then its name and its path, and stays so.
#[verifier::external_body]
pub(crate) fn without_query(input: &str) -> (r: String)
    requires
        parsed_url(input@) is Ok,
    ensures
        r@ == url_without_query(input@),
        spells_https(input@) ==> spells(r@, without_query_part(parsed_url(input@)->Ok_0)),
        is_site(parsed_url(input@)->Ok_0) ==> r@ == site_text(parsed_url(input@)->Ok_0.path, None)
            && url_without_query(r@) == r@,
{
    let mut u = url::Url::parse(input).unwrap();
    u.set_query(None);
    u.into()
}

/// `query_pairs_mut().clear().extend_pairs` of the `url::Url` that a text spells. The text
/// of an `https` URL still spells a URL afterwards, with those pairs for its query. A URL of
/// the site is then its name, its path and a query of the characters of the form encoding,
/// and setting the same pairs again changes nothing. It panics where an offset that is
/// written anew exceeds 32 bits: the one behind the path, or that of a fragment.
#[verifier::external_body]
pub(crate) fn with_pairs(input: &str, pairs: &Vec<(String, String)>) -> (r: String)
    requires
        parsed_url(input@) is Ok,
        takes_pairs(input@, parsed_url(input@)->Ok_0, pairs_of(pairs@)),
    ensures
        r@ == url_with_pairs(input@, pairs_of(pairs@)),
        spells_https(input@) ==> spells_pairs(r@, parsed_url(input@)->Ok_0, pairs_of(pairs@)),
        is_site(parsed_url(input@)->Ok_0) ==> is_form_written(
            r@,
            parsed_url(input@)->Ok_0.path,
            pairs_of(pairs@),
        ),
{
    let mut u = url::Url::parse(input).unwrap();
    u.query_pairs_mut().clear().extend_pairs(pairs);
    u.into()
}

/// `url::Url::set_path` on the URL that a text spells, with a part of its own path from the
/// start. It panics where the place behind the path of the URL exceeds 32 bits.
#[verifier::external_body]
pub(crate) fn with_path(input: &str, path: &str) -> (r: String)
    requires
        parsed_url(input@) is Ok,
        path_fits(parsed_url(input@)->Ok_0),
        text::starts(path@, "/"@),
        text::starts(parsed_url(input@)->Ok_0.path, path@),
    ensures
        r@ == url_with_path(input@, path@),
{
    let mut u = url::Url::parse(input).unwrap();
    u.set_path(path);
    u.into()
}

/// The text of the URL that `url::Url::join` makes of a base and a reference, or the message
/// of the parse error.
pub uninterp spec fn joined_text(base: Seq<char>, reference: Seq<char>) -> Result<
    Seq<char>,
    Seq<char>,
>;

/// What a join returned.
pub open spec fn join_in(r: Result<String, String>) -> Result<Seq<char>, Seq<char>> {
    match r {
        Ok(s) => Ok(s@),
        Err(e) => Err(e@),
    }
}

/// The URL that a reference stands for on a base.
pub open spec fn joined_url(base: Seq<char>, reference: Seq<char>) -> Option<AddressV> {
    match joined_text(base, reference) {
        Ok(t) => match parsed_url(t) {
            Ok(a) => Some(a),
            Err(_) => None,
        },
        Err(_) => None,
    }
}

/// What `url::Url::set_scheme` makes of a URL's text, where it takes the scheme.
pub uninterp spec fn url_with_scheme(input: Seq<char>, scheme: Seq<char>) -> Option<Seq<char>>;

/// What `url::Url::set_host` makes of a URL's text, where it takes the host.
pub uninterp spec fn url_with_host(input: Seq<char>, host: Seq<char>) -> Option<Seq<char>>;

/// What `url::Url::set_fragment` with no fragment makes of a URL's text.
pub uninterp spec fn url_without_fragment(input: Seq<char>) -> Option<Seq<char>>;

pub open spec fn address_of(o: Option<Address>) -> Option<AddressV> {
    match o {
        Some(a) => Some(a@),
        None => None,
    }
}

/// `url::Url::join`, as text: a function of both texts, and so is the message of the error where
/// there is no such URL.
#[verifier::external_body]
pub(crate) fn join_text(base: &str, reference: &str) -> (r: Result<String, String>)
    ensures
        join_in(r) == joined_text(base@, reference@),
{
    let joined = url::Url::parse(base).and_then(|u| u.join(reference));
    joined.map(|u| u.to_string()).map_err(|e| e.to_string())
}

/// The URL that a reference stands for on a base.
pub(crate) fn join_url(base: &str, reference: &str) -> (r: Option<Address>)
    ensures
        address_of(r) == joined_url(base@, reference@),
        r matches Some(a) ==> (is_marketplace(a@) ==> parsed_url(a.text@) == Ok::<
            AddressV,
            Seq<char>,
        >(a@)),
{
    match join_text(base, reference) {
        Ok(t) => match parse_url(t.as_str()) {
            Ok(a) => Some(a),
            Err(_) => None,
        },
        Err(_) => None,
    }
}

/// `url::Url::set_scheme`, a function of both texts. Nothing where the text spells no URL
/// or the URL cannot have the scheme. An `http` or `https` URL can be made an `https` one,
/// which leads to the same place of the same host; what becomes of its port is left to the
/// crate. It overflows where an offset would exceed 32 bits.
#[verifier::external_body]
pub(crate) fn with_scheme(input: &str, scheme: &str) -> (r: Option<String>)
    requires
        parsed_url(input@) matches Ok(a) ==> takes_part(a, a.scheme, scheme@),
        text::utf8_len(scheme@) <= u32::MAX,
    ensures
        text::text_of(r) == url_with_scheme(input@, scheme@),
        scheme@ == "https"@ && (parsed_url(input@) matches Ok(a) && (a.scheme == "http"@ || a.scheme
            == "https"@)) ==> spelled_under(
            text::text_of(r),
            parsed_url(input@)->Ok_0,
            "https"@,
        ),
{
    let mut u = url::Url::parse(input).ok()?;
    u.set_scheme(scheme).ok()?;
    Some(u.into())
}

/// `url::Url::set_host`, a function of both texts. Nothing where the text spells no URL or
/// the URL cannot have the host. An `https` URL can have the host of the marketplace, and
/// leads to the same place of it. It overflows where an offset would exceed 32 bits.
#[verifier::external_body]
pub(crate) fn with_host(input: &str, host: &str) -> (r: Option<String>)
    requires
        host@ == "www.ozon.ru"@,
        parsed_url(input@) matches Ok(a) ==> (a.host matches Some(h) && takes_part(a, h, host@)),
    ensures
        text::text_of(r) == url_with_host(input@, host@),
        spells_https(input@) ==> spelled_at(
            text::text_of(r),
            parsed_url(input@)->Ok_0,
            host@,
        ),
{
    let mut u = url::Url::parse(input).ok()?;
    u.set_host(Some(host)).ok()?;
    Some(u.into())
}

/// `url::Url::set_fragment` with `None`, a function of the text. Nothing where the text
/// spells no URL. The text of an `https` URL still spells a URL afterwards, with the same
/// parts but no fragment.
#[verifier::external_body]
pub(crate) fn without_fragment(input: &str) -> (r: Option<String>)
    ensures
        text::text_of(r) == url_without_fragment(input@),
        spells_https(input@) ==> spelled(text::text_of(r), without_fragment_part(parsed_url(input@)->Ok_0)),
{
    let mut u = url::Url::parse(input).ok()?;
    u.set_fragment(None);
    Some(u.into())
}

/// What `url::Url::set_username` with an empty name makes of a URL's text.
pub uninterp spec fn url_without_username(input: Seq<char>) -> Option<Seq<char>>;

/// What `url::Url::set_password` with no password makes of a URL's text.
pub uninterp spec fn url_without_password(input: Seq<char>) -> Option<Seq<char>>;

/// `url::Url::set_username` with an empty name, a function of the text. Nothing where the
/// text spells no URL; a URL that cannot have a user name stays as it is. The text of an
/// `https` URL still spells a URL afterwards, with the same parts but an empty user name.
#[verifier::external_body]
pub(crate) fn without_username(input: &str) -> (r: Option<String>)
    ensures
        text::text_of(r) == url_without_username(input@),
        spells_https(input@) ==> spelled(text::text_of(r), without_username_part(parsed_url(input@)->Ok_0)),
{
    let mut u = url::Url::parse(input).ok()?;
    u.set_username("").unwrap_or_default();
    Some(u.into())
}

/// `url::Url::set_password` with `None`, a function of the text. Nothing where the text
/// spells no URL; a URL that cannot have a password stays as it is. The text of an `https`
/// URL still spells a URL afterwards, with the same parts but no password.
#[verifier::external_body]
pub(crate) fn without_password(input: &str) -> (r: Option<String>)
    ensures
        text::text_of(r) == url_without_password(input@),
        spells_https(input@) ==> spelled(text::text_of(r), without_password_part(parsed_url(input@)->Ok_0)),
{
    let mut u = url::Url::parse(input).ok()?;
    u.set_password(None).unwrap_or_default();
    Some(u.into())
}

/// The pairs whose key is wanted, in order.
pub open spec fn kept(
    pairs: Seq<(Seq<char>, Seq<char>)>,
    wanted: spec_fn(Seq<char>) -> bool,
) -> Seq<(Seq<char>, Seq<char>)>
    decreases pairs.len(),
{
    if pairs.len() == 0 {
        pairs
    } else if wanted(pairs.last().0) {
        kept(pairs.drop_last(), wanted).push(pairs.last())
    } else {
        kept(pairs.drop_last(), wanted)
    }
}

/// The text of a URL with these pairs for its query; without a query where there are none.
pub open spec fn rebuilt(input: Seq<char>, pairs: Seq<(Seq<char>, Seq<char>)>) -> Seq<char> {
    if pairs.len() == 0 {
        url_without_query(input)
    } else {
        url_with_pairs(input, pairs)
    }
}

/// The value of the first pair with this key.
pub open spec fn value_of(pairs: Seq<(Seq<char>, Seq<char>)>, key: Seq<char>) -> Option<Seq<char>>
    decreases pairs.len(),
{
    if pairs.len() == 0 {
        None
    } else if pairs[0].0 == key {
        Some(pairs[0].1)
    } else {
        value_of(pairs.drop_first(), key)
    }
}

pub proof fn lemma_pairs_push(v: Seq<(String, String)>, p: (String, String))
    ensures
        pairs_of(v.push(p)) == pairs_of(v).push((p.0@, p.1@)),
{
    assert(pairs_of(v.push(p)) =~= pairs_of(v).push((p.0@, p.1@)));
}

/// Whether a URL of the site was rebuilt with pairs, in the way that it is always written.
pub open spec fn is_rebuilt(output: Seq<char>, a: AddressV, pairs: Seq<(Seq<char>, Seq<char>)>) -> bool {
    &&& spells_pairs(output, a, pairs)
    &&& is_written(output, a.path, pairs)
}

pub(crate) fn rebuild(input: &str, pairs: &Vec<(String, String)>) -> (r: String)
    requires
        parsed_url(input@) is Ok,
        takes_pairs(input@, parsed_url(input@)->Ok_0, pairs_of(pairs@)),
    ensures
        r@ == rebuilt(input@, pairs_of(pairs@)),
        spells_https(input@) ==> spells_pairs(r@, parsed_url(input@)->Ok_0, pairs_of(pairs@)),
        is_site(parsed_url(input@)->Ok_0) ==> is_rebuilt(
            r@,
            parsed_url(input@)->Ok_0,
            pairs_of(pairs@),
        ),
{
    if pairs.len() == 0 {
        assert(pairs_of(pairs@) =~= Seq::empty());
        without_query(input)
    } else {
        with_pairs(input, pairs)
    }
}

/// Whether the place behind the path of a URL keeps within 32 bits.
pub(crate) fn is_path_small(a: &Address) -> (r: bool)
    ensures
        r == path_fits(a@),
{
    let query: u128 = match &a.query {
        Some(q) => 1 + text::utf8_length(q.as_str()) as u128,
        None => 0,
    };
    let fragment: u128 = match &a.fragment {
        Some(f) => 1 + text::utf8_length(f.as_str()) as u128,
        None => 0,
    };
    text::utf8_length(a.text.as_str()) as u128 <= 0xffff_ffff + query + fragment
}

/// Whether the offsets of a URL keep within 32 bits where one of its parts gives way to
/// another.
pub(crate) fn can_take(a: &Address, old: &str, new: &str) -> (r: bool)
    ensures
        r == takes_part(a@, old@, new@),
{
    let last: u128 = match (&a.fragment, &a.query) {
        (Some(f), _) => 1 + text::utf8_length(f.as_str()) as u128,
        (None, Some(q)) => 1 + text::utf8_length(q.as_str()) as u128,
        (None, None) => text::utf8_length(a.path.as_str()) as u128,
    };
    text::utf8_length(a.text.as_str()) as u128 + text::utf8_length(new) as u128 <= 0xffff_ffff
        + text::utf8_length(old) as u128 + last
}

/// The value of the first pair with this key.
pub fn first_value(pairs: &Vec<(String, String)>, key: &str) -> (r: Option<String>)
    ensures
        text::text_of(r) == value_of(pairs_of(pairs@), key@),
{
    let mut i: usize = 0;
    let ghost all = pairs_of(pairs@);
    assert(all.skip(0) =~= all);
    while i < pairs.len()
        invariant
            0 <= i <= pairs@.len(),
            all == pairs_of(pairs@),
            value_of(all, key@) == value_of(all.skip(i as int), key@),
        decreases pairs@.len() - i,
    {
        assert(all.skip(i as int)[0] == all[i as int]);
        assert(all.skip(i as int).drop_first() =~= all.skip(i + 1));
        if text::same(pairs[i].0.as_str(), key) {
            return Some(pairs[i].1.clone());
        }
        i = i + 1;
    }
    None
}

impl Address {
    /// The parts of the URL that a text spells, or the message of the parse error.
    pub fn parse(input: &str) -> (r: Result<Address, String>)
        ensures
            parts_of(r) == parsed_url(input@),
    {
        parse_url(input)
    }
}

} // verus!
