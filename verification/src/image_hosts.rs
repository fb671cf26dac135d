//! Where the bytes of an image may come from: public addresses of one host, as the system's
//! resolver or a secure one names them.

use crate::failure::{self, Failure, FailureV};
use crate::json::{self, Json, JsonV};
use crate::members::{self, Inner, InnerV};
use crate::text;
use crate::widgets;
use vstd::prelude::*;

verus! {

pub const MAX_DOH_ADDRESSES: usize = 16;

pub const MAX_CNAME_DEPTH: usize = 8;

pub const DOH_RESPONSE_BYTES: usize = 16_384;

/// The host that serves the images.
pub fn image_host() -> (r: &'static str)
    ensures
        r@ == "ir.ozone.ru"@,
{
    "ir.ozone.ru"
}

/// The query that asks a secure resolver for the addresses of the host.
pub fn doh_query() -> (r: &'static str)
    ensures
        r@
            == "https://dns.google/resolve?name=ir.ozone.ru&type=A&edns_client_subnet=0.0.0.0%2F0"@,
{
    "https://dns.google/resolve?name=ir.ozone.ru&type=A&edns_client_subnet=0.0.0.0%2F0"
}

/// An internet address, as the number that its bits spell.
#[derive(Clone, Copy, Debug, PartialEq, Eq, Structural)]
pub enum HostAddress {
    V4(u32),
    V6(u128),
}

/// The address that four octets spell.
pub open spec fn from_octets(a: u8, b: u8, c: u8, d: u8) -> int {
    a * 0x100_0000 + b * 0x1_0000 + c * 0x100 + d
}

pub fn v4(a: u8, b: u8, c: u8, d: u8) -> (r: u32)
    ensures
        r == from_octets(a, b, c, d),
{
    a as u32 * 0x100_0000 + b as u32 * 0x1_0000 + c as u32 * 0x100 + d as u32
}

/// One of the four octets of an address, counted from the first.
pub open spec fn octet(bits: u32, i: int) -> int {
    if i == 0 {
        bits as int / 0x100_0000
    } else if i == 1 {
        bits as int / 0x1_0000 % 0x100
    } else if i == 2 {
        bits as int / 0x100 % 0x100
    } else {
        bits as int % 0x100
    }
}

/// Whether an address is one that the whole internet reaches.
pub open spec fn public_v4(bits: u32) -> bool {
    let a = octet(bits, 0);
    let b = octet(bits, 1);
    let c = octet(bits, 2);
    &&& a != 0
    &&& a != 10
    &&& !(a == 100 && 64 <= b <= 127)
    &&& a != 127
    &&& !(a == 169 && b == 254)
    &&& !(a == 172 && 16 <= b <= 31)
    &&& !(a == 192 && b == 0 && (c == 0 || c == 2))
    &&& !(a == 192 && b == 88 && c == 99)
    &&& !(a == 192 && b == 168)
    &&& !(a == 198 && 18 <= b <= 19)
    &&& !(a == 198 && b == 51 && c == 100)
    &&& !(a == 203 && b == 0 && c == 113)
    &&& a < 224
}

pub fn is_public_ipv4(bits: u32) -> (r: bool)
    ensures
        r == public_v4(bits),
{
    let a: u32 = bits / 0x100_0000;
    let b: u32 = bits / 0x1_0000 % 0x100;
    let c: u32 = bits / 0x100 % 0x100;
    a != 0 && a != 10 && !(a == 100 && 64 <= b && b <= 127) && a != 127 && !(a == 169 && b == 254)
        && !(a == 172 && 16 <= b && b <= 31) && !(a == 192 && b == 0 && (c == 0 || c == 2)) && !(a
        == 192 && b == 88 && c == 99) && !(a == 192 && b == 168) && !(a == 198 && 18 <= b && b
        <= 19) && !(a == 198 && b == 51 && c == 100) && !(a == 203 && b == 0 && c == 113) && a
        < 224
}

/// The address of the older kind that a newer one stands for, where it is such a one.
pub open spec fn mapped(bits: u128) -> Option<u32> {
    if bits as int / 0x1_0000_0000 == 0xffff {
        Some((bits as int % 0x1_0000_0000) as u32)
    } else {
        None
    }
}

/// Whether a newer address is one that the whole internet reaches: a mapped one where the
/// address that it stands for is, any other in the part that is given out for that, but for
/// the blocks that are kept for other ends.
pub open spec fn public_v6(bits: u128) -> bool {
    match mapped(bits) {
        Some(old) => public_v4(old),
        None => {
            let first = bits as int / 0x1_0000_0000_0000_0000_0000_0000_0000;
            let second = bits as int / 0x1_0000_0000_0000_0000_0000_0000 % 0x1_0000;
            &&& 0x2000 <= first < 0x4000
            &&& first != 0x2002
            &&& !(0x3ff0 <= first <= 0x3fff)
            &&& !(first == 0x2001 && (second == 0 || second == 2 || second == 0x0db8))
        },
    }
}

pub fn is_public_ipv6(bits: u128) -> (r: bool)
    ensures
        r == public_v6(bits),
{
    if bits / 0x1_0000_0000 == 0xffff {
        return is_public_ipv4((bits % 0x1_0000_0000) as u32);
    }
    let first: u128 = bits / 0x1_0000_0000_0000_0000_0000_0000_0000;
    let second: u128 = bits / 0x1_0000_0000_0000_0000_0000_0000 % 0x1_0000;
    0x2000 <= first && first < 0x4000 && first != 0x2002 && !(0x3ff0 <= first && first <= 0x3fff)
        && !(first == 0x2001 && (second == 0 || second == 2 || second == 0x0db8))
}

pub open spec fn is_public(address: HostAddress) -> bool {
    match address {
        HostAddress::V4(bits) => public_v4(bits),
        HostAddress::V6(bits) => public_v6(bits),
    }
}

pub fn is_public_ip(address: HostAddress) -> (r: bool)
    ensures
        r == is_public(address),
{
    match address {
        HostAddress::V4(bits) => is_public_ipv4(bits),
        HostAddress::V6(bits) => is_public_ipv6(bits),
    }
}

/// Whether an address is one that a tunnel makes up in answer to a lookup.
pub open spec fn is_synthetic(address: HostAddress) -> bool {
    address matches HostAddress::V4(bits) && octet(bits, 0) == 198 && 18 <= octet(bits, 1) <= 19
}

pub fn is_tun_fake_ip(address: HostAddress) -> (r: bool)
    ensures
        r == is_synthetic(address),
{
    match address {
        HostAddress::V4(bits) => {
            let a: u32 = bits / 0x100_0000;
            let b: u32 = bits / 0x1_0000 % 0x100;
            a == 198 && 18 <= b && b <= 19
        },
        HostAddress::V6(_) => false,
    }
}

/// An address that a tunnel makes up is never a public one.
pub proof fn synthetic_addresses_are_not_public(address: HostAddress)
    requires
        is_synthetic(address),
    ensures
        !is_public(address),
{
}

/// A mapped address is public exactly where the address that it stands for is.
pub proof fn mapped_addresses_are_judged_as_their_own(old: u32)
    ensures
        is_public(HostAddress::V6((0xffff_0000_0000 + old) as u128)) == is_public(
            HostAddress::V4(old),
        ),
{
    let bits = (0xffff_0000_0000 + old) as u128;
    assert(bits as int / 0x1_0000_0000 == 0xffff);
    assert(bits as int % 0x1_0000_0000 == old);
}

/// What was set for the fallback to a secure resolver.
#[derive(Debug)]
pub enum FallbackSetting {
    Absent,
    Text(String),
    Unreadable,
}

/// Whether the fallback is on: unless it is switched off.
pub open spec fn fallback_on(setting: FallbackSetting) -> Result<bool, FailureV> {
    match setting {
        FallbackSetting::Absent => Ok(true),
        FallbackSetting::Text(s) => if s@ == "auto"@ {
            Ok(true)
        } else if s@ == "off"@ {
            Ok(false)
        } else {
            Err(blocked("invalid image DNS fallback setting"@))
        },
        FallbackSetting::Unreadable => Err(blocked("invalid image DNS fallback setting"@)),
    }
}

pub open spec fn blocked(detail: Seq<char>) -> FailureV {
    FailureV::Message("SOURCE_BLOCKED: "@ + detail)
}

pub(crate) fn blocked_failure(detail: &str) -> (r: Failure)
    ensures
        r@ == blocked(detail@),
{
    Failure::Message(text::joined("SOURCE_BLOCKED: ", detail))
}

/// What a fallible operation returned, where its value is a plain one.
pub open spec fn plain<T>(r: Result<T, Failure>) -> Result<T, FailureV> {
    match r {
        Ok(v) => Ok(v),
        Err(e) => Err(e@),
    }
}

pub fn doh_fallback_enabled(setting: &FallbackSetting) -> (r: Result<bool, Failure>)
    ensures
        plain(r) == fallback_on(*setting),
{
    match setting {
        FallbackSetting::Absent => Ok(true),
        FallbackSetting::Text(s) => if text::same(s.as_str(), "auto") {
            Ok(true)
        } else if text::same(s.as_str(), "off") {
            Ok(false)
        } else {
            Err(blocked_failure("invalid image DNS fallback setting"))
        },
        FallbackSetting::Unreadable => Err(blocked_failure("invalid image DNS fallback setting")),
    }
}

/// What a lookup leads to: addresses to connect to, or a lookup by the secure resolver.
#[derive(Debug)]
pub enum Resolution {
    Addresses(Vec<HostAddress>),
    AskSecurely,
}

pub enum ResolutionV {
    Addresses(Seq<HostAddress>),
    AskSecurely,
}

impl View for Resolution {
    type V = ResolutionV;

    open spec fn view(&self) -> ResolutionV {
        match self {
            Resolution::Addresses(v) => ResolutionV::Addresses(v@),
            Resolution::AskSecurely => ResolutionV::AskSecurely,
        }
    }
}

/// The members of a row without repetitions, in the order in which they first come.
pub open spec fn once_each(v: Seq<HostAddress>) -> Seq<HostAddress>
    decreases v.len(),
{
    if v.len() == 0 {
        Seq::empty()
    } else {
        let rest = once_each(v.drop_last());
        if rest.contains(v.last()) {
            rest
        } else {
            rest.push(v.last())
        }
    }
}

pub open spec fn all_synthetic(v: Seq<HostAddress>) -> bool {
    forall|i: int| 0 <= i < v.len() ==> is_synthetic(#[trigger] v[i])
}

pub open spec fn all_public(v: Seq<HostAddress>) -> bool {
    forall|i: int| 0 <= i < v.len() ==> is_public(#[trigger] v[i])
}

/// What a lookup that gave `found` leads to.
pub open spec fn resolution(
    found: Seq<HostAddress>,
    secure: bool,
) -> Result<ResolutionV, FailureV> {
    if found.len() == 0 {
        Err(blocked("image host has no public address"@))
    } else if all_synthetic(found) {
        if secure {
            Ok(ResolutionV::AskSecurely)
        } else {
            Err(blocked("image host resolved through a synthetic DNS address"@))
        }
    } else if all_public(found) {
        Ok(ResolutionV::Addresses(once_each(found)))
    } else {
        Err(blocked("image host resolved to a non-public address"@))
    }
}

fn holds(v: &Vec<HostAddress>, x: HostAddress) -> (r: bool)
    ensures
        r == v@.contains(x),
{
    let mut i: usize = 0;
    while i < v.len()
        invariant
            i <= v.len(),
            forall|k: int| 0 <= k < i ==> v@[k] != x,
        decreases v.len() - i,
    {
        if v[i] == x {
            return true;
        }
        i += 1;
    }
    false
}

/// What a lookup leads to: nothing but public addresses are connected to, each once.
pub fn resolve_public_addresses(found: &Vec<HostAddress>, secure: bool) -> (r: Result<
    Resolution,
    Failure,
>)
    ensures
        failure::outcome(r) == resolution(found@, secure),
{
    if found.len() == 0 {
        return Err(blocked_failure("image host has no public address"));
    }
    let mut i: usize = 0;
    let mut made_up: bool = true;
    let mut reachable: bool = true;
    let mut kept: Vec<HostAddress> = Vec::new();
    while i < found.len()
        invariant
            i <= found.len(),
            made_up == all_synthetic(found@.take(i as int)),
            reachable == all_public(found@.take(i as int)),
            kept@ == once_each(found@.take(i as int)),
        decreases found.len() - i,
    {
        let ghost next = found@.take(i + 1);
        assert(next.drop_last() =~= found@.take(i as int));
        assert(next.last() == found@[i as int]);
        assert(all_synthetic(next) == (made_up && is_synthetic(found@[i as int]))) by {
            assert forall|k: int| 0 <= k < i implies next[k] == found@.take(i as int)[k] by {}
            if made_up && is_synthetic(found@[i as int]) {
                assert forall|k: int| 0 <= k < next.len() implies is_synthetic(
                    #[trigger] next[k],
                ) by {
                    if k < i {
                        assert(is_synthetic(found@.take(i as int)[k]));
                    }
                }
            }
            if all_synthetic(next) {
                assert(is_synthetic(next[i as int]));
                assert forall|k: int| 0 <= k < i implies is_synthetic(
                    #[trigger] found@.take(i as int)[k],
                ) by {
                    assert(is_synthetic(next[k]));
                }
            }
        }
        assert(all_public(next) == (reachable && is_public(found@[i as int]))) by {
            if reachable && is_public(found@[i as int]) {
                assert forall|k: int| 0 <= k < next.len() implies is_public(#[trigger] next[k]) by {
                    if k < i {
                        assert(is_public(found@.take(i as int)[k]));
                    }
                }
            }
            if all_public(next) {
                assert(is_public(next[i as int]));
                assert forall|k: int| 0 <= k < i implies is_public(
                    #[trigger] found@.take(i as int)[k],
                ) by {
                    assert(is_public(next[k]));
                }
            }
        }
        made_up = made_up && is_tun_fake_ip(found[i]);
        reachable = reachable && is_public_ip(found[i]);
        if !holds(&kept, found[i]) {
            kept.push(found[i]);
        }
        i += 1;
    }
    assert(found@.take(i as int) =~= found@);
    if made_up {
        if secure {
            Ok(Resolution::AskSecurely)
        } else {
            Err(blocked_failure("image host resolved through a synthetic DNS address"))
        }
    } else if reachable {
        Ok(Resolution::Addresses(kept))
    } else {
        Err(blocked_failure("image host resolved to a non-public address"))
    }
}

proof fn lemma_once_each(v: Seq<HostAddress>)
    ensures
        once_each(v).no_duplicates(),
        forall|x: HostAddress| once_each(v).contains(x) <==> v.contains(x),
    decreases v.len(),
{
    if v.len() > 0 {
        let rest = once_each(v.drop_last());
        lemma_once_each(v.drop_last());
        assert(v =~= v.drop_last().push(v.last()));
        assert forall|x: HostAddress| once_each(v).contains(x) <==> v.contains(x) by {
            assert(v.drop_last().push(v.last()).contains(x) <==> v.drop_last().contains(x) || x
                == v.last()) by {
                vstd::seq_lib::lemma_seq_contains_after_push(v.drop_last(), v.last(), x);
            }
            if !rest.contains(v.last()) {
                vstd::seq_lib::lemma_seq_contains_after_push(rest, v.last(), x);
            }
        }
    }
}

/// Whatever a lookup gives, every address that is connected to is one of its answers, is
/// public and comes once.
pub proof fn only_public_answers_are_used(found: Seq<HostAddress>, secure: bool)
    ensures
        match resolution(found, secure) {
            Ok(ResolutionV::Addresses(kept)) => {
                &&& kept.len() > 0
                &&& all_public(kept)
                &&& kept.no_duplicates()
                &&& forall|x: HostAddress| kept.contains(x) <==> found.contains(x)
            },
            Ok(ResolutionV::AskSecurely) => secure && all_synthetic(found),
            Err(_) => true,
        },
{
    lemma_once_each(found);
    if found.len() > 0 && all_public(found) {
        let kept = once_each(found);
        assert(found.contains(found[0]));
        assert(kept.contains(found[0]));
        assert forall|i: int| 0 <= i < kept.len() implies is_public(#[trigger] kept[i]) by {
            assert(kept.contains(kept[i]));
            assert(found.contains(kept[i]));
            let k = choose|k: int| 0 <= k < found.len() && found[k] == kept[i];
            assert(is_public(found[k]));
        }
    }
}

/// A question in the answer of the secure resolver.
#[derive(Debug)]
pub struct DohQuestion {
    pub name: String,
    pub record_type: u16,
}

/// One record in the answer of the secure resolver.
#[derive(Debug)]
pub struct DohAnswer {
    pub name: String,
    pub record_type: u16,
    pub data: String,
}

/// The answer of the secure resolver.
#[derive(Debug)]
pub struct DohResponse {
    pub status: u32,
    pub truncated: bool,
    pub question: Vec<DohQuestion>,
    pub answer: Vec<DohAnswer>,
}

pub struct DohQuestionV {
    pub name: Seq<char>,
    pub record_type: u16,
}

pub struct DohAnswerV {
    pub name: Seq<char>,
    pub record_type: u16,
    pub data: Seq<char>,
}

pub struct DohResponseV {
    pub status: u32,
    pub truncated: bool,
    pub question: Seq<DohQuestionV>,
    pub answer: Seq<DohAnswerV>,
}

impl View for DohQuestion {
    type V = DohQuestionV;

    open spec fn view(&self) -> DohQuestionV {
        DohQuestionV { name: self.name@, record_type: self.record_type }
    }
}

impl View for DohAnswer {
    type V = DohAnswerV;

    open spec fn view(&self) -> DohAnswerV {
        DohAnswerV { name: self.name@, record_type: self.record_type, data: self.data@ }
    }
}

pub open spec fn questions(v: Seq<DohQuestion>) -> Seq<DohQuestionV> {
    Seq::new(v.len(), |i: int| v[i]@)
}

pub open spec fn answers(v: Seq<DohAnswer>) -> Seq<DohAnswerV> {
    Seq::new(v.len(), |i: int| v[i]@)
}

impl View for DohResponse {
    type V = DohResponseV;

    open spec fn view(&self) -> DohResponseV {
        DohResponseV {
            status: self.status,
            truncated: self.truncated,
            question: questions(self.question@),
            answer: answers(self.answer@),
        }
    }
}

pub open spec fn part_text(j: JsonV, key: Seq<char>, place: int, count: int) -> Option<Seq<char>> {
    match json::part(j, key, place, count) {
        Some(v) => v.as_text(),
        None => None,
    }
}

pub open spec fn part_type(j: JsonV, place: int, count: int) -> Option<u16> {
    match json::part(j, "type"@, place, count) {
        Some(v) => match v.as_unsigned() {
            Some(n) => if n <= 0xffff {
                Some(n as u16)
            } else {
                None
            },
            None => None,
        },
        None => None,
    }
}

fn find_type(j: &Json, place: usize, count: usize) -> (r: Option<u16>)
    ensures
        r == part_type(j@, place as int, count as int),
{
    match json::find_part(j, "type", place, count) {
        Some(v) => match v.as_u64() {
            Some(n) => if n <= 0xffff {
                Some(n as u16)
            } else {
                None
            },
            None => None,
        },
        None => None,
    }
}

fn find_text(j: &Json, key: &str, place: usize, count: usize) -> (r: Option<String>)
    ensures
        text::text_of(r) == part_text(j@, key@, place as int, count as int),
{
    match json::find_part(j, key, place, count) {
        Some(v) => match v.as_str() {
            Some(s) => Some(s.to_owned()),
            None => None,
        },
        None => None,
    }
}

pub open spec fn question_of(j: JsonV) -> Option<DohQuestionV> {
    match (part_text(j, "name"@, 0, 2), part_type(j, 1, 2)) {
        (Some(name), Some(record_type)) => Some(DohQuestionV { name, record_type }),
        _ => None,
    }
}

pub open spec fn answer_of(j: JsonV) -> Option<DohAnswerV> {
    match (part_text(j, "name"@, 0, 3), part_type(j, 1, 3), part_text(j, "data"@, 2, 3)) {
        (Some(name), Some(record_type), Some(data)) => Some(DohAnswerV { name, record_type, data }),
        _ => None,
    }
}

pub open spec fn questions_of(v: Seq<JsonV>) -> Option<Seq<DohQuestionV>>
    decreases v.len(),
{
    if v.len() == 0 {
        Some(Seq::empty())
    } else {
        match (questions_of(v.drop_last()), question_of(v.last())) {
            (Some(rest), Some(q)) => Some(rest.push(q)),
            _ => None,
        }
    }
}

pub open spec fn answers_of(v: Seq<JsonV>) -> Option<Seq<DohAnswerV>>
    decreases v.len(),
{
    if v.len() == 0 {
        Some(Seq::empty())
    } else {
        match (answers_of(v.drop_last()), answer_of(v.last())) {
            (Some(rest), Some(a)) => Some(rest.push(a)),
            _ => None,
        }
    }
}

/// The records under `Answer`; none where there is no such field.
pub open spec fn answer_part(j: JsonV) -> Option<Seq<DohAnswerV>> {
    match json::part(j, "Answer"@, 3, 4) {
        Some(v) => match v.as_array() {
            Some(a) => answers_of(a),
            None => None,
        },
        None => Some(Seq::empty()),
    }
}

pub open spec fn question_part(j: JsonV) -> Option<Seq<DohQuestionV>> {
    match json::part(j, "Question"@, 2, 4) {
        Some(v) => match v.as_array() {
            Some(a) => questions_of(a),
            None => None,
        },
        None => None,
    }
}

pub open spec fn status_part(j: JsonV) -> Option<u32> {
    match json::part(j, "Status"@, 0, 4) {
        Some(v) => match v.as_unsigned() {
            Some(n) => if n <= 0xffff_ffff {
                Some(n as u32)
            } else {
                None
            },
            None => None,
        },
        None => None,
    }
}

pub open spec fn truncated_part(j: JsonV) -> Option<bool> {
    match json::part(j, "TC"@, 1, 4) {
        Some(v) => v.as_bool(),
        None => None,
    }
}

/// The answer that a JSON value spells, where it spells one.
pub open spec fn response_of(j: JsonV) -> Option<DohResponseV> {
    match (status_part(j), truncated_part(j), question_part(j), answer_part(j)) {
        (Some(status), Some(truncated), Some(question), Some(answer)) => Some(
            DohResponseV { status, truncated, question, answer },
        ),
        _ => None,
    }
}

pub open spec fn questions_view(o: Option<Vec<DohQuestion>>) -> Option<Seq<DohQuestionV>> {
    match o {
        Some(v) => Some(questions(v@)),
        None => None,
    }
}

pub open spec fn answers_view(o: Option<Vec<DohAnswer>>) -> Option<Seq<DohAnswerV>> {
    match o {
        Some(v) => Some(answers(v@)),
        None => None,
    }
}

proof fn lemma_questions_stop(v: Seq<JsonV>, n: int)
    requires
        0 <= n <= v.len(),
        questions_of(v.take(n)) is None,
    ensures
        questions_of(v) is None,
    decreases v.len() - n,
{
    if n < v.len() {
        assert(v.take(n + 1).drop_last() =~= v.take(n));
        lemma_questions_stop(v, n + 1);
    } else {
        assert(v.take(n) =~= v);
    }
}

proof fn lemma_answers_stop(v: Seq<JsonV>, n: int)
    requires
        0 <= n <= v.len(),
        answers_of(v.take(n)) is None,
    ensures
        answers_of(v) is None,
    decreases v.len() - n,
{
    if n < v.len() {
        assert(v.take(n + 1).drop_last() =~= v.take(n));
        lemma_answers_stop(v, n + 1);
    } else {
        assert(v.take(n) =~= v);
    }
}

fn read_questions(items: &Vec<Json>) -> (r: Option<Vec<DohQuestion>>)
    ensures
        questions_view(r) == questions_of(json::values(items@)),
{
    let ghost all = json::values(items@);
    let mut out: Vec<DohQuestion> = Vec::new();
    let mut i: usize = 0;
    assert(questions(out@) =~= Seq::empty());
    while i < items.len()
        invariant
            i <= items.len(),
            all == json::values(items@),
            questions_of(all.take(i as int)) == Some(questions(out@)),
        decreases items.len() - i,
    {
        assert(all.take(i + 1).drop_last() =~= all.take(i as int));
        assert(all.take(i + 1).last() == items@[i as int]@);
        match (find_text(&items[i], "name", 0, 2), find_type(&items[i], 1, 2)) {
            (Some(name), Some(record_type)) => {
                let q = DohQuestion { name, record_type };
                assert(questions(out@.push(q)) =~= questions(out@).push(q@));
                out.push(q);
            },
            _ => {
                proof {
                    lemma_questions_stop(all, i + 1);
                }
                return None;
            },
        }
        i += 1;
    }
    assert(all.take(i as int) =~= all);
    Some(out)
}

fn read_answers(items: &Vec<Json>) -> (r: Option<Vec<DohAnswer>>)
    ensures
        answers_view(r) == answers_of(json::values(items@)),
{
    let ghost all = json::values(items@);
    let mut out: Vec<DohAnswer> = Vec::new();
    let mut i: usize = 0;
    assert(answers(out@) =~= Seq::empty());
    while i < items.len()
        invariant
            i <= items.len(),
            all == json::values(items@),
            answers_of(all.take(i as int)) == Some(answers(out@)),
        decreases items.len() - i,
    {
        assert(all.take(i + 1).drop_last() =~= all.take(i as int));
        assert(all.take(i + 1).last() == items@[i as int]@);
        match (
            find_text(&items[i], "name", 0, 3),
            find_type(&items[i], 1, 3),
            find_text(&items[i], "data", 2, 3),
        ) {
            (Some(name), Some(record_type), Some(data)) => {
                let a = DohAnswer { name, record_type, data };
                assert(answers(out@.push(a)) =~= answers(out@).push(a@));
                out.push(a);
            },
            _ => {
                proof {
                    lemma_answers_stop(all, i + 1);
                }
                return None;
            },
        }
        i += 1;
    }
    assert(all.take(i as int) =~= all);
    Some(out)
}

pub open spec fn response_view(o: Option<DohResponse>) -> Option<DohResponseV> {
    match o {
        Some(v) => Some(v@),
        None => None,
    }
}

/// Reads the answer of the secure resolver out of a JSON value.
pub fn read_response(j: &Json) -> (r: Option<DohResponse>)
    ensures
        response_view(r) == response_of(j@),
{
    let status: Option<u32> = match json::find_part(j, "Status", 0, 4) {
        Some(v) => match v.as_u64() {
            Some(n) => if n <= 0xffff_ffff {
                Some(n as u32)
            } else {
                None
            },
            None => None,
        },
        None => None,
    };
    let truncated: Option<bool> = match json::find_part(j, "TC", 1, 4) {
        Some(v) => v.as_bool(),
        None => None,
    };
    let question: Option<Vec<DohQuestion>> = match json::find_part(j, "Question", 2, 4) {
        Some(v) => match v.as_array() {
            Some(items) => read_questions(items),
            None => None,
        },
        None => None,
    };
    let answer: Option<Vec<DohAnswer>> = match json::find_part(j, "Answer", 3, 4) {
        Some(v) => match v.as_array() {
            Some(items) => read_answers(items),
            None => None,
        },
        None => {
            let none: Vec<DohAnswer> = Vec::new();
            assert(answers(none@) =~= Seq::empty());
            Some(none)
        },
    };
    match (status, truncated, question, answer) {
        (Some(status), Some(truncated), Some(question), Some(answer)) => Some(
            DohResponse { status, truncated, question, answer },
        ),
        _ => None,
    }
}

/// A label of a host's name: at most 63 letters, digits and hyphens, with no hyphen at an end.
pub open spec fn is_label(s: Seq<char>) -> bool {
    &&& 0 < s.len() <= 63
    &&& s[0] != '-'
    &&& s.last() != '-'
    &&& forall|i: int|
        0 <= i < s.len() ==> (text::is_ascii_letter(#[trigger] s[i]) || text::is_digit(s[i]) || s[i]
            == '-')
}

pub open spec fn all_labels(v: Seq<Seq<char>>) -> bool {
    forall|i: int| 0 <= i < v.len() ==> is_label(#[trigger] v[i])
}

/// A name without the dot that may end it.
pub open spec fn undotted(s: Seq<char>) -> Seq<char> {
    match text::without_suffix(s, "."@) {
        Some(t) => t,
        None => s,
    }
}

/// The host's name that a text spells, in lower case and without a last dot.
pub open spec fn host_name(s: Seq<char>) -> Option<Seq<char>> {
    let name = text::lowercase(undotted(s));
    if 0 < name.len() <= 253 && all_labels(text::split(name, '.')) {
        Some(name)
    } else {
        None
    }
}

fn check_label(s: &str) -> (r: bool)
    ensures
        r == is_label(s@),
{
    let v: Vec<char> = text::chars_of(s);
    if v.len() == 0 || v.len() > 63 || v[0] == '-' || v[v.len() - 1] == '-' {
        return false;
    }
    let mut i: usize = 0;
    while i < v.len()
        invariant
            i <= v.len(),
            v@ == s@,
            forall|k: int|
                0 <= k < i ==> (text::is_ascii_letter(#[trigger] s@[k]) || text::is_digit(s@[k])
                    || s@[k] == '-'),
        decreases v.len() - i,
    {
        let c: char = v[i];
        if !(('a' <= c && c <= 'z') || ('A' <= c && c <= 'Z') || ('0' <= c && c <= '9') || c
            == '-') {
            assert(!text::is_ascii_letter(s@[i as int]));
            return false;
        }
        i += 1;
    }
    true
}

pub fn dns_name(value: &str) -> (r: Option<String>)
    ensures
        text::text_of(r) == host_name(value@),
{
    let bare: String = match text::strip_suffix(value, ".") {
        Some(t) => t,
        None => value.to_owned(),
    };
    let name: String = text::to_ascii_lowercase(bare.as_str());
    let size: usize = text::chars_of(name.as_str()).len();
    if size == 0 || size > 253 {
        return None;
    }
    let pieces: Vec<String> = text::split_at_char(name.as_str(), '.');
    let ghost all = text::texts(pieces@);
    let mut i: usize = 0;
    while i < pieces.len()
        invariant
            i <= pieces.len(),
            all == text::texts(pieces@),
            all == text::split(name@, '.'),
            name@ == text::lowercase(undotted(value@)),
            forall|k: int| 0 <= k < i ==> is_label(#[trigger] all[k]),
        decreases pieces.len() - i,
    {
        if !check_label(pieces[i].as_str()) {
            assert(!is_label(all[i as int]));
            return None;
        }
        i += 1;
    }
    Some(name)
}

/// The number of an octet: one to three digits with no zero in front, at most 255.
pub open spec fn octet_of(s: Seq<char>) -> Option<u8> {
    if 0 < s.len() <= 3 && text::all_digits(s) && (s.len() == 1 || s[0] != '0')
        && text::digits_value(s) <= 255 {
        Some(text::digits_value(s) as u8)
    } else {
        None
    }
}

/// The address that a text in dotted decimal form spells.
pub open spec fn dotted(s: Seq<char>) -> Option<u32> {
    let v = text::split(s, '.');
    if v.len() == 4 {
        match (octet_of(v[0]), octet_of(v[1]), octet_of(v[2]), octet_of(v[3])) {
            (Some(a), Some(b), Some(c), Some(d)) => Some(from_octets(a, b, c, d) as u32),
            _ => None,
        }
    } else {
        None
    }
}

fn read_octet(s: &str) -> (r: Option<u8>)
    ensures
        r == octet_of(s@),
{
    let v: Vec<char> = text::chars_of(s);
    if v.len() == 0 || v.len() > 3 || !text::only_digits(s) || (v.len() > 1 && v[0] == '0') {
        return None;
    }
    let mut value: u32 = 0;
    let mut i: usize = 0;
    while i < v.len()
        invariant
            i <= v.len() <= 3,
            v@ == s@,
            text::all_digits(s@),
            value == text::digits_value(s@.take(i as int)),
            value < (if i == 0 { 1int } else if i == 1 { 10 } else if i == 2 { 100 } else { 1000 }),
        decreases v.len() - i,
    {
        assert(s@.take(i + 1).drop_last() =~= s@.take(i as int));
        assert(s@.take(i + 1).last() == v@[i as int]);
        assert(text::is_digit(s@[i as int]));
        value = value * 10 + (v[i] as u32 - 48);
        i += 1;
    }
    assert(s@.take(i as int) =~= s@);
    if value <= 255 {
        Some(value as u8)
    } else {
        None
    }
}

pub fn parse_ipv4(s: &str) -> (r: Option<u32>)
    ensures
        r == dotted(s@),
{
    let v: Vec<String> = text::split_at_char(s, '.');
    assert(text::texts(v@).len() == v@.len());
    if v.len() != 4 {
        return None;
    }
    assert(forall|i: int| 0 <= i < 4 ==> text::texts(v@)[i] == v@[i]@);
    match (
        read_octet(v[0].as_str()),
        read_octet(v[1].as_str()),
        read_octet(v[2].as_str()),
        read_octet(v[3].as_str()),
    ) {
        (Some(a), Some(b), Some(c), Some(d)) => Some(v4(a, b, c, d)),
        _ => None,
    }
}

/// A host's name is read as it is written: reading it again gives it back.
pub proof fn host_names_are_canonical(s: Seq<char>)
    ensures
        host_name(s) matches Some(name) ==> host_name(name) == Some(name),
{
    if let Some(name) = host_name(s) {
        reveal_strlit(".");
        lemma_lowercase_again(undotted(s));
        assert(!text::ends(name, "."@)) by {
            if text::ends(name, "."@) {
                let v = text::split(name, '.');
                assert(name.subrange(name.len() - 1, name.len() as int)[0] == name.last());
                assert(name.last() == '.');
                assert(v.last().len() == 0);
                assert(is_label(v[v.len() - 1]));
            }
        }
    }
}

proof fn lemma_lowercase_again(s: Seq<char>)
    ensures
        text::lowercase(text::lowercase(s)) == text::lowercase(s),
{
    assert(text::lowercase(text::lowercase(s)) =~= text::lowercase(s));
}

/// The name that an alias leads to.
pub open spec fn target(aliases: Seq<(Seq<char>, Seq<char>)>, owner: Seq<char>) -> Option<Seq<char>>
    decreases aliases.len(),
{
    if aliases.len() == 0 {
        None
    } else if aliases.last().0 == owner {
        Some(aliases.last().1)
    } else {
        target(aliases.drop_last(), owner)
    }
}

/// The aliases among the records, each owner with one target.
pub open spec fn aliases_of(v: Seq<DohAnswerV>) -> Result<
    Seq<(Seq<char>, Seq<char>)>,
    FailureV,
>
    decreases v.len(),
{
    if v.len() == 0 {
        Ok(Seq::empty())
    } else {
        match aliases_of(v.drop_last()) {
            Err(e) => Err(e),
            Ok(known) => if v.last().record_type == 5 {
                match (host_name(v.last().name), host_name(v.last().data)) {
                    (Some(owner), Some(to)) => if target(known, owner) is Some {
                        Err(blocked("ambiguous secure image DNS answer"@))
                    } else {
                        Ok(known.push((owner, to)))
                    },
                    _ => Err(blocked("invalid secure image DNS answer"@)),
                }
            } else if v.last().record_type != 1 {
                Err(blocked("unexpected secure image DNS answer"@))
            } else {
                Ok(known)
            },
        }
    }
}

/// The names that are reached from the last of `reached` in at most `steps` steps along the
/// aliases, behind those that were reached before.
pub open spec fn followed(
    aliases: Seq<(Seq<char>, Seq<char>)>,
    reached: Seq<Seq<char>>,
    steps: nat,
) -> Result<Seq<Seq<char>>, FailureV>
    decreases steps,
{
    if steps == 0 {
        Ok(reached)
    } else {
        match target(aliases, reached.last()) {
            None => Ok(reached),
            Some(next) => if reached.contains(next) {
                Err(blocked("cyclic secure image DNS answer"@))
            } else {
                followed(aliases, reached.push(next), (steps - 1) as nat)
            },
        }
    }
}

/// The names that stand for the image host, the last of them its proper one.
pub open spec fn chain(aliases: Seq<(Seq<char>, Seq<char>)>) -> Result<Seq<Seq<char>>, FailureV> {
    match followed(aliases, seq!["ir.ozone.ru"@], MAX_CNAME_DEPTH as nat) {
        Err(e) => Err(e),
        Ok(reached) => if target(aliases, reached.last()) is Some {
            Err(blocked("secure image DNS alias chain is too deep"@))
        } else {
            Ok(reached)
        },
    }
}

/// The addresses that the records give to the last of `reached`, each once.
pub open spec fn listed(v: Seq<DohAnswerV>, reached: Seq<Seq<char>>) -> Result<
    Seq<u32>,
    FailureV,
>
    decreases v.len(),
{
    if v.len() == 0 {
        Ok(Seq::empty())
    } else {
        match listed(v.drop_last(), reached) {
            Err(e) => Err(e),
            Ok(known) => listed_one(known, v.last(), reached),
        }
    }
}

/// The addresses with those that one more record adds.
pub open spec fn listed_one(
    known: Seq<u32>,
    record: DohAnswerV,
    reached: Seq<Seq<char>>,
) -> Result<Seq<u32>, FailureV> {
    match host_name(record.name) {
        None => Err(blocked("invalid secure image DNS answer"@)),
        Some(owner) => if !reached.contains(owner) {
            Err(blocked("unrelated secure image DNS answer"@))
        } else if record.record_type != 1 {
            Ok(known)
        } else if owner != reached.last() {
            Err(blocked("invalid secure image DNS alias answer"@))
        } else {
            match dotted(record.data) {
                None => Err(blocked("invalid secure image DNS address"@)),
                Some(ip) => if !public_v4(ip) {
                    Err(blocked("secure image DNS returned a non-public address"@))
                } else if known.contains(ip) {
                    Ok(known)
                } else if known.len() == MAX_DOH_ADDRESSES {
                    Err(blocked("secure image DNS returned too many addresses"@))
                } else {
                    Ok(known.push(ip))
                },
            }
        },
    }
}

/// The addresses in an answer of the secure resolver.
pub open spec fn secure_addresses(response: DohResponseV) -> Result<Seq<u32>, FailureV> {
    if response.status != 0 || response.truncated || response.question.len() != 1
        || response.question[0].record_type != 1 || host_name(response.question[0].name) != Some(
        "ir.ozone.ru"@,
    ) {
        Err(blocked("invalid secure image DNS response"@))
    } else {
        match aliases_of(response.answer) {
            Err(e) => Err(e),
            Ok(aliases) => match chain(aliases) {
                Err(e) => Err(e),
                Ok(reached) => match listed(response.answer, reached) {
                    Err(e) => Err(e),
                    Ok(found) => if found.len() == 0 {
                        Err(blocked("secure image DNS returned no public address"@))
                    } else {
                        Ok(found)
                    },
                },
            },
        }
    }
}

proof fn lemma_aliases_stop(v: Seq<DohAnswerV>, n: int)
    requires
        0 <= n <= v.len(),
        aliases_of(v.take(n)) is Err,
    ensures
        aliases_of(v) == aliases_of(v.take(n)),
    decreases v.len() - n,
{
    if n < v.len() {
        assert(v.take(n + 1).drop_last() =~= v.take(n));
        lemma_aliases_stop(v, n + 1);
    } else {
        assert(v.take(n) =~= v);
    }
}

proof fn lemma_listed_stop(v: Seq<DohAnswerV>, reached: Seq<Seq<char>>, n: int)
    requires
        0 <= n <= v.len(),
        listed(v.take(n), reached) is Err,
    ensures
        listed(v, reached) == listed(v.take(n), reached),
    decreases v.len() - n,
{
    if n < v.len() {
        assert(v.take(n + 1).drop_last() =~= v.take(n));
        lemma_listed_stop(v, reached, n + 1);
    } else {
        assert(v.take(n) =~= v);
    }
}

/// What a row of pairs holds.
pub open spec fn alias_pairs(v: Seq<(String, String)>) -> Seq<(Seq<char>, Seq<char>)> {
    Seq::new(v.len(), |i: int| (v[i].0@, v[i].1@))
}

fn find_target<'a>(aliases: &'a Vec<(String, String)>, owner: &str) -> (r: Option<&'a String>)
    ensures
        match r {
            Some(s) => target(alias_pairs(aliases@), owner@) == Some(s@),
            None => target(alias_pairs(aliases@), owner@) is None,
        },
{
    let ghost all = alias_pairs(aliases@);
    let mut i: usize = aliases.len();
    assert(all.take(i as int) =~= all);
    while i > 0
        invariant
            i <= aliases.len(),
            all == alias_pairs(aliases@),
            target(all, owner@) == target(all.take(i as int), owner@),
        decreases i,
    {
        assert(all.take(i as int).drop_last() =~= all.take(i - 1));
        assert(all.take(i as int).last() == all[i - 1]);
        if text::same(aliases[i - 1].0.as_str(), owner) {
            return Some(&aliases[i - 1].1);
        }
        i -= 1;
    }
    None
}

pub open spec fn aliases_view(r: Result<Vec<(String, String)>, Failure>) -> Result<
    Seq<(Seq<char>, Seq<char>)>,
    FailureV,
> {
    match r {
        Ok(v) => Ok(alias_pairs(v@)),
        Err(e) => Err(e@),
    }
}

fn collect_aliases(v: &Vec<DohAnswer>) -> (r: Result<Vec<(String, String)>, Failure>)
    ensures
        aliases_view(r) == aliases_of(answers(v@)),
{
    let ghost all = answers(v@);
    let mut known: Vec<(String, String)> = Vec::new();
    let mut i: usize = 0;
    assert(alias_pairs(known@) =~= Seq::empty());
    while i < v.len()
        invariant
            i <= v.len(),
            all == answers(v@),
            aliases_of(all.take(i as int)) == Ok::<Seq<(Seq<char>, Seq<char>)>, FailureV>(
                alias_pairs(known@),
            ),
        decreases v.len() - i,
    {
        assert(all.take(i + 1).drop_last() =~= all.take(i as int));
        assert(all.take(i + 1).last() == v@[i as int]@);
        if v[i].record_type == 5 {
            let owner: Option<String> = dns_name(v[i].name.as_str());
            let to: Option<String> = dns_name(v[i].data.as_str());
            match (owner, to) {
                (Some(owner), Some(to)) => {
                    if find_target(&known, owner.as_str()).is_some() {
                        proof {
                            lemma_aliases_stop(all, i + 1);
                        }
                        return Err(blocked_failure("ambiguous secure image DNS answer"));
                    }
                    let pair = (owner, to);
                    assert(alias_pairs(known@.push(pair)) =~= alias_pairs(known@).push(
                        (pair.0@, pair.1@),
                    ));
                    known.push(pair);
                },
                _ => {
                    proof {
                        lemma_aliases_stop(all, i + 1);
                    }
                    return Err(blocked_failure("invalid secure image DNS answer"));
                },
            }
        } else if v[i].record_type != 1 {
            proof {
                lemma_aliases_stop(all, i + 1);
            }
            return Err(blocked_failure("unexpected secure image DNS answer"));
        }
        i += 1;
    }
    assert(all.take(i as int) =~= all);
    Ok(known)
}

pub open spec fn names_view(r: Result<Vec<String>, Failure>) -> Result<Seq<Seq<char>>, FailureV> {
    match r {
        Ok(v) => Ok(text::texts(v@)),
        Err(e) => Err(e@),
    }
}

fn follow_aliases(aliases: &Vec<(String, String)>) -> (r: Result<Vec<String>, Failure>)
    ensures
        names_view(r) == chain(alias_pairs(aliases@)),
        r matches Ok(v) ==> v@.len() > 0,
{
    let ghost pairs = alias_pairs(aliases@);
    let ghost start = seq!["ir.ozone.ru"@];
    let mut reached: Vec<String> = Vec::new();
    reached.push(image_host().to_owned());
    assert(text::texts(reached@) =~= start);
    let mut steps: usize = MAX_CNAME_DEPTH;
    let mut open: bool = true;
    while open && steps > 0
        invariant
            pairs == alias_pairs(aliases@),
            start == seq!["ir.ozone.ru"@],
            reached@.len() > 0,
            !open ==> target(pairs, text::texts(reached@).last()) is None,
            followed(pairs, start, MAX_CNAME_DEPTH as nat) == followed(
                pairs,
                text::texts(reached@),
                steps as nat,
            ),
        decreases steps, (if open { 1int } else { 0 }),
    {
        let ghost before = text::texts(reached@);
        assert(before.last() == reached@.last()@);
        match find_target(aliases, reached[reached.len() - 1].as_str()) {
            None => {
                open = false;
            },
            Some(next) => {
                if text::contains_text(&reached, next.as_str()) {
                    return Err(blocked_failure("cyclic secure image DNS answer"));
                }
                proof {
                    text::lemma_texts_push(reached@, *next);
                }
                reached.push(next.clone());
                steps -= 1;
            },
        }
    }
    assert(text::texts(reached@).last() == reached@.last()@);
    if find_target(aliases, reached[reached.len() - 1].as_str()).is_some() {
        return Err(blocked_failure("secure image DNS alias chain is too deep"));
    }
    Ok(reached)
}

fn holds_number(v: &Vec<u32>, x: u32) -> (r: bool)
    ensures
        r == v@.contains(x),
{
    let mut i: usize = 0;
    while i < v.len()
        invariant
            i <= v.len(),
            forall|k: int| 0 <= k < i ==> v@[k] != x,
        decreases v.len() - i,
    {
        if v[i] == x {
            return true;
        }
        i += 1;
    }
    false
}

pub open spec fn numbers_view(r: Result<Vec<u32>, Failure>) -> Result<Seq<u32>, FailureV> {
    match r {
        Ok(v) => Ok(v@),
        Err(e) => Err(e@),
    }
}

fn add_listed(known: &mut Vec<u32>, record: &DohAnswer, reached: &Vec<String>) -> (r: Result<
    (),
    Failure,
>)
    requires
        reached@.len() > 0,
    ensures
        match r {
            Ok(_) => listed_one(old(known)@, record@, text::texts(reached@)) == Ok::<
                Seq<u32>,
                FailureV,
            >(final(known)@),
            Err(e) => listed_one(old(known)@, record@, text::texts(reached@)) == Err::<
                Seq<u32>,
                FailureV,
            >(e@),
        },
{
    assert(text::texts(reached@).last() == reached@.last()@);
    let owner: String = match dns_name(record.name.as_str()) {
        Some(owner) => owner,
        None => {
            return Err(blocked_failure("invalid secure image DNS answer"));
        },
    };
    if !text::contains_text(reached, owner.as_str()) {
        return Err(blocked_failure("unrelated secure image DNS answer"));
    }
    if record.record_type != 1 {
        return Ok(());
    }
    if !text::same(owner.as_str(), reached[reached.len() - 1].as_str()) {
        return Err(blocked_failure("invalid secure image DNS alias answer"));
    }
    let ip: u32 = match parse_ipv4(record.data.as_str()) {
        Some(ip) => ip,
        None => {
            return Err(blocked_failure("invalid secure image DNS address"));
        },
    };
    if !is_public_ipv4(ip) {
        return Err(blocked_failure("secure image DNS returned a non-public address"));
    }
    if !holds_number(known, ip) {
        if known.len() == MAX_DOH_ADDRESSES {
            return Err(blocked_failure("secure image DNS returned too many addresses"));
        }
        known.push(ip);
    }
    Ok(())
}

/// The addresses in an answer of the secure resolver.
pub fn addresses_in(response: &DohResponse) -> (r: Result<Vec<u32>, Failure>)
    ensures
        numbers_view(r) == secure_addresses(response@),
{
    assert(response@.question.len() == response.question@.len());
    if response.status != 0 || response.truncated || response.question.len() != 1 {
        return Err(blocked_failure("invalid secure image DNS response"));
    }
    let asked: Option<String> = dns_name(response.question[0].name.as_str());
    let proper: bool = match &asked {
        Some(name) => text::same(name.as_str(), image_host()),
        None => false,
    };
    if response.question[0].record_type != 1 || !proper {
        return Err(blocked_failure("invalid secure image DNS response"));
    }
    let aliases: Vec<(String, String)> = match collect_aliases(&response.answer) {
        Ok(aliases) => aliases,
        Err(e) => {
            return Err(e);
        },
    };
    let reached: Vec<String> = match follow_aliases(&aliases) {
        Ok(reached) => reached,
        Err(e) => {
            return Err(e);
        },
    };
    let ghost all = response@.answer;
    let ghost names = text::texts(reached@);
    let mut found: Vec<u32> = Vec::new();
    let mut i: usize = 0;
    while i < response.answer.len()
        invariant
            i <= response.answer.len(),
            reached@.len() > 0,
            names == text::texts(reached@),
            all == answers(response.answer@),
            aliases_of(all) == Ok::<Seq<(Seq<char>, Seq<char>)>, FailureV>(alias_pairs(aliases@)),
            chain(alias_pairs(aliases@)) == Ok::<Seq<Seq<char>>, FailureV>(names),
            listed(all.take(i as int), names) == Ok::<Seq<u32>, FailureV>(found@),
            response.status == 0,
            !response.truncated,
            response@.answer == all,
            response@.question.len() == 1,
            response@.question[0].record_type == 1,
            host_name(response@.question[0].name) == Some("ir.ozone.ru"@),
        decreases response.answer.len() - i,
    {
        assert(all.take(i + 1).drop_last() =~= all.take(i as int));
        assert(all.take(i + 1).last() == response.answer@[i as int]@);
        match add_listed(&mut found, &response.answer[i], &reached) {
            Ok(_) => {},
            Err(e) => {
                proof {
                    lemma_listed_stop(all, names, i + 1);
                }
                return Err(e);
            },
        }
        i += 1;
    }
    assert(all.take(i as int) =~= all);
    if found.len() == 0 {
        return Err(blocked_failure("secure image DNS returned no public address"));
    }
    Ok(found)
}

/// Whether the text of an answer names a field of it, or of one of its records, twice.
pub open spec fn names_twice(body: Seq<char>) -> bool {
    ||| members::repeats(body, seq!["Status"@, "TC"@, "Question"@, "Answer"@])
    ||| members::elements_repeat(body, "Question"@, 2, seq!["name"@, "type"@])
    ||| members::elements_repeat(body, "Answer"@, 3, seq!["name"@, "type"@, "data"@])
}

/// The fields of an answer, and those of its records.
pub open spec fn response_fields() -> Seq<(Seq<char>, InnerV)> {
    seq![
        ("Status"@, InnerV::Plain),
        ("TC"@, InnerV::Plain),
        ("Question"@, InnerV::Records(seq!["name"@, "type"@])),
        ("Answer"@, InnerV::Records(seq!["name"@, "type"@, "data"@])),
    ]
}

/// The answer that a text spells. One that names a field twice spells none.
pub open spec fn response_in(body: Seq<char>) -> Option<DohResponseV> {
    match members::record_value(body, response_fields()) {
        Some(j) => if names_twice(body) {
            None
        } else {
            response_of(j)
        },
        None => None,
    }
}

/// The addresses that the text of an answer gives.
pub open spec fn secure_lookup(body: Seq<char>) -> Result<Seq<u32>, FailureV> {
    match response_in(body) {
        Some(response) => secure_addresses(response),
        None => Err(blocked("invalid secure image DNS response"@)),
    }
}

fn has_name_twice(body: &str) -> (r: bool)
    ensures
        r == names_twice(body@),
{
    let fields: [&str; 4] = ["Status", "TC", "Question", "Answer"];
    let question: [&str; 2] = ["name", "type"];
    let answer: [&str; 3] = ["name", "type", "data"];
    assert(widgets::slices(fields@) =~= seq!["Status"@, "TC"@, "Question"@, "Answer"@]);
    assert(widgets::slices(question@) =~= seq!["name"@, "type"@]);
    assert(widgets::slices(answer@) =~= seq!["name"@, "type"@, "data"@]);
    members::has_repeats(body, &fields) || members::has_element_repeats(
        body,
        "Question",
        2,
        &question,
    ) || members::has_element_repeats(body, "Answer", 3, &answer)
}

/// The addresses that the text of an answer of the secure resolver gives.
pub fn parse_doh_addresses(body: &str) -> (r: Result<Vec<u32>, Failure>)
    ensures
        numbers_view(r) == secure_lookup(body@),
{
    let question: [&str; 2] = ["name", "type"];
    let answer: [&str; 3] = ["name", "type", "data"];
    let fields: [(&str, Inner); 4] = [
        ("Status", Inner::Plain),
        ("TC", Inner::Plain),
        ("Question", Inner::Records(&question)),
        ("Answer", Inner::Records(&answer)),
    ];
    assert(widgets::slices(question@) =~= seq!["name"@, "type"@]);
    assert(widgets::slices(answer@) =~= seq!["name"@, "type"@, "data"@]);
    assert(members::fields_of(fields@) =~= response_fields());
    let response: Option<DohResponse> = match members::read_record(body, &fields) {
        Some(j) => if has_name_twice(body) {
            None
        } else {
            read_response(&j)
        },
        None => None,
    };
    match response {
        Some(response) => addresses_in(&response),
        None => Err(blocked_failure("invalid secure image DNS response")),
    }
}

proof fn lemma_listed(v: Seq<DohAnswerV>, reached: Seq<Seq<char>>)
    ensures
        listed(v, reached) matches Ok(found) ==> {
            &&& found.len() <= MAX_DOH_ADDRESSES
            &&& found.no_duplicates()
            &&& forall|i: int| 0 <= i < found.len() ==> public_v4(#[trigger] found[i])
        },
    decreases v.len(),
{
    if v.len() > 0 {
        lemma_listed(v.drop_last(), reached);
    }
}

/// An answer of the secure resolver that is used gives one to sixteen public addresses, each
/// once.
pub proof fn secure_answers_are_public(response: DohResponseV)
    ensures
        secure_addresses(response) matches Ok(found) ==> {
            &&& 0 < found.len() <= MAX_DOH_ADDRESSES
            &&& found.no_duplicates()
            &&& forall|i: int| 0 <= i < found.len() ==> public_v4(#[trigger] found[i])
        },
{
    if let Ok(aliases) = aliases_of(response.answer) {
        if let Ok(reached) = chain(aliases) {
            lemma_listed(response.answer, reached);
        }
    }
}

/// What a reply of the secure resolver says before its body is read.
pub open spec fn doh_reply(status: u16, length: Option<u64>) -> Result<(), FailureV> {
    if !(200 <= status <= 299) {
        Err(blocked("secure image DNS lookup failed"@))
    } else if length matches Some(n) && n > DOH_RESPONSE_BYTES {
        Err(blocked("secure image DNS response exceeds size limit"@))
    } else {
        Ok(())
    }
}

pub fn check_doh_reply(status: u16, length: Option<u64>) -> (r: Result<(), Failure>)
    ensures
        plain(r) == doh_reply(status, length),
{
    if status < 200 || status > 299 {
        return Err(blocked_failure("secure image DNS lookup failed"));
    }
    match length {
        Some(n) if n > DOH_RESPONSE_BYTES as u64 => Err(
            blocked_failure("secure image DNS response exceeds size limit"),
        ),
        _ => Ok(()),
    }
}

/// How a lookup by the secure resolver failed that never answered.
pub fn doh_failure(timed_out: bool) -> (r: Failure)
    ensures
        r@ == if timed_out {
            FailureV::Message("UPSTREAM_TIMEOUT: secure image DNS lookup timed out"@)
        } else {
            blocked("secure image DNS lookup failed"@)
        },
{
    if timed_out {
        Failure::new("UPSTREAM_TIMEOUT: secure image DNS lookup timed out")
    } else {
        blocked_failure("secure image DNS lookup failed")
    }
}

} // verus!
