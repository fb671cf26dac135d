//! The browser session: what state it is in, which step comes next, and what the driver's
//! replies and the marker of ownership mean.

use crate::address::{self, Address, AddressV};
use crate::browser_error::{BrowserError, BrowserErrorV};
use crate::failure::{self, Failure, FailureV};
use crate::files::{self, FileFacts};
use crate::image_hosts;
use crate::json::{self, Json, JsonV};
use crate::members::{self, Inner, InnerV};
use crate::text;
use crate::widgets;
use vstd::prelude::*;

verus! {

pub const MAX_CLI_BYTES: usize = 12_582_912;

pub const MAX_MARKER_BYTES: usize = 2_048;

/// The state of a session. A running one is known by the endpoint of its browser.
#[derive(Debug)]
pub enum SessionState {
    Idle,
    Acquiring,
    Running { cdp: String },
    Poisoned,
}

/// What a [`SessionState`] holds.
pub enum SessionStateV {
    Idle,
    Acquiring,
    Running(Seq<char>),
    Poisoned,
}

impl View for SessionState {
    type V = SessionStateV;

    open spec fn view(&self) -> SessionStateV {
        match self {
            SessionState::Idle => SessionStateV::Idle,
            SessionState::Acquiring => SessionStateV::Acquiring,
            SessionState::Running { cdp } => SessionStateV::Running(cdp@),
            SessionState::Poisoned => SessionStateV::Poisoned,
        }
    }
}

pub open spec fn driver_failed(operation: Seq<char>) -> FailureV {
    FailureV::Browser(BrowserErrorV::DriverFailure(operation))
}

fn driver_failure(operation: &str) -> (r: Failure)
    ensures
        r@ == driver_failed(operation@),
{
    Failure::Browser(BrowserError::DriverFailure { operation: operation.to_owned() })
}

/// Whether a host is the machine itself, spelled as an address.
pub open spec fn is_loopback(host: Seq<char>) -> bool {
    ||| host == "[::1]"@
    ||| image_hosts::dotted(host) matches Some(bits) && image_hosts::octet(bits, 0) == 127
}

/// Whether the parts of a URL name the endpoint of a browser on this machine.
pub open spec fn names_browser(a: AddressV) -> bool {
    &&& a.scheme == "ws"@
    &&& a.host matches Some(host) && is_loopback(host)
    &&& a.port is Some
    &&& text::starts(a.path, "/devtools/browser/"@)
    &&& a.username.len() == 0
    &&& a.password is None
    &&& a.query is None
    &&& a.fragment is None
}

pub open spec fn endpoint_problem(endpoint: Seq<char>) -> Option<FailureV> {
    match address::parsed_url(endpoint) {
        Ok(a) => if names_browser(a) {
            None
        } else {
            Some(driver_failed("CDP endpoint validation"@))
        },
        Err(_) => Some(driver_failed("CDP endpoint validation"@)),
    }
}

fn check_loopback(host: &str) -> (r: bool)
    ensures
        r == is_loopback(host@),
{
    if text::same(host, "[::1]") {
        return true;
    }
    match image_hosts::parse_ipv4(host) {
        Some(bits) => bits / 0x100_0000 == 127,
        None => false,
    }
}

/// Whether the parts of a URL name the endpoint of a browser on this machine.
pub fn is_browser_address(a: &Address) -> (r: bool)
    ensures
        r == names_browser(a@),
{
    let here: bool = match &a.host {
        Some(host) => check_loopback(host.as_str()),
        None => false,
    };
    text::same(a.scheme.as_str(), "ws") && here && a.port.is_some() && text::starts_with(
        a.path.as_str(),
        "/devtools/browser/",
    ) && text::utf8_length(a.username.as_str()) == 0 && a.password.is_none() && a.query.is_none()
        && a.fragment.is_none()
}

/// Refuses an endpoint that is not a browser's on this machine.
pub fn validate_cdp_endpoint(endpoint: &str) -> (r: Result<(), Failure>)
    ensures
        files::refusal(r) == endpoint_problem(endpoint@),
{
    match Address::parse(endpoint) {
        Ok(a) => if is_browser_address(&a) {
            Ok(())
        } else {
            Err(driver_failure("CDP endpoint validation"))
        },
        Err(_) => Err(driver_failure("CDP endpoint validation")),
    }
}

/// The data of a driver's reply: of one that says that it succeeded.
pub open spec fn reply_data(exited: bool, reply: Option<JsonV>, command: Seq<char>) -> Result<
    JsonV,
    FailureV,
> {
    match reply {
        None => Err(FailureV::Browser(BrowserErrorV::InvalidBridgeResponse)),
        Some(j) => if exited && j.field("success"@) == JsonV::Bool(true) {
            Ok(j.field("data"@))
        } else {
            Err(FailureV::Browser(BrowserErrorV::CommandFailed(command)))
        },
    }
}

/// The data of a driver's reply. `exited` tells whether the driver ended well, `reply` is what
/// it wrote, where that is JSON.
pub fn read_reply(exited: bool, reply: Option<Json>, command: &str) -> (r: Result<Json, Failure>)
    ensures
        failure::outcome(r) == reply_data(exited, json::read_of(reply), command@),
{
    match reply {
        None => Err(Failure::Browser(BrowserError::InvalidBridgeResponse)),
        Some(j) => {
            let succeeded: bool = match j.field("success").as_bool() {
                Some(b) => b,
                None => false,
            };
            if exited && succeeded {
                Ok(j.field("data").copy())
            } else {
                Err(Failure::Browser(BrowserError::CommandFailed { command: command.to_owned() }))
            }
        },
    }
}

/// The first text under one of the keys that an endpoint stands under.
pub open spec fn endpoint_in(data: JsonV) -> Option<Seq<char>> {
    match data.field("url"@) {
        JsonV::Text(s) => Some(s),
        _ => match data.field("value"@) {
            JsonV::Text(s) => Some(s),
            _ => data.field("cdpUrl"@).as_text(),
        },
    }
}

/// The endpoint that a driver's reply names.
pub open spec fn discovered(data: JsonV) -> Result<Seq<char>, FailureV> {
    match endpoint_in(data) {
        None => Err(driver_failed("CDP endpoint discovery"@)),
        Some(s) => match endpoint_problem(s) {
            Some(e) => Err(e),
            None => Ok(s),
        },
    }
}

/// The endpoint that a driver's reply names.
pub fn read_cdp(data: &Json) -> (r: Result<String, Failure>)
    ensures
        failure::outcome(r) == discovered(data@),
{
    let found: Option<&str> = match data.field("url").as_str() {
        Some(s) => Some(s),
        None => match data.field("value").as_str() {
            Some(s) => Some(s),
            None => data.field("cdpUrl").as_str(),
        },
    };
    match found {
        None => Err(driver_failure("CDP endpoint discovery")),
        Some(s) => match validate_cdp_endpoint(s) {
            Ok(_) => Ok(s.to_owned()),
            Err(e) => Err(e),
        },
    }
}

/// A text with every occurrence of another replaced, from the left.
pub open spec fn replaced(s: Seq<char>, old: Seq<char>, new: Seq<char>, from: int) -> Seq<char>
    decreases s.len() - from,
{
    if old.len() == 0 || from < 0 || from > s.len() {
        Seq::empty()
    } else {
        match text::find_from(s, old, from) {
            Some(i) => if from <= i && i + old.len() <= s.len() {
                s.subrange(from, i) + new + replaced(s, old, new, i + old.len())
            } else {
                Seq::empty()
            },
            None => s.subrange(from, s.len() as int),
        }
    }
}

/// The user agent that a session presents: the browser's own, without its headless mark.
pub open spec fn shown_agent(found: JsonV) -> Result<Seq<char>, FailureV> {
    match found {
        JsonV::Text(s) => Ok(replaced(s, "HeadlessChrome/"@, "Chrome/"@, 0)),
        _ => Err(driver_failed("User-Agent discovery"@)),
    }
}

proof fn lemma_found(s: Seq<char>, needle: Seq<char>, from: int)
    requires
        0 <= from,
    ensures
        text::find_from(s, needle, from) matches Some(i) ==> from <= i && i + needle.len() <= s.len(),
    decreases s.len() + 1 - from,
{
    if from + needle.len() <= s.len() && !text::occurs_at(s, needle, from) {
        lemma_found(s, needle, from + 1);
    }
}

fn replace(s: &str, old: &str, new: &str) -> (r: String)
    requires
        old@.len() > 0,
    ensures
        r@ == replaced(s@, old@, new@, 0),
{
    let v: Vec<char> = text::chars_of(s);
    let needle: Vec<char> = text::chars_of(old);
    let size: usize = v.len();
    let mut out: String = String::new();
    let mut from: usize = 0;
    let mut open: bool = true;
    assert(replaced(s@, old@, new@, 0) =~= out@ + replaced(s@, old@, new@, 0));
    while open
        invariant
            from <= v@.len(),
            size == v@.len(),
            v@ == s@,
            needle@ == old@,
            old@.len() > 0,
            open ==> replaced(s@, old@, new@, 0) == out@ + replaced(s@, old@, new@, from as int),
            !open ==> replaced(s@, old@, new@, 0) == out@,
        decreases (if open { v@.len() - from + 1 } else { 0 }),
    {
        let ghost before = out@;
        proof {
            lemma_found(s@, old@, from as int);
        }
        match text::find(&v, &needle, from) {
            Some(i) => {
                let piece: String = text::substring(&v, from, i);
                out.append(piece.as_str());
                out.append(new);
                let ghost rest = replaced(s@, old@, new@, i + old@.len());
                assert(before + (piece@ + new@ + rest) =~= before + piece@ + new@ + rest);
                from = i + needle.len();
            },
            None => {
                let piece: String = text::substring(&v, from, v.len());
                out.append(piece.as_str());
                open = false;
            },
        }
    }
    out
}

/// The user agent that a session presents.
pub fn read_user_agent(found: &Json) -> (r: Result<String, Failure>)
    ensures
        failure::outcome(r) == shown_agent(found@),
{
    match found.as_str() {
        Some(s) => {
            proof {
                reveal_strlit("HeadlessChrome/");
            }
            Ok(replace(s, "HeadlessChrome/", "Chrome/"))
        },
        None => Err(driver_failure("User-Agent discovery")),
    }
}

/// What is done to have a running browser.
#[derive(Clone, Copy, Debug, PartialEq, Eq, Structural)]
pub enum EnsureStep {
    Ready,
    Recover,
    Launch,
}

/// What is done to have a running browser.
pub fn ensure_step(state: &SessionState) -> (r: EnsureStep)
    ensures
        r == match state@ {
            SessionStateV::Poisoned => EnsureStep::Recover,
            SessionStateV::Running(_) => EnsureStep::Ready,
            _ => EnsureStep::Launch,
        },
{
    match state {
        SessionState::Poisoned => EnsureStep::Recover,
        SessionState::Running { .. } => EnsureStep::Ready,
        _ => EnsureStep::Launch,
    }
}

/// Whether a browser that was just launched is closed and launched again under another user
/// agent.
pub fn needs_user_agent(headed: bool, known: bool) -> (r: bool)
    ensures
        r == (!headed && !known),
{
    !headed && !known
}

/// Whether a launch may begin.
pub open spec fn launch_problem(state: SessionStateV, cancelled: bool) -> Option<FailureV> {
    if cancelled {
        Some(FailureV::Browser(BrowserErrorV::Cancelled))
    } else if state is Poisoned {
        Some(FailureV::Browser(BrowserErrorV::SessionPoisoned))
    } else {
        None
    }
}

pub fn check_launch(state: &SessionState, cancelled: bool) -> (r: Result<(), Failure>)
    ensures
        files::refusal(r) == launch_problem(state@, cancelled),
{
    if cancelled {
        return Err(Failure::Browser(BrowserError::Cancelled));
    }
    match state {
        SessionState::Poisoned => Err(Failure::Browser(BrowserError::SessionPoisoned)),
        _ => Ok(()),
    }
}

/// Whether a browser is closed after a launch failed.
pub fn closes_after_failed_launch(state: &SessionState) -> (r: bool)
    ensures
        r == (state@ is Acquiring || state@ is Running),
{
    match state {
        SessionState::Acquiring => true,
        SessionState::Running { .. } => true,
        _ => false,
    }
}

/// What a command to a session that may have ended leads to: nothing where it has, the
/// endpoint that is closed where the command fails.
pub open spec fn command_start(state: SessionStateV) -> Result<Option<Seq<char>>, FailureV> {
    match state {
        SessionStateV::Idle => Ok(None),
        SessionStateV::Running(cdp) => Ok(Some(cdp)),
        _ => Err(FailureV::Browser(BrowserErrorV::SessionPoisoned)),
    }
}

pub open spec fn start_view(r: Result<Option<String>, Failure>) -> Result<
    Option<Seq<char>>,
    FailureV,
> {
    match r {
        Ok(o) => Ok(text::text_of(o)),
        Err(e) => Err(e@),
    }
}

/// What a command to a session that may have ended leads to.
pub fn start_if_running(state: &SessionState) -> (r: Result<Option<String>, Failure>)
    ensures
        start_view(r) == command_start(state@),
{
    match state {
        SessionState::Idle => Ok(None),
        SessionState::Running { cdp } => Ok(Some(cdp.clone())),
        _ => Err(Failure::Browser(BrowserError::SessionPoisoned)),
    }
}

/// What a shutdown closes.
#[derive(Debug)]
pub enum Closing {
    Nothing,
    Endpoint(String),
    Unknown,
}

pub enum ClosingV {
    Nothing,
    Endpoint(Seq<char>),
    Unknown,
}

impl View for Closing {
    type V = ClosingV;

    open spec fn view(&self) -> ClosingV {
        match self {
            Closing::Nothing => ClosingV::Nothing,
            Closing::Endpoint(s) => ClosingV::Endpoint(s@),
            Closing::Unknown => ClosingV::Unknown,
        }
    }
}

pub open spec fn closing_of(state: SessionStateV) -> Result<ClosingV, FailureV> {
    match state {
        SessionStateV::Idle => Ok(ClosingV::Nothing),
        SessionStateV::Running(cdp) => Ok(ClosingV::Endpoint(cdp)),
        SessionStateV::Acquiring => Ok(ClosingV::Unknown),
        SessionStateV::Poisoned => Err(FailureV::Browser(BrowserErrorV::SessionPoisoned)),
    }
}

/// What a shutdown closes.
pub fn start_shutdown(state: &SessionState) -> (r: Result<Closing, Failure>)
    ensures
        failure::outcome(r) == closing_of(state@),
{
    match state {
        SessionState::Idle => Ok(Closing::Nothing),
        SessionState::Running { cdp } => Ok(Closing::Endpoint(cdp.clone())),
        SessionState::Acquiring => Ok(Closing::Unknown),
        SessionState::Poisoned => Err(Failure::Browser(BrowserError::SessionPoisoned)),
    }
}

/// The state after a close: idle where the browser is known to be gone, else poisoned.
pub open spec fn state_after_close(confirmed: bool) -> SessionStateV {
    if confirmed {
        SessionStateV::Idle
    } else {
        SessionStateV::Poisoned
    }
}

/// The state after a close, and its failure where it is not confirmed.
pub fn after_close(confirmed: bool) -> (r: (SessionState, Result<(), Failure>))
    ensures
        r.0@ == state_after_close(confirmed),
        files::refusal(r.1) == (if confirmed {
            None
        } else {
            Some(FailureV::Browser(BrowserErrorV::CleanupFailed))
        }),
{
    if confirmed {
        (SessionState::Idle, Ok(()))
    } else {
        (SessionState::Poisoned, Err(Failure::Browser(BrowserError::CleanupFailed)))
    }
}

/// While a close is not confirmed nothing is launched, run or shut down; once it is, a launch
/// may begin.
pub proof fn unconfirmed_closes_block_the_session(confirmed: bool)
    ensures
        launch_problem(state_after_close(confirmed), false) is None <==> confirmed,
        command_start(state_after_close(confirmed)) is Ok <==> confirmed,
        closing_of(state_after_close(confirmed)) is Ok <==> confirmed,
{
}

/// A step of closing a browser whose end must be confirmed.
#[allow(inconsistent_fields)]
#[derive(Clone, Copy, Debug, PartialEq, Eq, Structural)]
pub enum CloseStep {
    /// Find the daemon that the driver runs, and note that it is being closed.
    Prepare,
    /// Close the browser through its endpoint, and see that the endpoint is gone.
    CloseEndpoint { daemon: Option<u32> },
    /// See that the daemon is gone, and its profile unused.
    ConfirmAbsent { daemon: u32 },
    /// Close the daemon that owns the profile.
    CloseMatching,
    /// Close the daemon that was noted.
    CloseRecorded { daemon: u32 },
    Finished { closed: bool },
}

/// The first step of a close. `bound` tells whether the marker binds the session to its
/// profile, so that the driver may be asked.
pub open spec fn first_close_step(cdp: Option<Seq<char>>, bound: bool) -> CloseStep {
    match cdp {
        Some(endpoint) => if endpoint_problem(endpoint) is Some {
            CloseStep::Finished { closed: false }
        } else if bound {
            CloseStep::Prepare
        } else {
            CloseStep::CloseEndpoint { daemon: None }
        },
        None => if bound {
            CloseStep::CloseMatching
        } else {
            CloseStep::Finished { closed: false }
        },
    }
}

pub fn start_close(cdp: Option<&str>, bound: bool) -> (r: CloseStep)
    ensures
        r == first_close_step(json::str_of(cdp), bound),
{
    match cdp {
        Some(endpoint) => if validate_cdp_endpoint(endpoint).is_err() {
            CloseStep::Finished { closed: false }
        } else if bound {
            CloseStep::Prepare
        } else {
            CloseStep::CloseEndpoint { daemon: None }
        },
        None => if bound {
            CloseStep::CloseMatching
        } else {
            CloseStep::Finished { closed: false }
        },
    }
}

/// The step behind another, which did what it was for or did not. `found` is the daemon that
/// a preparation found and noted.
pub open spec fn next_close_step(
    step: CloseStep,
    bound: bool,
    done: bool,
    found: Option<u32>,
) -> CloseStep {
    match step {
        CloseStep::Prepare => if done && found is Some {
            CloseStep::CloseEndpoint { daemon: found }
        } else {
            CloseStep::Finished { closed: false }
        },
        CloseStep::CloseEndpoint { daemon } => if done {
            match daemon {
                Some(pid) => CloseStep::ConfirmAbsent { daemon: pid },
                None => CloseStep::Finished { closed: true },
            }
        } else if bound {
            CloseStep::CloseMatching
        } else {
            CloseStep::Finished { closed: false }
        },
        CloseStep::ConfirmAbsent { daemon } => if done {
            CloseStep::Finished { closed: true }
        } else {
            CloseStep::CloseRecorded { daemon }
        },
        CloseStep::CloseMatching => CloseStep::Finished { closed: done },
        CloseStep::CloseRecorded { .. } => CloseStep::Finished { closed: done },
        CloseStep::Finished { closed } => CloseStep::Finished { closed },
    }
}

pub fn advance_close(step: CloseStep, bound: bool, done: bool, found: Option<u32>) -> (r: CloseStep)
    ensures
        r == next_close_step(step, bound, done, found),
{
    match step {
        CloseStep::Prepare => if done && found.is_some() {
            CloseStep::CloseEndpoint { daemon: found }
        } else {
            CloseStep::Finished { closed: false }
        },
        CloseStep::CloseEndpoint { daemon } => if done {
            match daemon {
                Some(pid) => CloseStep::ConfirmAbsent { daemon: pid },
                None => CloseStep::Finished { closed: true },
            }
        } else if bound {
            CloseStep::CloseMatching
        } else {
            CloseStep::Finished { closed: false }
        },
        CloseStep::ConfirmAbsent { daemon } => if done {
            CloseStep::Finished { closed: true }
        } else {
            CloseStep::CloseRecorded { daemon }
        },
        CloseStep::CloseMatching => CloseStep::Finished { closed: done },
        CloseStep::CloseRecorded { .. } => CloseStep::Finished { closed: done },
        CloseStep::Finished { closed } => CloseStep::Finished { closed },
    }
}

/// How many steps a close has at most in front of it.
pub open spec fn close_rank(step: CloseStep) -> nat {
    match step {
        CloseStep::Prepare => 4,
        CloseStep::CloseEndpoint { .. } => 3,
        CloseStep::ConfirmAbsent { .. } => 2,
        CloseStep::CloseMatching => 1,
        CloseStep::CloseRecorded { .. } => 1,
        CloseStep::Finished { .. } => 0,
    }
}

/// A close ends, and it is confirmed only by a step that did what it was for.
pub proof fn closes_end(step: CloseStep, bound: bool, done: bool, found: Option<u32>)
    requires
        !(step is Finished),
    ensures
        close_rank(next_close_step(step, bound, done, found)) < close_rank(step),
        next_close_step(step, bound, done, found) == (CloseStep::Finished { closed: true }) ==> done,
{
}

/// Which profile a session uses: its path, and the file that it was.
#[derive(Debug)]
pub struct ProfileIdentity {
    pub path: String,
    pub dev: u64,
    pub ino: u64,
}

pub struct ProfileIdentityV {
    pub path: Seq<char>,
    pub dev: u64,
    pub ino: u64,
}

impl View for ProfileIdentity {
    type V = ProfileIdentityV;

    open spec fn view(&self) -> ProfileIdentityV {
        ProfileIdentityV { path: self.path@, dev: self.dev, ino: self.ino }
    }
}

/// What a session leaves behind while it owns a browser.
#[derive(Debug)]
pub struct OwnershipMarker {
    pub version: u32,
    pub pid: u32,
    pub cdp: Option<String>,
    pub profile: Option<ProfileIdentity>,
    pub closing_daemon_pid: Option<u32>,
}

/// What an [`OwnershipMarker`] holds.
pub struct OwnershipMarkerV {
    pub version: u32,
    pub pid: u32,
    pub cdp: Option<Seq<char>>,
    pub profile: Option<ProfileIdentityV>,
    pub closing_daemon_pid: Option<u32>,
}

pub open spec fn profile_view(o: Option<ProfileIdentity>) -> Option<ProfileIdentityV> {
    match o {
        Some(p) => Some(p@),
        None => None,
    }
}

impl View for OwnershipMarker {
    type V = OwnershipMarkerV;

    open spec fn view(&self) -> OwnershipMarkerV {
        OwnershipMarkerV {
            version: self.version,
            pid: self.pid,
            cdp: text::text_of(self.cdp),
            profile: profile_view(self.profile),
            closing_daemon_pid: self.closing_daemon_pid,
        }
    }
}

pub open spec fn as_u32(j: JsonV) -> Option<u32> {
    match j.as_unsigned() {
        Some(n) => if n <= u32::MAX {
            Some(n as u32)
        } else {
            None
        },
        None => None,
    }
}

fn read_u32(j: &Json) -> (r: Option<u32>)
    ensures
        r == as_u32(j@),
{
    match j.as_u64() {
        Some(n) => if n <= 0xffff_ffff {
            Some(n as u32)
        } else {
            None
        },
        None => None,
    }
}

pub open spec fn required_u32(o: Option<JsonV>) -> Option<u32> {
    match o {
        Some(j) => as_u32(j),
        None => None,
    }
}

/// A profile's identity in JSON.
pub open spec fn profile_in(j: JsonV) -> Option<ProfileIdentityV> {
    match (
        json::part(j, "path"@, 0, 3),
        json::part(j, "dev"@, 1, 3),
        json::part(j, "ino"@, 2, 3),
    ) {
        (Some(path), Some(dev), Some(ino)) => match (
            path.as_text(),
            dev.as_unsigned(),
            ino.as_unsigned(),
        ) {
            (Some(path), Some(dev), Some(ino)) => Some(ProfileIdentityV { path, dev, ino }),
            _ => None,
        },
        _ => None,
    }
}

fn read_profile(j: &Json) -> (r: Option<ProfileIdentity>)
    ensures
        profile_view(r) == profile_in(j@),
{
    match (
        json::find_part(j, "path", 0, 3),
        json::find_part(j, "dev", 1, 3),
        json::find_part(j, "ino", 2, 3),
    ) {
        (Some(path), Some(dev), Some(ino)) => match (path.as_str(), dev.as_u64(), ino.as_u64()) {
            (Some(path), Some(dev), Some(ino)) => Some(
                ProfileIdentity { path: path.to_owned(), dev, ino },
            ),
            _ => None,
        },
        _ => None,
    }
}

/// A text that may be missing or null; nothing where it is neither.
pub open spec fn cdp_in(o: Option<JsonV>) -> Option<Option<Seq<char>>> {
    match o {
        None => Some(None),
        Some(JsonV::Null) => Some(None),
        Some(JsonV::Text(s)) => Some(Some(s)),
        _ => None,
    }
}

pub open spec fn optional_profile(o: Option<JsonV>) -> Option<Option<ProfileIdentityV>> {
    match o {
        None => Some(None),
        Some(JsonV::Null) => Some(None),
        Some(j) => match profile_in(j) {
            Some(p) => Some(Some(p)),
            None => None,
        },
    }
}

pub open spec fn optional_pid(o: Option<JsonV>) -> Option<Option<u32>> {
    match o {
        None => Some(None),
        Some(JsonV::Null) => Some(None),
        Some(j) => match as_u32(j) {
            Some(n) => Some(Some(n)),
            None => None,
        },
    }
}

/// The marker that a JSON value spells. One that is written as a list has at least its first
/// three fields.
pub open spec fn marker_in(j: JsonV) -> Option<OwnershipMarkerV> {
    if j matches JsonV::Array(v) && !(3 <= v.len() <= 5) {
        None
    } else {
        match (
            required_u32(json::part(j, "version"@, 0, 5)),
            required_u32(json::part(j, "pid"@, 1, 5)),
            cdp_in(json::part(j, "cdp"@, 2, 5)),
            optional_profile(json::part(j, "profile"@, 3, 5)),
            optional_pid(json::part(j, "closingDaemonPid"@, 4, 5)),
        ) {
            (
                Some(version),
                Some(pid),
                Some(cdp),
                Some(profile),
                Some(closing_daemon_pid),
            ) => Some(OwnershipMarkerV { version, pid, cdp, profile, closing_daemon_pid }),
            _ => None,
        }
    }
}

pub open spec fn marker_view(o: Option<OwnershipMarker>) -> Option<OwnershipMarkerV> {
    match o {
        Some(m) => Some(m@),
        None => None,
    }
}

/// Reads a marker out of a JSON value.
pub fn read_marker(j: &Json) -> (r: Option<OwnershipMarker>)
    ensures
        marker_view(r) == marker_in(j@),
{
    if let Some(v) = j.as_array() {
        if v.len() < 3 || v.len() > 5 {
            return None;
        }
    }
    let version: u32 = match json::find_part(j, "version", 0, 5) {
        Some(v) => match read_u32(v) {
            Some(n) => n,
            None => {
                return None;
            },
        },
        None => {
            return None;
        },
    };
    let pid: u32 = match json::find_part(j, "pid", 1, 5) {
        Some(v) => match read_u32(v) {
            Some(n) => n,
            None => {
                return None;
            },
        },
        None => {
            return None;
        },
    };
    let cdp: Option<String> = match json::find_part(j, "cdp", 2, 5) {
        None => None,
        Some(Json::Null) => None,
        Some(Json::Text(s)) => Some(s.clone()),
        _ => {
            return None;
        },
    };
    let profile: Option<ProfileIdentity> = match json::find_part(j, "profile", 3, 5) {
        None => None,
        Some(v) => if v.is_null() {
            None
        } else {
            match read_profile(v) {
                Some(p) => Some(p),
                None => {
                    return None;
                },
            }
        },
    };
    let closing_daemon_pid: Option<u32> = match json::find_part(j, "closingDaemonPid", 4, 5) {
        None => None,
        Some(v) => if v.is_null() {
            None
        } else {
            match read_u32(v) {
                Some(n) => Some(n),
                None => {
                    return None;
                },
            }
        },
    };
    Some(OwnershipMarker { version, pid, cdp, profile, closing_daemon_pid })
}

impl ProfileIdentityV {
    pub open spec fn json(self) -> JsonV {
        JsonV::object().with("path"@, JsonV::Text(self.path)).with(
            "dev"@,
            JsonV::unsigned(self.dev),
        ).with("ino"@, JsonV::unsigned(self.ino))
    }
}

impl OwnershipMarkerV {
    pub open spec fn json(self) -> JsonV {
        JsonV::object().with("version"@, JsonV::unsigned(self.version as u64)).with(
            "pid"@,
            JsonV::unsigned(self.pid as u64),
        ).with("cdp"@, JsonV::optional_text(self.cdp)).with(
            "profile"@,
            match self.profile {
                Some(p) => p.json(),
                None => JsonV::Null,
            },
        ).with(
            "closingDaemonPid"@,
            match self.closing_daemon_pid {
                Some(n) => JsonV::unsigned(n as u64),
                None => JsonV::Null,
            },
        )
    }
}

impl OwnershipMarker {
    pub fn to_json(&self) -> (r: Json)
        ensures
            r@ == self@.json(),
    {
        let profile: Json = match &self.profile {
            Some(p) => Json::object().with("path", Json::text(p.path.as_str())).with(
                "dev",
                Json::unsigned(p.dev),
            ).with("ino", Json::unsigned(p.ino)),
            None => Json::Null,
        };
        let closing: Json = match self.closing_daemon_pid {
            Some(n) => Json::unsigned(n as u64),
            None => Json::Null,
        };
        Json::object().with("version", Json::unsigned(self.version as u64)).with(
            "pid",
            Json::unsigned(self.pid as u64),
        ).with("cdp", json::optional(&self.cdp)).with("profile", profile).with(
            "closingDaemonPid",
            closing,
        )
    }

    /// The text of a marker's file, which is read back as the same marker.
    pub fn to_text(&self) -> (r: String)
        ensures
            r@ == json::json_text(self@.json()),
            marker_in_text(r@) == Some(self@),
    {
        proof {
            lemma_marker_is_plain(self@);
            markers_are_read_back(self@);
        }
        let r: String = self.to_json().to_text();
        proof {
            lemma_marker_is_spelled_once(r@, self@);
        }
        r
    }
}

proof fn lemma_marker_is_spelled_once(s: Seq<char>, m: OwnershipMarkerV)
    requires
        members::is_spelled(s, m.json(), json::PLAIN_DEPTH as nat),
    ensures
        !names_twice(s),
{
    broadcast use json::lemma_get_with;

    let depth = json::PLAIN_DEPTH as nat;
    lemma_marker_is_plain(m);
    markers_are_read_back(m);
    let j = m.json();
    let all = j->Object_0;
    members::lemma_spelled_once(
        s,
        all,
        depth,
        seq!["version"@, "pid"@, "cdp"@, "profile"@, "closingDaemonPid"@],
    );
    assert(json::lookup(all, "version"@) is Some);
    assert(all.len() > 0);
    assert forall|k: int| 0 <= k < all.len() && (#[trigger] all[k]).0 == "profile"@ implies match all[k].1 {
        JsonV::Object(inner) => json::in_order(inner),
        _ => true,
    } by {
        assert(json::is_plain(all[k].1, (depth - 1) as nat));
    }
    members::lemma_field_spelled_once(
        s,
        all,
        depth,
        "profile"@,
        3,
        seq!["path"@, "dev"@, "ino"@],
    );
}

proof fn lemma_marker_is_plain(m: OwnershipMarkerV)
    ensures
        json::is_plain(m.json(), json::PLAIN_DEPTH as nat),
{
    let depth = json::PLAIN_DEPTH as nat;
    let inner = (depth - 1) as nat;
    let profile = match m.profile {
        Some(p) => p.json(),
        None => JsonV::Null,
    };
    if let Some(p) = m.profile {
        let a = JsonV::object();
        json::lemma_plain_with(a, "path"@, JsonV::Text(p.path), inner);
        let a = a.with("path"@, JsonV::Text(p.path));
        json::lemma_plain_with(a, "dev"@, JsonV::unsigned(p.dev), inner);
        let a = a.with("dev"@, JsonV::unsigned(p.dev));
        json::lemma_plain_with(a, "ino"@, JsonV::unsigned(p.ino), inner);
    }
    let closing = match m.closing_daemon_pid {
        Some(n) => JsonV::unsigned(n as u64),
        None => JsonV::Null,
    };
    let a = JsonV::object();
    json::lemma_plain_with(a, "version"@, JsonV::unsigned(m.version as u64), depth);
    let a = a.with("version"@, JsonV::unsigned(m.version as u64));
    json::lemma_plain_with(a, "pid"@, JsonV::unsigned(m.pid as u64), depth);
    let a = a.with("pid"@, JsonV::unsigned(m.pid as u64));
    json::lemma_plain_with(a, "cdp"@, JsonV::optional_text(m.cdp), depth);
    let a = a.with("cdp"@, JsonV::optional_text(m.cdp));
    json::lemma_plain_with(a, "profile"@, profile, depth);
    let a = a.with("profile"@, profile);
    json::lemma_plain_with(a, "closingDaemonPid"@, closing, depth);
}

/// A marker that is written is read back as it was.
pub proof fn markers_are_read_back(m: OwnershipMarkerV)
    ensures
        marker_in(m.json()) == Some(m),
{
    broadcast use json::lemma_get_with;

    reveal_strlit("version");
    reveal_strlit("pid");
    reveal_strlit("cdp");
    reveal_strlit("profile");
    reveal_strlit("closingDaemonPid");
    reveal_strlit("path");
    reveal_strlit("dev");
    reveal_strlit("ino");
    assert("version"@[0] != "profile"@[0]);
    assert("pid"@[0] != "cdp"@[0]);
    assert("dev"@[0] != "ino"@[0]);
    let j = m.json();
    if let Some(p) = m.profile {
        assert(profile_in(p.json()) == Some(p));
        assert(!(p.json() is Null));
    }
    assert("cdp"@.len() == 3 && "pid"@.len() == 3);
    assert("version"@.len() == 7 && "profile"@.len() == 7);
    assert("closingDaemonPid"@.len() == 16);
    assert(j.get("version"@) == Some(JsonV::unsigned(m.version as u64)));
    assert(j.get("pid"@) == Some(JsonV::unsigned(m.pid as u64)));
    assert(j.get("cdp"@) == Some(JsonV::optional_text(m.cdp)));
    assert(json::part(j, "version"@, 0, 5) == Some(JsonV::unsigned(m.version as u64)));
    assert(json::part(j, "pid"@, 1, 5) == Some(JsonV::unsigned(m.pid as u64)));
    assert(json::part(j, "cdp"@, 2, 5) == Some(JsonV::optional_text(m.cdp)));
    assert(optional_profile(json::part(j, "profile"@, 3, 5)) == Some(m.profile));
    assert(optional_pid(json::part(j, "closingDaemonPid"@, 4, 5)) == Some(m.closing_daemon_pid));
    assert(cdp_in(json::part(j, "cdp"@, 2, 5)) == Some(m.cdp));
}

/// Why a marker's file is not read.
pub open spec fn marker_file_problem(f: FileFacts, user: u32) -> Option<FailureV> {
    if f.file && !f.symlink && f.uid == user && f.permissions() == files::PRIVATE_FILE && f.size
        <= MAX_MARKER_BYTES {
        None
    } else {
        Some(
            FailureV::Message(
                "BROWSER_CLEANUP_FAILED: invalid persisted browser ownership marker"@,
            ),
        )
    }
}

pub fn check_marker_file(f: &FileFacts, user: u32) -> (r: Result<(), Failure>)
    ensures
        files::refusal(r) == marker_file_problem(*f, user),
{
    if f.file && !f.symlink && f.uid == user && f.has_permissions(files::PRIVATE_FILE) && f.size
        <= MAX_MARKER_BYTES as u64 {
        Ok(())
    } else {
        Err(
            Failure::new("BROWSER_CLEANUP_FAILED: invalid persisted browser ownership marker"),
        )
    }
}

/// The marker that was found, where it is one of this profile.
pub open spec fn accepted_marker(found: Option<OwnershipMarkerV>, profile: ProfileIdentityV) -> Result<
    OwnershipMarkerV,
    FailureV,
> {
    match found {
        None => Err(
            FailureV::Message("BROWSER_CLEANUP_FAILED: invalid browser ownership marker"@),
        ),
        Some(m) => if m.version != 1 && m.version != 2 {
            Err(
                FailureV::Message("BROWSER_CLEANUP_FAILED: unsupported browser ownership marker"@),
            )
        } else if m.version == 2 && m.profile != Some(profile) {
            Err(FailureV::Message("BROWSER_CLEANUP_FAILED: browser profile identity changed"@))
        } else {
            match m.cdp {
                Some(endpoint) => match endpoint_problem(endpoint) {
                    Some(e) => Err(e),
                    None => Ok(m),
                },
                None => Ok(m),
            }
        },
    }
}

/// Whether the text of a marker names one of its fields, or of those of its profile, twice.
pub open spec fn names_twice(s: Seq<char>) -> bool {
    ||| members::repeats(s, seq!["version"@, "pid"@, "cdp"@, "profile"@, "closingDaemonPid"@])
    ||| members::field_repeats(s, "profile"@, 3, seq!["path"@, "dev"@, "ino"@])
}

/// The fields of a marker, and those of its profile.
pub open spec fn marker_fields() -> Seq<(Seq<char>, InnerV)> {
    seq![
        ("version"@, InnerV::Plain),
        ("pid"@, InnerV::Plain),
        ("cdp"@, InnerV::Plain),
        ("profile"@, InnerV::Record(seq!["path"@, "dev"@, "ino"@])),
        ("closingDaemonPid"@, InnerV::Plain),
    ]
}

/// The marker that a text spells. One that names a field twice spells none.
pub open spec fn marker_in_text(s: Seq<char>) -> Option<OwnershipMarkerV> {
    match members::record_value(s, marker_fields()) {
        Some(j) => if names_twice(s) {
            None
        } else {
            marker_in(j)
        },
        None => None,
    }
}

/// Reads a marker out of the text of its file.
pub fn read_marker_text(s: &str) -> (r: Option<OwnershipMarker>)
    ensures
        marker_view(r) == marker_in_text(s@),
{
    let fields: [&str; 5] = ["version", "pid", "cdp", "profile", "closingDaemonPid"];
    let inner: [&str; 3] = ["path", "dev", "ino"];
    assert(widgets::slices(fields@) =~= seq![
        "version"@,
        "pid"@,
        "cdp"@,
        "profile"@,
        "closingDaemonPid"@,
    ]);
    assert(widgets::slices(inner@) =~= seq!["path"@, "dev"@, "ino"@]);
    let kinds: [(&str, Inner); 5] = [
        ("version", Inner::Plain),
        ("pid", Inner::Plain),
        ("cdp", Inner::Plain),
        ("profile", Inner::Record(&inner)),
        ("closingDaemonPid", Inner::Plain),
    ];
    assert(members::fields_of(kinds@) =~= marker_fields());
    match members::read_record(s, &kinds) {
        Some(j) => if members::has_repeats(s, &fields) || members::has_field_repeats(
            s,
            "profile",
            3,
            &inner,
        ) {
            None
        } else {
            read_marker(&j)
        },
        None => None,
    }
}

/// The marker that was read of a file, where it is one of this profile.
pub fn accept_marker(found: Option<OwnershipMarker>, profile: &ProfileIdentity) -> (r: Result<
    OwnershipMarker,
    Failure,
>)
    ensures
        failure::outcome(r) == accepted_marker(marker_view(found), profile@),
{
    let m: OwnershipMarker = match found {
        Some(m) => m,
        None => {
            return Err(Failure::new("BROWSER_CLEANUP_FAILED: invalid browser ownership marker"));
        },
    };
    if m.version != 1 && m.version != 2 {
        return Err(
            Failure::new("BROWSER_CLEANUP_FAILED: unsupported browser ownership marker"),
        );
    }
    if m.version == 2 {
        let same: bool = match &m.profile {
            Some(p) => text::same(p.path.as_str(), profile.path.as_str()) && p.dev == profile.dev
                && p.ino == profile.ino,
            None => false,
        };
        if !same {
            return Err(Failure::new("BROWSER_CLEANUP_FAILED: browser profile identity changed"));
        }
    }
    if let Some(endpoint) = &m.cdp {
        match validate_cdp_endpoint(endpoint.as_str()) {
            Ok(_) => {},
            Err(e) => {
                return Err(e);
            },
        }
    }
    Ok(m)
}

/// Whether a marker binds its session to its profile.
pub open spec fn is_bound(m: Option<OwnershipMarkerV>) -> bool {
    m matches Some(m) && m.version == 2 && m.profile is Some
}

pub fn binds_profile(m: &Option<OwnershipMarker>) -> (r: bool)
    ensures
        r == is_bound(marker_view(*m)),
{
    match m {
        Some(m) => m.version == 2 && m.profile.is_some(),
        None => false,
    }
}

/// The marker of a session whose daemon is being closed.
pub open spec fn closing_marker(
    m: Option<OwnershipMarkerV>,
    daemon: u32,
    pid: u32,
    profile: ProfileIdentityV,
) -> Result<OwnershipMarkerV, FailureV> {
    if daemon <= 1 {
        Err(FailureV::Message("BROWSER_CLEANUP_FAILED: invalid browser daemon identity"@))
    } else {
        match m {
            None => Err(FailureV::Browser(BrowserErrorV::CleanupFailed)),
            Some(m) => if m.version != 2 {
                Err(FailureV::Browser(BrowserErrorV::CleanupFailed))
            } else {
                owned_marker(pid, m.cdp, profile, Some(daemon))
            },
        }
    }
}

/// The marker of a session that owns a browser.
pub open spec fn owned_marker(
    pid: u32,
    cdp: Option<Seq<char>>,
    profile: ProfileIdentityV,
    daemon: Option<u32>,
) -> Result<OwnershipMarkerV, FailureV> {
    if cdp matches Some(endpoint) && endpoint_problem(endpoint) is Some {
        Err(endpoint_problem(cdp->Some_0)->Some_0)
    } else {
        Ok(
            OwnershipMarkerV {
                version: 2,
                pid,
                cdp,
                profile: Some(profile),
                closing_daemon_pid: daemon,
            },
        )
    }
}

/// The marker of a session that owns a browser.
pub fn make_marker(
    pid: u32,
    cdp: Option<&str>,
    profile: ProfileIdentity,
    daemon: Option<u32>,
) -> (r: Result<OwnershipMarker, Failure>)
    ensures
        failure::outcome(r) == owned_marker(pid, json::str_of(cdp), profile@, daemon),
{
    let kept: Option<String> = match cdp {
        Some(endpoint) => match validate_cdp_endpoint(endpoint) {
            Ok(_) => Some(endpoint.to_owned()),
            Err(e) => {
                return Err(e);
            },
        },
        None => None,
    };
    Ok(
        OwnershipMarker {
            version: 2,
            pid,
            cdp: kept,
            profile: Some(profile),
            closing_daemon_pid: daemon,
        },
    )
}

/// The marker of a session whose daemon is being closed.
pub fn mark_closing(
    marker: Option<OwnershipMarker>,
    daemon: u32,
    pid: u32,
    profile: ProfileIdentity,
) -> (r: Result<OwnershipMarker, Failure>)
    ensures
        failure::outcome(r) == closing_marker(marker_view(marker), daemon, pid, profile@),
{
    if daemon <= 1 {
        return Err(Failure::new("BROWSER_CLEANUP_FAILED: invalid browser daemon identity"));
    }
    match marker {
        None => Err(Failure::Browser(BrowserError::CleanupFailed)),
        Some(m) => {
            if m.version != 2 {
                return Err(Failure::Browser(BrowserError::CleanupFailed));
            }
            match m.cdp {
                Some(cdp) => make_marker(pid, Some(cdp.as_str()), profile, Some(daemon)),
                None => make_marker(pid, None, profile, Some(daemon)),
            }
        },
    }
}

/// A marker that is written for a profile is accepted for it.
pub proof fn written_markers_are_accepted(
    pid: u32,
    cdp: Option<Seq<char>>,
    profile: ProfileIdentityV,
    daemon: Option<u32>,
)
    ensures
        owned_marker(pid, cdp, profile, daemon) matches Ok(m) ==> accepted_marker(
            marker_in(m.json()),
            profile,
        ) == Ok::<OwnershipMarkerV, FailureV>(m) && is_bound(Some(m)),
{
    if let Ok(m) = owned_marker(pid, cdp, profile, daemon) {
        markers_are_read_back(m);
    }
}

/// A marker of another profile is never accepted.
pub proof fn markers_bind_their_profile(
    pid: u32,
    cdp: Option<Seq<char>>,
    profile: ProfileIdentityV,
    daemon: Option<u32>,
    other: ProfileIdentityV,
)
    requires
        other != profile,
    ensures
        owned_marker(pid, cdp, profile, daemon) matches Ok(m) ==> accepted_marker(
            marker_in(m.json()),
            other,
        ) is Err,
{
    if let Ok(m) = owned_marker(pid, cdp, profile, daemon) {
        markers_are_read_back(m);
    }
}

/// What follows in the recovery of a poisoned session: the noted daemon is looked for and
/// closed first, then the browser itself.
#[derive(Clone, Copy, Debug, PartialEq, Eq, Structural)]
pub enum RecoveryStep {
    ConfirmAbsent { daemon: u32 },
    CloseRecorded { daemon: u32 },
    CloseBrowser,
    Recovered,
}

pub open spec fn recovery_start(m: Option<OwnershipMarkerV>) -> Result<RecoveryStep, FailureV> {
    match m {
        None => Err(FailureV::Browser(BrowserErrorV::SessionPoisoned)),
        Some(m) => match m.closing_daemon_pid {
            Some(daemon) => Ok(RecoveryStep::ConfirmAbsent { daemon }),
            None => Ok(RecoveryStep::CloseBrowser),
        },
    }
}

pub fn start_recovery(m: &Option<OwnershipMarker>) -> (r: Result<RecoveryStep, Failure>)
    ensures
        image_hosts::plain(r) == recovery_start(marker_view(*m)),
{
    match m {
        None => Err(Failure::Browser(BrowserError::SessionPoisoned)),
        Some(m) => match m.closing_daemon_pid {
            Some(daemon) => Ok(RecoveryStep::ConfirmAbsent { daemon }),
            None => Ok(RecoveryStep::CloseBrowser),
        },
    }
}

pub open spec fn recovery_next(step: RecoveryStep, done: bool) -> RecoveryStep {
    match step {
        RecoveryStep::ConfirmAbsent { daemon } => if done {
            RecoveryStep::Recovered
        } else {
            RecoveryStep::CloseRecorded { daemon }
        },
        RecoveryStep::CloseRecorded { .. } => if done {
            RecoveryStep::Recovered
        } else {
            RecoveryStep::CloseBrowser
        },
        _ => step,
    }
}

pub fn advance_recovery(step: RecoveryStep, done: bool) -> (r: RecoveryStep)
    ensures
        r == recovery_next(step, done),
{
    match step {
        RecoveryStep::ConfirmAbsent { daemon } => if done {
            RecoveryStep::Recovered
        } else {
            RecoveryStep::CloseRecorded { daemon }
        },
        RecoveryStep::CloseRecorded { .. } => if done {
            RecoveryStep::Recovered
        } else {
            RecoveryStep::CloseBrowser
        },
        _ => step,
    }
}

/// Whether the driver is the version that the session is made for.
pub fn is_known_driver(exited: bool, output: &str) -> (r: bool)
    ensures
        r == (exited && text::trimmed(output@) == "agent-browser 0.36.0"@),
{
    let bare: String = text::trim(output);
    exited && text::same(bare.as_str(), "agent-browser 0.36.0")
}

/// Whether the file of a daemon names the version that the session is made for.
pub fn is_known_daemon(version: &str) -> (r: bool)
    ensures
        r == (version@ == "0.36.0"@),
{
    text::same(version, "0.36.0")
}

/// Whether a window is shown: only where it was asked for.
pub fn is_headed(headless: Option<&str>) -> (r: bool)
    ensures
        r == (headless matches Some(s) && text::lowercase(text::trimmed(s@)) == "false"@),
{
    match headless {
        Some(s) => {
            let bare: String = text::trim(s);
            let lowered: String = text::to_ascii_lowercase(bare.as_str());
            text::same(lowered.as_str(), "false")
        },
        None => false,
    }
}

/// Whether the text of a daemon's reply names one of its fields, or of those of its data,
/// twice.
pub open spec fn reply_names_twice(s: Seq<char>, fields: Seq<Seq<char>>) -> bool {
    ||| members::repeats(s, seq!["id"@, "success"@, "data"@])
    ||| members::field_repeats(s, "data"@, 2, fields)
}

/// The fields of a daemon's data: those of its session, or that of its end.
pub open spec fn data_fields(closing: bool) -> Seq<Seq<char>> {
    if closing {
        seq!["closed"@]
    } else {
        seq!["backgroundPid"@, "browserLaunched"@, "pageCount"@]
    }
}

/// What a line of a daemon spells. One that names a field twice spells nothing.
pub open spec fn reply_in_text(s: Seq<char>, closing: bool) -> Option<JsonV> {
    if reply_names_twice(s, data_fields(closing)) {
        None
    } else {
        members::record_value(
            s,
            seq![
                ("id"@, InnerV::Plain),
                ("success"@, InnerV::Plain),
                ("data"@, InnerV::Record(data_fields(closing))),
            ],
        )
    }
}

/// Reads a line of a daemon, in reply to a request for its session's facts or for its end.
pub fn read_daemon_reply(s: &str, closing: bool) -> (r: Option<Json>)
    ensures
        json::read_of(r) == reply_in_text(s@, closing),
{
    let fields: [&str; 3] = ["id", "success", "data"];
    let facts: [&str; 3] = ["backgroundPid", "browserLaunched", "pageCount"];
    let end: [&str; 1] = ["closed"];
    assert(widgets::slices(fields@) =~= seq!["id"@, "success"@, "data"@]);
    assert(widgets::slices(facts@) =~= seq!["backgroundPid"@, "browserLaunched"@, "pageCount"@]);
    assert(widgets::slices(end@) =~= seq!["closed"@]);
    let own: &[&str] = if closing {
        &end
    } else {
        &facts
    };
    assert(widgets::slices(own@) == data_fields(closing));
    let kinds: [(&str, Inner); 3] = [
        ("id", Inner::Plain),
        ("success", Inner::Plain),
        ("data", Inner::Record(own)),
    ];
    assert(members::fields_of(kinds@) =~= seq![
        ("id"@, InnerV::Plain),
        ("success"@, InnerV::Plain),
        ("data"@, InnerV::Record(data_fields(closing))),
    ]);
    if members::has_repeats(s, &fields) || members::has_field_repeats(s, "data", 2, own) {
        None
    } else {
        members::read_record(s, &kinds)
    }
}

/// A field of a daemon's reply, or of its data; null where there is none.
pub open spec fn reply_field(j: JsonV, key: Seq<char>, place: int, count: int) -> JsonV {
    match json::part(j, key, place, count) {
        Some(v) => v,
        None => JsonV::Null,
    }
}

fn find_reply_field<'a>(j: &'a Json, key: &str, place: usize, count: usize) -> (r: &'a Json)
    ensures
        r@ == reply_field(j@, key@, place as int, count as int),
{
    match json::find_part(j, key, place, count) {
        Some(v) => v,
        None => &Json::Null,
    }
}

/// Whether a daemon's reply to a request for the session's facts is its own: the process
/// number, whether a browser was launched, and how many pages it has.
pub open spec fn session_facts(
    reply: JsonV,
    id: Seq<char>,
    pid: u32,
    most_pages: u64,
) -> Option<(bool, u64)> {
    let data = reply_field(reply, "data"@, 2, 3);
    match (
        reply_field(reply, "id"@, 0, 3).as_text(),
        reply_field(reply, "success"@, 1, 3).as_bool(),
        as_u32(reply_field(data, "backgroundPid"@, 0, 3)),
        reply_field(data, "browserLaunched"@, 1, 3).as_bool(),
        reply_field(data, "pageCount"@, 2, 3).as_unsigned(),
    ) {
        (Some(i), Some(ok), Some(n), Some(launched), Some(pages)) => if i == id && ok && n == pid
            && pages <= most_pages {
            Some((launched, pages))
        } else {
            None
        },
        _ => None,
    }
}

/// What a daemon's reply says of its session: whether a browser was launched, and how many
/// pages it has. Nothing where the reply is not that of this daemon to this request, or names
/// more pages than there can be.
pub fn read_session_facts(reply: &Json, id: &str, pid: u32, most_pages: u64) -> (r: Option<
    (bool, u64),
>)
    ensures
        r == session_facts(reply@, id@, pid, most_pages),
{
    let data: &Json = find_reply_field(reply, "data", 2, 3);
    match (
        find_reply_field(reply, "id", 0, 3).as_str(),
        find_reply_field(reply, "success", 1, 3).as_bool(),
        read_u32(find_reply_field(data, "backgroundPid", 0, 3)),
        find_reply_field(data, "browserLaunched", 1, 3).as_bool(),
        find_reply_field(data, "pageCount", 2, 3).as_u64(),
    ) {
        (Some(i), Some(ok), Some(n), Some(launched), Some(pages)) => if text::same(i, id) && ok
            && n == pid && pages <= most_pages {
            Some((launched, pages))
        } else {
            None
        },
        _ => None,
    }
}

/// Whether a daemon's reply confirms that it closes.
pub open spec fn confirms_close(reply: JsonV, id: Seq<char>) -> bool {
    &&& reply_field(reply, "id"@, 0, 3) == JsonV::Text(id)
    &&& reply_field(reply, "success"@, 1, 3) == JsonV::Bool(true)
    &&& reply_field(reply_field(reply, "data"@, 2, 3), "closed"@, 0, 1) == JsonV::Bool(true)
}

pub fn is_close_confirmed(reply: &Json, id: &str) -> (r: bool)
    ensures
        r == confirms_close(reply@, id@),
{
    match (
        find_reply_field(reply, "id", 0, 3).as_str(),
        find_reply_field(reply, "success", 1, 3).as_bool(),
        find_reply_field(find_reply_field(reply, "data", 2, 3), "closed", 0, 1).as_bool(),
    ) {
        (Some(i), Some(ok), Some(closed)) => text::same(i, id) && ok && closed,
        _ => false,
    }
}

/// The request of a session's facts, and that of its end.
pub fn daemon_request(id: &str, action: &str) -> (r: Json)
    ensures
        r@ == JsonV::object().with("id"@, JsonV::Text(id@)).with(
            "action"@,
            JsonV::Text(action@),
        ),
{
    Json::object().with("id", Json::text(id)).with("action", Json::text(action))
}

/// The arguments in front of every command to the driver.
pub open spec fn driver_args_of(
    config: Seq<char>,
    profile: Seq<char>,
    headed: bool,
    executable: Option<Seq<char>>,
    user_agent: Option<Seq<char>>,
) -> Seq<Seq<char>> {
    let common = seq![
        "--config"@,
        config,
        "--session"@,
        "ozon"@,
        "--profile"@,
        profile,
        "--headed"@,
        if headed {
            "true"@
        } else {
            "false"@
        },
        "--no-webmcp"@,
        "--idle-timeout"@,
        "0"@,
        "--args"@,
        "--disable-blink-features=AutomationControlled,--mute-audio,--lang=ru-RU,--no-first-run,--no-default-browser-check,--disable-extensions,--disable-background-networking"@,
        "--json"@,
    ];
    let chosen = match executable {
        Some(path) => common.push("--executable-path"@).push(path),
        None => common,
    };
    match user_agent {
        Some(agent) => chosen.push("--user-agent"@).push(agent),
        None => chosen,
    }
}

fn push_text(out: &mut Vec<String>, s: &str)
    ensures
        text::texts(final(out)@) == text::texts(old(out)@).push(s@),
{
    let one: String = s.to_owned();
    proof {
        text::lemma_texts_push(out@, one);
    }
    out.push(one);
}

/// The arguments in front of every command to the driver: one session, one profile, no window
/// unless it was asked for, replies in JSON.
pub fn driver_args(
    config: &str,
    profile: &str,
    headed: bool,
    executable: Option<&str>,
    user_agent: Option<&str>,
) -> (r: Vec<String>)
    ensures
        text::texts(r@) == driver_args_of(
            config@,
            profile@,
            headed,
            json::str_of(executable),
            json::str_of(user_agent),
        ),
{
    let mut out: Vec<String> = Vec::new();
    push_text(&mut out, "--config");
    push_text(&mut out, config);
    push_text(&mut out, "--session");
    push_text(&mut out, "ozon");
    push_text(&mut out, "--profile");
    push_text(&mut out, profile);
    push_text(&mut out, "--headed");
    push_text(
        &mut out,
        if headed {
            "true"
        } else {
            "false"
        },
    );
    push_text(&mut out, "--no-webmcp");
    push_text(&mut out, "--idle-timeout");
    push_text(&mut out, "0");
    push_text(&mut out, "--args");
    push_text(
        &mut out,
        "--disable-blink-features=AutomationControlled,--mute-audio,--lang=ru-RU,--no-first-run,--no-default-browser-check,--disable-extensions,--disable-background-networking",
    );
    push_text(&mut out, "--json");
    assert(text::texts(out@) =~= driver_args_of(config@, profile@, headed, None, None));
    if let Some(path) = executable {
        push_text(&mut out, "--executable-path");
        push_text(&mut out, path);
    }
    if let Some(agent) = user_agent {
        push_text(&mut out, "--user-agent");
        push_text(&mut out, agent);
    }
    out
}

/// Refuses a profile directory whose identity cannot be relied on: one whose path breaks a
/// line or is no text, that is no directory, or that is another user's.
pub fn check_profile(f: &FileFacts, user: u32, one_line: bool) -> (r: Result<(), Failure>)
    ensures
        files::refusal(r) == (if !one_line {
            Some(FailureV::Message("BROWSER_CLEANUP_FAILED: invalid browser profile path"@))
        } else if !f.directory || f.symlink || f.uid != user {
            Some(FailureV::Message("BROWSER_CLEANUP_FAILED: invalid browser profile identity"@))
        } else {
            None
        }),
{
    if !one_line {
        return Err(Failure::new("BROWSER_CLEANUP_FAILED: invalid browser profile path"));
    }
    if !f.directory || f.symlink || f.uid != user {
        return Err(Failure::new("BROWSER_CLEANUP_FAILED: invalid browser profile identity"));
    }
    Ok(())
}

/// Why a marker is not written or read.
#[derive(Clone, Copy, Debug, PartialEq, Eq, Structural)]
pub enum MarkerFault {
    Changed,
    TooLarge,
    Vanished,
    NotStaged,
    StagedShared,
    NotCommitted,
    NotReleased,
}

pub fn marker_failure(fault: MarkerFault) -> (r: Failure)
    ensures
        r@ == FailureV::Message(
            match fault {
                MarkerFault::Changed => "BROWSER_CLEANUP_FAILED: browser ownership marker changed"@,
                MarkerFault::TooLarge =>
                    "BROWSER_CLEANUP_FAILED: browser ownership marker is too large"@,
                MarkerFault::Vanished =>
                    "BROWSER_CLEANUP_FAILED: browser ownership marker vanished"@,
                MarkerFault::NotStaged => "BROWSER_CLEANUP_FAILED: cannot stage browser ownership"@,
                MarkerFault::StagedShared =>
                    "BROWSER_CLEANUP_FAILED: invalid staged browser ownership"@,
                MarkerFault::NotCommitted =>
                    "BROWSER_CLEANUP_FAILED: cannot commit browser ownership"@,
                MarkerFault::NotReleased =>
                    "BROWSER_CLEANUP_FAILED: cannot release browser ownership"@,
            },
        ),
{
    match fault {
        MarkerFault::Changed => Failure::new(
            "BROWSER_CLEANUP_FAILED: browser ownership marker changed",
        ),
        MarkerFault::TooLarge => Failure::new(
            "BROWSER_CLEANUP_FAILED: browser ownership marker is too large",
        ),
        MarkerFault::Vanished => Failure::new(
            "BROWSER_CLEANUP_FAILED: browser ownership marker vanished",
        ),
        MarkerFault::NotStaged => Failure::new(
            "BROWSER_CLEANUP_FAILED: cannot stage browser ownership",
        ),
        MarkerFault::StagedShared => Failure::new(
            "BROWSER_CLEANUP_FAILED: invalid staged browser ownership",
        ),
        MarkerFault::NotCommitted => Failure::new(
            "BROWSER_CLEANUP_FAILED: cannot commit browser ownership",
        ),
        MarkerFault::NotReleased => Failure::new(
            "BROWSER_CLEANUP_FAILED: cannot release browser ownership",
        ),
    }
}

/// Where the work of a driver's process failed.
#[derive(Clone, Copy, Debug, PartialEq, Eq, Structural)]
pub enum DriverFault {
    Startup,
    StdinWrite,
    StdinShutdown,
    StdoutRead,
    ResponseSize,
    StderrDrain,
    Wait,
}

pub fn driver_fault(fault: DriverFault) -> (r: Failure)
    ensures
        r@ == driver_failed(
            match fault {
                DriverFault::Startup => "process startup"@,
                DriverFault::StdinWrite => "stdin write"@,
                DriverFault::StdinShutdown => "stdin shutdown"@,
                DriverFault::StdoutRead => "stdout read"@,
                DriverFault::ResponseSize => "response size check"@,
                DriverFault::StderrDrain => "stderr drain"@,
                DriverFault::Wait => "process wait"@,
            },
        ),
{
    match fault {
        DriverFault::Startup => driver_failure("process startup"),
        DriverFault::StdinWrite => driver_failure("stdin write"),
        DriverFault::StdinShutdown => driver_failure("stdin shutdown"),
        DriverFault::StdoutRead => driver_failure("stdout read"),
        DriverFault::ResponseSize => driver_failure("response size check"),
        DriverFault::StderrDrain => driver_failure("stderr drain"),
        DriverFault::Wait => driver_failure("process wait"),
    }
}

/// How a command to the driver ended.
#[derive(Debug)]
pub enum CommandEnd {
    Cancelled,
    TimedOut,
    Done(Result<Json, Failure>),
}

/// What a command returns, and whether the browser must be closed first: a command that was
/// broken off may still run in it.
pub open spec fn command_result(end: CommandEnd) -> (Result<JsonV, FailureV>, bool) {
    match end {
        CommandEnd::Cancelled => (Err(FailureV::Browser(BrowserErrorV::Cancelled)), true),
        CommandEnd::TimedOut => (Err(FailureV::Browser(BrowserErrorV::CommandTimeout)), true),
        CommandEnd::Done(r) => (failure::outcome(r), false),
    }
}

/// What a command returns, and whether the browser must be closed first.
pub fn end_command(end: CommandEnd) -> (r: (Result<Json, Failure>, bool))
    ensures
        (failure::outcome(r.0), r.1) == command_result(end),
{
    match end {
        CommandEnd::Cancelled => (Err(Failure::Browser(BrowserError::Cancelled)), true),
        CommandEnd::TimedOut => (Err(Failure::Browser(BrowserError::CommandTimeout)), true),
        CommandEnd::Done(r) => (r, false),
    }
}

/// The endpoint that is known of a session.
pub fn known_endpoint(state: &SessionState) -> (r: Option<String>)
    ensures
        text::text_of(r) == match state@ {
            SessionStateV::Running(cdp) => Some(cdp),
            _ => None,
        },
{
    match state {
        SessionState::Running { cdp } => Some(cdp.clone()),
        _ => None,
    }
}

} // verus!
