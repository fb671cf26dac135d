//! The one broker behind all frontends: what is said over its socket, and how.

use crate::contracts::{self, ToolReply};
use crate::failure::{Failure, FailureV};
use crate::files;
use crate::json::Json;
use crate::service;
use crate::text;
use vstd::prelude::*;

verus! {

pub const PROTOCOL_VERSION: u32 = 1;

pub const MAX_REQUEST_BYTES: usize = 131_072;

pub const MAX_RESPONSE_BYTES: usize = 8_388_608;

pub const MAX_CLIENTS: usize = 32;

pub const MAX_TOOL_NAME_BYTES: usize = 128;

/// What a frontend asks.
#[derive(Debug)]
pub enum BrokerRequest {
    Ping { version: u32 },
    Call { version: u32, name: String, args: Json },
}

/// What the broker answers.
#[derive(Debug)]
pub enum BrokerResponse {
    Pong { version: u32 },
    Reply { version: u32, reply: ToolReply },
    Error { version: u32, message: String },
}

/// Whether a tool may have this name.
pub open spec fn is_tool_name(name: Seq<char>) -> bool {
    0 < name.len() && text::utf8_len(name) <= MAX_TOOL_NAME_BYTES
}

/// Refuses a name that no tool can have.
pub fn check_tool_name(name: &str) -> (r: Result<(), Failure>)
    ensures
        files::refusal(r) == (if is_tool_name(name@) {
            None
        } else {
            Some(FailureV::Message("INVALID_ARGUMENT: invalid tool name"@))
        }),
{
    if !name.is_empty() && text::utf8_length(name) <= MAX_TOOL_NAME_BYTES {
        Ok(())
    } else {
        Err(Failure::new("INVALID_ARGUMENT: invalid tool name"))
    }
}

/// What a request leads to: an answer, or a call whose answer is yet to come.
#[derive(Debug)]
pub enum Handling {
    Answer(BrokerResponse),
    Call { name: String, args: Json },
}

/// Whether a request is answered by an error with this message.
pub open spec fn is_refused(h: Handling, message: Seq<char>) -> bool {
    h matches Handling::Answer(BrokerResponse::Error { version, message: m }) && version
        == PROTOCOL_VERSION && m@ == message
}

/// The error that a request is answered by, where it is.
pub open spec fn request_problem(request: BrokerRequest) -> Option<Seq<char>> {
    match request {
        BrokerRequest::Ping { version } => if version != PROTOCOL_VERSION {
            Some("SOURCE_CHANGED: incompatible broker protocol version"@)
        } else {
            None
        },
        BrokerRequest::Call { version, name, .. } => if version != PROTOCOL_VERSION {
            Some("SOURCE_CHANGED: incompatible broker protocol version"@)
        } else if !is_tool_name(name@) {
            Some("INVALID_ARGUMENT: invalid tool name"@)
        } else {
            None
        },
    }
}

/// An answer that says that a request was refused.
pub fn protocol_error(message: &str) -> (r: BrokerResponse)
    ensures
        r matches BrokerResponse::Error { version, message: m } && version == PROTOCOL_VERSION
            && m@ == message@,
{
    BrokerResponse::Error { version: PROTOCOL_VERSION, message: message.to_owned() }
}

/// What a request leads to.
pub fn handle_request(request: BrokerRequest) -> (r: Handling)
    ensures
        match request_problem(request) {
            Some(message) => is_refused(r, message),
            None => match request {
                BrokerRequest::Ping { .. } => r == Handling::Answer(
                    BrokerResponse::Pong { version: PROTOCOL_VERSION },
                ),
                BrokerRequest::Call { name, args, .. } => r matches Handling::Call {
                    name: n,
                    args: a,
                } && n@ == name@ && a@ == args@,
            },
        },
{
    match request {
        BrokerRequest::Ping { version } => if version != PROTOCOL_VERSION {
            Handling::Answer(
                protocol_error("SOURCE_CHANGED: incompatible broker protocol version"),
            )
        } else {
            Handling::Answer(BrokerResponse::Pong { version: PROTOCOL_VERSION })
        },
        BrokerRequest::Call { version, name, args } => {
            if version != PROTOCOL_VERSION {
                return Handling::Answer(
                    protocol_error("SOURCE_CHANGED: incompatible broker protocol version"),
                );
            }
            if check_tool_name(name.as_str()).is_err() {
                return Handling::Answer(protocol_error("INVALID_ARGUMENT: invalid tool name"));
            }
            Handling::Call { name, args }
        },
    }
}

/// The call that a frontend makes.
pub fn make_call(name: &str, args: Json) -> (r: Result<BrokerRequest, Failure>)
    ensures
        match r {
            Ok(request) => is_tool_name(name@) && (request matches BrokerRequest::Call {
                version,
                name: n,
                args: a,
            } && version == PROTOCOL_VERSION && n@ == name@ && a@ == args@),
            Err(e) => !is_tool_name(name@) && e@ == FailureV::Message(
                "INVALID_ARGUMENT: invalid tool name"@,
            ),
        },
        r matches Ok(request) ==> request_problem(request) is None,
{
    match check_tool_name(name) {
        Ok(_) => Ok(
            BrokerRequest::Call { version: PROTOCOL_VERSION, name: name.to_owned(), args },
        ),
        Err(e) => Err(e),
    }
}

/// What the answer to a call says where it is no reply.
pub open spec fn answer_problem(response: BrokerResponse) -> Option<FailureV> {
    match response {
        BrokerResponse::Pong { .. } => Some(
            FailureV::Message("SOURCE_CHANGED: broker returned an unexpected response"@),
        ),
        BrokerResponse::Reply { version, .. } => if version == PROTOCOL_VERSION {
            None
        } else {
            Some(FailureV::Message("SOURCE_CHANGED: incompatible broker protocol version"@))
        },
        BrokerResponse::Error { version, message } => if version == PROTOCOL_VERSION {
            Some(FailureV::Message(message@))
        } else {
            Some(FailureV::Message("SOURCE_CHANGED: incompatible broker protocol version"@))
        },
    }
}

/// The reply in the answer to a call.
pub fn read_answer(response: BrokerResponse) -> (r: Result<ToolReply, Failure>)
    ensures
        match r {
            Ok(reply) => answer_problem(response) is None && response == (BrokerResponse::Reply {
                version: PROTOCOL_VERSION,
                reply,
            }),
            Err(e) => answer_problem(response) == Some(e@),
        },
{
    match response {
        BrokerResponse::Pong { .. } => Err(
            Failure::new("SOURCE_CHANGED: broker returned an unexpected response"),
        ),
        BrokerResponse::Reply { version, reply } => if version == PROTOCOL_VERSION {
            Ok(reply)
        } else {
            Err(Failure::new("SOURCE_CHANGED: incompatible broker protocol version"))
        },
        BrokerResponse::Error { version, message } => if version == PROTOCOL_VERSION {
            Err(Failure::Message(message))
        } else {
            Err(Failure::new("SOURCE_CHANGED: incompatible broker protocol version"))
        },
    }
}

/// The four bytes that a length is written as, the highest first.
pub open spec fn length_bytes(n: int) -> Seq<u8> {
    seq![
        (n / 0x100_0000 % 0x100) as u8,
        (n / 0x1_0000 % 0x100) as u8,
        (n / 0x100 % 0x100) as u8,
        (n % 0x100) as u8,
    ]
}

/// The length that four bytes spell.
pub open spec fn length_of(head: Seq<u8>) -> int {
    head[0] * 0x100_0000 + head[1] * 0x1_0000 + head[2] * 0x100 + head[3]
}

/// Why a frame is refused.
pub open spec fn oversized(maximum: nat) -> FailureV {
    FailureV::Message(
        "INVALID_ARGUMENT: broker frame exceeds "@ + text::decimal(maximum) + " bytes"@,
    )
}

fn oversized_failure(maximum: usize) -> (r: Failure)
    ensures
        r@ == oversized(maximum as nat),
{
    let n: String = text::decimal_text(maximum as u64);
    Failure::Message(
        text::joined3("INVALID_ARGUMENT: broker frame exceeds ", n.as_str(), " bytes"),
    )
}

/// A frame: the length of its body, then the body.
pub open spec fn framed(body: Seq<u8>, maximum: nat) -> Result<Seq<u8>, FailureV> {
    if body.len() > maximum {
        Err(oversized(maximum))
    } else {
        Ok(length_bytes(body.len() as int) + body)
    }
}

pub open spec fn bytes_view(r: Result<Vec<u8>, Failure>) -> Result<Seq<u8>, FailureV> {
    match r {
        Ok(v) => Ok(v@),
        Err(e) => Err(e@),
    }
}

/// The frame around a body.
pub fn write_frame(body: &[u8], maximum: usize) -> (r: Result<Vec<u8>, Failure>)
    requires
        maximum <= u32::MAX,
    ensures
        bytes_view(r) == framed(body@, maximum as nat),
{
    if body.len() > maximum {
        return Err(oversized_failure(maximum));
    }
    let n: u32 = body.len() as u32;
    let mut out: Vec<u8> = Vec::new();
    out.push((n / 0x100_0000 % 0x100) as u8);
    out.push((n / 0x1_0000 % 0x100) as u8);
    out.push((n / 0x100 % 0x100) as u8);
    out.push((n % 0x100) as u8);
    out.extend_from_slice(body);
    assert(out@ =~= length_bytes(n as int) + body@);
    Ok(out)
}

/// How many bytes follow the head of a frame.
pub open spec fn body_length(head: Seq<u8>, maximum: nat) -> Result<int, FailureV> {
    if length_of(head) > maximum {
        Err(oversized(maximum))
    } else {
        Ok(length_of(head))
    }
}

pub open spec fn length_view(r: Result<usize, Failure>) -> Result<int, FailureV> {
    match r {
        Ok(n) => Ok(n as int),
        Err(e) => Err(e@),
    }
}

/// How many bytes follow the head of a frame: no body is read that is too long.
pub fn read_frame_head(head: &[u8], maximum: usize) -> (r: Result<usize, Failure>)
    requires
        head@.len() == 4,
    ensures
        length_view(r) == body_length(head@, maximum as nat),
{
    let n: u64 = head[0] as u64 * 0x100_0000 + head[1] as u64 * 0x1_0000 + head[2] as u64 * 0x100
        + head[3] as u64;
    if n > maximum as u64 {
        Err(oversized_failure(maximum))
    } else {
        Ok(n as usize)
    }
}

/// A frame that was written is read back: its head gives the length of what follows, and what
/// follows is the body.
pub proof fn frames_are_read_back(body: Seq<u8>, maximum: nat)
    requires
        maximum <= u32::MAX,
    ensures
        framed(body, maximum) matches Ok(frame) ==> {
            &&& frame.len() == 4 + body.len()
            &&& body_length(frame.take(4), maximum) == Ok::<int, FailureV>(body.len() as int)
            &&& frame.subrange(4, frame.len() as int) == body
        },
{
    if body.len() <= maximum {
        let n = body.len() as int;
        let frame = length_bytes(n) + body;
        assert(frame.take(4) =~= length_bytes(n));
        assert(frame.subrange(4, frame.len() as int) =~= body);
        assert(n / 0x100_0000 % 0x100 == n / 0x100_0000);
        assert(n == n / 0x100_0000 * 0x100_0000 + n / 0x1_0000 % 0x100 * 0x1_0000 + n / 0x100
            % 0x100 * 0x100 + n % 0x100);
    }
}

/// Whether another frontend is let in.
pub fn may_accept(clients: usize) -> (r: bool)
    ensures
        r == (clients < MAX_CLIENTS),
{
    clients < MAX_CLIENTS
}

/// How a call over the socket failed.
#[derive(Clone, Copy, Debug, PartialEq, Eq, Structural)]
pub enum BrokerFault {
    CallCancelled,
    ResponseTimedOut,
    StartCancelled,
    StartInProgress,
    NoSocket,
    DirectoryOwned,
    SocketOwned,
    RequestTimedOut,
    Malformed,
    ShuttingDown,
    WriteTimedOut,
}

pub fn broker_failure(fault: BrokerFault) -> (r: Failure)
    ensures
        r@ == FailureV::Message(
            match fault {
                BrokerFault::CallCancelled => "CANCELLED: broker request cancelled"@,
                BrokerFault::ResponseTimedOut => "SERVER_BUSY: broker response timed out"@,
                BrokerFault::StartCancelled => "CANCELLED: broker startup cancelled"@,
                BrokerFault::StartInProgress =>
                    "SERVER_BUSY: broker startup is already in progress"@,
                BrokerFault::NoSocket =>
                    "SERVER_BUSY: broker did not create its private socket within 5 seconds"@,
                BrokerFault::DirectoryOwned =>
                    "SERVER_BUSY: an Ozon broker already owns this data directory"@,
                BrokerFault::SocketOwned => "SERVER_BUSY: a live broker already owns the socket"@,
                BrokerFault::RequestTimedOut =>
                    "INVALID_ARGUMENT: timed out reading broker request"@,
                BrokerFault::Malformed => "INVALID_ARGUMENT: malformed broker JSON"@,
                BrokerFault::ShuttingDown => "CANCELLED: broker is shutting down"@,
                BrokerFault::WriteTimedOut => "SERVER_BUSY: broker response write timed out"@,
            },
        ),
{
    match fault {
        BrokerFault::CallCancelled => Failure::new("CANCELLED: broker request cancelled"),
        BrokerFault::ResponseTimedOut => Failure::new("SERVER_BUSY: broker response timed out"),
        BrokerFault::StartCancelled => Failure::new("CANCELLED: broker startup cancelled"),
        BrokerFault::StartInProgress => Failure::new(
            "SERVER_BUSY: broker startup is already in progress",
        ),
        BrokerFault::NoSocket => Failure::new(
            "SERVER_BUSY: broker did not create its private socket within 5 seconds",
        ),
        BrokerFault::DirectoryOwned => Failure::new(
            "SERVER_BUSY: an Ozon broker already owns this data directory",
        ),
        BrokerFault::SocketOwned => Failure::new(
            "SERVER_BUSY: a live broker already owns the socket",
        ),
        BrokerFault::RequestTimedOut => Failure::new(
            "INVALID_ARGUMENT: timed out reading broker request",
        ),
        BrokerFault::Malformed => Failure::new("INVALID_ARGUMENT: malformed broker JSON"),
        BrokerFault::ShuttingDown => Failure::new("CANCELLED: broker is shutting down"),
        BrokerFault::WriteTimedOut => Failure::new("SERVER_BUSY: broker response write timed out"),
    }
}

/// The reply of a frontend whose call did not reach the broker: its code is what stands
/// before the first colon of the message.
pub fn forward_failure(e: &Failure) -> (r: ToolReply)
    ensures
        service::fails_with(r, text::split(e@.message(), ':')[0], e@.message(), None),
{
    let message: String = e.message();
    let pieces: Vec<String> = text::split_at_char(message.as_str(), ':');
    assert(text::texts(pieces@)[0] == pieces@[0]@);
    contracts::failure(pieces[0].as_str(), message.as_str(), None)
}

/// How the program was called.
#[derive(Clone, Copy, Debug, PartialEq, Eq, Structural)]
pub enum Mode {
    Version,
    Help,
    Broker,
    Frontend,
}

/// How the program was called, by its arguments: none, or one that it knows.
pub open spec fn mode_of(args: Seq<Seq<char>>) -> Option<Mode> {
    if args.len() == 0 {
        Some(Mode::Frontend)
    } else if args.len() > 1 {
        None
    } else if args[0] == "--version"@ {
        Some(Mode::Version)
    } else if args[0] == "--help"@ {
        Some(Mode::Help)
    } else if args[0] == "--broker"@ {
        Some(Mode::Broker)
    } else {
        None
    }
}

/// How the program was called.
pub fn read_mode(args: &Vec<String>) -> (r: Option<Mode>)
    ensures
        r == mode_of(text::texts(args@)),
{
    if args.len() == 0 {
        return Some(Mode::Frontend);
    }
    if args.len() > 1 {
        return None;
    }
    assert(text::texts(args@)[0] == args@[0]@);
    if text::same(args[0].as_str(), "--version") {
        Some(Mode::Version)
    } else if text::same(args[0].as_str(), "--help") {
        Some(Mode::Help)
    } else if text::same(args[0].as_str(), "--broker") {
        Some(Mode::Broker)
    } else {
        None
    }
}

} // verus!
