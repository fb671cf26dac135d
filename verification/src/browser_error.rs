//! Failures of the browser session, and what each of them calls for.

use crate::failure::{Failure, FailureV};
use crate::text;
use vstd::prelude::*;

verus! {

#[derive(Debug)]
pub enum BrowserError {
    Cancelled,
    CommandFailed { command: String },
    CommandTimeout,
    DriverFailure { operation: String },
    CleanupFailed,
    SessionPoisoned,
    InvalidBridgeResponse,
    ResponseTooLarge,
    CaptchaOrBlocked,
    InvalidOrigin,
    HttpStatus(u64),
    NavigationStatusUnavailable,
    UnexpectedRedirect,
}

/// What a [`BrowserError`] holds.
pub enum BrowserErrorV {
    Cancelled,
    CommandFailed(Seq<char>),
    CommandTimeout,
    DriverFailure(Seq<char>),
    CleanupFailed,
    SessionPoisoned,
    InvalidBridgeResponse,
    ResponseTooLarge,
    CaptchaOrBlocked,
    InvalidOrigin,
    HttpStatus(u64),
    NavigationStatusUnavailable,
    UnexpectedRedirect,
}

impl View for BrowserError {
    type V = BrowserErrorV;

    open spec fn view(&self) -> BrowserErrorV {
        match self {
            BrowserError::Cancelled => BrowserErrorV::Cancelled,
            BrowserError::CommandFailed { command } => BrowserErrorV::CommandFailed(command@),
            BrowserError::CommandTimeout => BrowserErrorV::CommandTimeout,
            BrowserError::DriverFailure { operation } => BrowserErrorV::DriverFailure(operation@),
            BrowserError::CleanupFailed => BrowserErrorV::CleanupFailed,
            BrowserError::SessionPoisoned => BrowserErrorV::SessionPoisoned,
            BrowserError::InvalidBridgeResponse => BrowserErrorV::InvalidBridgeResponse,
            BrowserError::ResponseTooLarge => BrowserErrorV::ResponseTooLarge,
            BrowserError::CaptchaOrBlocked => BrowserErrorV::CaptchaOrBlocked,
            BrowserError::InvalidOrigin => BrowserErrorV::InvalidOrigin,
            BrowserError::HttpStatus(status) => BrowserErrorV::HttpStatus(*status),
            BrowserError::NavigationStatusUnavailable => BrowserErrorV::NavigationStatusUnavailable,
            BrowserError::UnexpectedRedirect => BrowserErrorV::UnexpectedRedirect,
        }
    }
}

impl BrowserErrorV {
    /// Whether the failed step may be tried again.
    pub open spec fn retries(self) -> bool {
        self is CommandFailed
    }

    /// Whether the session that failed must be taken down before the next step.
    pub open spec fn resets(self) -> bool {
        ||| self is CommandFailed
        ||| self is CommandTimeout
        ||| self is DriverFailure
        ||| self is CleanupFailed
        ||| self is SessionPoisoned
        ||| self is InvalidBridgeResponse
        ||| self is Cancelled
    }

    /// The message that a caller is shown.
    pub open spec fn message(self) -> Seq<char> {
        match self {
            BrowserErrorV::Cancelled => "Request cancelled"@,
            BrowserErrorV::CommandFailed(command) => "BROWSER_COMMAND_FAILED: agent-browser "@
                + command + " failed"@,
            BrowserErrorV::CommandTimeout => "BROWSER_TIMEOUT: agent-browser command timed out"@,
            BrowserErrorV::DriverFailure(operation) => "BROWSER_DRIVER_FAILED: agent-browser "@
                + operation + " failed"@,
            BrowserErrorV::CleanupFailed =>
                "BROWSER_CLEANUP_FAILED: could not confirm private browser shutdown"@,
            BrowserErrorV::SessionPoisoned =>
                "BROWSER_CLEANUP_FAILED: previous session could not be closed; restart after closing its browser"@,
            BrowserErrorV::InvalidBridgeResponse =>
                "INVALID_RESPONSE: invalid browser page outcome"@,
            BrowserErrorV::ResponseTooLarge => "RESPONSE_TOO_LARGE: Ozon response exceeds 4 MiB"@,
            BrowserErrorV::CaptchaOrBlocked =>
                "CAPTCHA_OR_BLOCKED: Ozon did not provide public product data"@,
            BrowserErrorV::InvalidOrigin =>
                "SOURCE_CHANGED: Ozon page has an unexpected origin"@,
            BrowserErrorV::HttpStatus(status) => "Ozon returned HTTP "@ + text::decimal(
                status as nat,
            ),
            BrowserErrorV::NavigationStatusUnavailable =>
                "Ozon navigation HTTP status is unavailable"@,
            BrowserErrorV::UnexpectedRedirect =>
                "Ozon redirected to a different page; requested data is unavailable"@,
        }
    }
}

impl BrowserError {
    /// Whether the failed step may be tried again.
    pub fn should_retry(&self) -> (r: bool)
        ensures
            r == self@.retries(),
    {
        matches!(self, BrowserError::CommandFailed { .. })
    }

    /// The message that a caller is shown.
    pub fn message(&self) -> (r: String)
        ensures
            r@ == self@.message(),
    {
        match self {
            BrowserError::Cancelled => "Request cancelled".to_owned(),
            BrowserError::CommandFailed { command } => text::joined3(
                "BROWSER_COMMAND_FAILED: agent-browser ",
                command.as_str(),
                " failed",
            ),
            BrowserError::CommandTimeout =>
                "BROWSER_TIMEOUT: agent-browser command timed out".to_owned(),
            BrowserError::DriverFailure { operation } => text::joined3(
                "BROWSER_DRIVER_FAILED: agent-browser ",
                operation.as_str(),
                " failed",
            ),
            BrowserError::CleanupFailed =>
                "BROWSER_CLEANUP_FAILED: could not confirm private browser shutdown".to_owned(),
            BrowserError::SessionPoisoned =>
                "BROWSER_CLEANUP_FAILED: previous session could not be closed; restart after closing its browser".to_owned(),
            BrowserError::InvalidBridgeResponse =>
                "INVALID_RESPONSE: invalid browser page outcome".to_owned(),
            BrowserError::ResponseTooLarge =>
                "RESPONSE_TOO_LARGE: Ozon response exceeds 4 MiB".to_owned(),
            BrowserError::CaptchaOrBlocked =>
                "CAPTCHA_OR_BLOCKED: Ozon did not provide public product data".to_owned(),
            BrowserError::InvalidOrigin =>
                "SOURCE_CHANGED: Ozon page has an unexpected origin".to_owned(),
            BrowserError::HttpStatus(status) => text::joined(
                "Ozon returned HTTP ",
                text::decimal_text(*status).as_str(),
            ),
            BrowserError::NavigationStatusUnavailable =>
                "Ozon navigation HTTP status is unavailable".to_owned(),
            BrowserError::UnexpectedRedirect =>
                "Ozon redirected to a different page; requested data is unavailable".to_owned(),
        }
    }
}

/// Whether the browser session must be taken down after this failure.
pub fn requires_reset(error: &Failure) -> (r: bool)
    ensures
        r == (error@ matches FailureV::Browser(e) && e.resets()),
{
    match error {
        Failure::Browser(e) => matches!(
            e,
            BrowserError::CommandFailed { .. }
            | BrowserError::CommandTimeout
            | BrowserError::DriverFailure { .. }
            | BrowserError::CleanupFailed
            | BrowserError::SessionPoisoned
            | BrowserError::InvalidBridgeResponse
            | BrowserError::Cancelled
        ),
        _ => false,
    }
}

/// A step is tried again only after the session was taken down.
pub proof fn retry_implies_reset(error: BrowserErrorV)
    ensures
        error.retries() ==> error.resets(),
{
}

} // verus!
