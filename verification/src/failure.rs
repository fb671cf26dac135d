//! The error that every fallible operation of the library returns.

use crate::browser_error::{BrowserError, BrowserErrorV};
use vstd::prelude::*;

verus! {

/// A failed operation: a message that may start with an error code, a failure
/// of the browser session, or a full storage device under some other message.
#[derive(Debug)]
pub enum Failure {
    Message(String),
    Browser(BrowserError),
    StorageFull(String),
}

/// What a [`Failure`] holds.
pub enum FailureV {
    Message(Seq<char>),
    Browser(BrowserErrorV),
    StorageFull(Seq<char>),
}

impl View for Failure {
    type V = FailureV;

    open spec fn view(&self) -> FailureV {
        match self {
            Failure::Message(s) => FailureV::Message(s@),
            Failure::Browser(e) => FailureV::Browser(e@),
            Failure::StorageFull(s) => FailureV::StorageFull(s@),
        }
    }
}

impl FailureV {
    pub open spec fn message(self) -> Seq<char> {
        match self {
            FailureV::Message(s) => s,
            FailureV::Browser(e) => e.message(),
            FailureV::StorageFull(s) => s,
        }
    }
}

impl Failure {
    pub fn new(message: &str) -> (r: Failure)
        ensures
            r@ == FailureV::Message(message@),
    {
        Failure::Message(message.to_owned())
    }

    pub fn message(&self) -> (r: String)
        ensures
            r@ == self@.message(),
    {
        match self {
            Failure::Message(s) => s.clone(),
            Failure::Browser(e) => e.message(),
            Failure::StorageFull(s) => s.clone(),
        }
    }
}

/// What a fallible operation returned.
pub open spec fn outcome<T: View>(r: Result<T, Failure>) -> Result<T::V, FailureV> {
    match r {
        Ok(v) => Ok(v@),
        Err(e) => Err(e@),
    }
}

} // verus!
