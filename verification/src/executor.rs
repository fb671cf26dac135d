//! Admission of operations to the one browser: how many may wait, when they are refused, and
//! when the browser is taken down behind them.

use crate::browser_error;
use crate::failure::{self, Failure, FailureV};
use crate::operations::{self, Operation, OperationV, PreparedOperation, PreparedV};
use vstd::prelude::*;

verus! {

pub const SLOTS: usize = 8;

/// How long an operation may take, the time in the queue included.
pub const DEADLINE_SECONDS: u64 = 55;

/// How many operations may still be admitted, and whether any is.
#[derive(Debug)]
pub struct RequestExecutor {
    pub slots: usize,
    pub free: usize,
    pub stopped: bool,
}

/// What a [`RequestExecutor`] holds.
pub struct ExecutorV {
    pub slots: nat,
    pub free: nat,
    pub stopped: bool,
}

impl View for RequestExecutor {
    type V = ExecutorV;

    open spec fn view(&self) -> ExecutorV {
        ExecutorV { slots: self.slots as nat, free: self.free as nat, stopped: self.stopped }
    }
}

impl ExecutorV {
    pub open spec fn valid(self) -> bool {
        self.free <= self.slots
    }

    /// What a request to run an operation leads to: the operation, or why it is refused.
    pub open spec fn admission(self, op: OperationV) -> Result<PreparedV, FailureV> {
        match operations::prepared_operation(op) {
            Err(e) => Err(e),
            Ok(p) => if self.stopped {
                Err(FailureV::Message("Server shutting down"@))
            } else if self.free == 0 {
                Err(FailureV::Message("SERVER_BUSY: the request queue is full"@))
            } else {
                Ok(p)
            },
        }
    }

    /// The executor after a request: a slot is taken where the operation is admitted.
    pub open spec fn after_admission(self, op: OperationV) -> ExecutorV {
        if self.admission(op) is Ok {
            ExecutorV { free: (self.free - 1) as nat, ..self }
        } else {
            self
        }
    }

    /// The executor after an operation has ended and its cleanup is done.
    pub open spec fn released(self) -> ExecutorV {
        ExecutorV { free: self.free + 1, ..self }
    }
}

impl RequestExecutor {
    pub fn new(slots: usize) -> (r: RequestExecutor)
        ensures
            r@ == (ExecutorV { slots: slots as nat, free: slots as nat, stopped: false }),
            r@.valid(),
    {
        RequestExecutor { slots, free: slots, stopped: false }
    }

    /// Takes a slot for an operation whose arguments hold.
    pub fn admit_operation(&mut self, op: Operation) -> (r: Result<PreparedOperation, Failure>)
        requires
            old(self)@.valid(),
        ensures
            failure::outcome(r) == old(self)@.admission(op@),
            final(self)@ == old(self)@.after_admission(op@),
            final(self)@.valid(),
            r matches Ok(p) ==> operations::is_ready(p@),
    {
        let prepared: PreparedOperation = match op.prepare() {
            Ok(p) => p,
            Err(e) => {
                return Err(e);
            },
        };
        if self.stopped {
            return Err(Failure::new("Server shutting down"));
        }
        if self.free == 0 {
            return Err(Failure::new("SERVER_BUSY: the request queue is full"));
        }
        self.free = self.free - 1;
        Ok(prepared)
    }

    /// Gives a slot back.
    pub fn release(&mut self)
        requires
            old(self)@.valid(),
            old(self)@.free < old(self)@.slots,
        ensures
            final(self)@ == old(self)@.released(),
            final(self)@.valid(),
    {
        self.free = self.free + 1;
    }

    /// Admits nothing more.
    pub fn stop(&mut self)
        ensures
            final(self)@ == (ExecutorV { stopped: true, ..old(self)@ }),
    {
        self.stopped = true;
    }
}

/// A request that is refused takes no slot; one that is admitted takes one, and gives it back
/// at its end.
pub proof fn refused_requests_take_no_slot(e: ExecutorV, op: OperationV)
    requires
        e.valid(),
    ensures
        e.admission(op) is Err ==> e.after_admission(op) == e,
        e.admission(op) is Ok ==> {
            &&& e.after_admission(op).free < e.free
            &&& e.after_admission(op).released() == e
        },
{
}

/// A stopped executor admits nothing.
pub proof fn stopped_executors_admit_nothing(e: ExecutorV, op: OperationV)
    requires
        e.stopped,
    ensures
        e.admission(op) is Err,
{
}

/// Whether the browser is taken down behind an operation: where it was cancelled, or where it
/// failed in a way that leaves the session in doubt.
pub open spec fn takes_down(cancelled: bool, error: Option<FailureV>) -> bool {
    cancelled || (error matches Some(FailureV::Browser(e)) && e.resets())
}

pub open spec fn error_view(e: Option<&Failure>) -> Option<FailureV> {
    match e {
        Some(e) => Some(e@),
        None => None,
    }
}

pub fn must_take_down(cancelled: bool, error: Option<&Failure>) -> (r: bool)
    ensures
        r == takes_down(cancelled, error_view(error)),
{
    if cancelled {
        return true;
    }
    match error {
        Some(e) => browser_error::requires_reset(e),
        None => false,
    }
}

/// How a request ended before its operation did.
#[derive(Clone, Copy, Debug, PartialEq, Eq, Structural)]
pub enum Ending {
    Cancelled,
    Stopped,
    Deadline,
    WorkerFailed,
}

pub fn ended(ending: Ending) -> (r: Failure)
    ensures
        r@ == FailureV::Message(
            match ending {
                Ending::Cancelled => "Request cancelled"@,
                Ending::Stopped => "Server shutting down"@,
                Ending::Deadline =>
                    "TOOL_TIMEOUT: tool exceeded 55 seconds including queue time"@,
                Ending::WorkerFailed => "Tool worker failed"@,
            },
        ),
{
    match ending {
        Ending::Cancelled => Failure::new("Request cancelled"),
        Ending::Stopped => Failure::new("Server shutting down"),
        Ending::Deadline => Failure::new(
            "TOOL_TIMEOUT: tool exceeded 55 seconds including queue time",
        ),
        Ending::WorkerFailed => Failure::new("Tool worker failed"),
    }
}

} // verus!
