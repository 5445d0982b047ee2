//! Errors of calls to other canisters.

use vstd::prelude::*;

verus! {

/// The reason for the failure of a management call.
#[derive(Debug, Clone, PartialEq, Eq)]
pub enum Reason {
    /// The request could not be sent because the local output queue is full.
    QueueIsFull,
    /// The canister does not have enough cycles to submit the request.
    OutOfCycles,
    /// The call failed with an error.
    CanisterError(String),
    /// The management canister rejected the request.
    Rejected(String),
}

/// An error of a management call.
#[derive(Debug, Clone, PartialEq, Eq)]
pub struct CallError {
    method: String,
    reason: Reason,
}

impl CallError {
    pub closed spec fn spec_method(&self) -> Seq<char> {
        self.method@
    }

    pub closed spec fn spec_reason(&self) -> Reason {
        self.reason
    }

    /// An error of the call of `method`.
    pub fn new(method: String, reason: Reason) -> (r: CallError)
        ensures
            r.spec_method() == method@,
            r.spec_reason() == reason,
    {
        CallError { method, reason }
    }

    /// Returns the name of the method that resulted in this error.
    pub fn method(&self) -> (r: &str)
        ensures
            r@ == self.spec_method(),
    {
        self.method.as_str()
    }

    /// Returns the failure reason.
    pub fn reason(&self) -> (r: &Reason)
        ensures
            *r == self.spec_reason(),
    {
        &self.reason
    }
}

} // verus!
