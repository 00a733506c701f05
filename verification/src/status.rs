//! The statuses with which a handler operation can fail.

use vstd::prelude::*;
use vstd::string::*;

verus! {

/// The kind of failure that a status reports.
#[derive(Clone, Copy, Debug, PartialEq, Eq, Structural)]
pub enum StatusCode {
    /// The caller sent something that cannot be served.
    BadRequest,
    /// The transport gave up waiting for an answer.
    RequestTimeout,
    /// Storage, network or configuration failed on this side.
    Internal,
    /// Any other failure that the transport reports.
    Unknown,
}

/// Why an operation failed: a code and a message for the caller.
#[derive(Clone, Debug, PartialEq, Eq)]
pub struct Status {
    pub code: StatusCode,
    pub message: String,
}

/// A status as a specification value.
pub struct StatusView {
    pub code: StatusCode,
    pub message: Seq<char>,
}

impl View for Status {
    type V = StatusView;

    open spec fn view(&self) -> StatusView {
        StatusView { code: self.code, message: self.message@ }
    }
}

impl StatusView {
    /// The status for a request that the caller should not have made.
    pub open spec fn bad_request(message: Seq<char>) -> StatusView {
        StatusView { code: StatusCode::BadRequest, message }
    }

    /// The status for a failure on this side.
    pub open spec fn internal(message: Seq<char>) -> StatusView {
        StatusView { code: StatusCode::Internal, message }
    }
}

impl Status {
    pub fn new_with_message(code: StatusCode, message: String) -> (status: Status)
        ensures
            status@ == (StatusView { code, message: message@ }),
    {
        Status { code, message }
    }

    pub fn bad_request(message: String) -> (status: Status)
        ensures
            status@ == StatusView::bad_request(message@),
    {
        Status { code: StatusCode::BadRequest, message }
    }

    pub fn internal(message: String) -> (status: Status)
        ensures
            status@ == StatusView::internal(message@),
    {
        Status { code: StatusCode::Internal, message }
    }

    pub fn code(&self) -> (code: StatusCode)
        ensures
            code == self@.code,
    {
        self.code
    }

    pub fn message(&self) -> (message: &str)
        ensures
            message@ == self@.message,
    {
        self.message.as_str()
    }
}

/// The text `prefix` followed by `detail`.
pub fn describe(prefix: &str, detail: &str) -> (text: String)
    ensures
        text@ == prefix@ + detail@,
{
    String::from_str(prefix).concat(detail)
}

} // verus!
