//! Answers that turn a request down.

use vstd::prelude::*;

verus! {

/// The kinds of answer other than success.
#[derive(Debug, Clone, Copy, PartialEq, Eq, Structural)]
pub enum Status {
    /// The result is not there yet.
    Accepted,
    /// The request cannot be served as it is.
    BadRequest,
    /// There is no such thing.
    NotFound,
    /// The server failed.
    Internal,
}

/// The status code of HTTP.
pub open spec fn code_of(status: Status) -> u16 {
    match status {
        Status::Accepted => 202,
        Status::BadRequest => 400,
        Status::NotFound => 404,
        Status::Internal => 500,
    }
}

impl Status {
    /// The status code of HTTP.
    pub fn code(&self) -> (r: u16)
        ensures
            r == code_of(*self),
    {
        match self {
            Status::Accepted => 202,
            Status::BadRequest => 400,
            Status::NotFound => 404,
            Status::Internal => 500,
        }
    }
}

/// A request turned down, and why.
#[derive(Debug)]
pub struct Refusal {
    pub status: Status,
    pub message: String,
}

/// A refusal by its parts.
pub struct RefusalView {
    pub status: Status,
    pub message: Seq<char>,
}

impl View for Refusal {
    type V = RefusalView;

    open spec fn view(&self) -> RefusalView {
        RefusalView { status: self.status, message: self.message@ }
    }
}

/// Turns a request down with `status` and `message`.
pub fn refuse(status: Status, message: &str) -> (r: Refusal)
    ensures
        r@ == (RefusalView { status, message: message@ }),
{
    Refusal { status, message: message.to_owned() }
}

/// The server failed.
pub fn ise(e: &str) -> (r: Refusal)
    ensures
        r@ == (RefusalView { status: Status::Internal, message: e@ }),
{
    refuse(Status::Internal, e)
}

/// The request is at fault.
pub fn bad(e: &str) -> (r: Refusal)
    ensures
        r@ == (RefusalView { status: Status::BadRequest, message: e@ }),
{
    refuse(Status::BadRequest, e)
}

/// Whatever turns a request down carries the text that it was given, and blames the
/// server or the request; each kind of answer has its code of HTTP.
pub proof fn law_refusals_come_out(
    status: Status,
    message: &str,
    refused: Refusal,
    server: Refusal,
    request: Refusal,
    code: u16,
)
    requires
        call_ensures(refuse, (status, message), refused),
        call_ensures(ise, (message,), server),
        call_ensures(bad, (message,), request),
        call_ensures(Status::code, (&status,), code),
    ensures
        refused.status == status,
        refused.message@ == message@,
        server.status is Internal,
        server.message@ == message@,
        request.status is BadRequest,
        request.message@ == message@,
        status is Accepted ==> code == 202,
        status is BadRequest ==> code == 400,
        status is NotFound ==> code == 404,
        status is Internal ==> code == 500,
{
}

} // verus!
