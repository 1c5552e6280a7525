//! What a resolve fails with, and what an HTTP status means for it.

use crate::text;
use vstd::prelude::*;

verus! {

/// Why a request produced no representation.
#[derive(Clone, Debug, PartialEq, Eq)]
pub enum Error {
    /// An argument was present but unusable.
    InvalidArgument { name: String, detail: String },
    /// The capability, or the origin, does not authorize the request.
    Denied(String),
    /// The origin says that the resource is absent.
    NotFound(String),
    /// The origin, or what stands before it, waited in vain.
    Timeout(String),
    /// The origin or the way to it is not available for now.
    Unavailable(String),
    /// The request failed in another way.
    Endpoint(String),
}

/// What an error holds.
pub enum ErrorView {
    InvalidArgument { name: Seq<char>, detail: Seq<char> },
    Denied(Seq<char>),
    NotFound(Seq<char>),
    Timeout(Seq<char>),
    Unavailable(Seq<char>),
    Endpoint(Seq<char>),
}

impl View for Error {
    type V = ErrorView;

    open spec fn view(&self) -> ErrorView {
        match self {
            Error::InvalidArgument { name, detail } => ErrorView::InvalidArgument {
                name: name@,
                detail: detail@,
            },
            Error::Denied(message) => ErrorView::Denied(message@),
            Error::NotFound(message) => ErrorView::NotFound(message@),
            Error::Timeout(message) => ErrorView::Timeout(message@),
            Error::Unavailable(message) => ErrorView::Unavailable(message@),
            Error::Endpoint(message) => ErrorView::Endpoint(message@),
        }
    }
}

/// The message of a status: `HTTP` and the number.
pub open spec fn status_message(status: u16) -> Seq<char> {
    "HTTP "@ + text::decimal(status as nat)
}

/// What a representation-returning resolve comes to on a status: nothing to
/// report, or an error.
pub open spec fn failure_of(status: u16) -> Option<ErrorView> {
    let message = status_message(status);
    if 200 <= status <= 399 {
        None
    } else if status == 404 || status == 410 {
        Some(ErrorView::NotFound(message))
    } else if status == 401 || status == 403 {
        Some(ErrorView::Denied(message))
    } else if status == 408 || status == 504 {
        Some(ErrorView::Timeout(message))
    } else if status == 429 || 500 <= status <= 599 {
        Some(ErrorView::Unavailable(message))
    } else {
        Some(ErrorView::Endpoint(message))
    }
}

/// Whether an answer with this status says that the resource is there.
pub open spec fn says_present(status: u16) -> bool {
    status != 404 && status != 410
}

/// The outcome of a representation-returning resolve from an HTTP status: `Ok`
/// on a success (2xx, or a 3xx that was not followed), else a typed error, never
/// the error page.
pub fn source_outcome(status: u16) -> (r: Result<(), Error>)
    ensures
        r is Ok <==> failure_of(status) is None,
        r matches Err(e) ==> failure_of(status) == Some(e@),
{
    if 200 <= status && status <= 399 {
        return Ok(());
    }
    let mut message = "HTTP ".to_string();
    text::push_decimal(&mut message, status);
    Err(
        match status {
            404 | 410 => Error::NotFound(message),
            401 | 403 => Error::Denied(message),
            408 | 504 => Error::Timeout(message),
            429 => Error::Unavailable(message),
            500..=599 => Error::Unavailable(message),
            _ => Error::Endpoint(message),
        },
    )
}

/// The existence outcome of a HEAD from an HTTP status. The host has answered,
/// so anything but a definitive absence (404, 410) means that the resource is
/// there, though it may be busy or gated.
pub fn exists_outcome(status: u16) -> (r: bool)
    ensures
        r == says_present(status),
{
    !matches!(status, 404 | 410)
}

/// A HEAD finds a resource absent exactly where a GET fails because it is not
/// found: every other failure of a GET is the answer of something present.
pub proof fn absent_is_not_found(status: u16)
    ensures
        says_present(status) <==> !(failure_of(status) matches Some(ErrorView::NotFound(_))),
{
}

/// A status comes to an error by the class it is in: none from 200 to 399, the
/// absence of the resource on 404 and 410, a denial on 401 and 403, a wait in vain on
/// 408 and 504, what may pass on 429 and on every other one from 500 to 599, and
/// another failure on all that are left. The error says `HTTP` and the number.
pub proof fn a_status_fails_by_its_class(status: u16)
    ensures
        200 <= status <= 399 <==> failure_of(status) is None,
        status == 404 || status == 410 ==> failure_of(status) == Some(
            ErrorView::NotFound("HTTP "@ + text::decimal(status as nat)),
        ),
        status == 401 || status == 403 ==> failure_of(status) == Some(
            ErrorView::Denied("HTTP "@ + text::decimal(status as nat)),
        ),
        status == 408 || status == 504 ==> failure_of(status) == Some(
            ErrorView::Timeout("HTTP "@ + text::decimal(status as nat)),
        ),
        status == 429 || 500 <= status <= 503 || 505 <= status <= 599 ==> failure_of(status)
            == Some(ErrorView::Unavailable("HTTP "@ + text::decimal(status as nat))),
        status < 200 || status == 400 || status == 402 || 405 <= status <= 407 || status == 409
            || 411 <= status <= 428 || 430 <= status <= 499 || status >= 600 ==> failure_of(status)
            == Some(ErrorView::Endpoint("HTTP "@ + text::decimal(status as nat))),
{
}

/// Only 404 and 410 say that a resource is absent.
pub proof fn a_resource_is_absent_on_two_statuses(status: u16)
    ensures
        says_present(status) <==> status < 404 || 405 <= status <= 409 || status > 410,
{
}

/// An error holds its kind and the whole of its message.
pub proof fn an_error_holds_its_message(message: String, detail: String)
    ensures
        (Error::InvalidArgument { name: message, detail })@ == (ErrorView::InvalidArgument {
            name: message@,
            detail: detail@,
        }),
        Error::Denied(message)@ == ErrorView::Denied(message@),
        Error::NotFound(message)@ == ErrorView::NotFound(message@),
        Error::Timeout(message)@ == ErrorView::Timeout(message@),
        Error::Unavailable(message)@ == ErrorView::Unavailable(message@),
        Error::Endpoint(message)@ == ErrorView::Endpoint(message@),
{
}

} // verus!
