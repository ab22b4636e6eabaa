//! What the library asks of the HTTP crate: whether a text is a URI, and
//! the class of a status code.

use vstd::prelude::*;

verus! {

/// Whether `hyper::Uri` parses a text of the given characters.
pub uninterp spec fn is_uri(text: Seq<char>) -> bool;

/// Parses the text as a `hyper::Uri` and tells whether that succeeded. The
/// parser looks at the text alone; the proofs know its verdict only under
/// the name `is_uri`.
#[verifier::external_body]
pub(crate) fn uri_parses(text: &str) -> (r: bool)
    ensures
        r == is_uri(text@),
{
    text.parse::<hyper::Uri>().is_ok()
}

/// `hyper::StatusCode::is_success`: the code is within 200 to 299. A code
/// that `StatusCode::from_u16` refuses lies below 100 or above 999.
#[verifier::external_body]
pub(crate) fn status_is_success(code: u16) -> (r: bool)
    ensures
        r == (200 <= code <= 299),
{
    match hyper::StatusCode::from_u16(code) {
        Ok(status) => status.is_success(),
        Err(_) => false,
    }
}

/// `hyper::StatusCode::is_redirection`: the code is within 300 to 399. A
/// code that `StatusCode::from_u16` refuses lies below 100 or above 999.
#[verifier::external_body]
pub(crate) fn status_is_redirection(code: u16) -> (r: bool)
    ensures
        r == (300 <= code <= 399),
{
    match hyper::StatusCode::from_u16(code) {
        Ok(status) => status.is_redirection(),
        Err(_) => false,
    }
}

/// `hyper::StatusCode::is_client_error`: the code is within 400 to 499. A
/// code that `StatusCode::from_u16` refuses lies below 100 or above 999.
#[verifier::external_body]
pub(crate) fn status_is_client_error(code: u16) -> (r: bool)
    ensures
        r == (400 <= code <= 499),
{
    match hyper::StatusCode::from_u16(code) {
        Ok(status) => status.is_client_error(),
        Err(_) => false,
    }
}

/// `hyper::StatusCode::is_server_error`: the code is within 500 to 599. A
/// code that `StatusCode::from_u16` refuses lies below 100 or above 999.
#[verifier::external_body]
pub(crate) fn status_is_server_error(code: u16) -> (r: bool)
    ensures
        r == (500 <= code <= 599),
{
    match hyper::StatusCode::from_u16(code) {
        Ok(status) => status.is_server_error(),
        Err(_) => false,
    }
}

} // verus!
