//! What a request to the remote service comes to. The calls themselves are
//! made by the caller; here are the decisions before and after each one:
//! whether it may go out, and what its status and headers mean.
use vstd::prelude::*;

use crate::ratelimit::{etag_text, headers_applied, quota_gate, HeaderError, QuotaExhausted, RateLimits, ResponseHeaders};

verus! {

/// Why a request produced no usable answer.
#[derive(Debug)]
pub enum FetchError {
    /// The local bookkeeping says the quota is used up; no call was made.
    QuotaExhausted(QuotaExhausted),
    /// The service answered 429: it counts more calls than the bookkeeping did.
    RateLimited,
    /// Any other status outside 2xx and 304, with the response body.
    Remote { status: u16, body: String },
    /// The call failed below HTTP (name lookup, connection, time-out).
    Transport { message: String },
    /// A success body did not have the expected shape.
    Deserialization { message: String },
    /// A quota header could not be read.
    Header(HeaderError),
}

/// What a status code means to this client.
#[derive(Clone, Copy, Debug, PartialEq, Eq, Structural)]
pub enum StatusClass {
    Success,
    NotModified,
    RateLimited,
    Failure,
}

pub open spec fn status_class(status: u16) -> StatusClass {
    if status == 304 {
        StatusClass::NotModified
    } else if 200 <= status && status < 300 {
        StatusClass::Success
    } else if status == 429 {
        StatusClass::RateLimited
    } else {
        StatusClass::Failure
    }
}

pub fn classify_status(status: u16) -> (r: StatusClass)
    ensures
        r == status_class(status),
{
    if status == 304 {
        StatusClass::NotModified
    } else if 200 <= status && status < 300 {
        StatusClass::Success
    } else if status == 429 {
        StatusClass::RateLimited
    } else {
        StatusClass::Failure
    }
}

/// A response that carries no error.
#[derive(Debug)]
pub enum Reply {
    /// 304 to a conditional request: the copy the caller holds is current;
    /// `etag` is the one it sent.
    NotModified { etag: String },
    /// 2xx: the body is to be decoded; `etag` is the response's (empty if none).
    Fresh { etag: String },
}

/// Checks the quota before a call. An error means the call must not be made.
pub fn begin_request(limits: &RateLimits) -> (r: Result<(), FetchError>)
    ensures
        match quota_gate(*limits) {
            Ok(()) => r is Ok,
            Err(q) => (r matches Err(FetchError::QuotaExhausted(e)) && e == q),
        },
{
    match limits.allow_request() {
        Ok(()) => Ok(()),
        Err(q) => Err(FetchError::QuotaExhausted(q)),
    }
}

/// Digests a response: its quota headers are taken over first, whatever the
/// status; then the status decides. A 304 answers a conditional request with
/// the ETag that was sent; to a request that sent none it is a remote error
/// like any other status outside 2xx.
pub fn settle_response(
    limits: &mut RateLimits,
    known_etag: Option<String>,
    status: u16,
    headers: &ResponseHeaders,
    body: String,
) -> (r: Result<Reply, FetchError>)
    ensures
        match headers_applied(*old(limits), headers) {
            Err(f) => {
                &&& *final(limits) == *old(limits)
                &&& (r matches Err(FetchError::Header(e)) && e.field == f)
            },
            Ok(n) => {
                &&& *final(limits) == n
                &&& match status_class(status) {
                    StatusClass::NotModified => match known_etag {
                        Some(k) => (r matches Ok(Reply::NotModified { etag }) && etag@ == k@),
                        None => (r matches Err(FetchError::Remote { status: s, body: b }) && s == status
                            && b@ == body@),
                    },
                    StatusClass::Success => (r matches Ok(Reply::Fresh { etag }) && etag@ == etag_text(headers)),
                    StatusClass::RateLimited => r matches Err(FetchError::RateLimited),
                    StatusClass::Failure => (r matches Err(FetchError::Remote { status: s, body: b }) && s == status
                        && b@ == body@),
                }
            },
        },
{
    let etag = match limits.handle_headers(headers) {
        Ok(e) => e,
        Err(e) => return Err(FetchError::Header(e)),
    };
    match classify_status(status) {
        StatusClass::NotModified => match known_etag {
            Some(k) => Ok(Reply::NotModified { etag: k }),
            None => Err(FetchError::Remote { status, body }),
        },
        StatusClass::Success => Ok(Reply::Fresh { etag }),
        StatusClass::RateLimited => Err(FetchError::RateLimited),
        StatusClass::Failure => Err(FetchError::Remote { status, body }),
    }
}

} // verus!
