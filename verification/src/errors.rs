//! Error kinds recognized throughout the stack, the chained error value they
//! travel in, and the mapping from error kinds to HTTP statuses.

use vstd::prelude::*;

verus! {

/// The error kinds that middle layers may recognize.
#[derive(Clone, Debug, PartialEq, Eq)]
pub enum ErrorKind {
    /// A connection would have targeted the proxy's own listener port.
    LoopPrevented(u16),
    /// A gateway request whose `Forwarded` chain already names this gateway.
    LoopDetected,
    /// Discovery refused to resolve the destination.
    DiscoveryRejected,
    /// A peer identity was required and absent.
    IdentityRequired,
    /// No route matched the request.
    NoRoute,
    /// Fail-fast or the concurrency limit shed the request.
    Overload,
    /// A dispatch, connect, or per-route deadline expired.
    Timeout,
    /// A transport-level failure.
    Io,
    /// A TLS handshake failure.
    Tls,
}

/// An error as it travels up the stack: a kind, chained onto the error that
/// caused it, if any. Middle layers must not swallow the chain.
#[derive(Debug)]
pub struct Error {
    pub kind: ErrorKind,
    pub source: Option<Box<Error>>,
}

impl Error {
    /// An error with no underlying cause.
    pub fn new(kind: ErrorKind) -> (r: Error)
        ensures
            r.kind == kind,
            r.source is None,
    {
        Error { kind, source: None }
    }

    /// Wraps `cause` in an outer `kind`, keeping the chain intact.
    pub fn chained(kind: ErrorKind, cause: Error) -> (r: Error)
        ensures
            r.kind == kind,
            r.source matches Some(b) && *b == cause,
    {
        Error { kind, source: Some(Box::new(cause)) }
    }
}

/// The HTTP status that the errors-to-responses layer at the server edge
/// synthesizes for each error kind.
pub open spec fn spec_status_of(kind: ErrorKind) -> u16 {
    match kind {
        ErrorKind::LoopPrevented(_) => 508,
        ErrorKind::LoopDetected => 508,
        ErrorKind::DiscoveryRejected => 404,
        ErrorKind::IdentityRequired => 403,
        ErrorKind::NoRoute => 404,
        ErrorKind::Overload => 503,
        ErrorKind::Timeout => 504,
        ErrorKind::Io => 500,
        ErrorKind::Tls => 500,
    }
}

/// Maps an error kind to the response status served to the client.
pub fn status_of(kind: &ErrorKind) -> (r: u16)
    ensures
        r == spec_status_of(*kind),
{
    match kind {
        ErrorKind::LoopPrevented(_) => 508,
        ErrorKind::LoopDetected => 508,
        ErrorKind::DiscoveryRejected => 404,
        ErrorKind::IdentityRequired => 403,
        ErrorKind::NoRoute => 404,
        ErrorKind::Overload => 503,
        ErrorKind::Timeout => 504,
        ErrorKind::Io => 500,
        ErrorKind::Tls => 500,
    }
}

} // verus!
