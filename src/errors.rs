use vstd::prelude::*;

verus! {

/// The error kinds that a probe reports to its peer.
#[derive(Clone, Copy, Debug, PartialEq, Eq, Structural)]
pub enum SocketIOError {
    ErrDNSLookupFailed,
    ErrPingFailed,
    ErrTCPingFailed,
    ErrHTTPFailed,
    ErrMTRFailed,
}

/// The tag under which each error kind is sent on the wire.
pub open spec fn error_tag(e: SocketIOError) -> Seq<char> {
    match e {
        SocketIOError::ErrDNSLookupFailed => "err_dns_lookup_failed"@,
        SocketIOError::ErrPingFailed => "err_ping_failed"@,
        SocketIOError::ErrTCPingFailed => "err_tcping_failed"@,
        SocketIOError::ErrHTTPFailed => "err_http_failed"@,
        SocketIOError::ErrMTRFailed => "err_mtr_failed"@,
    }
}

impl SocketIOError {
    /// The wire tag of this error kind.
    pub fn tag(&self) -> (r: &'static str)
        ensures
            r@ == error_tag(*self),
    {
        match self {
            SocketIOError::ErrDNSLookupFailed => "err_dns_lookup_failed",
            SocketIOError::ErrPingFailed => "err_ping_failed",
            SocketIOError::ErrTCPingFailed => "err_tcping_failed",
            SocketIOError::ErrHTTPFailed => "err_http_failed",
            SocketIOError::ErrMTRFailed => "err_mtr_failed",
        }
    }
}

/// Why a probe request was refused before any probing started.
#[derive(Clone, Copy, Debug, PartialEq, Eq, Structural)]
pub enum RequestError {
    /// The request lacks the target host.
    MissingHost,
    /// The DNS request lacks the domain to look up.
    MissingDomain,
    /// The DNS request lacks the record type.
    MissingRecordType,
    /// The record type is not one the resolver knows.
    InvalidRecordType,
    /// The HTTP request lacks the URL.
    MissingUrl,
    /// The URL does not parse, or names no host.
    InvalidUrl,
}

} // verus!
