use vstd::prelude::*;
use crate::errors::{RequestError, SocketIOError};

verus! {

/// The host of a URL text, or `None` when it does not parse or names no host.
pub uninterp spec fn url_host(s: Seq<char>) -> Option<Seq<char>>;

/// The explicit port of a URL text; `None` also when it is the scheme's default.
pub uninterp spec fn url_port(s: Seq<char>) -> Option<u16>;

/// Relies on `url::Url::parse`, then `Url::host_str` and `Url::port` of the
/// parsed URL: the host and the explicit port, or `None` when the text does
/// not parse or the URL has no host.
#[verifier::external_body]
fn parse_url_target(url: &str) -> (r: Option<(String, Option<u16>)>)
    ensures
        match r {
            Some((h, p)) => url_host(url@) == Some(h@) && url_port(url@) == p,
            None => url_host(url@) is None,
        },
{
    let parsed = url::Url::parse(url).ok()?;
    let host = parsed.host_str()?.to_string();
    Some((host, parsed.port()))
}

/// The port an HTTP probe connects to: the URL's own, else 80.
pub open spec fn port_or_default(p: Option<u16>) -> u16 {
    match p {
        Some(x) => x,
        None => 80,
    }
}

/// The host and port of a parsed URL, given as its host and explicit port.
pub fn target_of(parsed: Option<(String, Option<u16>)>) -> (r: Result<(String, u16), RequestError>)
    ensures
        match parsed {
            Some((h, p)) => r matches Ok((rh, rp)) && rh@ == h@ && rp == port_or_default(p),
            None => r == Err::<(String, u16), RequestError>(RequestError::InvalidUrl),
        },
{
    match parsed {
        Some((h, p)) => {
            let port = match p {
                Some(x) => x,
                None => 80,
            };
            Ok((h, port))
        },
        None => Err(RequestError::InvalidUrl),
    }
}

/// The host and port an HTTP probe targets; `InvalidUrl` when the URL does
/// not parse or has no host.
pub fn http_target(url: &str) -> (r: Result<(String, u16), RequestError>)
    ensures
        match url_host(url@) {
            Some(h) => r matches Ok((rh, rp)) && rh@ == h && rp == port_or_default(url_port(url@)),
            None => r == Err::<(String, u16), RequestError>(RequestError::InvalidUrl),
        },
{
    target_of(parse_url_target(url))
}

/// The single report of an HTTP probe.
#[derive(Clone, Debug)]
pub struct HttpEvent {
    pub duration_ms: u64,
    pub dns_duration_ms: u64,
    pub ip: String,
    pub status: Option<u16>,
    pub error: Option<SocketIOError>,
}

/// The report of an HTTP probe against `ip`, given the time to the end of the
/// lookup phase, the time to the end of the request (both from the start) and
/// the response status, if a response came. The total never falls below the
/// lookup phase, which a monotonic clock already guarantees.
pub fn http_event(ip: &str, dns_ms: u64, total_ms: u64, status: Option<u16>) -> (r: HttpEvent)
    ensures
        r.ip@ == ip@,
        r.dns_duration_ms == dns_ms,
        r.duration_ms == (if total_ms >= dns_ms {
            total_ms
        } else {
            dns_ms
        }),
        r.dns_duration_ms <= r.duration_ms,
        r.status == status,
        r.error == (if status is Some {
            None::<SocketIOError>
        } else {
            Some(SocketIOError::ErrHTTPFailed)
        }),
{
    let duration_ms = if total_ms >= dns_ms {
        total_ms
    } else {
        dns_ms
    };
    let error = if status.is_some() {
        None
    } else {
        Some(SocketIOError::ErrHTTPFailed)
    };
    HttpEvent { duration_ms, dns_duration_ms: dns_ms, ip: String::from_str(ip), status, error }
}

} // verus!
