use vstd::prelude::*;
use crate::errors::RequestError;
use crate::resolve::{
    has_ascii_lowercase, host_domain, is_domain_part, is_record_type, valid_record_type,
};

verus! {

/// A value given in a request, or its default.
pub open spec fn or_default(v: Option<bool>, d: bool) -> bool {
    match v {
        Some(x) => x,
        None => d,
    }
}

fn flag_or(v: Option<bool>, d: bool) -> (r: bool)
    ensures
        r == or_default(v, d),
{
    match v {
        Some(x) => x,
        None => d,
    }
}

/// A ping or tcping request: single-shot and IPv4 unless said otherwise.
#[derive(Clone, Debug)]
pub struct StreamRequest {
    /// The target: a host for ping, `host:port` for tcping.
    pub host: String,
    pub single: bool,
    pub is_ipv4: bool,
    /// A nameserver to ask instead of the system's.
    pub ns: Option<String>,
}

impl StreamRequest {
    /// Validates the fields of a ping or tcping request; the host is required.
    pub fn from_fields(
        host: Option<String>,
        single: Option<bool>,
        is_ipv4: Option<bool>,
        ns: Option<String>,
    ) -> (r: Result<StreamRequest, RequestError>)
        ensures
            r is Ok <==> host is Some,
            host is None <==> r == Err::<StreamRequest, RequestError>(RequestError::MissingHost),
            r matches Ok(q) ==> host matches Some(h) && q.host@ == h@ && q.single == or_default(
                single,
                true,
            ) && q.is_ipv4 == or_default(is_ipv4, true) && q.ns == ns,
    {
        match host {
            None => Err(RequestError::MissingHost),
            Some(h) => Ok(
                StreamRequest {
                    host: h,
                    single: flag_or(single, true),
                    is_ipv4: flag_or(is_ipv4, true),
                    ns,
                },
            ),
        }
    }

    /// The name a tcping target resolves: the part of `host:port` before the
    /// first colon.
    pub fn domain(&self) -> (r: String)
        ensures
            is_domain_part(self.host@, r@),
    {
        host_domain(self.host.as_str())
    }
}

/// A record type the resolver can be asked for.
pub open spec fn valid_type_text(t: Seq<char>) -> bool {
    !has_ascii_lowercase(t) && is_record_type(t)
}

/// A DNS probe request.
#[derive(Clone, Debug)]
pub struct DnsRequest {
    pub domain: String,
    pub record_type: String,
    pub ns: Option<String>,
}

impl DnsRequest {
    /// Validates the fields of a DNS request; domain and record type are
    /// required, and the record type must be one the resolver knows.
    pub fn from_fields(domain: Option<String>, record_type: Option<String>, ns: Option<String>) -> (r:
        Result<DnsRequest, RequestError>)
        ensures
            domain is None ==> r == Err::<DnsRequest, RequestError>(RequestError::MissingDomain),
            domain is Some && record_type is None ==> r == Err::<DnsRequest, RequestError>(
                RequestError::MissingRecordType,
            ),
            (domain is Some && (record_type matches Some(t) && !valid_type_text(t@))) ==> r == Err::<
                DnsRequest,
                RequestError,
            >(RequestError::InvalidRecordType),
            r is Ok <==> (domain is Some && (record_type matches Some(t) && valid_type_text(t@))),
            r matches Ok(q) ==> domain matches Some(d) && record_type matches Some(t) && q.domain@
                == d@ && q.record_type@ == t@ && q.ns == ns,
    {
        match (domain, record_type) {
            (None, _) => Err(RequestError::MissingDomain),
            (Some(_), None) => Err(RequestError::MissingRecordType),
            (Some(d), Some(t)) => if valid_record_type(t.as_str()) {
                Ok(DnsRequest { domain: d, record_type: t, ns })
            } else {
                Err(RequestError::InvalidRecordType)
            },
        }
    }
}

/// A traceroute request: IPv4 unless said otherwise.
#[derive(Clone, Debug)]
pub struct MtrRequest {
    pub host: String,
    pub is_ipv4: bool,
    pub ns: Option<String>,
}

impl MtrRequest {
    /// Validates the fields of a traceroute request; the host is required.
    pub fn from_fields(host: Option<String>, is_ipv4: Option<bool>, ns: Option<String>) -> (r:
        Result<MtrRequest, RequestError>)
        ensures
            r is Ok <==> host is Some,
            host is None <==> r == Err::<MtrRequest, RequestError>(RequestError::MissingHost),
            r matches Ok(q) ==> host matches Some(h) && q.host@ == h@ && q.is_ipv4 == or_default(
                is_ipv4,
                true,
            ) && q.ns == ns,
    {
        match host {
            None => Err(RequestError::MissingHost),
            Some(h) => Ok(MtrRequest { host: h, is_ipv4: flag_or(is_ipv4, true), ns }),
        }
    }
}

/// An HTTP probe request: IPv4 unless said otherwise.
#[derive(Clone, Debug)]
pub struct HttpRequest {
    pub url: String,
    pub is_ipv4: bool,
    pub ns: Option<String>,
}

impl HttpRequest {
    /// Validates the fields of an HTTP request; the URL is required.
    pub fn from_fields(url: Option<String>, is_ipv4: Option<bool>, ns: Option<String>) -> (r:
        Result<HttpRequest, RequestError>)
        ensures
            r is Ok <==> url is Some,
            url is None <==> r == Err::<HttpRequest, RequestError>(RequestError::MissingUrl),
            r matches Ok(q) ==> url matches Some(u) && q.url@ == u@ && q.is_ipv4 == or_default(
                is_ipv4,
                true,
            ) && q.ns == ns,
    {
        match url {
            None => Err(RequestError::MissingUrl),
            Some(u) => Ok(HttpRequest { url: u, is_ipv4: flag_or(is_ipv4, true), ns }),
        }
    }
}

} // verus!
