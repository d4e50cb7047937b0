use vstd::prelude::*;
use crate::errors::SocketIOError;

verus! {

/// Whether a text reads as a literal IPv4 or IPv6 address.
pub uninterp spec fn is_ip_literal(s: Seq<char>) -> bool;

/// Relies on `str::parse::<IpAddr>`: the text is an address literal exactly
/// when the parse succeeds, which depends on the characters alone; an empty
/// text never parses.
#[verifier::external_body]
pub fn is_ip(ip: &str) -> (r: bool)
    ensures
        r == is_ip_literal(ip@),
        ip@.len() == 0 ==> !r,
{
    ip.parse::<core::net::IpAddr>().is_ok()
}

/// The views of a sequence of strings.
pub open spec fn texts(v: Seq<String>) -> Seq<Seq<char>> {
    Seq::new(v.len(), |i: int| v[i]@)
}

/// The record type that resolves a host for the chosen address family.
pub open spec fn record_type_text(is_ipv4: bool) -> Seq<char> {
    if is_ipv4 {
        "A"@
    } else {
        "AAAA"@
    }
}

/// `A` for IPv4, `AAAA` for IPv6.
pub fn record_type_for(is_ipv4: bool) -> (r: &'static str)
    ensures
        r@ == record_type_text(is_ipv4),
{
    if is_ipv4 {
        "A"
    } else {
        "AAAA"
    }
}

/// Whether two texts hold the same characters.
pub(crate) fn same_text(a: &str, b: &str) -> (r: bool)
    ensures
        r == (a@ == b@),
{
    let n = a.unicode_len();
    if n != b.unicode_len() {
        return false;
    }
    let mut i: usize = 0;
    while i < n
        invariant
            n == a@.len(),
            n == b@.len(),
            i <= n,
            a@.subrange(0, i as int) == b@.subrange(0, i as int),
        decreases n - i,
    {
        if a.get_char(i) != b.get_char(i) {
            return false;
        }
        assert(a@.subrange(0, i + 1) =~= a@.subrange(0, i as int).push(a@[i as int]));
        assert(b@.subrange(0, i + 1) =~= b@.subrange(0, i as int).push(b@[i as int]));
        i = i + 1;
    }
    assert(a@ =~= a@.subrange(0, n as int));
    assert(b@ =~= b@.subrange(0, n as int));
    true
}

/// Whether `s` ends with `suffix`.
pub open spec fn ends_with_text(s: Seq<char>, suffix: Seq<char>) -> bool {
    s.len() >= suffix.len() && s.subrange(s.len() - suffix.len(), s.len() as int) == suffix
}

fn ends_with(s: &str, suffix: &str) -> (r: bool)
    ensures
        r == ends_with_text(s@, suffix@),
{
    let n = s.unicode_len();
    let m = suffix.unicode_len();
    if n < m {
        return false;
    }
    let tail = s.substring_char(n - m, n);
    same_text(tail, suffix)
}

/// The socket address text of a nameserver override. For an `AAAA` query the
/// override is an IPv6 literal: it is kept when already bracketed with the
/// DNS port, and bracketed before the port otherwise. For any other query it
/// is kept when it already ends with the DNS port, and given the port otherwise.
pub open spec fn nameserver_text(ns: Seq<char>, record_type: Seq<char>) -> Seq<char> {
    if record_type == "AAAA"@ {
        if ends_with_text(ns, "]:53"@) {
            ns
        } else {
            "["@ + ns + "]:53"@
        }
    } else if ends_with_text(ns, ":53"@) {
        ns
    } else {
        ns + ":53"@
    }
}

/// Formats a nameserver override as the socket address the resolver queries.
pub fn nameserver_address(ns: &str, record_type: &str) -> (r: String)
    ensures
        r@ == nameserver_text(ns@, record_type@),
{
    if same_text(record_type, "AAAA") {
        if ends_with(ns, "]:53") {
            String::from_str(ns)
        } else {
            String::from_str("[").concat(ns).concat("]:53")
        }
    } else if ends_with(ns, ":53") {
        String::from_str(ns)
    } else {
        String::from_str(ns).concat(":53")
    }
}

/// `d` is the part of `h` before its first colon (all of `h` without one).
pub open spec fn is_domain_part(h: Seq<char>, d: Seq<char>) -> bool {
    &&& d.len() <= h.len()
    &&& d == h.subrange(0, d.len() as int)
    &&& forall|k: int| 0 <= k < d.len() ==> d[k] != ':'
    &&& d.len() < h.len() ==> h[d.len() as int] == ':'
}

/// The domain of a `host:port` target: everything before the first colon.
pub fn host_domain(host: &str) -> (r: String)
    ensures
        is_domain_part(host@, r@),
{
    let n = host.unicode_len();
    let mut i: usize = 0;
    while i < n
        invariant
            n == host@.len(),
            i <= n,
            forall|k: int| 0 <= k < i ==> host@[k] != ':',
        ensures
            i <= n,
            forall|k: int| 0 <= k < i ==> host@[k] != ':',
            i < n ==> host@[i as int] == ':',
        decreases n - i,
    {
        if host.get_char(i) == ':' {
            break;
        }
        i = i + 1;
    }
    let r = String::from_str(host.substring_char(0, i));
    assert(r@ =~= host@.subrange(0, r@.len() as int));
    assert forall|k: int| 0 <= k < r@.len() implies r@[k] != ':' by {
        assert(r@[k] == host@[k]);
    }
    r
}

/// How a probe reaches its target address.
#[derive(Clone, Debug)]
pub enum TargetPlan {
    /// The target is already an address literal: no lookup is made.
    Literal(String),
    /// The target is a name to be looked up.
    Lookup(String),
}

/// Decides whether a target needs a lookup: only a non-literal one does.
pub fn resolution_plan(host: &str) -> (r: TargetPlan)
    ensures
        is_ip_literal(host@) <==> r is Literal,
        match r {
            TargetPlan::Literal(a) => a@ == host@,
            TargetPlan::Lookup(d) => d@ == host@,
        },
{
    if is_ip(host) {
        TargetPlan::Literal(String::from_str(host))
    } else {
        TargetPlan::Lookup(String::from_str(host))
    }
}

/// `i` is the position of the first address literal among the answers.
pub open spec fn first_literal_at(answers: Seq<Seq<char>>, i: int) -> bool {
    &&& 0 <= i < answers.len()
    &&& is_ip_literal(answers[i])
    &&& forall|j: int| 0 <= j < i ==> !is_ip_literal(answers[j])
}

/// The first answer of a lookup that is an address literal, if any.
pub fn first_address(answers: &Vec<String>) -> (r: Option<String>)
    ensures
        r is None <==> forall|i: int| 0 <= i < answers@.len() ==> !is_ip_literal(answers@[i]@),
        r matches Some(a) ==> exists|i: int|
            first_literal_at(texts(answers@), i) && answers@[i]@ == a@,
{
    let mut i: usize = 0;
    while i < answers.len()
        invariant
            i <= answers@.len(),
            forall|j: int| 0 <= j < i ==> !is_ip_literal(answers@[j]@),
        decreases answers@.len() - i,
    {
        if is_ip(answers[i].as_str()) {
            let a = answers[i].clone();
            assert(first_literal_at(texts(answers@), i as int));
            return Some(a);
        }
        i = i + 1;
    }
    None
}

/// The address literals among the answers, in the order given.
pub open spec fn literal_answers(s: Seq<Seq<char>>) -> Seq<Seq<char>>
    decreases s.len(),
{
    if s.len() == 0 {
        Seq::empty()
    } else {
        let rest = literal_answers(s.drop_last());
        if is_ip_literal(s.last()) {
            rest.push(s.last())
        } else {
            rest
        }
    }
}

/// The strings a DNS probe reports: every answer of an alias query, only the
/// address literals of any other query.
pub open spec fn reported_answers(record_type: Seq<char>, s: Seq<Seq<char>>) -> Seq<Seq<char>> {
    if record_type == "CNAME"@ {
        s
    } else {
        literal_answers(s)
    }
}

/// Selects the answers that a DNS probe reports.
pub fn address_answers(record_type: &str, answers: &Vec<String>) -> (r: Vec<String>)
    ensures
        texts(r@) == reported_answers(record_type@, texts(answers@)),
{
    if same_text(record_type, "CNAME") {
        let r = answers.clone();
        assert(texts(r@) =~= texts(answers@));
        return r;
    }
    let mut r: Vec<String> = Vec::new();
    let mut i: usize = 0;
    while i < answers.len()
        invariant
            i <= answers@.len(),
            texts(r@) == literal_answers(texts(answers@).take(i as int)),
        decreases answers@.len() - i,
    {
        let ghost before = texts(answers@).take(i as int);
        let ghost after = texts(answers@).take(i + 1);
        assert(after.drop_last() =~= before);
        assert(after.last() == answers@[i as int]@);
        if is_ip(answers[i].as_str()) {
            r.push(answers[i].clone());
            assert(texts(r@) =~= literal_answers(before).push(answers@[i as int]@));
        }
        i = i + 1;
    }
    assert(texts(answers@).take(answers@.len() as int) =~= texts(answers@));
    r
}

/// Where a probe's target resolution ends: the literal itself, the first
/// address literal among the answers, or `ErrDNSLookupFailed` when the lookup
/// failed or gave no address literal.
pub fn target_address(plan: TargetPlan, lookup: Option<Vec<String>>) -> (r: Result<
    String,
    SocketIOError,
>)
    ensures
        match plan {
            TargetPlan::Literal(a) => r matches Ok(x) && x@ == a@,
            TargetPlan::Lookup(_) => match lookup {
                None => r == Err::<String, SocketIOError>(SocketIOError::ErrDNSLookupFailed),
                Some(answers) => match r {
                    Ok(x) => exists|i: int|
                        first_literal_at(texts(answers@), i) && answers@[i]@ == x@,
                    Err(e) => e == SocketIOError::ErrDNSLookupFailed && forall|i: int|
                        0 <= i < answers@.len() ==> !is_ip_literal(answers@[i]@),
                },
            },
        },
{
    match plan {
        TargetPlan::Literal(a) => Ok(a),
        TargetPlan::Lookup(_) => match lookup {
            None => Err(SocketIOError::ErrDNSLookupFailed),
            Some(answers) => match first_address(&answers) {
                Some(a) => Ok(a),
                None => Err(SocketIOError::ErrDNSLookupFailed),
            },
        },
    }
}

/// The single report of a DNS probe.
#[derive(Clone, Debug)]
pub struct DnsEvent {
    pub duration_ms: Option<u64>,
    pub ips: Vec<String>,
    pub error: Option<SocketIOError>,
}

/// The report of a DNS probe: the lookup time and the reported answers, or
/// `ErrDNSLookupFailed` when the lookup failed.
pub fn dns_event(record_type: &str, lookup: Option<Vec<String>>, elapsed_ms: u64) -> (r: DnsEvent)
    ensures
        match lookup {
            Some(answers) => r.duration_ms == Some(elapsed_ms) && r.error is None && texts(r.ips@)
                == reported_answers(record_type@, texts(answers@)),
            None => r.duration_ms is None && r.ips@.len() == 0 && r.error == Some(
                SocketIOError::ErrDNSLookupFailed,
            ),
        },
{
    match lookup {
        Some(answers) => DnsEvent {
            duration_ms: Some(elapsed_ms),
            ips: address_answers(record_type, &answers),
            error: None,
        },
        None => DnsEvent {
            duration_ms: None,
            ips: Vec::new(),
            error: Some(SocketIOError::ErrDNSLookupFailed),
        },
    }
}

/// Whether a text names a DNS record type.
pub uninterp spec fn is_record_type(s: Seq<char>) -> bool;

/// Whether a text holds an ASCII lower-case letter.
pub open spec fn has_ascii_lowercase(s: Seq<char>) -> bool {
    exists|i: int| 0 <= i < s.len() && 'a' <= #[trigger] s[i] <= 'z'
}

/// Relies on hickory's `RecordType::from_str`: whether the text is one of
/// the record type names it knows, which depends on the text alone. It
/// asserts in debug builds that the text has no lower-case letter.
#[verifier::external_body]
fn parses_as_record_type(s: &str) -> (r: bool)
    requires
        !has_ascii_lowercase(s@),
    ensures
        r == is_record_type(s@),
{
    s.parse::<hickory_resolver::proto::rr::RecordType>().is_ok()
}

/// Whether a record type can be queried: a known record type name, written
/// without lower-case letters.
pub fn valid_record_type(s: &str) -> (r: bool)
    ensures
        r == (!has_ascii_lowercase(s@) && is_record_type(s@)),
{
    let n = s.unicode_len();
    let mut i: usize = 0;
    while i < n
        invariant
            n == s@.len(),
            i <= n,
            forall|k: int| 0 <= k < i ==> !('a' <= #[trigger] s@[k] <= 'z'),
        decreases n - i,
    {
        let c = s.get_char(i);
        if 'a' <= c && c <= 'z' {
            return false;
        }
        i = i + 1;
    }
    parses_as_record_type(s)
}

/// Whether a text reads as a socket address (an address literal and a port).
pub uninterp spec fn is_socket_address(s: Seq<char>) -> bool;

/// Relies on `str::parse::<SocketAddr>`: whether the text is a socket
/// address, which depends on the text alone.
#[verifier::external_body]
fn parses_as_socket_address(s: &str) -> (r: bool)
    ensures
        r == is_socket_address(s@),
{
    s.parse::<core::net::SocketAddr>().is_ok()
}

/// The nameserver a lookup is sent to: none for the system's configuration;
/// the formatted override when it reads as a socket address; a lookup
/// failure otherwise.
pub fn resolver_nameserver(ns: Option<&str>, record_type: &str) -> (r: Result<
    Option<String>,
    SocketIOError,
>)
    ensures
        match ns {
            None => r matches Ok(None),
            Some(n) => if is_socket_address(nameserver_text(n@, record_type@)) {
                r matches Ok(Some(a)) && a@ == nameserver_text(n@, record_type@)
            } else {
                r == Err::<Option<String>, SocketIOError>(SocketIOError::ErrDNSLookupFailed)
            },
        },
{
    match ns {
        None => Ok(None),
        Some(n) => {
            let a = nameserver_address(n, record_type);
            if parses_as_socket_address(a.as_str()) {
                Ok(Some(a))
            } else {
                Err(SocketIOError::ErrDNSLookupFailed)
            }
        },
    }
}

} // verus!
