use vstd::prelude::*;
use crate::resolve::same_text;

verus! {

/// `i` is the position of the first `c` in `s`, or its length when there is none.
pub open spec fn is_first(s: Seq<char>, c: char, i: int) -> bool {
    &&& 0 <= i <= s.len()
    &&& forall|k: int| 0 <= k < i ==> s[k] != c
    &&& i < s.len() ==> s[i] == c
}

/// The bearer token of an authorization header: the text between its first
/// space and the next space (or its end).
pub open spec fn has_token(h: Seq<char>, token: Seq<char>) -> bool {
    exists|i: int, j: int|
        #![trigger is_first(h, ' ', i), is_first(h.subrange(i + 1, h.len() as int), ' ', j)]
        is_first(h, ' ', i) && i < h.len() && is_first(h.subrange(i + 1, h.len() as int), ' ', j)
            && token == h.subrange(i + 1, i + 1 + j)
}

fn first_index(s: &str, from: usize, c: char) -> (r: usize)
    requires
        from <= s@.len(),
    ensures
        is_first(s@.subrange(from as int, s@.len() as int), c, r - from),
        from <= r <= s@.len(),
{
    let n = s.unicode_len();
    let mut i: usize = from;
    while i < n
        invariant
            n == s@.len(),
            from <= i <= n,
            forall|k: int| from <= k < i ==> s@[k] != c,
        ensures
            from <= i <= n,
            forall|k: int| from <= k < i ==> s@[k] != c,
            i < n ==> s@[i as int] == c,
        decreases n - i,
    {
        if s.get_char(i) == c {
            break;
        }
        i = i + 1;
    }
    let ghost t = s@.subrange(from as int, s@.len() as int);
    assert forall|k: int| 0 <= k < i - from implies t[k] != c by {
        assert(t[k] == s@[from + k]);
    }
    i
}

/// The bearer token of an authorization header, when it has one.
pub fn bearer_token(header: &str) -> (r: Option<String>)
    ensures
        r is None <==> !header@.contains(' '),
        r matches Some(t) ==> has_token(header@, t@),
{
    let n = header.unicode_len();
    let i = first_index(header, 0, ' ');
    assert(header@.subrange(0, n as int) =~= header@);
    if i == n {
        assert(!header@.contains(' '));
        return None;
    }
    let j = first_index(header, i + 1, ' ');
    let t = String::from_str(header.substring_char(i + 1, j));
    assert(has_token(header@, t@)) by {
        let s1 = header@.subrange(i + 1, header@.len() as int);
        assert(is_first(s1, ' ', j - (i + 1)));
    }
    Some(t)
}

/// A request is authorized when its authorization header carries the
/// configured key as bearer token.
pub open spec fn authorized_by(header: Option<Seq<char>>, key: Seq<char>) -> bool {
    match header {
        Some(h) => has_token(h, key),
        None => false,
    }
}

proof fn lemma_token_unique(h: Seq<char>, t1: Seq<char>, t2: Seq<char>)
    requires
        has_token(h, t1),
        has_token(h, t2),
    ensures
        t1 == t2,
{
    let (i1, j1) = choose|i: int, j: int|
        #![trigger is_first(h, ' ', i), is_first(h.subrange(i + 1, h.len() as int), ' ', j)]
        is_first(h, ' ', i) && i < h.len() && is_first(h.subrange(i + 1, h.len() as int), ' ', j)
            && t1 == h.subrange(i + 1, i + 1 + j);
    let (i2, j2) = choose|i: int, j: int|
        #![trigger is_first(h, ' ', i), is_first(h.subrange(i + 1, h.len() as int), ' ', j)]
        is_first(h, ' ', i) && i < h.len() && is_first(h.subrange(i + 1, h.len() as int), ' ', j)
            && t2 == h.subrange(i + 1, i + 1 + j);
    assert(i1 == i2) by {
        if i1 < i2 {
            assert(h[i1] == ' ');
        } else if i2 < i1 {
            assert(h[i2] == ' ');
        }
    }
    let s = h.subrange(i1 + 1, h.len() as int);
    assert(j1 == j2) by {
        if j1 < j2 {
            assert(s[j1] == ' ');
        } else if j2 < j1 {
            assert(s[j2] == ' ');
        }
    }
}

/// The bearer check shared by sessions and the liveness endpoint; a missing
/// header or one without a token is refused.
pub fn authorize(header: Option<&str>, key: &str) -> (r: bool)
    ensures
        r == authorized_by(
            match header {
                Some(h) => Some(h@),
                None => None,
            },
            key@,
        ),
{
    match header {
        None => false,
        Some(h) => match bearer_token(h) {
            None => {
                assert forall|t: Seq<char>| !has_token(h@, t) by {
                    if has_token(h@, t) {
                        let (i, j) = choose|i: int, j: int|
                            #![trigger is_first(h@, ' ', i), is_first(h@.subrange(i + 1, h@.len() as int), ' ', j)]
                            is_first(h@, ' ', i) && i < h@.len() && is_first(
                                h@.subrange(i + 1, h@.len() as int),
                                ' ',
                                j,
                            ) && t == h@.subrange(i + 1, i + 1 + j);
                        assert(h@[i] == ' ');
                        assert(h@.contains(' '));
                    }
                }
                false
            },
            Some(t) => {
                let ok = same_text(t.as_str(), key);
                proof {
                    if ok {
                        assert(has_token(h@, t@) && t@ == key@);
                    } else {
                        assert forall|u: Seq<char>| has_token(h@, u) implies u != key@ by {
                            lemma_token_unique(h@, t@, u);
                        }
                    }
                }
                ok
            },
        },
    }
}

/// What a new session does once its credentials were checked.
#[derive(Clone, Copy, Debug, PartialEq, Eq, Structural)]
pub enum ConnectAction {
    /// Emit the `error` event with payload `unauthorized`, then disconnect;
    /// no probe listener is registered.
    Reject,
    /// Register the five probe listeners.
    Accept,
}

/// Decides on a new session from its authorization header.
pub fn on_connect(header: Option<&str>, key: &str) -> (r: ConnectAction)
    ensures
        r == (if authorized_by(
            match header {
                Some(h) => Some(h@),
                None => None,
            },
            key@,
        ) {
            ConnectAction::Accept
        } else {
            ConnectAction::Reject
        }),
{
    if authorize(header, key) {
        ConnectAction::Accept
    } else {
        ConnectAction::Reject
    }
}

/// The event name and payload sent to a rejected session.
pub fn rejection() -> (r: (&'static str, &'static str))
    ensures
        r.0@ == "error"@,
        r.1@ == "unauthorized"@,
{
    ("error", "unauthorized")
}

/// The status and body of the authenticated liveness check.
pub fn pong_response(header: Option<&str>, key: &str) -> (r: (u16, &'static str))
    ensures
        authorized_by(
            match header {
                Some(h) => Some(h@),
                None => None,
            },
            key@,
        ) ==> r.0 == 200 && r.1@ == "pong"@,
        !authorized_by(
            match header {
                Some(h) => Some(h@),
                None => None,
            },
            key@,
        ) ==> r.0 == 401 && r.1@ == ""@,
{
    if authorize(header, key) {
        (200, "pong")
    } else {
        (401, "")
    }
}

/// The five probes a session serves.
#[derive(Clone, Copy, Debug, PartialEq, Eq, Structural)]
pub enum ProbeKind {
    Ping,
    Tcping,
    Dns,
    Mtr,
    Http,
}

/// The event name of each probe.
pub open spec fn probe_name(k: ProbeKind) -> Seq<char> {
    match k {
        ProbeKind::Ping => "ping"@,
        ProbeKind::Tcping => "tcping"@,
        ProbeKind::Dns => "dns"@,
        ProbeKind::Mtr => "mtr"@,
        ProbeKind::Http => "http"@,
    }
}

impl ProbeKind {
    /// The event name under which this probe is requested and reports.
    pub fn name(&self) -> (r: &'static str)
        ensures
            r@ == probe_name(*self),
    {
        match self {
            ProbeKind::Ping => "ping",
            ProbeKind::Tcping => "tcping",
            ProbeKind::Dns => "dns",
            ProbeKind::Mtr => "mtr",
            ProbeKind::Http => "http",
        }
    }

    /// Whether the probe streams rounds and stops on a cancellation.
    pub fn cancellable(&self) -> (r: bool)
        ensures
            r == (*self is Ping || *self is Tcping),
    {
        match self {
            ProbeKind::Ping | ProbeKind::Tcping => true,
            _ => false,
        }
    }

    /// Whether the probe closes the session when it ends (unless cancelled);
    /// the one-shot DNS and HTTP probes leave it open.
    pub fn closes_session(&self) -> (r: bool)
        ensures
            r == !(*self is Dns || *self is Http),
    {
        match self {
            ProbeKind::Dns | ProbeKind::Http => false,
            _ => true,
        }
    }
}

/// Routes a request by its event name.
pub fn probe_kind(name: &str) -> (r: Option<ProbeKind>)
    ensures
        r matches Some(k) ==> probe_name(k) == name@,
        r is None ==> forall|k: ProbeKind| probe_name(k) != name@,
{
    if same_text(name, "ping") {
        Some(ProbeKind::Ping)
    } else if same_text(name, "tcping") {
        Some(ProbeKind::Tcping)
    } else if same_text(name, "dns") {
        Some(ProbeKind::Dns)
    } else if same_text(name, "mtr") {
        Some(ProbeKind::Mtr)
    } else if same_text(name, "http") {
        Some(ProbeKind::Http)
    } else {
        None
    }
}

} // verus!
