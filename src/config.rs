use vstd::prelude::*;
use crate::resolve::same_text;

verus! {

/// Process configuration: controller addresses, listen port, bearer key,
/// public endpoint override and debug flag.
#[derive(Clone, Debug)]
pub struct Cli {
    pub ipv4_server: Option<String>,
    pub ipv6_server: Option<String>,
    pub port: u16,
    pub api_key: String,
    pub debug: bool,
    pub endpoint: Option<String>,
}

/// The controller address a registration for `family` goes to: the
/// configured one for that family, else its default; `None` for a family
/// other than `ipv4` and `ipv6`.
pub open spec fn registration_target(
    args: Cli,
    family: Seq<char>,
    v4_default: Seq<char>,
    v6_default: Seq<char>,
) -> Option<Seq<char>> {
    if family == "ipv4"@ {
        Some(
            match args.ipv4_server {
                Some(s) => s@,
                None => v4_default,
            },
        )
    } else if family == "ipv6"@ {
        Some(
            match args.ipv6_server {
                Some(s) => s@,
                None => v6_default,
            },
        )
    } else {
        None
    }
}

fn configured_or(configured: &Option<String>, default: &str) -> (r: String)
    ensures
        r@ == match configured {
            Some(s) => s@,
            None => default@,
        },
{
    match configured {
        Some(s) => s.clone(),
        None => String::from_str(default),
    }
}

impl Cli {
    /// Where to register this agent for an address family.
    pub fn registration_server(&self, family: &str, v4_default: &str, v6_default: &str) -> (r:
        Option<String>)
        ensures
            match registration_target(*self, family@, v4_default@, v6_default@) {
                Some(t) => r matches Some(x) && x@ == t,
                None => r is None,
            },
    {
        if same_text(family, "ipv4") {
            Some(configured_or(&self.ipv4_server, v4_default))
        } else if same_text(family, "ipv6") {
            Some(configured_or(&self.ipv6_server, v6_default))
        } else {
            None
        }
    }
}

/// The agent starts serving only when at least one address family registered.
pub fn startup_allowed(v4_ok: bool, v6_ok: bool) -> (r: bool)
    ensures
        r == (v4_ok || v6_ok),
{
    v4_ok || v6_ok
}

} // verus!
