//! Value types shared across the service: the protocol selector and the
//! probe target, which is either an IP literal or a DNS name.

use vstd::prelude::*;
use crate::ip::{IpAddr, spec_parse_ip, parse_ip, spec_ip_str, ip_to_string};
use crate::text::str_eq;

verus! {

/// The IP protocol family a probe session runs over.
#[derive(Debug, Clone, Copy, PartialEq, Eq, Structural)]
pub enum Protocol {
    V4,
    V6,
}

/// The literal form of a protocol selector.
pub open spec fn spec_protocol_str(p: Protocol) -> Seq<char> {
    if p == Protocol::V4 {
        "v4"@
    } else {
        "v6"@
    }
}

/// What parsing a protocol selector yields.
pub open spec fn spec_parse_protocol(s: Seq<char>) -> Option<Protocol> {
    if s == "v4"@ {
        Some(Protocol::V4)
    } else if s == "v6"@ {
        Some(Protocol::V6)
    } else {
        None
    }
}

impl Protocol {
    /// The literal form used in query strings and metric labels.
    pub fn as_str(&self) -> (r: &'static str)
        ensures
            r@ == spec_protocol_str(*self),
    {
        match self {
            Protocol::V4 => "v4",
            Protocol::V6 => "v6",
        }
    }

    /// Parse `"v4"` or `"v6"`; anything else is rejected with a message
    /// naming the offending value.
    pub fn from_str(s: &str) -> (r: Result<Protocol, String>)
        ensures
            s@ == "v4"@ ==> r == Result::<Protocol, String>::Ok(Protocol::V4),
            s@ == "v6"@ ==> r == Result::<Protocol, String>::Ok(Protocol::V6),
            s@ != "v4"@ && s@ != "v6"@ ==> (r matches Err(m) && m@ == "'"@ + s@
                + "' is not valid protocol, use v4 or v6"@),
    {
        proof {
            reveal_strlit("v4");
            reveal_strlit("v6");
            assert("v4"@[1] == '4' && "v6"@[1] == '6');
        }
        if str_eq(s, "v4") {
            Ok(Protocol::V4)
        } else if str_eq(s, "v6") {
            Ok(Protocol::V6)
        } else {
            let mut m = String::from_str("'");
            m.append(s);
            m.append("' is not valid protocol, use v4 or v6");
            Err(m)
        }
    }
}

/// What parsing a probe target yields, as the view of the parsed value:
/// an IP literal of either family is tried first; what remains is handed
/// to the DNS name parser.
pub open spec fn spec_parse_target(s: Seq<char>) -> Option<(Option<IpAddr>, Seq<char>)> {
    match spec_parse_ip(s) {
        Some(a) => Some((Some(a), spec_ip_str(a))),
        None => match dns_name_parse(s) {
            Some(n) => Some((Option::<IpAddr>::None, n)),
            None => None,
        },
    }
}

/// The text form of a DNS name as the resolver library parses it, `None`
/// where the library rejects the string. The result depends on the string
/// alone.
pub uninterp spec fn dns_name_parse(s: Seq<char>) -> Option<Seq<char>>;

/// Relies on `trust_dns_resolver::Name::from_str_relaxed` (what the
/// library's `FromStr` delegates to) for which strings are acceptable DNS
/// names, and on the name's display form for the text kept.
#[verifier::external_body]
fn parse_dns_name(s: &str) -> (r: Option<String>)
    ensures
        r is Some <==> dns_name_parse(s@) is Some,
        r matches Some(n) ==> dns_name_parse(s@) == Some(n@),
{
    match trust_dns_resolver::Name::from_str_relaxed(s) {
        Ok(name) => Some(name.to_string()),
        Err(_) => None,
    }
}

/// A probe target: a DNS name to resolve, or an IP literal used as is.
#[derive(Debug, Clone)]
pub enum NameOrIpAddr {
    Name(String),
    IpAddr(IpAddr),
}

impl NameOrIpAddr {
    /// Parse a target string.
    pub fn from_str(s: &str) -> (r: Option<NameOrIpAddr>)
        ensures
            match spec_parse_target(s@) {
                Some(t) => r matches Some(v) && v@ == t,
                None => r is None,
            },
    {
        match parse_ip(s) {
            Some(a) => Some(NameOrIpAddr::IpAddr(a)),
            None => match parse_dns_name(s) {
                Some(n) => Some(NameOrIpAddr::Name(n)),
                None => None,
            },
        }
    }

    /// Render the target as the underlying value's text.
    pub fn to_display_string(&self) -> (r: String)
        ensures
            r@ == self@.1,
    {
        match self {
            NameOrIpAddr::Name(n) => n.clone(),
            NameOrIpAddr::IpAddr(a) => ip_to_string(a),
        }
    }
}

impl View for NameOrIpAddr {
    /// A target is abstractly its shape and its text: the address when it
    /// is a literal, and the display text in either case.
    type V = (Option<IpAddr>, Seq<char>);

    open spec fn view(&self) -> (Option<IpAddr>, Seq<char>) {
        match self {
            NameOrIpAddr::Name(n) => (None, n@),
            NameOrIpAddr::IpAddr(a) => (Some(*a), spec_ip_str(*a)),
        }
    }
}

} // verus!
