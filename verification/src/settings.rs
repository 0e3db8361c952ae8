//! Process-wide settings: defaults, parsing of the configuration values,
//! and the one-line description logged at startup.

use vstd::prelude::*;
use crate::ip::{IpAddr, Ipv4Addr, Ipv6Addr, spec_parse_ipv4, spec_parse_ipv6, parse_ipv4, parse_ipv6, spec_parse_ip, parse_ip, spec_ipv4_str, ipv4_string, spec_ipv6_str, ipv6_string};
use crate::text::{spec_parse_u64, parse_u64, spec_dec_str, dec_string};
use crate::utils::{Protocol, spec_protocol_str, spec_parse_protocol};

verus! {

/// A listen address: an IP address and a port.
#[derive(Debug, Clone, Copy, PartialEq, Eq, Structural)]
pub struct SocketAddr {
    pub addr: IpAddr,
    pub port: u16,
}

/// The first index of `c` in `s` at or after `i`, if any.
pub open spec fn find_from(s: Seq<char>, i: int, c: char) -> Option<int>
    decreases s.len() - i,
{
    if i < 0 || i >= s.len() {
        None
    } else if s[i] == c {
        Some(i)
    } else {
        find_from(s, i + 1, c)
    }
}

/// The last index of `c` in `s`, if any.
pub open spec fn rfind(s: Seq<char>, c: char) -> Option<int>
    decreases s.len(),
{
    if s.len() == 0 {
        None
    } else if s.last() == c {
        Some(s.len() - 1)
    } else {
        rfind(s.drop_last(), c)
    }
}

/// A port number: decimal digits valued at most 65535.
pub open spec fn spec_parse_port(s: Seq<char>) -> Option<u16> {
    match spec_parse_u64(s) {
        Some(v) => if v <= 65535 {
            Some(v as u16)
        } else {
            None
        },
        None => None,
    }
}

/// What parsing a listen address yields: `[v6]:port` for IPv6,
/// `v4:port` (split at the last colon) for IPv4.
pub open spec fn spec_parse_sockaddr(s: Seq<char>) -> Option<SocketAddr> {
    if s.len() > 0 && s[0] == '[' {
        match find_from(s, 1, ']') {
            Some(j) => {
                if j + 1 < s.len() && s[j + 1] == ':' {
                    match (spec_parse_ipv6(s.subrange(1, j)), spec_parse_port(
                        s.subrange(j + 2, s.len() as int),
                    )) {
                        (Some(a), Some(p)) => Some(SocketAddr { addr: IpAddr::V6(a), port: p }),
                        _ => None,
                    }
                } else {
                    None
                }
            },
            None => None,
        }
    } else {
        match rfind(s, ':') {
            Some(j) => match (spec_parse_ipv4(s.subrange(0, j)), spec_parse_port(
                s.subrange(j + 1, s.len() as int),
            )) {
                (Some(a), Some(p)) => Some(SocketAddr { addr: IpAddr::V4(a), port: p }),
                _ => None,
            },
            None => None,
        }
    }
}

/// A found index is the first: `c` stands there and nowhere earlier.
pub proof fn lemma_find_from_spec(s: Seq<char>, i: int, c: char)
    requires
        0 <= i <= s.len(),
    ensures
        match find_from(s, i, c) {
            Some(j) => i <= j < s.len() && s[j] == c && (forall|k: int|
                i <= k < j ==> s[k] != c),
            None => forall|k: int| i <= k < s.len() ==> s[k] != c,
        },
    decreases s.len() - i,
{
    if i < s.len() && s[i] != c {
        lemma_find_from_spec(s, i + 1, c);
    }
}

/// Where `c` stands at `j` and nowhere earlier, the search finds `j`.
pub proof fn lemma_find_from_exact(s: Seq<char>, i: int, j: int, c: char)
    requires
        0 <= i <= j < s.len(),
        s[j] == c,
        forall|k: int| i <= k < j ==> s[k] != c,
    ensures
        find_from(s, i, c) == Some(j),
    decreases j - i,
{
    if i < j {
        lemma_find_from_exact(s, i + 1, j, c);
    }
}

/// Where `c` stands nowhere at or after `i`, the search finds nothing.
pub proof fn lemma_find_from_none(s: Seq<char>, i: int, c: char)
    requires
        0 <= i <= s.len(),
        forall|k: int| i <= k < s.len() ==> s[k] != c,
    ensures
        find_from(s, i, c) is None,
    decreases s.len() - i,
{
    if i < s.len() {
        lemma_find_from_none(s, i + 1, c);
    }
}

/// Find the first `c` at or after `i`.
pub(crate) fn find_from_exec(s: &str, i: usize, c: char) -> (r: Option<usize>)
    requires
        i <= s@.len(),
    ensures
        match r {
            Some(j) => find_from(s@, i as int, c) == Some(j as int) && i <= j < s@.len(),
            None => find_from(s@, i as int, c) is None,
        },
    decreases s@.len() - i,
{
    if i == s.unicode_len() {
        None
    } else if s.get_char(i) == c {
        Some(i)
    } else {
        find_from_exec(s, i + 1, c)
    }
}

/// Find the last `c` in the first `n` characters.
fn rfind_exec(s: &str, c: char) -> (r: Option<usize>)
    ensures
        match r {
            Some(j) => rfind(s@, c) == Some(j as int) && j < s@.len(),
            None => rfind(s@, c) is None,
        },
{
    let n = s.unicode_len();
    proof {
        assert(s@.subrange(0, n as int) =~= s@);
    }
    let mut i: usize = n;
    while i > 0
        invariant
            i <= n == s@.len(),
            rfind(s@, c) == rfind(s@.subrange(0, i as int), c),
        decreases i,
    {
        let c2 = s.get_char(i - 1);
        proof {
            assert(s@.subrange(0, i as int).drop_last() =~= s@.subrange(0, i as int - 1));
            assert(s@.subrange(0, i as int).last() == s@[i as int - 1]);
        }
        if c2 == c {
            return Some(i - 1);
        }
        i = i - 1;
    }
    proof {
        assert(s@.subrange(0, 0) =~= Seq::<char>::empty());
    }
    None
}

/// Parse a port suffix.
fn parse_port(s: &str) -> (r: Option<u16>)
    ensures
        r == spec_parse_port(s@),
{
    match parse_u64(s) {
        Some(v) => if v <= 65535 {
            Some(v as u16)
        } else {
            None
        },
        None => None,
    }
}

/// Parse a listen address.
pub fn parse_sockaddr(s: &str) -> (r: Option<SocketAddr>)
    ensures
        r == spec_parse_sockaddr(s@),
{
    let n = s.unicode_len();
    if n > 0 && s.get_char(0) == '[' {
        match find_from_exec(s, 1, ']') {
            Some(j) => {
                if j + 1 < n && s.get_char(j + 1) == ':' {
                    let inside = s.substring_char(1, j);
                    let portpart = s.substring_char(j + 2, n);
                    match (parse_ipv6(inside), parse_port(portpart)) {
                        (Some(a), Some(p)) => Some(SocketAddr { addr: IpAddr::V6(a), port: p }),
                        _ => None,
                    }
                } else {
                    None
                }
            },
            None => None,
        }
    } else {
        match rfind_exec(s, ':') {
            Some(j) => {
                let ippart = s.substring_char(0, j);
                let portpart = s.substring_char(j + 1, n);
                match (parse_ipv4(ippart), parse_port(portpart)) {
                    (Some(a), Some(p)) => Some(SocketAddr { addr: IpAddr::V4(a), port: p }),
                    _ => None,
                }
            },
            None => None,
        }
    }
}

/// The rendering of a listen address: `[v6]:port` or `v4:port`.
pub open spec fn spec_sockaddr_str(sa: SocketAddr) -> Seq<char> {
    match sa.addr {
        IpAddr::V4(a) => spec_ipv4_str(a) + seq![':'] + spec_dec_str(sa.port as nat),
        IpAddr::V6(a) => seq!['['] + spec_ipv6_str(a) + seq![']', ':'] + spec_dec_str(
            sa.port as nat,
        ),
    }
}

/// Render a listen address.
pub fn sockaddr_string(sa: &SocketAddr) -> (r: String)
    ensures
        r@ == spec_sockaddr_str(*sa),
{
    match &sa.addr {
        IpAddr::V4(a) => {
            proof {
                reveal_strlit(":");
            }
            let mut s = ipv4_string(a);
            s.append(":");
            let p = dec_string(sa.port as u64);
            s.append(p.as_str());
            proof {
                assert(s@ =~= spec_sockaddr_str(*sa));
            }
            s
        },
        IpAddr::V6(a) => {
            proof {
                reveal_strlit("[");
                reveal_strlit("]:");
            }
            let mut s = String::from_str("[");
            let inner = ipv6_string(a);
            s.append(inner.as_str());
            s.append("]:");
            let p = dec_string(sa.port as u64);
            s.append(p.as_str());
            proof {
                assert(s@ =~= spec_sockaddr_str(*sa));
            }
            s
        },
    }
}

/// Process-wide settings, immutable once loaded.
#[derive(Debug, Clone, Copy, PartialEq, Eq, Structural)]
pub struct Settings {
    pub listen: SocketAddr,
    pub protocol: Protocol,
    pub count: u64,
    pub max_count: u64,
    pub ping_timeout: u64,
    pub max_ping_timeout: u64,
    pub resolve_timeout: u64,
    pub max_resolve_timeout: u64,
    pub resolver: Option<IpAddr>,
}

/// A settings value that could not be read.
#[derive(Debug, Clone, PartialEq, Eq)]
pub enum Error {
    MissingEnvVar { name: String },
    InvalidVariableType { name: String },
}

/// The default listen address, `[::]:9346`.
pub open spec fn spec_default_listen() -> SocketAddr {
    SocketAddr {
        addr: IpAddr::V6(
            Ipv6Addr { g0: 0, g1: 0, g2: 0, g3: 0, g4: 0, g5: 0, g6: 0, g7: 0 },
        ),
        port: 9346,
    }
}

/// The settings used when no configuration value is present.
pub open spec fn spec_default_settings() -> Settings {
    Settings {
        listen: spec_default_listen(),
        protocol: Protocol::V4,
        count: 5,
        max_count: 30,
        ping_timeout: 1000,
        max_ping_timeout: 10000,
        resolve_timeout: 1000,
        max_resolve_timeout: 10000,
        resolver: None,
    }
}

impl Settings {
    /// The settings used when no configuration value is present.
    pub fn default_settings() -> (r: Settings)
        ensures
            r == spec_default_settings(),
    {
        Settings {
            listen: SocketAddr {
                addr: IpAddr::V6(
                    Ipv6Addr { g0: 0, g1: 0, g2: 0, g3: 0, g4: 0, g5: 0, g6: 0, g7: 0 },
                ),
                port: 9346,
            },
            protocol: Protocol::V4,
            count: 5,
            max_count: 30,
            ping_timeout: 1000,
            max_ping_timeout: 10000,
            resolve_timeout: 1000,
            max_resolve_timeout: 10000,
            resolver: None,
        }
    }
}

/// The view of an optional borrowed string.
pub open spec fn view_opt(o: Option<&str>) -> Option<Seq<char>> {
    match o {
        Some(s) => Some(s@),
        None => None,
    }
}

/// A numeric setting: the default when absent, else the parsed value.
pub open spec fn setting_u64(v: Option<Seq<char>>, default: u64) -> Option<u64> {
    match v {
        None => Some(default),
        Some(s) => spec_parse_u64(s),
    }
}

/// The protocol setting: the default when absent, else the parsed value.
pub open spec fn setting_protocol(v: Option<Seq<char>>, default: Protocol) -> Option<Protocol> {
    match v {
        None => Some(default),
        Some(s) => spec_parse_protocol(s),
    }
}

/// The listen setting: the default when absent, else the parsed value.
pub open spec fn setting_listen(v: Option<Seq<char>>) -> Option<SocketAddr> {
    match v {
        None => Some(spec_default_listen()),
        Some(s) => spec_parse_sockaddr(s),
    }
}

/// The resolver setting: no resolver when absent, else the parsed address.
pub open spec fn setting_resolver(v: Option<Seq<char>>) -> Option<Option<IpAddr>> {
    match v {
        None => Some(Option::<IpAddr>::None),
        Some(s) => match spec_parse_ip(s) {
            Some(a) => Some(Some(a)),
            None => None,
        },
    }
}

/// The error for a value of the wrong shape.
fn invalid(name: &str) -> (r: Error)
    ensures
        r matches Error::InvalidVariableType { name: n } && n@ == name@,
{
    Error::InvalidVariableType { name: String::from_str(name) }
}

impl Settings {
    /// Build the settings from the raw configuration values, in the order
    /// they are declared; the first value of the wrong shape wins and is
    /// reported under its variable's name. A missing value falls back to
    /// its default.
    #[verifier::rlimit(30)]
    pub fn from_values(
        listen: Option<&str>,
        protocol: Option<&str>,
        count: Option<&str>,
        max_count: Option<&str>,
        ping_timeout: Option<&str>,
        max_ping_timeout: Option<&str>,
        resolve_timeout: Option<&str>,
        max_resolve_timeout: Option<&str>,
        resolver: Option<&str>,
    ) -> (r: Result<Settings, Error>)
        ensures
            ({
                let d = spec_default_settings();
                let lv = setting_listen(view_opt(listen));
                let pv = setting_protocol(view_opt(protocol), d.protocol);
                let cv = setting_u64(view_opt(count), d.count);
                let mcv = setting_u64(view_opt(max_count), d.max_count);
                let ptv = setting_u64(view_opt(ping_timeout), d.ping_timeout);
                let mptv = setting_u64(view_opt(max_ping_timeout), d.max_ping_timeout);
                let rtv = setting_u64(view_opt(resolve_timeout), d.resolve_timeout);
                let mrtv = setting_u64(view_opt(max_resolve_timeout), d.max_resolve_timeout);
                let rv = setting_resolver(view_opt(resolver));
                &&& (r matches Ok(st) ==> {
                    &&& lv == Some(st.listen)
                    &&& pv == Some(st.protocol)
                    &&& cv == Some(st.count)
                    &&& mcv == Some(st.max_count)
                    &&& ptv == Some(st.ping_timeout)
                    &&& mptv == Some(st.max_ping_timeout)
                    &&& rtv == Some(st.resolve_timeout)
                    &&& mrtv == Some(st.max_resolve_timeout)
                    &&& rv == Some(st.resolver)
                })
                &&& (r is Ok <==> lv is Some && pv is Some && cv is Some && mcv is Some
                    && ptv is Some && mptv is Some && rtv is Some && mrtv is Some && rv is Some)
                &&& (r matches Err(e) ==> e matches Error::InvalidVariableType { name: _ })
                &&& (lv is None ==> (r matches Err(Error::InvalidVariableType { name })
                    && name@ == "PING_EXPORTER_LISTEN"@))
                &&& (lv is Some && pv is None ==> (r matches Err(Error::InvalidVariableType {
                    name,
                }) && name@ == "PING_EXPORTER_DEFAULT_PROTOCOL"@))
                &&& (lv is Some && pv is Some && cv is None ==> (r matches Err(
                    Error::InvalidVariableType { name },
                ) && name@ == "PING_EXPORTER_DEFAULT_COUNT"@))
                &&& (lv is Some && pv is Some && cv is Some && mcv is None ==> (r matches Err(
                    Error::InvalidVariableType { name },
                ) && name@ == "PING_EXPORTER_MAX_COUNT"@))
                &&& (lv is Some && pv is Some && cv is Some && mcv is Some && ptv is None ==> (
                r matches Err(Error::InvalidVariableType { name }) && name@
                    == "PING_EXPORTER_DEFAULT_PING_TIMEOUT"@))
                &&& (lv is Some && pv is Some && cv is Some && mcv is Some && ptv is Some
                    && mptv is None ==> (r matches Err(Error::InvalidVariableType { name })
                    && name@ == "PING_EXPORTER_MAX_PING_TIMEOUT"@))
                &&& (lv is Some && pv is Some && cv is Some && mcv is Some && ptv is Some
                    && mptv is Some && rtv is None ==> (r matches Err(Error::InvalidVariableType {
                    name,
                }) && name@ == "PING_EXPORTER_DEFAULT_RESOLVE_TIMEOUT"@))
                &&& (lv is Some && pv is Some && cv is Some && mcv is Some && ptv is Some
                    && mptv is Some && rtv is Some && mrtv is None ==> (r matches Err(
                    Error::InvalidVariableType { name },
                ) && name@ == "PING_EXPORTER_MAX_RESOLVE_TIMEOUT"@))
                &&& (lv is Some && pv is Some && cv is Some && mcv is Some && ptv is Some
                    && mptv is Some && rtv is Some && mrtv is Some && rv is None ==> (
                r matches Err(Error::InvalidVariableType { name }) && name@
                    == "PING_EXPORTER_RESOLVER"@))
            }),
    {
        let d = Settings::default_settings();
        let listen_v: SocketAddr = match listen {
            None => d.listen,
            Some(s) => match parse_sockaddr(s) {
                Some(v) => v,
                None => {
                    return Err(invalid("PING_EXPORTER_LISTEN"));
                },
            },
        };
        let protocol_v: Protocol = match protocol {
            None => d.protocol,
            Some(s) => match Protocol::from_str(s) {
                Ok(v) => v,
                Err(_) => {
                    return Err(invalid("PING_EXPORTER_DEFAULT_PROTOCOL"));
                },
            },
        };
        let count_v: u64 = match count {
            None => d.count,
            Some(s) => match parse_u64(s) {
                Some(v) => v,
                None => {
                    return Err(invalid("PING_EXPORTER_DEFAULT_COUNT"));
                },
            },
        };
        let max_count_v: u64 = match max_count {
            None => d.max_count,
            Some(s) => match parse_u64(s) {
                Some(v) => v,
                None => {
                    return Err(invalid("PING_EXPORTER_MAX_COUNT"));
                },
            },
        };
        let ping_timeout_v: u64 = match ping_timeout {
            None => d.ping_timeout,
            Some(s) => match parse_u64(s) {
                Some(v) => v,
                None => {
                    return Err(invalid("PING_EXPORTER_DEFAULT_PING_TIMEOUT"));
                },
            },
        };
        let max_ping_timeout_v: u64 = match max_ping_timeout {
            None => d.max_ping_timeout,
            Some(s) => match parse_u64(s) {
                Some(v) => v,
                None => {
                    return Err(invalid("PING_EXPORTER_MAX_PING_TIMEOUT"));
                },
            },
        };
        let resolve_timeout_v: u64 = match resolve_timeout {
            None => d.resolve_timeout,
            Some(s) => match parse_u64(s) {
                Some(v) => v,
                None => {
                    return Err(invalid("PING_EXPORTER_DEFAULT_RESOLVE_TIMEOUT"));
                },
            },
        };
        let max_resolve_timeout_v: u64 = match max_resolve_timeout {
            None => d.max_resolve_timeout,
            Some(s) => match parse_u64(s) {
                Some(v) => v,
                None => {
                    return Err(invalid("PING_EXPORTER_MAX_RESOLVE_TIMEOUT"));
                },
            },
        };
        let resolver_v: Option<IpAddr> = match resolver {
            None => None,
            Some(s) => match parse_ip(s) {
                Some(a) => Some(a),
                None => {
                    return Err(invalid("PING_EXPORTER_RESOLVER"));
                },
            },
        };
        Ok(
            Settings {
                listen: listen_v,
                protocol: protocol_v,
                count: count_v,
                max_count: max_count_v,
                ping_timeout: ping_timeout_v,
                max_ping_timeout: max_ping_timeout_v,
                resolve_timeout: resolve_timeout_v,
                max_resolve_timeout: max_resolve_timeout_v,
                resolver: resolver_v,
            },
        )
    }

    /// The one-line rendering of the settings logged at startup.
    pub open spec fn spec_describe(self) -> Seq<char> {
        "listen address: "@ + spec_sockaddr_str(self.listen) + ", preferred protocol: "@
            + spec_protocol_str(self.protocol) + ", default number of ICMP packets: "@
            + spec_dec_str(self.count as nat) + ", maximum number of ICMP packets: "@
            + spec_dec_str(self.max_count as nat) + ", timeout for each ICMP packet: "@
            + spec_dec_str(self.ping_timeout as nat) + " ms, "@
            + "maximum timeout for each ICMP packet: "@ + spec_dec_str(
            self.max_ping_timeout as nat,
        ) + " ms, "@ + "resolve timeout: "@ + spec_dec_str(self.resolve_timeout as nat) + " ms, "@
            + "maximum resolve timeout: "@ + spec_dec_str(self.max_resolve_timeout as nat)
            + " ms."@
    }

    /// Render the settings for the startup log line.
    pub fn describe(&self) -> (r: String)
        ensures
            r@ == self.spec_describe(),
    {
        let mut s = String::from_str("listen address: ");
        let t1 = sockaddr_string(&self.listen);
        s.append(t1.as_str());
        s.append(", preferred protocol: ");
        s.append(self.protocol.as_str());
        s.append(", default number of ICMP packets: ");
        let t2 = dec_string(self.count);
        s.append(t2.as_str());
        s.append(", maximum number of ICMP packets: ");
        let t3 = dec_string(self.max_count);
        s.append(t3.as_str());
        s.append(", timeout for each ICMP packet: ");
        let t4 = dec_string(self.ping_timeout);
        s.append(t4.as_str());
        s.append(" ms, ");
        s.append("maximum timeout for each ICMP packet: ");
        let t5 = dec_string(self.max_ping_timeout);
        s.append(t5.as_str());
        s.append(" ms, ");
        s.append("resolve timeout: ");
        let t6 = dec_string(self.resolve_timeout);
        s.append(t6.as_str());
        s.append(" ms, ");
        s.append("maximum resolve timeout: ");
        let t7 = dec_string(self.max_resolve_timeout);
        s.append(t7.as_str());
        s.append(" ms.");
        proof {
            assert(s@ =~= self.spec_describe());
        }
        s
    }
}

} // verus!
