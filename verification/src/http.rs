//! The HTTP surface's decisions: routing, request validation in its fixed
//! order, protocol coercion, and the assembly of the ping response body.
//! The socket work around them stays outside the library.

use vstd::prelude::*;
pub use crate::metrics::set_metrics;
use crate::ip::IpAddr;
use crate::metrics::{MetricScope, realize_scope, tacho_new, reporter_text, scope_counter, success_scope, failure_scope};
use crate::pinger::Report;
use crate::settings::Settings;
use crate::text::{str_eq, dec_string, spec_dec_str};
use crate::utils::{NameOrIpAddr, Protocol, spec_protocol_str};

verus! {

/// Which route a request hits.
#[derive(Debug, Clone, Copy, PartialEq, Eq, Structural)]
pub enum RequestType {
    Ping,
    Metrics,
    Unknown,
}

/// Which route a method and path hit: only GET on the ping and metrics
/// paths (with or without a trailing slash) is known.
pub open spec fn spec_route(method: Seq<char>, path: Seq<char>) -> RequestType {
    if method == "GET"@ && (path == "/ping"@ || path == "/ping/"@) {
        RequestType::Ping
    } else if method == "GET"@ && (path == "/metrics"@ || path == "/metrics/"@) {
        RequestType::Metrics
    } else {
        RequestType::Unknown
    }
}

/// Classify a request by method and path.
pub fn classify_request(method: &str, path: &str) -> (r: RequestType)
    ensures
        r == spec_route(method@, path@),
{
    if str_eq(method, "GET") && (str_eq(path, "/ping") || str_eq(path, "/ping/")) {
        RequestType::Ping
    } else if str_eq(method, "GET") && (str_eq(path, "/metrics") || str_eq(path, "/metrics/")) {
        RequestType::Metrics
    } else {
        RequestType::Unknown
    }
}

/// A path that is not one of the service's routes is unknown whatever the
/// method, so every method gets the same not-found answer there.
pub proof fn lemma_unknown_route_ignores_method(m1: Seq<char>, m2: Seq<char>, path: Seq<char>)
    requires
        path != "/ping"@,
        path != "/ping/"@,
        path != "/metrics"@,
        path != "/metrics/"@,
    ensures
        spec_route(m1, path) == RequestType::Unknown,
        spec_route(m1, path) == spec_route(m2, path),
{
}

/// The answer for an unknown route.
pub fn not_found_response() -> (r: (u16, String))
    ensures
        r.0 == 404,
        r.1@ == "Not Found"@,
{
    (404, String::from_str("Not Found"))
}

/// The first bound that a request breaks, in the fixed order of the
/// rules; `None` when it breaks none. The upper bound of the resolve
/// timeout is the configured default, not the configured maximum.
pub open spec fn spec_validation_error(
    count: u64,
    ping_timeout: u64,
    resolve_timeout: u64,
    s: Settings,
) -> Option<Seq<char>> {
    if count > s.max_count {
        Some("Too many pings"@)
    } else if count < 1 {
        Some("Too few pings"@)
    } else if ping_timeout > s.max_ping_timeout {
        Some("Too large ping timeout"@)
    } else if ping_timeout < 5 {
        Some("Too small ping timeout"@)
    } else if resolve_timeout > s.resolve_timeout {
        Some("Too large resolve timeout"@)
    } else if resolve_timeout < 5 {
        Some("Too small resolve timeout"@)
    } else {
        None
    }
}

/// Check the bounds of a request, first break wins.
pub fn validate(count: u64, ping_timeout: u64, resolve_timeout: u64, settings: &Settings) -> (r:
    Option<&'static str>)
    ensures
        match spec_validation_error(count, ping_timeout, resolve_timeout, *settings) {
            Some(m) => r matches Some(t) && t@ == m,
            None => r is None,
        },
{
    if count > settings.max_count {
        Some("Too many pings")
    } else if count < 1 {
        Some("Too few pings")
    } else if ping_timeout > settings.max_ping_timeout {
        Some("Too large ping timeout")
    } else if ping_timeout < 5 {
        Some("Too small ping timeout")
    } else if resolve_timeout > settings.resolve_timeout {
        Some("Too large resolve timeout")
    } else if resolve_timeout < 5 {
        Some("Too small resolve timeout")
    } else {
        None
    }
}

/// The order of the bounds is stable: a request that both asks for too
/// many pings and names too large a ping timeout is refused for the
/// count.
pub proof fn lemma_validation_order(count: u64, ping_timeout: u64, resolve_timeout: u64, s: Settings)
    requires
        count > s.max_count,
        ping_timeout > s.max_ping_timeout,
    ensures
        spec_validation_error(count, ping_timeout, resolve_timeout, s) == Some("Too many pings"@),
{
}

/// The protocol a session runs over: a literal target's own family; for a
/// name, the requested protocol, or the configured one where none was
/// requested.
pub open spec fn spec_effective_protocol(
    target: (Option<IpAddr>, Seq<char>),
    requested: Option<Protocol>,
    default: Protocol,
) -> Protocol {
    match target.0 {
        Some(IpAddr::V4(_)) => Protocol::V4,
        Some(IpAddr::V6(_)) => Protocol::V6,
        None => match requested {
            Some(p) => p,
            None => default,
        },
    }
}

/// Choose the protocol of a session.
pub fn effective_protocol(target: &NameOrIpAddr, requested: Option<Protocol>, default: Protocol) -> (r: Protocol)
    ensures
        r == spec_effective_protocol(target@, requested, default),
{
    match target {
        NameOrIpAddr::IpAddr(IpAddr::V4(_)) => Protocol::V4,
        NameOrIpAddr::IpAddr(IpAddr::V6(_)) => Protocol::V6,
        NameOrIpAddr::Name(_) => match requested {
            Some(p) => p,
            None => default,
        },
    }
}

/// A literal target's family silently overrides whatever protocol was
/// asked for: the choice does not depend on the request or the default.
pub proof fn lemma_literal_overrides_protocol(
    target: (Option<IpAddr>, Seq<char>),
    p1: Option<Protocol>,
    p2: Option<Protocol>,
    d1: Protocol,
    d2: Protocol,
)
    requires
        target.0 is Some,
    ensures
        spec_effective_protocol(target, p1, d1) == spec_effective_protocol(target, p2, d2),
        target.0 matches Some(IpAddr::V4(_)) ==> spec_effective_protocol(target, p1, d1)
            == Protocol::V4,
        target.0 matches Some(IpAddr::V6(_)) ==> spec_effective_protocol(target, p1, d1)
            == Protocol::V6,
{
}

/// Everything a probe session needs beyond its target.
#[derive(Debug, Clone, Copy, PartialEq, Eq, Structural)]
pub struct SessionPlan {
    pub protocol: Protocol,
    pub count: u64,
    pub ping_timeout: u64,
    pub resolve_timeout: u64,
}

/// A request knob, or its configured default.
pub open spec fn spec_or_default(v: Option<u64>, d: u64) -> u64 {
    match v {
        Some(x) => x,
        None => d,
    }
}

/// What planning a session from a parsed request yields: the defaults
/// applied, the bounds checked, the protocol coerced; the first broken
/// bound's message otherwise.
pub open spec fn spec_ping_plan(
    req: ((Option<IpAddr>, Seq<char>), Option<Protocol>, Option<u64>, Option<u64>, Option<u64>),
    s: Settings,
) -> Result<SessionPlan, Seq<char>> {
    let count = spec_or_default(req.2, s.count);
    let ping_timeout = spec_or_default(req.3, s.ping_timeout);
    let resolve_timeout = spec_or_default(req.4, s.resolve_timeout);
    match spec_validation_error(count, ping_timeout, resolve_timeout, s) {
        Some(m) => Err(m),
        None => Ok(
            SessionPlan {
                protocol: spec_effective_protocol(req.0, req.1, s.protocol),
                count,
                ping_timeout,
                resolve_timeout,
            },
        ),
    }
}

/// Plan a session from a parsed request: a broken bound is refused with
/// its message.
pub fn ping_plan(request: &crate::query::PingRequest, settings: &Settings) -> (r: Result<
    SessionPlan,
    (u16, String),
>)
    ensures
        match spec_ping_plan(request@, *settings) {
            Ok(p) => r matches Ok(rp) && rp == p,
            Err(m) => r matches Err(e) && e.0 == 400 && e.1@ == m,
        },
{
    let count = match request.count {
        Some(c) => c,
        None => settings.count,
    };
    let ping_timeout = match request.ping_timeout {
        Some(t) => t,
        None => settings.ping_timeout,
    };
    let resolve_timeout = match request.resolve_timeout {
        Some(t) => t,
        None => settings.resolve_timeout,
    };
    match validate(count, ping_timeout, resolve_timeout, settings) {
        Some(msg) => Err((400, String::from_str(msg))),
        None => {
            let protocol = effective_protocol(&request.target, request.protocol, settings.protocol);
            Ok(SessionPlan { protocol, count, ping_timeout, resolve_timeout })
        },
    }
}

/// A session planned from a valid request accumulates one outcome per
/// planned probe, and the planned number is the request's count, or the
/// configured default where the request named none: a successful report
/// built from those outcomes carries exactly that many entries.
pub proof fn lemma_valid_request_pings_count(
    req: ((Option<IpAddr>, Seq<char>), Option<Protocol>, Option<u64>, Option<u64>, Option<u64>),
    s: Settings,
    plan: SessionPlan,
    r: Report,
)
    requires
        spec_ping_plan(req, s) == Ok::<SessionPlan, Seq<char>>(plan),
        r matches Report::Success { resolve_time_ns: _, addr: _, pings: p } && p@.len()
            == plan.count,
    ensures
        r matches Report::Success { resolve_time_ns: _, addr: _, pings: p } && p@.len() == (
        match req.2 {
            Some(c) => c,
            None => s.count,
        }),
{
}

/// The five labels every per-request scope starts with.
pub open spec fn spec_base_scope(
    b: MetricScope,
    target_text: Seq<char>,
    protocol: Protocol,
    count: u64,
    ping_timeout: u64,
    resolve_timeout: u64,
) -> bool {
    &&& b.labels@.len() == 5
    &&& b.labels@[0].0@ == "target"@ && b.labels@[0].1@ == target_text
    &&& b.labels@[1].0@ == "protocol"@ && b.labels@[1].1@ == spec_protocol_str(protocol)
    &&& b.labels@[2].0@ == "count"@ && b.labels@[2].1@ == spec_dec_str(count as nat)
    &&& b.labels@[3].0@ == "ping_timeout"@ && b.labels@[3].1@ == spec_dec_str(
        ping_timeout as nat,
    )
    &&& b.labels@[4].0@ == "resolve_timeout"@ && b.labels@[4].1@ == spec_dec_str(
        resolve_timeout as nat,
    )
    &&& b.gauges@.len() == 0
    &&& b.times@.len() == 0
}

/// The per-request scope of one report: the request's labels, then the
/// report's gauges and histogram.
pub fn ping_scope(
    target: &NameOrIpAddr,
    plan: &SessionPlan,
    report: Report,
) -> (r: MetricScope)
    ensures
        exists|b: MetricScope|
            spec_base_scope(
                b,
                target@.1,
                plan.protocol,
                plan.count,
                plan.ping_timeout,
                plan.resolve_timeout,
            ) && match report {
                Report::ResolveTimedOut => failure_scope(b, r, "timed out"@),
                Report::ResolveNotFound => failure_scope(b, r, "not found"@),
                Report::ResolveOtherError => failure_scope(b, r, "internal error"@),
                Report::Success { resolve_time_ns, addr, pings } => success_scope(
                    b,
                    r,
                    resolve_time_ns,
                    addr,
                    pings@,
                ),
            },
{
    let base = MetricScope::new().labeled("target", target.to_display_string()).labeled(
        "protocol",
        String::from_str(plan.protocol.as_str()),
    ).labeled("count", dec_string(plan.count)).labeled(
        "ping_timeout",
        dec_string(plan.ping_timeout),
    ).labeled("resolve_timeout", dec_string(plan.resolve_timeout));
    proof {
        assert(spec_base_scope(
            base,
            target@.1,
            plan.protocol,
            plan.count,
            plan.ping_timeout,
            plan.resolve_timeout,
        ));
    }
    let ghost b = base;
    let r = set_metrics(base, report);
    proof {
        assert(spec_base_scope(
            b,
            target@.1,
            plan.protocol,
            plan.count,
            plan.ping_timeout,
            plan.resolve_timeout,
        ));
    }
    r
}

/// The ping response body: the per-request scope poured into a fresh
/// registry and rendered; a rendering fault is the internal error.
pub fn ping_response_body(target: &NameOrIpAddr, plan: &SessionPlan, report: Report) -> (r: Result<
    String,
    (u16, String),
>)
    ensures
        r matches Err(e) ==> e.0 == 500 && e.1@ == "Internal Error"@,
{
    let scope = ping_scope(target, plan, report);
    let (tscope, treporter) = tacho_new();
    let _realized = realize_scope(&scope, tscope);
    format_metrics(&treporter)
}

/// The body for a bad request: its reason behind the fixed prefix.
pub fn bad_request_body(reason: &str) -> (r: String)
    ensures
        r@ == "Bad Request: "@ + reason@,
{
    let mut s = String::from_str("Bad Request: ");
    s.append(reason);
    s
}

/// Render the registry behind a reporter; a rendering fault is the
/// internal error.
pub fn format_metrics(reporter: &tacho::Reporter) -> (r: Result<String, (u16, String)>)
    ensures
        r matches Err(e) ==> e.0 == 500 && e.1@ == "Internal Error"@,
{
    match reporter_text(reporter) {
        Ok(s) => Ok(s),
        Err(_) => Err((500, String::from_str("Internal Error"))),
    }
}

/// Register the service-level counter of accepted ping requests on the
/// process-wide scope.
pub fn init(metrics: &tacho::Scope) -> tacho::Counter {
    scope_counter(metrics, "http_ping")
}

} // verus!
