use ping_exporter::http;
use ping_exporter::http::{classify_request, RequestType, not_found_response, validate, effective_protocol, ping_plan, ping_response_body, bad_request_body, format_metrics, SessionPlan};
use ping_exporter::ip::{IpAddr, Ipv4Addr, Ipv6Addr};
use ping_exporter::metrics;
use ping_exporter::metrics::{MetricScope, set_metrics};
use ping_exporter::pinger::{Report, resolve_failure_report, success_report};
use ping_exporter::query::parse_ping_query;
use ping_exporter::resolver;
use ping_exporter::resolver::{resolve_literal, select_addr};
use ping_exporter::settings::Settings;
use ping_exporter::utils::{NameOrIpAddr, Protocol};

fn loopback4() -> IpAddr {
    IpAddr::V4(Ipv4Addr { a: 127, b: 0, c: 0, d: 1 })
}

fn loopback6() -> IpAddr {
    IpAddr::V6(Ipv6Addr { g0: 0, g1: 0, g2: 0, g3: 0, g4: 0, g5: 0, g6: 0, g7: 1 })
}

#[test]
fn metrics_test_lazy_static() {
    let (_scope, _reporter) = metrics::init();
}

#[test]
fn http_test_lazy_static() {
    let (scope, _reporter) = metrics::init();
    let _counter = http::init(&scope);
}

#[test]
fn test_valid_default_settings() {
    assert!(
        Settings::from_values(None, None, None, None, None, None, None, None, None).is_ok()
    );
}

#[test]
fn test_settings_from_values() {
    let s = Settings::from_values(
        Some("[::]:9999"),
        Some("v6"),
        Some("7"),
        None,
        None,
        None,
        None,
        None,
        Some("9.9.9.9"),
    )
    .unwrap();
    assert_eq!(s.listen.port, 9999);
    assert!(matches!(s.protocol, Protocol::V6));
    assert_eq!(s.count, 7);
    assert_eq!(s.max_count, 30);
    assert_eq!(s.resolver, Some(IpAddr::V4(Ipv4Addr { a: 9, b: 9, c: 9, d: 9 })));
}

#[test]
fn test_settings_from_values_invalid() {
    let err = Settings::from_values(None, None, Some("abc"), None, None, None, None, None, None)
        .unwrap_err();
    match err {
        ping_exporter::settings::Error::InvalidVariableType { name } => {
            assert_eq!(name.as_str(), "PING_EXPORTER_DEFAULT_COUNT");
        }
        other => panic!("unexpected error: {:?}", other),
    }
}

#[test]
fn test_classify_request() {
    assert!(matches!(classify_request("GET", "/ping"), RequestType::Ping));
    assert!(matches!(classify_request("GET", "/ping/"), RequestType::Ping));
    assert!(matches!(classify_request("GET", "/metrics"), RequestType::Metrics));
    assert!(matches!(classify_request("GET", "/metrics/"), RequestType::Metrics));
    assert!(matches!(classify_request("POST", "/ping"), RequestType::Unknown));
    assert!(matches!(classify_request("GET", "/"), RequestType::Unknown));
    assert!(matches!(classify_request("PUT", "/nowhere"), RequestType::Unknown));
}

#[test]
fn test_not_found_response() {
    let (status, body) = not_found_response();
    assert_eq!(status, 404);
    assert_eq!(body.as_str(), "Not Found");
}

#[test]
fn test_validation_messages_and_order() {
    let s = Settings::default_settings();
    assert_eq!(validate(99999, 100, 1000, &s), Some("Too many pings"));
    assert_eq!(validate(0, 100, 1000, &s), Some("Too few pings"));
    assert_eq!(validate(5, 99999, 1000, &s), Some("Too large ping timeout"));
    assert_eq!(validate(5, 1, 1000, &s), Some("Too small ping timeout"));
    assert_eq!(validate(5, 100, 99999, &s), Some("Too large resolve timeout"));
    assert_eq!(validate(5, 100, 1, &s), Some("Too small resolve timeout"));
    assert_eq!(validate(5, 100, 1000, &s), None);
    // both the count and the ping timeout are out of bounds: the count wins
    assert_eq!(validate(99999, 99999, 1000, &s), Some("Too many pings"));
}

#[test]
fn test_effective_protocol_coercion() {
    let s = Settings::default_settings();
    let v4_target = NameOrIpAddr::from_str("203.0.113.1").unwrap();
    let v6_target = NameOrIpAddr::from_str("::1").unwrap();
    let name_target = NameOrIpAddr::from_str("example.com").unwrap();
    assert!(matches!(
        effective_protocol(&v4_target, Some(Protocol::V6), s.protocol),
        Protocol::V4
    ));
    assert!(matches!(
        effective_protocol(&v6_target, Some(Protocol::V4), s.protocol),
        Protocol::V6
    ));
    assert!(matches!(
        effective_protocol(&name_target, Some(Protocol::V6), s.protocol),
        Protocol::V6
    ));
    assert!(matches!(effective_protocol(&name_target, None, s.protocol), Protocol::V4));
}

#[test]
fn test_ping_plan_defaults_and_validation() {
    let s = Settings::default_settings();
    let req = parse_ping_query("target=example.com").unwrap();
    let plan = ping_plan(&req, &s).unwrap();
    assert_eq!(plan.count, 5);
    assert_eq!(plan.ping_timeout, 1000);
    assert_eq!(plan.resolve_timeout, 1000);
    assert!(matches!(plan.protocol, Protocol::V4));

    let req = parse_ping_query("target=example.com&count=99999").unwrap();
    let (status, body) = ping_plan(&req, &s).unwrap_err();
    assert_eq!(status, 400);
    assert_eq!(body.as_str(), "Too many pings");

    let req = parse_ping_query("target=example.com&ping_timeout=1").unwrap();
    let (status, body) = ping_plan(&req, &s).unwrap_err();
    assert_eq!(status, 400);
    assert_eq!(body.as_str(), "Too small ping timeout");
}

#[test]
fn test_bad_request_body() {
    assert_eq!(bad_request_body("missing field `target`").as_str(),
        "Bad Request: missing field `target`");
}

#[test]
fn test_resolve_literal() {
    let target = NameOrIpAddr::from_str("127.0.0.1").unwrap();
    assert_eq!(resolve_literal(&target), Some((0, loopback4())));
    let name = NameOrIpAddr::from_str("example.com").unwrap();
    assert_eq!(resolve_literal(&name), None);
}

#[test]
fn test_select_addr() {
    assert_eq!(select_addr(&vec![]), Err(resolver::Error::NotFound));
    assert_eq!(select_addr(&vec![loopback4()]), Ok(loopback4()));
    let pool = vec![loopback4(), loopback6()];
    let chosen = select_addr(&pool).unwrap();
    assert!(pool.contains(&chosen));
}

#[test]
fn test_resolve_failure_report() {
    assert!(matches!(
        resolve_failure_report(Some(resolver::Error::NotFound)),
        Report::ResolveNotFound
    ));
    assert!(matches!(
        resolve_failure_report(Some(resolver::Error::Error)),
        Report::ResolveOtherError
    ));
    assert!(matches!(resolve_failure_report(None), Report::ResolveTimedOut));
}

#[test]
fn test_success_report_keeps_pings() {
    let report = success_report(12345, loopback4(), vec![Some(5), None, Some(7)]);
    match report {
        Report::Success { resolve_time_ns, addr, pings } => {
            assert_eq!(resolve_time_ns, 12345);
            assert_eq!(addr, loopback4());
            assert_eq!(pings, vec![Some(5), None, Some(7)]);
        }
        other => panic!("unexpected report: {:?}", other),
    }
}

fn gauge_value(scope: &MetricScope, name: &str) -> Option<u64> {
    scope.gauges.iter().find(|(k, _)| *k == name).map(|(_, v)| *v)
}

#[test]
fn test_set_metrics_success() {
    let report = Report::Success {
        resolve_time_ns: 7_000_000,
        addr: loopback4(),
        pings: vec![Some(5), None, Some(7)],
    };
    let scope = set_metrics(MetricScope::new(), report);
    assert_eq!(scope.labels.len(), 1);
    assert_eq!(scope.labels[0].0, "ip");
    assert_eq!(scope.labels[0].1.as_str(), "127.0.0.1");
    assert_eq!(gauge_value(&scope, "ping_resolve_time"), Some(7));
    assert_eq!(gauge_value(&scope, "ping_packets_total"), Some(3));
    assert_eq!(gauge_value(&scope, "ping_packets_success"), Some(2));
    assert_eq!(gauge_value(&scope, "ping_packets_failed"), Some(1));
    assert_eq!(gauge_value(&scope, "ping_packets_loss"), Some(33));
    assert_eq!(gauge_value(&scope, "ping_resolve_error"), Some(0));
    assert_eq!(scope.times, vec![5, 7]);
}

#[test]
fn test_set_metrics_success_partition() {
    let report = Report::Success {
        resolve_time_ns: 0,
        addr: loopback4(),
        pings: vec![None, None, Some(1), None, Some(2)],
    };
    let scope = set_metrics(MetricScope::new(), report);
    let total = gauge_value(&scope, "ping_packets_total").unwrap();
    let ok = gauge_value(&scope, "ping_packets_success").unwrap();
    let failed = gauge_value(&scope, "ping_packets_failed").unwrap();
    assert_eq!(ok + failed, total);
    assert_eq!(gauge_value(&scope, "ping_packets_loss"), Some(60));
}

#[test]
fn test_set_metrics_empty_pings_has_no_loss() {
    let report = Report::Success { resolve_time_ns: 0, addr: loopback4(), pings: vec![] };
    let scope = set_metrics(MetricScope::new(), report);
    assert_eq!(gauge_value(&scope, "ping_packets_total"), Some(0));
    assert_eq!(gauge_value(&scope, "ping_packets_loss"), None);
    assert_eq!(gauge_value(&scope, "ping_resolve_error"), Some(0));
}

#[test]
fn test_set_metrics_resolve_failures() {
    for (report, text) in [
        (Report::ResolveNotFound, "not found"),
        (Report::ResolveTimedOut, "timed out"),
        (Report::ResolveOtherError, "internal error"),
    ] {
        let scope = set_metrics(MetricScope::new(), report);
        assert_eq!(scope.labels.len(), 1);
        assert_eq!(scope.labels[0].0, "error");
        assert_eq!(scope.labels[0].1.as_str(), text);
        assert_eq!(gauge_value(&scope, "ping_resolve_error"), Some(1));
        assert_eq!(gauge_value(&scope, "ping_packets_total"), None);
        assert!(scope.times.is_empty());
    }
}

fn metric_line<'a>(body: &'a str, name: &str) -> &'a str {
    body.lines()
        .find(|l| l.starts_with(name))
        .unwrap_or_else(|| panic!("no metric {} in {}", name, body))
}

#[test]
fn test_ping_response_body_success() {
    let target = NameOrIpAddr::from_str("127.0.0.1").unwrap();
    let plan = SessionPlan { protocol: Protocol::V4, count: 3, ping_timeout: 100, resolve_timeout: 1000 };
    let report = Report::Success {
        resolve_time_ns: 0,
        addr: loopback4(),
        pings: vec![Some(5), Some(6), Some(7)],
    };
    let body = ping_response_body(&target, &plan, report).unwrap();
    let total = metric_line(&body, "ping_packets_total");
    assert!(total.ends_with(" 3"), "unexpected line: {}", total);
    assert!(total.contains("protocol=\"v4\""), "unexpected line: {}", total);
    assert!(total.contains("ip=\"127.0.0.1\""), "unexpected line: {}", total);
    assert!(total.contains("target=\"127.0.0.1\""), "unexpected line: {}", total);
    let success = metric_line(&body, "ping_packets_success");
    assert!(success.ends_with(" 3"), "unexpected line: {}", success);
    let resolve_error = metric_line(&body, "ping_resolve_error");
    assert!(resolve_error.ends_with(" 0"), "unexpected line: {}", resolve_error);
    let resolve_time = metric_line(&body, "ping_resolve_time");
    assert!(resolve_time.ends_with(" 0"), "unexpected line: {}", resolve_time);
    assert!(body.contains("ping_times_count"), "no histogram in {}", body);
}

#[test]
fn test_ping_response_body_not_found() {
    let target = NameOrIpAddr::from_str("nonexistent.invalid.").unwrap();
    let plan = SessionPlan { protocol: Protocol::V4, count: 5, ping_timeout: 1000, resolve_timeout: 10 };
    let body = ping_response_body(&target, &plan, Report::ResolveNotFound).unwrap();
    let resolve_error = metric_line(&body, "ping_resolve_error");
    assert!(resolve_error.ends_with(" 1"), "unexpected line: {}", resolve_error);
    assert!(resolve_error.contains("error=\"not found\""), "unexpected line: {}", resolve_error);
    assert!(!body.contains("ping_packets_total"), "unexpected body: {}", body);
}

#[test]
fn test_ping_response_body_v6_label() {
    let target = NameOrIpAddr::from_str("::1").unwrap();
    let s = Settings::default_settings();
    let req = parse_ping_query("target=::1&protocol=v4&count=1&ping_timeout=100&resolve_timeout=1000").unwrap();
    let plan = ping_plan(&req, &s).unwrap();
    assert!(matches!(plan.protocol, Protocol::V6));
    let report = Report::Success { resolve_time_ns: 0, addr: loopback6(), pings: vec![Some(1)] };
    let body = ping_response_body(&target, &plan, report).unwrap();
    let total = metric_line(&body, "ping_packets_total");
    assert!(total.contains("protocol=\"v6\""), "unexpected line: {}", total);
    assert!(total.contains("ip=\"::1\""), "unexpected line: {}", total);
}

#[test]
fn test_metrics_registry_roundtrip() {
    let (scope, reporter) = metrics::init();
    let counter = http::init(&scope);
    counter.incr(1);
    counter.incr(1);
    let body = format_metrics(&reporter).unwrap();
    let line = metric_line(&body, "http_ping");
    assert!(line.ends_with(" 2"), "unexpected line: {}", line);
}
