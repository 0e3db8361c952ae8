use ping_exporter::ip::{parse_ip, parse_ipv4, parse_ipv6, ip_to_string, IpAddr, Ipv4Addr, Ipv6Addr};
use ping_exporter::query::parse_ping_query;
use ping_exporter::settings::{parse_sockaddr, SocketAddr, Settings};
use ping_exporter::text::{parse_u64, dec_string};
use ping_exporter::utils::{NameOrIpAddr, Protocol};

fn v4(a: u8, b: u8, c: u8, d: u8) -> Ipv4Addr {
    Ipv4Addr { a, b, c, d }
}

fn v6(g: [u16; 8]) -> Ipv6Addr {
    Ipv6Addr {
        g0: g[0],
        g1: g[1],
        g2: g[2],
        g3: g[3],
        g4: g[4],
        g5: g[5],
        g6: g[6],
        g7: g[7],
    }
}

#[test]
fn test_parse_u64_accepts_digits() {
    assert_eq!(parse_u64("0"), Some(0));
    assert_eq!(parse_u64("30"), Some(30));
    assert_eq!(parse_u64("18446744073709551615"), Some(u64::MAX));
}

#[test]
fn test_parse_u64_rejects_junk() {
    assert_eq!(parse_u64(""), None);
    assert_eq!(parse_u64("12a"), None);
    assert_eq!(parse_u64("-1"), None);
    assert_eq!(parse_u64("18446744073709551616"), None);
}

#[test]
fn test_dec_string() {
    assert_eq!(dec_string(0).as_str(), "0");
    assert_eq!(dec_string(9346).as_str(), "9346");
    assert_eq!(dec_string(u64::MAX).as_str(), "18446744073709551615");
}

#[test]
fn test_parse_ipv4_literals() {
    assert_eq!(parse_ipv4("127.0.0.1"), Some(v4(127, 0, 0, 1)));
    assert_eq!(parse_ipv4("203.0.113.1"), Some(v4(203, 0, 113, 1)));
    assert_eq!(parse_ipv4("255.255.255.255"), Some(v4(255, 255, 255, 255)));
}

#[test]
fn test_parse_ipv4_rejects() {
    assert_eq!(parse_ipv4("256.0.0.1"), None);
    assert_eq!(parse_ipv4("01.2.3.4"), None);
    assert_eq!(parse_ipv4("1.2.3"), None);
    assert_eq!(parse_ipv4("1.2.3.4.5"), None);
    assert_eq!(parse_ipv4("1.2.3.4 "), None);
    assert_eq!(parse_ipv4(""), None);
}

#[test]
fn test_parse_ipv6_literals() {
    assert_eq!(parse_ipv6("::1"), Some(v6([0, 0, 0, 0, 0, 0, 0, 1])));
    assert_eq!(parse_ipv6("::"), Some(v6([0; 8])));
    assert_eq!(
        parse_ipv6("1:2:3:4:5:6:7:8"),
        Some(v6([1, 2, 3, 4, 5, 6, 7, 8]))
    );
    assert_eq!(
        parse_ipv6("2001:db8::1"),
        Some(v6([0x2001, 0xdb8, 0, 0, 0, 0, 0, 1]))
    );
    assert_eq!(parse_ipv6("fe80::"), Some(v6([0xfe80, 0, 0, 0, 0, 0, 0, 0])));
    assert_eq!(
        parse_ipv6("1:2:3:4:5:6:7::"),
        Some(v6([1, 2, 3, 4, 5, 6, 7, 0]))
    );
}

#[test]
fn test_parse_ipv6_rejects() {
    assert_eq!(parse_ipv6("1:2:3"), None);
    assert_eq!(parse_ipv6("1:2:3:4:5:6:7:8:9"), None);
    assert_eq!(parse_ipv6("1:2:3:4:5:6:7:8::"), None);
    assert_eq!(parse_ipv6("1:::2"), None);
    assert_eq!(parse_ipv6("12345::"), None);
    assert_eq!(parse_ipv6(""), None);
}

#[test]
fn test_parse_ip_tries_v4_first() {
    assert_eq!(parse_ip("127.0.0.1"), Some(IpAddr::V4(v4(127, 0, 0, 1))));
    assert_eq!(parse_ip("::1"), Some(IpAddr::V6(v6([0, 0, 0, 0, 0, 0, 0, 1]))));
    assert_eq!(parse_ip("localhost"), None);
}

#[test]
fn test_ip_to_string_v4() {
    assert_eq!(ip_to_string(&IpAddr::V4(v4(127, 0, 0, 1))).as_str(), "127.0.0.1");
}

#[test]
fn test_ip_to_string_v6_compression() {
    assert_eq!(ip_to_string(&IpAddr::V6(v6([0, 0, 0, 0, 0, 0, 0, 1]))).as_str(), "::1");
    assert_eq!(ip_to_string(&IpAddr::V6(v6([0; 8]))).as_str(), "::");
    assert_eq!(
        ip_to_string(&IpAddr::V6(v6([0x2001, 0xdb8, 0, 0, 0, 0, 0, 1]))).as_str(),
        "2001:db8::1"
    );
    assert_eq!(
        ip_to_string(&IpAddr::V6(v6([1, 0, 2, 3, 4, 5, 6, 7]))).as_str(),
        "1:0:2:3:4:5:6:7"
    );
    assert_eq!(
        ip_to_string(&IpAddr::V6(v6([1, 0, 0, 2, 0, 0, 0, 3]))).as_str(),
        "1:0:0:2::3"
    );
}

#[test]
fn test_parse_sockaddr() {
    assert_eq!(
        parse_sockaddr("[::]:9346"),
        Some(SocketAddr { addr: IpAddr::V6(v6([0; 8])), port: 9346 })
    );
    assert_eq!(
        parse_sockaddr("127.0.0.1:80"),
        Some(SocketAddr { addr: IpAddr::V4(v4(127, 0, 0, 1)), port: 80 })
    );
    assert_eq!(parse_sockaddr("127.0.0.1"), None);
    assert_eq!(parse_sockaddr("[::]:70000"), None);
    assert_eq!(parse_sockaddr("[::]9346"), None);
    assert_eq!(parse_sockaddr("::1:80"), None);
}

#[test]
fn test_protocol_from_str() {
    assert!(matches!(Protocol::from_str("v4"), Ok(Protocol::V4)));
    assert!(matches!(Protocol::from_str("v6"), Ok(Protocol::V6)));
    let err = Protocol::from_str("ipv4").unwrap_err();
    assert_eq!(err.as_str(), "'ipv4' is not valid protocol, use v4 or v6");
}

#[test]
fn test_target_from_str() {
    match NameOrIpAddr::from_str("203.0.113.1") {
        Some(NameOrIpAddr::IpAddr(a)) => assert_eq!(a, IpAddr::V4(v4(203, 0, 113, 1))),
        other => panic!("unexpected parse: {:?}", other),
    }
    match NameOrIpAddr::from_str("example.com") {
        Some(NameOrIpAddr::Name(n)) => assert_eq!(n.as_str(), "example.com"),
        other => panic!("unexpected parse: {:?}", other),
    }
    assert!(NameOrIpAddr::from_str("not a hostname").is_none());
}

#[test]
fn test_parse_ping_query_full() {
    let req = parse_ping_query("target=127.0.0.1&count=3&ping_timeout=100&resolve_timeout=1000")
        .unwrap();
    assert!(matches!(req.target, NameOrIpAddr::IpAddr(IpAddr::V4(_))));
    assert_eq!(req.count, Some(3));
    assert_eq!(req.ping_timeout, Some(100));
    assert_eq!(req.resolve_timeout, Some(1000));
    assert!(req.protocol.is_none());
}

#[test]
fn test_parse_ping_query_percent_decoding() {
    let req = parse_ping_query("target=%31%32%37.0.0.1&protocol=v6").unwrap();
    match req.target {
        NameOrIpAddr::IpAddr(a) => assert_eq!(a, IpAddr::V4(v4(127, 0, 0, 1))),
        other => panic!("unexpected parse: {:?}", other),
    }
    assert!(matches!(req.protocol, Some(Protocol::V6)));
}

#[test]
fn test_parse_ping_query_ignores_unknown() {
    let req = parse_ping_query("target=example.com&other=1&protocol=v4").unwrap();
    assert!(matches!(req.target, NameOrIpAddr::Name(_)));
    assert!(matches!(req.protocol, Some(Protocol::V4)));
}

#[test]
fn test_parse_ping_query_errors() {
    assert_eq!(parse_ping_query("").unwrap_err().as_str(), "missing field `target`");
    assert_eq!(
        parse_ping_query("count=3").unwrap_err().as_str(),
        "missing field `target`"
    );
    assert_eq!(
        parse_ping_query("target=a&target=b").unwrap_err().as_str(),
        "duplicate parameter"
    );
    assert_eq!(
        parse_ping_query("target=example.com&count=abc").unwrap_err().as_str(),
        "invalid number"
    );
    assert_eq!(
        parse_ping_query("target=example.com&protocol=ipv6").unwrap_err().as_str(),
        "'ipv6' is not valid protocol, use v4 or v6"
    );
    assert_eq!(
        parse_ping_query("target=%zz").unwrap_err().as_str(),
        "invalid percent-encoding"
    );
}

#[test]
fn test_settings_describe() {
    let s = Settings::default_settings();
    assert_eq!(
        s.describe().as_str(),
        "listen address: [::]:9346, preferred protocol: v4, \
         default number of ICMP packets: 5, maximum number of ICMP packets: 30, \
         timeout for each ICMP packet: 1000 ms, \
         maximum timeout for each ICMP packet: 10000 ms, \
         resolve timeout: 1000 ms, maximum resolve timeout: 10000 ms."
    );
}
