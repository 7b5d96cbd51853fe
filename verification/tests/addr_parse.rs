use unkprox::addr::Ipv4Endpoint;
use unkprox::addr::parse_endpoint;
use unkprox::errors::ProxyError;

fn ok(s: &str) -> Ipv4Endpoint {
    parse_endpoint(s.as_bytes()).expect("address should parse")
}

fn rejected(s: &str) -> bool {
    parse_endpoint(s.as_bytes()) == Err(ProxyError::AddressParse)
}

#[test]
fn parses_loopback_endpoint() {
    let e = ok("127.0.0.1:9009");
    assert_eq!((e.a, e.b, e.c, e.d, e.port), (127, 0, 0, 1, 9009));
}

#[test]
fn parses_all_zeros() {
    let e = ok("0.0.0.0:0");
    assert_eq!((e.a, e.b, e.c, e.d, e.port), (0, 0, 0, 0, 0));
}

#[test]
fn parses_largest_endpoint() {
    let e = ok("255.255.255.255:65535");
    assert_eq!((e.a, e.b, e.c, e.d, e.port), (255, 255, 255, 255, 65535));
}

#[test]
fn parses_port_with_leading_zeros() {
    let e = ok("10.20.30.40:08");
    assert_eq!((e.a, e.b, e.c, e.d, e.port), (10, 20, 30, 40, 8));
}

#[test]
fn rejects_empty_string() {
    assert!(rejected(""));
}

#[test]
fn rejects_missing_port() {
    assert!(rejected("1.2.3.4"));
    assert!(rejected("1.2.3.4:"));
}

#[test]
fn rejects_missing_host() {
    assert!(rejected(":80"));
    assert!(rejected("80"));
}

#[test]
fn rejects_octet_out_of_range() {
    assert!(rejected("256.0.0.1:80"));
    assert!(rejected("1.2.3.999:80"));
}

#[test]
fn rejects_octet_with_leading_zero() {
    assert!(rejected("01.2.3.4:80"));
    assert!(rejected("1.2.00.4:80"));
}

#[test]
fn rejects_wrong_octet_count() {
    assert!(rejected("1.2.3:80"));
    assert!(rejected("1.2.3.4.5:80"));
}

#[test]
fn rejects_port_out_of_range() {
    assert!(rejected("1.2.3.4:65536"));
    assert!(rejected("1.2.3.4:123456"));
}

#[test]
fn rejects_non_digits() {
    assert!(rejected("a.b.c.d:80"));
    assert!(rejected("1.2.3.4:80x"));
    assert!(rejected("1.2 .3.4:80"));
}

#[test]
fn rejects_empty_octet() {
    assert!(rejected(".2.3.4:80"));
    assert!(rejected("1..3.4:80"));
}

#[test]
fn renders_canonical_text() {
    let e = Ipv4Endpoint { a: 127, b: 0, c: 0, d: 1, port: 9009 };
    assert_eq!(unkprox::addr::render_endpoint(e), b"127.0.0.1:9009".to_vec());
    let z = Ipv4Endpoint { a: 0, b: 0, c: 0, d: 0, port: 0 };
    assert_eq!(unkprox::addr::render_endpoint(z), b"0.0.0.0:0".to_vec());
}

#[test]
fn render_parse_round_trip() {
    let endpoints = [
        Ipv4Endpoint { a: 127, b: 0, c: 0, d: 1, port: 9009 },
        Ipv4Endpoint { a: 255, b: 255, c: 255, d: 255, port: 65535 },
        Ipv4Endpoint { a: 0, b: 0, c: 0, d: 0, port: 0 },
        Ipv4Endpoint { a: 10, b: 200, c: 3, d: 44, port: 80 },
    ];
    for e in endpoints {
        let text = unkprox::addr::render_endpoint(e);
        assert_eq!(parse_endpoint(&text), Ok(e));
    }
}
