use proxy_core::detect::{detect, is_opaque_port, Protocol};
use proxy_core::endpoint::{RequestTarget, TcpAccept};
use proxy_core::errors::{status_of, ErrorKind};
use proxy_core::http::{normalize_uri, Header, Request, Version};
use proxy_core::identity::{NoPeerIdReason, PeerIdentity};
use proxy_core::ingress;
use proxy_core::net::{parse_addr, Addr, IpAddress, NameAddr, SockAddr};

fn sock(a: u8, b: u8, c: u8, d: u8, port: u16) -> SockAddr {
    SockAddr { ip: IpAddress::V4(a, b, c, d), port }
}

fn header(name: &str, value: &str) -> Header {
    Header { name: name.as_bytes().to_vec(), value: value.as_bytes().to_vec() }
}

fn request(headers: Vec<Header>, authority: Option<&str>) -> Request {
    Request {
        method: b"GET".to_vec(),
        version: Version::Http1,
        authority: authority.map(|a| a.as_bytes().to_vec()),
        path: b"/".to_vec(),
        headers,
    }
}

fn accept() -> TcpAccept {
    TcpAccept {
        target_addr: sock(10, 0, 0, 9, 8080),
        peer_addr: sock(10, 0, 0, 1, 40000),
        peer_id: PeerIdentity::Absent(NoPeerIdReason::PortSkipped),
    }
}

fn name_addr(name: &str, port: u16) -> Addr {
    Addr::Name(NameAddr { name: name.as_bytes().to_vec(), port })
}

#[test]
fn parse_addr_accepts_names_and_ipv4() {
    assert_eq!(
        parse_addr(&b"web.svc.cluster.local:80".to_vec()),
        Some(name_addr("web.svc.cluster.local", 80))
    );
    assert_eq!(
        parse_addr(&b"192.168.0.1:8443".to_vec()),
        Some(Addr::Socket(sock(192, 168, 0, 1, 8443)))
    );
}

#[test]
fn parse_addr_rejects_bad_input() {
    assert_eq!(parse_addr(&b"no-port".to_vec()), None);
    assert_eq!(parse_addr(&b"name:".to_vec()), None);
    assert_eq!(parse_addr(&b"name:99999".to_vec()), None);
    assert_eq!(parse_addr(&b":80".to_vec()), None);
    assert_eq!(parse_addr(&b"bad host:80".to_vec()), None);
    // An octet with a leading zero is not an IPv4 literal, but it is still
    // a valid name.
    assert_eq!(
        parse_addr(&b"192.168.00.1:80".to_vec()),
        Some(name_addr("192.168.00.1", 80))
    );
}

#[test]
fn recognize_prefers_canonical_header() {
    let rt = RequestTarget::from_accept(accept());
    let req = request(
        vec![
            header("l5d-dst-canonical", "canon.example.com:81"),
            header("l5d-dst-override", "override.example.com:82"),
            header("host", "host.example.com:84"),
        ],
        Some("authority.example.com:83"),
    );
    let t = rt.recognize(&req);
    assert_eq!(t.dst, name_addr("canon.example.com", 81));
    assert_eq!(t.socket_addr, sock(10, 0, 0, 9, 8080));
    assert_eq!(t.http_version, Version::Http1);
}

#[test]
fn recognize_falls_through_unparseable_candidates() {
    let rt = RequestTarget::from_accept(accept());
    let req = request(
        vec![
            header("l5d-dst-canonical", "not an authority"),
            header("l5d-dst-override", "override.example.com:82"),
        ],
        None,
    );
    let t = rt.recognize(&req);
    assert_eq!(t.dst, name_addr("override.example.com", 82));
}

#[test]
fn recognize_uses_authority_then_host() {
    let rt = RequestTarget::from_accept(accept());
    let with_authority = request(vec![header("host", "host.example.com:84")], Some("authority.example.com:83"));
    assert_eq!(
        rt.recognize(&with_authority).dst,
        name_addr("authority.example.com", 83)
    );
    let host_only = request(vec![header("host", "host.example.com:84")], None);
    assert_eq!(rt.recognize(&host_only).dst, name_addr("host.example.com", 84));
}

#[test]
fn recognize_falls_back_to_original_destination() {
    let rt = RequestTarget::from_accept(accept());
    let req = request(vec![], None);
    assert_eq!(rt.recognize(&req).dst, Addr::Socket(sock(10, 0, 0, 9, 8080)));
}

#[test]
fn normalize_uri_uses_host_then_fallback() {
    let fallback = b"10.0.0.9:8080".to_vec();
    let mut with_host = request(vec![header("host", "host.example.com:84")], None);
    normalize_uri(&mut with_host, &fallback);
    assert_eq!(with_host.authority, Some(b"host.example.com:84".to_vec()));

    let mut bare = request(vec![], None);
    normalize_uri(&mut bare, &fallback);
    assert_eq!(bare.authority, Some(fallback.clone()));
}

#[test]
fn normalize_uri_twice_equals_once() {
    let fallback = b"10.0.0.9:8080".to_vec();
    let mut req = request(vec![header("host", "host.example.com:84")], None);
    normalize_uri(&mut req, &fallback);
    let once = req.clone();
    normalize_uri(&mut req, &fallback);
    assert_eq!(req, once);
}

#[test]
fn error_kinds_map_to_their_statuses() {
    assert_eq!(status_of(&ErrorKind::LoopPrevented(4140)), 508);
    assert_eq!(status_of(&ErrorKind::LoopDetected), 508);
    assert_eq!(status_of(&ErrorKind::DiscoveryRejected), 404);
    assert_eq!(status_of(&ErrorKind::IdentityRequired), 403);
    assert_eq!(status_of(&ErrorKind::NoRoute), 404);
    assert_eq!(status_of(&ErrorKind::Overload), 503);
    assert_eq!(status_of(&ErrorKind::Timeout), 504);
    assert_eq!(status_of(&ErrorKind::Io), 500);
    assert_eq!(status_of(&ErrorKind::Tls), 500);
}

#[test]
fn detect_classifies_h2_h1_and_opaque() {
    let preface = b"PRI * HTTP/2.0\r\n\r\nSM\r\n\r\n".to_vec();
    assert_eq!(detect(&preface), Protocol::Http(Version::H2));
    let mut with_frames = preface.clone();
    with_frames.extend_from_slice(b"\x00\x00\x00");
    assert_eq!(detect(&with_frames), Protocol::Http(Version::H2));
    assert_eq!(
        detect(&b"GET / HTTP/1.1\r\n".to_vec()),
        Protocol::Http(Version::Http1)
    );
    assert_eq!(detect(&b"\x16\x03\x01\x02\x00".to_vec()), Protocol::Opaque);
    assert_eq!(detect(&b"".to_vec()), Protocol::Opaque);
    assert_eq!(detect(&b" GET /".to_vec()), Protocol::Opaque);
}

#[test]
fn opaque_ports_skip_detection() {
    let ports = vec![25u16, 3306];
    assert!(is_opaque_port(&ports, 3306));
    assert!(!is_opaque_port(&ports, 80));
}

#[test]
fn ingress_recognize_honors_override_only() {
    let a = ingress::Accept { orig_dst: sock(10, 0, 0, 9, 8080), protocol: Version::H2 };
    let tpr = ingress::TargetPerRequest::accept(a);
    let with_override = request(
        vec![
            header("l5d-dst-canonical", "canon.example.com:81"),
            header("l5d-dst-override", "override.example.com:82"),
        ],
        Some("authority.example.com:83"),
    );
    assert_eq!(
        tpr.recognize(&with_override).dst,
        name_addr("override.example.com", 82)
    );
    let without = request(vec![header("l5d-dst-canonical", "canon.example.com:81")], None);
    assert_eq!(
        tpr.recognize(&without).dst,
        Addr::Socket(sock(10, 0, 0, 9, 8080))
    );
}

#[test]
fn ingress_filter_rejects_unconfigured_destinations() {
    let allow = ingress::AddrMatch {
        suffixes: vec![b".example.com".to_vec()],
        nets: vec![ingress::IpNet { ip: IpAddress::V4(10, 0, 0, 0), prefix: 8 }],
    };
    let stack = ingress::stack(allow, 60_000, 3_000, 1_000, 10_000, 100);
    let a = ingress::Accept { orig_dst: sock(10, 0, 0, 9, 8080), protocol: Version::Http1 };

    let ok = request(vec![header("l5d-dst-override", "web.example.com:80")], None);
    let routed = stack.route_request(a, &ok, None).unwrap();
    assert_eq!(routed.orig_dst, sock(10, 0, 0, 9, 8080));
    assert_eq!(routed.protocol, Version::Http1);

    let bad = request(vec![header("l5d-dst-override", "web.other.org:80")], None);
    let err = stack.route_request(a, &bad, None).unwrap_err();
    assert_eq!(err.kind, ErrorKind::DiscoveryRejected);
    assert_eq!(status_of(&err.kind), 404);
}

#[test]
fn ingress_non_http_forwards_to_original_destination() {
    let allow = ingress::AddrMatch { suffixes: vec![], nets: vec![] };
    let stack = ingress::stack(allow, 60_000, 3_000, 1_000, 10_000, 100);
    match stack.route_connection(sock(10, 0, 0, 9, 8080), None) {
        ingress::ConnectionPlan::TcpForward(ep) => {
            assert_eq!(ep.addr, sock(10, 0, 0, 9, 8080));
            assert_eq!(
                ep.identity,
                PeerIdentity::Absent(NoPeerIdReason::IngressNonHttp)
            );
        }
        _ => panic!("expected a raw TCP forward"),
    }
    match stack.route_connection(sock(10, 0, 0, 9, 8080), Some(Version::H2)) {
        ingress::ConnectionPlan::Http(a) => assert_eq!(a.protocol, Version::H2),
        _ => panic!("expected an HTTP plan"),
    }
}

#[test]
fn net_match_uses_prefix_length() {
    let allow = ingress::AddrMatch {
        suffixes: vec![],
        nets: vec![ingress::IpNet { ip: IpAddress::V4(10, 1, 0, 0), prefix: 16 }],
    };
    assert!(allow.matches(&Addr::Socket(sock(10, 1, 200, 3, 1))));
    assert!(!allow.matches(&Addr::Socket(sock(10, 2, 0, 3, 1))));
    assert!(!allow.matches(&name_addr("web.example.com", 80)));
}
