use proxy_core::endpoint::Target;
use proxy_core::errors::{status_of, ErrorKind};
use proxy_core::gateway::{forwarded_value, has_forwarded_loop, name_forwarded, Gateway, MakeGateway};
use proxy_core::http::{Header, Request, Version};
use proxy_core::identity::{NoPeerIdReason, PeerIdentity};
use proxy_core::net::{parse_addr, Addr, IpAddress, SockAddr};
use proxy_core::profiles::Profile;

fn sock(a: u8, b: u8, c: u8, d: u8, port: u16) -> SockAddr {
    SockAddr { ip: IpAddress::V4(a, b, c, d), port }
}

fn default_profile() -> Profile {
    Profile {
        name: Some(b"dst.test.example.com".to_vec()),
        http_routes: Vec::new(),
        opaque_ports: Vec::new(),
        endpoint: None,
    }
}

fn default_target(dst_name: Option<&str>, peer_id: PeerIdentity) -> Target {
    let socket_addr = sock(127, 0, 0, 1, 4143);
    let dst = match dst_name {
        Some(n) => parse_addr(&n.as_bytes().to_vec()).unwrap(),
        None => Addr::Socket(sock(127, 0, 0, 1, 4321)),
    };
    Target {
        dst,
        socket_addr,
        http_version: Version::Http1,
        tls_client_id: peer_id,
    }
}

fn client_id() -> PeerIdentity {
    PeerIdentity::Verified(b"client.id.test".to_vec())
}

fn gateway_id() -> PeerIdentity {
    PeerIdentity::Verified(b"gateway.id.test".to_vec())
}

fn request(fwd: Option<&str>) -> Request {
    let mut headers = Vec::new();
    if let Some(f) = fwd {
        headers.push(Header {
            name: b"forwarded".to_vec(),
            value: f.as_bytes().to_vec(),
        });
    }
    Request {
        method: b"GET".to_vec(),
        version: Version::Http1,
        authority: Some(b"dst.test.example.com:4321".to_vec()),
        path: b"/".to_vec(),
        headers,
    }
}

fn run(
    dst_name: Option<&str>,
    peer_id: PeerIdentity,
    orig_fwd: Option<&str>,
    profile: Option<Profile>,
) -> Result<Request, ErrorKind> {
    let make = MakeGateway::new(gateway_id());
    let gw = make.new_gateway(profile, default_target(dst_name, peer_id));
    gw.apply(request(orig_fwd))
}

const EXPECTED_FWD: &str = "by=gateway.id.test;for=client.id.test;host=dst.test.example.com:4321;proto=https";

#[test]
fn gateway() {
    let fwd = run(
        Some("dst.test.example.com:4321"),
        client_id(),
        None,
        Some(default_profile()),
    )
    .unwrap();
    let last = fwd.headers.last().unwrap();
    assert_eq!(last.name, b"forwarded".to_vec());
    assert_eq!(last.value, EXPECTED_FWD.as_bytes().to_vec());
}

#[test]
fn bad_domain() {
    let kind = run(Some("dst.test.example.com:4321"), client_id(), None, None).unwrap_err();
    assert_eq!(status_of(&kind), 404);
}

#[test]
fn no_authority() {
    let kind = run(None, client_id(), None, None).unwrap_err();
    assert_eq!(status_of(&kind), 404);
}

#[test]
fn no_identity() {
    let peer = PeerIdentity::Absent(NoPeerIdReason::NoPeerIdFromRemote);
    let kind = run(
        Some("dst.test.example.com:4321"),
        peer,
        None,
        Some(default_profile()),
    )
    .unwrap_err();
    assert_eq!(status_of(&kind), 403);
}

#[test]
fn forward_loop() {
    let kind = run(
        Some("dst.test.example.com:4321"),
        client_id(),
        Some(EXPECTED_FWD),
        Some(default_profile()),
    )
    .unwrap_err();
    assert_eq!(kind, ErrorKind::LoopDetected);
    assert_eq!(status_of(&kind), 508);
}

#[test]
fn forwarded_hop_appended_when_chain_is_foreign() {
    let fwd = run(
        Some("dst.test.example.com:4321"),
        client_id(),
        Some("by=other.id.test;for=someone;host=x:1;proto=https"),
        Some(default_profile()),
    )
    .unwrap();
    assert_eq!(fwd.headers.len(), 2);
    assert_eq!(fwd.headers.last().unwrap().value, EXPECTED_FWD.as_bytes().to_vec());
}

#[test]
fn forwarded_parse_finds_by_in_later_hop() {
    let headers = vec![Header {
        name: b"forwarded".to_vec(),
        value: b"for=a, by=gw.id;host=h:1".to_vec(),
    }];
    assert!(has_forwarded_loop(&headers, &b"gw.id".to_vec()));
    assert!(!has_forwarded_loop(&headers, &b"gw.other".to_vec()));
}

#[test]
fn forwarded_parse_handles_quotes_and_spaces() {
    let headers = vec![Header {
        name: b"forwarded".to_vec(),
        value: b"for=a; by=\"gw.id\" ;proto=https".to_vec(),
    }];
    assert!(has_forwarded_loop(&headers, &b"gw.id".to_vec()));
}

#[test]
fn forwarded_value_renders_all_parameters() {
    let v = forwarded_value(
        &b"gateway.id.test".to_vec(),
        &b"client.id.test".to_vec(),
        &b"dst.test.example.com:4321".to_vec(),
    );
    assert_eq!(v, EXPECTED_FWD.as_bytes().to_vec());
}

#[test]
fn forwarded_header_name_is_lowercase() {
    assert_eq!(name_forwarded(), b"forwarded".to_vec());
}

#[test]
fn gateway_refusals_decided_in_order() {
    // No authority wins over missing identity.
    let make = MakeGateway::new(gateway_id());
    let peer = PeerIdentity::Absent(NoPeerIdReason::NoPeerIdFromRemote);
    let gw = make.new_gateway(None, default_target(None, peer));
    assert!(matches!(gw, Gateway::NoAuthority));
    let kind = gw.apply(request(None)).unwrap_err();
    assert_eq!(status_of(&kind), 404);
}
