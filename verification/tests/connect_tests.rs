use proxy_core::connect::{
    is_loop, loop_prevented_message, stack, Endpoint, Metadata, PreventLoop, TlsMode,
};
use proxy_core::endpoint::{HttpEndpoint, TcpAccept, TcpEndpoint};
use proxy_core::errors::{status_of, Error, ErrorKind};
use proxy_core::http::{Request, Settings, Version};
use proxy_core::identity::{NoPeerIdReason, PeerIdentity};
use proxy_core::endpoint::Target;
use proxy_core::net::{Addr, IpAddress, NameAddr, SockAddr};
use proxy_core::opaque::{decode_frame, OpaqueHeader};
use proxy_core::profiles::{
    concrete_of, labels_from_pairs, match_route, Concrete, Profile, Route, RouteMatch,
};

fn sock(a: u8, b: u8, c: u8, d: u8, port: u16) -> SockAddr {
    SockAddr { ip: IpAddress::V4(a, b, c, d), port }
}

fn endpoint(addr: SockAddr, identity: PeerIdentity, opaque: Option<u16>) -> Endpoint<()> {
    Endpoint {
        addr,
        identity,
        metadata: Metadata { identity: None, opaque_transport_port: opaque },
        logical: (),
    }
}

const ID: &[u8] = b"foo.ns1.serviceaccount.identity.linkerd.cluster.local";

#[test]
fn plaintext_tcp() {
    // An endpoint with no identity hint connects in the clear.
    let target_addr = sock(127, 0, 0, 1, 666);
    let connect = stack(None, 10_000, 4140, None);
    let plan = connect
        .plan(&endpoint(
            target_addr,
            PeerIdentity::Absent(NoPeerIdReason::NoPeerIdFromRemote),
            None,
        ))
        .expect("conn should succeed");
    assert_eq!(plan.addr, target_addr);
    assert_eq!(plan.tls, TlsMode::Plain);
    assert_eq!(plan.opaque_header, None);
}

#[test]
fn tls_when_hinted() {
    let tls_addr = sock(0, 0, 0, 0, 5550);
    let plain_addr = sock(0, 0, 0, 0, 5551);
    let connect = stack(None, 10_000, 4140, Some(b"local.id.test".to_vec()));

    let tls_plan = connect
        .plan(&endpoint(tls_addr, PeerIdentity::Verified(ID.to_vec()), None))
        .expect("neither connection should fail");
    assert_eq!(tls_plan.tls, TlsMode::Tls { sni: ID.to_vec() });

    let plain_plan = connect
        .plan(&endpoint(
            plain_addr,
            PeerIdentity::Absent(NoPeerIdReason::NoPeerIdFromRemote),
            None,
        ))
        .expect("neither connection should fail");
    assert_eq!(plain_plan.tls, TlsMode::Plain);
}

#[test]
fn tls_needs_a_local_identity() {
    let connect = stack(None, 10_000, 4140, None);
    let plan = connect
        .plan(&endpoint(sock(10, 0, 0, 2, 80), PeerIdentity::Verified(ID.to_vec()), None))
        .unwrap();
    assert_eq!(plan.tls, TlsMode::Plain);
}

#[test]
fn loop_prevention_refuses_the_listener_port() {
    let connect = stack(None, 10_000, 4140, None);
    let err = connect
        .plan(&endpoint(
            sock(127, 0, 0, 1, 4140),
            PeerIdentity::Absent(NoPeerIdReason::Loopback),
            None,
        ))
        .unwrap_err();
    assert_eq!(err.kind, ErrorKind::LoopPrevented(4140));
    assert_eq!(status_of(&err.kind), 508);

    // Loopback on another port, and the same port elsewhere, both connect.
    assert!(connect
        .plan(&endpoint(sock(127, 0, 0, 1, 4141), PeerIdentity::Absent(NoPeerIdReason::Loopback), None))
        .is_ok());
    assert!(connect
        .plan(&endpoint(sock(10, 0, 0, 3, 4140), PeerIdentity::Absent(NoPeerIdReason::Loopback), None))
        .is_ok());
}

#[test]
fn prevent_loop_filter_passes_other_endpoints_through() {
    let pl = PreventLoop::from(4143u16);
    let ep = endpoint(sock(10, 0, 0, 3, 4143), PeerIdentity::Absent(NoPeerIdReason::Loopback), None);
    let out = pl.filter(ep).unwrap();
    assert_eq!(out.addr, sock(10, 0, 0, 3, 4143));
    assert!(pl
        .filter(endpoint(sock(127, 0, 0, 1, 4143), PeerIdentity::Absent(NoPeerIdReason::Loopback), None))
        .is_err());
}

#[test]
fn is_loop_walks_the_error_chain() {
    let inner = Error::new(ErrorKind::LoopPrevented(4140));
    let wrapped = Error::chained(ErrorKind::Io, inner);
    let outer = Error::chained(ErrorKind::Timeout, wrapped);
    assert!(is_loop(&outer));
    assert!(!is_loop(&Error::chained(ErrorKind::Timeout, Error::new(ErrorKind::Io))));
}

#[test]
fn loop_prevented_message_names_the_port() {
    assert_eq!(
        loop_prevented_message(4140),
        b"outbound requests must not target localhost:4140".to_vec()
    );
    assert_eq!(
        loop_prevented_message(0),
        b"outbound requests must not target localhost:0".to_vec()
    );
}

#[test]
fn opaque_transport_header_is_planned_from_the_hint() {
    let connect = stack(Some(30_000), 10_000, 4140, None);
    let plan = connect
        .plan(&endpoint(
            sock(10, 0, 0, 5, 4143),
            PeerIdentity::Absent(NoPeerIdReason::NoPeerIdFromRemote),
            Some(8080),
        ))
        .unwrap();
    assert_eq!(plan.opaque_header, Some(OpaqueHeader { port: 8080, name: Vec::new() }));
    assert_eq!(plan.keepalive, Some(30_000));
    assert_eq!(plan.timeout, 10_000);
}

#[test]
fn opaque_header_encodes_the_framed_port() {
    // Port 80 is one varint byte; the name is empty.
    let h = OpaqueHeader { port: 80, name: Vec::new() };
    assert_eq!(h.encode(), vec![0u8, 2, 80, 0]);
    // Port 8080 = 0x1f90: varint 0x90 0x3f, then a name of three bytes.
    let h2 = OpaqueHeader { port: 8080, name: b"web".to_vec() };
    assert_eq!(h2.encode(), vec![0u8, 6, 0x90, 0x3f, 3, b'w', b'e', b'b']);
}

#[test]
fn opaque_header_round_trips_through_the_frame() {
    let h = OpaqueHeader { port: 4143, name: b"web.example.com".to_vec() };
    assert_eq!(decode_frame(&h.encode()), Some(h));
    let small = OpaqueHeader { port: 7, name: Vec::new() };
    assert_eq!(decode_frame(&small.encode()), Some(small));
    let wide = OpaqueHeader { port: 65535, name: b"x".to_vec() };
    assert_eq!(decode_frame(&wide.encode()), Some(wide));
}

#[test]
fn decode_frame_rejects_torn_frames() {
    assert_eq!(decode_frame(&vec![]), None);
    assert_eq!(decode_frame(&vec![0, 2, 80]), None);
    let mut long = OpaqueHeader { port: 80, name: Vec::new() }.encode();
    long.push(0);
    assert_eq!(decode_frame(&long), None);
}

#[test]
fn tcp_endpoint_ports_follow_their_sources() {
    let accept = TcpAccept {
        target_addr: sock(10, 0, 0, 9, 8080),
        peer_addr: sock(10, 0, 0, 1, 40000),
        peer_id: PeerIdentity::Absent(NoPeerIdReason::PortSkipped),
    };
    assert_eq!(TcpEndpoint::from_accept(accept).port, 8080);
    let header = OpaqueHeader { port: 4143, name: Vec::new() };
    assert_eq!(TcpEndpoint::from_header(header).port, 4143);
    let http_ep = HttpEndpoint { port: 9090, settings: Settings::H2 };
    assert_eq!(TcpEndpoint::from_http(http_ep).port, 9090);
    assert_eq!(TcpEndpoint { port: 7 }.into_port(), 7);
}

#[test]
fn http_endpoint_settings_follow_the_version() {
    let target = Target {
        dst: Addr::Socket(sock(10, 0, 0, 9, 8080)),
        socket_addr: sock(10, 0, 0, 9, 8080),
        http_version: Version::H2,
        tls_client_id: PeerIdentity::Absent(NoPeerIdReason::PortSkipped),
    };
    let ep = HttpEndpoint::from_target(target);
    assert_eq!(ep.port, 8080);
    assert_eq!(ep.settings(), Settings::H2);
}

#[test]
fn authority_renders_name_and_port() {
    let n = NameAddr { name: b"web.example.com".to_vec(), port: 8080 };
    assert_eq!(n.as_http_authority(), b"web.example.com:8080".to_vec());
}

#[test]
fn route_labels_survive_the_label_map() {
    let labels = labels_from_pairs(vec![
        ("rt".to_string(), "users".to_string()),
        ("dir".to_string(), "in".to_string()),
        ("rt".to_string(), "accounts".to_string()),
    ]);
    // The later pair wins the duplicate key, and keys stay unique.
    assert_eq!(labels.len(), 2);
    assert_eq!(labels.get("rt"), Some(&"accounts".to_string()));
    assert_eq!(labels.get("dir"), Some(&"in".to_string()));
    assert_eq!(labels.get("missing"), None);
}

fn get_request(path: &[u8]) -> Request {
    Request {
        method: b"GET".to_vec(),
        version: Version::Http1,
        authority: None,
        path: path.to_vec(),
        headers: Vec::new(),
    }
}

#[test]
fn routes_match_in_declared_order() {
    let routes = vec![
        Route::new(
            RouteMatch { method: Some(b"POST".to_vec()), path_prefix: None },
            labels_from_pairs(vec![]),
            None,
        ),
        Route::new(
            RouteMatch { method: None, path_prefix: Some(b"/users".to_vec()) },
            labels_from_pairs(vec![]),
            Some(2_000),
        ),
        Route::new(
            RouteMatch { method: None, path_prefix: None },
            labels_from_pairs(vec![]),
            None,
        ),
    ];
    let (i, route) = match_route(&routes, &get_request(b"/users/3")).unwrap();
    assert_eq!(i, 1);
    assert_eq!(route.timeout, Some(2_000));
    let (j, _) = match_route(&routes, &get_request(b"/orders")).unwrap();
    assert_eq!(j, 2);
    let none: Vec<Route> = Vec::new();
    assert!(match_route(&none, &get_request(b"/")).is_none());
}

#[test]
fn concrete_selection_follows_the_profile() {
    let orig = sock(10, 0, 0, 9, 8080);
    let pinned = Profile {
        name: None,
        http_routes: Vec::new(),
        opaque_ports: Vec::new(),
        endpoint: Some(sock(10, 0, 0, 7, 9000)),
    };
    let named_dst = Addr::Name(NameAddr { name: b"web.example.com".to_vec(), port: 80 });
    match concrete_of(&Some(pinned), &named_dst, orig) {
        Concrete::Endpoint(e) => assert_eq!(e, sock(10, 0, 0, 7, 9000)),
        _ => panic!("the pinned endpoint must win"),
    }
    match concrete_of(&None, &named_dst, orig) {
        Concrete::Balanced(n) => assert_eq!(n.name, b"web.example.com".to_vec()),
        _ => panic!("a named destination is balanced"),
    }
    match concrete_of(&None, &Addr::Socket(sock(10, 0, 0, 9, 8080)), orig) {
        Concrete::Forward(a) => assert_eq!(a, orig),
        _ => panic!("an unnamed destination is forwarded"),
    }
}
