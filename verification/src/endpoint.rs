//! Inbound targets: the per-connection accept context, the per-request
//! routing key recognized from headers, and the endpoint types handed to the
//! connect layer.

use vstd::prelude::*;
use crate::http::{
    first_header, Header, HeaderV, Request, RequestV, Settings, Version, spec_first_header,
    spec_host_header_name, host_header_name,
};
use crate::identity::{NoPeerIdReason, PeerIdentity, PeerIdentityV};
use crate::metrics::{Direction, EndpointLabels, TlsId, TransportKey};
use crate::net::{spec_parse_addr, parse_addr, Addr, AddrV, SockAddr};
use crate::opaque::OpaqueHeader;
use crate::profiles::{Profile, Route};

verus! {

/// Ghost image of a sequence of headers.
pub open spec fn spec_headers(hs: Seq<Header>) -> Seq<HeaderV> {
    hs.map_values(|h: Header| h@)
}

/// The addresses the listener reports for an accepted connection.
#[derive(Clone, Copy, Debug, PartialEq, Eq, Hash, Structural)]
pub struct ListenAddrs {
    /// The original destination of the accepted socket.
    pub target_addr: SockAddr,
    /// The remote peer.
    pub peer_addr: SockAddr,
}

/// What the TLS acceptor reports: the listener addresses plus the peer
/// identity the handshake established, if any.
#[derive(Clone, Debug)]
pub struct TlsAcceptMeta {
    pub addrs: ListenAddrs,
    pub peer_identity: PeerIdentity,
}

/// The per-connection context delivered by the listener; immutable for the
/// connection's lifetime.
#[derive(Clone, Debug, PartialEq, Eq, Hash)]
pub struct TcpAccept {
    pub target_addr: SockAddr,
    pub peer_addr: SockAddr,
    pub peer_id: PeerIdentity,
}

/// Ghost image of a `TcpAccept`.
pub struct TcpAcceptV {
    pub target_addr: SockAddr,
    pub peer_addr: SockAddr,
    pub peer_id: PeerIdentityV,
}

impl View for TcpAccept {
    type V = TcpAcceptV;

    open spec fn view(&self) -> TcpAcceptV {
        TcpAcceptV {
            target_addr: self.target_addr,
            peer_addr: self.peer_addr,
            peer_id: self.peer_id@,
        }
    }
}

impl TcpAccept {
    /// An accept on a port whose TLS handshake was skipped.
    pub fn from_listen(addrs: ListenAddrs) -> (r: TcpAccept)
        ensures
            r.target_addr == addrs.target_addr,
            r.peer_addr == addrs.peer_addr,
            r.peer_id@ == (PeerIdentityV::Absent(NoPeerIdReason::PortSkipped)),
    {
        TcpAccept {
            target_addr: addrs.target_addr,
            peer_addr: addrs.peer_addr,
            peer_id: PeerIdentity::Absent(NoPeerIdReason::PortSkipped),
        }
    }

    /// An accept whose peer identity comes from the TLS handshake.
    pub fn from_tls(meta: TlsAcceptMeta) -> (r: TcpAccept)
        ensures
            r.target_addr == meta.addrs.target_addr,
            r.peer_addr == meta.addrs.peer_addr,
            r.peer_id@ == meta.peer_identity@,
    {
        TcpAccept {
            target_addr: meta.addrs.target_addr,
            peer_addr: meta.addrs.peer_addr,
            peer_id: meta.peer_identity,
        }
    }

    /// The socket address profile discovery resolves for this accept.
    pub fn target_socket_addr(&self) -> (r: SockAddr)
        ensures
            r == self.target_addr,
    {
        self.target_addr
    }

    /// The key inbound transport metrics are recorded under.
    pub fn transport_label_key(&self) -> (r: TransportKey)
        ensures
            r matches TransportKey::Accept { direction, peer_id } && direction == Direction::In
                && peer_id@ == self.peer_id@,
    {
        TransportKey::Accept { direction: Direction::In, peer_id: self.peer_id.clone() }
    }
}

/// The recognized routing key of one request.
#[derive(Clone, Debug, PartialEq, Eq, Hash)]
pub struct Target {
    pub dst: Addr,
    pub socket_addr: SockAddr,
    pub http_version: Version,
    pub tls_client_id: PeerIdentity,
}

/// Ghost image of a `Target`.
pub struct TargetV {
    pub dst: AddrV,
    pub socket_addr: SockAddr,
    pub http_version: Version,
    pub tls_client_id: PeerIdentityV,
}

impl View for Target {
    type V = TargetV;

    open spec fn view(&self) -> TargetV {
        TargetV {
            dst: self.dst@,
            socket_addr: self.socket_addr,
            http_version: self.http_version,
            tls_client_id: self.tls_client_id@,
        }
    }
}

impl Target {
    /// The logical address profile discovery is keyed by.
    pub fn profile_addr(&self) -> (r: &Addr)
        ensures
            r == self.dst,
    {
        &self.dst
    }

    /// Connections opened on behalf of an inbound target go to the local
    /// application, so they never carry a peer identity of their own.
    pub fn peer_identity(&self) -> (r: PeerIdentity)
        ensures
            r@ == (PeerIdentityV::Absent(NoPeerIdReason::Loopback)),
    {
        PeerIdentity::Absent(NoPeerIdReason::Loopback)
    }

    /// The labels endpoint metrics for this target carry.
    pub fn endpoint_labels(&self) -> (r: EndpointLabels)
        ensures
            r.direction == Direction::In,
            r.labels is None,
            (match r.authority {
                Some(a) => self.dst@ matches AddrV::Name(n) && a@ == n.spec_authority(),
                None => self.dst@ is Socket,
            }),
            (match r.tls_id {
                Some(t) => t matches TlsId::ClientId(id) && self.tls_client_id@
                    == (PeerIdentityV::Verified(id@)),
                None => self.tls_client_id@ is Absent,
            }),
    {
        let authority = match self.dst.name_addr() {
            Some(n) => Some(n.as_http_authority()),
            None => None,
        };
        let tls_id = match self.tls_client_id.name() {
            Some(n) => Some(TlsId::ClientId(n.clone())),
            None => None,
        };
        EndpointLabels { direction: Direction::In, authority, labels: None, tls_id }
    }

    /// The key connect metrics for this target are recorded under.
    pub fn transport_label_key(&self) -> (r: TransportKey)
        ensures
            r is Connect,
    {
        TransportKey::Connect(self.endpoint_labels())
    }
}

/// A target together with the profile discovery produced for it.
#[derive(Debug)]
pub struct Logical {
    target: Target,
    profile: Option<Profile>,
}

impl Logical {
    /// The profile view a `Logical` exposes.
    pub closed spec fn spec_profile(&self) -> Option<Profile> {
        self.profile
    }

    pub closed spec fn spec_target(&self) -> Target {
        self.target
    }

    /// Pairs profile discovery's result with the target it was made for.
    pub fn from_parts(profile: Option<Profile>, target: Target) -> (r: Logical)
        ensures
            r.spec_target() == target,
            r.spec_profile() == profile,
    {
        Logical { target, profile }
    }

    /// Recovers the bare target.
    pub fn into_target(self) -> (r: Target)
        ensures
            r == self.spec_target(),
    {
        self.target
    }

    /// The profile subscription, when discovery produced one.
    pub fn profile(&self) -> (r: &Option<Profile>)
        ensures
            r == &self.spec_profile(),
    {
        &self.profile
    }
}

/// A route of the current profile revision, qualified by the logical
/// destination it serves, as stored in a request's extensions.
#[derive(Debug)]
pub struct DstRoute {
    pub route: Route,
    pub target: Addr,
    pub direction: Direction,
}

/// Qualifies a matched profile route by the logical destination.
pub fn route(rl: (Route, Logical)) -> (r: DstRoute)
    ensures
        r.route == rl.0,
        r.target == rl.1.spec_target().dst,
        r.direction == Direction::In,
{
    let (rt, logical) = rl;
    DstRoute { route: rt, target: logical.into_target().dst, direction: Direction::In }
}

/// The per-endpoint settings of an HTTP client connection.
#[derive(Clone, Debug, PartialEq, Eq, Hash)]
pub struct HttpEndpoint {
    pub port: u16,
    pub settings: Settings,
}

impl HttpEndpoint {
    /// Derives the endpoint of a target: its port, with client settings for
    /// the target's protocol version.
    pub fn from_target(target: Target) -> (r: HttpEndpoint)
        ensures
            r.port == target.socket_addr.port,
            r.settings == Settings::spec_of_version(target.http_version),
    {
        HttpEndpoint { port: target.socket_addr.port, settings: Settings::of_version(target.http_version) }
    }

    pub fn settings(&self) -> (r: Settings)
        ensures
            r == self.settings,
    {
        self.settings
    }
}

/// A TCP endpoint on the local pod: just a port.
#[derive(Clone, Copy, Debug, PartialEq, Eq, Hash, Structural)]
pub struct TcpEndpoint {
    pub port: u16,
}

impl TcpEndpoint {
    /// Forwarding an accepted connection targets its original destination
    /// port.
    pub fn from_accept(tcp: TcpAccept) -> (r: TcpEndpoint)
        ensures
            r.port == tcp.target_addr.port,
    {
        TcpEndpoint { port: tcp.target_addr.port }
    }

    /// An opaque-transport header rewrites the target port.
    pub fn from_header(h: OpaqueHeader) -> (r: TcpEndpoint)
        ensures
            r.port == h.port,
    {
        TcpEndpoint { port: h.port }
    }

    pub fn from_http(ep: HttpEndpoint) -> (r: TcpEndpoint)
        ensures
            r.port == ep.port,
    {
        TcpEndpoint { port: ep.port }
    }

    pub fn into_port(self) -> (r: u16)
        ensures
            r == self.port,
    {
        self.port
    }

    /// The key connect metrics on the local forward path are recorded under:
    /// an inbound connect with no authority and no TLS.
    pub fn transport_label_key(&self) -> (r: TransportKey)
        ensures
            r matches TransportKey::Connect(l) && l.direction == Direction::In && l.authority
                is None && l.labels is None && l.tls_id is None,
    {
        TransportKey::Connect(
            EndpointLabels { direction: Direction::In, authority: None, labels: None, tls_id: None },
        )
    }
}

// ---------------------------------------------------------------------------
// Per-request target recognition.
// ---------------------------------------------------------------------------

/// `l5d-dst-canonical`: the canonical destination set by a peer proxy.
pub open spec fn spec_name_canonical() -> Seq<u8> {
    seq![
        0x6cu8, 0x35u8, 0x64u8, 0x2du8, 0x64u8, 0x73u8, 0x74u8, 0x2du8, 0x63u8, 0x61u8, 0x6eu8,
        0x6fu8, 0x6eu8, 0x69u8, 0x63u8, 0x61u8, 0x6cu8,
    ]
}

/// `l5d-dst-override`: a routing override set by an ingress.
pub open spec fn spec_name_override() -> Seq<u8> {
    seq![
        0x6cu8, 0x35u8, 0x64u8, 0x2du8, 0x64u8, 0x73u8, 0x74u8, 0x2du8, 0x6fu8, 0x76u8, 0x65u8,
        0x72u8, 0x72u8, 0x69u8, 0x64u8, 0x65u8,
    ]
}

pub fn name_canonical() -> (r: Vec<u8>)
    ensures
        r@ == spec_name_canonical(),
{
    let mut v: Vec<u8> = Vec::new();
    v.push(0x6c);
    v.push(0x35);
    v.push(0x64);
    v.push(0x2d);
    v.push(0x64);
    v.push(0x73);
    v.push(0x74);
    v.push(0x2d);
    v.push(0x63);
    v.push(0x61);
    v.push(0x6e);
    v.push(0x6f);
    v.push(0x6e);
    v.push(0x69);
    v.push(0x63);
    v.push(0x61);
    v.push(0x6c);
    proof {
        assert(v@ =~= spec_name_canonical());
    }
    v
}

pub fn name_override() -> (r: Vec<u8>)
    ensures
        r@ == spec_name_override(),
{
    let mut v: Vec<u8> = Vec::new();
    v.push(0x6c);
    v.push(0x35);
    v.push(0x64);
    v.push(0x2d);
    v.push(0x64);
    v.push(0x73);
    v.push(0x74);
    v.push(0x2d);
    v.push(0x6f);
    v.push(0x76);
    v.push(0x65);
    v.push(0x72);
    v.push(0x72);
    v.push(0x69);
    v.push(0x64);
    v.push(0x65);
    proof {
        assert(v@ =~= spec_name_override());
    }
    v
}

/// The address carried by the first header named `name`, when that header is
/// present and parses.
pub open spec fn spec_header_addr(hs: Seq<HeaderV>, name: Seq<u8>) -> Option<AddrV> {
    match spec_first_header(hs, name) {
        Some(v) => spec_parse_addr(v),
        None => None,
    }
}

/// Looks up the first header named `name` and parses it as an address.
pub fn header_addr(headers: &Vec<Header>, name: &Vec<u8>) -> (r: Option<Addr>)
    ensures
        match r {
            Some(a) => spec_header_addr(spec_headers(headers@), name@) == Some(a@),
            None => spec_header_addr(spec_headers(headers@), name@) is None,
        },
{
    match first_header(headers, name) {
        Some(v) => parse_addr(v),
        None => None,
    }
}

/// The destination the router chooses for a request accepted on `orig`: the
/// first parseable candidate among the canonical-destination header, the
/// override header, the request authority, and the `Host` header; and
/// failing all of those, the original destination address itself.
pub open spec fn spec_recognized_dst(r: RequestV, orig: SockAddr) -> AddrV {
    if spec_header_addr(r.headers, spec_name_canonical()) is Some {
        spec_header_addr(r.headers, spec_name_canonical())->Some_0
    } else if spec_header_addr(r.headers, spec_name_override()) is Some {
        spec_header_addr(r.headers, spec_name_override())->Some_0
    } else if (match r.authority {
        Some(a) => spec_parse_addr(a),
        None => None,
    }) is Some {
        (match r.authority {
            Some(a) => spec_parse_addr(a),
            None => None,
        })->Some_0
    } else if spec_header_addr(r.headers, spec_host_header_name()) is Some {
        spec_header_addr(r.headers, spec_host_header_name())->Some_0
    } else {
        AddrV::Socket(orig)
    }
}

/// Recognizes the routing key of each request on one accepted connection.
#[derive(Clone, Debug)]
pub struct RequestTarget {
    accept: TcpAccept,
}

impl RequestTarget {
    pub closed spec fn spec_accept(&self) -> TcpAccept {
        self.accept
    }

    pub fn from_accept(accept: TcpAccept) -> (r: RequestTarget)
        ensures
            r.spec_accept() == accept,
    {
        RequestTarget { accept }
    }

    /// Recognizes the target of one request: the fallback-chain destination,
    /// the connection's original destination address, its protocol version,
    /// and the connection's peer identity.
    pub fn recognize(&self, req: &Request) -> (t: Target)
        ensures
            t.dst@ == spec_recognized_dst(req@, self.spec_accept().target_addr),
            t.socket_addr == self.spec_accept().target_addr,
            t.http_version == req.version,
            t.tls_client_id@ == self.spec_accept().peer_id@,
    {
        let dst = match header_addr(&req.headers, &name_canonical()) {
            Some(a) => a,
            None => match header_addr(&req.headers, &name_override()) {
                Some(a) => a,
                None => {
                    let from_authority = match req.authority.as_ref() {
                        Some(a) => parse_addr(a),
                        None => None,
                    };
                    match from_authority {
                        Some(a) => a,
                        None => match header_addr(&req.headers, &host_header_name()) {
                            Some(a) => a,
                            None => Addr::Socket(self.accept.target_addr),
                        },
                    }
                },
            },
        };
        Target {
            dst,
            socket_addr: self.accept.target_addr,
            http_version: req.version,
            tls_client_id: self.accept.peer_id.clone(),
        }
    }
}

/// Profile discovery for inbound targets is keyed by the target itself.
#[derive(Clone, Copy, Debug)]
pub struct ProfileTarget;

/// The extensions a request carries through the inbound stack.
#[derive(Debug)]
pub struct Extensions {
    pub tcp_accept: Option<TcpAccept>,
    pub dst_route: Option<DstRoute>,
}

impl Target {
    /// The connection's peer address, when the accept context is recorded.
    pub fn src_addr(&self, ext: &Extensions) -> (r: Option<SockAddr>)
        ensures
            (match ext.tcp_accept {
                Some(a) => r == Some(a.peer_addr),
                None => r is None,
            }),
    {
        match ext.tcp_accept.as_ref() {
            Some(a) => Some(a.peer_addr),
            None => None,
        }
    }

    /// The connection's peer identity; absent when no accept context is
    /// recorded, as when local identity is disabled.
    pub fn src_tls(&self, ext: &Extensions) -> (r: PeerIdentity)
        ensures
            (match ext.tcp_accept {
                Some(a) => r@ == a.peer_id@,
                None => r@ == (PeerIdentityV::Absent(NoPeerIdReason::LocalIdentityDisabled)),
            }),
    {
        match ext.tcp_accept.as_ref() {
            Some(a) => a.peer_id.clone(),
            None => PeerIdentity::Absent(NoPeerIdReason::LocalIdentityDisabled),
        }
    }

    /// The destination the request is being sent to.
    pub fn dst_addr(&self) -> (r: Option<SockAddr>)
        ensures
            r == Some(self.socket_addr),
    {
        Some(self.socket_addr)
    }

    /// Inbound targets carry no destination labels of their own.
    pub fn dst_labels(&self) -> (r: Option<&indexmap::IndexMap<String, String>>)
        ensures
            r is None,
    {
        None
    }

    /// The local application is reached without TLS.
    pub fn dst_tls(&self) -> (r: PeerIdentity)
        ensures
            r@ == (PeerIdentityV::Absent(NoPeerIdReason::Loopback)),
    {
        PeerIdentity::Absent(NoPeerIdReason::Loopback)
    }

    /// The labels of the profile route the request matched, if one is
    /// recorded.
    pub fn route_labels<'a>(&self, ext: &'a Extensions) -> (r: Option<
        &'a indexmap::IndexMap<String, String>,
    >)
        ensures
            (match ext.dst_route {
                Some(d) => r == Some(&d.route.labels),
                None => r is None,
            }),
    {
        match ext.dst_route.as_ref() {
            Some(d) => Some(d.route.labels()),
            None => None,
        }
    }

    /// This is the inbound side.
    pub fn is_outbound(&self) -> (r: bool)
        ensures
            r == false,
    {
        false
    }
}

} // verus!
