//! The ingress-mode outbound stack: HTTP requests are routed only by the
//! override header, falling back to the connection's original destination;
//! non-HTTP connections are forwarded without discovery or mTLS. Discovery
//! is allowed only for destinations the configuration names.

use vstd::prelude::*;
use crate::connect::{Endpoint, Metadata};
use crate::endpoint::{header_addr, name_override, spec_header_addr, spec_name_override};
use crate::errors::{Error, ErrorKind};
use crate::http::{Request, RequestV, Version};
use crate::identity::{NoPeerIdReason, PeerIdentity, PeerIdentityV};
use crate::net::{Addr, AddrV, IpAddress, SockAddr};
use crate::profiles::Profile;

verus! {

/// The context of an accepted connection that detected as HTTP.
#[derive(Clone, Copy, Debug, PartialEq, Eq, Hash, Structural)]
pub struct Accept {
    pub orig_dst: SockAddr,
    pub protocol: Version,
}

/// A network in prefix form.
#[derive(Clone, Copy, Debug, PartialEq, Eq, Structural)]
pub struct IpNet {
    pub ip: IpAddress,
    pub prefix: u8,
}

/// The 32-bit value of a dotted quad.
pub open spec fn spec_ipv4_bits(a: u8, b: u8, c: u8, d: u8) -> u32 {
    (a * 0x1000000 + b * 0x10000 + c * 0x100 + d) as u32
}

/// Whether `ip` lies in the network `net/prefix`. Families never mix.
pub open spec fn spec_net_contains(net: IpNet, ip: IpAddress) -> bool {
    match (net.ip, ip) {
        (IpAddress::V4(na, nb, nc, nd), IpAddress::V4(a, b, c, d)) => {
            let n = spec_ipv4_bits(na, nb, nc, nd);
            let h = spec_ipv4_bits(a, b, c, d);
            if net.prefix == 0 {
                true
            } else if net.prefix >= 32 {
                n == h
            } else {
                n >> ((32 - net.prefix) as u32) == h >> ((32 - net.prefix) as u32)
            }
        },
        (IpAddress::V6(n), IpAddress::V6(h)) => {
            if net.prefix == 0 {
                true
            } else if net.prefix >= 128 {
                n == h
            } else {
                n >> ((128 - net.prefix) as u128) == h >> ((128 - net.prefix) as u128)
            }
        },
        _ => false,
    }
}

fn ipv4_bits(a: u8, b: u8, c: u8, d: u8) -> (r: u32)
    ensures
        r == spec_ipv4_bits(a, b, c, d),
{
    (a as u32) * 0x1000000 + (b as u32) * 0x10000 + (c as u32) * 0x100 + (d as u32)
}

fn net_contains(net: &IpNet, ip: &IpAddress) -> (r: bool)
    ensures
        r == spec_net_contains(*net, *ip),
{
    match (net.ip, *ip) {
        (IpAddress::V4(na, nb, nc, nd), IpAddress::V4(a, b, c, d)) => {
            let n = ipv4_bits(na, nb, nc, nd);
            let h = ipv4_bits(a, b, c, d);
            if net.prefix == 0 {
                true
            } else if net.prefix >= 32 {
                n == h
            } else {
                n >> ((32 - net.prefix) as u32) == h >> ((32 - net.prefix) as u32)
            }
        },
        (IpAddress::V6(n), IpAddress::V6(h)) => {
            if net.prefix == 0 {
                true
            } else if net.prefix >= 128 {
                n == h
            } else {
                n >> ((128 - net.prefix) as u32) == h >> ((128 - net.prefix) as u32)
            }
        },
        _ => false,
    }
}

/// Which destinations discovery may be attempted for: names matching one of
/// the suffixes, and socket addresses inside one of the networks.
#[derive(Clone, Debug)]
pub struct AddrMatch {
    pub suffixes: Vec<Vec<u8>>,
    pub nets: Vec<IpNet>,
}

/// Whether `name` ends with `suffix`. The empty suffix matches every name.
pub open spec fn spec_suffix_matches(name: Seq<u8>, suffix: Seq<u8>) -> bool {
    suffix.len() <= name.len() && name.subrange(
        name.len() - suffix.len(),
        name.len() as int,
    ) == suffix
}

/// Whether the match set admits the address.
pub open spec fn spec_addr_matches(m: AddrMatch, a: AddrV) -> bool {
    match a {
        AddrV::Name(n) => exists|i: int|
            0 <= i < m.suffixes@.len() && spec_suffix_matches(n.name, (#[trigger] m.suffixes@[i])@),
        AddrV::Socket(s) => exists|i: int|
            0 <= i < m.nets@.len() && spec_net_contains(#[trigger] m.nets@[i], s.ip),
    }
}

/// Checks whether `name` ends with `suffix`.
#[verifier::loop_isolation(false)]
fn suffix_matches(name: &Vec<u8>, suffix: &Vec<u8>) -> (r: bool)
    ensures
        r == spec_suffix_matches(name@, suffix@),
{
    if suffix.len() > name.len() {
        return false;
    }
    let off = name.len() - suffix.len();
    let ghost tail = name@.subrange(name@.len() - suffix@.len(), name@.len() as int);
    let mut i: usize = 0;
    while i < suffix.len()
        invariant
            i <= suffix@.len(),
            forall|j: int| 0 <= j < i ==> name@[off + j] == suffix@[j],
        decreases suffix@.len() - i,
    {
        if name[off + i] != suffix[i] {
            proof {
                assert(tail[i as int] == name@[off + i]);
                assert(tail != suffix@) by {
                    assert(tail[i as int] != suffix@[i as int]);
                }
            }
            return false;
        }
        i = i + 1;
    }
    proof {
        assert(tail =~= suffix@);
    }
    true
}

impl AddrMatch {
    /// Whether discovery is allowed for the address.
    #[verifier::loop_isolation(false)]
    pub fn matches(&self, a: &Addr) -> (r: bool)
        ensures
            r == spec_addr_matches(*self, a@),
    {
        match a {
            Addr::Name(n) => {
                let mut i: usize = 0;
                while i < self.suffixes.len()
                    invariant
                        i <= self.suffixes@.len(),
                        forall|j: int|
                            0 <= j < i ==> !spec_suffix_matches(
                                n.name@,
                                (#[trigger] self.suffixes@[j])@,
                            ),
                    decreases self.suffixes@.len() - i,
                {
                    if suffix_matches(&n.name, &self.suffixes[i]) {
                        return true;
                    }
                    i = i + 1;
                }
                false
            },
            Addr::Socket(s) => {
                let mut i: usize = 0;
                while i < self.nets.len()
                    invariant
                        i <= self.nets@.len(),
                        forall|j: int|
                            0 <= j < i ==> !spec_net_contains(#[trigger] self.nets@[j], s.ip),
                    decreases self.nets@.len() - i,
                {
                    if net_contains(&self.nets[i], &s.ip) {
                        return true;
                    }
                    i = i + 1;
                }
                false
            },
        }
    }
}

/// The ingress routing key of one request.
#[derive(Clone, Debug, PartialEq, Eq, Hash)]
pub struct Target {
    pub dst: Addr,
    pub accept: Accept,
}

/// Recognizes the ingress routing key: the override header decides, and the
/// original destination is the fallback.
#[derive(Clone, Copy, Debug)]
pub struct TargetPerRequest(Accept);

/// The destination ingress mode routes a request to: the address named by
/// the override header when it parses, else the original destination.
pub open spec fn spec_ingress_dst(r: RequestV, orig: SockAddr) -> AddrV {
    match spec_header_addr(r.headers, spec_name_override()) {
        Some(a) => a,
        None => AddrV::Socket(orig),
    }
}

impl TargetPerRequest {
    pub closed spec fn spec_accept(&self) -> Accept {
        self.0
    }

    pub fn accept(a: Accept) -> (r: TargetPerRequest)
        ensures
            r.spec_accept() == a,
    {
        TargetPerRequest(a)
    }

    pub fn recognize(&self, req: &Request) -> (t: Target)
        ensures
            t.accept == self.spec_accept(),
            t.dst@ == spec_ingress_dst(req@, self.spec_accept().orig_dst),
    {
        let dst = match header_addr(&req.headers, &name_override()) {
            Some(a) => a,
            None => Addr::Socket(self.0.orig_dst),
        };
        Target { dst, accept: self.0 }
    }
}

/// Admits profile discovery only for configured destinations.
#[derive(Clone, Debug)]
pub struct AllowHttpProfile(pub AddrMatch);

impl AllowHttpProfile {
    /// Passes the destination on to discovery, or refuses it: a destination
    /// outside the allow set fails with discovery-rejected.
    pub fn filter(&self, t: Target) -> (r: Result<Addr, Error>)
        ensures
            spec_addr_matches(self.0, t.dst@) ==> (r matches Ok(a) && a == t.dst),
            !spec_addr_matches(self.0, t.dst@) ==> (r matches Err(e) && e.kind
                == ErrorKind::DiscoveryRejected && e.source is None),
    {
        if self.0.matches(&t.dst) {
            Ok(t.dst)
        } else {
            Err(Error::new(ErrorKind::DiscoveryRejected))
        }
    }
}

/// A logical HTTP destination handed to the outbound pipeline.
#[derive(Debug)]
pub struct HttpLogical {
    pub profile: Option<Profile>,
    pub orig_dst: SockAddr,
    pub protocol: Version,
}

impl HttpLogical {
    /// Pairs a discovered profile with the accept context the target came
    /// from.
    pub fn from_parts(profile: Option<Profile>, t: Target) -> (r: HttpLogical)
        ensures
            r.profile == profile,
            r.orig_dst == t.accept.orig_dst,
            r.protocol == t.accept.protocol,
    {
        HttpLogical { profile, orig_dst: t.accept.orig_dst, protocol: t.accept.protocol }
    }
}

/// How an accepted ingress connection proceeds after protocol detection.
#[derive(Debug)]
pub enum ConnectionPlan {
    /// Not HTTP: forward the raw stream to the original destination,
    /// without discovery and without mTLS.
    TcpForward(Endpoint<()>),
    /// HTTP: serve requests through the ingress router.
    Http(Accept),
}

/// The assembled ingress stack: its allow set and serving limits.
#[derive(Debug)]
pub struct IngressStack {
    pub allow_discovery: AddrMatch,
    pub cache_max_idle_age: u64,
    pub dispatch_timeout: u64,
    pub max_in_flight_requests: u64,
    pub detect_protocol_timeout: u64,
    pub buffer_capacity: u64,
}

/// Assembles the ingress stack from its configuration.
pub fn stack(
    allow_discovery: AddrMatch,
    cache_max_idle_age: u64,
    dispatch_timeout: u64,
    max_in_flight_requests: u64,
    detect_protocol_timeout: u64,
    buffer_capacity: u64,
) -> (r: IngressStack)
    ensures
        r.allow_discovery == allow_discovery,
        r.cache_max_idle_age == cache_max_idle_age,
        r.dispatch_timeout == dispatch_timeout,
        r.max_in_flight_requests == max_in_flight_requests,
        r.detect_protocol_timeout == detect_protocol_timeout,
        r.buffer_capacity == buffer_capacity,
{
    IngressStack {
        allow_discovery,
        cache_max_idle_age,
        dispatch_timeout,
        max_in_flight_requests,
        detect_protocol_timeout,
        buffer_capacity,
    }
}

impl IngressStack {
    /// Dispatches one accepted connection after protocol detection: a
    /// connection that is not HTTP is forwarded as raw TCP to its original
    /// destination, with the ingress-non-HTTP identity reason; an HTTP
    /// connection is served.
    pub fn route_connection(&self, orig_dst: SockAddr, detected: Option<Version>) -> (r:
        ConnectionPlan)
        ensures
            (match detected {
                Some(v) => r matches ConnectionPlan::Http(a) && a.orig_dst == orig_dst
                    && a.protocol == v,
                None => r matches ConnectionPlan::TcpForward(ep) && ep.addr == orig_dst
                    && ep.identity@ == (PeerIdentityV::Absent(NoPeerIdReason::IngressNonHttp))
                    && ep.metadata.identity is None && ep.metadata.opaque_transport_port is None,
            }),
    {
        match detected {
            Some(v) => ConnectionPlan::Http(Accept { orig_dst, protocol: v }),
            None => ConnectionPlan::TcpForward(
                Endpoint {
                    addr: orig_dst,
                    identity: PeerIdentity::Absent(NoPeerIdReason::IngressNonHttp),
                    metadata: Metadata { identity: None, opaque_transport_port: None },
                    logical: (),
                },
            ),
        }
    }

    /// Routes one HTTP request: recognizes the target from the override
    /// header, refuses a destination outside the allow set with
    /// discovery-rejected, and otherwise yields the logical destination the
    /// caller's profile discovery was keyed by.
    pub fn route_request(&self, accept: Accept, req: &Request, profile: Option<Profile>) -> (r:
        Result<HttpLogical, Error>)
        ensures
            ({
                let dst = spec_ingress_dst(req@, accept.orig_dst);
                &&& spec_addr_matches(self.allow_discovery, dst) ==> (r matches Ok(l) && l.orig_dst
                    == accept.orig_dst && l.protocol == accept.protocol && l.profile == profile)
                &&& !spec_addr_matches(self.allow_discovery, dst) ==> (r matches Err(e) && e.kind
                    == ErrorKind::DiscoveryRejected)
            }),
    {
        let t = TargetPerRequest::accept(accept).recognize(req);
        if self.allow_discovery.matches(&t.dst) {
            Ok(HttpLogical { profile, orig_dst: accept.orig_dst, protocol: accept.protocol })
        } else {
            Err(Error::new(ErrorKind::DiscoveryRejected))
        }
    }
}

} // verus!
