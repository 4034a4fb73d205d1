//! The outbound connect stack: loop prevention, the client-TLS decision,
//! and the opaque-transport hint, assembled into a per-endpoint connect plan.

use vstd::prelude::*;
use crate::errors::{Error, ErrorKind};
use crate::identity::{PeerIdentity, PeerIdentityV};
use crate::net::{spec_dec_digits, push_dec_digits, SockAddr};
use crate::opaque::OpaqueHeader;

verus! {

/// The endpoint metadata the resolver attaches: a TLS identity hint and an
/// opaque-transport port hint.
#[derive(Clone, Debug, PartialEq, Eq)]
pub struct Metadata {
    pub identity: Option<Vec<u8>>,
    pub opaque_transport_port: Option<u16>,
}

/// Ghost image of a `Metadata`.
pub struct MetadataV {
    pub identity: Option<Seq<u8>>,
    pub opaque_transport_port: Option<u16>,
}

impl View for Metadata {
    type V = MetadataV;

    open spec fn view(&self) -> MetadataV {
        MetadataV {
            identity: match self.identity {
                Some(n) => Some(n@),
                None => None,
            },
            opaque_transport_port: self.opaque_transport_port,
        }
    }
}

/// A resolved endpoint, as yielded by discovery and consumed by the connect
/// layer, carrying the logical context it was resolved for.
#[derive(Clone, Debug)]
pub struct Endpoint<P> {
    pub addr: SockAddr,
    pub identity: PeerIdentity,
    pub metadata: Metadata,
    pub logical: P,
}

/// A connection policy that fails connections targeting the proxy's own
/// listener.
#[derive(Clone, Copy, Debug, PartialEq, Eq, Structural)]
pub struct PreventLoop {
    pub port: u16,
}

/// An endpoint loops back into the proxy when its address is loopback and
/// its port is the listener's own.
pub open spec fn spec_is_loop_target(port: u16, addr: SockAddr) -> bool {
    addr.ip.spec_is_loopback() && addr.port == port
}

impl From<u16> for PreventLoop {
    fn from(port: u16) -> (r: Self) {
        PreventLoop { port }
    }
}

impl vstd::std_specs::convert::FromSpecImpl<u16> for PreventLoop {
    open spec fn obeys_from_spec() -> bool {
        true
    }

    open spec fn from_spec(port: u16) -> Self {
        PreventLoop { port }
    }
}

impl PreventLoop {
    /// Rejects endpoints that would loop back into this proxy; passes all
    /// others through unchanged.
    pub fn filter<P>(&self, ep: Endpoint<P>) -> (r: Result<Endpoint<P>, Error>)
        ensures
            spec_is_loop_target(self.port, ep.addr) ==> (r matches Err(e) && e.kind
                == ErrorKind::LoopPrevented(self.port) && e.source is None),
            !spec_is_loop_target(self.port, ep.addr) ==> (r matches Ok(out) && out == ep),
    {
        if ep.addr.ip.is_loopback() && ep.addr.port == self.port {
            Err(Error::new(ErrorKind::LoopPrevented(self.port)))
        } else {
            Ok(ep)
        }
    }
}

/// Whether a loop-prevented failure appears anywhere in the chain.
pub open spec fn spec_is_loop(e: Error) -> bool
    decreases e,
{
    ||| e.kind matches ErrorKind::LoopPrevented(_)
    ||| match e.source {
        Some(b) => spec_is_loop(*b),
        None => false,
    }
}

/// Recognizes a loop-prevented failure anywhere in an error chain, so the
/// errors-to-responses layer can serve the loop status for it.
pub fn is_loop(err: &Error) -> (r: bool)
    ensures
        r == spec_is_loop(*err),
    decreases *err,
{
    if let ErrorKind::LoopPrevented(_) = &err.kind {
        return true;
    }
    match err.source.as_ref() {
        Some(b) => is_loop(b),
        None => false,
    }
}

/// The operator-facing description of a loop-prevented failure.
pub open spec fn spec_loop_prevented_message(port: u16) -> Seq<u8> {
    seq![
        0x6fu8, 0x75u8, 0x74u8, 0x62u8, 0x6fu8, 0x75u8, 0x6eu8, 0x64u8, 0x20u8, 0x72u8,
        0x65u8, 0x71u8, 0x75u8, 0x65u8, 0x73u8, 0x74u8, 0x73u8, 0x20u8, 0x6du8, 0x75u8,
        0x73u8, 0x74u8, 0x20u8, 0x6eu8, 0x6fu8, 0x74u8, 0x20u8, 0x74u8, 0x61u8, 0x72u8,
        0x67u8, 0x65u8, 0x74u8, 0x20u8, 0x6cu8, 0x6fu8, 0x63u8, 0x61u8, 0x6cu8, 0x68u8,
        0x6fu8, 0x73u8, 0x74u8, 0x3au8,
    ] + spec_dec_digits(port as nat)
}

/// Renders what a loop-prevented failure displays: the refusal, then the
/// listener port.
pub fn loop_prevented_message(port: u16) -> (r: Vec<u8>)
    ensures
        r@ == spec_loop_prevented_message(port),
{
    let mut v: Vec<u8> = Vec::new();
    v.push(0x6f);
    v.push(0x75);
    v.push(0x74);
    v.push(0x62);
    v.push(0x6f);
    v.push(0x75);
    v.push(0x6e);
    v.push(0x64);
    v.push(0x20);
    v.push(0x72);
    v.push(0x65);
    v.push(0x71);
    v.push(0x75);
    v.push(0x65);
    v.push(0x73);
    v.push(0x74);
    v.push(0x73);
    v.push(0x20);
    v.push(0x6d);
    v.push(0x75);
    v.push(0x73);
    v.push(0x74);
    v.push(0x20);
    v.push(0x6e);
    v.push(0x6f);
    v.push(0x74);
    v.push(0x20);
    v.push(0x74);
    v.push(0x61);
    v.push(0x72);
    v.push(0x67);
    v.push(0x65);
    v.push(0x74);
    v.push(0x20);
    v.push(0x6c);
    v.push(0x6f);
    v.push(0x63);
    v.push(0x61);
    v.push(0x6c);
    v.push(0x68);
    v.push(0x6f);
    v.push(0x73);
    v.push(0x74);
    v.push(0x3a);
    push_dec_digits(port, &mut v);
    proof {
        assert(v@ =~= spec_loop_prevented_message(port));
    }
    v
}

/// How the connection to one endpoint is secured.
#[derive(Clone, Debug, PartialEq, Eq)]
pub enum TlsMode {
    Plain,
    Tls { sni: Vec<u8> },
}

/// Ghost image of a `TlsMode`.
pub enum TlsModeV {
    Plain,
    Tls { sni: Seq<u8> },
}

impl View for TlsMode {
    type V = TlsModeV;

    open spec fn view(&self) -> TlsModeV {
        match self {
            TlsMode::Plain => TlsModeV::Plain,
            TlsMode::Tls { sni } => TlsModeV::Tls { sni: sni@ },
        }
    }
}

/// A client handshake happens exactly when the endpoint advertises a
/// verified identity and this proxy has a local identity to present.
pub open spec fn spec_tls_mode(local: Option<Seq<u8>>, ep_id: PeerIdentityV) -> TlsModeV {
    match (local, ep_id) {
        (Some(_), PeerIdentityV::Verified(n)) => TlsModeV::Tls { sni: n },
        _ => TlsModeV::Plain,
    }
}

/// Everything the transport needs to open one connection: where to connect,
/// the socket options, how to secure it, and the header to write first.
#[derive(Clone, Debug)]
pub struct ConnectPlan {
    pub addr: SockAddr,
    pub keepalive: Option<u64>,
    pub timeout: u64,
    pub tls: TlsMode,
    pub opaque_header: Option<OpaqueHeader>,
}

/// The connect stack: what `stack` assembles. Applying it to an endpoint
/// yields the connect plan, or the loop-prevented failure.
#[derive(Clone, Debug)]
pub struct ConnectStack {
    pub keepalive: Option<u64>,
    pub timeout: u64,
    pub prevent_loop: PreventLoop,
    pub local_identity: Option<Vec<u8>>,
}

/// Assembles the connect stack: TCP options, client TLS, the opaque
/// transport hint, the connect deadline, and loop prevention.
pub fn stack(keepalive: Option<u64>, timeout: u64, server_port: u16, local_identity: Option<
    Vec<u8>,
>) -> (r: ConnectStack)
    ensures
        r.keepalive == keepalive,
        r.timeout == timeout,
        r.prevent_loop.port == server_port,
        r.local_identity == local_identity,
{
    ConnectStack { keepalive, timeout, prevent_loop: PreventLoop { port: server_port }, local_identity }
}

impl ConnectStack {
    /// The ghost image of the local identity.
    pub open spec fn spec_local_identity(&self) -> Option<Seq<u8>> {
        match self.local_identity {
            Some(n) => Some(n@),
            None => None,
        }
    }

    /// Decides how one endpoint is connected to: endpoints that target this
    /// proxy's own listener are refused with the loop-prevented failure;
    /// every other endpoint gets a plan with this stack's socket options,
    /// the TLS mode its identity hint calls for, and the opaque-transport
    /// header when the hint is present.
    pub fn plan<P>(&self, ep: &Endpoint<P>) -> (r: Result<ConnectPlan, Error>)
        ensures
            spec_is_loop_target(self.prevent_loop.port, ep.addr) ==> (r matches Err(e) && e.kind
                == ErrorKind::LoopPrevented(self.prevent_loop.port) && e.source is None),
            !spec_is_loop_target(self.prevent_loop.port, ep.addr) ==> (r matches Ok(p) && {
                &&& p.addr == ep.addr
                &&& p.keepalive == self.keepalive
                &&& p.timeout == self.timeout
                &&& p.tls@ == spec_tls_mode(self.spec_local_identity(), ep.identity@)
                &&& (match ep.metadata.opaque_transport_port {
                    Some(port) => p.opaque_header matches Some(h) && h.port == port
                        && h.name@.len() == 0,
                    None => p.opaque_header is None,
                })
            }),
    {
        if ep.addr.ip.is_loopback() && ep.addr.port == self.prevent_loop.port {
            return Err(Error::new(ErrorKind::LoopPrevented(self.prevent_loop.port)));
        }
        let tls = match (self.local_identity.as_ref(), ep.identity.name()) {
            (Some(_), Some(n)) => TlsMode::Tls { sni: n.clone() },
            _ => TlsMode::Plain,
        };
        let opaque_header = match ep.metadata.opaque_transport_port {
            Some(port) => Some(OpaqueHeader { port, name: Vec::new() }),
            None => None,
        };
        Ok(
            ConnectPlan {
                addr: ep.addr,
                keepalive: self.keepalive,
                timeout: self.timeout,
                tls,
                opaque_header,
            },
        )
    }
}

} // verus!
