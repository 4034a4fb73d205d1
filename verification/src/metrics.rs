//! The label values that transport and endpoint metrics are keyed by. Only
//! the label data is modeled here; encoding and scraping are external.

use vstd::prelude::*;
use crate::identity::PeerIdentity;

verus! {

/// Whether the traffic was accepted on the inbound or outbound side.
#[derive(Clone, Copy, Debug, PartialEq, Eq, Hash, Structural)]
pub enum Direction {
    In,
    Out,
}

/// The TLS identity recorded on a connection's labels.
#[derive(Clone, Debug, PartialEq, Eq)]
pub enum TlsId {
    ClientId(Vec<u8>),
    ServerId(Vec<u8>),
}

/// Labels attached to per-endpoint connect metrics.
#[derive(Debug)]
pub struct EndpointLabels {
    pub direction: Direction,
    pub authority: Option<Vec<u8>>,
    pub labels: Option<indexmap::IndexMap<String, String>>,
    pub tls_id: Option<TlsId>,
}

/// The key a transport-level metric series is registered under.
#[derive(Debug)]
pub enum TransportKey {
    Accept { direction: Direction, peer_id: PeerIdentity },
    Connect(EndpointLabels),
}

} // verus!
