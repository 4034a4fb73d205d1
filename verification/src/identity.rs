//! Peer identity as established (or not) during a TLS handshake.

use vstd::prelude::*;

verus! {

/// Why no verified peer name is available on a connection.
#[derive(Clone, Copy, Debug, PartialEq, Eq, Hash, Structural)]
pub enum NoPeerIdReason {
    PortSkipped,
    NoPeerIdFromRemote,
    Loopback,
    LocalIdentityDisabled,
    IngressNonHttp,
}

/// A conditional peer identity: a verified peer name, or the reason for its
/// absence. An absent identity is never silently upgraded.
#[derive(Debug, PartialEq, Eq, Hash)]
pub enum PeerIdentity {
    Verified(Vec<u8>),
    Absent(NoPeerIdReason),
}

/// Ghost image of a `PeerIdentity`.
pub enum PeerIdentityV {
    Verified(Seq<u8>),
    Absent(NoPeerIdReason),
}

impl View for PeerIdentity {
    type V = PeerIdentityV;

    open spec fn view(&self) -> PeerIdentityV {
        match self {
            PeerIdentity::Verified(n) => PeerIdentityV::Verified(n@),
            PeerIdentity::Absent(r) => PeerIdentityV::Absent(*r),
        }
    }
}

impl Clone for PeerIdentity {
    fn clone(&self) -> (r: Self)
        ensures
            r@ == self@,
    {
        match self {
            PeerIdentity::Verified(n) => PeerIdentity::Verified(n.clone()),
            PeerIdentity::Absent(reason) => PeerIdentity::Absent(*reason),
        }
    }
}

impl PeerIdentity {
    /// The verified peer name, when there is one.
    pub fn name(&self) -> (r: Option<&Vec<u8>>)
        ensures
            match r {
                Some(n) => self@ is Verified && n@ == self@->Verified_0,
                None => self@ is Absent,
            },
    {
        match self {
            PeerIdentity::Verified(n) => Some(n),
            PeerIdentity::Absent(_) => None,
        }
    }

    pub fn is_verified(&self) -> (r: bool)
        ensures
            r == (self@ is Verified),
    {
        match self {
            PeerIdentity::Verified(_) => true,
            PeerIdentity::Absent(_) => false,
        }
    }
}

} // verus!
