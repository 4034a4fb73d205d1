//! The gateway: accepts mTLS'd HTTP from peer proxies and forwards it to the
//! local cluster. A request is served only when the peer presented an
//! identity, the request names a resolvable destination, and discovery
//! produced a profile for it; a `Forwarded` hop naming this gateway is a
//! loop and is refused.

use vstd::prelude::*;
use crate::errors::ErrorKind;
use crate::endpoint::{spec_headers, Target};
use crate::http::{bytes_eq, Header, HeaderV, Request, RequestV};
use crate::identity::{PeerIdentity, PeerIdentityV};
use crate::net::{push_bytes, NameAddr};
use crate::profiles::Profile;

verus! {

// ---------------------------------------------------------------------------
// Parsing `Forwarded` headers: the `by=` parameter of each hop.
// ---------------------------------------------------------------------------

/// The end of the segment starting at `from`: the next `;` or `,`, or the
/// end of the bytes.
pub open spec fn spec_seg_end(s: Seq<u8>, from: int) -> int
    decreases s.len() - from when 0 <= from <= s.len()
{
    if from >= s.len() {
        from
    } else if s[from] == 0x3b || s[from] == 0x2c {
        from
    } else {
        spec_seg_end(s, from + 1)
    }
}

/// The first index in `[from, end)` holding a non-space byte, or `end`.
pub open spec fn spec_skip_spaces(s: Seq<u8>, from: int, end: int) -> int
    decreases end - from when 0 <= from <= end <= s.len()
{
    if from >= end {
        from
    } else if s[from] == 0x20 {
        spec_skip_spaces(s, from + 1, end)
    } else {
        from
    }
}

/// One past the last index in `[start, upto)` holding a non-space byte, or
/// `start`.
pub open spec fn spec_rskip_spaces(s: Seq<u8>, start: int, upto: int) -> int
    decreases upto - start when 0 <= start <= upto <= s.len()
{
    if upto <= start {
        upto
    } else if s[upto - 1] == 0x20 {
        spec_rskip_spaces(s, start, upto - 1)
    } else {
        upto
    }
}

/// Whether the segment `s[start..end]`, with surrounding spaces ignored, is
/// a `by=` parameter whose (optionally quoted) value is `id`.
pub open spec fn spec_segment_by(s: Seq<u8>, start: int, end: int, id: Seq<u8>) -> bool {
    let a = spec_skip_spaces(s, start, end);
    let b = spec_rskip_spaces(s, a, end);
    let qa = if b - (a + 3) >= 2 && s[a + 3] == 0x22 && s[b - 1] == 0x22 {
        a + 4
    } else {
        a + 3
    };
    let qb = if b - (a + 3) >= 2 && s[a + 3] == 0x22 && s[b - 1] == 0x22 {
        b - 1
    } else {
        b
    };
    &&& a + 3 <= b
    &&& s[a] == 0x62
    &&& s[a + 1] == 0x79
    &&& s[a + 2] == 0x3d
    &&& qb - qa == id.len()
    &&& (forall|j: int| 0 <= j < id.len() ==> s[qa + j] == #[trigger] id[j])
}

/// Whether any segment of `s` at or after `from` is `by=id`.
pub open spec fn spec_fwd_has_by_from(s: Seq<u8>, from: int, id: Seq<u8>) -> bool
    decreases s.len() - from when 0 <= from <= s.len()
{
    let e = spec_seg_end(s, from);
    if e >= s.len() || e < from {
        spec_segment_by(s, from, s.len() as int, id)
    } else {
        spec_segment_by(s, from, e, id) || spec_fwd_has_by_from(s, e + 1, id)
    }
}

/// Whether any hop of the `Forwarded` value `s` carries `by=id`.
pub open spec fn spec_fwd_has_by(s: Seq<u8>, id: Seq<u8>) -> bool {
    spec_fwd_has_by_from(s, 0, id)
}

/// The `forwarded` header name.
pub open spec fn spec_name_forwarded() -> Seq<u8> {
    seq![0x66u8, 0x6fu8, 0x72u8, 0x77u8, 0x61u8, 0x72u8, 0x64u8, 0x65u8, 0x64u8]
}

pub fn name_forwarded() -> (r: Vec<u8>)
    ensures
        r@ == spec_name_forwarded(),
{
    let mut v: Vec<u8> = Vec::new();
    v.push(0x66);
    v.push(0x6f);
    v.push(0x72);
    v.push(0x77);
    v.push(0x61);
    v.push(0x72);
    v.push(0x64);
    v.push(0x65);
    v.push(0x64);
    proof {
        assert(v@ =~= spec_name_forwarded());
    }
    v
}

/// Whether any `Forwarded` header among `hs` has a hop with `by=id`.
pub open spec fn spec_any_forwarded_by(hs: Seq<HeaderV>, id: Seq<u8>) -> bool {
    exists|i: int|
        0 <= i < hs.len() && (#[trigger] hs[i]).name == spec_name_forwarded() && spec_fwd_has_by(
            hs[i].value,
            id,
        )
}

fn seg_end(v: &Vec<u8>, from: usize) -> (r: usize)
    requires
        from <= v@.len(),
    ensures
        r == spec_seg_end(v@, from as int),
        from <= r <= v@.len(),
{
    let mut i: usize = from;
    while i < v.len()
        invariant
            from <= i <= v@.len(),
            spec_seg_end(v@, from as int) == spec_seg_end(v@, i as int),
        decreases v@.len() - i,
    {
        let b = v[i];
        if b == 0x3b || b == 0x2c {
            return i;
        }
        i = i + 1;
    }
    i
}

fn skip_spaces(v: &Vec<u8>, from: usize, end: usize) -> (r: usize)
    requires
        from <= end <= v@.len(),
    ensures
        r == spec_skip_spaces(v@, from as int, end as int),
        from <= r <= end,
{
    let mut i: usize = from;
    while i < end
        invariant
            from <= i <= end <= v@.len(),
            spec_skip_spaces(v@, from as int, end as int) == spec_skip_spaces(
                v@,
                i as int,
                end as int,
            ),
        decreases end - i,
    {
        if v[i] != 0x20 {
            return i;
        }
        i = i + 1;
    }
    i
}

fn rskip_spaces(v: &Vec<u8>, start: usize, upto: usize) -> (r: usize)
    requires
        start <= upto <= v@.len(),
    ensures
        r == spec_rskip_spaces(v@, start as int, upto as int),
        start <= r <= upto,
{
    let mut i: usize = upto;
    while i > start
        invariant
            start <= i <= upto <= v@.len(),
            spec_rskip_spaces(v@, start as int, upto as int) == spec_rskip_spaces(
                v@,
                start as int,
                i as int,
            ),
        decreases i,
    {
        if v[i - 1] != 0x20 {
            return i;
        }
        i = i - 1;
    }
    i
}

/// Checks one segment for `by=id`.
#[verifier::loop_isolation(false)]
fn segment_by(v: &Vec<u8>, start: usize, end: usize, id: &Vec<u8>) -> (r: bool)
    requires
        start <= end <= v@.len(),
    ensures
        r == spec_segment_by(v@, start as int, end as int, id@),
{
    let a = skip_spaces(v, start, end);
    let b = rskip_spaces(v, a, end);
    if b < 3 || b - 3 < a {
        return false;
    }
    if !(v[a] == 0x62 && v[a + 1] == 0x79 && v[a + 2] == 0x3d) {
        return false;
    }
    let quoted = b - (a + 3) >= 2 && v[a + 3] == 0x22 && v[b - 1] == 0x22;
    let qa = if quoted {
        a + 4
    } else {
        a + 3
    };
    let qb = if quoted {
        b - 1
    } else {
        b
    };
    if qb - qa != id.len() {
        return false;
    }
    let mut j: usize = 0;
    while j < id.len()
        invariant
            j <= id@.len(),
            qa + id@.len() == qb <= v@.len(),
            forall|k: int| 0 <= k < j ==> v@[qa + k] == #[trigger] id@[k],
        decreases id@.len() - j,
    {
        if v[qa + j] != id[j] {
            return false;
        }
        j = j + 1;
    }
    true
}

/// Scans the hops of a `Forwarded` value at or after `from` for `by=id`.
fn fwd_has_by_from(v: &Vec<u8>, from: usize, id: &Vec<u8>) -> (r: bool)
    requires
        from <= v@.len(),
    ensures
        r == spec_fwd_has_by_from(v@, from as int, id@),
    decreases v@.len() - from,
{
    let e = seg_end(v, from);
    if e >= v.len() {
        segment_by(v, from, v.len(), id)
    } else {
        if segment_by(v, from, e, id) {
            true
        } else {
            fwd_has_by_from(v, e + 1, id)
        }
    }
}

/// Whether any `Forwarded` header of the request names `id` as a `by=` hop.
pub fn has_forwarded_loop(headers: &Vec<Header>, id: &Vec<u8>) -> (r: bool)
    ensures
        r == spec_any_forwarded_by(spec_headers(headers@), id@),
{
    let ghost hs = spec_headers(headers@);
    let fname = name_forwarded();
    let mut i: usize = 0;
    while i < headers.len()
        invariant
            i <= headers@.len(),
            hs == spec_headers(headers@),
            fname@ == spec_name_forwarded(),
            forall|j: int|
                0 <= j < i ==> !((#[trigger] hs[j]).name == spec_name_forwarded()
                    && spec_fwd_has_by(hs[j].value, id@)),
        decreases headers@.len() - i,
    {
        if bytes_eq(&headers[i].name, &fname) {
            if fwd_has_by_from(&headers[i].value, 0, id) {
                proof {
                    assert(hs[i as int].name == spec_name_forwarded() && spec_fwd_has_by(
                        hs[i as int].value,
                        id@,
                    ));
                }
                return true;
            }
        }
        i = i + 1;
    }
    false
}

// ---------------------------------------------------------------------------
// Building the appended `Forwarded` hop.
// ---------------------------------------------------------------------------

/// `by=<by>;for=<client>;host=<host>;proto=https`.
pub open spec fn spec_forwarded_value(by: Seq<u8>, client: Seq<u8>, host: Seq<u8>) -> Seq<u8> {
    seq![0x62u8, 0x79u8, 0x3du8] + by + seq![0x3bu8, 0x66u8, 0x6fu8, 0x72u8, 0x3du8] + client
        + seq![0x3bu8, 0x68u8, 0x6fu8, 0x73u8, 0x74u8, 0x3du8] + host + seq![
        0x3bu8,
        0x70u8,
        0x72u8,
        0x6fu8,
        0x74u8,
        0x6fu8,
        0x3du8,
        0x68u8,
        0x74u8,
        0x74u8,
        0x70u8,
        0x73u8,
    ]
}

/// Renders the hop this gateway appends for a request it forwards.
pub fn forwarded_value(by: &Vec<u8>, client: &Vec<u8>, host: &Vec<u8>) -> (r: Vec<u8>)
    ensures
        r@ == spec_forwarded_value(by@, client@, host@),
{
    let mut v: Vec<u8> = Vec::new();
    v.push(0x62);
    v.push(0x79);
    v.push(0x3d);
    push_bytes(&mut v, by);
    v.push(0x3b);
    v.push(0x66);
    v.push(0x6f);
    v.push(0x72);
    v.push(0x3d);
    push_bytes(&mut v, client);
    v.push(0x3b);
    v.push(0x68);
    v.push(0x6f);
    v.push(0x73);
    v.push(0x74);
    v.push(0x3d);
    push_bytes(&mut v, host);
    v.push(0x3b);
    v.push(0x70);
    v.push(0x72);
    v.push(0x6f);
    v.push(0x74);
    v.push(0x6f);
    v.push(0x3d);
    v.push(0x68);
    v.push(0x74);
    v.push(0x74);
    v.push(0x70);
    v.push(0x73);
    proof {
        assert(v@ =~= spec_forwarded_value(by@, client@, host@));
    }
    v
}

// ---------------------------------------------------------------------------
// The gateway itself.
// ---------------------------------------------------------------------------

/// A gateway bound to one inbound target, with every per-target check
/// already decided.
#[derive(Debug)]
pub enum Gateway {
    /// The request named no resolvable destination.
    NoAuthority,
    /// The peer presented no identity, or this gateway has none.
    NoIdentity,
    /// Discovery produced no profile for the destination.
    BadDomain,
    /// All per-target checks passed.
    Enabled { local_id: Vec<u8>, client_id: Vec<u8>, host: Vec<u8>, dst: NameAddr },
}

/// Builds a gateway per inbound target.
#[derive(Debug)]
pub struct MakeGateway {
    pub local_id: PeerIdentity,
}

impl MakeGateway {
    pub fn new(local_id: PeerIdentity) -> (r: MakeGateway)
        ensures
            r.local_id@ == local_id@,
    {
        MakeGateway { local_id }
    }

    /// Decides the per-target checks, in order: the destination must be a
    /// name, discovery must have produced a profile, and both the peer and
    /// this gateway must hold an identity.
    pub fn new_gateway(&self, profile: Option<Profile>, target: Target) -> (r: Gateway)
        ensures
            target.dst@ is Socket <==> r is NoAuthority,
            target.dst@ is Name && profile is None <==> r is BadDomain,
            target.dst@ is Name && profile is Some && !(target.tls_client_id@ is Verified
                && self.local_id@ is Verified) <==> r is NoIdentity,
            (r matches Gateway::Enabled { local_id, client_id, host, dst } ==> {
                &&& target.dst@ is Name
                &&& profile is Some
                &&& self.local_id@ matches PeerIdentityV::Verified(l) && local_id@ == l
                &&& target.tls_client_id@ matches PeerIdentityV::Verified(c) && client_id@ == c
                &&& dst@ == target.dst@->Name_0
                &&& host@ == target.dst@->Name_0.spec_authority()
            }),
    {
        let dst = match target.dst {
            crate::net::Addr::Name(n) => n,
            crate::net::Addr::Socket(_) => {
                return Gateway::NoAuthority;
            },
        };
        if profile.is_none() {
            return Gateway::BadDomain;
        }
        let client_id = match target.tls_client_id.name() {
            Some(n) => n.clone(),
            None => {
                return Gateway::NoIdentity;
            },
        };
        let local_id = match self.local_id.name() {
            Some(n) => n.clone(),
            None => {
                return Gateway::NoIdentity;
            },
        };
        let host = dst.as_http_authority();
        Gateway::Enabled { local_id, client_id, host, dst }
    }
}

impl Gateway {
    /// Serves one request: refused targets fail with their decided error;
    /// an enabled gateway refuses a request whose `Forwarded` chain already
    /// names it, and otherwise appends its own hop and hands the request to
    /// the outbound pipeline.
    pub fn apply(&self, req: Request) -> (r: Result<Request, ErrorKind>)
        ensures
            self is NoAuthority ==> (r matches Err(k) && k == ErrorKind::NoRoute),
            self is BadDomain ==> (r matches Err(k) && k == ErrorKind::DiscoveryRejected),
            self is NoIdentity ==> (r matches Err(k) && k == ErrorKind::IdentityRequired),
            (self matches Gateway::Enabled { local_id, client_id, host, dst } ==> {
                &&& spec_any_forwarded_by(req@.headers, local_id@) ==> (r matches Err(k) && k
                    == ErrorKind::LoopDetected)
                &&& !spec_any_forwarded_by(req@.headers, local_id@) ==> (r matches Ok(q) && {
                    &&& q@.method == req@.method
                    &&& q@.version == req@.version
                    &&& q@.authority == req@.authority
                    &&& q@.path == req@.path
                    &&& q@.headers == req@.headers.push(
                        HeaderV {
                            name: spec_name_forwarded(),
                            value: spec_forwarded_value(local_id@, client_id@, host@),
                        },
                    )
                })
            }),
    {
        match self {
            Gateway::NoAuthority => Err(ErrorKind::NoRoute),
            Gateway::BadDomain => Err(ErrorKind::DiscoveryRejected),
            Gateway::NoIdentity => Err(ErrorKind::IdentityRequired),
            Gateway::Enabled { local_id, client_id, host, dst: _ } => {
                if has_forwarded_loop(&req.headers, local_id) {
                    return Err(ErrorKind::LoopDetected);
                }
                let value = forwarded_value(local_id, client_id, host);
                let mut out = req;
                out.headers.push(Header { name: name_forwarded(), value });
                proof {
                    assert(out@.headers =~= req@.headers.push(
                        HeaderV {
                            name: spec_name_forwarded(),
                            value: spec_forwarded_value(local_id@, client_id@, host@),
                        },
                    ));
                }
                Ok(out)
            },
        }
    }
}

} // verus!
