//! ServiceProfiles: the per-destination policy document delivered by the
//! control plane, its per-route matchers and label maps, and the selection
//! of the first matching route.

use vstd::prelude::*;
use crate::http::{Request, RequestV};
use crate::net::{Addr, NameAddr, SockAddr};

verus! {

#[verifier::external_type_specification]
#[verifier::external_body]
#[verifier::reject_recursive_types(K)]
#[verifier::reject_recursive_types(V)]
#[verifier::reject_recursive_types(S)]
pub struct ExIndexMap<K, V, S>(indexmap::IndexMap<K, V, S>);

/// The key-value entries a label map holds.
pub uninterp spec fn label_entries(m: indexmap::IndexMap<String, String>) -> Map<
    Seq<char>,
    Seq<char>,
>;

/// The empty label map.
pub open spec fn spec_no_labels() -> Map<Seq<char>, Seq<char>> {
    Map::empty()
}

/// Relies on indexmap::IndexMap::new: creates an empty map.
#[verifier::external_body]
fn labels_new() -> (m: indexmap::IndexMap<String, String>)
    ensures
        label_entries(m) == spec_no_labels(),
{
    indexmap::IndexMap::new()
}

/// Relies on indexmap::IndexMap::insert: replaces the value of an existing
/// equivalent key, returning the old value in `Some`, or appends a new entry
/// and returns `None`.
#[verifier::external_body]
fn labels_insert(m: &mut indexmap::IndexMap<String, String>, k: String, v: String) -> (prev:
    Option<String>)
    ensures
        label_entries(*final (m)) == label_entries(*old(m)).insert(k@, v@),
        match prev {
            Some(p) => label_entries(*old(m)).contains_key(k@) && p@ == label_entries(*old(m))[k@],
            None => !label_entries(*old(m)).contains_key(k@),
        },
{
    m.insert(k, v)
}

/// The map that a list of pairs builds up, later pairs winning equal keys.
pub open spec fn spec_labels_map(pairs: Seq<(Seq<char>, Seq<char>)>) -> Map<Seq<char>, Seq<char>>
    decreases pairs.len(),
{
    if pairs.len() == 0 {
        Map::empty()
    } else {
        spec_labels_map(pairs.drop_last()).insert(pairs.last().0, pairs.last().1)
    }
}

/// Builds a label map from key-value pairs, in order.
pub fn labels_from_pairs(pairs: Vec<(String, String)>) -> (m: indexmap::IndexMap<String, String>)
    ensures
        label_entries(m) == spec_labels_map(
            pairs@.map_values(|p: (String, String)| (p.0@, p.1@)),
        ),
{
    let ghost all = pairs@.map_values(|p: (String, String)| (p.0@, p.1@));
    let mut m = labels_new();
    let mut i: usize = 0;
    proof {
        assert(all.subrange(0, 0) =~= Seq::<(Seq<char>, Seq<char>)>::empty());
    }
    while i < pairs.len()
        invariant
            i <= pairs@.len(),
            all == pairs@.map_values(|p: (String, String)| (p.0@, p.1@)),
            label_entries(m) == spec_labels_map(all.subrange(0, i as int)),
        decreases pairs@.len() - i,
    {
        let k = pairs[i].0.clone();
        let v = pairs[i].1.clone();
        labels_insert(&mut m, k, v);
        proof {
            let pre = all.subrange(0, i as int);
            let cur = all.subrange(0, i + 1);
            assert(cur.drop_last() =~= pre);
            assert(cur.last() == all[i as int]);
        }
        i = i + 1;
    }
    proof {
        assert(all.subrange(0, all.len() as int) =~= all);
    }
    m
}

/// The predicates a route matcher may put on a request: an exact method and
/// a path prefix. A matcher with neither matches every request.
#[derive(Clone, Debug, PartialEq, Eq)]
pub struct RouteMatch {
    pub method: Option<Vec<u8>>,
    pub path_prefix: Option<Vec<u8>>,
}

/// Ghost image of a `RouteMatch`.
pub struct RouteMatchV {
    pub method: Option<Seq<u8>>,
    pub path_prefix: Option<Seq<u8>>,
}

impl View for RouteMatch {
    type V = RouteMatchV;

    open spec fn view(&self) -> RouteMatchV {
        RouteMatchV {
            method: match self.method {
                Some(m) => Some(m@),
                None => None,
            },
            path_prefix: match self.path_prefix {
                Some(p) => Some(p@),
                None => None,
            },
        }
    }
}

impl RouteMatchV {
    /// Whether the matcher accepts the request.
    pub open spec fn spec_matches(self, r: RequestV) -> bool {
        &&& match self.method {
            Some(m) => r.method == m,
            None => true,
        }
        &&& match self.path_prefix {
            Some(p) => p.len() <= r.path.len() && r.path.subrange(0, p.len() as int) == p,
            None => true,
        }
    }
}

/// One route of a profile: a matcher, the labels its metrics carry, and the
/// per-route timeout, if any.
#[derive(Debug)]
pub struct Route {
    pub matcher: RouteMatch,
    pub labels: indexmap::IndexMap<String, String>,
    pub timeout: Option<u64>,
}

impl Route {
    pub fn new(matcher: RouteMatch, labels: indexmap::IndexMap<String, String>, timeout: Option<
        u64,
    >) -> (r: Route)
        ensures
            r.matcher == matcher,
            r.labels == labels,
            r.timeout == timeout,
    {
        Route { matcher, labels, timeout }
    }

    /// The labels attached to this route's metrics.
    pub fn labels(&self) -> (r: &indexmap::IndexMap<String, String>)
        ensures
            r == self.labels,
    {
        &self.labels
    }
}

/// A profile revision for one destination, as delivered on the watch channel.
#[derive(Debug)]
pub struct Profile {
    /// The destination's canonical name, when the control plane knows one.
    pub name: Option<Vec<u8>>,
    /// Routes, matched in declared order.
    pub http_routes: Vec<Route>,
    /// Ports on which protocol detection is skipped.
    pub opaque_ports: Vec<u16>,
    /// When set, traffic bypasses balancing and goes to this exact endpoint.
    pub endpoint: Option<SockAddr>,
}

/// Whether the matcher of `routes[i]` accepts the request.
pub open spec fn spec_route_matches(routes: Seq<RouteMatchV>, i: int, r: RequestV) -> bool {
    routes[i].spec_matches(r)
}

/// The declared-order first matching route, if any.
pub open spec fn spec_first_route(routes: Seq<RouteMatchV>, r: RequestV) -> Option<int> {
    if exists|i: int| 0 <= i < routes.len() && spec_route_matches(routes, i, r) {
        Some(
            choose|i: int|
                0 <= i < routes.len() && spec_route_matches(routes, i, r) && forall|j: int|
                    0 <= j < i ==> !spec_route_matches(routes, j, r),
        )
    } else {
        None
    }
}

/// Checks `m` against `req`.
pub fn route_match_check(m: &RouteMatch, req: &Request) -> (r: bool)
    ensures
        r == m@.spec_matches(req@),
{
    let method_ok = match m.method.as_ref() {
        Some(wanted) => crate::http::bytes_eq(&req.method, wanted),
        None => true,
    };
    if !method_ok {
        return false;
    }
    match m.path_prefix.as_ref() {
        Some(p) => {
            if p.len() > req.path.len() {
                return false;
            }
            let mut i: usize = 0;
            while i < p.len()
                invariant
                    i <= p@.len() <= req.path@.len(),
                    m@.path_prefix == Some(p@),
                    m@.method matches Some(w) ==> req@.method == w,
                    forall|j: int| 0 <= j < i ==> req.path@[j] == p@[j],
                decreases p@.len() - i,
            {
                if req.path[i] != p[i] {
                    proof {
                        let sub = req.path@.subrange(0, p@.len() as int);
                        assert(sub[i as int] == req.path@[i as int]);
                        assert(sub != p@) by {
                            assert(sub[i as int] != p@[i as int]);
                        }
                        assert(!m@.spec_matches(req@));
                    }
                    return false;
                }
                i = i + 1;
            }
            proof {
                assert(req.path@.subrange(0, p@.len() as int) =~= p@);
            }
            true
        },
        None => true,
    }
}

/// Routes are matched in declared order; the first match is selected and
/// supplies the request's classifier and timeout.
pub fn match_route<'a>(routes: &'a Vec<Route>, req: &Request) -> (r: Option<(usize, &'a Route)>)
    ensures
        ({
            let ms = routes@.map_values(|rt: Route| rt.matcher@);
            match r {
                Some((i, rt)) => spec_first_route(ms, req@) == Some(i as int) && rt == &routes@[i
                    as int],
                None => spec_first_route(ms, req@) is None,
            }
        }),
{
    let ghost ms = routes@.map_values(|rt: Route| rt.matcher@);
    let mut i: usize = 0;
    while i < routes.len()
        invariant
            i <= routes@.len(),
            ms == routes@.map_values(|rt: Route| rt.matcher@),
            forall|j: int| 0 <= j < i ==> !spec_route_matches(ms, j, req@),
        decreases routes@.len() - i,
    {
        if route_match_check(&routes[i].matcher, req) {
            proof {
                assert(spec_route_matches(ms, i as int, req@));
            }
            return Some((i, &routes[i]));
        }
        i = i + 1;
    }
    None
}

/// Where traffic for a target goes after its profile is consulted.
#[derive(Debug)]
pub enum Concrete {
    /// The profile pins an exact endpoint: balancing is bypassed.
    Endpoint(SockAddr),
    /// A named destination: a balancer over its resolved endpoints.
    Balanced(NameAddr),
    /// An unnamed destination: forward to the original address, no
    /// discovery.
    Forward(SockAddr),
}

/// Resolves a target against its profile: a profile-pinned endpoint wins;
/// otherwise a named destination is balanced, and an unnamed one is
/// forwarded to the original socket address.
pub fn concrete_of(profile: &Option<Profile>, dst: &Addr, orig_dst: SockAddr) -> (r: Concrete)
    ensures
        (match profile {
            Some(p) if p.endpoint is Some => r == Concrete::Endpoint(p.endpoint->0),
            _ => match dst {
                Addr::Name(n) => r matches Concrete::Balanced(b) && b@ == n@,
                Addr::Socket(_) => r == Concrete::Forward(orig_dst),
            },
        }),
{
    if let Some(p) = profile.as_ref() {
        if let Some(e) = p.endpoint.as_ref() {
            return Concrete::Endpoint(*e);
        }
    }
    match dst {
        Addr::Name(n) => Concrete::Balanced(NameAddr { name: n.name.clone(), port: n.port }),
        Addr::Socket(_) => Concrete::Forward(orig_dst),
    }
}

} // verus!
