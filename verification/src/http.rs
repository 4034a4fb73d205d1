//! A plain-value model of the HTTP requests the stack routes: version,
//! method, target URI, and headers, together with header lookup and the
//! normalize-URI step of the server pipeline.

use vstd::prelude::*;

verus! {

/// The HTTP protocol version a connection or request speaks.
#[derive(Clone, Copy, Debug, PartialEq, Eq, Hash, Structural)]
pub enum Version {
    Http1,
    H2,
}

/// Client settings derived from the protocol version.
#[derive(Clone, Copy, Debug, PartialEq, Eq, Hash, Structural)]
pub enum Settings {
    Http1,
    H2,
}

impl Settings {
    /// The settings a client uses to speak the given version.
    pub open spec fn spec_of_version(v: Version) -> Settings {
        match v {
            Version::Http1 => Settings::Http1,
            Version::H2 => Settings::H2,
        }
    }

    pub fn of_version(v: Version) -> (r: Settings)
        ensures
            r == Settings::spec_of_version(v),
    {
        match v {
            Version::Http1 => Settings::Http1,
            Version::H2 => Settings::H2,
        }
    }
}

/// One request header.
#[derive(Clone, Debug, PartialEq, Eq)]
pub struct Header {
    pub name: Vec<u8>,
    pub value: Vec<u8>,
}

/// Ghost image of a `Header`.
pub struct HeaderV {
    pub name: Seq<u8>,
    pub value: Seq<u8>,
}

impl View for Header {
    type V = HeaderV;

    open spec fn view(&self) -> HeaderV {
        HeaderV { name: self.name@, value: self.value@ }
    }
}

/// A request as the router sees it. The authority is `Some` exactly when the
/// request is in absolute form.
#[derive(Clone, Debug, PartialEq, Eq)]
pub struct Request {
    pub method: Vec<u8>,
    pub version: Version,
    pub authority: Option<Vec<u8>>,
    pub path: Vec<u8>,
    pub headers: Vec<Header>,
}

/// Ghost image of a `Request`.
pub struct RequestV {
    pub method: Seq<u8>,
    pub version: Version,
    pub authority: Option<Seq<u8>>,
    pub path: Seq<u8>,
    pub headers: Seq<HeaderV>,
}

impl View for Request {
    type V = RequestV;

    open spec fn view(&self) -> RequestV {
        RequestV {
            method: self.method@,
            version: self.version,
            authority: match self.authority {
                Some(a) => Some(a@),
                None => None,
            },
            path: self.path@,
            headers: self.headers@.map_values(|h: Header| h@),
        }
    }
}

/// Byte-for-byte equality of two byte vectors.
pub fn bytes_eq(a: &Vec<u8>, b: &Vec<u8>) -> (r: bool)
    ensures
        r == (a@ == b@),
{
    if a.len() != b.len() {
        return false;
    }
    let mut i: usize = 0;
    while i < a.len()
        invariant
            i <= a@.len(),
            a@.len() == b@.len(),
            forall|j: int| 0 <= j < i ==> a@[j] == b@[j],
        decreases a@.len() - i,
    {
        if a[i] != b[i] {
            return false;
        }
        i = i + 1;
    }
    proof {
        assert(a@ =~= b@);
    }
    true
}

/// The value of the first header named `name`, if any.
pub open spec fn spec_first_header(hs: Seq<HeaderV>, name: Seq<u8>) -> Option<Seq<u8>>
    decreases hs.len(),
{
    if hs.len() == 0 {
        None
    } else if hs[0].name == name {
        Some(hs[0].value)
    } else {
        spec_first_header(hs.drop_first(), name)
    }
}

/// Looks up the first header named `name`.
pub fn first_header<'a>(headers: &'a Vec<Header>, name: &Vec<u8>) -> (r: Option<&'a Vec<u8>>)
    ensures
        match r {
            Some(v) => spec_first_header(headers@.map_values(|h: Header| h@), name@) == Some(v@),
            None => spec_first_header(headers@.map_values(|h: Header| h@), name@) is None,
        },
{
    let ghost hs = headers@.map_values(|h: Header| h@);
    proof {
        assert(hs.skip(0) =~= hs);
    }
    let mut i: usize = 0;
    while i < headers.len()
        invariant
            i <= headers@.len(),
            hs == headers@.map_values(|h: Header| h@),
            spec_first_header(hs, name@) == spec_first_header(hs.skip(i as int), name@),
        decreases headers@.len() - i,
    {
        let matched = bytes_eq(&headers[i].name, name);
        proof {
            assert(hs.skip(i as int)[0] == hs[i as int]);
            assert(hs.skip(i as int).drop_first() =~= hs.skip(i + 1));
        }
        if matched {
            return Some(&headers[i].value);
        }
        i = i + 1;
    }
    proof {
        assert(hs.skip(i as int).len() == 0);
    }
    None
}

/// The lowercase header names the stack consults.
pub fn host_header_name() -> (r: Vec<u8>)
    ensures
        r@ == spec_host_header_name(),
{
    let mut v: Vec<u8> = Vec::new();
    v.push(0x68);  // h
    v.push(0x6f);  // o
    v.push(0x73);  // s
    v.push(0x74);  // t
    proof {
        assert(v@ =~= spec_host_header_name());
    }
    v
}

pub open spec fn spec_host_header_name() -> Seq<u8> {
    seq![0x68u8, 0x6fu8, 0x73u8, 0x74u8]
}

/// Normalize-URI: an origin-form request is rewritten to absolute form. The
/// authority is taken from the `Host` header when present, and otherwise from
/// the caller's fallback (derived from the original destination address).
pub open spec fn spec_normalize(r: RequestV, fallback: Seq<u8>) -> RequestV {
    if r.authority is Some {
        r
    } else {
        match spec_first_header(r.headers, spec_host_header_name()) {
            Some(h) => RequestV { authority: Some(h), ..r },
            None => RequestV { authority: Some(fallback), ..r },
        }
    }
}

/// Rewrites `req` to absolute form in place.
pub fn normalize_uri(req: &mut Request, fallback: &Vec<u8>)
    ensures
        final (req)@ == spec_normalize(old(req)@, fallback@),
{
    if req.authority.is_some() {
        return;
    }
    let name = host_header_name();
    let new_authority = match first_header(&req.headers, &name) {
        Some(h) => h.clone(),
        None => fallback.clone(),
    };
    req.authority = Some(new_authority);
}

/// Normalization is idempotent: a second application changes nothing.
pub proof fn lemma_normalize_idempotent(r: RequestV, fallback: Seq<u8>)
    ensures
        spec_normalize(spec_normalize(r, fallback), fallback) == spec_normalize(r, fallback),
{
}

} // verus!
