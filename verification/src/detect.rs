//! Protocol detection: classify the first bytes peeked from an accepted
//! connection as the HTTP/2 preface, an HTTP/1 request line, or neither.
//! The peeked bytes are re-prepended to the stream by the caller; on ports
//! marked opaque, detection is skipped altogether.

use vstd::prelude::*;
use crate::http::Version;

verus! {

/// What detection concluded for a connection.
#[derive(Clone, Copy, Debug, PartialEq, Eq, Structural)]
pub enum Protocol {
    Http(Version),
    Opaque,
}

/// The HTTP/2 connection preface.
pub open spec fn spec_h2_preface() -> Seq<u8> {
    seq![
        0x50u8, 0x52u8, 0x49u8, 0x20u8, 0x2au8, 0x20u8, 0x48u8, 0x54u8, 0x54u8, 0x50u8,
        0x2fu8, 0x32u8, 0x2eu8, 0x30u8, 0x0du8, 0x0au8, 0x0du8, 0x0au8, 0x53u8, 0x4du8,
        0x0du8, 0x0au8, 0x0du8, 0x0au8,
    ]
}

pub fn h2_preface() -> (r: Vec<u8>)
    ensures
        r@ == spec_h2_preface(),
{
    let mut v: Vec<u8> = Vec::new();
    v.push(0x50);
    v.push(0x52);
    v.push(0x49);
    v.push(0x20);
    v.push(0x2a);
    v.push(0x20);
    v.push(0x48);
    v.push(0x54);
    v.push(0x54);
    v.push(0x50);
    v.push(0x2f);
    v.push(0x32);
    v.push(0x2e);
    v.push(0x30);
    v.push(0x0d);
    v.push(0x0a);
    v.push(0x0d);
    v.push(0x0a);
    v.push(0x53);
    v.push(0x4d);
    v.push(0x0d);
    v.push(0x0a);
    v.push(0x0d);
    v.push(0x0a);
    proof {
        assert(v@ =~= spec_h2_preface());
    }
    v
}

/// Whether the peeked bytes begin with the HTTP/2 preface.
pub open spec fn spec_is_h2(s: Seq<u8>) -> bool {
    s.len() >= spec_h2_preface().len() && s.subrange(0, spec_h2_preface().len() as int)
        == spec_h2_preface()
}

/// Whether the peeked bytes begin like an HTTP/1 request line: a method
/// token of one to sixteen ASCII uppercase letters, then a space.
pub open spec fn spec_is_h1(s: Seq<u8>) -> bool {
    exists|i: int|
        1 <= i <= 16 && i < s.len() && s[i] == 0x20 && (forall|j: int|
            0 <= j < i ==> 0x41 <= #[trigger] s[j] <= 0x5a)
}

/// The classification of the peeked bytes: the HTTP/2 preface wins, then an
/// HTTP/1 request line, and anything else is opaque TCP.
pub open spec fn spec_detect(s: Seq<u8>) -> Protocol {
    if spec_is_h2(s) {
        Protocol::Http(Version::H2)
    } else if spec_is_h1(s) {
        Protocol::Http(Version::Http1)
    } else {
        Protocol::Opaque
    }
}

/// Classifies peeked bytes. A timeout before enough bytes arrive is the
/// caller's concern: it hands whatever was peeked, and non-HTTP bytes fall
/// through to the opaque forwarder.
#[verifier::loop_isolation(false)]
pub fn detect(peeked: &Vec<u8>) -> (r: Protocol)
    ensures
        r == spec_detect(peeked@),
{
    let preface = h2_preface();
    if peeked.len() >= preface.len() {
        let mut i: usize = 0;
        let mut is_h2 = true;
        while i < preface.len()
            invariant
                i <= preface@.len() <= peeked@.len(),
                is_h2 == (forall|j: int| 0 <= j < i ==> peeked@[j] == preface@[j]),
            decreases preface@.len() - i,
        {
            if peeked[i] != preface[i] {
                is_h2 = false;
                proof {
                    assert(peeked@[i as int] != preface@[i as int]);
                }
                break ;
            }
            i = i + 1;
        }
        if is_h2 {
            proof {
                assert(peeked@.subrange(0, spec_h2_preface().len() as int) =~= spec_h2_preface());
            }
            return Protocol::Http(Version::H2);
        }
        proof {
            let sub = peeked@.subrange(0, spec_h2_preface().len() as int);
            assert(!spec_is_h2(peeked@)) by {
                let j = choose|j: int| 0 <= j < preface@.len() && peeked@[j] != preface@[j];
                assert(sub[j] != spec_h2_preface()[j]);
            }
        }
    } else {
        proof {
            assert(!spec_is_h2(peeked@));
        }
    }
    // Scan for the method token of an HTTP/1 request line.
    let mut i: usize = 0;
    let limit = if peeked.len() < 17 {
        peeked.len()
    } else {
        17
    };
    while i < limit
        invariant
            i <= limit <= peeked@.len(),
            limit == if peeked@.len() < 17 { peeked@.len() as int } else { 17int },
            forall|j: int| 0 <= j < i ==> 0x41 <= #[trigger] peeked@[j] <= 0x5a,
            forall|k: int|
                1 <= k <= 16 && k < i ==> peeked@[k] != 0x20,
        decreases limit - i,
    {
        let b = peeked[i];
        if b == 0x20 {
            if i >= 1 {
                proof {
                    assert(spec_is_h1(peeked@));
                }
                return Protocol::Http(Version::Http1);
            }
            proof {
                assert(!spec_is_h1(peeked@)) by {
                    if spec_is_h1(peeked@) {
                        let k = choose|k: int|
                            1 <= k <= 16 && k < peeked@.len() && peeked@[k] == 0x20 && (forall|
                                j: int,
                            | 0 <= j < k ==> 0x41 <= #[trigger] peeked@[j] <= 0x5a);
                        assert(0x41 <= peeked@[0] <= 0x5a);
                    }
                }
            }
            return Protocol::Opaque;
        }
        if !(b >= 0x41 && b <= 0x5a) {
            proof {
                assert(!spec_is_h1(peeked@)) by {
                    if spec_is_h1(peeked@) {
                        let k = choose|k: int|
                            1 <= k <= 16 && k < peeked@.len() && peeked@[k] == 0x20 && (forall|
                                j: int,
                            | 0 <= j < k ==> 0x41 <= #[trigger] peeked@[j] <= 0x5a);
                        if i < k {
                            assert(0x41 <= peeked@[i as int] <= 0x5a);
                        } else {
                            assert(peeked@[k] != 0x20);
                        }
                    }
                }
            }
            return Protocol::Opaque;
        }
        i = i + 1;
    }
    proof {
        assert(!spec_is_h1(peeked@)) by {
            if spec_is_h1(peeked@) {
                let k = choose|k: int|
                    1 <= k <= 16 && k < peeked@.len() && peeked@[k] == 0x20 && (forall|j: int|
                        0 <= j < k ==> 0x41 <= #[trigger] peeked@[j] <= 0x5a);
                assert(k < limit);
                assert(peeked@[k] != 0x20);
            }
        }
    }
    Protocol::Opaque
}

/// Whether detection is skipped for the port: ports listed opaque forward
/// without peeking.
#[verifier::loop_isolation(false)]
pub fn is_opaque_port(opaque_ports: &Vec<u16>, port: u16) -> (r: bool)
    ensures
        r == opaque_ports@.contains(port),
{
    let mut i: usize = 0;
    while i < opaque_ports.len()
        invariant
            i <= opaque_ports@.len(),
            forall|j: int| 0 <= j < i ==> opaque_ports@[j] != port,
        decreases opaque_ports@.len() - i,
    {
        if opaque_ports[i] == port {
            proof {
                assert(opaque_ports@[i as int] == port);
            }
            return true;
        }
        i = i + 1;
    }
    proof {
        assert(forall|j: int| 0 <= j < opaque_ports@.len() ==> opaque_ports@[j] != port);
    }
    false
}

} // verus!
