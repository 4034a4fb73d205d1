//! The opaque-transport header: the first bytes written on a connection that
//! tunnels a non-HTTP stream, conveying the original target port and name.
//!
//! Framing: a two-byte big-endian length, then the port as a little-endian
//! base-128 varint, then the length-prefixed name.

use vstd::prelude::*;

verus! {

/// The decoded opaque-transport header.
#[derive(Clone, Debug, PartialEq, Eq)]
pub struct OpaqueHeader {
    pub port: u16,
    pub name: Vec<u8>,
}

/// Ghost image of an `OpaqueHeader`.
pub struct OpaqueHeaderV {
    pub port: u16,
    pub name: Seq<u8>,
}

impl View for OpaqueHeader {
    type V = OpaqueHeaderV;

    open spec fn view(&self) -> OpaqueHeaderV {
        OpaqueHeaderV { port: self.port, name: self.name@ }
    }
}

/// Little-endian base-128 varint encoding of `n`.
pub open spec fn spec_varint(n: nat) -> Seq<u8>
    decreases n,
{
    if n < 0x80 {
        seq![n as u8]
    } else {
        seq![(0x80 + n % 0x80) as u8] + spec_varint(n / 0x80)
    }
}

/// The payload of the header: varint port, one length byte, then the name.
pub open spec fn spec_payload(h: OpaqueHeaderV) -> Seq<u8> {
    spec_varint(h.port as nat) + seq![h.name.len() as u8] + h.name
}

/// The framed bytes: a two-byte big-endian payload length, then the payload.
pub open spec fn spec_frame(h: OpaqueHeaderV) -> Seq<u8> {
    let p = spec_payload(h);
    seq![(p.len() / 256) as u8, (p.len() % 256) as u8] + p
}

/// Appends the varint encoding of `n` to `out`.
fn push_varint(n: u16, out: &mut Vec<u8>)
    ensures
        final (out)@ == old(out)@ + spec_varint(n as nat),
    decreases n,
{
    if n < 0x80 {
        out.push(n as u8);
        proof {
            assert(out@ =~= old(out)@ + spec_varint(n as nat));
        }
    } else {
        out.push(0x80 + (n % 0x80) as u8);
        push_varint(n / 0x80, out);
        proof {
            assert(out@ =~= old(out)@ + spec_varint(n as nat));
        }
    }
}

/// A varint of a sixteen-bit value takes at most three bytes.
proof fn lemma_varint_len(n: nat)
    requires
        n <= 0xffff,
    ensures
        spec_varint(n).len() == if n < 0x80 {
            1int
        } else if n < 0x4000 {
            2int
        } else {
            3int
        },
    decreases n,
{
    if n >= 0x80 {
        lemma_varint_len(n / 0x80);
    }
}

impl OpaqueHeader {
    /// Encodes the header as it is written on the wire.
    pub fn encode(&self) -> (r: Vec<u8>)
        requires
            self.name@.len() <= 255,
        ensures
            r@ == spec_frame(self@),
    {
        let mut payload: Vec<u8> = Vec::new();
        push_varint(self.port, &mut payload);
        proof {
            lemma_varint_len(self.port as nat);
        }
        payload.push(self.name.len() as u8);
        let mut i: usize = 0;
        while i < self.name.len()
            invariant
                i <= self.name@.len(),
                payload@ =~= spec_varint(self.port as nat) + seq![self.name@.len() as u8]
                    + self.name@.subrange(0, i as int),
            decreases self.name@.len() - i,
        {
            payload.push(self.name[i]);
            proof {
                assert(self.name@.subrange(0, i + 1) =~= self.name@.subrange(0, i as int).push(
                    self.name@[i as int],
                ));
            }
            i = i + 1;
        }
        proof {
            assert(self.name@.subrange(0, self.name@.len() as int) =~= self.name@);
            assert(payload@ =~= spec_payload(self@));
        }
        let n = payload.len();
        let mut out: Vec<u8> = Vec::new();
        out.push((n / 256) as u8);
        out.push((n % 256) as u8);
        let mut j: usize = 0;
        while j < payload.len()
            invariant
                j <= payload@.len(),
                payload@.len() < 65536,
                out@ =~= seq![
                    (payload@.len() / 256) as u8,
                    (payload@.len() % 256) as u8,
                ] + payload@.subrange(0, j as int),
            decreases payload@.len() - j,
        {
            out.push(payload[j]);
            proof {
                assert(payload@.subrange(0, j + 1) =~= payload@.subrange(0, j as int).push(
                    payload@[j as int],
                ));
            }
            j = j + 1;
        }
        proof {
            assert(payload@.subrange(0, payload@.len() as int) =~= payload@);
            assert(out@ =~= spec_frame(self@));
        }
        out
    }
}

/// Decodes the port varint at the head of a payload: at most three bytes
/// for a sixteen-bit value. Returns the port and the offset after it.
pub open spec fn spec_decode_port(p: Seq<u8>) -> Option<(u16, int)> {
    if p.len() >= 1 && p[0] < 0x80 {
        Some((p[0] as u16, 1int))
    } else if p.len() >= 2 && p[0] >= 0x80 && p[1] < 0x80 && (p[0] - 0x80) + 128 * (
    p[1] as int) <= 0xffff {
        Some(((((p[0] - 0x80) + 128 * (p[1] as int))) as u16, 2int))
    } else if p.len() >= 3 && p[0] >= 0x80 && p[1] >= 0x80 && p[2] < 0x80 && (p[0] - 0x80) + 128
        * ((p[1] - 0x80) as int) + 16384 * (p[2] as int) <= 0xffff {
        Some(((((p[0] - 0x80) + 128 * ((p[1] - 0x80) as int) + 16384 * (p[2] as int))) as u16, 3int))
    } else {
        None
    }
}

/// Decodes one whole frame: the two-byte length must cover the rest
/// exactly, then the port varint, then the length-prefixed name.
pub open spec fn spec_decode(s: Seq<u8>) -> Option<OpaqueHeaderV> {
    if s.len() < 2 || s.len() != 2 + (s[0] as int) * 256 + (s[1] as int) {
        None
    } else {
        let p = s.subrange(2, s.len() as int);
        match spec_decode_port(p) {
            None => None,
            Some((port, off)) => {
                if p.len() >= off + 1 && p.len() == off + 1 + (p[off] as int) {
                    Some(OpaqueHeaderV { port, name: p.subrange(off + 1, p.len() as int) })
                } else {
                    None
                }
            },
        }
    }
}

/// A frame decodes back to the header it was encoded from.
pub proof fn lemma_frame_round_trip(h: OpaqueHeaderV)
    requires
        h.name.len() <= 255,
    ensures
        spec_decode(spec_frame(h)) == Some(h),
{
    let port = h.port as nat;
    let v = spec_varint(port);
    if port < 0x80 {
        assert(v =~= seq![(port) as u8]);
    } else if port < 0x4000 {
        assert(1 <= port / 0x80 < 0x80) by (nonlinear_arith)
            requires
                0x80 <= port < 0x4000,
        ;
        assert(spec_varint(port / 0x80) =~= seq![(port / 0x80) as u8]);
        assert(v =~= seq![(0x80 + port % 0x80) as u8, (port / 0x80) as u8]);
        assert((v[0] - 0x80) + 128 * (v[1] as int) == port) by (nonlinear_arith)
            requires
                v[0] == (0x80 + port % 0x80) as u8,
                v[1] == (port / 0x80) as u8,
                0x80 <= port < 0x4000,
        ;
    } else {
        let m = port / 0x80;
        assert(0x80 <= m < 0x4000 && 1 <= m / 0x80 < 0x80) by (nonlinear_arith)
            requires
                0x4000 <= port <= 0xffff,
                m == port / 0x80,
        ;
        assert(spec_varint(m / 0x80) =~= seq![(m / 0x80) as u8]);
        assert(spec_varint(m) =~= seq![(0x80 + m % 0x80) as u8, (m / 0x80) as u8]);
        assert(v =~= seq![(0x80 + port % 0x80) as u8, (0x80 + m % 0x80) as u8, (m / 0x80) as u8]);
        assert((v[0] - 0x80) + 128 * ((v[1] - 0x80) as int) + 16384 * (v[2] as int) == port)
            by (nonlinear_arith)
            requires
                v[0] == (0x80 + port % 0x80) as u8,
                v[1] == (0x80 + (port / 0x80) % 0x80) as u8,
                v[2] == ((port / 0x80) / 0x80) as u8,
                0x4000 <= port <= 0xffff,
        ;
    }
    let s = spec_frame(h);
    let p0 = spec_payload(h);
    assert(s.subrange(2, s.len() as int) =~= p0);
    let off = v.len() as int;
    assert(spec_decode_port(p0) == Some((h.port, off)));
    assert(p0[off] == h.name.len() as u8);
    assert(p0.subrange(off + 1, p0.len() as int) =~= h.name);
}

/// Decodes a whole frame, as the receiving side of the tunnel does before
/// rewriting the target port.
pub fn decode_frame(s: &Vec<u8>) -> (r: Option<OpaqueHeader>)
    ensures
        match r {
            Some(h) => spec_decode(s@) == Some(h@),
            None => spec_decode(s@) is None,
        },
{
    if s.len() < 2 {
        return None;
    }
    let n: usize = (s[0] as usize) * 256 + (s[1] as usize);
    if s.len() - 2 != n {
        return None;
    }
    let ghost p = s@.subrange(2, s@.len() as int);
    // The port varint.
    let (port, off): (u16, usize) = if s.len() >= 3 && s[2] < 0x80 {
        ((s[2] as u16), 1)
    } else if s.len() >= 4 && s[2] >= 0x80 && s[3] < 0x80 {
        (((s[2] - 0x80) as u16) + 128 * (s[3] as u16), 2)
    } else if s.len() >= 5 && s[2] >= 0x80 && s[3] >= 0x80 && s[4] < 0x80 && s[4] <= 3 {
        (((s[2] - 0x80) as u16) + 128 * ((s[3] - 0x80) as u16) + 16384 * (s[4] as u16), 3)
    } else {
        proof {
            assert(p.len() >= 1 ==> p[0] == s@[2]);
            assert(p.len() >= 2 ==> p[1] == s@[3]);
            assert(p.len() >= 3 ==> p[2] == s@[4]);
            if p.len() >= 3 && p[0] >= 0x80 && p[1] >= 0x80 && p[2] < 0x80 && (p[0] - 0x80) + 128
                * ((p[1] - 0x80) as int) + 16384 * (p[2] as int) <= 0xffff {
                assert(p[2] <= 3) by (nonlinear_arith)
                    requires
                        (p[0] - 0x80) + 128 * ((p[1] - 0x80) as int) + 16384 * (p[2] as int)
                            <= 0xffff,
                        0 <= p[0] - 0x80,
                        0 <= p[1] - 0x80,
                        0 <= p[2],
                ;
            }
            assert(spec_decode_port(p) is None);
        }
        return None;
    };
    proof {
        assert(p[0] == s@[2]);
        assert(p.len() >= 2 ==> p[1] == s@[3]);
        assert(p.len() >= 3 ==> p[2] == s@[4]);
        assert(spec_decode_port(p) == Some((port, off as int)));
    }
    if s.len() < 2 + off + 1 {
        return None;
    }
    let name_len: usize = s[2 + off] as usize;
    if s.len() != 2 + off + 1 + name_len {
        proof {
            assert(p[off as int] == s@[2 + off]);
        }
        return None;
    }
    let mut name: Vec<u8> = Vec::new();
    let mut i: usize = 2 + off + 1;
    while i < s.len()
        invariant
            2 + off + 1 <= i <= s@.len(),
            name@ =~= s@.subrange(2 + off + 1, i as int),
        decreases s@.len() - i,
    {
        name.push(s[i]);
        proof {
            assert(name@ =~= s@.subrange(2 + off + 1, i + 1));
        }
        i = i + 1;
    }
    proof {
        assert(p[off as int] == s@[2 + off]);
        assert(name@ =~= p.subrange(off + 1, p.len() as int));
    }
    Some(OpaqueHeader { port, name })
}

} // verus!
