//! Network addressing model: IP addresses, socket addresses, named
//! addresses, and the logical `Addr` that routing decisions are made over.
//!
//! An `Addr` is parsed from authority-shaped bytes (`host:port`) where the
//! host is either an IPv4 literal or a DNS-style name.

use vstd::prelude::*;

verus! {

/// An IP address, either four dotted octets or a 128-bit value.
#[derive(Clone, Copy, Debug, PartialEq, Eq, Hash, Structural)]
pub enum IpAddress {
    V4(u8, u8, u8, u8),
    V6(u128),
}

impl IpAddress {
    /// True exactly for 127.0.0.0/8 and ::1.
    pub open spec fn spec_is_loopback(self) -> bool {
        match self {
            IpAddress::V4(a, _, _, _) => a == 127,
            IpAddress::V6(v) => v == 1,
        }
    }

    pub fn is_loopback(&self) -> (r: bool)
        ensures
            r == self.spec_is_loopback(),
    {
        match self {
            IpAddress::V4(a, _, _, _) => *a == 127,
            IpAddress::V6(v) => *v == 1,
        }
    }
}

/// A socket address: an IP address together with a port.
#[derive(Clone, Copy, Debug, PartialEq, Eq, Hash, Structural)]
pub struct SockAddr {
    pub ip: IpAddress,
    pub port: u16,
}

/// A DNS-style name together with a port.
#[derive(Clone, Debug, PartialEq, Eq, Hash)]
pub struct NameAddr {
    pub name: Vec<u8>,
    pub port: u16,
}

/// Ghost image of a `NameAddr`.
pub struct NameAddrV {
    pub name: Seq<u8>,
    pub port: u16,
}

impl View for NameAddr {
    type V = NameAddrV;

    open spec fn view(&self) -> NameAddrV {
        NameAddrV { name: self.name@, port: self.port }
    }
}

/// A logical destination: a resolvable name or a raw socket address.
#[derive(Clone, Debug, PartialEq, Eq, Hash)]
pub enum Addr {
    Name(NameAddr),
    Socket(SockAddr),
}

/// Ghost image of an `Addr`.
pub enum AddrV {
    Name(NameAddrV),
    Socket(SockAddr),
}

impl View for Addr {
    type V = AddrV;

    open spec fn view(&self) -> AddrV {
        match self {
            Addr::Name(n) => AddrV::Name(n@),
            Addr::Socket(s) => AddrV::Socket(*s),
        }
    }
}

impl Addr {
    pub open spec fn spec_port(self) -> u16 {
        match self {
            Addr::Name(n) => n.port,
            Addr::Socket(s) => s.port,
        }
    }

    pub fn port(&self) -> (r: u16)
        ensures
            r == self.spec_port(),
    {
        match self {
            Addr::Name(n) => n.port,
            Addr::Socket(s) => s.port,
        }
    }

    /// The name of the destination, when it has one.
    pub fn name_addr(&self) -> (r: Option<&NameAddr>)
        ensures
            match r {
                Some(n) => self is Name && n == self->Name_0,
                None => self is Socket,
            },
    {
        match self {
            Addr::Name(n) => Some(n),
            Addr::Socket(_) => None,
        }
    }
}

// ---------------------------------------------------------------------------
// Byte-sequence helpers shared by the parsers.
// ---------------------------------------------------------------------------

/// True when the byte is an ASCII decimal digit.
pub open spec fn spec_is_digit(b: u8) -> bool {
    0x30 <= b <= 0x39
}

pub open spec fn spec_all_digits(s: Seq<u8>) -> bool {
    forall|i: int| 0 <= i < s.len() ==> spec_is_digit(#[trigger] s[i])
}

/// Decimal value of ASCII digit bytes, most significant first.
pub open spec fn spec_dec_value(s: Seq<u8>) -> nat
    decreases s.len(),
{
    if s.len() == 0 {
        0
    } else {
        spec_dec_value(s.drop_last()) * 10 + (s.last() - 0x30) as nat
    }
}

/// Extending a digit string never lowers its value.
pub proof fn lemma_dec_value_prefix(s: Seq<u8>, i: int)
    requires
        0 <= i <= s.len(),
    ensures
        spec_dec_value(s.subrange(0, i)) <= spec_dec_value(s),
    decreases s.len() - i,
{
    if i == s.len() {
        assert(s.subrange(0, i) =~= s);
    } else {
        lemma_dec_value_prefix(s, i + 1);
        let t = s.subrange(0, i + 1);
        assert(t.drop_last() =~= s.subrange(0, i));
        assert(spec_dec_value(t) == spec_dec_value(s.subrange(0, i)) * 10 + (t.last() - 0x30) as nat);
    }
}

/// Index of the first occurrence of `b` in `s` at or after `from`.
pub open spec fn spec_find(s: Seq<u8>, b: u8, from: int) -> Option<int>
    decreases s.len() - from when 0 <= from <= s.len()
{
    if from >= s.len() {
        None
    } else if s[from] == b {
        Some(from)
    } else {
        spec_find(s, b, from + 1)
    }
}

/// Index of the last occurrence of `b` in `s` before `upto`.
pub open spec fn spec_rfind(s: Seq<u8>, b: u8, upto: int) -> Option<int>
    decreases upto when 0 <= upto <= s.len()
{
    if upto <= 0 {
        None
    } else if s[upto - 1] == b {
        Some(upto - 1)
    } else {
        spec_rfind(s, b, upto - 1)
    }
}

/// Finds the last occurrence of `b` in `s`.
pub fn rfind_byte(s: &Vec<u8>, b: u8) -> (r: Option<usize>)
    ensures
        match r {
            Some(i) => spec_rfind(s@, b, s@.len() as int) == Some(i as int) && i < s@.len(),
            None => spec_rfind(s@, b, s@.len() as int) is None,
        },
{
    let mut i: usize = s.len();
    while i > 0
        invariant
            i <= s@.len(),
            spec_rfind(s@, b, s@.len() as int) == spec_rfind(s@, b, i as int),
        decreases i,
    {
        if s[i - 1] == b {
            return Some(i - 1);
        }
        i = i - 1;
    }
    None
}

// ---------------------------------------------------------------------------
// Port, octet, and name grammar.
// ---------------------------------------------------------------------------

/// A port is one or more ASCII digits whose value fits in sixteen bits.
pub open spec fn spec_parse_port(s: Seq<u8>) -> Option<u16> {
    if s.len() >= 1 && spec_all_digits(s) && spec_dec_value(s) <= 0xffff {
        Some(spec_dec_value(s) as u16)
    } else {
        None
    }
}

/// An IPv4 octet: one to three digits, no leading zero, value at most 255.
pub open spec fn spec_parse_octet(s: Seq<u8>) -> Option<u8> {
    if 1 <= s.len() <= 3 && spec_all_digits(s) && (s.len() == 1 || s[0] != 0x30)
        && spec_dec_value(s) <= 255 {
        Some(spec_dec_value(s) as u8)
    } else {
        None
    }
}

/// Bytes a DNS-style name may hold: ASCII letters, digits, '-' and '.'.
pub open spec fn spec_is_name_byte(b: u8) -> bool {
    ||| 0x61 <= b <= 0x7a  // a-z
    ||| 0x41 <= b <= 0x5a  // A-Z
    ||| spec_is_digit(b)
    ||| b == 0x2d  // '-'
    ||| b == 0x2e  // '.'
}

/// A valid name: 1 to 253 name bytes, neither starting nor ending with '.'.
pub open spec fn spec_is_valid_name(s: Seq<u8>) -> bool {
    &&& 1 <= s.len() <= 253
    &&& (forall|i: int| 0 <= i < s.len() ==> spec_is_name_byte(#[trigger] s[i]))
    &&& s[0] != 0x2e
    &&& s[s.len() - 1] != 0x2e
}

/// Parses the digits of `s[start..end]` as a decimal value capped at 0xffff.
///
/// Returns `None` when a byte is not a digit or the value exceeds the cap.
fn parse_decimal_capped(s: &Vec<u8>, start: usize, end: usize) -> (r: Option<u16>)
    requires
        start <= end <= s@.len(),
    ensures
        ({
            let digits = s@.subrange(start as int, end as int);
            match r {
                Some(v) => spec_all_digits(digits) && spec_dec_value(digits) == v,
                None => !(spec_all_digits(digits) && spec_dec_value(digits) <= 0xffff),
            }
        }),
{
    let ghost digits = s@.subrange(start as int, end as int);
    let mut acc: u32 = 0;
    let mut i: usize = start;
    while i < end
        invariant
            start <= i <= end <= s@.len(),
            digits == s@.subrange(start as int, end as int),
            spec_all_digits(digits.subrange(0, i - start)),
            acc == spec_dec_value(digits.subrange(0, i - start)),
            acc <= 0xffff,
        decreases end - i,
    {
        let b = s[i];
        if !(b >= 0x30 && b <= 0x39) {
            proof {
                assert(digits[i - start] == b);
                assert(!spec_all_digits(digits));
            }
            return None;
        }
        let next: u32 = acc * 10 + (b - 0x30) as u32;
        proof {
            let pre = digits.subrange(0, i - start);
            let cur = digits.subrange(0, i + 1 - start);
            assert(cur.drop_last() =~= pre);
            assert(cur.last() == b);
            assert(spec_dec_value(cur) == spec_dec_value(pre) * 10 + (b - 0x30) as nat);
        }
        if next > 0xffff {
            proof {
                lemma_dec_value_prefix(digits, i + 1 - start);
            }
            return None;
        }
        acc = next;
        i = i + 1;
    }
    proof {
        assert(digits.subrange(0, end - start) =~= digits);
    }
    Some(acc as u16)
}

/// Parses `s[start..end]` as a port number.
pub fn parse_port(s: &Vec<u8>, start: usize, end: usize) -> (r: Option<u16>)
    requires
        start <= end <= s@.len(),
    ensures
        r == spec_parse_port(s@.subrange(start as int, end as int)),
{
    if start == end {
        return None;
    }
    parse_decimal_capped(s, start, end)
}

/// Parses `s[start..end]` as an IPv4 octet.
fn parse_octet(s: &Vec<u8>, start: usize, end: usize) -> (r: Option<u8>)
    requires
        start <= end <= s@.len(),
    ensures
        r == spec_parse_octet(s@.subrange(start as int, end as int)),
{
    let ghost digits = s@.subrange(start as int, end as int);
    let len = end - start;
    if len < 1 || len > 3 {
        return None;
    }
    if len > 1 && s[start] == 0x30 {
        proof {
            assert(digits[0] == 0x30);
        }
        return None;
    }
    match parse_decimal_capped(s, start, end) {
        Some(v) => {
            if v <= 255 {
                Some(v as u8)
            } else {
                proof {
                    assert(spec_dec_value(digits) > 255);
                }
                None
            }
        },
        None => None,
    }
}

/// The IPv4-literal grammar over `s`: four octets separated by dots.
pub open spec fn spec_parse_ipv4(s: Seq<u8>) -> Option<IpAddress> {
    match spec_find(s, 0x2e, 0) {
        None => None,
        Some(d1) => match spec_find(s, 0x2e, d1 + 1) {
            None => None,
            Some(d2) => match spec_find(s, 0x2e, d2 + 1) {
                None => None,
                Some(d3) => {
                    let o1 = spec_parse_octet(s.subrange(0, d1));
                    let o2 = spec_parse_octet(s.subrange(d1 + 1, d2));
                    let o3 = spec_parse_octet(s.subrange(d2 + 1, d3));
                    let o4 = spec_parse_octet(s.subrange(d3 + 1, s.len() as int));
                    if o1 is Some && o2 is Some && o3 is Some && o4 is Some {
                        Some(IpAddress::V4(o1->Some_0, o2->Some_0, o3->Some_0, o4->Some_0))
                    } else {
                        None
                    }
                },
            },
        },
    }
}

/// Parses `s[..end]` as an IPv4 literal.
fn parse_ipv4(s: &Vec<u8>, end: usize) -> (r: Option<IpAddress>)
    requires
        end <= s@.len(),
    ensures
        r == spec_parse_ipv4(s@.subrange(0, end as int)),
{
    let ghost host = s@.subrange(0, end as int);
    let d1 = match find_in_prefix(s, end, 0x2e, 0) {
        Some(i) => i,
        None => {
            return None;
        },
    };
    let d2 = match find_in_prefix(s, end, 0x2e, d1 + 1) {
        Some(i) => i,
        None => {
            return None;
        },
    };
    let d3 = match find_in_prefix(s, end, 0x2e, d2 + 1) {
        Some(i) => i,
        None => {
            return None;
        },
    };
    proof {
        assert(host.subrange(0, d1 as int) =~= s@.subrange(0, d1 as int));
        assert(host.subrange(d1 + 1, d2 as int) =~= s@.subrange(d1 + 1, d2 as int));
        assert(host.subrange(d2 + 1, d3 as int) =~= s@.subrange(d2 + 1, d3 as int));
        assert(host.subrange(d3 + 1, host.len() as int) =~= s@.subrange(d3 + 1, end as int));
    }
    let o1 = parse_octet(s, 0, d1);
    let o2 = parse_octet(s, d1 + 1, d2);
    let o3 = parse_octet(s, d2 + 1, d3);
    let o4 = parse_octet(s, d3 + 1, end);
    match (o1, o2, o3, o4) {
        (Some(a), Some(b), Some(c), Some(d)) => Some(IpAddress::V4(a, b, c, d)),
        _ => None,
    }
}

/// Finds the first occurrence of `b` in `s[from..end]`, phrased over the
/// prefix `s[..end]` so that callers parsing a host part can use it.
fn find_in_prefix(s: &Vec<u8>, end: usize, b: u8, from: usize) -> (r: Option<usize>)
    requires
        from <= end <= s@.len(),
    ensures
        match r {
            Some(i) => spec_find(s@.subrange(0, end as int), b, from as int) == Some(i as int)
                && from <= i < end,
            None => spec_find(s@.subrange(0, end as int), b, from as int) is None,
        },
{
    let ghost prefix = s@.subrange(0, end as int);
    let mut i: usize = from;
    while i < end
        invariant
            from <= i <= end <= s@.len(),
            prefix == s@.subrange(0, end as int),
            spec_find(prefix, b, from as int) == spec_find(prefix, b, i as int),
        decreases end - i,
    {
        if s[i] == b {
            proof {
                assert(prefix[i as int] == s@[i as int]);
            }
            return Some(i);
        }
        proof {
            assert(prefix[i as int] == s@[i as int]);
        }
        i = i + 1;
    }
    None
}

/// Checks that `s[..end]` is a valid DNS-style name.
fn is_valid_name(s: &Vec<u8>, end: usize) -> (r: bool)
    requires
        end <= s@.len(),
    ensures
        r == spec_is_valid_name(s@.subrange(0, end as int)),
{
    let ghost host = s@.subrange(0, end as int);
    if end < 1 || end > 253 {
        return false;
    }
    if s[0] == 0x2e || s[end - 1] == 0x2e {
        proof {
            assert(host[0] == s@[0]);
            assert(host[host.len() - 1] == s@[end - 1]);
        }
        return false;
    }
    let mut i: usize = 0;
    while i < end
        invariant
            i <= end <= s@.len(),
            host == s@.subrange(0, end as int),
            forall|j: int| 0 <= j < i ==> spec_is_name_byte(#[trigger] host[j]),
        decreases end - i,
    {
        let b = s[i];
        let ok = (b >= 0x61 && b <= 0x7a) || (b >= 0x41 && b <= 0x5a) || (b >= 0x30 && b <= 0x39)
            || b == 0x2d || b == 0x2e;
        if !ok {
            proof {
                assert(host[i as int] == b);
            }
            return false;
        }
        i = i + 1;
    }
    proof {
        assert(host[0] == s@[0]);
        assert(host[host.len() - 1] == s@[end - 1]);
    }
    true
}

// ---------------------------------------------------------------------------
// Rendering back to bytes.
// ---------------------------------------------------------------------------

/// The decimal digits of `n`, most significant first, no leading zeros.
pub open spec fn spec_dec_digits(n: nat) -> Seq<u8>
    decreases n,
{
    if n < 10 {
        seq![(0x30 + n) as u8]
    } else {
        spec_dec_digits(n / 10).push((0x30 + n % 10) as u8)
    }
}

/// Appends the decimal digits of `n` to `out`.
pub fn push_dec_digits(n: u16, out: &mut Vec<u8>)
    ensures
        final (out)@ == old(out)@ + spec_dec_digits(n as nat),
    decreases n,
{
    if n < 10 {
        out.push(0x30 + n as u8);
        proof {
            assert(out@ =~= old(out)@ + spec_dec_digits(n as nat));
        }
    } else {
        push_dec_digits(n / 10, out);
        out.push(0x30 + (n % 10) as u8);
        proof {
            assert(out@ =~= old(out)@ + spec_dec_digits(n as nat));
        }
    }
}

/// Appends all of `src` to `dst`.
pub fn push_bytes(dst: &mut Vec<u8>, src: &Vec<u8>)
    ensures
        final (dst)@ == old(dst)@ + src@,
{
    let mut i: usize = 0;
    while i < src.len()
        invariant
            i <= src@.len(),
            dst@ =~= old(dst)@ + src@.subrange(0, i as int),
        decreases src@.len() - i,
    {
        dst.push(src[i]);
        proof {
            assert(src@.subrange(0, i + 1) =~= src@.subrange(0, i as int).push(src@[i as int]));
        }
        i = i + 1;
    }
    proof {
        assert(src@.subrange(0, src@.len() as int) =~= src@);
        assert(dst@ =~= old(dst)@ + src@);
    }
}

/// The decimal renderer is faithful: its digits are digits, and they read
/// back as the value rendered.
pub proof fn lemma_dec_digits_value(n: nat)
    ensures
        spec_dec_value(spec_dec_digits(n)) == n,
        spec_all_digits(spec_dec_digits(n)),
        spec_dec_digits(n).len() >= 1,
    decreases n,
{
    if n < 10 {
        let d = spec_dec_digits(n);
        assert(d =~= seq![(0x30 + n) as u8]);
        assert(d.drop_last() =~= Seq::<u8>::empty());
        assert(spec_dec_value(Seq::<u8>::empty()) == 0);
        assert(spec_dec_value(d) == n);
    } else {
        lemma_dec_digits_value(n / 10);
        let d = spec_dec_digits(n);
        assert(d =~= spec_dec_digits(n / 10).push((0x30 + n % 10) as u8));
        assert(d.drop_last() =~= spec_dec_digits(n / 10));
        assert(spec_dec_value(d) == (n / 10) * 10 + n % 10);
        assert((n / 10) * 10 + n % 10 == n) by (nonlinear_arith);
        assert forall|i: int| 0 <= i < d.len() implies spec_is_digit(#[trigger] d[i]) by {
            if i < d.len() - 1 {
                assert(d[i] == spec_dec_digits(n / 10)[i]);
            }
        }
    }
}

impl NameAddrV {
    /// The authority form of the name: `name:port`.
    pub open spec fn spec_authority(self) -> Seq<u8> {
        self.name + seq![0x3au8] + spec_dec_digits(self.port as nat)
    }
}

impl NameAddr {
    /// Renders the authority form `name:port`.
    pub fn as_http_authority(&self) -> (r: Vec<u8>)
        ensures
            r@ == self@.spec_authority(),
    {
        let mut out: Vec<u8> = Vec::new();
        let mut i: usize = 0;
        while i < self.name.len()
            invariant
                i <= self.name@.len(),
                out@ =~= self.name@.subrange(0, i as int),
            decreases self.name@.len() - i,
        {
            out.push(self.name[i]);
            proof {
                assert(out@ =~= self.name@.subrange(0, i + 1));
            }
            i = i + 1;
        }
        proof {
            assert(out@ =~= self.name@);
        }
        out.push(0x3a);
        push_dec_digits(self.port, &mut out);
        proof {
            assert(out@ =~= self@.spec_authority());
        }
        out
    }
}

/// The full authority grammar: `host:port` where host is an IPv4 literal or
/// a valid name. The last colon separates host from port.
pub open spec fn spec_parse_addr(s: Seq<u8>) -> Option<AddrV> {
    match spec_rfind(s, 0x3a, s.len() as int) {
        None => None,
        Some(c) => match spec_parse_port(s.subrange(c + 1, s.len() as int)) {
            None => None,
            Some(port) => {
                let host = s.subrange(0, c);
                match spec_parse_ipv4(host) {
                    Some(ip) => Some(AddrV::Socket(SockAddr { ip, port })),
                    None => if spec_is_valid_name(host) {
                        Some(AddrV::Name(NameAddrV { name: host, port }))
                    } else {
                        None
                    },
                }
            },
        },
    }
}

/// Parses authority-shaped bytes into a logical address.
pub fn parse_addr(s: &Vec<u8>) -> (r: Option<Addr>)
    ensures
        match r {
            Some(a) => spec_parse_addr(s@) == Some(a@),
            None => spec_parse_addr(s@) is None,
        },
{
    let n = s.len();
    let c = match rfind_byte(s, 0x3a) {
        Some(c) => c,
        None => {
            return None;
        },
    };
    let port = match parse_port(s, c + 1, n) {
        Some(p) => p,
        None => {
            return None;
        },
    };
    match parse_ipv4(s, c) {
        Some(ip) => Some(Addr::Socket(SockAddr { ip, port })),
        None => {
            if is_valid_name(s, c) {
                let mut name: Vec<u8> = Vec::new();
                let mut i: usize = 0;
                while i < c
                    invariant
                        i <= c <= s@.len(),
                        name@ =~= s@.subrange(0, i as int),
                    decreases c - i,
                {
                    name.push(s[i]);
                    proof {
                        assert(name@ =~= s@.subrange(0, i + 1));
                    }
                    i = i + 1;
                }
                proof {
                    assert(name@ =~= s@.subrange(0, c as int));
                }
                Some(Addr::Name(NameAddr { name, port }))
            } else {
                None
            }
        },
    }
}

} // verus!
