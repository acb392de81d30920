//! Address values: IPv4 and IPv6 literals, the address variant used for
//! nameservers, and network/mask pairs for the sortlist, together with the
//! verified literal parsers and the netmask rules.
use vstd::prelude::*;
use vstd::slice::slice_subrange;

use crate::scan::{
    all_digits, byte_seqs, dec_val_from, find_byte, find_from, is_digit, split_bytes, split_on,
};

verus! {

/// An IPv4 address as its four octets.
#[derive(Clone, Copy, Debug, PartialEq, Eq, Structural)]
pub struct Ipv4Addr {
    pub a: u8,
    pub b: u8,
    pub c: u8,
    pub d: u8,
}

impl Ipv4Addr {
    pub fn new(a: u8, b: u8, c: u8, d: u8) -> (r: Ipv4Addr)
        ensures
            r == (Ipv4Addr { a, b, c, d }),
    {
        Ipv4Addr { a, b, c, d }
    }
}

/// An IPv6 address as its eight 16-bit segments.
#[derive(Clone, Copy, Debug, PartialEq, Eq, Structural)]
pub struct Ipv6Addr {
    pub s0: u16,
    pub s1: u16,
    pub s2: u16,
    pub s3: u16,
    pub s4: u16,
    pub s5: u16,
    pub s6: u16,
    pub s7: u16,
}

impl Ipv6Addr {
    pub fn new(s0: u16, s1: u16, s2: u16, s3: u16, s4: u16, s5: u16, s6: u16, s7: u16) -> (r:
        Ipv6Addr)
        ensures
            r == (Ipv6Addr { s0, s1, s2, s3, s4, s5, s6, s7 }),
    {
        Ipv6Addr { s0, s1, s2, s3, s4, s5, s6, s7 }
    }
}

/// The error an address or network literal parse reports.
#[derive(Clone, Copy, Debug, PartialEq, Eq, Structural)]
pub struct AddrParseError;

/// An address value: an IPv4 literal, or an IPv6 literal with an optional
/// scope name (the grammar itself never produces a scope).
#[derive(Clone, Debug, PartialEq, Eq)]
pub enum Ip {
    V4(Ipv4Addr),
    V6(Ipv6Addr, Option<Vec<u8>>),
}

/// The mathematical model of an address value.
pub enum IpV {
    V4(Ipv4Addr),
    V6(Ipv6Addr, Option<Seq<u8>>),
}

impl View for Ip {
    type V = IpV;

    open spec fn view(&self) -> IpV {
        match self {
            Ip::V4(a) => IpV::V4(*a),
            Ip::V6(a, None) => IpV::V6(*a, None),
            Ip::V6(a, Some(s)) => IpV::V6(*a, Some(s@)),
        }
    }
}

/// A network value: an address and a mask of the same family.
#[derive(Clone, Copy, Debug, PartialEq, Eq, Structural)]
pub enum Network {
    V4(Ipv4Addr, Ipv4Addr),
    V6(Ipv6Addr, Ipv6Addr),
}

/// A well-formed decimal octet: one to three digits, no leading zero, value
/// at most 255.
pub open spec fn octet_ok(p: Seq<u8>) -> bool {
    1 <= p.len() <= 3 && all_digits(p) && (p.len() > 1 ==> p[0] != 48) && dec_val_from(p, 0, 0)
        <= 255
}

/// The dotted-quad IPv4 literal: exactly four well-formed octets.
#[verifier::opaque]
pub open spec fn spec_ipv4(s: Seq<u8>) -> Option<Ipv4Addr> {
    let ps = split_on(s, 46);
    if ps.len() == 4 && octet_ok(ps[0]) && octet_ok(ps[1]) && octet_ok(ps[2]) && octet_ok(ps[3]) {
        Some(
            Ipv4Addr {
                a: dec_val_from(ps[0], 0, 0) as u8,
                b: dec_val_from(ps[1], 0, 0) as u8,
                c: dec_val_from(ps[2], 0, 0) as u8,
                d: dec_val_from(ps[3], 0, 0) as u8,
            },
        )
    } else {
        None
    }
}

fn parse_octet(p: &[u8]) -> (r: Option<u8>)
    ensures
        match r {
            Some(v) => octet_ok(p@) && v as int == dec_val_from(p@, 0, 0),
            None => !octet_ok(p@),
        },
{
    let n = p.len();
    if n == 0 || n > 3 {
        return None;
    }
    let mut i: usize = 0;
    while i < n
        invariant
            i <= n,
            n == p@.len(),
            forall|k: int| 0 <= k < i ==> is_digit(#[trigger] p@[k]),
        decreases n - i,
    {
        if !(48 <= p[i] && p[i] <= 57) {
            assert(!all_digits(p@));
            return None;
        }
        i += 1;
    }
    assert(all_digits(p@));
    if n > 1 && p[0] == 48 {
        return None;
    }
    let v: u32 = if n == 1 {
        proof {
            assert(dec_val_from(p@, 0, 0) == dec_val_from(p@, 1, (p@[0] - 48) as int));
        }
        (p[0] - 48) as u32
    } else if n == 2 {
        proof {
            assert(dec_val_from(p@, 0, 0) == dec_val_from(p@, 1, (p@[0] - 48) as int));
            assert(dec_val_from(p@, 1, (p@[0] - 48) as int) == dec_val_from(
                p@,
                2,
                (p@[0] - 48) * 10 + (p@[1] - 48),
            ));
        }
        (p[0] - 48) as u32 * 10 + (p[1] - 48) as u32
    } else {
        proof {
            assert(dec_val_from(p@, 0, 0) == dec_val_from(p@, 1, (p@[0] - 48) as int));
            assert(dec_val_from(p@, 1, (p@[0] - 48) as int) == dec_val_from(
                p@,
                2,
                (p@[0] - 48) * 10 + (p@[1] - 48),
            ));
            assert(dec_val_from(p@, 2, (p@[0] - 48) * 10 + (p@[1] - 48)) == dec_val_from(
                p@,
                3,
                ((p@[0] - 48) * 10 + (p@[1] - 48)) * 10 + (p@[2] - 48),
            ));
        }
        (p[0] - 48) as u32 * 100 + (p[1] - 48) as u32 * 10 + (p[2] - 48) as u32
    };
    if v > 255 {
        return None;
    }
    Some(v as u8)
}

/// The parser for a dotted-quad IPv4 literal.
pub fn parse_ipv4_bytes(s: &[u8]) -> (r: Option<Ipv4Addr>)
    ensures
        r == spec_ipv4(s@),
{
    proof {
        reveal(spec_ipv4);
    }
    let parts = split_bytes(s, 46);
    let ghost ps = byte_seqs(parts@);
    if parts.len() != 4 {
        return None;
    }
    assert(ps[0] == parts@[0]@ && ps[1] == parts@[1]@ && ps[2] == parts@[2]@ && ps[3]
        == parts@[3]@);
    let oa = parse_octet(parts[0].as_slice());
    let ob = parse_octet(parts[1].as_slice());
    let oc = parse_octet(parts[2].as_slice());
    let od = parse_octet(parts[3].as_slice());
    match (oa, ob, oc, od) {
        (Some(a), Some(b), Some(c), Some(d)) => Some(Ipv4Addr { a, b, c, d }),
        _ => None,
    }
}

pub open spec fn is_hex_digit(b: u8) -> bool {
    is_digit(b) || (97 <= b && b <= 102) || (65 <= b && b <= 70)
}

pub open spec fn hex_digit_val(b: u8) -> int {
    if is_digit(b) {
        b - 48
    } else if 97 <= b && b <= 102 {
        b - 87
    } else {
        b - 55
    }
}

pub open spec fn all_hex(s: Seq<u8>) -> bool {
    forall|k: int| 0 <= k < s.len() ==> is_hex_digit(#[trigger] s[k])
}

/// The value of the hex digits of `s` from position `i` on, appended to the
/// value `acc` already read.
pub open spec fn hex_val_from(s: Seq<u8>, i: int, acc: int) -> int
    decreases s.len() - i,
{
    if !(0 <= i < s.len()) {
        acc
    } else {
        hex_val_from(s, i + 1, acc * 16 + hex_digit_val(s[i]))
    }
}

/// A well-formed IPv6 segment: one to four hex digits.
pub open spec fn hex_group_ok(p: Seq<u8>) -> bool {
    1 <= p.len() <= 4 && all_hex(p)
}

fn hex_digit(b: u8) -> (r: Option<u8>)
    ensures
        match r {
            Some(v) => is_hex_digit(b) && v as int == hex_digit_val(b),
            None => !is_hex_digit(b),
        },
{
    if 48 <= b && b <= 57 {
        Some(b - 48)
    } else if 97 <= b && b <= 102 {
        Some(b - 87)
    } else if 65 <= b && b <= 70 {
        Some(b - 55)
    } else {
        None
    }
}

fn parse_hex_group(p: &[u8]) -> (r: Option<u16>)
    ensures
        match r {
            Some(v) => hex_group_ok(p@) && v as int == hex_val_from(p@, 0, 0),
            None => !hex_group_ok(p@),
        },
{
    let n = p.len();
    if n == 0 || n > 4 {
        return None;
    }
    let mut digits: [u8; 4] = [0u8, 0u8, 0u8, 0u8];
    let mut i: usize = 0;
    while i < n
        invariant
            i <= n,
            n == p@.len(),
            n <= 4,
            forall|k: int| 0 <= k < i ==> is_hex_digit(#[trigger] p@[k]),
            forall|k: int| 0 <= k < i ==> digits@[k] as int == hex_digit_val(p@[k]),
        decreases n - i,
    {
        match hex_digit(p[i]) {
            Some(v) => {
                digits[i] = v;
            },
            None => {
                assert(!all_hex(p@));
                return None;
            },
        }
        i += 1;
    }
    assert(all_hex(p@));
    let v: u32 = if n == 1 {
        proof {
            assert(hex_val_from(p@, 0, 0) == hex_val_from(p@, 1, hex_digit_val(p@[0])));
        }
        digits[0] as u32
    } else if n == 2 {
        proof {
            assert(hex_val_from(p@, 0, 0) == hex_val_from(p@, 1, hex_digit_val(p@[0])));
            assert(hex_val_from(p@, 1, hex_digit_val(p@[0])) == hex_val_from(
                p@,
                2,
                hex_digit_val(p@[0]) * 16 + hex_digit_val(p@[1]),
            ));
        }
        digits[0] as u32 * 16 + digits[1] as u32
    } else if n == 3 {
        proof {
            assert(hex_val_from(p@, 0, 0) == hex_val_from(p@, 1, hex_digit_val(p@[0])));
            assert(hex_val_from(p@, 1, hex_digit_val(p@[0])) == hex_val_from(
                p@,
                2,
                hex_digit_val(p@[0]) * 16 + hex_digit_val(p@[1]),
            ));
            assert(hex_val_from(p@, 2, hex_digit_val(p@[0]) * 16 + hex_digit_val(p@[1]))
                == hex_val_from(
                p@,
                3,
                (hex_digit_val(p@[0]) * 16 + hex_digit_val(p@[1])) * 16 + hex_digit_val(p@[2]),
            ));
        }
        digits[0] as u32 * 256 + digits[1] as u32 * 16 + digits[2] as u32
    } else {
        proof {
            assert(hex_val_from(p@, 0, 0) == hex_val_from(p@, 1, hex_digit_val(p@[0])));
            assert(hex_val_from(p@, 1, hex_digit_val(p@[0])) == hex_val_from(
                p@,
                2,
                hex_digit_val(p@[0]) * 16 + hex_digit_val(p@[1]),
            ));
            assert(hex_val_from(p@, 2, hex_digit_val(p@[0]) * 16 + hex_digit_val(p@[1]))
                == hex_val_from(
                p@,
                3,
                (hex_digit_val(p@[0]) * 16 + hex_digit_val(p@[1])) * 16 + hex_digit_val(p@[2]),
            ));
            assert(hex_val_from(
                p@,
                3,
                (hex_digit_val(p@[0]) * 16 + hex_digit_val(p@[1])) * 16 + hex_digit_val(p@[2]),
            ) == hex_val_from(
                p@,
                4,
                ((hex_digit_val(p@[0]) * 16 + hex_digit_val(p@[1])) * 16 + hex_digit_val(p@[2]))
                    * 16 + hex_digit_val(p@[3]),
            ));
        }
        digits[0] as u32 * 4096 + digits[1] as u32 * 256 + digits[2] as u32 * 16 + digits[3] as u32
    };
    Some(v as u16)
}

/// The segment list that a colon-separated part list denotes: each part one
/// hex segment, except that the last part may be an embedded IPv4 literal
/// standing for two segments.
pub open spec fn spec_groups(ps: Seq<Seq<u8>>, v4last: bool) -> Option<Seq<u16>>
    decreases ps.len(),
{
    if ps.len() == 0 {
        Some(Seq::empty())
    } else if ps.len() == 1 {
        if hex_group_ok(ps[0]) {
            Some(seq![hex_val_from(ps[0], 0, 0) as u16])
        } else if v4last {
            match spec_ipv4(ps[0]) {
                Some(ip) => Some(
                    seq![
                        ((ip.a as int) * 256 + (ip.b as int)) as u16,
                        ((ip.c as int) * 256 + (ip.d as int)) as u16,
                    ],
                ),
                None => None,
            }
        } else {
            None
        }
    } else {
        if hex_group_ok(ps[0]) {
            match spec_groups(ps.skip(1), v4last) {
                Some(t) => Some(seq![hex_val_from(ps[0], 0, 0) as u16] + t),
                None => None,
            }
        } else {
            None
        }
    }
}

spec fn opt_prepend(pre: Seq<u16>, o: Option<Seq<u16>>) -> Option<Seq<u16>> {
    match o {
        Some(t) => Some(pre + t),
        None => None,
    }
}

proof fn opt_prepend_nil(o: Option<Seq<u16>>)
    ensures
        opt_prepend(Seq::empty(), o) == o,
{
    match o {
        Some(t) => {
            assert(Seq::<u16>::empty() + t =~= t);
        },
        None => {},
    }
}

#[verifier::rlimit(100)]
fn parse_groups(parts: &Vec<Vec<u8>>, v4last: bool) -> (r: Option<Vec<u16>>)
    ensures
        match r {
            Some(v) => spec_groups(byte_seqs(parts@), v4last) == Some(v@),
            None => spec_groups(byte_seqs(parts@), v4last) == None::<Seq<u16>>,
        },
{
    let ghost ps = byte_seqs(parts@);
    let mut out: Vec<u16> = Vec::new();
    let mut k: usize = 0;
    proof {
        assert(ps.skip(0) =~= ps);
        opt_prepend_nil(spec_groups(ps, v4last));
    }
    while k < parts.len()
        invariant
            k <= parts.len(),
            ps == byte_seqs(parts@),
            spec_groups(ps, v4last) == opt_prepend(out@, spec_groups(ps.skip(k as int), v4last)),
        decreases parts.len() - k,
    {
        let ghost rest = ps.skip(k as int);
        assert(rest[0] == parts@[k as int]@);
        let last = k == parts.len() - 1;
        let mut done = false;
        match parse_hex_group(parts[k].as_slice()) {
            Some(v) => {
                proof {
                    if rest.len() > 1 {
                        assert(rest.skip(1) =~= ps.skip(k as int + 1));
                        assert(out@ + (seq![v] + spec_groups(rest.skip(1), v4last).unwrap_or(
                            Seq::empty(),
                        )) =~= out@.push(v) + spec_groups(rest.skip(1), v4last).unwrap_or(
                            Seq::empty(),
                        ));
                    } else {
                        assert(ps.skip(k as int + 1) =~= Seq::<Seq<u8>>::empty());
                        assert(out@ + seq![v] =~= out@.push(v));
                        assert(out@.push(v) + Seq::<u16>::empty() =~= out@.push(v));
                    }
                }
                out.push(v);
            },
            None => {
                if last && v4last {
                    match parse_ipv4_bytes(parts[k].as_slice()) {
                        Some(ip) => {
                            let hi: u16 = (ip.a as u16) * 256 + (ip.b as u16);
                            let lo: u16 = (ip.c as u16) * 256 + (ip.d as u16);
                            proof {
                                assert(ps.skip(k as int + 1) =~= Seq::<Seq<u8>>::empty());
                                assert(out@ + seq![hi, lo] =~= out@.push(hi).push(lo));
                                assert(out@.push(hi).push(lo) + Seq::<u16>::empty() =~= out@.push(
                                    hi,
                                ).push(lo));
                            }
                            out.push(hi);
                            out.push(lo);
                        },
                        None => {
                            return None;
                        },
                    }
                } else {
                    return None;
                }
            },
        }
        k += 1;
    }
    proof {
        assert(ps.skip(parts@.len() as int) =~= Seq::<Seq<u8>>::empty());
        assert(out@ + Seq::<u16>::empty() =~= out@);
    }
    Some(out)
}

/// Index of the first `::` in `s` at or after `i`, if any.
pub open spec fn first_2c(s: Seq<u8>, i: int) -> Option<int>
    decreases s.len() - i,
{
    if i < 0 || i + 1 >= s.len() {
        None
    } else if s[i] == 58 && s[i + 1] == 58 {
        Some(i)
    } else {
        first_2c(s, i + 1)
    }
}

fn find_2colon(s: &[u8]) -> (r: Option<usize>)
    ensures
        match r {
            Some(j) => j + 1 < s@.len() && first_2c(s@, 0) == Some(j as int),
            None => first_2c(s@, 0) == None::<int>,
        },
{
    if s.len() == 0 {
        return None;
    }
    let mut i: usize = 0;
    while i < s.len() - 1
        invariant
            s@.len() >= 1,
            i <= s.len(),
            first_2c(s@, 0) == first_2c(s@, i as int),
        decreases s.len() - i,
    {
        if s[i] == 58 && s[i + 1] == 58 {
            return Some(i);
        }
        i += 1;
    }
    None
}

pub open spec fn zeros16(n: int) -> Seq<u16> {
    Seq::new(n as nat, |k: int| 0u16)
}

pub open spec fn ipv6_of(g: Seq<u16>) -> Ipv6Addr {
    Ipv6Addr { s0: g[0], s1: g[1], s2: g[2], s3: g[3], s4: g[4], s5: g[5], s6: g[6], s7: g[7] }
}

/// The IPv6 literal: eight segments without `::`, or a front and a back part
/// around one `::` totalling at most seven segments, zero-padded between; the
/// last segment of the address may be an embedded IPv4 literal.
#[verifier::opaque]
pub open spec fn spec_ipv6(s: Seq<u8>) -> Option<Ipv6Addr> {
    match first_2c(s, 0) {
        None => match spec_groups(split_on(s, 58), true) {
            Some(g) => if g.len() == 8 {
                Some(ipv6_of(g))
            } else {
                None
            },
            None => None,
        },
        Some(i) => {
            let l = s.take(i);
            let r = s.skip(i + 2);
            let fg = if l.len() == 0 {
                Some(Seq::<u16>::empty())
            } else {
                spec_groups(split_on(l, 58), false)
            };
            let bg = if r.len() == 0 {
                Some(Seq::<u16>::empty())
            } else {
                spec_groups(split_on(r, 58), true)
            };
            match fg {
                None => None,
                Some(f) => match bg {
                    None => None,
                    Some(b) => if f.len() + b.len() <= 7 {
                        Some(ipv6_of(f + zeros16(8 - f.len() - b.len()) + b))
                    } else {
                        None
                    },
                },
            }
        },
    }
}

/// The parser for an IPv6 literal.
#[verifier::rlimit(100)]
pub fn parse_ipv6_bytes(s: &[u8]) -> (r: Option<Ipv6Addr>)
    ensures
        r == spec_ipv6(s@),
{
    proof {
        reveal(spec_ipv6);
    }
    match find_2colon(s) {
        None => {
            let parts = split_bytes(s, 58);
            match parse_groups(&parts, true) {
                Some(g) => {
                    if g.len() == 8 {
                        Some(
                            Ipv6Addr {
                                s0: g[0],
                                s1: g[1],
                                s2: g[2],
                                s3: g[3],
                                s4: g[4],
                                s5: g[5],
                                s6: g[6],
                                s7: g[7],
                            },
                        )
                    } else {
                        None
                    }
                },
                None => None,
            }
        },
        Some(i) => {
            let n = s.len();
            let l = slice_subrange(s, 0, i);
            let r = slice_subrange(s, i + 2, n);
            proof {
                assert(l@ =~= s@.take(i as int));
                assert(r@ =~= s@.skip(i as int + 2));
            }
            let front: Vec<u16> = if l.len() == 0 {
                Vec::new()
            } else {
                let lp = split_bytes(l, 58);
                match parse_groups(&lp, false) {
                    Some(v) => v,
                    None => {
                        return None;
                    },
                }
            };
            proof {
                if l@.len() == 0 {
                    assert(front@ =~= Seq::<u16>::empty());
                }
            }
            let back: Vec<u16> = if r.len() == 0 {
                Vec::new()
            } else {
                let rp = split_bytes(r, 58);
                match parse_groups(&rp, true) {
                    Some(v) => v,
                    None => {
                        return None;
                    },
                }
            };
            proof {
                if r@.len() == 0 {
                    assert(back@ =~= Seq::<u16>::empty());
                }
            }
            if !(front.len() <= 7 && back.len() <= 7 - front.len()) {
                return None;
            }
            let ghost f0 = front@;
            let nz: usize = 8 - front.len() - back.len();
            let mut segs: Vec<u16> = front;
            let mut z: usize = 0;
            proof {
                assert(segs@ =~= f0 + zeros16(0));
            }
            while z < nz
                invariant
                    z <= nz,
                    segs@ =~= f0 + zeros16(z as int),
                decreases nz - z,
            {
                segs.push(0);
                z += 1;
                proof {
                    assert(segs@ =~= f0 + zeros16(z as int));
                }
            }
            let mut j: usize = 0;
            while j < back.len()
                invariant
                    j <= back@.len(),
                    segs@ =~= f0 + zeros16(nz as int) + back@.subrange(0, j as int),
                decreases back.len() - j,
            {
                segs.push(back[j]);
                j += 1;
                proof {
                    assert(segs@ =~= f0 + zeros16(nz as int) + back@.subrange(0, j as int));
                }
            }
            proof {
                assert(back@.subrange(0, back@.len() as int) =~= back@);
                assert(segs@ =~= f0 + zeros16(nz as int) + back@);
                assert(segs@.len() == 8);
            }
            Some(
                Ipv6Addr {
                    s0: segs[0],
                    s1: segs[1],
                    s2: segs[2],
                    s3: segs[3],
                    s4: segs[4],
                    s5: segs[5],
                    s6: segs[6],
                    s7: segs[7],
                },
            )
        },
    }
}

/// The 32-bit value of an IPv4 address.
pub open spec fn v4_value(x: Ipv4Addr) -> u32 {
    ((x.a as int) * 0x1000000 + (x.b as int) * 0x10000 + (x.c as int) * 0x100 + (x.d as int)) as u32
}

pub open spec fn is_unspecified_v4(x: Ipv4Addr) -> bool {
    x.a == 0 && x.b == 0 && x.c == 0 && x.d == 0
}

/// A structurally valid netmask: a nonempty, contiguous, left-aligned run of
/// set bits. `v | (v - 1)` fills every bit below the lowest set bit, so it
/// is all-ones exactly when the set bits of `v` run down from the top.
pub open spec fn is_netmask(m: Ipv4Addr) -> bool {
    let v = v4_value(m);
    v != 0 && (v | ((v - 1) as u32)) == 0xFFFF_FFFFu32
}

fn v4_value_ex(x: Ipv4Addr) -> (v: u32)
    ensures
        v == v4_value(x),
{
    (x.a as u32) * 0x1000000 + (x.b as u32) * 0x10000 + (x.c as u32) * 0x100 + (x.d as u32)
}

fn netmask_ok(m: Ipv4Addr) -> (r: bool)
    ensures
        r == is_netmask(m),
{
    let v = v4_value_ex(m);
    v != 0 && (v | (v - 1)) == 0xFFFF_FFFF
}

/// The whole-octet mask inference: the mask covers every octet down to the
/// last nonzero one.
pub open spec fn infer_v4_mask(ip: Ipv4Addr) -> Ipv4Addr {
    if ip.d != 0 {
        Ipv4Addr { a: 255, b: 255, c: 255, d: 255 }
    } else if ip.c != 0 {
        Ipv4Addr { a: 255, b: 255, c: 255, d: 0 }
    } else if ip.b != 0 {
        Ipv4Addr { a: 255, b: 255, c: 0, d: 0 }
    } else {
        Ipv4Addr { a: 255, b: 0, c: 0, d: 0 }
    }
}

/// What an IPv4 sortlist token denotes: the address (never the unspecified
/// one), with its explicit mask validated as a netmask, or an inferred
/// whole-octet mask.
pub open spec fn spec_v4_netw(t: Seq<u8>) -> Option<Network> {
    match find_from(t, 47, 0) {
        None => match spec_ipv4(t) {
            None => None,
            Some(ip) => if is_unspecified_v4(ip) {
                None
            } else {
                Some(Network::V4(ip, infer_v4_mask(ip)))
            },
        },
        Some(i) => {
            let ap = t.take(i);
            let mp = t.skip(i + 1);
            match spec_ipv4(ap) {
                None => None,
                Some(ip) => if is_unspecified_v4(ip) {
                    None
                } else {
                    match spec_ipv4(mp) {
                        None => None,
                        Some(m) => if is_netmask(m) {
                            Some(Network::V4(ip, m))
                        } else {
                            None
                        },
                    }
                },
            }
        },
    }
}

/// What an IPv6 sortlist token denotes: the address with an explicit mask
/// accepted verbatim, or the all-ones host mask when none is given.
pub open spec fn spec_v6_netw(t: Seq<u8>) -> Option<Network> {
    match find_from(t, 47, 0) {
        None => match spec_ipv6(t) {
            None => None,
            Some(a) => Some(
                Network::V6(
                    a,
                    Ipv6Addr {
                        s0: 65535,
                        s1: 65535,
                        s2: 65535,
                        s3: 65535,
                        s4: 65535,
                        s5: 65535,
                        s6: 65535,
                        s7: 65535,
                    },
                ),
            ),
        },
        Some(i) => {
            let ap = t.take(i);
            let mp = t.skip(i + 1);
            match spec_ipv6(ap) {
                None => None,
                Some(a) => match spec_ipv6(mp) {
                    None => None,
                    Some(m) => Some(Network::V6(a, m)),
                },
            }
        },
    }
}

/// Parses an IPv4 network token of the sortlist: `ADDRESS` or
/// `ADDRESS/MASK`.
pub fn ip_v4_netw(t: &[u8]) -> (r: Result<Network, AddrParseError>)
    ensures
        match r {
            Ok(n) => spec_v4_netw(t@) == Some(n),
            Err(_) => spec_v4_netw(t@) == None::<Network>,
        },
{
    match find_byte(t, 47) {
        None => match parse_ipv4_bytes(t) {
            None => Err(AddrParseError),
            Some(ip) => {
                if ip.a == 0 && ip.b == 0 && ip.c == 0 && ip.d == 0 {
                    Err(AddrParseError)
                } else {
                    let mask = if ip.d != 0 {
                        Ipv4Addr { a: 255, b: 255, c: 255, d: 255 }
                    } else if ip.c != 0 {
                        Ipv4Addr { a: 255, b: 255, c: 255, d: 0 }
                    } else if ip.b != 0 {
                        Ipv4Addr { a: 255, b: 255, c: 0, d: 0 }
                    } else {
                        Ipv4Addr { a: 255, b: 0, c: 0, d: 0 }
                    };
                    Ok(Network::V4(ip, mask))
                }
            },
        },
        Some(i) => {
            let ap = slice_subrange(t, 0, i);
            let mp = slice_subrange(t, i + 1, t.len());
            proof {
                assert(ap@ =~= t@.take(i as int));
                assert(mp@ =~= t@.skip(i as int + 1));
            }
            match parse_ipv4_bytes(ap) {
                None => Err(AddrParseError),
                Some(ip) => {
                    if ip.a == 0 && ip.b == 0 && ip.c == 0 && ip.d == 0 {
                        Err(AddrParseError)
                    } else {
                        match parse_ipv4_bytes(mp) {
                            None => Err(AddrParseError),
                            Some(m) => {
                                if netmask_ok(m) {
                                    Ok(Network::V4(ip, m))
                                } else {
                                    Err(AddrParseError)
                                }
                            },
                        }
                    }
                },
            }
        },
    }
}

/// Parses an IPv6 network token of the sortlist: `ADDRESS` or
/// `ADDRESS/MASK`.
pub fn ip_v6_netw(t: &[u8]) -> (r: Result<Network, AddrParseError>)
    ensures
        match r {
            Ok(n) => spec_v6_netw(t@) == Some(n),
            Err(_) => spec_v6_netw(t@) == None::<Network>,
        },
{
    match find_byte(t, 47) {
        None => match parse_ipv6_bytes(t) {
            None => Err(AddrParseError),
            Some(a) => Ok(
                Network::V6(
                    a,
                    Ipv6Addr {
                        s0: 65535,
                        s1: 65535,
                        s2: 65535,
                        s3: 65535,
                        s4: 65535,
                        s5: 65535,
                        s6: 65535,
                        s7: 65535,
                    },
                ),
            ),
        },
        Some(i) => {
            let ap = slice_subrange(t, 0, i);
            let mp = slice_subrange(t, i + 1, t.len());
            proof {
                assert(ap@ =~= t@.take(i as int));
                assert(mp@ =~= t@.skip(i as int + 1));
            }
            match parse_ipv6_bytes(ap) {
                None => Err(AddrParseError),
                Some(a) => match parse_ipv6_bytes(mp) {
                    None => Err(AddrParseError),
                    Some(m) => Ok(Network::V6(a, m)),
                },
            }
        },
    }
}

/// What a sortlist token denotes: the IPv4 reading, or failing that the IPv6
/// reading.
pub open spec fn spec_netw(t: Seq<u8>) -> Option<Network> {
    match spec_v4_netw(t) {
        Some(n) => Some(n),
        None => spec_v6_netw(t),
    }
}

/// What a nameserver token denotes: an IPv4 literal, or an IPv6 literal
/// without a scope.
pub open spec fn spec_ip(t: Seq<u8>) -> Option<IpV> {
    match spec_ipv4(t) {
        Some(a) => Some(IpV::V4(a)),
        None => match spec_ipv6(t) {
            Some(a) => Some(IpV::V6(a, None)),
            None => None,
        },
    }
}

/// Parses a nameserver address token.
pub fn parse_ip(t: &[u8]) -> (r: Option<Ip>)
    ensures
        match r {
            Some(ip) => spec_ip(t@) == Some(ip@),
            None => spec_ip(t@) == None::<IpV>,
        },
{
    match parse_ipv4_bytes(t) {
        Some(a) => Some(Ip::V4(a)),
        None => match parse_ipv6_bytes(t) {
            Some(a) => Some(Ip::V6(a, None)),
            None => None,
        },
    }
}

} // verus!
