//! IPv4 socket addresses.
use vstd::prelude::*;
use crate::text::{dec, decimal, free_of, is_digit, lemma_dec, lemma_split_unique, parse_u8_dec, split_on, split_once};

verus! {

/// An IPv4 address and a port.
#[derive(Clone, Copy, Debug, PartialEq, Eq)]
pub struct SocketAddress {
    pub octets: [u8; 4],
    pub port: u16,
}

/// The port on which the HTTP endpoint listens when nothing else is chosen.
pub const DEFAULT_HTTP_PORT: u16 = 8080;

/// `a.b.c.d`, each number in decimal.
pub open spec fn ipv4_text(a: u8, b: u8, c: u8, d: u8) -> Seq<char> {
    dec(a as nat) + seq!['.'] + dec(b as nat) + seq!['.'] + dec(c as nat) + seq!['.'] + dec(d as nat)
}

/// `a.b.c.d:port`, each number in decimal.
pub open spec fn addr_text(a: SocketAddress) -> Seq<char> {
    ipv4_text(a.octets@[0], a.octets@[1], a.octets@[2], a.octets@[3]) + seq![':'] + dec(a.port as nat)
}

/// Whether `t` is the text of some IPv4 address.
pub open spec fn is_ipv4_text(t: Seq<char>) -> bool {
    exists|a: u8, b: u8, c: u8, d: u8| t == #[trigger] ipv4_text(a, b, c, d)
}

proof fn lemma_dec_dot_free(n: nat)
    ensures
        free_of(dec(n), '.'),
{
    lemma_dec(n);
    assert forall|k: int| 0 <= k < dec(n).len() implies #[trigger] dec(n)[k] != '.' by {
        assert(is_digit(dec(n)[k]));
    }
}

/// The dots of an address text split it into its four numbers.
proof fn lemma_ipv4_parts(
    t: Seq<char>, a: u8, b: u8, c: u8, d: u8,
    part0: Seq<char>, r0: Seq<char>, part1: Seq<char>, r1: Seq<char>, part2: Seq<char>, part3: Seq<char>,
)
    requires
        t == ipv4_text(a, b, c, d),
    ensures
        split_on(t, '.', part0, r0) ==> part0 == dec(a as nat) && r0 == dec(b as nat) + seq!['.'] + dec(c as nat) + seq!['.'] + dec(d as nat),
        !free_of(t, '.'),
        r0 == dec(b as nat) + seq!['.'] + dec(c as nat) + seq!['.'] + dec(d as nat) ==> !free_of(r0, '.') && (split_on(r0, '.', part1, r1) ==> part1 == dec(b as nat) && r1 == dec(c as nat) + seq!['.'] + dec(d as nat)),
        r1 == dec(c as nat) + seq!['.'] + dec(d as nat) ==> !free_of(r1, '.') && (split_on(r1, '.', part2, part3) ==> part2 == dec(c as nat) && part3 == dec(d as nat)),
{
    lemma_dec_dot_free(a as nat);
    lemma_dec_dot_free(b as nat);
    lemma_dec_dot_free(c as nat);
    lemma_dec_dot_free(d as nat);
    let q1 = dec(c as nat) + seq!['.'] + dec(d as nat);
    let q0 = dec(b as nat) + seq!['.'] + q1;
    assert(t =~= dec(a as nat) + seq!['.'] + q0);
    assert(q0 =~= dec(b as nat) + seq!['.'] + dec(c as nat) + seq!['.'] + dec(d as nat));
    assert(t[dec(a as nat).len() as int] == '.');
    assert(q0[dec(b as nat).len() as int] == '.');
    assert(q1[dec(c as nat).len() as int] == '.');
    if split_on(t, '.', part0, r0) {
        lemma_split_unique(t, '.', part0, r0, dec(a as nat), q0);
    }
    if r0 == q0 && split_on(r0, '.', part1, r1) {
        lemma_split_unique(r0, '.', part1, r1, dec(b as nat), q1);
    }
    if r1 == q1 && split_on(r1, '.', part2, part3) {
        lemma_split_unique(r1, '.', part2, part3, dec(c as nat), dec(d as nat));
    }
}

/// Reads an IPv4 address `a.b.c.d`, each number from 0 to 255 in its
/// shortest decimal form.
pub fn parse_ipv4(t: &str) -> (r: Option<[u8; 4]>)
    ensures
        r matches Some(o) ==> t@ == ipv4_text(o@[0], o@[1], o@[2], o@[3]),
        r is None ==> !is_ipv4_text(t@),
{
    let s0 = split_once(t, '.');
    if s0.is_none() {
        assert forall|a: u8, b: u8, c: u8, d: u8| t@ != #[trigger] ipv4_text(a, b, c, d) by {
            if t@ == ipv4_text(a, b, c, d) {
                lemma_ipv4_parts(t@, a, b, c, d, t@, t@, t@, t@, t@, t@);
            }
        }
        return None;
    }
    let (part0, r0) = s0.unwrap();
    let s1 = split_once(r0, '.');
    if s1.is_none() {
        assert forall|a: u8, b: u8, c: u8, d: u8| t@ != #[trigger] ipv4_text(a, b, c, d) by {
            if t@ == ipv4_text(a, b, c, d) {
                lemma_ipv4_parts(t@, a, b, c, d, part0@, r0@, t@, t@, t@, t@);
            }
        }
        return None;
    }
    let (part1, r1) = s1.unwrap();
    let s2 = split_once(r1, '.');
    if s2.is_none() {
        assert forall|a: u8, b: u8, c: u8, d: u8| t@ != #[trigger] ipv4_text(a, b, c, d) by {
            if t@ == ipv4_text(a, b, c, d) {
                lemma_ipv4_parts(t@, a, b, c, d, part0@, r0@, part1@, r1@, t@, t@);
            }
        }
        return None;
    }
    let (part2, part3) = s2.unwrap();
    match (parse_u8_dec(part0), parse_u8_dec(part1), parse_u8_dec(part2), parse_u8_dec(part3)) {
        (Some(a), Some(b), Some(c), Some(d)) => {
            let o = [a, b, c, d];
            assert(t@ =~= ipv4_text(a, b, c, d));
            Some(o)
        },
        _ => {
            assert forall|a: u8, b: u8, c: u8, d: u8| t@ != #[trigger] ipv4_text(a, b, c, d) by {
                if t@ == ipv4_text(a, b, c, d) {
                    lemma_ipv4_parts(t@, a, b, c, d, part0@, r0@, part1@, r1@, part2@, part3@);
                }
            }
            None
        },
    }
}

impl SocketAddress {
    pub fn new(a: u8, b: u8, c: u8, d: u8, port: u16) -> (r: SocketAddress)
        ensures
            r.octets@ == seq![a, b, c, d],
            r.port == port,
    {
        let r = SocketAddress { octets: [a, b, c, d], port };
        assert(r.octets@ =~= seq![a, b, c, d]);
        r
    }

    /// `127.0.0.1` with the given port.
    pub fn loopback(port: u16) -> (r: SocketAddress)
        ensures
            r == loopback_spec(port),
    {
        let r = SocketAddress { octets: [127, 0, 0, 1], port };
        assert(r.octets@ =~= loopback_spec(port).octets@);
        r
    }

    /// The address in its usual text form, `a.b.c.d:port`.
    pub fn to_text(&self) -> (r: String)
        ensures
            r@ == addr_text(*self),
    {
        proof {
            reveal_strlit(".");
            reveal_strlit(":");
            assert("."@ =~= seq!['.']);
            assert(":"@ =~= seq![':']);
        }
        let mut s = decimal(self.octets[0] as u128);
        s.append(".");
        s.append(decimal(self.octets[1] as u128).as_str());
        s.append(".");
        s.append(decimal(self.octets[2] as u128).as_str());
        s.append(".");
        s.append(decimal(self.octets[3] as u128).as_str());
        s.append(":");
        s.append(decimal(self.port as u128).as_str());
        assert(s@ =~= addr_text(*self));
        s
    }
}

pub open spec fn loopback_spec(port: u16) -> SocketAddress {
    SocketAddress { octets: [127u8, 0u8, 0u8, 1u8], port }
}

} // verus!
