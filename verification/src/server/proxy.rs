//! Which peers may speak for a client through `X-Forwarded-For`: those
//! inside one of the configured `trusted_proxy` ranges, a comma-separated
//! list of IPv4 CIDR blocks (`127.0.0.1/32`; a bare address is a /32).  An
//! empty list trusts nobody; entries or peers that are not IPv4 match
//! nothing.
use crate::text::{chars_of, is_digit, parse_uint, parse_uint_s, split_chars, split_s, trim_chars, trim_s};
use vstd::prelude::*;

verus! {

/// One dotted-decimal part: digits only, at most 255.
pub open spec fn octet_s(p: Seq<char>) -> Option<nat> {
    if p.len() > 0 && is_digit(p[0]) {
        parse_uint_s(p, 255)
    } else {
        None
    }
}

/// An IPv4 address as a 32-bit number.
pub open spec fn ipv4_s(s: Seq<char>) -> Option<nat> {
    let ps = split_s(s, '.');
    if ps.len() == 4 {
        match (octet_s(ps[0]), octet_s(ps[1]), octet_s(ps[2]), octet_s(ps[3])) {
            (Some(a), Some(b), Some(c), Some(d)) => Some(((a * 256 + b) * 256 + c) * 256 + d),
            _ => None,
        }
    } else {
        None
    }
}

/// The prefix length after `/`: digits only, at most 32.
pub open spec fn prefix_s(p: Seq<char>) -> Option<nat> {
    if p.len() > 0 && is_digit(p[0]) {
        parse_uint_s(p, 32)
    } else {
        None
    }
}

/// A CIDR block: its address and prefix length.
pub open spec fn cidr_s(e: Seq<char>) -> Option<(nat, nat)> {
    let ps = split_s(e, '/');
    if ps.len() == 1 {
        match ipv4_s(ps[0]) {
            Some(a) => Some((a, 32nat)),
            None => None,
        }
    } else if ps.len() == 2 {
        match (ipv4_s(ps[0]), prefix_s(ps[1])) {
            (Some(a), Some(k)) => Some((a, k)),
            _ => None,
        }
    } else {
        None
    }
}

pub open spec fn two_pow(k: nat) -> nat
    decreases k,
{
    if k == 0 {
        1
    } else {
        2 * two_pow((k - 1) as nat)
    }
}

/// Whether `addr` lies in the block of `net` with a `prefix`-bit mask: the
/// two agree on their top `prefix` bits.
pub open spec fn in_block(addr: nat, net: nat, prefix: nat) -> bool {
    addr / two_pow((32 - prefix) as nat) == net / two_pow((32 - prefix) as nat)
}

/// Whether one list entry (trimmed) admits `peer`.
pub open spec fn entry_admits(entry: Seq<char>, peer: Seq<char>) -> bool {
    match (cidr_s(trim_s(entry)), ipv4_s(peer)) {
        (Some((net, k)), Some(p)) => in_block(p, net, k),
        _ => false,
    }
}

/// Whether `peer` lies in one of the ranges of `trusted`.
pub open spec fn trusts_forwarded_s(peer: Seq<char>, trusted: Seq<char>) -> bool {
    exists|i: int| 0 <= i < split_s(trusted, ',').len() && entry_admits(#[trigger] split_s(trusted, ',')[i], peer)
}

fn octet(p: &[char]) -> (r: Option<u64>)
    ensures
        match octet_s(p@) {
            Some(v) => r == Some(v as u64) && v <= 255,
            None => r is None,
        },
{
    if p.len() > 0 && is_digit_char(p[0]) {
        parse_uint(p, 255)
    } else {
        None
    }
}

fn is_digit_char(c: char) -> (r: bool)
    ensures
        r == is_digit(c),
{
    '0' <= c && c <= '9'
}

fn ipv4(s: &[char]) -> (r: Option<u64>)
    ensures
        match ipv4_s(s@) {
            Some(v) => r == Some(v as u64) && v < 0x1_0000_0000,
            None => r is None,
        },
{
    let ps = split_chars(s, '.');
    if ps.len() != 4 {
        return None;
    }
    proof {
        assert forall|i: int| 0 <= i < ps@.len() implies #[trigger] ps@[i]@ == split_s(s@, '.')[i] by {
            assert(crate::text::pieces_view(ps@)[i] == ps@[i]@);
        }
    }
    let a = octet(ps[0].as_slice());
    let b = octet(ps[1].as_slice());
    let c = octet(ps[2].as_slice());
    let d = octet(ps[3].as_slice());
    match (a, b, c, d) {
        (Some(a), Some(b), Some(c), Some(d)) => {
            assert(((a * 256 + b) * 256 + c) * 256 + d < 0x1_0000_0000) by (nonlinear_arith)
                requires
                    a <= 255,
                    b <= 255,
                    c <= 255,
                    d <= 255,
            ;
            Some(((a * 256 + b) * 256 + c) * 256 + d)
        },
        _ => None,
    }
}

fn cidr(e: &[char]) -> (r: Option<(u64, u64)>)
    ensures
        match cidr_s(e@) {
            Some((a, k)) => r == Some((a as u64, k as u64)) && a < 0x1_0000_0000 && k <= 32,
            None => r is None,
        },
{
    let ps = split_chars(e, '/');
    proof {
        assert forall|i: int| 0 <= i < ps@.len() implies #[trigger] ps@[i]@ == split_s(e@, '/')[i] by {
            assert(crate::text::pieces_view(ps@)[i] == ps@[i]@);
        }
    }
    if ps.len() == 1 {
        match ipv4(ps[0].as_slice()) {
            Some(a) => Some((a, 32)),
            None => None,
        }
    } else if ps.len() == 2 {
        let a = ipv4(ps[0].as_slice());
        let k = if ps[1].len() > 0 && is_digit_char(ps[1][0]) {
            parse_uint(ps[1].as_slice(), 32)
        } else {
            None
        };
        match (a, k) {
            (Some(a), Some(k)) => Some((a, k)),
            _ => None,
        }
    } else {
        None
    }
}

fn pow_two(k: u64) -> (r: u64)
    requires
        k <= 32,
    ensures
        r == two_pow(k as nat),
        r >= 1,
{
    let mut r: u64 = 1;
    let mut i: u64 = 0;
    while i < k
        invariant
            i <= k <= 32,
            r == two_pow(i as nat),
        decreases k - i,
    {
        proof {
            lemma_two_pow_le(i as nat, 31);
            reveal_with_fuel(two_pow, 32);
            assert(two_pow(31) == 0x8000_0000);
        }
        r = r * 2;
        i = i + 1;
    }
    proof {
        lemma_two_pow_pos(k as nat);
    }
    r
}

proof fn lemma_two_pow_pos(k: nat)
    ensures
        two_pow(k) >= 1,
    decreases k,
{
    if k > 0 {
        lemma_two_pow_pos((k - 1) as nat);
    }
}

proof fn lemma_two_pow_le(a: nat, b: nat)
    requires
        a <= b,
    ensures
        two_pow(a) <= two_pow(b),
    decreases b,
{
    if a < b {
        lemma_two_pow_le(a, (b - 1) as nat);
        lemma_two_pow_pos((b - 1) as nat);
    }
}

fn entry_admits_exec(entry: &[char], peer: Option<u64>, Ghost(peer_s): Ghost<Seq<char>>) -> (r: bool)
    requires
        match ipv4_s(peer_s) {
            Some(v) => peer == Some(v as u64) && v < 0x1_0000_0000,
            None => peer is None,
        },
    ensures
        r == entry_admits(entry@, peer_s),
{
    let t = trim_chars(entry);
    match (cidr(t.as_slice()), peer) {
        (Some((net, k)), Some(p)) => {
            let d = pow_two(32 - k);
            p / d == net / d
        },
        _ => false,
    }
}

/// Whether a peer may speak for the client through `X-Forwarded-For`: it
/// lies in one of the `trusted_proxy` ranges.
pub fn trusts_forwarded(peer: &str, trusted: &str) -> (r: bool)
    ensures
        r == trusts_forwarded_s(peer@, trusted@),
{
    let p = chars_of(peer);
    let addr = ipv4(p.as_slice());
    let t = chars_of(trusted);
    let entries = split_chars(t.as_slice(), ',');
    let ghost es = split_s(trusted@, ',');
    proof {
        assert forall|i: int| 0 <= i < entries@.len() implies #[trigger] entries@[i]@ == es[i] by {
            assert(crate::text::pieces_view(entries@)[i] == entries@[i]@);
        }
    }
    let mut i: usize = 0;
    while i < entries.len()
        invariant
            i <= entries@.len(),
            entries@.len() == es.len(),
            es == split_s(trusted@, ','),
            forall|j: int| 0 <= j < entries@.len() ==> #[trigger] entries@[j]@ == es[j],
            forall|j: int| 0 <= j < i ==> !entry_admits(#[trigger] es[j], peer@),
            match ipv4_s(peer@) {
                Some(v) => addr == Some(v as u64) && v < 0x1_0000_0000,
                None => addr is None,
            },
        decreases entries@.len() - i,
    {
        if entry_admits_exec(entries[i].as_slice(), addr, Ghost(peer@)) {
            assert(entry_admits(es[i as int], peer@));
            return true;
        }
        i += 1;
    }
    false
}

} // verus!
