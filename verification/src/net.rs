//! Network addresses as plain values, and the connection-origin policy.
//!
//! The engine never touches sockets; callers hand it an `IpAddress` built
//! from the remote peer's address. The origin gate decides whether a
//! request may reach any route handler: when blocking of external
//! connections is enabled, only loopback and private-range addresses pass.

use vstd::prelude::*;

verus! {

/// A remote peer's address: an IPv4 address as its four octets, or an
/// IPv6 address as the high and low halves of its 128 bits.
#[derive(Clone, Copy, Debug, PartialEq, Eq, Structural)]
pub enum IpAddress {
    V4 { a: u8, b: u8, c: u8, d: u8 },
    V6 { hi: u64, lo: u64 },
}

/// Loopback or private-range: for IPv4, 127.0.0.0/8, 10.0.0.0/8,
/// 172.16.0.0/12 or 192.168.0.0/16; for IPv6, ::1 or a unique-local
/// address (fc00::/7).
pub open spec fn is_private_ip_spec(ip: IpAddress) -> bool {
    match ip {
        IpAddress::V4 { a, b, c, d } => a == 127 || a == 10 || (a == 172 && 16 <= b && b < 32)
            || (a == 192 && b == 168),
        IpAddress::V6 { hi, lo } => (hi == 0 && lo == 1) || (hi >> 57) == 0x7e,
    }
}

pub fn is_private_ip(ip: IpAddress) -> (r: bool)
    ensures
        r == is_private_ip_spec(ip),
{
    match ip {
        IpAddress::V4 { a, b, c, d: _ } => a == 127 || a == 10 || (a == 172 && 16 <= b && b < 32)
            || (a == 192 && b == 168),
        IpAddress::V6 { hi, lo } => (hi == 0 && lo == 1) || (hi >> 57) == 0x7e,
    }
}

/// The origin gate: a request is allowed through when blocking is off, or
/// when the peer is loopback/private.
pub open spec fn origin_allowed_spec(block_external: bool, ip: IpAddress) -> bool {
    !block_external || is_private_ip_spec(ip)
}

pub fn origin_allowed(block_external: bool, ip: IpAddress) -> (r: bool)
    ensures
        r == origin_allowed_spec(block_external, ip),
{
    !block_external || is_private_ip(ip)
}

/// A decimal digit.
pub open spec fn is_digit(c: char) -> bool {
    '0' <= c && c <= '9'
}

pub open spec fn digit_val(c: char) -> nat {
    (c as int - '0' as int) as nat
}

pub open spec fn all_digits(s: Seq<char>) -> bool {
    forall|i: int| 0 <= i < s.len() ==> is_digit(#[trigger] s[i])
}

/// The number a digit string denotes, most significant digit first.
pub open spec fn dec_value(s: Seq<char>) -> nat
    decreases s.len(),
{
    if s.len() == 0 {
        0
    } else {
        dec_value(s.drop_last()) * 10 + digit_val(s.last())
    }
}

/// Longer digit prefixes denote no smaller numbers.
proof fn lemma_dec_value_monotone(s: Seq<char>, i: int, j: int)
    requires
        0 <= i <= j <= s.len(),
    ensures
        dec_value(s.take(j)) >= dec_value(s.take(i)),
    decreases j - i,
{
    if i < j {
        lemma_dec_value_monotone(s, i, j - 1);
        assert(s.take(j).drop_last() =~= s.take(j - 1));
    }
}

/// Parses a port number: a non-empty string of decimal digits whose
/// value fits a `u16`; anything else — empty, a stray character, a
/// value past 65535 — is refused.
pub fn parse_port(s: &str) -> (r: Option<u16>)
    ensures
        r == if s@.len() > 0 && all_digits(s@) && dec_value(s@) <= u16::MAX {
            Some(dec_value(s@) as u16)
        } else {
            None::<u16>
        },
{
    let n = s.unicode_len();
    if n == 0 {
        return None;
    }
    let mut acc: u32 = 0;
    let mut i: usize = 0;
    while i < n
        invariant
            i <= n,
            n == s@.len(),
            forall|j: int| 0 <= j < i ==> is_digit(#[trigger] s@[j]),
            acc as nat == dec_value(s@.take(i as int)),
            acc <= 65535,
        decreases n - i,
    {
        let c = s.get_char(i);
        let v = c as u32;
        if v < 48 || v > 57 {
            assert(!is_digit(s@[i as int]));
            return None;
        }
        let d = v - 48;
        proof {
            assert(s@.take(i + 1int).drop_last() =~= s@.take(i as int));
            assert(s@.take(i + 1int).last() == s@[i as int]);
        }
        if acc > 6553 || (acc == 6553 && d > 5) {
            proof {
                assert(dec_value(s@.take(i + 1int)) > 65535);
                lemma_dec_value_monotone(s@, i + 1, n as int);
                assert(s@.take(n as int) =~= s@);
            }
            return None;
        }
        acc = acc * 10 + d;
        i += 1;
    }
    proof {
        assert(s@.take(n as int) =~= s@);
    }
    Some(acc as u16)
}

} // verus!
