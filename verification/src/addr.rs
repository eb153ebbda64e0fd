//! The address model: an IPv4 endpoint as plain values.
//!
//! The verifier takes one resolved address — four octets and a port — as
//! its immutable input. The locality predicates mirror the standard IPv4
//! address classes: loopback (`127.0.0.0/8`), the private blocks
//! (`10.0.0.0/8`, `172.16.0.0/12`, `192.168.0.0/16`), and link-local
//! (`169.254.0.0/16`). An address in any of them is *local*, and a
//! configuration that names a local address as the node's own cannot be
//! reached by outside peers.

use vstd::prelude::*;
use vstd::string::StringExecFns;

verus! {

/// The decimal digit `d` as a character.
pub open spec fn digit_char(d: int) -> char {
    if d == 0 {
        '0'
    } else if d == 1 {
        '1'
    } else if d == 2 {
        '2'
    } else if d == 3 {
        '3'
    } else if d == 4 {
        '4'
    } else if d == 5 {
        '5'
    } else if d == 6 {
        '6'
    } else if d == 7 {
        '7'
    } else if d == 8 {
        '8'
    } else {
        '9'
    }
}

/// The canonical decimal rendering of `n`: no sign, no leading zero.
pub open spec fn spec_decimal(n: int) -> Seq<char>
    decreases n,
{
    if n <= 9 {
        seq![digit_char(n)]
    } else {
        spec_decimal(n / 10).push(digit_char(n % 10))
    }
}

/// The dotted-decimal rendering of an address.
pub open spec fn spec_ip_text(a: Ipv4Address) -> Seq<char> {
    spec_decimal(a.o0 as int) + seq!['.'] + spec_decimal(a.o1 as int) + seq!['.'] + spec_decimal(
        a.o2 as int,
    ) + seq!['.'] + spec_decimal(a.o3 as int)
}

/// The rendering of an endpoint: the address, a colon, the port.
pub open spec fn spec_socket_text(s: SocketAddressV4) -> Seq<char> {
    spec_ip_text(s.ip) + seq![':'] + spec_decimal(s.port as int)
}

/// The decimal digit `d` as a one-character string.
fn digit_text(d: u32) -> (r: &'static str)
    requires
        d <= 9,
    ensures
        r@ == seq![digit_char(d as int)],
{
    let r = match d {
        0 => "0",
        1 => "1",
        2 => "2",
        3 => "3",
        4 => "4",
        5 => "5",
        6 => "6",
        7 => "7",
        8 => "8",
        _ => "9",
    };
    proof {
        reveal_strlit("0");
        reveal_strlit("1");
        reveal_strlit("2");
        reveal_strlit("3");
        reveal_strlit("4");
        reveal_strlit("5");
        reveal_strlit("6");
        reveal_strlit("7");
        reveal_strlit("8");
        reveal_strlit("9");
        assert(r@ =~= seq![digit_char(d as int)]);
    }
    r
}

/// Appends the canonical decimal rendering of `n` to `out`.
fn push_decimal(n: u32, out: &mut String)
    ensures
        final(out)@ == old(out)@ + spec_decimal(n as int),
    decreases n,
{
    if n <= 9 {
        out.append(digit_text(n));
        assert(out@ =~= old(out)@ + spec_decimal(n as int));
    } else {
        push_decimal(n / 10, out);
        out.append(digit_text(n % 10));
        assert(out@ =~= old(out)@ + spec_decimal(n as int));
    }
}

/// An IPv4 address, by its four octets in order.
#[derive(Clone, Copy, Debug, PartialEq, Eq, Structural, Hash)]
pub struct Ipv4Address {
    pub o0: u8,
    pub o1: u8,
    pub o2: u8,
    pub o3: u8,
}

/// An IPv4 endpoint: address and port.
#[derive(Clone, Copy, Debug, PartialEq, Eq, Structural, Hash)]
pub struct SocketAddressV4 {
    pub ip: Ipv4Address,
    pub port: u16,
}

/// Membership in `127.0.0.0/8`.
pub open spec fn spec_is_loopback(a: Ipv4Address) -> bool {
    a.o0 == 127
}

/// Membership in `10.0.0.0/8`, `172.16.0.0/12` or `192.168.0.0/16`.
pub open spec fn spec_is_private(a: Ipv4Address) -> bool {
    (a.o0 == 10) || (a.o0 == 172 && 16 <= a.o1 <= 31) || (a.o0 == 192 && a.o1 == 168)
}

/// Membership in `169.254.0.0/16`.
pub open spec fn spec_is_link_local(a: Ipv4Address) -> bool {
    a.o0 == 169 && a.o1 == 254
}

/// A local address: loopback, private or link-local.
pub open spec fn spec_is_local(a: Ipv4Address) -> bool {
    spec_is_loopback(a) || spec_is_private(a) || spec_is_link_local(a)
}

impl Ipv4Address {
    pub fn new(o0: u8, o1: u8, o2: u8, o3: u8) -> (a: Ipv4Address)
        ensures
            a == (Ipv4Address { o0, o1, o2, o3 }),
    {
        Ipv4Address { o0, o1, o2, o3 }
    }

    pub fn is_loopback(&self) -> (r: bool)
        ensures
            r == spec_is_loopback(*self),
    {
        self.o0 == 127
    }

    pub fn is_private(&self) -> (r: bool)
        ensures
            r == spec_is_private(*self),
    {
        (self.o0 == 10) || (self.o0 == 172 && 16 <= self.o1 && self.o1 <= 31) || (self.o0 == 192
            && self.o1 == 168)
    }

    pub fn is_link_local(&self) -> (r: bool)
        ensures
            r == spec_is_link_local(*self),
    {
        self.o0 == 169 && self.o1 == 254
    }

    /// Whether this address is local, in the sense a peer outside the
    /// machine's own networks could never reach it: loopback, private or
    /// link-local.
    pub fn is_local(&self) -> (r: bool)
        ensures
            r == spec_is_local(*self),
    {
        self.is_loopback() || self.is_private() || self.is_link_local()
    }

    /// The dotted-decimal text of this address.
    pub fn to_text(&self) -> (r: String)
        ensures
            r@ == spec_ip_text(*self),
    {
        let mut out = String::new();
        push_decimal(self.o0 as u32, &mut out);
        out.append(".");
        push_decimal(self.o1 as u32, &mut out);
        out.append(".");
        push_decimal(self.o2 as u32, &mut out);
        out.append(".");
        push_decimal(self.o3 as u32, &mut out);
        proof {
            reveal_strlit(".");
            assert("."@ =~= seq!['.']);
            assert(out@ =~= spec_ip_text(*self));
        }
        out
    }
}

impl SocketAddressV4 {
    pub fn new(ip: Ipv4Address, port: u16) -> (s: SocketAddressV4)
        ensures
            s == (SocketAddressV4 { ip, port }),
    {
        SocketAddressV4 { ip, port }
    }

    /// The text of this endpoint: the address, a colon, the port.
    pub fn to_text(&self) -> (r: String)
        ensures
            r@ == spec_socket_text(*self),
    {
        let mut out = self.ip.to_text();
        out.append(":");
        push_decimal(self.port as u32, &mut out);
        proof {
            reveal_strlit(":");
            assert(":"@ =~= seq![':']);
            assert(out@ =~= spec_socket_text(*self));
        }
        out
    }
}

} // verus!
