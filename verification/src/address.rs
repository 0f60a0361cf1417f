//! Addresses of the managed machines.
use vstd::prelude::*;
use crate::decimal::{decimal, push_decimal};

verus! {

/// An IP address, held as the number that its octets spell: IPv4 as a
/// 32-bit number, IPv6 as a 128-bit number (the same values that
/// `std::net::Ipv4Addr` and `Ipv6Addr` convert to and from).
#[derive(Clone, Copy, Debug, PartialEq, Eq, Structural)]
pub enum IpAddress {
    V4(u32),
    V6(u128),
}

/// The dotted-decimal text of an IPv4 address, as `Ipv4Addr`'s `Display`
/// writes it: the four octets, most significant first, in decimal, joined by
/// dots.
pub open spec fn ipv4_text(x: u32) -> Seq<char> {
    decimal((x / 16777216) as nat) + seq!['.'] + decimal(((x / 65536) % 256) as nat) + seq!['.']
        + decimal(((x / 256) % 256) as nat) + seq!['.'] + decimal((x % 256) as nat)
}

/// The text of an address: the dotted decimal of an IPv4 address, and for an
/// IPv6 address the given text.
pub open spec fn host_text(ip: IpAddress, ipv6_text: Seq<char>) -> Seq<char> {
    match ip {
        IpAddress::V4(x) => ipv4_text(x),
        IpAddress::V6(_) => ipv6_text,
    }
}

/// The dotted-decimal text of an IPv4 address.
pub fn ipv4_to_string(x: u32) -> (res: String)
    ensures
        res@ == ipv4_text(x),
{
    proof {
        reveal_strlit(".");
    }
    let mut s = String::new();
    push_decimal(&mut s, x / 16777216);
    s.append(".");
    push_decimal(&mut s, (x / 65536) % 256);
    s.append(".");
    push_decimal(&mut s, (x / 256) % 256);
    s.append(".");
    push_decimal(&mut s, x % 256);
    assert(s@ =~= ipv4_text(x));
    s
}

/// The text of an address. An IPv6 address is not rendered here (its
/// `Display` compresses zero runs and has special forms); its text is given.
pub fn host_to_string(ip: IpAddress, ipv6_text: &str) -> (res: String)
    ensures
        res@ == host_text(ip, ipv6_text@),
{
    match ip {
        IpAddress::V4(x) => ipv4_to_string(x),
        IpAddress::V6(_) => ipv6_text.to_owned(),
    }
}

} // verus!
