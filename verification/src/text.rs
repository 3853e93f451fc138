use vstd::prelude::*;
use vstd::string::StringExecFns;

use crate::addr::{IpAddress, PeerAddr};

verus! {

/// The character of one digit; digits above nine are the letters `a` to `f`.
pub open spec fn digit_text(d: int) -> Seq<char> {
    if d == 0 {
        "0"@
    } else if d == 1 {
        "1"@
    } else if d == 2 {
        "2"@
    } else if d == 3 {
        "3"@
    } else if d == 4 {
        "4"@
    } else if d == 5 {
        "5"@
    } else if d == 6 {
        "6"@
    } else if d == 7 {
        "7"@
    } else if d == 8 {
        "8"@
    } else if d == 9 {
        "9"@
    } else if d == 10 {
        "a"@
    } else if d == 11 {
        "b"@
    } else if d == 12 {
        "c"@
    } else if d == 13 {
        "d"@
    } else if d == 14 {
        "e"@
    } else {
        "f"@
    }
}

/// The digits of `n`, the most significant first, without leading zeros;
/// zero is the one digit `0`. In hexadecimal where `hex` is set, else in
/// decimal.
pub open spec fn numeral(n: nat, hex: bool) -> Seq<char>
    decreases n,
{
    if hex {
        if n < 16 {
            digit_text(n as int)
        } else {
            numeral(n / 16, hex) + digit_text((n % 16) as int)
        }
    } else {
        if n < 10 {
            digit_text(n as int)
        } else {
            numeral(n / 10, hex) + digit_text((n % 10) as int)
        }
    }
}

/// `n` in decimal.
pub open spec fn decimal(n: nat) -> Seq<char> {
    numeral(n, false)
}

/// The eight groups of an IPv6 address, or the last `count` of them, each in
/// hexadecimal without leading zeros, with colons between them. No run of
/// zero groups is shortened.
pub open spec fn groups_text(bits: nat, count: nat) -> Seq<char>
    decreases count,
{
    if count <= 1 {
        numeral(bits % 65536, true)
    } else {
        groups_text(bits / 65536, (count - 1) as nat) + ":"@ + numeral(bits % 65536, true)
    }
}

/// The text of an address without its port: dotted decimal for IPv4, eight
/// colon-separated groups for IPv6.
pub open spec fn ip_text(ip: IpAddress) -> Seq<char> {
    match ip {
        IpAddress::V4(bits) => decimal((bits / 16777216) as nat) + "."@ + decimal(
            ((bits / 65536) % 256) as nat,
        ) + "."@ + decimal(((bits / 256) % 256) as nat) + "."@ + decimal((bits % 256) as nat),
        IpAddress::V6(bits) => groups_text(bits as nat, 8),
    }
}

/// The text of a peer address: `a.b.c.d:port`, or `[groups]:port` for IPv6.
pub open spec fn addr_text(addr: PeerAddr) -> Seq<char> {
    match addr.ip {
        IpAddress::V4(_) => ip_text(addr.ip) + ":"@ + decimal(addr.port as nat),
        IpAddress::V6(_) => "["@ + ip_text(addr.ip) + "]:"@ + decimal(addr.port as nat),
    }
}

fn digit_str(d: u64) -> (r: &'static str)
    requires
        d < 16,
    ensures
        r@ == digit_text(d as int),
{
    if d == 0 {
        "0"
    } else if d == 1 {
        "1"
    } else if d == 2 {
        "2"
    } else if d == 3 {
        "3"
    } else if d == 4 {
        "4"
    } else if d == 5 {
        "5"
    } else if d == 6 {
        "6"
    } else if d == 7 {
        "7"
    } else if d == 8 {
        "8"
    } else if d == 9 {
        "9"
    } else if d == 10 {
        "a"
    } else if d == 11 {
        "b"
    } else if d == 12 {
        "c"
    } else if d == 13 {
        "d"
    } else if d == 14 {
        "e"
    } else {
        "f"
    }
}

/// Writes `n` at the end of `out`: in hexadecimal where `hex` is set, else
/// in decimal.
pub fn push_numeral(out: &mut String, n: u64, hex: bool)
    ensures
        final(out)@ == old(out)@ + numeral(n as nat, hex),
    decreases n,
{
    if hex {
        if n >= 16 {
            push_numeral(out, n / 16, hex);
            out.append(digit_str(n % 16));
            assert(final(out)@ =~= old(out)@ + numeral(n as nat, hex));
        } else {
            out.append(digit_str(n));
        }
    } else {
        if n >= 10 {
            push_numeral(out, n / 10, hex);
            out.append(digit_str(n % 10));
            assert(final(out)@ =~= old(out)@ + numeral(n as nat, hex));
        } else {
            out.append(digit_str(n));
        }
    }
}

/// Writes the last `count` groups of the IPv6 address `bits` at the end of `out`.
fn push_groups(out: &mut String, bits: u128, count: u8)
    ensures
        final(out)@ == old(out)@ + groups_text(bits as nat, count as nat),
    decreases count,
{
    let low: u128 = bits % 65536;
    if count <= 1 {
        push_numeral(out, low as u64, true);
    } else {
        push_groups(out, bits / 65536, count - 1);
        out.append(":");
        push_numeral(out, low as u64, true);
        assert(final(out)@ =~= old(out)@ + groups_text(bits as nat, count as nat));
    }
}

/// Writes the text of `ip` at the end of `out`.
pub fn push_ip(out: &mut String, ip: IpAddress)
    ensures
        final(out)@ == old(out)@ + ip_text(ip),
{
    match ip {
        IpAddress::V4(bits) => {
            let a: u32 = bits / 16777216;
            let b: u32 = (bits / 65536) % 256;
            let c: u32 = (bits / 256) % 256;
            let d: u32 = bits % 256;
            push_numeral(out, a as u64, false);
            out.append(".");
            push_numeral(out, b as u64, false);
            out.append(".");
            push_numeral(out, c as u64, false);
            out.append(".");
            push_numeral(out, d as u64, false);
            assert(final(out)@ =~= old(out)@ + ip_text(ip));
        },
        IpAddress::V6(bits) => {
            push_groups(out, bits, 8);
        },
    }
}

/// Writes the text of `addr` at the end of `out`.
pub fn push_addr(out: &mut String, addr: PeerAddr)
    ensures
        final(out)@ == old(out)@ + addr_text(addr),
{
    match addr.ip {
        IpAddress::V4(_) => {
            push_ip(out, addr.ip);
            out.append(":");
            push_numeral(out, addr.port as u64, false);
            assert(final(out)@ =~= old(out)@ + addr_text(addr));
        },
        IpAddress::V6(_) => {
            out.append("[");
            push_ip(out, addr.ip);
            out.append("]:");
            push_numeral(out, addr.port as u64, false);
            assert(final(out)@ =~= old(out)@ + addr_text(addr));
        },
    }
}

impl IpAddress {
    /// The address as text.
    pub fn to_text(&self) -> (r: String)
        ensures
            r@ == ip_text(*self),
    {
        let mut out = String::new();
        push_ip(&mut out, *self);
        assert(out@ =~= ip_text(*self));
        out
    }
}

impl PeerAddr {
    /// The address as text.
    pub fn to_text(&self) -> (r: String)
        ensures
            r@ == addr_text(*self),
    {
        let mut out = String::new();
        push_addr(&mut out, *self);
        assert(out@ =~= addr_text(*self));
        out
    }
}

} // verus!
