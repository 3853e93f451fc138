use vstd::prelude::*;

verus! {

/// An internet address without a port, as plain integers.
#[derive(Clone, Copy, Debug, PartialEq, Eq, Structural)]
pub enum IpAddress {
    /// The four octets of an IPv4 address, most significant first.
    V4(u32),
    /// The sixteen octets of an IPv6 address, most significant first.
    V6(u128),
}

/// The transport address of a peer: the primary key of every table in this crate.
#[derive(Clone, Copy, Debug, PartialEq, Eq, Structural)]
pub struct PeerAddr {
    pub ip: IpAddress,
    pub port: u16,
}

impl IpAddress {
    /// Whether this is the address of the machine itself: `127.0.0.1` or `::1`.
    pub open spec fn is_localhost(self) -> bool {
        self == IpAddress::V4(0x7f000001) || self == IpAddress::V6(1)
    }

    /// Whether this is the address of the machine itself.
    pub fn localhost(&self) -> (r: bool)
        ensures
            r == self.is_localhost(),
    {
        match *self {
            IpAddress::V4(bits) => bits == 0x7f000001,
            IpAddress::V6(bits) => bits == 1,
        }
    }
}

/// The first of `addrs` that is not the address of the machine itself.
pub open spec fn first_public(addrs: Seq<IpAddress>) -> Option<IpAddress>
    decreases addrs.len(),
{
    if addrs.len() == 0 {
        None
    } else if !addrs[0].is_localhost() {
        Some(addrs[0])
    } else {
        first_public(addrs.drop_first())
    }
}

/// Picks the public address of the device among the addresses of its
/// interfaces: the first that is not the address of the machine itself.
pub fn pick_public_ip(addrs: &Vec<IpAddress>) -> (r: Option<IpAddress>)
    ensures
        r == first_public(addrs@),
{
    let mut i: usize = 0;
    assert(addrs@.subrange(0, addrs@.len() as int) =~= addrs@);
    while i < addrs.len()
        invariant
            i <= addrs.len(),
            first_public(addrs@.subrange(i as int, addrs@.len() as int)) == first_public(addrs@),
        decreases addrs.len() - i,
    {
        let ghost rest = addrs@.subrange(i as int, addrs@.len() as int);
        assert(rest[0] == addrs@[i as int]);
        assert(rest.drop_first() =~= addrs@.subrange(i + 1, addrs@.len() as int));
        if !addrs[i].localhost() {
            return Some(addrs[i]);
        }
        i += 1;
    }
    None
}

impl PeerAddr {
    /// The address `0.0.0.0:0`, under which the manager registers itself.
    pub open spec fn unspecified() -> PeerAddr {
        PeerAddr { ip: IpAddress::V4(0), port: 0 }
    }

    /// Builds an IPv4 peer address from its numeric form.
    pub fn v4(bits: u32, port: u16) -> (r: PeerAddr)
        ensures
            r == (PeerAddr { ip: IpAddress::V4(bits), port }),
    {
        PeerAddr { ip: IpAddress::V4(bits), port }
    }
}

} // verus!
